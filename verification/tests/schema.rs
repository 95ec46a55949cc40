use rrrdb::parser::ParserError;
use rrrdb::schema::store::{create_table, schema_key};
use rrrdb::schema::{Column, ColumnType, Database, Table};
use rrrdb::storage::Namespace;
use rrrdb::text::{parse_i64, to_lowercase, usize_to_text};
use rrrdb::{
    DBError, ErrorKind, FieldMetadata, FieldValue, OkDBResult, Record, ResultMetadata, ResultSet,
};

#[test]
fn column_type_names_and_aliases() {
    assert_eq!(ColumnType::parse("string"), Some(ColumnType::Varchar));
    assert_eq!(ColumnType::parse("varchar"), Some(ColumnType::Varchar));
    assert_eq!(ColumnType::parse("int"), Some(ColumnType::Integer));
    assert_eq!(ColumnType::parse("integer"), Some(ColumnType::Integer));
    assert_eq!(ColumnType::parse("VarChar"), Some(ColumnType::Varchar));
    assert_eq!(ColumnType::parse("INT"), Some(ColumnType::Integer));
    assert_eq!(ColumnType::parse("text"), None);
    assert_eq!(ColumnType::parse(""), None);
    assert_eq!(ColumnType::find("Varchar"), Some(ColumnType::Varchar));
    assert_eq!(ColumnType::find("INTEGER"), Some(ColumnType::Integer));
    assert_eq!(ColumnType::find("int"), None);
    assert_eq!(ColumnType::find("string"), None);
    assert_eq!(ColumnType::Varchar.to_string(), "varchar");
    assert_eq!(ColumnType::Integer.to_string(), "integer");
}

#[test]
fn column_id_is_the_key_column() {
    assert_eq!(Column::ID, "id");
}

#[test]
fn table_column_finds_the_first_of_a_name() {
    let table = Table::new(
        "t".to_string(),
        vec![
            Column::new("a".to_string(), ColumnType::Integer),
            Column::new("b".to_string(), ColumnType::Varchar),
            Column::new("a".to_string(), ColumnType::Varchar),
        ],
    );
    assert_eq!(table.column("a"), Some(Column::new("a".to_string(), ColumnType::Integer)));
    assert_eq!(table.column("b"), Some(Column::new("b".to_string(), ColumnType::Varchar)));
    assert_eq!(table.column("A"), None);
    assert_eq!(table.column(""), None);
}

#[test]
fn database_table_finds_the_first_of_a_name() {
    let first = Table::new("t".to_string(), vec![Column::new("a".to_string(), ColumnType::Integer)]);
    let second = Table::new("t".to_string(), vec![]);
    let other = Table::new("u".to_string(), vec![]);
    let database = Database {
        name: "d".to_string(),
        tables: vec![first.clone(), second, other.clone()],
    };
    assert_eq!(database.table("t"), Some(first));
    assert_eq!(database.table("u"), Some(other));
    assert_eq!(database.table("v"), None);
    assert_eq!(Database::empty("d".to_string()), Database { name: "d".to_string(), tables: vec![] });
    assert_eq!(Database::empty("d".to_string()).table("t"), None);
}

#[test]
fn create_table_starts_an_empty_catalog() {
    let table = Table::new("t".to_string(), vec![]);
    assert_eq!(
        create_table(None, "d", table.clone()),
        Ok(Database { name: "d".to_string(), tables: vec![table] })
    );
}

#[test]
fn create_table_appends_to_the_catalog_that_was_found() {
    let first = Table::new("t".to_string(), vec![]);
    let second = Table::new("u".to_string(), vec![]);
    let found = Database { name: "kept".to_string(), tables: vec![first.clone()] };
    assert_eq!(
        create_table(Some(found), "d", second.clone()),
        Ok(Database { name: "kept".to_string(), tables: vec![first, second] })
    );
}

#[test]
fn schema_key_has_the_suffix() {
    assert_eq!(schema_key("test_db"), "test_db_schema");
    assert_eq!(schema_key(""), "_schema");
}

#[test]
fn namespace_keyspaces() {
    assert_eq!(Namespace::Metadata.cf_name(), "metadata");
    assert_eq!(Namespace::database("test_db").cf_name(), "test_db");
    assert_eq!(Namespace::table("test_db", "users").cf_name(), "test_db_users");
    assert_eq!(Namespace::database("d"), Namespace::Database("d".to_string()));
    assert_eq!(
        Namespace::table("d", "t"),
        Namespace::Table { database_name: "d".to_string(), name: "t".to_string() }
    );
}

#[test]
fn error_of_a_missing_namespace() {
    assert_eq!(
        DBError::namespace_not_found(&Namespace::table("test_db", "users")),
        DBError { kind: ErrorKind::Storage, message: "ColumnFamily(test_db_users) not found".to_string() }
    );
    assert_eq!(
        DBError::namespace_not_found(&Namespace::Metadata).message,
        "ColumnFamily(metadata) not found"
    );
}

#[test]
fn error_of_a_parser_error() {
    assert_eq!(
        DBError::from_parser_error(&ParserError::TokenizeError("x".to_string())),
        DBError::new(ErrorKind::Tokenize, "TokenizeError: x".to_string())
    );
    assert_eq!(
        DBError::from_parser_error(&ParserError::ParseError("y".to_string(), 3)),
        DBError::new(ErrorKind::Parse, "ParseError: y".to_string())
    );
}

#[test]
fn result_set_and_record_get() {
    let record = Record::new(vec![FieldValue::Int(1), FieldValue::Text("a".to_string())]);
    assert_eq!(record.get(0), Some(&FieldValue::Int(1)));
    assert_eq!(record.get(1), Some(&FieldValue::Text("a".to_string())));
    assert_eq!(record.get(2), None);
    let other = Record::new(vec![FieldValue::Bytes(vec![1, 2])]);
    let result = ResultSet::new(vec![record, other], ResultMetadata::default());
    assert_eq!(result.get(1), Some(&Record::new(vec![FieldValue::Bytes(vec![1, 2])])));
    assert_eq!(result.get(2), None);
    assert_eq!(ResultSet::new(vec![], ResultMetadata::new(vec![])).get(0), None);
    assert_eq!(ResultMetadata::default(), ResultMetadata::new(vec![]));
    assert_ne!(OkDBResult::ExecutionResult, OkDBResult::SelectResult(result));
}

#[test]
fn field_metadata_type() {
    assert_eq!(FieldMetadata::new("id", "integer").field_type(), Some(ColumnType::Integer));
    assert_eq!(FieldMetadata::new("name", "string").field_type(), Some(ColumnType::Varchar));
    assert_eq!(FieldMetadata::new("x", "blob").field_type(), None);
    assert_eq!(FieldMetadata::new("id", "integer").field_name, "id");
}

#[test]
fn integers_from_text() {
    assert_eq!(parse_i64("0"), Some(0));
    assert_eq!(parse_i64("007"), Some(7));
    assert_eq!(parse_i64("+5"), Some(5));
    assert_eq!(parse_i64("-5"), Some(-5));
    assert_eq!(parse_i64("-0"), Some(0));
    assert_eq!(parse_i64("9223372036854775807"), Some(i64::MAX));
    assert_eq!(parse_i64("9223372036854775808"), None);
    assert_eq!(parse_i64("-9223372036854775808"), Some(i64::MIN));
    assert_eq!(parse_i64("-9223372036854775809"), None);
    assert_eq!(parse_i64("00000000000000000000000000000000000000000000012"), Some(12));
    assert_eq!(parse_i64("999999999999999999999999999999999999999999999999"), None);
    assert_eq!(parse_i64(""), None);
    assert_eq!(parse_i64("-"), None);
    assert_eq!(parse_i64("+"), None);
    assert_eq!(parse_i64("1a"), None);
    assert_eq!(parse_i64(" 1"), None);
    assert_eq!(parse_i64("1 "), None);
    assert_eq!(parse_i64("--1"), None);
    assert_eq!(parse_i64("1_000"), None);
    assert_eq!(parse_i64("\u{661}"), None);
    for text in ["17", "-3", "+8", "x", "", "123456789012345678901234567890"] {
        assert_eq!(parse_i64(text), text.parse::<i64>().ok());
    }
}

#[test]
fn numbers_as_text() {
    assert_eq!(usize_to_text(0), "0");
    assert_eq!(usize_to_text(9), "9");
    assert_eq!(usize_to_text(10), "10");
    assert_eq!(usize_to_text(12345), "12345");
    assert_eq!(usize_to_text(usize::MAX), usize::MAX.to_string());
}

#[test]
fn lowercase_changes_ascii_capitals_only() {
    assert_eq!(to_lowercase("SeLeCt_1 \u{c9}\u{212a}"), "select_1 \u{c9}\u{212a}");
    assert_eq!(to_lowercase(""), "");
}
