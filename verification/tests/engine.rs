use std::collections::BTreeMap;

use rrrdb::parser::ast::Value;
use rrrdb::parser::Parser;
use rrrdb::schema::store::{create_table, schema_key};
use rrrdb::schema::{Column, ColumnType, Database, Table};
use rrrdb::sql::executor::{Executor, Stage, Step};
use rrrdb::sql::planner::{
    CreateDatabasePlan, CreateTablePlan, Filter, InsertPlan, Plan, Planner, ProjectionPlan,
    RecordValue, SelectPlan, SelectTablePlan,
};
use rrrdb::storage::{needs_metadata_keyspace, Namespace, StorageReply, StorageRequest};
use rrrdb::{
    DBError, DBResult, ErrorKind, FieldMetadata, FieldValue, OkDBResult, Record, ResultMetadata,
    ResultSet,
};

/// An ordered key-value store with named keyspaces, held in memory.
struct MemoryStore {
    keyspaces: BTreeMap<String, BTreeMap<String, Vec<u8>>>,
    requests: Vec<StorageRequest>,
}

impl MemoryStore {
    fn new() -> Self {
        let mut keyspaces = BTreeMap::new();
        keyspaces.insert(Namespace::Metadata.cf_name(), BTreeMap::new());
        Self { keyspaces, requests: vec![] }
    }

    fn keyspace(&mut self, namespace: &Namespace) -> Result<&mut BTreeMap<String, Vec<u8>>, StorageReply> {
        match self.keyspaces.get_mut(&namespace.cf_name()) {
            Some(keyspace) => Ok(keyspace),
            None => Err(StorageReply::Failed(DBError::namespace_not_found(namespace))),
        }
    }

    fn find_schema(&mut self, namespace: &Namespace, key: &str) -> StorageReply {
        match self.keyspace(namespace) {
            Err(failed) => failed,
            Ok(keyspace) => StorageReply::Schema(keyspace.get(key).map(|bytes| decode_catalog(bytes))),
        }
    }

    fn perform(&mut self, request: StorageRequest) -> StorageReply {
        self.requests.push(request.clone());
        match request {
            StorageRequest::Iterate { namespace } => match self.keyspace(&namespace) {
                Err(failed) => failed,
                Ok(keyspace) => StorageReply::Rows(
                    keyspace.iter().map(|(key, value)| (key.clone(), value.clone())).collect(),
                ),
            },
            StorageRequest::Put { namespace, key, value } => match self.keyspace(&namespace) {
                Err(failed) => failed,
                Ok(keyspace) => {
                    keyspace.insert(key, value);
                    StorageReply::Done
                }
            },
            StorageRequest::CreateKeyspace { name } => {
                if self.keyspaces.contains_key(&name) {
                    StorageReply::Failed(DBError::new(
                        ErrorKind::Storage,
                        "Invalid argument: Column family already exists".to_string(),
                    ))
                } else {
                    self.keyspaces.insert(name, BTreeMap::new());
                    StorageReply::Done
                }
            }
            StorageRequest::FindSchema { namespace, key } => self.find_schema(&namespace, &key),
            StorageRequest::SaveSchema { namespace, key, database } => {
                match self.keyspace(&namespace) {
                    Err(failed) => failed,
                    Ok(keyspace) => {
                        keyspace.insert(key, encode_catalog(&database));
                        StorageReply::Done
                    }
                }
            }
        }
    }

    fn execute(&mut self, database_name: &str, sql: &str) -> DBResult {
        let statement = Parser::parse_sql(Some(database_name.to_string()), sql)
            .map_err(|e| DBError::from_parser_error(&e))?;
        let database = match self.find_schema(&Namespace::Metadata, &schema_key(database_name)) {
            StorageReply::Schema(database) => database,
            StorageReply::Failed(e) => return Err(e),
            _ => unreachable!(),
        };
        let plan = Planner::new(database_name, database, statement).plan()?;
        let mut executor = Executor::new(plan);
        let mut step = executor.execute();
        loop {
            match step {
                Step::Finished(result) => return result,
                Step::Perform(request) => {
                    let reply = self.perform(request);
                    step = executor.resume(reply);
                }
            }
        }
    }
}

/// The catalog as bytes, one line for the database and one for each table.
fn encode_catalog(database: &Database) -> Vec<u8> {
    let mut text = database.name.clone();
    for table in &database.tables {
        text.push('\n');
        text.push_str(&table.name);
        for column in &table.columns {
            text.push('\t');
            text.push_str(&column.name);
            text.push(' ');
            text.push_str(&column.column_type.to_string());
        }
    }
    text.into_bytes()
}

fn decode_catalog(bytes: &[u8]) -> Database {
    let text = String::from_utf8(bytes.to_vec()).unwrap();
    let mut lines = text.split('\n');
    let name = lines.next().unwrap().to_string();
    let tables = lines
        .map(|line| {
            let mut parts = line.split('\t');
            let table_name = parts.next().unwrap().to_string();
            let columns = parts
                .map(|part| {
                    let (column_name, column_type) = part.split_once(' ').unwrap();
                    Column::new(column_name.to_string(), ColumnType::parse(column_type).unwrap())
                })
                .collect();
            Table::new(table_name, columns)
        })
        .collect();
    Database { name, tables }
}

fn users_store() -> MemoryStore {
    let mut store = MemoryStore::new();
    assert_eq!(
        store.execute("test_db", "CREATE TABLE users (id integer, name varchar)"),
        Ok(OkDBResult::ExecutionResult)
    );
    store
}

fn users_table() -> Table {
    Table::new(
        "users".to_string(),
        vec![
            Column::new("id".to_string(), ColumnType::Integer),
            Column::new("name".to_string(), ColumnType::Varchar),
        ],
    )
}

fn users_database() -> Database {
    Database { name: "test_db".to_string(), tables: vec![users_table()] }
}

fn users_metadata() -> ResultMetadata {
    ResultMetadata::new(vec![
        FieldMetadata::new("id", "integer"),
        FieldMetadata::new("name", "varchar"),
    ])
}

fn select_result(records: Vec<Record>, metadata: ResultMetadata) -> DBResult {
    Ok(OkDBResult::SelectResult(ResultSet::new(records, metadata)))
}

fn error(kind: ErrorKind, message: &str) -> DBError {
    DBError::new(kind, message.to_string())
}

#[test]
fn create_table_then_select_all_gives_the_declared_columns() {
    let mut store = users_store();
    assert_eq!(store.execute("test_db", "SELECT * FROM users"), select_result(vec![], users_metadata()));
}

#[test]
fn create_table_with_other_column_order() {
    let mut store = MemoryStore::new();
    store.execute("d", "CREATE TABLE t (zeta string, id int, alpha VARCHAR)").unwrap();
    assert_eq!(
        store.execute("d", "SELECT * FROM t"),
        select_result(
            vec![],
            ResultMetadata::new(vec![
                FieldMetadata::new("zeta", "varchar"),
                FieldMetadata::new("id", "integer"),
                FieldMetadata::new("alpha", "varchar"),
            ])
        )
    );
}

#[test]
fn create_table_with_a_name_declared_twice_keeps_the_declared_order() {
    let mut store = MemoryStore::new();
    store.execute("d", "CREATE TABLE t (a int, b string, a string)").unwrap();
    assert_eq!(
        store.execute("d", "SELECT * FROM t"),
        select_result(
            vec![],
            ResultMetadata::new(vec![
                FieldMetadata::new("a", "integer"),
                FieldMetadata::new("b", "varchar"),
                FieldMetadata::new("a", "varchar"),
            ])
        )
    );
}

#[test]
fn insert_then_select_by_id_returns_the_row() {
    let mut store = users_store();
    assert_eq!(
        store.execute("test_db", "INSERT INTO users VALUES (1, 'Alice')"),
        Ok(OkDBResult::ExecutionResult)
    );
    assert_eq!(
        store.execute("test_db", "SELECT * FROM users WHERE id = 1"),
        select_result(
            vec![Record::new(vec![FieldValue::Int(1), FieldValue::Text("Alice".to_string())])],
            users_metadata()
        )
    );
}

#[test]
fn insert_stores_the_row_as_json_under_its_id() {
    let mut store = users_store();
    store.execute("test_db", "INSERT INTO users VALUES (1, 'Alice')").unwrap();
    assert_eq!(
        store.requests.last(),
        Some(&StorageRequest::Put {
            namespace: Namespace::table("test_db", "users"),
            key: "1".to_string(),
            value: br#"{"id":"1","name":"Alice"}"#.to_vec(),
        })
    );
    assert_eq!(
        store.keyspaces.get("test_db_users").unwrap().get("1"),
        Some(&br#"{"id":"1","name":"Alice"}"#.to_vec())
    );
}

#[test]
fn insert_again_overwrites() {
    let mut store = users_store();
    store.execute("test_db", "INSERT INTO users VALUES (1, 'Alice')").unwrap();
    store.execute("test_db", "INSERT INTO users VALUES (1, 'Alice')").unwrap();
    assert_eq!(store.keyspaces.get("test_db_users").unwrap().len(), 1);
    assert_eq!(
        store.execute("test_db", "SELECT * FROM users WHERE id = 1"),
        select_result(
            vec![Record::new(vec![FieldValue::Int(1), FieldValue::Text("Alice".to_string())])],
            users_metadata()
        )
    );
}

#[test]
fn insert_with_the_same_id_replaces_the_row() {
    let mut store = users_store();
    store.execute("test_db", "INSERT INTO users VALUES (1, 'Alice')").unwrap();
    store.execute("test_db", "INSERT INTO users VALUES (1, 'Carol')").unwrap();
    assert_eq!(
        store.execute("test_db", "SELECT * FROM users"),
        select_result(
            vec![Record::new(vec![FieldValue::Int(1), FieldValue::Text("Carol".to_string())])],
            users_metadata()
        )
    );
}

#[test]
fn select_one_column_of_one_row() {
    let mut store = users_store();
    store.execute("test_db", "INSERT INTO users VALUES (1, 'Alice')").unwrap();
    store.execute("test_db", "INSERT INTO users VALUES (2, 'Bob')").unwrap();
    assert_eq!(
        store.execute("test_db", "SELECT name FROM users WHERE id = 2"),
        select_result(
            vec![Record::new(vec![FieldValue::Text("Bob".to_string())])],
            ResultMetadata::new(vec![FieldMetadata::new("name", "varchar")])
        )
    );
}

#[test]
fn select_lists_rows_in_the_order_of_their_keys() {
    let mut store = users_store();
    store.execute("test_db", "INSERT INTO users VALUES (2, 'Bob')").unwrap();
    store.execute("test_db", "INSERT INTO users VALUES (10, 'Dan')").unwrap();
    store.execute("test_db", "INSERT INTO users VALUES (1, 'Alice')").unwrap();
    assert_eq!(
        store.execute("test_db", "SELECT name, id FROM users"),
        select_result(
            vec![
                Record::new(vec![FieldValue::Text("Alice".to_string()), FieldValue::Int(1)]),
                Record::new(vec![FieldValue::Text("Dan".to_string()), FieldValue::Int(10)]),
                Record::new(vec![FieldValue::Text("Bob".to_string()), FieldValue::Int(2)]),
            ],
            ResultMetadata::new(vec![
                FieldMetadata::new("name", "varchar"),
                FieldMetadata::new("id", "integer"),
            ])
        )
    );
}

#[test]
fn select_by_text() {
    let mut store = users_store();
    store.execute("test_db", "INSERT INTO users VALUES (1, 'Alice')").unwrap();
    store.execute("test_db", "INSERT INTO users VALUES (2, 'Bob')").unwrap();
    assert_eq!(
        store.execute("test_db", "SELECT id FROM users WHERE 'Bob' = name"),
        select_result(
            vec![Record::new(vec![FieldValue::Int(2)])],
            ResultMetadata::new(vec![FieldMetadata::new("id", "integer")])
        )
    );
    assert_eq!(
        store.execute("test_db", "SELECT id FROM users WHERE name = 'bob'"),
        select_result(vec![], ResultMetadata::new(vec![FieldMetadata::new("id", "integer")]))
    );
}

#[test]
fn select_compares_integers_as_integers() {
    let mut store = users_store();
    store.execute("test_db", "INSERT INTO users VALUES (007, 'Bond')").unwrap();
    assert_eq!(
        store.execute("test_db", "SELECT * FROM users WHERE id = 7"),
        select_result(
            vec![Record::new(vec![FieldValue::Int(7), FieldValue::Text("Bond".to_string())])],
            users_metadata()
        )
    );
}

#[test]
fn select_rejects_a_literal_of_another_type() {
    let mut store = users_store();
    store.execute("test_db", "INSERT INTO users VALUES (1, 'Alice')").unwrap();
    assert_eq!(
        store.execute("test_db", "SELECT * FROM users WHERE id = 'x'"),
        Err(error(ErrorKind::Data, "the literal and the column are of different types. column: id"))
    );
    assert_eq!(
        store.execute("test_db", "SELECT * FROM users WHERE name = 1"),
        Err(error(ErrorKind::Data, "the literal and the column are of different types. column: name"))
    );
}

#[test]
fn select_rejects_a_number_beyond_64_bits() {
    let mut store = users_store();
    store.execute("test_db", "INSERT INTO users VALUES (1, 'Alice')").unwrap();
    assert_eq!(
        store.execute("test_db", "SELECT * FROM users WHERE id = 9223372036854775808"),
        Err(error(ErrorKind::Data, "not a 64-bit integer: 9223372036854775808"))
    );
}

#[test]
fn insert_of_text_as_integer_shows_on_select() {
    let mut store = users_store();
    store.execute("test_db", "INSERT INTO users VALUES ('one', 'Alice')").unwrap();
    assert_eq!(
        store.execute("test_db", "SELECT * FROM users"),
        Err(error(ErrorKind::Data, "not a 64-bit integer: one"))
    );
}

#[test]
fn create_table_twice_fails() {
    let mut store = users_store();
    let before = store.keyspaces.clone();
    let second = store.execute("test_db", "CREATE TABLE users (id integer)");
    assert!(second.is_err());
    assert_eq!(store.keyspaces, before);
    assert_eq!(
        store.find_schema(&Namespace::Metadata, "test_db_schema"),
        StorageReply::Schema(Some(users_database()))
    );
}

#[test]
fn catalog_refuses_a_second_table_of_a_name() {
    let first = create_table(None, "test_db", users_table()).unwrap();
    assert_eq!(first, users_database());
    let other = Table::new("users".to_string(), vec![Column::new("x".to_string(), ColumnType::Varchar)]);
    assert_eq!(
        create_table(Some(first.clone()), "test_db", other),
        Err(error(ErrorKind::Schema, "table already exist. table = users"))
    );
    assert_eq!(first.table("users"), Some(users_table()));
}

#[test]
fn executor_of_second_create_table_asks_for_no_write() {
    let plan = Plan::CreateTablePlan(CreateTablePlan {
        database_name: "test_db".to_string(),
        table_name: "users".to_string(),
        column_definitions: vec![rrrdb::parser::ast::ColumnDefinition::new(
            "id".to_string(),
            "integer".to_string(),
        )],
    });
    let mut executor = Executor::new(plan);
    assert_eq!(
        executor.execute(),
        Step::Perform(StorageRequest::CreateKeyspace { name: "test_db_users".to_string() })
    );
    assert_eq!(
        executor.resume(StorageReply::Done),
        Step::Perform(StorageRequest::FindSchema {
            namespace: Namespace::Metadata,
            key: "test_db_schema".to_string(),
        })
    );
    assert_eq!(
        executor.resume(StorageReply::Schema(Some(users_database()))),
        Step::Finished(Err(error(ErrorKind::Schema, "table already exist. table = users")))
    );
}

#[test]
fn create_table_asks_for_keyspace_then_catalog() {
    let mut store = users_store();
    let requests: Vec<StorageRequest> = store.requests.drain(..).collect();
    assert_eq!(
        requests,
        vec![
            StorageRequest::CreateKeyspace { name: "test_db_users".to_string() },
            StorageRequest::FindSchema { namespace: Namespace::Metadata, key: "test_db_schema".to_string() },
            StorageRequest::SaveSchema {
                namespace: Namespace::Metadata,
                key: "test_db_schema".to_string(),
                database: users_database(),
            },
        ]
    );
}

#[test]
fn create_second_table_keeps_the_first() {
    let mut store = users_store();
    store.execute("test_db", "CREATE TABLE notes (id int, body string)").unwrap();
    let catalog = match store.find_schema(&Namespace::Metadata, "test_db_schema") {
        StorageReply::Schema(Some(catalog)) => catalog,
        other => panic!("{:?}", other),
    };
    assert_eq!(catalog.tables.len(), 2);
    assert_eq!(catalog.table("users"), Some(users_table()));
    assert_eq!(catalog.tables[1].name, "notes");
}

#[test]
fn create_table_with_unknown_type() {
    let mut store = MemoryStore::new();
    assert_eq!(
        store.execute("test_db", "CREATE TABLE t (id integer, at timestamp)"),
        Err(error(ErrorKind::Schema, "unexpected type(timestamp) was given"))
    );
    assert_eq!(store.find_schema(&Namespace::Metadata, "test_db_schema"), StorageReply::Schema(None));
}

#[test]
fn create_database_asks_nothing_of_the_store() {
    let mut store = MemoryStore::new();
    assert_eq!(store.execute("test_db", "CREATE DATABASE test_db"), Ok(OkDBResult::ExecutionResult));
    assert!(store.requests.is_empty());
    let mut executor =
        Executor::new(Plan::CreateDatabasePlan(CreateDatabasePlan { database_name: "d".to_string() }));
    assert_eq!(executor.execute(), Step::Finished(Ok(OkDBResult::ExecutionResult)));
}

#[test]
fn select_from_missing_table_names_the_column() {
    let mut store = users_store();
    assert_eq!(
        store.execute("test_db", "SELECT col FROM missing_table"),
        Err(error(ErrorKind::Plan, "Unknown identifier: col"))
    );
}

#[test]
fn select_unknown_column_names_the_column() {
    let mut store = users_store();
    assert_eq!(
        store.execute("test_db", "SELECT unknown_col FROM users"),
        Err(error(ErrorKind::Plan, "Unknown identifier: unknown_col"))
    );
    assert_eq!(
        store.execute("test_db", "SELECT id FROM users WHERE unknown_col = 1"),
        Err(error(ErrorKind::Plan, "Unknown identifier: unknown_col"))
    );
}

#[test]
fn select_all_from_missing_table() {
    let mut store = users_store();
    assert_eq!(
        store.execute("test_db", "SELECT * FROM missing_table"),
        Err(error(ErrorKind::Plan, "table not found for missing_table"))
    );
    assert_eq!(
        store.execute("test_db", "SELECT *"),
        Err(error(ErrorKind::Plan, "wildcard needs exactly one table"))
    );
}

#[test]
fn statements_on_a_database_without_catalog() {
    let mut store = MemoryStore::new();
    assert_eq!(
        store.execute("nowhere", "SELECT * FROM users"),
        Err(error(ErrorKind::Plan, "database not found: nowhere"))
    );
    assert_eq!(
        store.execute("nowhere", "INSERT INTO users VALUES (1)"),
        Err(error(ErrorKind::Plan, "database not found: nowhere"))
    );
}

#[test]
fn select_unsupported_shapes() {
    let mut store = users_store();
    assert_eq!(
        store.execute("test_db", "SELECT 1 FROM users"),
        Err(error(ErrorKind::Plan, "not supported yet: a projection that is no identifier"))
    );
    let unsupported = Err(error(
        ErrorKind::Plan,
        "not supported yet: a predicate that is not `identifier = literal`",
    ));
    assert_eq!(store.execute("test_db", "SELECT id FROM users WHERE id != 1"), unsupported);
    assert_eq!(store.execute("test_db", "SELECT id FROM users WHERE id = name"), unsupported);
    assert_eq!(store.execute("test_db", "SELECT id FROM users WHERE id"), unsupported);
    assert_eq!(store.execute("test_db", "SELECT id FROM users WHERE id = 1 = 2"), unsupported);
}

#[test]
fn select_without_table_reads_nothing() {
    let mut store = users_store();
    store.requests.clear();
    assert_eq!(
        store.execute("test_db", "SELECT"),
        Err(error(ErrorKind::Plan, "the query reads no table"))
    );
    assert!(store.requests.is_empty());
}

#[test]
fn insert_errors() {
    let mut store = users_store();
    assert_eq!(
        store.execute("test_db", "INSERT INTO missing VALUES (1)"),
        Err(error(ErrorKind::Plan, "table missing not found"))
    );
    assert_eq!(
        store.execute("test_db", "INSERT INTO users VALUES (1)"),
        Err(error(
            ErrorKind::Data,
            "value is missing for column name in given INSERT INTO statement"
        ))
    );
    store.execute("test_db", "CREATE TABLE notes (body string)").unwrap();
    assert_eq!(
        store.execute("test_db", "INSERT INTO notes VALUES ('x')"),
        Err(error(ErrorKind::Data, "value for 'id' column is missing. table: notes"))
    );
}

#[test]
fn insert_ignores_values_beyond_the_columns() {
    let mut store = users_store();
    store.execute("test_db", "INSERT INTO users VALUES (1, 'Alice', 'more')").unwrap();
    assert_eq!(
        store.keyspaces.get("test_db_users").unwrap().get("1"),
        Some(&br#"{"id":"1","name":"Alice"}"#.to_vec())
    );
}

#[test]
fn insert_writes_text_as_json_text() {
    let mut store = users_store();
    store.execute("test_db", "INSERT INTO users VALUES (1, 'say \"hi\"\\now')").unwrap();
    assert_eq!(
        store.keyspaces.get("test_db_users").unwrap().get("1"),
        Some(&br#"{"id":"1","name":"say \"hi\"\\now"}"#.to_vec())
    );
    assert_eq!(
        store.execute("test_db", "SELECT name FROM users"),
        select_result(
            vec![Record::new(vec![FieldValue::Text("say \"hi\"\\now".to_string())])],
            ResultMetadata::new(vec![FieldMetadata::new("name", "varchar")])
        )
    );
}

#[test]
fn syntax_errors_are_reported_with_their_kind() {
    let mut store = MemoryStore::new();
    assert_eq!(
        store.execute("test_db", "SELECT !"),
        Err(error(ErrorKind::Tokenize, "TokenizeError: Unknown token: !"))
    );
    assert_eq!(
        store.execute("test_db", "DELETE FROM users"),
        Err(error(
            ErrorKind::Parse,
            "ParseError: Unexpected token found while processing parse. token: 'Word(\"DELETE\")' at 1"
        ))
    );
}

#[test]
fn reads_and_writes_need_the_keyspace() {
    let mut store = MemoryStore::new();
    let catalog = encode_catalog(&users_database());
    store.keyspaces.get_mut("metadata").unwrap().insert("test_db_schema".to_string(), catalog);
    let missing = Err(error(ErrorKind::Storage, "ColumnFamily(test_db_users) not found"));
    assert_eq!(store.execute("test_db", "SELECT * FROM users"), missing);
    assert_eq!(store.execute("test_db", "INSERT INTO users VALUES (1, 'Alice')"), missing);
}

fn users_select_plan() -> SelectPlan {
    let table = users_table();
    SelectPlan {
        database: users_database(),
        plans: vec![SelectTablePlan {
            table: table.clone(),
            select_columns: table.columns.clone(),
            filter: None,
        }],
        projections: table
            .columns
            .iter()
            .map(|column| ProjectionPlan { table: table.clone(), column: column.clone() })
            .collect(),
        filters: vec![],
    }
}

fn select_rows(plan: SelectPlan, rows: Vec<(&str, &str)>) -> Result<ResultSet, DBError> {
    let rows: Vec<(String, Vec<u8>)> =
        rows.into_iter().map(|(key, value)| (key.to_string(), value.as_bytes().to_vec())).collect();
    plan.select(&rows)
}

#[test]
fn select_reads_members_in_any_order() {
    assert_eq!(
        select_rows(users_select_plan(), vec![("1", r#" { "name" : "Alice", "id" : "1" } "#)]),
        Ok(ResultSet::new(
            vec![Record::new(vec![FieldValue::Int(1), FieldValue::Text("Alice".to_string())])],
            users_metadata()
        ))
    );
}

#[test]
fn select_leaves_out_a_field_that_the_row_lacks() {
    assert_eq!(
        select_rows(users_select_plan(), vec![("1", r#"{"id":"-5"}"#)]),
        Ok(ResultSet::new(vec![Record::new(vec![FieldValue::Int(-5)])], users_metadata()))
    );
}

#[test]
fn select_rejects_malformed_rows() {
    let malformed = |value: &str, message: &str| {
        assert_eq!(
            select_rows(users_select_plan(), vec![("k", value)]),
            Err(error(ErrorKind::Data, message))
        );
    };
    malformed("not json", "unexpected formatted row for key(k)");
    malformed("[1]", "unexpected formatted row for key(k)");
    malformed(r#""text""#, "unexpected formatted row for key(k)");
    malformed(r#"{"id":1}"#, "the stored value is no text. column: id");
    malformed(r#"{"id":"1","age":"3"}"#, "the table has no such column: age");
    malformed(r#"{"id":"1.5"}"#, "not a 64-bit integer: 1.5");
}

#[test]
fn select_stops_at_the_first_malformed_row() {
    assert_eq!(
        select_rows(
            users_select_plan(),
            vec![("1", r#"{"id":"1","name":"Alice"}"#), ("2", "{"), ("3", r#"{"id":"x"}"#)]
        ),
        Err(error(ErrorKind::Data, "unexpected formatted row for key(2)"))
    );
}

#[test]
fn select_needs_the_filtered_column_in_the_row() {
    let mut plan = users_select_plan();
    plan.filters = vec![Filter::new(
        "users".to_string(),
        "name".to_string(),
        Value::QuotedString("Alice".to_string()),
    )];
    assert_eq!(
        select_rows(plan, vec![("1", r#"{"id":"1"}"#)]),
        Err(error(ErrorKind::Data, "column was not found in record: name"))
    );
}

#[test]
fn select_applies_only_the_filters_on_its_table() {
    let mut plan = users_select_plan();
    plan.filters = vec![
        Filter::new("other".to_string(), "id".to_string(), Value::Number("2".to_string())),
        Filter::new("users".to_string(), "id".to_string(), Value::Number("1".to_string())),
    ];
    assert_eq!(
        select_rows(
            plan,
            vec![("1", r#"{"id":"1","name":"Alice"}"#), ("2", r#"{"id":"2","name":"Bob"}"#)]
        ),
        Ok(ResultSet::new(
            vec![Record::new(vec![FieldValue::Int(1), FieldValue::Text("Alice".to_string())])],
            users_metadata()
        ))
    );
}

#[test]
fn select_first_failing_filter_decides() {
    let mut plan = users_select_plan();
    plan.filters = vec![
        Filter::new("users".to_string(), "id".to_string(), Value::Number("2".to_string())),
        Filter::new("users".to_string(), "id".to_string(), Value::Null),
    ];
    assert_eq!(
        select_rows(plan, vec![("1", r#"{"id":"1","name":"Alice"}"#)]),
        Ok(ResultSet::new(vec![], users_metadata()))
    );
}

fn users_insert_plan(values: Vec<Value>) -> InsertPlan {
    let table = users_table();
    InsertPlan {
        database: users_database(),
        table: table.clone(),
        values: table
            .columns
            .iter()
            .zip(values)
            .map(|(column, value)| RecordValue { column: column.clone(), value })
            .collect(),
    }
}

#[test]
fn insert_plan_key_and_fields() {
    let plan = users_insert_plan(vec![Value::Number("7".to_string()), Value::Boolean(true)]);
    assert_eq!(plan.key(), Ok("7".to_string()));
    assert_eq!(
        plan.fields(),
        Ok(vec![("id".to_string(), "7".to_string()), ("name".to_string(), "true".to_string())])
    );
}

#[test]
fn insert_plan_later_value_of_a_column_wins() {
    let mut plan = users_insert_plan(vec![
        Value::Number("7".to_string()),
        Value::QuotedString("a".to_string()),
    ]);
    plan.values.push(RecordValue {
        column: Column::new("id".to_string(), ColumnType::Integer),
        value: Value::Number("8".to_string()),
    });
    assert_eq!(plan.key(), Ok("7".to_string()));
    assert_eq!(
        plan.fields(),
        Ok(vec![("id".to_string(), "8".to_string()), ("name".to_string(), "a".to_string())])
    );
}

#[test]
fn insert_plan_without_text() {
    let plan = users_insert_plan(vec![Value::Null, Value::QuotedString("a".to_string())]);
    assert_eq!(
        plan.key(),
        Err(error(ErrorKind::Data, "id not found in the given INSERT INTO statement. table: users"))
    );
    let plan = users_insert_plan(vec![Value::Number("1".to_string()), Value::Null]);
    assert_eq!(
        plan.fields(),
        Err(error(ErrorKind::Data, "the value to store has no text. column: name"))
    );
    let mut executor = Executor::new(Plan::InsertPlan(plan));
    assert_eq!(
        executor.execute(),
        Step::Finished(Err(error(ErrorKind::Data, "the value to store has no text. column: name")))
    );
    let plan = users_insert_plan(vec![]);
    assert_eq!(
        plan.key(),
        Err(error(ErrorKind::Data, "value for 'id' column is missing. table: users"))
    );
}

#[test]
fn put_row_asks_to_store_or_reports_failure() {
    assert_eq!(
        Executor::put_row(Namespace::table("d", "t"), "1".to_string(), Some(vec![1, 2])),
        (
            Stage::Writing,
            Step::Perform(StorageRequest::Put {
                namespace: Namespace::table("d", "t"),
                key: "1".to_string(),
                value: vec![1, 2],
            })
        )
    );
    assert_eq!(
        Executor::put_row(Namespace::table("d", "t"), "1".to_string(), None),
        (Stage::Finished, Step::Finished(Err(error(ErrorKind::Storage, "failed to serialize"))))
    );
}

#[test]
fn executor_passes_on_a_failure_of_the_store() {
    let mut executor = Executor::new(Plan::SelectPlan(users_select_plan()));
    assert_eq!(
        executor.execute(),
        Step::Perform(StorageRequest::Iterate { namespace: Namespace::table("test_db", "users") })
    );
    let failure = error(ErrorKind::Storage, "IO error");
    assert_eq!(
        executor.resume(StorageReply::Failed(failure.clone())),
        Step::Finished(Err(failure))
    );
}

#[test]
fn executor_rejects_an_answer_that_does_not_fit() {
    let unexpected = Step::Finished(Err(error(
        ErrorKind::Storage,
        "the store's answer does not fit the request",
    )));
    let mut executor = Executor::new(Plan::SelectPlan(users_select_plan()));
    executor.execute();
    assert_eq!(executor.resume(StorageReply::Done), unexpected);
    let mut executor = Executor::new(Plan::SelectPlan(users_select_plan()));
    assert_eq!(executor.resume(StorageReply::Rows(vec![])), unexpected);
    let mut executor = Executor::new(Plan::SelectPlan(users_select_plan()));
    executor.execute();
    assert_eq!(
        executor.resume(StorageReply::Rows(vec![])),
        Step::Finished(Ok(OkDBResult::SelectResult(ResultSet::new(vec![], users_metadata()))))
    );
    assert_eq!(executor.resume(StorageReply::Rows(vec![])), unexpected);
}

#[test]
fn executor_starts_once() {
    let mut executor = Executor::new(Plan::SelectPlan(users_select_plan()));
    assert_eq!(
        executor.execute(),
        Step::Perform(StorageRequest::Iterate { namespace: Namespace::table("test_db", "users") })
    );
    let again = Step::Finished(Err(error(ErrorKind::Storage, "the statement was started before")));
    assert_eq!(executor.execute(), again);
    assert_eq!(executor.execute(), again);
}

#[test]
fn select_plan_namespace() {
    assert_eq!(users_select_plan().namespace(), Ok(Namespace::table("test_db", "users")));
    let mut plan = users_select_plan();
    plan.plans.clear();
    assert_eq!(plan.namespace(), Err(error(ErrorKind::Plan, "the query reads no table")));
}

#[test]
fn metadata_keyspace_is_created_once() {
    assert!(needs_metadata_keyspace(&vec![]));
    assert!(needs_metadata_keyspace(&vec!["default".to_string(), "test_db_users".to_string()]));
    assert!(!needs_metadata_keyspace(&vec!["default".to_string(), "metadata".to_string()]));
}
