use rrrdb::parser::ast::{
    BinaryOperator, ColumnDefinition, CreateDatabase, CreateTable, Expression, Insert, Predicate,
    Projection, Query, Statement, Value,
};
use rrrdb::parser::tokenizer::{Keyword, Token, Whitespace};
use rrrdb::parser::{Parser, ParserError};

fn parser_assertion(tokens: Vec<Token>, expected: Statement) {
    let mut parser = Parser::new(tokens, Some("test_db".to_string()));
    let result = parser.parse();
    assert!(result.is_ok(), "result: {:?}", result);
    let tokens = result.unwrap();

    assert_eq!(expected, tokens);
}

fn parse_text(sql: &str) -> Result<Statement, ParserError> {
    Parser::parse_sql(Some("test_db".to_string()), sql)
}

fn unexpected(stage: &str, found: &str, pos: usize) -> ParserError {
    ParserError::ParseError(
        format!(
            "Unexpected token found while processing {}. token: '{}' at {}",
            stage, found, pos
        ),
        pos,
    )
}

#[test]
fn parse_select_1() {
    parser_assertion(
        vec![
            Token::Keyword(Keyword::Select),
            Token::Whitespace(Whitespace::Space),
            Token::Number(String::from("1")),
        ],
        Statement::Select(Query::new(
            vec![Projection::Expression(Expression::Value(Value::Number(
                "1".to_string(),
            )))],
            vec![],
            Predicate::empty(),
        )),
    );
}

#[test]
fn parse_select_from() {
    parser_assertion(
        vec![
            // SELECT * FROM users
            Token::Keyword(Keyword::Select),
            Token::Whitespace(Whitespace::Space),
            Token::Mul,
            Token::Whitespace(Whitespace::Space),
            Token::Keyword(Keyword::From),
            Token::Whitespace(Whitespace::Space),
            Token::Word("users".to_string()),
        ],
        Statement::Select(Query::new(
            vec![Projection::Wildcard],
            vec!["users".to_string()],
            Predicate::empty(),
        )),
    );
}

#[test]
fn parse_select_from_where() {
    parser_assertion(
        vec![
            // SELECT * FROM users WHERE id = 1
            Token::Keyword(Keyword::Select),
            Token::Whitespace(Whitespace::Space),
            Token::Mul,
            Token::Whitespace(Whitespace::Space),
            Token::Keyword(Keyword::From),
            Token::Whitespace(Whitespace::Space),
            Token::Word("users".to_string()),
            Token::Whitespace(Whitespace::Space),
            Token::Keyword(Keyword::Where),
            Token::Whitespace(Whitespace::Space),
            Token::Word("id".to_string()),
            Token::Whitespace(Whitespace::Space),
            Token::Eq,
            Token::Whitespace(Whitespace::Space),
            Token::Number("1".to_string()),
        ],
        Statement::Select(Query::new(
            vec![Projection::Wildcard],
            vec!["users".to_string()],
            Predicate::new(Expression::BinOperator {
                lhs: Box::new(Expression::Ident("id".to_string())),
                rhs: Box::new(Expression::Value(Value::Number("1".to_string()))),
                op: BinaryOperator::Eq,
            }),
        )),
    );
}

#[test]
fn parse_create_database() {
    parser_assertion(
        vec![
            // CREATE DATABASE test_db
            Token::Keyword(Keyword::Create),
            Token::Whitespace(Whitespace::Space),
            Token::Keyword(Keyword::Database),
            Token::Whitespace(Whitespace::Space),
            Token::Word("test_db".to_string()),
        ],
        Statement::CreateDatabase(CreateDatabase::new("test_db".to_string())),
    );
}

#[test]
fn parse_create_table() {
    parser_assertion(
        vec![
            // CREATE TABLE users (id integer, name varchar),
            Token::Keyword(Keyword::Create),
            Token::Whitespace(Whitespace::Space),
            Token::Keyword(Keyword::Table),
            Token::Whitespace(Whitespace::Space),
            Token::Word("users".to_string()),
            Token::Whitespace(Whitespace::Space),
            Token::LParen,
            Token::Word("id".to_string()),
            Token::Whitespace(Whitespace::Space),
            Token::Word("integer".to_string()),
            Token::Comma,
            Token::Whitespace(Whitespace::Space),
            Token::Word("name".to_string()),
            Token::Whitespace(Whitespace::Space),
            Token::Word("varchar".to_string()),
            Token::RParen,
        ],
        Statement::CreateTable(CreateTable::new(
            "test_db".to_string(),
            "users".to_string(),
            vec![
                ColumnDefinition::new("id".to_string(), "integer".to_string()),
                ColumnDefinition::new("name".to_string(), "varchar".to_string()),
            ],
        )),
    );
}

#[test]
fn parse_insert_into() {
    parser_assertion(
        vec![
            // INSERT INTO users VALUES (1, 'alice')
            Token::Keyword(Keyword::Insert),
            Token::Whitespace(Whitespace::Space),
            Token::Keyword(Keyword::Into),
            Token::Whitespace(Whitespace::Space),
            Token::Word("users".to_string()),
            Token::Whitespace(Whitespace::Space),
            Token::Keyword(Keyword::Values),
            Token::Whitespace(Whitespace::Space),
            Token::LParen,
            Token::Number("1".to_string()),
            Token::Comma,
            Token::Whitespace(Whitespace::Space),
            Token::SingleQuotedString("alice".to_string()),
            Token::RParen,
        ],
        Statement::Insert(Insert::new(
            "users".to_string(),
            vec![
                Value::Number("1".to_string()),
                Value::QuotedString("alice".to_string()),
            ],
        )),
    );
}

#[test]
fn parse_sql_select_from_where() {
    assert_eq!(
        parse_text("SELECT * FROM users WHERE id = 1"),
        Ok(Statement::Select(Query::new(
            vec![Projection::Wildcard],
            vec!["users".to_string()],
            Predicate::new(BinaryOperator::Eq.build(Expression::ident("id"), Expression::number("1"))),
        )))
    );
}

#[test]
fn parse_sql_reports_what_does_not_tokenize() {
    assert_eq!(
        parse_text("SELECT !"),
        Err(ParserError::TokenizeError("Unknown token: !".to_string()))
    );
}

#[test]
fn parse_projection_list() {
    assert_eq!(
        parse_text("select id, 'x', 7 , name from users"),
        Ok(Statement::Select(Query::new(
            vec![
                Projection::Expression(Expression::ident("id")),
                Projection::Expression(Expression::quoted_string("x")),
                Projection::Expression(Expression::number("7")),
                Projection::Expression(Expression::ident("name")),
            ],
            vec!["users".to_string()],
            Predicate::empty(),
        )))
    );
}

#[test]
fn parse_select_without_projections() {
    assert_eq!(parse_text("SELECT"), Ok(Statement::Select(Query::new(vec![], vec![], Predicate::empty()))));
    assert_eq!(
        parse_text("SELECT FROM users"),
        Ok(Statement::Select(Query::new(vec![], vec!["users".to_string()], Predicate::empty())))
    );
}

#[test]
fn parse_select_from_nothing() {
    assert_eq!(
        parse_text("SELECT * FROM"),
        Ok(Statement::Select(Query::new(vec![Projection::Wildcard], vec![], Predicate::empty())))
    );
}

#[test]
fn parse_where_with_nothing_after_it() {
    assert_eq!(
        parse_text("SELECT * FROM users WHERE"),
        Ok(Statement::Select(Query::new(
            vec![Projection::Wildcard],
            vec!["users".to_string()],
            Predicate::empty(),
        )))
    );
}

#[test]
fn parse_where_with_only_whitespace_after_it() {
    assert_eq!(
        parse_text("SELECT * FROM users WHERE "),
        Ok(Statement::Select(Query::new(
            vec![Projection::Wildcard],
            vec!["users".to_string()],
            Predicate::empty(),
        )))
    );
    assert_eq!(parse_text("SELECT * FROM users WHERE \n\t "), parse_text("SELECT * FROM users WHERE"));
}

#[test]
fn parse_where_reads_one_expression_whatever_the_whitespace() {
    assert_eq!(parse_text("SELECT * FROM t WHERE ( id = 1"), Err(unexpected("expression", "LParen", 11)));
    assert_eq!(parse_text("SELECT * FROM t WHERE( id = 1"), Err(unexpected("expression", "LParen", 10)));
    assert_eq!(parse_text("SELECT * FROM t WHERE (id = 1"), Err(unexpected("expression", "LParen", 11)));
    let expected = parse_text("SELECT * FROM t WHERE id = 1");
    assert!(expected.is_ok());
    assert_eq!(parse_text("SELECT * FROM t WHERE   id  =\n1  "), expected);
    assert_eq!(parse_text("SELECT * FROM t WHERE\tid = 1"), expected);
}

fn without_whitespace(tokens: &[Token]) -> Vec<Token> {
    tokens.iter().filter(|token| !matches!(token, Token::Whitespace(_))).cloned().collect()
}

#[test]
fn parse_whitespace_changes_no_statement() {
    for sql in [
        "SELECT * FROM t WHERE id = 1",
        "SELECT a , b FROM t WHERE 'x' = a",
        "SELECT * FROM t WHERE ",
        "SELECT * FROM t WHERE a = b < 3 ",
        "INSERT INTO t VALUES ( 1 , 'a b' )",
        "CREATE TABLE t ( id int , name string )",
        "CREATE DATABASE d ",
        " SELECT  ",
    ] {
        let tokens = rrrdb::parser::tokenizer::Tokenizer::new(sql).tokenize().unwrap();
        let parsed = Parser::new(tokens.clone(), Some("d".to_string())).parse();
        assert!(parsed.is_ok(), "{}", sql);
        assert_eq!(Parser::new(without_whitespace(&tokens), Some("d".to_string())).parse(), parsed);
    }
}

#[test]
fn parse_error_names_the_token_in_its_debug_form() {
    assert_eq!(parse_text(","), Err(unexpected("parse", "Comma", 1)));
    assert_eq!(parse_text("FROM"), Err(unexpected("parse", "Keyword(From)", 1)));
    assert_eq!(parse_text("x"), Err(unexpected("parse", "Word(\"x\")", 1)));
    assert_eq!(parse_text("1"), Err(unexpected("parse", "Number(\"1\")", 1)));
    assert_eq!(parse_text("''"), Err(unexpected("parse", "SingleQuotedString(\"\")", 1)));
    assert_eq!(
        parse_text("'a\"b\\c\nd'"),
        Err(unexpected("parse", "SingleQuotedString(\"a\\\"b\\\\c\\nd\")", 1))
    );
}

#[test]
fn token_debug_form_is_that_of_std() {
    let tokens = vec![
        Token::EOF,
        Token::Keyword(Keyword::Create),
        Token::Keyword(Keyword::Database),
        Token::Keyword(Keyword::Table),
        Token::Keyword(Keyword::Select),
        Token::Keyword(Keyword::From),
        Token::Keyword(Keyword::Where),
        Token::Keyword(Keyword::Insert),
        Token::Keyword(Keyword::Into),
        Token::Keyword(Keyword::Values),
        Token::Word("users".to_string()),
        Token::Word("a\"b'c\\d\te\u{e9}\u{7f}".to_string()),
        Token::Number("12".to_string()),
        Token::SingleQuotedString(String::new()),
        Token::SingleQuotedString("line\nbreak".to_string()),
        Token::Comma,
        Token::Whitespace(Whitespace::Space),
        Token::Whitespace(Whitespace::Newline),
        Token::Whitespace(Whitespace::Tab),
        Token::Eq,
        Token::Neq,
        Token::Lt,
        Token::Lte,
        Token::Gt,
        Token::Gte,
        Token::Plus,
        Token::Minus,
        Token::Mul,
        Token::Div,
        Token::Mod,
        Token::LParen,
        Token::RParen,
        Token::Period,
        Token::SemiColon,
    ];
    for token in tokens {
        assert_eq!(token.to_debug(), format!("{:?}", token));
    }
}

#[test]
fn parse_what_follows_the_table_is_ignored_unless_it_is_where() {
    assert_eq!(
        parse_text("SELECT * FROM users , other"),
        Ok(Statement::Select(Query::new(
            vec![Projection::Wildcard],
            vec!["users".to_string()],
            Predicate::empty(),
        )))
    );
}

#[test]
fn parse_every_comparison() {
    let cases = vec![
        ("=", BinaryOperator::Eq),
        ("!=", BinaryOperator::Neq),
        ("<", BinaryOperator::Lt),
        ("<=", BinaryOperator::Lte),
        (">", BinaryOperator::Gt),
        (">=", BinaryOperator::Gte),
    ];
    for (text, op) in cases {
        let sql = format!("SELECT * FROM t WHERE a {} 'x'", text);
        assert_eq!(
            parse_text(&sql),
            Ok(Statement::Select(Query::new(
                vec![Projection::Wildcard],
                vec!["t".to_string()],
                Predicate::new(op.build(Expression::ident("a"), Expression::quoted_string("x"))),
            )))
        );
    }
}

#[test]
fn parse_true_and_false_are_literals() {
    assert_eq!(
        parse_text("SELECT * FROM t WHERE true = false"),
        Ok(Statement::Select(Query::new(
            vec![Projection::Wildcard],
            vec!["t".to_string()],
            Predicate::new(BinaryOperator::Eq.build(Expression::boolean(true), Expression::boolean(false))),
        )))
    );
}

#[test]
fn parse_comparisons_nest_to_the_right() {
    assert_eq!(
        parse_text("SELECT * FROM t WHERE a = b < 3"),
        Ok(Statement::Select(Query::new(
            vec![Projection::Wildcard],
            vec!["t".to_string()],
            Predicate::new(BinaryOperator::Eq.build(
                Expression::ident("a"),
                BinaryOperator::Lt.build(Expression::ident("b"), Expression::number("3")),
            )),
        )))
    );
}

#[test]
fn parse_single_operand_is_an_expression() {
    assert_eq!(
        parse_text("SELECT * FROM t WHERE a"),
        Ok(Statement::Select(Query::new(
            vec![Projection::Wildcard],
            vec!["t".to_string()],
            Predicate::new(Expression::ident("a")),
        )))
    );
}

#[test]
fn parse_operator_without_left_operand() {
    assert_eq!(parse_text("SELECT * FROM t WHERE = 1"), Err(unexpected("Left expression", "Eq", 11)));
}

#[test]
fn parse_operand_after_operand() {
    assert_eq!(parse_text("SELECT * FROM t WHERE a b"), Err(unexpected("expression", "Word(\"b\")", 13)));
}

#[test]
fn parse_operator_without_right_operand() {
    assert_eq!(
        parse_text("SELECT * FROM t WHERE a ="),
        Err(ParserError::ParseError("Unexpected EOF while parse_expression".to_string(), 13))
    );
}

#[test]
fn parse_expression_rejects_other_tokens() {
    assert_eq!(parse_text("SELECT * FROM t WHERE a + 1"), Err(unexpected("expression", "Plus", 13)));
}

#[test]
fn parse_rejects_unknown_statement() {
    assert_eq!(parse_text("DROP TABLE users"), Err(unexpected("parse", "Word(\"DROP\")", 1)));
    assert_eq!(parse_text(""), Err(unexpected("parse", "EOF", 0)));
    assert_eq!(parse_text("  "), Err(unexpected("parse", "EOF", 3)));
}

#[test]
fn parse_rejects_unexpected_projection() {
    assert_eq!(parse_text("SELECT (a) FROM t"), Err(unexpected("projections", "LParen", 3)));
}

#[test]
fn parse_rejects_unexpected_from() {
    assert_eq!(parse_text("SELECT * FROM 1"), Err(unexpected("from statement", "Number(\"1\")", 7)));
}

#[test]
fn parse_insert_skips_commas() {
    assert_eq!(
        parse_text("INSERT INTO t VALUES (1 2,, 'x',)"),
        Ok(Statement::Insert(Insert::new(
            "t".to_string(),
            vec![
                Value::Number("1".to_string()),
                Value::Number("2".to_string()),
                Value::QuotedString("x".to_string()),
            ],
        )))
    );
}

#[test]
fn parse_insert_errors() {
    assert_eq!(parse_text("INSERT users"), Err(unexpected("insert into statement", "Word(\"users\")", 3)));
    assert_eq!(parse_text("INSERT INTO 1"), Err(unexpected("insert into statement", "Number(\"1\")", 5)));
    assert_eq!(parse_text("INSERT INTO t (1)"), Err(unexpected("insert into statement", "LParen", 7)));
    assert_eq!(parse_text("INSERT INTO t VALUES 1"), Err(unexpected("insert values", "Number(\"1\")", 9)));
    assert_eq!(parse_text("INSERT INTO t VALUES (1"), Err(unexpected("insert values", "EOF", 10)));
    assert_eq!(parse_text("INSERT INTO t VALUES (a)"), Err(unexpected("insert values", "Word(\"a\")", 10)));
}

#[test]
fn parse_create_errors() {
    assert_eq!(parse_text("CREATE users"), Err(unexpected("create statement", "Word(\"users\")", 3)));
    assert_eq!(parse_text("CREATE DATABASE 1"), Err(unexpected("create database statement", "Number(\"1\")", 5)));
    assert_eq!(parse_text("CREATE TABLE 1"), Err(unexpected("create table statement", "Number(\"1\")", 5)));
    assert_eq!(
        parse_text("CREATE TABLE t id integer"),
        Err(unexpected("create table column definitions", "Word(\"id\")", 7))
    );
    assert_eq!(
        parse_text("CREATE TABLE t (id integer"),
        Err(unexpected("create table column definitions", "EOF", 10))
    );
}

#[test]
fn parse_column_definition_is_two_words() {
    assert_eq!(
        parse_text("CREATE TABLE t (id)"),
        Err(unexpected("create table column definitions", "[Word(\"id\")]", 9))
    );
    assert_eq!(
        parse_text("CREATE TABLE t (id integer key, name varchar)"),
        Err(unexpected(
            "create table column definitions",
            "[Word(\"id\"), Word(\"integer\"), Word(\"key\")]",
            13
        ))
    );
    assert_eq!(
        parse_text("CREATE TABLE t (id 1)"),
        Err(unexpected("create table column definitions", "[Word(\"id\"), Number(\"1\")]", 11))
    );
    assert_eq!(
        parse_text("CREATE TABLE t ()"),
        Err(unexpected("create table column definitions", "[]", 8))
    );
    assert_eq!(
        parse_text("CREATE TABLE t (id integer,)"),
        Err(unexpected("create table column definitions", "[]", 12))
    );
}

#[test]
fn parse_create_table_needs_a_database() {
    assert_eq!(
        Parser::parse_sql(None, "CREATE TABLE t (id integer)"),
        Err(ParserError::ParseError(
            "a table is created in a database, and none is named".to_string(),
            11
        ))
    );
    assert_eq!(
        Parser::parse_sql(None, "CREATE DATABASE d"),
        Ok(Statement::CreateDatabase(CreateDatabase::new("d".to_string())))
    );
}

#[test]
fn parse_end_of_input_token_ends_the_projection_list() {
    let mut parser = Parser::new(
        vec![
            Token::Keyword(Keyword::Select),
            Token::Mul,
            Token::EOF,
            Token::Word("ignored".to_string()),
        ],
        None,
    );
    assert_eq!(
        parser.parse(),
        Ok(Statement::Select(Query::new(
            vec![Projection::Wildcard],
            vec!["ignored".to_string()],
            Predicate::empty(),
        )))
    );
}

#[test]
fn parser_error_as_text() {
    assert_eq!(
        ParserError::TokenizeError("Unknown token: !".to_string()).to_string(),
        "TokenizeError: Unknown token: !"
    );
    assert_eq!(unexpected("parse", "Word(\"DROP\")", 1).to_string(),
        "ParseError: Unexpected token found while processing parse. token: 'Word(\"DROP\")' at 1");
}

#[test]
fn expression_builders() {
    assert_eq!(Expression::ident("a"), Expression::Ident("a".to_string()));
    assert_eq!(Expression::number("1"), Expression::Value(Value::Number("1".to_string())));
    assert_eq!(Expression::quoted_string("s"), Expression::Value(Value::QuotedString("s".to_string())));
    assert_eq!(Expression::boolean(true), Expression::Value(Value::Boolean(true)));
    assert_eq!(Expression::null(), Expression::Value(Value::Null));
    assert_eq!(Predicate::empty(), Predicate { expression: None });
    assert_eq!(Value::Number("5".to_string()).to_string_opt(), Some("5".to_string()));
    assert_eq!(Value::QuotedString("x".to_string()).to_string_opt(), Some("x".to_string()));
    assert_eq!(Value::Boolean(false).to_string_opt(), Some("false".to_string()));
    assert_eq!(Value::Null.to_string_opt(), None);
}
