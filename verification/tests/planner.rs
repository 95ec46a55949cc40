use rrrdb::parser::ast::{
    BinaryOperator, ColumnDefinition, CreateDatabase, CreateTable, Expression, Insert, Predicate,
    Projection, Query, Statement, Value,
};
use rrrdb::schema::{Column, ColumnType, Database, Table};
use rrrdb::sql::planner::{
    CreateDatabasePlan, CreateTablePlan, Filter, InsertPlan, Plan, Planner, ProjectionPlan,
    RecordValue, SelectPlan, SelectTablePlan,
};
use rrrdb::{DBError, ErrorKind, FieldMetadata};

fn column(name: &str, column_type: ColumnType) -> Column {
    Column::new(name.to_string(), column_type)
}

fn users() -> Table {
    Table::new(
        "users".to_string(),
        vec![column("id", ColumnType::Integer), column("name", ColumnType::Varchar)],
    )
}

fn notes() -> Table {
    Table::new(
        "notes".to_string(),
        vec![
            column("id", ColumnType::Integer),
            column("body", ColumnType::Varchar),
            column("name", ColumnType::Varchar),
        ],
    )
}

fn catalog() -> Database {
    Database { name: "test_db".to_string(), tables: vec![users(), notes()] }
}

fn plan_of(statement: Statement) -> Result<Plan, DBError> {
    Planner::new("test_db", Some(catalog()), statement).plan()
}

fn query(projections: Vec<Projection>, froms: Vec<&str>, predicate: Predicate) -> Statement {
    Statement::Select(Query::new(
        projections,
        froms.into_iter().map(|name| name.to_string()).collect(),
        predicate,
    ))
}

fn ident(name: &str) -> Projection {
    Projection::Expression(Expression::ident(name))
}

fn plan_error(message: &str) -> DBError {
    DBError::new(ErrorKind::Plan, message.to_string())
}

#[test]
fn plan_wildcard() {
    let table = users();
    assert_eq!(
        plan_of(query(vec![Projection::Wildcard], vec!["users"], Predicate::empty())),
        Ok(Plan::SelectPlan(SelectPlan {
            database: catalog(),
            plans: vec![SelectTablePlan {
                table: table.clone(),
                select_columns: table.columns.clone(),
                filter: None,
            }],
            projections: vec![
                ProjectionPlan { table: table.clone(), column: column("id", ColumnType::Integer) },
                ProjectionPlan { table: table.clone(), column: column("name", ColumnType::Varchar) },
            ],
            filters: vec![],
        }))
    );
}

#[test]
fn plan_identifier_resolves_to_first_table_with_the_column() {
    let plan = plan_of(query(vec![ident("name"), ident("body")], vec!["users", "notes"], Predicate::empty()));
    assert_eq!(
        plan,
        Ok(Plan::SelectPlan(SelectPlan {
            database: catalog(),
            plans: vec![
                SelectTablePlan {
                    table: users(),
                    select_columns: vec![column("name", ColumnType::Varchar)],
                    filter: None,
                },
                SelectTablePlan {
                    table: notes(),
                    select_columns: vec![column("body", ColumnType::Varchar)],
                    filter: None,
                },
            ],
            projections: vec![
                ProjectionPlan { table: users(), column: column("name", ColumnType::Varchar) },
                ProjectionPlan { table: notes(), column: column("body", ColumnType::Varchar) },
            ],
            filters: vec![],
        }))
    );
}

#[test]
fn plan_tables_that_the_catalog_lacks_are_passed_over() {
    let plan = plan_of(query(vec![ident("body")], vec!["missing", "notes"], Predicate::empty()));
    match plan {
        Ok(Plan::SelectPlan(select)) => {
            assert_eq!(select.plans.len(), 1);
            assert_eq!(select.plans[0].table, notes());
        }
        other => panic!("{:?}", other),
    }
}

#[test]
fn plan_filter_either_way_round() {
    let expected = vec![Filter::new(
        "users".to_string(),
        "id".to_string(),
        Value::Number("1".to_string()),
    )];
    for predicate in vec![
        BinaryOperator::Eq.build(Expression::ident("id"), Expression::number("1")),
        BinaryOperator::Eq.build(Expression::number("1"), Expression::ident("id")),
    ] {
        match plan_of(query(vec![ident("name")], vec!["users"], Predicate::new(predicate))) {
            Ok(Plan::SelectPlan(select)) => assert_eq!(select.filters, expected),
            other => panic!("{:?}", other),
        }
    }
}

#[test]
fn plan_rejects_other_predicates() {
    let unsupported = Err(plan_error("not supported yet: a predicate that is not `identifier = literal`"));
    for predicate in vec![
        BinaryOperator::Lt.build(Expression::ident("id"), Expression::number("1")),
        BinaryOperator::And.build(Expression::ident("id"), Expression::number("1")),
        BinaryOperator::Eq.build(Expression::ident("id"), Expression::ident("name")),
        BinaryOperator::Eq.build(Expression::number("1"), Expression::number("1")),
        BinaryOperator::Eq.build(
            Expression::ident("id"),
            BinaryOperator::Eq.build(Expression::ident("id"), Expression::number("1")),
        ),
        Expression::ident("id"),
        Expression::null(),
    ] {
        assert_eq!(
            plan_of(query(vec![ident("name")], vec!["users"], Predicate::new(predicate))),
            unsupported
        );
    }
}

#[test]
fn plan_rejects_projections_that_are_no_identifier() {
    let unsupported = Err(plan_error("not supported yet: a projection that is no identifier"));
    assert_eq!(
        plan_of(query(
            vec![Projection::Expression(Expression::number("1"))],
            vec!["users"],
            Predicate::empty()
        )),
        unsupported
    );
    assert_eq!(
        plan_of(query(
            vec![Projection::Expression(
                BinaryOperator::Eq.build(Expression::ident("id"), Expression::number("1"))
            )],
            vec!["users"],
            Predicate::empty()
        )),
        unsupported
    );
}

#[test]
fn plan_wildcard_needs_exactly_one_table() {
    assert_eq!(
        plan_of(query(vec![Projection::Wildcard], vec![], Predicate::empty())),
        Err(plan_error("wildcard needs exactly one table"))
    );
    assert_eq!(
        plan_of(query(vec![Projection::Wildcard], vec!["users", "notes"], Predicate::empty())),
        Err(plan_error("wildcard needs exactly one table"))
    );
    assert_eq!(
        plan_of(query(vec![Projection::Wildcard], vec!["missing"], Predicate::empty())),
        Err(plan_error("table not found for missing"))
    );
}

#[test]
fn plan_projection_errors_come_before_predicate_errors() {
    assert_eq!(
        plan_of(query(
            vec![ident("nope")],
            vec!["users"],
            Predicate::new(Expression::ident("id"))
        )),
        Err(plan_error("Unknown identifier: nope"))
    );
}

#[test]
fn plan_needs_the_catalog_to_read_or_fill() {
    let missing = Err(plan_error("database not found: test_db"));
    assert_eq!(
        Planner::new("test_db", None, query(vec![ident("id")], vec!["users"], Predicate::empty())).plan(),
        missing
    );
    assert_eq!(
        Planner::new(
            "test_db",
            None,
            Statement::Insert(Insert::new("users".to_string(), vec![]))
        )
        .plan(),
        missing
    );
}

#[test]
fn plan_create_statements_pass_through() {
    assert_eq!(
        Planner::new(
            "test_db",
            None,
            Statement::CreateDatabase(CreateDatabase::new("other".to_string()))
        )
        .plan(),
        Ok(Plan::CreateDatabasePlan(CreateDatabasePlan { database_name: "other".to_string() }))
    );
    let definitions = vec![
        ColumnDefinition::new("id".to_string(), "integer".to_string()),
        ColumnDefinition::new("x".to_string(), "nonsense".to_string()),
    ];
    assert_eq!(
        plan_of(Statement::CreateTable(CreateTable::new(
            "test_db".to_string(),
            "users".to_string(),
            definitions.clone()
        ))),
        Ok(Plan::CreateTablePlan(CreateTablePlan {
            database_name: "test_db".to_string(),
            table_name: "users".to_string(),
            column_definitions: definitions,
        }))
    );
}

#[test]
fn plan_insert_pairs_columns_with_values() {
    assert_eq!(
        plan_of(Statement::Insert(Insert::new(
            "users".to_string(),
            vec![
                Value::Number("1".to_string()),
                Value::QuotedString("Alice".to_string()),
                Value::QuotedString("ignored".to_string()),
            ]
        ))),
        Ok(Plan::InsertPlan(InsertPlan {
            database: catalog(),
            table: users(),
            values: vec![
                RecordValue {
                    column: column("id", ColumnType::Integer),
                    value: Value::Number("1".to_string())
                },
                RecordValue {
                    column: column("name", ColumnType::Varchar),
                    value: Value::QuotedString("Alice".to_string())
                },
            ],
        }))
    );
}

#[test]
fn plan_insert_errors() {
    assert_eq!(
        plan_of(Statement::Insert(Insert::new("nope".to_string(), vec![]))),
        Err(plan_error("table nope not found"))
    );
    assert_eq!(
        plan_of(Statement::Insert(Insert::new("users".to_string(), vec![]))),
        Err(DBError::new(
            ErrorKind::Data,
            "value is missing for column id in given INSERT INTO statement".to_string()
        ))
    );
}

#[test]
fn planner_keeps_its_statement() {
    let mut planner = Planner::new(
        "test_db",
        Some(catalog()),
        query(vec![ident("id")], vec!["users"], Predicate::empty()),
    );
    let first = planner.plan();
    let second = planner.plan();
    assert!(first.is_ok());
    assert_eq!(first, second);
}

fn select_plan(plans: Vec<(Table, Vec<Column>)>, projections: Vec<(Table, Column)>) -> SelectPlan {
    SelectPlan {
        database: catalog(),
        plans: plans
            .into_iter()
            .map(|(table, select_columns)| SelectTablePlan { table, select_columns, filter: None })
            .collect(),
        projections: projections
            .into_iter()
            .map(|(table, column)| ProjectionPlan { table, column })
            .collect(),
        filters: vec![],
    }
}

#[test]
fn result_metadata_follows_the_projections() {
    let id = column("id", ColumnType::Integer);
    let name = column("name", ColumnType::Varchar);
    let plan = select_plan(
        vec![(users(), vec![id.clone(), name.clone()])],
        vec![(users(), name.clone()), (users(), id.clone())],
    );
    assert_eq!(
        plan.result_metadata(),
        vec![FieldMetadata::new("name", "varchar"), FieldMetadata::new("id", "integer")]
    );
}

#[test]
fn result_metadata_leaves_out_columns_without_projection() {
    let id = column("id", ColumnType::Integer);
    let name = column("name", ColumnType::Varchar);
    let plan = select_plan(vec![(users(), vec![id.clone(), name.clone()])], vec![(users(), name.clone())]);
    assert_eq!(plan.result_metadata(), vec![FieldMetadata::new("name", "varchar")]);
    let plan = select_plan(vec![(users(), vec![id.clone()])], vec![(notes(), id.clone())]);
    assert_eq!(plan.result_metadata(), vec![]);
    let plan = select_plan(vec![], vec![(users(), id)]);
    assert_eq!(plan.result_metadata(), vec![]);
}

#[test]
fn result_metadata_of_columns_with_one_name() {
    let first = column("a", ColumnType::Integer);
    let second = column("b", ColumnType::Varchar);
    let third = column("a", ColumnType::Varchar);
    let table = Table::new("t".to_string(), vec![first.clone(), second.clone(), third.clone()]);
    let plan = select_plan(
        vec![(table.clone(), table.columns.clone())],
        vec![(table.clone(), first), (table.clone(), second), (table.clone(), third)],
    );
    assert_eq!(
        plan.result_metadata(),
        vec![
            FieldMetadata::new("a", "integer"),
            FieldMetadata::new("b", "varchar"),
            FieldMetadata::new("a", "varchar"),
        ]
    );
}

#[test]
fn result_metadata_has_one_field_for_each_projection_that_is_read() {
    let plan = match plan_of(query(
        vec![ident("name"), Projection::Wildcard],
        vec!["users"],
        Predicate::empty(),
    )) {
        Ok(Plan::SelectPlan(plan)) => plan,
        other => panic!("{:?}", other),
    };
    assert_eq!(plan.plans.len(), 2);
    assert_eq!(plan.projections.len(), 2);
    assert_eq!(
        plan.result_metadata(),
        vec![FieldMetadata::new("id", "integer"), FieldMetadata::new("name", "varchar")]
    );
    let plan = match plan_of(query(
        vec![Projection::Wildcard, ident("name"), ident("name")],
        vec!["users"],
        Predicate::empty(),
    )) {
        Ok(Plan::SelectPlan(plan)) => plan,
        other => panic!("{:?}", other),
    };
    assert_eq!(
        plan.result_metadata(),
        vec![
            FieldMetadata::new("id", "integer"),
            FieldMetadata::new("name", "varchar"),
            FieldMetadata::new("name", "varchar"),
            FieldMetadata::new("name", "varchar"),
        ]
    );
}

#[test]
fn result_metadata_over_several_table_plans() {
    let id = column("id", ColumnType::Integer);
    let body = column("body", ColumnType::Varchar);
    let plan = select_plan(
        vec![(users(), vec![id.clone()]), (notes(), vec![body.clone()])],
        vec![(notes(), body), (users(), id)],
    );
    assert_eq!(
        plan.result_metadata(),
        vec![FieldMetadata::new("body", "varchar"), FieldMetadata::new("id", "integer")]
    );
}

#[test]
fn filter_new_keeps_its_parts() {
    let filter = Filter::new("t".to_string(), "c".to_string(), Value::Null);
    assert_eq!(filter.table_name, "t");
    assert_eq!(filter.column_name, "c");
    assert_eq!(filter.expected_value, Value::Null);
}
