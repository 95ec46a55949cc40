//! The planner: a statement, resolved against the catalog of its database,
//! becomes a plan.

use crate::error::{DBError, DBErrorView, ErrorKind};
use crate::parser::ast::{
    expression_view, BinaryOperator, ColumnDefinition, ColumnDefinitionView, CreateDatabase,
    CreateTable, Expression, ExpressionView, Insert, InsertView, Predicate, Projection,
    ProjectionView, Query, QueryView, Statement, StatementView, Value, ValueView,
};
use crate::result::{FieldMetadata, FieldMetadataView};
use crate::schema::{
    clone_columns, column_position, lemma_column_position, Column, ColumnView, Database,
    DatabaseView, Table, TableView,
};
use crate::text::join;
use vstd::prelude::*;

verus! {

/// One condition on the rows of one table: the column holds the value.
#[derive(Debug, PartialEq, Eq, Hash)]
pub struct Filter {
    pub table_name: String,
    pub column_name: String,
    pub expected_value: Value,
}

pub struct FilterView {
    pub table_name: Seq<char>,
    pub column_name: Seq<char>,
    pub expected_value: ValueView,
}

impl View for Filter {
    type V = FilterView;

    open spec fn view(&self) -> FilterView {
        FilterView {
            table_name: self.table_name@,
            column_name: self.column_name@,
            expected_value: self.expected_value@,
        }
    }
}

impl DeepView for Filter {
    type V = FilterView;

    open spec fn deep_view(&self) -> FilterView {
        self@
    }
}

impl Clone for Filter {
    fn clone(&self) -> (r: Self)
        ensures
            r@ == self@,
    {
        Filter {
            table_name: self.table_name.clone(),
            column_name: self.column_name.clone(),
            expected_value: self.expected_value.clone(),
        }
    }
}

impl Filter {
    pub fn new(table_name: String, column_name: String, expected_value: Value) -> (r: Self)
        ensures
            r@ == (FilterView {
                table_name: table_name@,
                column_name: column_name@,
                expected_value: expected_value@,
            }),
    {
        Self { table_name, column_name, expected_value }
    }
}

/// One column of the output. Its place among the projections of its plan is
/// its place in the output.
#[derive(Debug, Clone, PartialEq, Eq, Hash)]
pub struct ProjectionPlan {
    pub table: Table,
    pub column: Column,
}

pub struct ProjectionPlanView {
    pub table: TableView,
    pub column: ColumnView,
}

impl View for ProjectionPlan {
    type V = ProjectionPlanView;

    open spec fn view(&self) -> ProjectionPlanView {
        ProjectionPlanView { table: self.table@, column: self.column@ }
    }
}

impl DeepView for ProjectionPlan {
    type V = ProjectionPlanView;

    open spec fn deep_view(&self) -> ProjectionPlanView {
        self@
    }
}

/// The columns to read from one table.
#[derive(Debug, Clone, PartialEq, Eq, Hash)]
pub struct SelectTablePlan {
    pub table: Table,
    pub select_columns: Vec<Column>,
    pub filter: Option<Filter>,
}

pub struct SelectTablePlanView {
    pub table: TableView,
    pub select_columns: Seq<ColumnView>,
    pub filter: Option<FilterView>,
}

impl View for SelectTablePlan {
    type V = SelectTablePlanView;

    open spec fn view(&self) -> SelectTablePlanView {
        SelectTablePlanView {
            table: self.table@,
            select_columns: self.select_columns.deep_view(),
            filter: self.filter.deep_view(),
        }
    }
}

impl DeepView for SelectTablePlan {
    type V = SelectTablePlanView;

    open spec fn deep_view(&self) -> SelectTablePlanView {
        self@
    }
}

#[derive(Debug, Clone, PartialEq, Eq, Hash)]
pub struct SelectPlan {
    pub database: Database,
    pub plans: Vec<SelectTablePlan>,
    pub projections: Vec<ProjectionPlan>,
    pub filters: Vec<Filter>,
}

pub struct SelectPlanView {
    pub database: DatabaseView,
    pub plans: Seq<SelectTablePlanView>,
    pub projections: Seq<ProjectionPlanView>,
    pub filters: Seq<FilterView>,
}

impl View for SelectPlan {
    type V = SelectPlanView;

    open spec fn view(&self) -> SelectPlanView {
        SelectPlanView {
            database: self.database@,
            plans: self.plans.deep_view(),
            projections: self.projections.deep_view(),
            filters: self.filters.deep_view(),
        }
    }
}

/// One value of a row to insert, with the column that it is for.
#[derive(Debug, Clone, PartialEq, Eq, Hash)]
pub struct RecordValue {
    pub column: Column,
    pub value: Value,
}

pub struct RecordValueView {
    pub column: ColumnView,
    pub value: ValueView,
}

impl View for RecordValue {
    type V = RecordValueView;

    open spec fn view(&self) -> RecordValueView {
        RecordValueView { column: self.column@, value: self.value@ }
    }
}

impl DeepView for RecordValue {
    type V = RecordValueView;

    open spec fn deep_view(&self) -> RecordValueView {
        self@
    }
}

#[derive(Debug, Clone, PartialEq, Eq, Hash)]
pub struct InsertPlan {
    pub database: Database,
    pub table: Table,
    pub values: Vec<RecordValue>,
}

pub struct InsertPlanView {
    pub database: DatabaseView,
    pub table: TableView,
    pub values: Seq<RecordValueView>,
}

impl View for InsertPlan {
    type V = InsertPlanView;

    open spec fn view(&self) -> InsertPlanView {
        InsertPlanView {
            database: self.database@,
            table: self.table@,
            values: self.values.deep_view(),
        }
    }
}

#[derive(Debug, Clone, PartialEq, Eq, Hash)]
pub struct CreateDatabasePlan {
    pub database_name: String,
}

pub struct CreateDatabasePlanView {
    pub database_name: Seq<char>,
}

impl View for CreateDatabasePlan {
    type V = CreateDatabasePlanView;

    open spec fn view(&self) -> CreateDatabasePlanView {
        CreateDatabasePlanView { database_name: self.database_name@ }
    }
}

#[derive(Debug, Clone, PartialEq, Eq, Hash)]
pub struct CreateTablePlan {
    pub database_name: String,
    pub table_name: String,
    pub column_definitions: Vec<ColumnDefinition>,
}

pub struct CreateTablePlanView {
    pub database_name: Seq<char>,
    pub table_name: Seq<char>,
    pub column_definitions: Seq<ColumnDefinitionView>,
}

impl View for CreateTablePlan {
    type V = CreateTablePlanView;

    open spec fn view(&self) -> CreateTablePlanView {
        CreateTablePlanView {
            database_name: self.database_name@,
            table_name: self.table_name@,
            column_definitions: self.column_definitions.deep_view(),
        }
    }
}

/// A resolved description of the work that a statement asks for.
#[derive(Debug, Clone, PartialEq, Eq, Hash)]
pub enum Plan {
    SelectPlan(SelectPlan),
    InsertPlan(InsertPlan),
    CreateDatabasePlan(CreateDatabasePlan),
    CreateTablePlan(CreateTablePlan),
}

pub enum PlanView {
    SelectPlan(SelectPlanView),
    InsertPlan(InsertPlanView),
    CreateDatabasePlan(CreateDatabasePlanView),
    CreateTablePlan(CreateTablePlanView),
}

impl View for Plan {
    type V = PlanView;

    open spec fn view(&self) -> PlanView {
        match self {
            Plan::SelectPlan(plan) => PlanView::SelectPlan(plan@),
            Plan::InsertPlan(plan) => PlanView::InsertPlan(plan@),
            Plan::CreateDatabasePlan(plan) => PlanView::CreateDatabasePlan(plan@),
            Plan::CreateTablePlan(plan) => PlanView::CreateTablePlan(plan@),
        }
    }
}

// ---------------------------------------------------------------------------
// The fields of a result
// ---------------------------------------------------------------------------

/// The field that a column gives.
pub open spec fn field_of(column: ColumnView) -> FieldMetadataView {
    FieldMetadataView { field_name: column.name, field_type: column.column_type.name() }
}

/// Whether the table plan reads the column of the projection: it is a plan
/// for the projection's table, and a column of the projection's name is among
/// the columns that it selects.
pub open spec fn selects(plan: SelectTablePlanView, projection: ProjectionPlanView) -> bool {
    &&& plan.table.name == projection.table.name
    &&& column_position(plan.select_columns, projection.column.name, 0)
        < plan.select_columns.len()
}

/// The first position at or after `from` of a table plan that reads the
/// column of the projection, or the number of table plans.
pub open spec fn selecting_plan(
    plans: Seq<SelectTablePlanView>,
    projection: ProjectionPlanView,
    from: int,
) -> int
    decreases plans.len() - from,
{
    if 0 <= from < plans.len() && !selects(plans[from], projection) {
        selecting_plan(plans, projection, from + 1)
    } else {
        from
    }
}

/// The fields of the first `n` projections, each at its projection's own
/// place. A projection whose column no table plan reads gives no field.
pub open spec fn projected_fields(
    plans: Seq<SelectTablePlanView>,
    projections: Seq<ProjectionPlanView>,
    n: int,
) -> Seq<FieldMetadataView>
    decreases n,
{
    if n <= 0 {
        Seq::empty()
    } else {
        let before = projected_fields(plans, projections, n - 1);
        if selecting_plan(plans, projections[n - 1], 0) < plans.len() {
            before.push(field_of(projections[n - 1].column))
        } else {
            before
        }
    }
}

impl SelectPlanView {
    /// The fields of the result: one for each projection whose column is
    /// read, in the order of the projections.
    pub open spec fn result_metadata(self) -> Seq<FieldMetadataView> {
        projected_fields(self.plans, self.projections, self.projections.len() as int)
    }
}

impl SelectPlan {
    /// Whether a table plan reads the column of the projection.
    fn is_selected(&self, projection: &ProjectionPlan) -> (r: bool)
        ensures
            r == (selecting_plan(self@.plans, projection@, 0) < self@.plans.len()),
    {
        let mut i: usize = 0;
        while i < self.plans.len()
            invariant
                i <= self.plans.len(),
                selecting_plan(self@.plans, projection@, i as int) == selecting_plan(
                    self@.plans,
                    projection@,
                    0,
                ),
            decreases self.plans.len() - i,
        {
            let plan = &self.plans[i];
            assert(self@.plans[i as int] == plan@);
            if plan.table.name.as_str().eq(projection.table.name.as_str()) && Self::has_column(
                &plan.select_columns,
                projection.column.name.as_str(),
            ) {
                return true;
            }
            i += 1;
        }
        false
    }

    /// Whether a column called `name` is among `columns`.
    fn has_column(columns: &Vec<Column>, name: &str) -> (r: bool)
        ensures
            r == (column_position(columns.deep_view(), name@, 0) < columns.len()),
    {
        let mut i: usize = 0;
        while i < columns.len()
            invariant
                i <= columns.len(),
                column_position(columns.deep_view(), name@, i as int) == column_position(
                    columns.deep_view(),
                    name@,
                    0,
                ),
            decreases columns.len() - i,
        {
            assert(columns.deep_view()[i as int] == columns[i as int]@);
            if columns[i].name.as_str().eq(name) {
                return true;
            }
            i += 1;
        }
        false
    }

    /// The fields of the result: one for each projection whose column is
    /// read, in the order of the projections.
    pub fn result_metadata(&self) -> (r: Vec<FieldMetadata>)
        ensures
            r.deep_view() == self@.result_metadata(),
    {
        let mut r: Vec<FieldMetadata> = Vec::new();
        assert(r.deep_view() =~= Seq::empty());
        let mut i: usize = 0;
        while i < self.projections.len()
            invariant
                i <= self.projections.len(),
                r.deep_view() == projected_fields(self@.plans, self@.projections, i as int),
            decreases self.projections.len() - i,
        {
            let ghost before = r.deep_view();
            let projection = &self.projections[i];
            assert(self@.projections[i as int] == projection@);
            if self.is_selected(projection) {
                let column_type = projection.column.column_type.to_string();
                let field = FieldMetadata::new(
                    projection.column.name.as_str(),
                    column_type.as_str(),
                );
                r.push(field);
                assert(r.deep_view() =~= before.push(field@));
            }
            i += 1;
        }
        r
    }
}

// ---------------------------------------------------------------------------
// Planning
// ---------------------------------------------------------------------------

pub open spec fn plan_error(message: Seq<char>) -> DBErrorView {
    DBErrorView { kind: ErrorKind::Plan, message }
}

pub open spec fn data_error(message: Seq<char>) -> DBErrorView {
    DBErrorView { kind: ErrorKind::Data, message }
}

/// The error of a statement that reads or fills a database without catalog.
pub open spec fn database_not_found(database_name: Seq<char>) -> DBErrorView {
    plan_error("database not found: "@ + database_name)
}

/// The error of a name that is a column of no table of the query.
pub open spec fn unknown_identifier(name: Seq<char>) -> DBErrorView {
    plan_error("Unknown identifier: "@ + name)
}

/// The error of a wildcard whose table the catalog does not hold.
pub open spec fn table_not_found_for(table_name: Seq<char>) -> DBErrorView {
    plan_error("table not found for "@ + table_name)
}

/// The error of an INSERT into a table that the catalog does not hold.
pub open spec fn table_not_found(table_name: Seq<char>) -> DBErrorView {
    plan_error("table "@ + table_name + " not found"@)
}

/// The error of a wildcard in a query that names no table, or several.
pub open spec fn wildcard_needs_one_table() -> DBErrorView {
    plan_error("wildcard needs exactly one table"@)
}

/// The error of a projection that is a literal or a comparison.
pub open spec fn unsupported_projection() -> DBErrorView {
    plan_error("not supported yet: a projection that is no identifier"@)
}

/// The error of a condition that does not compare one identifier with one
/// literal for equality.
pub open spec fn unsupported_predicate() -> DBErrorView {
    plan_error("not supported yet: a predicate that is not `identifier = literal`"@)
}

/// The error of an INSERT with fewer values than the table has columns.
pub open spec fn value_missing(column_name: Seq<char>) -> DBErrorView {
    data_error(
        "value is missing for column "@ + column_name + " in given INSERT INTO statement"@,
    )
}

/// The error of an INSERT into a table without the column `id`.
pub open spec fn id_missing(table_name: Seq<char>) -> DBErrorView {
    data_error("value for 'id' column is missing. table: "@ + table_name)
}

/// Those of the first `n` names of the FROM clause that the catalog holds a
/// table for, as tables, in the clause's order.
pub open spec fn from_tables(database: DatabaseView, froms: Seq<Seq<char>>, n: int) -> Seq<
    TableView,
>
    decreases n,
{
    if n <= 0 {
        Seq::empty()
    } else {
        let before = from_tables(database, froms, n - 1);
        match database.table(froms[n - 1]) {
            Some(table) => before.push(table),
            None => before,
        }
    }
}

/// The first position at or after `from` of a table with a column called
/// `name`, or the number of tables.
pub open spec fn owner_position(tables: Seq<TableView>, name: Seq<char>, from: int) -> int
    decreases tables.len() - from,
{
    if 0 <= from < tables.len() && tables[from].column(name) is None {
        owner_position(tables, name, from + 1)
    } else {
        from
    }
}

/// The first table with a column called `name`, and that column.
pub open spec fn resolve(tables: Seq<TableView>, name: Seq<char>) -> Option<
    (TableView, ColumnView),
> {
    let at = owner_position(tables, name, 0);
    if at < tables.len() {
        Some((tables[at], tables[at].column(name)->0))
    } else {
        None
    }
}

/// The table plans and the projections of a query, while it is planned.
pub struct Selection {
    pub plans: Seq<SelectTablePlanView>,
    pub projections: Seq<ProjectionPlanView>,
}

/// One projection for each column of `table`, in the order of declaration.
pub open spec fn all_columns(table: TableView) -> Seq<ProjectionPlanView> {
    Seq::new(table.columns.len(), |i: int| ProjectionPlanView { table, column: table.columns[i] })
}

/// The selection after one more item of the projection list.
pub open spec fn add_projection(
    tables: Seq<TableView>,
    froms: Seq<Seq<char>>,
    selection: Selection,
    projection: ProjectionView,
) -> Result<Selection, DBErrorView> {
    match projection {
        ProjectionView::Wildcard => {
            if froms.len() != 1 {
                Err(wildcard_needs_one_table())
            } else if tables.len() == 0 {
                Err(table_not_found_for(froms[0]))
            } else {
                Ok(
                    Selection {
                        plans: selection.plans.push(
                            SelectTablePlanView {
                                table: tables[0],
                                select_columns: tables[0].columns,
                                filter: None,
                            },
                        ),
                        projections: all_columns(tables[0]),
                    },
                )
            }
        },
        ProjectionView::Expression(ExpressionView::Ident(name)) => {
            match resolve(tables, name) {
                Some((table, column)) => Ok(
                    Selection {
                        plans: selection.plans.push(
                            SelectTablePlanView {
                                table,
                                select_columns: seq![column],
                                filter: None,
                            },
                        ),
                        projections: selection.projections.push(
                            ProjectionPlanView { table, column },
                        ),
                    },
                ),
                None => Err(unknown_identifier(name)),
            }
        },
        ProjectionView::Expression(_) => Err(unsupported_projection()),
    }
}

/// The selection after the items of the projection list from position `i` on.
pub open spec fn add_projections(
    tables: Seq<TableView>,
    froms: Seq<Seq<char>>,
    projections: Seq<ProjectionView>,
    selection: Selection,
    i: int,
) -> Result<Selection, DBErrorView>
    decreases projections.len() - i,
{
    if 0 <= i < projections.len() {
        match add_projection(tables, froms, selection, projections[i]) {
            Ok(next) => add_projections(tables, froms, projections, next, i + 1),
            Err(e) => Err(e),
        }
    } else {
        Ok(selection)
    }
}

/// The filter that compares the column `name` with `value`.
pub open spec fn filter_on(tables: Seq<TableView>, name: Seq<char>, value: ValueView) -> Result<
    FilterView,
    DBErrorView,
> {
    match resolve(tables, name) {
        Some((table, _)) => Ok(
            FilterView { table_name: table.name, column_name: name, expected_value: value },
        ),
        None => Err(unknown_identifier(name)),
    }
}

/// The filters of a condition: one for `identifier = literal`, written either
/// way round; none where there is no condition.
pub open spec fn filters_of(tables: Seq<TableView>, predicate: Option<ExpressionView>) -> Result<
    Seq<FilterView>,
    DBErrorView,
> {
    match predicate {
        None => Ok(Seq::empty()),
        Some(ExpressionView::BinOperator { lhs, rhs, op }) => {
            if op == BinaryOperator::Eq {
                match (*lhs, *rhs) {
                    (ExpressionView::Ident(name), ExpressionView::Value(value)) => {
                        match filter_on(tables, name, value) {
                            Ok(filter) => Ok(seq![filter]),
                            Err(e) => Err(e),
                        }
                    },
                    (ExpressionView::Value(value), ExpressionView::Ident(name)) => {
                        match filter_on(tables, name, value) {
                            Ok(filter) => Ok(seq![filter]),
                            Err(e) => Err(e),
                        }
                    },
                    _ => Err(unsupported_predicate()),
                }
            } else {
                Err(unsupported_predicate())
            }
        },
        Some(_) => Err(unsupported_predicate()),
    }
}

/// The plan of a query on the database whose catalog is `database`.
pub open spec fn plan_select(
    database_name: Seq<char>,
    database: Option<DatabaseView>,
    query: QueryView,
) -> Result<SelectPlanView, DBErrorView> {
    match database {
        None => Err(database_not_found(database_name)),
        Some(database) => {
            let tables = from_tables(database, query.froms, query.froms.len() as int);
            let start = Selection { plans: Seq::empty(), projections: Seq::empty() };
            match add_projections(tables, query.froms, query.projections, start, 0) {
                Err(e) => Err(e),
                Ok(selection) => match filters_of(tables, query.predicate) {
                    Err(e) => Err(e),
                    Ok(filters) => Ok(
                        SelectPlanView {
                            database,
                            plans: selection.plans,
                            projections: selection.projections,
                            filters,
                        },
                    ),
                },
            }
        },
    }
}

/// Each column of the table with the value at its position.
pub open spec fn zip_values(columns: Seq<ColumnView>, values: Seq<ValueView>) -> Seq<
    RecordValueView,
> {
    Seq::new(columns.len(), |i: int| RecordValueView { column: columns[i], value: values[i] })
}

/// The plan of an INSERT on the database whose catalog is `database`.
pub open spec fn plan_insert(
    database_name: Seq<char>,
    database: Option<DatabaseView>,
    insert: InsertView,
) -> Result<InsertPlanView, DBErrorView> {
    match database {
        None => Err(database_not_found(database_name)),
        Some(database) => match database.table(insert.table_name) {
            None => Err(table_not_found(insert.table_name)),
            Some(table) => {
                if insert.values.len() < table.columns.len() {
                    Err(value_missing(table.columns[insert.values.len() as int].name))
                } else if table.column("id"@) is None {
                    Err(id_missing(table.name))
                } else {
                    Ok(
                        InsertPlanView {
                            database,
                            table,
                            values: zip_values(table.columns, insert.values),
                        },
                    )
                }
            },
        },
    }
}

/// The plan of `statement` on the database called `database_name`, whose
/// catalog is `database`.
pub open spec fn plan_spec(
    database_name: Seq<char>,
    database: Option<DatabaseView>,
    statement: StatementView,
) -> Result<PlanView, DBErrorView> {
    match statement {
        StatementView::Select(query) => match plan_select(database_name, database, query) {
            Ok(plan) => Ok(PlanView::SelectPlan(plan)),
            Err(e) => Err(e),
        },
        StatementView::Insert(insert) => match plan_insert(database_name, database, insert) {
            Ok(plan) => Ok(PlanView::InsertPlan(plan)),
            Err(e) => Err(e),
        },
        StatementView::CreateDatabase(create) => Ok(
            PlanView::CreateDatabasePlan(CreateDatabasePlanView { database_name: create.name }),
        ),
        StatementView::CreateTable(create) => Ok(
            PlanView::CreateTablePlan(
                CreateTablePlanView {
                    database_name: create.database_name,
                    table_name: create.table_name,
                    column_definitions: create.column_definitions,
                },
            ),
        ),
    }
}

/// No two columns have the same name.
pub open spec fn distinct_columns(columns: Seq<ColumnView>) -> bool {
    forall|i: int, j: int|
        0 <= i < j < columns.len() ==> (#[trigger] columns[i]).name != (#[trigger] columns[j]).name
}

/// The query `SELECT * FROM table_name`, with any condition.
pub open spec fn wildcard_query(table_name: Seq<char>, predicate: Option<ExpressionView>)
    -> QueryView {
    QueryView { projections: seq![ProjectionView::Wildcard], froms: seq![table_name], predicate }
}

/// The query `SELECT column_name FROM table_name`, with any condition.
pub open spec fn column_query(
    column_name: Seq<char>,
    table_name: Seq<char>,
    predicate: Option<ExpressionView>,
) -> QueryView {
    QueryView {
        projections: seq![ProjectionView::Expression(ExpressionView::Ident(column_name))],
        froms: seq![table_name],
        predicate,
    }
}

/// The fields that some columns give, in the columns' order.
pub open spec fn fields_of(columns: Seq<ColumnView>) -> Seq<FieldMetadataView> {
    Seq::new(columns.len(), |i: int| field_of(columns[i]))
}

/// The plan of `SELECT * FROM t` with the filters `filters`, where the
/// catalog holds the table `t`.
pub open spec fn wildcard_plan(database: DatabaseView, table: TableView, filters: Seq<FilterView>)
    -> SelectPlanView {
    SelectPlanView {
        database,
        plans: seq![
            SelectTablePlanView { table, select_columns: table.columns, filter: None },
        ],
        projections: all_columns(table),
        filters,
    }
}

/// `SELECT * FROM t` is planned as one read of all columns of `t`, projected
/// to each column of `t` in the order of declaration, with the filters of
/// its condition.
pub proof fn lemma_wildcard_plan(
    database_name: Seq<char>,
    database: DatabaseView,
    table: TableView,
    predicate: Option<ExpressionView>,
)
    requires
        database.table(table.name) == Some(table),
    ensures
        plan_select(database_name, Some(database), wildcard_query(table.name, predicate))
            == match filters_of(seq![table], predicate) {
            Ok(filters) => Ok::<_, DBErrorView>(wildcard_plan(database, table, filters)),
            Err(e) => Err(e),
        },
{
    let query = wildcard_query(table.name, predicate);
    reveal_with_fuel(from_tables, 2);
    reveal_with_fuel(add_projections, 2);
    let tables = from_tables(database, query.froms, 1);
    assert(tables =~= seq![table]);
    let start = Selection { plans: Seq::empty(), projections: Seq::empty() };
    let plan = SelectTablePlanView { table, select_columns: table.columns, filter: None };
    assert(start.plans.push(plan) =~= seq![plan]);
}

/// The fields of `SELECT * FROM t` are the fields of the columns of `t`, in
/// the order in which the columns were declared.
pub proof fn lemma_wildcard_fields(
    database: DatabaseView,
    table: TableView,
    filters: Seq<FilterView>,
)
    ensures
        wildcard_plan(database, table, filters).result_metadata() == fields_of(table.columns),
{
    let plan = wildcard_plan(database, table, filters);
    lemma_wildcard_projected_fields(plan, table, table.columns.len() as int);
    assert(fields_of(table.columns).take(table.columns.len() as int) =~= fields_of(
        table.columns,
    ));
}

proof fn lemma_wildcard_projected_fields(plan: SelectPlanView, table: TableView, n: int)
    requires
        plan.plans == seq![
            SelectTablePlanView { table, select_columns: table.columns, filter: None },
        ],
        plan.projections == all_columns(table),
        0 <= n <= table.columns.len(),
    ensures
        projected_fields(plan.plans, plan.projections, n) == fields_of(table.columns).take(n),
    decreases n,
{
    let expected = fields_of(table.columns);
    if n > 0 {
        lemma_wildcard_projected_fields(plan, table, n - 1);
        let projection = plan.projections[n - 1];
        assert(projection.column == table.columns[n - 1]);
        lemma_column_position(table.columns, projection.column.name, 0);
        assert(selects(plan.plans[0], projection));
        assert(expected.take(n - 1).push(expected[n - 1]) =~= expected.take(n));
    } else {
        assert(projected_fields(plan.plans, plan.projections, n) =~= expected.take(n));
    }
}


/// A query for a column fails where the catalog has no table of the name
/// after FROM: the error names the column, which no table of the query has.
pub proof fn lemma_column_of_missing_table(
    database_name: Seq<char>,
    database: DatabaseView,
    column_name: Seq<char>,
    table_name: Seq<char>,
    predicate: Option<ExpressionView>,
)
    requires
        database.table(table_name) is None,
    ensures
        plan_select(
            database_name,
            Some(database),
            column_query(column_name, table_name, predicate),
        ) == Err::<SelectPlanView, _>(unknown_identifier(column_name)),
{
    let query = column_query(column_name, table_name, predicate);
    reveal_with_fuel(from_tables, 2);
    reveal_with_fuel(add_projections, 2);
    let tables = from_tables(database, query.froms, 1);
    assert(tables =~= Seq::empty());
}

/// A query for a column fails where the table after FROM has no column of
/// that name: the error names the column.
pub proof fn lemma_unknown_column(
    database_name: Seq<char>,
    database: DatabaseView,
    column_name: Seq<char>,
    table: TableView,
    predicate: Option<ExpressionView>,
)
    requires
        database.table(table.name) == Some(table),
        table.column(column_name) is None,
    ensures
        plan_select(
            database_name,
            Some(database),
            column_query(column_name, table.name, predicate),
        ) == Err::<SelectPlanView, _>(unknown_identifier(column_name)),
{
    let query = column_query(column_name, table.name, predicate);
    reveal_with_fuel(from_tables, 2);
    reveal_with_fuel(add_projections, 2);
    reveal_with_fuel(owner_position, 2);
    let tables = from_tables(database, query.froms, 1);
    assert(tables =~= seq![table]);
}

/// Turns one statement into its plan, against the catalog of one database.
#[derive(Debug, Clone, PartialEq, Eq, Hash)]
pub struct Planner {
    pub database_name: String,
    pub database: Option<Database>,
    pub sql: Statement,
}

pub struct PlannerView {
    pub database_name: Seq<char>,
    pub database: Option<DatabaseView>,
    pub sql: StatementView,
}

impl View for Planner {
    type V = PlannerView;

    open spec fn view(&self) -> PlannerView {
        PlannerView {
            database_name: self.database_name@,
            database: self.database.deep_view(),
            sql: self.sql@,
        }
    }
}

fn plan_err(message: String) -> (r: DBError)
    ensures
        r@ == plan_error(message@),
{
    DBError::new(ErrorKind::Plan, message)
}

pub(crate) fn data_err(message: String) -> (r: DBError)
    ensures
        r@ == data_error(message@),
{
    DBError::new(ErrorKind::Data, message)
}

/// The first of `tables` with a column called `name`, as its position, and
/// that column.
fn find_owner(tables: &Vec<Table>, name: &str) -> (r: Option<(usize, Column)>)
    ensures
        match r {
            Some((at, column)) => at < tables.len() && resolve(tables.deep_view(), name@) == Some(
                (tables.deep_view()[at as int], column@),
            ),
            None => resolve(tables.deep_view(), name@) is None,
        },
{
    let mut i: usize = 0;
    while i < tables.len()
        invariant
            i <= tables.len(),
            owner_position(tables.deep_view(), name@, i as int) == owner_position(
                tables.deep_view(),
                name@,
                0,
            ),
        decreases tables.len() - i,
    {
        match tables[i].column(name) {
            Some(column) => {
                return Some((i, column));
            },
            None => {},
        }
        i += 1;
    }
    None
}

impl Planner {
    /// A planner for `sql` on the database called `database_name`; `database`
    /// is its catalog as the store holds it, `None` where it holds none.
    pub fn new(database_name: &str, database: Option<Database>, sql: Statement) -> (r: Self)
        ensures
            r@ == (PlannerView {
                database_name: database_name@,
                database: database.deep_view(),
                sql: sql@,
            }),
    {
        Self { database_name: database_name.to_owned(), database, sql }
    }

    /// The plan of the statement. A query or an INSERT needs the catalog, and
    /// every name in it has to resolve; the two CREATE statements pass through.
    pub fn plan(&mut self) -> (r: Result<Plan, DBError>)
        ensures
            final(self)@ == old(self)@,
            match r {
                Ok(plan) => plan_spec(
                    old(self)@.database_name,
                    old(self)@.database,
                    old(self)@.sql,
                ) == Ok::<_, DBErrorView>(plan@),
                Err(e) => plan_spec(old(self)@.database_name, old(self)@.database, old(self)@.sql)
                    == Err::<PlanView, _>(e@),
            },
    {
        match &self.sql {
            Statement::Select(query) => self.build_select_query_plan(query),
            Statement::Insert(insert) => self.build_insert_plan(insert),
            Statement::CreateDatabase(create_database) => Ok(
                self.build_create_database_plan(create_database),
            ),
            Statement::CreateTable(create_table) => Ok(self.build_create_table_plan(create_table)),
        }
    }

    fn missing_database(&self) -> (r: DBError)
        ensures
            r@ == database_not_found(self@.database_name),
    {
        plan_err(join("database not found: ", self.database_name.as_str()))
    }

    #[verifier::loop_isolation(false)]
    fn build_select_query_plan(&self, query: &Query) -> (r: Result<Plan, DBError>)
        ensures
            match r {
                Ok(plan) => plan matches Plan::SelectPlan(select) && plan_select(
                    self@.database_name,
                    self@.database,
                    query@,
                ) == Ok::<_, DBErrorView>(select@),
                Err(e) => plan_select(self@.database_name, self@.database, query@) == Err::<
                    SelectPlanView,
                    _,
                >(e@),
            },
    {
        let database = match &self.database {
            Some(database) => database,
            None => {
                return Err(self.missing_database());
            },
        };
        let ghost froms = query@.froms;
        let mut tables: Vec<Table> = Vec::new();
        let mut i: usize = 0;
        assert(tables.deep_view() =~= Seq::empty());
        while i < query.froms.len()
            invariant
                i <= query.froms.len(),
                froms == query.froms.deep_view(),
                tables.deep_view() == from_tables(database@, froms, i as int),
            decreases query.froms.len() - i,
        {
            let ghost before = tables.deep_view();
            assert(froms[i as int] == query.froms[i as int]@);
            match database.table(query.froms[i].as_str()) {
                Some(table) => {
                    tables.push(table);
                    assert(tables.deep_view() =~= before.push(table@));
                },
                None => {},
            }
            i += 1;
        }
        let ghost tables_view = tables.deep_view();
        let ghost items = query@.projections;
        let mut plans: Vec<SelectTablePlan> = Vec::new();
        let mut projections: Vec<ProjectionPlan> = Vec::new();
        let mut k: usize = 0;
        assert(plans.deep_view() =~= Seq::empty());
        assert(projections.deep_view() =~= Seq::empty());
        while k < query.projections.len()
            invariant
                k <= query.projections.len(),
                froms == query.froms.deep_view(),
                items == query.projections.deep_view(),
                tables_view == tables.deep_view(),
                add_projections(
                    tables_view,
                    froms,
                    items,
                    Selection { plans: Seq::empty(), projections: Seq::empty() },
                    0,
                ) == add_projections(
                    tables_view,
                    froms,
                    items,
                    Selection { plans: plans.deep_view(), projections: projections.deep_view() },
                    k as int,
                ),
            decreases query.projections.len() - k,
        {
            let ghost plans_before = plans.deep_view();
            let ghost projections_before = projections.deep_view();
            assert(items[k as int] == query.projections[k as int]@);
            match &query.projections[k] {
                Projection::Wildcard => {
                    if query.froms.len() != 1 {
                        return Err(plan_err("wildcard needs exactly one table".to_owned()));
                    }
                    if tables.len() == 0 {
                        assert(froms[0] == query.froms[0]@);
                        return Err(
                            plan_err(join("table not found for ", query.froms[0].as_str())),
                        );
                    }
                    let table = &tables[0];
                    assert(table@ == tables_view[0]);
                    projections = Self::all_columns_of(table);
                    let plan = SelectTablePlan {
                        table: table.clone(),
                        select_columns: clone_columns(&table.columns),
                        filter: None,
                    };
                    plans.push(plan);
                    assert(plans.deep_view() =~= plans_before.push(plan@));
                },
                Projection::Expression(Expression::Ident(ident)) => {
                    match find_owner(&tables, ident.as_str()) {
                        None => {
                            return Err(plan_err(join("Unknown identifier: ", ident.as_str())));
                        },
                        Some((at, column)) => {
                            let table = &tables[at];
                            assert(table@ == tables_view[at as int]);
                            let mut select_columns: Vec<Column> = Vec::new();
                            select_columns.push(column.clone());
                            assert(select_columns.deep_view() =~= seq![column@]);
                            let plan = SelectTablePlan {
                                table: table.clone(),
                                select_columns,
                                filter: None,
                            };
                            let projection = ProjectionPlan { table: table.clone(), column };
                            plans.push(plan);
                            projections.push(projection);
                            assert(plans.deep_view() =~= plans_before.push(plan@));
                            assert(projections.deep_view() =~= projections_before.push(
                                projection@,
                            ));
                        },
                    }
                },
                Projection::Expression(_) => {
                    return Err(
                        plan_err(
                            "not supported yet: a projection that is no identifier".to_owned(),
                        ),
                    );
                },
            }
            k += 1;
        }
        let filters = Self::build_filters(&tables, &query.predicate)?;
        Ok(Plan::SelectPlan(SelectPlan { database: database.clone(), plans, projections, filters }))
    }

    /// One projection for each column of `table`, in the order of declaration.
    fn all_columns_of(table: &Table) -> (r: Vec<ProjectionPlan>)
        ensures
            r.deep_view() == all_columns(table@),
    {
        let mut r: Vec<ProjectionPlan> = Vec::new();
        let mut i: usize = 0;
        while i < table.columns.len()
            invariant
                i <= table.columns.len(),
                r.deep_view() == all_columns(table@).take(i as int),
            decreases table.columns.len() - i,
        {
            let ghost before = r.deep_view();
            let projection = ProjectionPlan {
                table: table.clone(),
                column: table.columns[i].clone(),
            };
            r.push(projection);
            assert(r.deep_view() =~= before.push(projection@));
            i += 1;
            assert(all_columns(table@).take(i as int) =~= before.push(projection@));
        }
        assert(all_columns(table@).take(i as int) =~= all_columns(table@));
        r
    }

    fn build_filters(tables: &Vec<Table>, predicate: &Predicate) -> (r: Result<
        Vec<Filter>,
        DBError,
    >)
        ensures
            match r {
                Ok(filters) => filters_of(tables.deep_view(), predicate@) == Ok::<_, DBErrorView>(
                    filters.deep_view(),
                ),
                Err(e) => filters_of(tables.deep_view(), predicate@) == Err::<Seq<FilterView>, _>(
                    e@,
                ),
            },
    {
        let mut filters: Vec<Filter> = Vec::new();
        assert(filters.deep_view() =~= Seq::empty());
        proof {
            reveal_with_fuel(expression_view, 2);
        }
        match &predicate.expression {
            None => Ok(filters),
            Some(Expression::BinOperator { lhs, rhs, op }) => {
                match op {
                    BinaryOperator::Eq => {},
                    _ => {
                        return Err(Self::predicate_not_supported());
                    },
                }
                let filter = match (&**lhs, &**rhs) {
                    (Expression::Ident(ident), Expression::Value(value)) => Self::build_filter(
                        tables,
                        ident,
                        value,
                    )?,
                    (Expression::Value(value), Expression::Ident(ident)) => Self::build_filter(
                        tables,
                        ident,
                        value,
                    )?,
                    _ => {
                        return Err(Self::predicate_not_supported());
                    },
                };
                filters.push(filter);
                assert(filters.deep_view() =~= seq![filter@]);
                Ok(filters)
            },
            Some(_) => Err(Self::predicate_not_supported()),
        }
    }

    fn predicate_not_supported() -> (r: DBError)
        ensures
            r@ == unsupported_predicate(),
    {
        plan_err("not supported yet: a predicate that is not `identifier = literal`".to_owned())
    }

    fn build_filter(tables: &Vec<Table>, ident: &String, value: &Value) -> (r: Result<
        Filter,
        DBError,
    >)
        ensures
            match r {
                Ok(filter) => filter_on(tables.deep_view(), ident@, value@) == Ok::<_, DBErrorView>(
                    filter@,
                ),
                Err(e) => filter_on(tables.deep_view(), ident@, value@) == Err::<FilterView, _>(e@),
            },
    {
        match find_owner(tables, ident.as_str()) {
            Some((at, _)) => Ok(
                Filter::new(tables[at].name.clone(), ident.clone(), value.clone()),
            ),
            None => Err(plan_err(join("Unknown identifier: ", ident.as_str()))),
        }
    }

    fn build_create_database_plan(&self, create_database: &CreateDatabase) -> (r: Plan)
        ensures
            r@ == PlanView::CreateDatabasePlan(
                CreateDatabasePlanView { database_name: create_database@.name },
            ),
    {
        Plan::CreateDatabasePlan(CreateDatabasePlan { database_name: create_database.name.clone() })
    }

    fn build_create_table_plan(&self, create_table: &CreateTable) -> (r: Plan)
        ensures
            r@ == PlanView::CreateTablePlan(
                CreateTablePlanView {
                    database_name: create_table@.database_name,
                    table_name: create_table@.table_name,
                    column_definitions: create_table@.column_definitions,
                },
            ),
    {
        let mut column_definitions: Vec<ColumnDefinition> = Vec::new();
        let mut i: usize = 0;
        while i < create_table.column_definitions.len()
            invariant
                i <= create_table.column_definitions.len(),
                column_definitions.deep_view() == create_table@.column_definitions.take(i as int),
            decreases create_table.column_definitions.len() - i,
        {
            let ghost before = column_definitions.deep_view();
            let definition = create_table.column_definitions[i].clone();
            column_definitions.push(definition);
            assert(column_definitions.deep_view() =~= before.push(definition@));
            i += 1;
            assert(create_table@.column_definitions.take(i as int) =~= before.push(definition@));
        }
        assert(create_table@.column_definitions.take(i as int)
            =~= create_table@.column_definitions);
        Plan::CreateTablePlan(
            CreateTablePlan {
                database_name: create_table.database_name.clone(),
                table_name: create_table.table_name.clone(),
                column_definitions,
            },
        )
    }

    fn build_insert_plan(&self, insert: &Insert) -> (r: Result<Plan, DBError>)
        ensures
            match r {
                Ok(plan) => plan matches Plan::InsertPlan(inserted) && plan_insert(
                    self@.database_name,
                    self@.database,
                    insert@,
                ) == Ok::<_, DBErrorView>(inserted@),
                Err(e) => plan_insert(self@.database_name, self@.database, insert@) == Err::<
                    InsertPlanView,
                    _,
                >(e@),
            },
    {
        let database = match &self.database {
            Some(database) => database,
            None => {
                return Err(self.missing_database());
            },
        };
        let table = match database.table(insert.table_name.as_str()) {
            Some(table) => table,
            None => {
                let mut message = join("table ", insert.table_name.as_str());
                message.append(" not found");
                return Err(plan_err(message));
            },
        };
        if insert.values.len() < table.columns.len() {
            let column = &table.columns[insert.values.len()];
            let mut message = join("value is missing for column ", column.name.as_str());
            message.append(" in given INSERT INTO statement");
            return Err(data_err(message));
        }
        if table.column(Column::ID).is_none() {
            return Err(
                data_err(join("value for 'id' column is missing. table: ", table.name.as_str())),
            );
        }
        let ghost zipped = zip_values(table@.columns, insert@.values);
        let mut values: Vec<RecordValue> = Vec::new();
        let mut i: usize = 0;
        while i < table.columns.len()
            invariant
                i <= table.columns.len() <= insert.values.len(),
                zipped == zip_values(table@.columns, insert@.values),
                values.deep_view() == zipped.take(i as int),
            decreases table.columns.len() - i,
        {
            let ghost before = values.deep_view();
            let value = RecordValue {
                column: table.columns[i].clone(),
                value: insert.values[i].clone(),
            };
            values.push(value);
            assert(values.deep_view() =~= before.push(value@));
            i += 1;
            assert(zipped.take(i as int) =~= before.push(value@));
        }
        assert(zipped.take(i as int) =~= zipped);
        Ok(Plan::InsertPlan(InsertPlan { database: database.clone(), table, values }))
    }
}

} // verus!
