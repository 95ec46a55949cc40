//! The statements that the parser produces.

use vstd::prelude::*;

verus! {

/// A literal.
#[derive(Debug, PartialEq, Eq, Hash)]
pub enum Value {
    Number(String),
    QuotedString(String),
    Boolean(bool),
    Null,
}

pub enum ValueView {
    Number(Seq<char>),
    QuotedString(Seq<char>),
    Boolean(bool),
    Null,
}

impl ValueView {
    /// The literal as the text that is stored for it; `Null` has none.
    pub open spec fn text(self) -> Option<Seq<char>> {
        match self {
            ValueView::Number(n) => Some(n),
            ValueView::QuotedString(s) => Some(s),
            ValueView::Boolean(b) => Some(
                if b {
                    "true"@
                } else {
                    "false"@
                },
            ),
            ValueView::Null => None,
        }
    }
}

impl View for Value {
    type V = ValueView;

    open spec fn view(&self) -> ValueView {
        match self {
            Value::Number(n) => ValueView::Number(n@),
            Value::QuotedString(s) => ValueView::QuotedString(s@),
            Value::Boolean(b) => ValueView::Boolean(*b),
            Value::Null => ValueView::Null,
        }
    }
}

impl DeepView for Value {
    type V = ValueView;

    open spec fn deep_view(&self) -> ValueView {
        self@
    }
}

impl Clone for Value {
    fn clone(&self) -> (r: Self)
        ensures
            r@ == self@,
    {
        match self {
            Value::Number(n) => Value::Number(n.clone()),
            Value::QuotedString(s) => Value::QuotedString(s.clone()),
            Value::Boolean(b) => Value::Boolean(*b),
            Value::Null => Value::Null,
        }
    }
}

impl Value {
    pub fn to_string_opt(&self) -> (r: Option<String>)
        ensures
            r.deep_view() == self@.text(),
    {
        match self {
            Value::Number(n) => Some(n.clone()),
            Value::QuotedString(s) => Some(s.clone()),
            Value::Boolean(b) => Some(
                if *b {
                    "true".to_owned()
                } else {
                    "false".to_owned()
                },
            ),
            Value::Null => None,
        }
    }
}

#[derive(Debug, Clone, Copy, PartialEq, Eq, Hash)]
pub enum BinaryOperator {
    Eq,
    Neq,
    Lt,
    Lte,
    Gt,
    Gte,
    And,
    Or,
}

#[derive(Debug, PartialEq, Eq, Hash)]
pub enum Expression {
    Ident(String),
    Value(Value),
    BinOperator { lhs: Box<Expression>, rhs: Box<Expression>, op: BinaryOperator },
}

pub enum ExpressionView {
    Ident(Seq<char>),
    Value(ValueView),
    BinOperator { lhs: Box<ExpressionView>, rhs: Box<ExpressionView>, op: BinaryOperator },
}

pub open spec fn expression_view(e: Expression) -> ExpressionView
    decreases e,
{
    match e {
        Expression::Ident(name) => ExpressionView::Ident(name@),
        Expression::Value(value) => ExpressionView::Value(value@),
        Expression::BinOperator { lhs, rhs, op } => ExpressionView::BinOperator {
            lhs: Box::new(expression_view(*lhs)),
            rhs: Box::new(expression_view(*rhs)),
            op,
        },
    }
}

impl View for Expression {
    type V = ExpressionView;

    open spec fn view(&self) -> ExpressionView {
        expression_view(*self)
    }
}

impl DeepView for Expression {
    type V = ExpressionView;

    open spec fn deep_view(&self) -> ExpressionView {
        self@
    }
}

impl Clone for Expression {
    fn clone(&self) -> (r: Self)
        ensures
            r@ == self@,
        decreases self,
    {
        match self {
            Expression::Ident(name) => Expression::Ident(name.clone()),
            Expression::Value(value) => Expression::Value(value.clone()),
            Expression::BinOperator { lhs, rhs, op } => Expression::BinOperator {
                lhs: Box::new((**lhs).clone()),
                rhs: Box::new((**rhs).clone()),
                op: *op,
            },
        }
    }
}

impl Expression {
    pub fn ident(i: &str) -> (r: Expression)
        ensures
            r@ == ExpressionView::Ident(i@),
    {
        Self::Ident(i.to_owned())
    }

    pub fn number(n: &str) -> (r: Expression)
        ensures
            r@ == ExpressionView::Value(ValueView::Number(n@)),
    {
        Self::Value(Value::Number(n.to_owned()))
    }

    pub fn quoted_string(s: &str) -> (r: Expression)
        ensures
            r@ == ExpressionView::Value(ValueView::QuotedString(s@)),
    {
        Self::Value(Value::QuotedString(s.to_owned()))
    }

    pub fn boolean(b: bool) -> (r: Expression)
        ensures
            r@ == ExpressionView::Value(ValueView::Boolean(b)),
    {
        Self::Value(Value::Boolean(b))
    }

    pub fn null() -> (r: Expression)
        ensures
            r@ == ExpressionView::Value(ValueView::Null),
    {
        Self::Value(Value::Null)
    }
}

impl BinaryOperator {
    /// The comparison of `left` with `right` by this operator.
    pub fn build(self, left: Expression, right: Expression) -> (r: Expression)
        ensures
            r@ == (ExpressionView::BinOperator {
                lhs: Box::new(left@),
                rhs: Box::new(right@),
                op: self,
            }),
    {
        Expression::BinOperator { lhs: Box::new(left), rhs: Box::new(right), op: self }
    }
}

/// One item of a projection list.
#[derive(Debug, PartialEq, Eq, Hash)]
pub enum Projection {
    Expression(Expression),
    Wildcard,
}

pub enum ProjectionView {
    Expression(ExpressionView),
    Wildcard,
}

impl View for Projection {
    type V = ProjectionView;

    open spec fn view(&self) -> ProjectionView {
        match self {
            Projection::Expression(e) => ProjectionView::Expression(e@),
            Projection::Wildcard => ProjectionView::Wildcard,
        }
    }
}

impl DeepView for Projection {
    type V = ProjectionView;

    open spec fn deep_view(&self) -> ProjectionView {
        self@
    }
}

impl Clone for Projection {
    fn clone(&self) -> (r: Self)
        ensures
            r@ == self@,
    {
        match self {
            Projection::Expression(e) => Projection::Expression(e.clone()),
            Projection::Wildcard => Projection::Wildcard,
        }
    }
}

/// The condition of a query: one expression, or none.
#[derive(Debug, PartialEq, Eq, Hash)]
pub struct Predicate {
    pub expression: Option<Expression>,
}

impl View for Predicate {
    type V = Option<ExpressionView>;

    open spec fn view(&self) -> Option<ExpressionView> {
        match self.expression {
            Some(e) => Some(e@),
            None => None,
        }
    }
}

impl DeepView for Predicate {
    type V = Option<ExpressionView>;

    open spec fn deep_view(&self) -> Option<ExpressionView> {
        self@
    }
}

impl Clone for Predicate {
    fn clone(&self) -> (r: Self)
        ensures
            r@ == self@,
    {
        match &self.expression {
            Some(e) => Predicate { expression: Some(e.clone()) },
            None => Predicate { expression: None },
        }
    }
}

impl Predicate {
    pub fn empty() -> (r: Self)
        ensures
            r@ == None::<ExpressionView>,
    {
        Self { expression: None }
    }

    pub fn new(expression: Expression) -> (r: Self)
        ensures
            r@ == Some(expression@),
    {
        Self { expression: Some(expression) }
    }
}

#[derive(Debug, Clone, PartialEq, Eq, Hash)]
pub struct Query {
    pub projections: Vec<Projection>,
    pub froms: Vec<String>,
    pub predicate: Predicate,
}

pub struct QueryView {
    pub projections: Seq<ProjectionView>,
    pub froms: Seq<Seq<char>>,
    pub predicate: Option<ExpressionView>,
}

impl View for Query {
    type V = QueryView;

    open spec fn view(&self) -> QueryView {
        QueryView {
            projections: self.projections.deep_view(),
            froms: self.froms.deep_view(),
            predicate: self.predicate@,
        }
    }
}

impl Query {
    pub fn new(projections: Vec<Projection>, froms: Vec<String>, predicate: Predicate) -> (r: Self)
        ensures
            r@ == (QueryView {
                projections: projections.deep_view(),
                froms: froms.deep_view(),
                predicate: predicate@,
            }),
    {
        Self { projections, froms, predicate }
    }
}

#[derive(Debug, Clone, PartialEq, Eq, Hash)]
pub struct Insert {
    pub table_name: String,
    pub values: Vec<Value>,
}

pub struct InsertView {
    pub table_name: Seq<char>,
    pub values: Seq<ValueView>,
}

impl View for Insert {
    type V = InsertView;

    open spec fn view(&self) -> InsertView {
        InsertView { table_name: self.table_name@, values: self.values.deep_view() }
    }
}

impl Insert {
    pub fn new(table_name: String, values: Vec<Value>) -> (r: Self)
        ensures
            r@ == (InsertView { table_name: table_name@, values: values.deep_view() }),
    {
        Self { table_name, values }
    }
}

#[derive(Debug, Clone, PartialEq, Eq, Hash)]
pub struct CreateDatabase {
    pub name: String,
}

pub struct CreateDatabaseView {
    pub name: Seq<char>,
}

impl View for CreateDatabase {
    type V = CreateDatabaseView;

    open spec fn view(&self) -> CreateDatabaseView {
        CreateDatabaseView { name: self.name@ }
    }
}

impl CreateDatabase {
    pub fn new(name: String) -> (r: Self)
        ensures
            r@ == (CreateDatabaseView { name: name@ }),
    {
        Self { name }
    }
}

/// A column as a statement declares it: its name and the name of its type.
#[derive(Debug, PartialEq, Eq, Hash)]
pub struct ColumnDefinition {
    pub name: String,
    pub column_type: String,
}

pub struct ColumnDefinitionView {
    pub name: Seq<char>,
    pub column_type: Seq<char>,
}

impl View for ColumnDefinition {
    type V = ColumnDefinitionView;

    open spec fn view(&self) -> ColumnDefinitionView {
        ColumnDefinitionView { name: self.name@, column_type: self.column_type@ }
    }
}

impl DeepView for ColumnDefinition {
    type V = ColumnDefinitionView;

    open spec fn deep_view(&self) -> ColumnDefinitionView {
        self@
    }
}

impl Clone for ColumnDefinition {
    fn clone(&self) -> (r: Self)
        ensures
            r@ == self@,
    {
        ColumnDefinition { name: self.name.clone(), column_type: self.column_type.clone() }
    }
}

impl ColumnDefinition {
    pub fn new(name: String, column_type: String) -> (r: Self)
        ensures
            r@ == (ColumnDefinitionView { name: name@, column_type: column_type@ }),
    {
        Self { name, column_type }
    }
}

#[derive(Debug, Clone, PartialEq, Eq, Hash)]
pub struct CreateTable {
    pub database_name: String,
    pub table_name: String,
    pub column_definitions: Vec<ColumnDefinition>,
}

pub struct CreateTableView {
    pub database_name: Seq<char>,
    pub table_name: Seq<char>,
    pub column_definitions: Seq<ColumnDefinitionView>,
}

impl View for CreateTable {
    type V = CreateTableView;

    open spec fn view(&self) -> CreateTableView {
        CreateTableView {
            database_name: self.database_name@,
            table_name: self.table_name@,
            column_definitions: self.column_definitions.deep_view(),
        }
    }
}

impl CreateTable {
    pub fn new(
        database_name: String,
        table_name: String,
        column_definitions: Vec<ColumnDefinition>,
    ) -> (r: Self)
        ensures
            r@ == (CreateTableView {
                database_name: database_name@,
                table_name: table_name@,
                column_definitions: column_definitions.deep_view(),
            }),
    {
        Self { database_name, table_name, column_definitions }
    }
}

#[derive(Debug, Clone, PartialEq, Eq, Hash)]
pub enum Statement {
    Select(Query),
    Insert(Insert),
    CreateDatabase(CreateDatabase),
    CreateTable(CreateTable),
}

pub enum StatementView {
    Select(QueryView),
    Insert(InsertView),
    CreateDatabase(CreateDatabaseView),
    CreateTable(CreateTableView),
}

impl View for Statement {
    type V = StatementView;

    open spec fn view(&self) -> StatementView {
        match self {
            Statement::Select(query) => StatementView::Select(query@),
            Statement::Insert(insert) => StatementView::Insert(insert@),
            Statement::CreateDatabase(create) => StatementView::CreateDatabase(create@),
            Statement::CreateTable(create) => StatementView::CreateTable(create@),
        }
    }
}

impl DeepView for Statement {
    type V = StatementView;

    open spec fn deep_view(&self) -> StatementView {
        self@
    }
}

} // verus!
