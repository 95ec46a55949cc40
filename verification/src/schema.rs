//! The schema catalog: databases, their tables, and the tables' columns.

use crate::text::{lowercase, to_lowercase};
use vstd::prelude::*;

pub mod store;

verus! {

#[derive(Debug, Clone, Copy, PartialEq, Eq, Hash)]
pub enum ColumnType {
    Varchar,
    Integer,
}

impl ColumnType {
    /// The type's name, in small letters.
    pub open spec fn name(self) -> Seq<char> {
        match self {
            ColumnType::Varchar => "varchar"@,
            ColumnType::Integer => "integer"@,
        }
    }

    /// The type that `s` names, without regard to the case of ASCII letters.
    pub open spec fn of_name(s: Seq<char>) -> Option<ColumnType> {
        let w = lowercase(s);
        if w == "varchar"@ {
            Some(ColumnType::Varchar)
        } else if w == "integer"@ {
            Some(ColumnType::Integer)
        } else {
            None
        }
    }

    /// The type that `s` stands for: a name or an alias of a type, without
    /// regard to the case of ASCII letters.
    pub open spec fn of_alias(s: Seq<char>) -> Option<ColumnType> {
        let w = lowercase(s);
        if w == "string"@ || w == "varchar"@ {
            Some(ColumnType::Varchar)
        } else if w == "int"@ || w == "integer"@ {
            Some(ColumnType::Integer)
        } else {
            None
        }
    }

    pub fn find(s: &str) -> (r: Option<Self>)
        ensures
            r == Self::of_name(s@),
    {
        let lowered = to_lowercase(s);
        let w = lowered.as_str();
        if w.eq("varchar") {
            Some(ColumnType::Varchar)
        } else if w.eq("integer") {
            Some(ColumnType::Integer)
        } else {
            None
        }
    }

    /// The type that a column declaration or a result's metadata names; `None`
    /// for a text that names no type.
    pub fn parse(s: &str) -> (r: Option<Self>)
        ensures
            r == Self::of_alias(s@),
    {
        let lowered = to_lowercase(s);
        let w = lowered.as_str();
        if w.eq("string") || w.eq("varchar") {
            Some(ColumnType::Varchar)
        } else if w.eq("int") || w.eq("integer") {
            Some(ColumnType::Integer)
        } else {
            None
        }
    }

    pub fn to_string(&self) -> (r: String)
        ensures
            r@ == self.name(),
    {
        match self {
            ColumnType::Varchar => "varchar".to_owned(),
            ColumnType::Integer => "integer".to_owned(),
        }
    }
}

#[derive(Debug, PartialEq, Eq, Hash)]
pub struct Column {
    pub name: String,
    pub column_type: ColumnType,
}

pub struct ColumnView {
    pub name: Seq<char>,
    pub column_type: ColumnType,
}

impl View for Column {
    type V = ColumnView;

    open spec fn view(&self) -> ColumnView {
        ColumnView { name: self.name@, column_type: self.column_type }
    }
}

impl DeepView for Column {
    type V = ColumnView;

    open spec fn deep_view(&self) -> ColumnView {
        self@
    }
}

impl Clone for Column {
    fn clone(&self) -> (r: Self)
        ensures
            r@ == self@,
    {
        Column { name: self.name.clone(), column_type: self.column_type }
    }
}

impl Column {
    /// The name of the column whose value is a row's key.
    pub const ID: &'static str = "id";

    pub fn new(name: String, column_type: ColumnType) -> (r: Self)
        ensures
            r@ == (ColumnView { name: name@, column_type }),
    {
        Self { name, column_type }
    }
}

/// The first position at or after `from` of a column called `name`, or the
/// number of columns.
pub open spec fn column_position(columns: Seq<ColumnView>, name: Seq<char>, from: int) -> int
    decreases columns.len() - from,
{
    if 0 <= from < columns.len() && columns[from].name != name {
        column_position(columns, name, from + 1)
    } else {
        from
    }
}

/// The first position at or after `from` of a table called `name`, or the
/// number of tables.
pub open spec fn table_position(tables: Seq<TableView>, name: Seq<char>, from: int) -> int
    decreases tables.len() - from,
{
    if 0 <= from < tables.len() && tables[from].name != name {
        table_position(tables, name, from + 1)
    } else {
        from
    }
}

#[derive(Debug, PartialEq, Eq, Hash)]
pub struct Table {
    pub name: String,
    pub columns: Vec<Column>,
}

pub struct TableView {
    pub name: Seq<char>,
    pub columns: Seq<ColumnView>,
}

impl TableView {
    /// The first column called `name`.
    pub open spec fn column(self, name: Seq<char>) -> Option<ColumnView> {
        let at = column_position(self.columns, name, 0);
        if at < self.columns.len() {
            Some(self.columns[at])
        } else {
            None
        }
    }
}

impl View for Table {
    type V = TableView;

    open spec fn view(&self) -> TableView {
        TableView { name: self.name@, columns: self.columns.deep_view() }
    }
}

impl DeepView for Table {
    type V = TableView;

    open spec fn deep_view(&self) -> TableView {
        self@
    }
}

/// A copy of `columns`.
pub fn clone_columns(columns: &Vec<Column>) -> (r: Vec<Column>)
    ensures
        r.deep_view() == columns.deep_view(),
{
    let mut r: Vec<Column> = Vec::new();
    let mut i: usize = 0;
    while i < columns.len()
        invariant
            i <= columns.len(),
            r.deep_view() == columns.deep_view().take(i as int),
        decreases columns.len() - i,
    {
        let ghost before = r.deep_view();
        let column = columns[i].clone();
        r.push(column);
        assert(r.deep_view() =~= before.push(column@));
        i += 1;
        assert(columns.deep_view().take(i as int) =~= before.push(column@));
    }
    assert(columns.deep_view().take(i as int) =~= columns.deep_view());
    r
}

impl Clone for Table {
    fn clone(&self) -> (r: Self)
        ensures
            r@ == self@,
    {
        Table { name: self.name.clone(), columns: clone_columns(&self.columns) }
    }
}

impl Table {
    pub fn new(name: String, columns: Vec<Column>) -> (r: Self)
        ensures
            r@ == (TableView { name: name@, columns: columns.deep_view() }),
    {
        Self { name, columns }
    }

    /// The first column called `column_name`.
    pub fn column(&self, column_name: &str) -> (r: Option<Column>)
        ensures
            r.deep_view() == self@.column(column_name@),
    {
        let mut i: usize = 0;
        while i < self.columns.len()
            invariant
                i <= self.columns.len(),
                column_position(self.columns.deep_view(), column_name@, i as int)
                    == column_position(self.columns.deep_view(), column_name@, 0),
            decreases self.columns.len() - i,
        {
            if self.columns[i].name.as_str().eq(column_name) {
                return Some(self.columns[i].clone());
            }
            i += 1;
        }
        None
    }
}

#[derive(Debug, PartialEq, Eq, Hash)]
pub struct Database {
    pub name: String,
    pub tables: Vec<Table>,
}

pub struct DatabaseView {
    pub name: Seq<char>,
    pub tables: Seq<TableView>,
}

impl DatabaseView {
    /// The first table called `name`.
    pub open spec fn table(self, name: Seq<char>) -> Option<TableView> {
        let at = table_position(self.tables, name, 0);
        if at < self.tables.len() {
            Some(self.tables[at])
        } else {
            None
        }
    }
}

impl View for Database {
    type V = DatabaseView;

    open spec fn view(&self) -> DatabaseView {
        DatabaseView { name: self.name@, tables: self.tables.deep_view() }
    }
}

impl DeepView for Database {
    type V = DatabaseView;

    open spec fn deep_view(&self) -> DatabaseView {
        self@
    }
}

impl Clone for Database {
    fn clone(&self) -> (r: Self)
        ensures
            r@ == self@,
    {
        let mut tables: Vec<Table> = Vec::new();
        let mut i: usize = 0;
        while i < self.tables.len()
            invariant
                i <= self.tables.len(),
                tables.deep_view() == self.tables.deep_view().take(i as int),
            decreases self.tables.len() - i,
        {
            let ghost before = tables.deep_view();
            let table = self.tables[i].clone();
            tables.push(table);
            assert(tables.deep_view() =~= before.push(table@));
            i += 1;
            assert(self.tables.deep_view().take(i as int) =~= before.push(table@));
        }
        assert(self.tables.deep_view().take(i as int) =~= self.tables.deep_view());
        Database { name: self.name.clone(), tables }
    }
}

impl Database {
    /// The database called `name`, without tables.
    pub fn empty(name: String) -> (r: Self)
        ensures
            r@ == (DatabaseView { name: name@, tables: Seq::empty() }),
    {
        let r = Self { name, tables: Vec::new() };
        assert(r.tables.deep_view() =~= Seq::empty());
        r
    }

    /// The first table called `table_name`.
    pub fn table(&self, table_name: &str) -> (r: Option<Table>)
        ensures
            r.deep_view() == self@.table(table_name@),
    {
        let mut i: usize = 0;
        while i < self.tables.len()
            invariant
                i <= self.tables.len(),
                table_position(self.tables.deep_view(), table_name@, i as int) == table_position(
                    self.tables.deep_view(),
                    table_name@,
                    0,
                ),
            decreases self.tables.len() - i,
        {
            if self.tables[i].name.as_str().eq(table_name) {
                return Some(self.tables[i].clone());
            }
            i += 1;
        }
        None
    }
}

/// A found position holds the name, and no position before it does.
pub proof fn lemma_column_position(columns: Seq<ColumnView>, name: Seq<char>, from: int)
    requires
        0 <= from <= columns.len(),
    ensures
        from <= column_position(columns, name, from) <= columns.len(),
        column_position(columns, name, from) < columns.len() ==> columns[column_position(
            columns,
            name,
            from,
        )].name == name,
        forall|i: int|
            from <= i < column_position(columns, name, from) ==> (#[trigger] columns[i]).name
                != name,
    decreases columns.len() - from,
{
    if from < columns.len() && columns[from].name != name {
        lemma_column_position(columns, name, from + 1);
    }
}

} // verus!
