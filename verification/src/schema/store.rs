//! The catalog document of a database: where it is kept, and how a table is
//! added to it.

use crate::error::{DBError, DBErrorView, ErrorKind};
use crate::schema::{table_position, Database, DatabaseView, Table, TableView};
use crate::text::join;
use vstd::prelude::*;

verus! {

/// The key of the catalog document of the database `database_name`, in the
/// catalog's namespace.
pub open spec fn schema_key_spec(database_name: Seq<char>) -> Seq<char> {
    database_name + "_schema"@
}

pub fn schema_key(database_name: &str) -> (r: String)
    ensures
        r@ == schema_key_spec(database_name@),
{
    join(database_name, "_schema")
}

/// The error of creating a table whose name is taken.
pub open spec fn table_exists_error(table_name: Seq<char>) -> DBErrorView {
    DBErrorView { kind: ErrorKind::Schema, message: "table already exist. table = "@ + table_name }
}

/// The catalog that `create_table` starts from: the one that was found, or an
/// empty one.
pub open spec fn catalog_or_empty(
    current: Option<DatabaseView>,
    database_name: Seq<char>,
) -> DatabaseView {
    match current {
        Some(database) => database,
        None => DatabaseView { name: database_name, tables: Seq::empty() },
    }
}

/// The catalog with `table` added at its end; an error where it holds a table
/// of that name already.
pub open spec fn create_table_spec(
    current: Option<DatabaseView>,
    database_name: Seq<char>,
    table: TableView,
) -> Result<DatabaseView, DBErrorView> {
    let schema = catalog_or_empty(current, database_name);
    if schema.table(table.name) is Some {
        Err(table_exists_error(table.name))
    } else {
        Ok(DatabaseView { name: schema.name, tables: schema.tables.push(table) })
    }
}

/// Adds `table` to the catalog of `database_name`: `current` is the catalog as
/// it was found, `None` where the database has none yet. The result is the
/// catalog to write back.
pub fn create_table(current: Option<Database>, database_name: &str, table: Table) -> (r: Result<
    Database,
    DBError,
>)
    ensures
        match r {
            Ok(database) => create_table_spec(current.deep_view(), database_name@, table@) == Ok::<
                _,
                DBErrorView,
            >(database@),
            Err(e) => create_table_spec(current.deep_view(), database_name@, table@) == Err::<
                DatabaseView,
                _,
            >(e@),
        },
{
    let mut schema = match current {
        Some(database) => database,
        None => Database::empty(database_name.to_owned()),
    };
    match schema.table(table.name.as_str()) {
        Some(_) => Err(
            DBError::new(
                ErrorKind::Schema,
                join("table already exist. table = ", table.name.as_str()),
            ),
        ),
        None => {
            let ghost before = schema.tables.deep_view();
            schema.tables.push(table);
            assert(schema.tables.deep_view() =~= before.push(table@));
            Ok(schema)
        },
    }
}

/// A table that is added to tables that hold none of its name is the first
/// of its name.
pub proof fn lemma_added_table_position(tables: Seq<TableView>, table: TableView, from: int)
    requires
        0 <= from <= tables.len(),
        table_position(tables, table.name, from) >= tables.len(),
    ensures
        table_position(tables.push(table), table.name, from) == tables.len(),
    decreases tables.len() - from,
{
    let after = tables.push(table);
    if from < tables.len() {
        assert(after[from] == tables[from]);
        lemma_added_table_position(tables, table, from + 1);
    }
}

/// A table is created once. After `first` was added to a catalog, the catalog
/// holds it under its name; adding another table of that name fails with the
/// error that names it, whatever the other table declares, and so gives no
/// catalog to write in place of the one that holds `first`.
pub proof fn lemma_create_table_twice(
    current: Option<DatabaseView>,
    database_name: Seq<char>,
    first: TableView,
    second: TableView,
)
    requires
        second.name == first.name,
        create_table_spec(current, database_name, first) is Ok,
    ensures
        create_table_spec(current, database_name, first)->Ok_0.table(first.name) == Some(first),
        create_table_spec(
            Some(create_table_spec(current, database_name, first)->Ok_0),
            database_name,
            second,
        ) == Err::<DatabaseView, _>(table_exists_error(first.name)),
{
    let schema = catalog_or_empty(current, database_name);
    lemma_added_table_position(schema.tables, first, 0);
}

} // verus!
