//! The executor: it carries a plan out against the store, one request at a
//! time. It decides what to ask of the store and what to make of the answer;
//! whoever holds the store performs the requests.

use crate::error::{DBError, DBErrorView, ErrorKind};
use crate::json::{distinct_names, json_bytes, json_object, read_object, write_object};
use crate::parser::ast::{
    BinaryOperator, ColumnDefinitionView, ExpressionView, InsertView, Value, ValueView,
};
use crate::result::{
    DBResult, FieldMetadata, FieldMetadataView, FieldValue, FieldValueView, OkDBResult,
    OkDBResultView, Record, ResultMetadata, ResultSet, ResultSetView,
};
use crate::schema::store::{
    create_table, create_table_spec, lemma_create_table_twice, schema_key, schema_key_spec,
    table_exists_error,
};
use crate::schema::{
    column_position, lemma_column_position, Column, ColumnType, ColumnView, DatabaseView, Table,
    TableView,
};
use crate::sql::planner::{
    data_err, data_error, distinct_columns, fields_of, filters_of, id_missing, lemma_wildcard_fields,
    lemma_wildcard_plan, owner_position, plan_error, plan_insert, plan_select, wildcard_plan,
    wildcard_query, zip_values, CreateTablePlan, CreateTablePlanView, Filter, FilterView,
    InsertPlan, InsertPlanView, Plan, PlanView, RecordValueView, SelectPlan, SelectPlanView,
};
use crate::storage::{
    after_put, lists, KeyspaceView, Namespace, NamespaceView, StorageReply, StorageReplyView,
    StorageRequest, StorageRequestView,
};
use crate::text::{i64_of_text, join, parse_i64};
use vstd::prelude::*;

verus! {

pub open spec fn schema_error(message: Seq<char>) -> DBErrorView {
    DBErrorView { kind: ErrorKind::Schema, message }
}

pub open spec fn storage_error(message: Seq<char>) -> DBErrorView {
    DBErrorView { kind: ErrorKind::Storage, message }
}

// ---------------------------------------------------------------------------
// Reading rows
// ---------------------------------------------------------------------------

/// A stored row, typed: each member's name with its value.
pub type RowView = Seq<(Seq<char>, FieldValueView)>;

/// The error of a row that is not a JSON object.
pub open spec fn malformed_row(key: Seq<char>) -> DBErrorView {
    data_error("unexpected formatted row for key("@ + key + ")"@)
}

/// The error of a member of a row that is no text.
pub open spec fn not_a_text(name: Seq<char>) -> DBErrorView {
    data_error("the stored value is no text. column: "@ + name)
}

/// The error of a member of a row that the table has no column for.
pub open spec fn unknown_column(name: Seq<char>) -> DBErrorView {
    data_error("the table has no such column: "@ + name)
}

/// The error of a text that is to be an integer and writes none.
pub open spec fn not_an_integer(text: Seq<char>) -> DBErrorView {
    data_error("not a 64-bit integer: "@ + text)
}

/// The error of a filter on a column that the row does not hold.
pub open spec fn column_not_in_record(name: Seq<char>) -> DBErrorView {
    data_error("column was not found in record: "@ + name)
}

/// The error of a filter whose literal cannot be compared with the column.
pub open spec fn unexpected_combination(name: Seq<char>) -> DBErrorView {
    data_error("the literal and the column are of different types. column: "@ + name)
}

/// One member of a stored row, typed as the table declares its column: the
/// text of an integer column is read as a 64-bit signed integer.
pub open spec fn typed_value(table: TableView, name: Seq<char>, text: Option<Seq<char>>) -> Result<
    FieldValueView,
    DBErrorView,
> {
    match text {
        None => Err(not_a_text(name)),
        Some(text) => match table.column(name) {
            None => Err(unknown_column(name)),
            Some(column) => match column.column_type {
                ColumnType::Integer => match i64_of_text(text) {
                    Some(i) => Ok(FieldValueView::Int(i)),
                    None => Err(not_an_integer(text)),
                },
                ColumnType::Varchar => Ok(FieldValueView::Text(text)),
            },
        },
    }
}

/// The members of a stored row from position `i` on, typed, after the typed
/// members `row`.
pub open spec fn typed_row(
    table: TableView,
    members: Seq<(Seq<char>, Option<Seq<char>>)>,
    i: int,
    row: RowView,
) -> Result<RowView, DBErrorView>
    decreases members.len() - i,
{
    if 0 <= i < members.len() {
        match typed_value(table, members[i].0, members[i].1) {
            Ok(value) => typed_row(table, members, i + 1, row.push((members[i].0, value))),
            Err(e) => Err(e),
        }
    } else {
        Ok(row)
    }
}

/// The first position at or after `from` of a member called `name`, or the
/// number of members.
pub open spec fn member_position(row: RowView, name: Seq<char>, from: int) -> int
    decreases row.len() - from,
{
    if 0 <= from < row.len() && row[from].0 != name {
        member_position(row, name, from + 1)
    } else {
        from
    }
}

/// The value of the first member called `name`.
pub open spec fn member(row: RowView, name: Seq<char>) -> Option<FieldValueView> {
    let at = member_position(row, name, 0);
    if at < row.len() {
        Some(row[at].1)
    } else {
        None
    }
}

/// Whether the row has the value that the filter expects in the filter's
/// column: an integer is compared with a number as integers, a text with a
/// quoted string as texts, and nothing else can be compared.
pub open spec fn filter_holds(filter: FilterView, row: RowView) -> Result<bool, DBErrorView> {
    match member(row, filter.column_name) {
        None => Err(column_not_in_record(filter.column_name)),
        Some(value) => match (value, filter.expected_value) {
            (FieldValueView::Int(i), ValueView::Number(n)) => match i64_of_text(n) {
                Some(expected) => Ok(i == expected),
                None => Err(not_an_integer(n)),
            },
            (FieldValueView::Text(t), ValueView::QuotedString(s)) => Ok(t == s),
            _ => Err(unexpected_combination(filter.column_name)),
        },
    }
}

/// Whether the filters from position `i` on all hold of the row. The first
/// filter that does not hold, or cannot be tested, decides.
pub open spec fn filters_hold(filters: Seq<FilterView>, row: RowView, i: int) -> Result<
    bool,
    DBErrorView,
>
    decreases filters.len() - i,
{
    if 0 <= i < filters.len() {
        match filter_holds(filters[i], row) {
            Ok(true) => filters_hold(filters, row, i + 1),
            Ok(false) => Ok(false),
            Err(e) => Err(e),
        }
    } else {
        Ok(true)
    }
}

/// Those of the first `n` filters that are on the table `table_name`.
pub open spec fn filters_on(filters: Seq<FilterView>, table_name: Seq<char>, n: int) -> Seq<
    FilterView,
>
    decreases n,
{
    if n <= 0 {
        Seq::empty()
    } else if filters[n - 1].table_name == table_name {
        filters_on(filters, table_name, n - 1).push(filters[n - 1])
    } else {
        filters_on(filters, table_name, n - 1)
    }
}

/// The record of a row: for each of the first `n` fields, in their order, the
/// value of the member of that name. A field that the row has no member for
/// is left out.
pub open spec fn record_of(fields: Seq<FieldMetadataView>, row: RowView, n: int) -> Seq<
    FieldValueView,
>
    decreases n,
{
    if n <= 0 {
        Seq::empty()
    } else {
        match member(row, fields[n - 1].field_name) {
            Some(value) => record_of(fields, row, n - 1).push(value),
            None => record_of(fields, row, n - 1),
        }
    }
}

/// What one stored row contributes to a result: its record, nothing where a
/// filter does not hold, an error where the row is malformed.
pub open spec fn selected(
    table: TableView,
    filters: Seq<FilterView>,
    fields: Seq<FieldMetadataView>,
    key: Seq<char>,
    value: Seq<u8>,
) -> Result<Option<Seq<FieldValueView>>, DBErrorView> {
    match json_object(value) {
        None => Err(malformed_row(key)),
        Some(members) => match typed_row(table, members, 0, Seq::empty()) {
            Err(e) => Err(e),
            Ok(row) => match filters_hold(filters, row, 0) {
                Err(e) => Err(e),
                Ok(false) => Ok(None),
                Ok(true) => Ok(Some(record_of(fields, row, fields.len() as int))),
            },
        },
    }
}

/// The records of the rows from position `i` on, after the records `records`,
/// in the rows' order.
pub open spec fn selected_from(
    table: TableView,
    filters: Seq<FilterView>,
    fields: Seq<FieldMetadataView>,
    rows: Seq<(Seq<char>, Seq<u8>)>,
    i: int,
    records: Seq<Seq<FieldValueView>>,
) -> Result<Seq<Seq<FieldValueView>>, DBErrorView>
    decreases rows.len() - i,
{
    if 0 <= i < rows.len() {
        match selected(table, filters, fields, rows[i].0, rows[i].1) {
            Err(e) => Err(e),
            Ok(None) => selected_from(table, filters, fields, rows, i + 1, records),
            Ok(Some(record)) => selected_from(
                table,
                filters,
                fields,
                rows,
                i + 1,
                records.push(record),
            ),
        }
    } else {
        Ok(records)
    }
}

/// The error of a query that reads no table.
pub open spec fn no_table_selected() -> DBErrorView {
    plan_error("the query reads no table"@)
}

impl SelectPlanView {
    /// The namespace that holds the rows of the query: that of the table of
    /// the first table plan.
    pub open spec fn namespace(self) -> NamespaceView {
        NamespaceView::Table {
            database_name: self.database.name,
            name: self.plans[0].table.name,
        }
    }

    /// The result of the query, given the rows of its table in the order in
    /// which the store lists them: the rows that every filter on the table
    /// holds of, each projected to the fields of the result.
    pub open spec fn result(self, rows: Seq<(Seq<char>, Seq<u8>)>) -> Result<
        ResultSetView,
        DBErrorView,
    > {
        if self.plans.len() == 0 {
            Err(no_table_selected())
        } else {
            let table = self.plans[0].table;
            let fields = self.result_metadata();
            let filters = filters_on(self.filters, table.name, self.filters.len() as int);
            match selected_from(table, filters, fields, rows, 0, Seq::empty()) {
                Err(e) => Err(e),
                Ok(records) => Ok(ResultSetView { records, metadata: fields }),
            }
        }
    }
}

/// The position of the first member called `name`, if there is one.
fn find_member(row: &Vec<(String, FieldValue)>, name: &str) -> (r: Option<usize>)
    ensures
        match r {
            Some(at) => at < row.len() && at == member_position(row.deep_view(), name@, 0),
            None => member_position(row.deep_view(), name@, 0) >= row.len(),
        },
{
    let mut i: usize = 0;
    while i < row.len()
        invariant
            i <= row.len(),
            member_position(row.deep_view(), name@, i as int) == member_position(
                row.deep_view(),
                name@,
                0,
            ),
        decreases row.len() - i,
    {
        assert(row.deep_view()[i as int].0 == row[i as int].0@);
        if row[i].0.as_str().eq(name) {
            return Some(i);
        }
        i += 1;
    }
    None
}

impl SelectPlan {
    /// The namespace to list the rows of; an error where the query reads no
    /// table.
    pub fn namespace(&self) -> (r: Result<Namespace, DBError>)
        ensures
            match r {
                Ok(namespace) => self@.plans.len() > 0 && namespace@ == self@.namespace(),
                Err(e) => self@.plans.len() == 0 && e@ == no_table_selected(),
            },
    {
        if self.plans.len() == 0 {
            return Err(DBError::new(ErrorKind::Plan, "the query reads no table".to_owned()));
        }
        assert(self@.plans[0] == self.plans[0]@);
        Ok(Namespace::table(self.database.name.as_str(), self.plans[0].table.name.as_str()))
    }

    /// The result of the query, given the rows of its table in the order in
    /// which the store listed them.
    #[verifier::loop_isolation(false)]
    pub fn select(&self, rows: &Vec<(String, Vec<u8>)>) -> (r: Result<ResultSet, DBError>)
        ensures
            match r {
                Ok(result_set) => self@.result(rows.deep_view()) == Ok::<_, DBErrorView>(
                    result_set@,
                ),
                Err(e) => self@.result(rows.deep_view()) == Err::<ResultSetView, _>(e@),
            },
    {
        if self.plans.len() == 0 {
            return Err(DBError::new(ErrorKind::Plan, "the query reads no table".to_owned()));
        }
        assert(self@.plans[0] == self.plans[0]@);
        let table = &self.plans[0].table;
        let fields = self.result_metadata();
        let filters = Self::filters_for(&self.filters, table.name.as_str());
        let ghost all = rows.deep_view();
        let mut records: Vec<Record> = Vec::new();
        assert(records.deep_view() =~= Seq::empty());
        let mut i: usize = 0;
        while i < rows.len()
            invariant
                i <= rows.len(),
                all == rows.deep_view(),
                selected_from(
                    table@,
                    filters.deep_view(),
                    fields.deep_view(),
                    all,
                    i as int,
                    records.deep_view(),
                ) == selected_from(
                    table@,
                    filters.deep_view(),
                    fields.deep_view(),
                    all,
                    0,
                    Seq::empty(),
                ),
            decreases rows.len() - i,
        {
            let ghost before = records.deep_view();
            assert(all[i as int] == (rows[i as int].0@, rows[i as int].1@));
            match Self::select_row(table, &filters, &fields, &rows[i].0, &rows[i].1) {
                Err(e) => {
                    return Err(e);
                },
                Ok(None) => {},
                Ok(Some(record)) => {
                    records.push(record);
                    assert(records.deep_view() =~= before.push(record@));
                },
            }
            i += 1;
        }
        Ok(ResultSet::new(records, ResultMetadata::new(fields)))
    }

    /// Those of `filters` that are on the table `table_name`.
    fn filters_for(filters: &Vec<Filter>, table_name: &str) -> (r: Vec<Filter>)
        ensures
            r.deep_view() == filters_on(filters.deep_view(), table_name@, filters.len() as int),
    {
        let mut r: Vec<Filter> = Vec::new();
        assert(r.deep_view() =~= Seq::empty());
        let mut i: usize = 0;
        while i < filters.len()
            invariant
                i <= filters.len(),
                r.deep_view() == filters_on(filters.deep_view(), table_name@, i as int),
            decreases filters.len() - i,
        {
            let ghost before = r.deep_view();
            assert(filters.deep_view()[i as int] == filters[i as int]@);
            if filters[i].table_name.as_str().eq(table_name) {
                let filter = filters[i].clone();
                r.push(filter);
                assert(r.deep_view() =~= before.push(filter@));
            }
            i += 1;
        }
        r
    }

    /// What one stored row contributes to the result.
    fn select_row(
        table: &Table,
        filters: &Vec<Filter>,
        fields: &Vec<FieldMetadata>,
        key: &String,
        value: &Vec<u8>,
    ) -> (r: Result<Option<Record>, DBError>)
        ensures
            match r {
                Ok(record) => selected(
                    table@,
                    filters.deep_view(),
                    fields.deep_view(),
                    key@,
                    value@,
                ) == Ok::<_, DBErrorView>(record.deep_view()),
                Err(e) => selected(table@, filters.deep_view(), fields.deep_view(), key@, value@)
                    == Err::<Option<Seq<FieldValueView>>, _>(e@),
            },
    {
        let members = match read_object(value) {
            Some(members) => members,
            None => {
                let mut message = join("unexpected formatted row for key(", key.as_str());
                message.append(")");
                return Err(data_err(message));
            },
        };
        let row = match Self::parse_single_row(table, &members) {
            Ok(row) => row,
            Err(e) => {
                return Err(e);
            },
        };
        match Self::apply_filter(filters, &row) {
            Err(e) => Err(e),
            Ok(false) => Ok(None),
            Ok(true) => Ok(Some(Self::build_record(fields, &row))),
        }
    }

    /// The members of a stored row, typed as the table declares their columns.
    fn parse_single_row(table: &Table, members: &Vec<(String, Option<String>)>) -> (r: Result<
        Vec<(String, FieldValue)>,
        DBError,
    >)
        ensures
            match r {
                Ok(row) => typed_row(table@, members.deep_view(), 0, Seq::empty()) == Ok::<
                    _,
                    DBErrorView,
                >(row.deep_view()),
                Err(e) => typed_row(table@, members.deep_view(), 0, Seq::empty()) == Err::<
                    RowView,
                    _,
                >(e@),
            },
    {
        let ghost all = members.deep_view();
        let mut row: Vec<(String, FieldValue)> = Vec::new();
        assert(row.deep_view() =~= Seq::empty());
        let mut i: usize = 0;
        while i < members.len()
            invariant
                i <= members.len(),
                all == members.deep_view(),
                typed_row(table@, all, i as int, row.deep_view()) == typed_row(
                    table@,
                    all,
                    0,
                    Seq::empty(),
                ),
            decreases members.len() - i,
        {
            let ghost before = row.deep_view();
            assert(all[i as int] == (members[i as int].0@, members[i as int].1.deep_view()));
            let name = &members[i].0;
            let text = match &members[i].1 {
                Some(text) => text,
                None => {
                    return Err(
                        data_err(join("the stored value is no text. column: ", name.as_str())),
                    );
                },
            };
            let column = match table.column(name.as_str()) {
                Some(column) => column,
                None => {
                    return Err(data_err(join("the table has no such column: ", name.as_str())));
                },
            };
            let value = match column.column_type {
                ColumnType::Integer => match parse_i64(text.as_str()) {
                    Some(number) => FieldValue::Int(number),
                    None => {
                        return Err(data_err(join("not a 64-bit integer: ", text.as_str())));
                    },
                },
                ColumnType::Varchar => FieldValue::Text(text.clone()),
            };
            let entry = (name.clone(), value);
            row.push(entry);
            assert(row.deep_view() =~= before.push((name@, value@)));
            i += 1;
        }
        Ok(row)
    }

    /// Whether every filter holds of the row.
    fn apply_filter(filters: &Vec<Filter>, row: &Vec<(String, FieldValue)>) -> (r: Result<
        bool,
        DBError,
    >)
        ensures
            match r {
                Ok(holds) => filters_hold(filters.deep_view(), row.deep_view(), 0) == Ok::<
                    _,
                    DBErrorView,
                >(holds),
                Err(e) => filters_hold(filters.deep_view(), row.deep_view(), 0) == Err::<bool, _>(
                    e@,
                ),
            },
    {
        let mut i: usize = 0;
        while i < filters.len()
            invariant
                i <= filters.len(),
                filters_hold(filters.deep_view(), row.deep_view(), i as int) == filters_hold(
                    filters.deep_view(),
                    row.deep_view(),
                    0,
                ),
            decreases filters.len() - i,
        {
            assert(filters.deep_view()[i as int] == filters[i as int]@);
            let filter = &filters[i];
            let at = match find_member(row, filter.column_name.as_str()) {
                Some(at) => at,
                None => {
                    return Err(
                        data_err(
                            join("column was not found in record: ", filter.column_name.as_str()),
                        ),
                    );
                },
            };
            assert(row.deep_view()[at as int].1 == row[at as int].1@);
            let holds = match (&row[at].1, &filter.expected_value) {
                (FieldValue::Int(i), Value::Number(n)) => match parse_i64(n.as_str()) {
                    Some(expected) => *i == expected,
                    None => {
                        return Err(data_err(join("not a 64-bit integer: ", n.as_str())));
                    },
                },
                (FieldValue::Text(t), Value::QuotedString(s)) => t.as_str().eq(s.as_str()),
                _ => {
                    return Err(
                        data_err(
                            join(
                                "the literal and the column are of different types. column: ",
                                filter.column_name.as_str(),
                            ),
                        ),
                    );
                },
            };
            if !holds {
                return Ok(false);
            }
            i += 1;
        }
        Ok(true)
    }

    /// The record of a row: the values of the fields, in the fields' order.
    fn build_record(fields: &Vec<FieldMetadata>, row: &Vec<(String, FieldValue)>) -> (r: Record)
        ensures
            r@ == record_of(fields.deep_view(), row.deep_view(), fields.len() as int),
    {
        let mut values: Vec<FieldValue> = Vec::new();
        assert(values.deep_view() =~= Seq::empty());
        let mut i: usize = 0;
        while i < fields.len()
            invariant
                i <= fields.len(),
                values.deep_view() == record_of(fields.deep_view(), row.deep_view(), i as int),
            decreases fields.len() - i,
        {
            let ghost before = values.deep_view();
            assert(fields.deep_view()[i as int] == fields[i as int]@);
            match find_member(row, fields[i].field_name.as_str()) {
                Some(at) => {
                    assert(row.deep_view()[at as int].1 == row[at as int].1@);
                    let value = row[at].1.clone();
                    values.push(value);
                    assert(values.deep_view() =~= before.push(value@));
                },
                None => {},
            }
            i += 1;
        }
        Record::new(values)
    }
}

// ---------------------------------------------------------------------------
// Writing a row
// ---------------------------------------------------------------------------

/// The first position at or after `from` of a field called `name`, or the
/// number of fields.
pub open spec fn field_position(fields: Seq<(Seq<char>, Seq<char>)>, name: Seq<char>, from: int)
    -> int
    decreases fields.len() - from,
{
    if 0 <= from < fields.len() && fields[from].0 != name {
        field_position(fields, name, from + 1)
    } else {
        from
    }
}

/// The fields with `text` as the text of the field `name`: in place of the
/// text that the field has, or as a new field at the end.
pub open spec fn with_field(fields: Seq<(Seq<char>, Seq<char>)>, name: Seq<char>, text: Seq<char>)
    -> Seq<(Seq<char>, Seq<char>)> {
    let at = field_position(fields, name, 0);
    if at < fields.len() {
        fields.update(at, (name, text))
    } else {
        fields.push((name, text))
    }
}

/// The error of a value to store that has no text.
pub open spec fn no_text(column_name: Seq<char>) -> DBErrorView {
    data_error("the value to store has no text. column: "@ + column_name)
}

/// The error of a row whose `id` has no text.
pub open spec fn id_not_found(table_name: Seq<char>) -> DBErrorView {
    data_error("id not found in the given INSERT INTO statement. table: "@ + table_name)
}

/// The fields of the row to store, from the values at position `i` on, after
/// the fields `fields`: each column's name with the text of its value. A later
/// value of a column replaces an earlier one.
pub open spec fn row_fields(
    values: Seq<RecordValueView>,
    i: int,
    fields: Seq<(Seq<char>, Seq<char>)>,
) -> Result<Seq<(Seq<char>, Seq<char>)>, DBErrorView>
    decreases values.len() - i,
{
    if 0 <= i < values.len() {
        match values[i].value.text() {
            Some(text) => row_fields(
                values,
                i + 1,
                with_field(fields, values[i].column.name, text),
            ),
            None => Err(no_text(values[i].column.name)),
        }
    } else {
        Ok(fields)
    }
}

/// The first position at or after `from` of a value of the column `id`, or the
/// number of values.
pub open spec fn id_position(values: Seq<RecordValueView>, from: int) -> int
    decreases values.len() - from,
{
    if 0 <= from < values.len() && values[from].column.name != "id"@ {
        id_position(values, from + 1)
    } else {
        from
    }
}

/// What an INSERT stores: where, under which key, and which fields.
pub struct RowWrite {
    pub namespace: NamespaceView,
    pub key: Seq<char>,
    pub fields: Seq<(Seq<char>, Seq<char>)>,
}

impl InsertPlanView {
    /// The key of the row: the text of the value of the column `id`.
    pub open spec fn key(self) -> Result<Seq<char>, DBErrorView> {
        let at = id_position(self.values, 0);
        if at < self.values.len() {
            match self.values[at].value.text() {
                Some(text) => Ok(text),
                None => Err(id_not_found(self.table.name)),
            }
        } else {
            Err(id_missing(self.table.name))
        }
    }

    /// What the INSERT stores: the row's fields, under the row's key, in the
    /// namespace of the table.
    pub open spec fn write(self) -> Result<RowWrite, DBErrorView> {
        match self.key() {
            Err(e) => Err(e),
            Ok(key) => match row_fields(self.values, 0, Seq::empty()) {
                Err(e) => Err(e),
                Ok(fields) => Ok(
                    RowWrite {
                        namespace: NamespaceView::Table {
                            database_name: self.database.name,
                            name: self.table.name,
                        },
                        key,
                        fields,
                    },
                ),
            },
        }
    }
}

pub proof fn lemma_field_position(fields: Seq<(Seq<char>, Seq<char>)>, name: Seq<char>, from: int)
    requires
        0 <= from <= fields.len(),
    ensures
        from <= field_position(fields, name, from) <= fields.len(),
        field_position(fields, name, from) < fields.len() ==> fields[field_position(
            fields,
            name,
            from,
        )].0 == name,
        forall|i: int|
            from <= i < field_position(fields, name, from) ==> (#[trigger] fields[i]).0 != name,
    decreases fields.len() - from,
{
    if from < fields.len() && fields[from].0 != name {
        lemma_field_position(fields, name, from + 1);
    }
}

/// Setting a field keeps the names distinct.
pub proof fn lemma_with_field_distinct(
    fields: Seq<(Seq<char>, Seq<char>)>,
    name: Seq<char>,
    text: Seq<char>,
)
    requires
        distinct_names(fields),
    ensures
        distinct_names(with_field(fields, name, text)),
{
    lemma_field_position(fields, name, 0);
    let at = field_position(fields, name, 0);
    let after = with_field(fields, name, text);
    assert forall|i: int, j: int| 0 <= i < j < after.len() implies (#[trigger] after[i]).0 != (
    #[trigger] after[j]).0 by {
        if at < fields.len() {
            assert(after[i].0 == fields[i].0);
            assert(after[j].0 == fields[j].0);
        } else {
            if j < fields.len() {
                assert(after[i] == fields[i]);
                assert(after[j] == fields[j]);
            } else {
                assert(after[i] == fields[i]);
            }
        }
    }
}

impl InsertPlan {
    /// The key of the row: the text of the value of the column `id`.
    pub fn key(&self) -> (r: Result<String, DBError>)
        ensures
            match r {
                Ok(key) => self@.key() == Ok::<_, DBErrorView>(key@),
                Err(e) => self@.key() == Err::<Seq<char>, _>(e@),
            },
    {
        let mut i: usize = 0;
        while i < self.values.len()
            invariant
                i <= self.values.len(),
                id_position(self@.values, i as int) == id_position(self@.values, 0),
            decreases self.values.len() - i,
        {
            assert(self@.values[i as int] == self.values[i as int]@);
            if self.values[i].column.name.as_str().eq(Column::ID) {
                return match self.values[i].value.to_string_opt() {
                    Some(id) => Ok(id),
                    None => Err(
                        data_err(
                            join(
                                "id not found in the given INSERT INTO statement. table: ",
                                self.table.name.as_str(),
                            ),
                        ),
                    ),
                };
            }
            i += 1;
        }
        Err(data_err(join("value for 'id' column is missing. table: ", self.table.name.as_str())))
    }

    /// The fields of the row to store: each column's name with the text of
    /// its value, no name twice.
    pub fn fields(&self) -> (r: Result<Vec<(String, String)>, DBError>)
        ensures
            match r {
                Ok(fields) => row_fields(self@.values, 0, Seq::empty()) == Ok::<_, DBErrorView>(
                    fields.deep_view(),
                ) && distinct_names(fields.deep_view()),
                Err(e) => row_fields(self@.values, 0, Seq::empty()) == Err::<
                    Seq<(Seq<char>, Seq<char>)>,
                    _,
                >(e@),
            },
    {
        let mut fields: Vec<(String, String)> = Vec::new();
        assert(fields.deep_view() =~= Seq::empty());
        let mut i: usize = 0;
        while i < self.values.len()
            invariant
                i <= self.values.len(),
                distinct_names(fields.deep_view()),
                row_fields(self@.values, i as int, fields.deep_view()) == row_fields(
                    self@.values,
                    0,
                    Seq::empty(),
                ),
            decreases self.values.len() - i,
        {
            assert(self@.values[i as int] == self.values[i as int]@);
            let name = &self.values[i].column.name;
            let text = match self.values[i].value.to_string_opt() {
                Some(text) => text,
                None => {
                    return Err(
                        data_err(join("the value to store has no text. column: ", name.as_str())),
                    );
                },
            };
            proof {
                lemma_with_field_distinct(fields.deep_view(), name@, text@);
            }
            Self::set_field(&mut fields, name, text);
            i += 1;
        }
        Ok(fields)
    }

    /// Sets the text of the field `name`.
    fn set_field(fields: &mut Vec<(String, String)>, name: &String, text: String)
        ensures
            final(fields).deep_view() == with_field(old(fields).deep_view(), name@, text@),
    {
        let ghost before = fields.deep_view();
        let mut i: usize = 0;
        while i < fields.len()
            invariant
                i <= fields.len(),
                fields.deep_view() == before,
                before == old(fields).deep_view(),
                field_position(before, name@, i as int) == field_position(before, name@, 0),
            decreases fields.len() - i,
        {
            assert(before[i as int].0 == fields[i as int].0@);
            if fields[i].0.as_str().eq(name.as_str()) {
                fields.set(i, (name.clone(), text));
                assert(fields.deep_view() =~= before.update(i as int, (name@, text@)));
                return;
            }
            i += 1;
        }
        fields.push((name.clone(), text));
        assert(fields.deep_view() =~= before.push((name@, text@)));
    }
}

// ---------------------------------------------------------------------------
// Creating a table
// ---------------------------------------------------------------------------

/// The error of a column whose type's name names no type.
pub open spec fn unexpected_type(name: Seq<char>) -> DBErrorView {
    schema_error("unexpected type("@ + name + ") was given"@)
}

/// The columns that the definitions from position `i` on declare, after the
/// columns `columns`.
pub open spec fn columns_from(
    definitions: Seq<ColumnDefinitionView>,
    i: int,
    columns: Seq<ColumnView>,
) -> Result<Seq<ColumnView>, DBErrorView>
    decreases definitions.len() - i,
{
    if 0 <= i < definitions.len() {
        match ColumnType::of_alias(definitions[i].column_type) {
            Some(column_type) => columns_from(
                definitions,
                i + 1,
                columns.push(ColumnView { name: definitions[i].name, column_type }),
            ),
            None => Err(unexpected_type(definitions[i].column_type)),
        }
    } else {
        Ok(columns)
    }
}

impl CreateTablePlanView {
    /// The name of the keyspace that holds the rows of the table.
    pub open spec fn keyspace(self) -> Seq<char> {
        self.database_name + "_"@ + self.table_name
    }

    /// The table as the catalog holds it.
    pub open spec fn table(self) -> Result<TableView, DBErrorView> {
        match columns_from(self.column_definitions, 0, Seq::empty()) {
            Ok(columns) => Ok(TableView { name: self.table_name, columns }),
            Err(e) => Err(e),
        }
    }
}

impl CreateTablePlan {
    /// The name of the keyspace that holds the rows of the table.
    pub fn keyspace(&self) -> (r: String)
        ensures
            r@ == self@.keyspace(),
    {
        let mut r = join(self.database_name.as_str(), "_");
        r.append(self.table_name.as_str());
        r
    }

    /// The table as the catalog holds it: a column's type is unknown where
    /// its name names no type.
    pub fn table(&self) -> (r: Result<Table, DBError>)
        ensures
            match r {
                Ok(table) => self@.table() == Ok::<_, DBErrorView>(table@),
                Err(e) => self@.table() == Err::<TableView, _>(e@),
            },
    {
        let ghost definitions = self@.column_definitions;
        let mut columns: Vec<Column> = Vec::new();
        assert(columns.deep_view() =~= Seq::empty());
        let mut i: usize = 0;
        while i < self.column_definitions.len()
            invariant
                i <= self.column_definitions.len(),
                definitions == self@.column_definitions,
                columns_from(definitions, i as int, columns.deep_view()) == columns_from(
                    definitions,
                    0,
                    Seq::empty(),
                ),
            decreases self.column_definitions.len() - i,
        {
            let ghost before = columns.deep_view();
            assert(definitions[i as int] == self.column_definitions[i as int]@);
            let definition = &self.column_definitions[i];
            match ColumnType::parse(definition.column_type.as_str()) {
                Some(column_type) => {
                    let column = Column::new(definition.name.clone(), column_type);
                    columns.push(column);
                    assert(columns.deep_view() =~= before.push(column@));
                },
                None => {
                    let mut message = join("unexpected type(", definition.column_type.as_str());
                    message.append(") was given");
                    return Err(DBError::new(ErrorKind::Schema, message));
                },
            }
            i += 1;
        }
        Ok(Table::new(self.table_name.clone(), columns))
    }
}

// ---------------------------------------------------------------------------
// The executor
// ---------------------------------------------------------------------------

/// What the executor does next: a request for the store to perform, or the
/// statement's result.
#[derive(Debug, PartialEq, Eq, Hash)]
pub enum Step {
    Perform(StorageRequest),
    Finished(DBResult),
}

pub enum StepView {
    Perform(StorageRequestView),
    Finished(Result<OkDBResultView, DBErrorView>),
}

pub open spec fn result_view(r: DBResult) -> Result<OkDBResultView, DBErrorView> {
    match r {
        Ok(v) => Ok(v@),
        Err(e) => Err(e@),
    }
}

impl Clone for Step {
    fn clone(&self) -> (r: Self)
        ensures
            r@ == self@,
    {
        match self {
            Step::Perform(request) => Step::Perform(request.clone()),
            Step::Finished(Ok(result)) => Step::Finished(Ok(result.clone())),
            Step::Finished(Err(e)) => Step::Finished(Err(e.clone())),
        }
    }
}

impl View for Step {
    type V = StepView;

    open spec fn view(&self) -> StepView {
        match self {
            Step::Perform(request) => StepView::Perform(request@),
            Step::Finished(result) => StepView::Finished(result_view(*result)),
        }
    }
}

/// Where the executor stands in carrying its plan out.
#[derive(Debug, Clone, PartialEq, Eq, Hash)]
pub enum Stage {
    /// Nothing was asked yet.
    Start,
    /// The rows of a table were asked for.
    Scanning,
    /// A row was handed over to be stored.
    Writing,
    /// The keyspace of a new table was asked for.
    CreatingKeyspace,
    /// The catalog was asked for, to add the table to it.
    LoadingSchema(Table),
    /// The catalog was handed over to be stored.
    SavingSchema,
    /// The statement's result was given.
    Finished,
}

pub enum StageView {
    Start,
    Scanning,
    Writing,
    CreatingKeyspace,
    LoadingSchema(TableView),
    SavingSchema,
    Finished,
}

impl View for Stage {
    type V = StageView;

    open spec fn view(&self) -> StageView {
        match self {
            Stage::Start => StageView::Start,
            Stage::Scanning => StageView::Scanning,
            Stage::Writing => StageView::Writing,
            Stage::CreatingKeyspace => StageView::CreatingKeyspace,
            Stage::LoadingSchema(table) => StageView::LoadingSchema(table@),
            Stage::SavingSchema => StageView::SavingSchema,
            Stage::Finished => StageView::Finished,
        }
    }
}

pub struct ExecutorView {
    pub plan: PlanView,
    pub stage: StageView,
}

/// The stage and the step after a stage and a step.
pub struct Move {
    pub stage: StageView,
    pub step: StepView,
}

pub open spec fn finish(result: Result<OkDBResultView, DBErrorView>) -> Move {
    Move { stage: StageView::Finished, step: StepView::Finished(result) }
}

pub open spec fn ask(stage: StageView, request: StorageRequestView) -> Move {
    Move { stage, step: StepView::Perform(request) }
}

/// The error of a row that could not be written as JSON.
pub open spec fn serialize_failed() -> DBErrorView {
    storage_error("failed to serialize"@)
}

/// The error of starting an executor again.
pub open spec fn started_before() -> DBErrorView {
    storage_error("the statement was started before"@)
}

/// The error of an answer that does not fit the request, and of a request to
/// go on where nothing was asked.
pub open spec fn unexpected_reply() -> DBErrorView {
    storage_error("the store's answer does not fit the request"@)
}

/// What follows once the row of an INSERT was written as JSON: the request to
/// store the bytes, or the error where it could not be written.
pub open spec fn put_row(namespace: NamespaceView, key: Seq<char>, rendered: Option<Seq<u8>>)
    -> Move {
    match rendered {
        Some(value) => ask(StageView::Writing, StorageRequestView::Put { namespace, key, value }),
        None => finish(Err(serialize_failed())),
    }
}

/// The first step of a plan. An INSERT asks the store to put the row, written
/// as JSON, under the row's key.
pub open spec fn first_move(plan: PlanView) -> Move {
    match plan {
        PlanView::SelectPlan(select) => {
            if select.plans.len() == 0 {
                finish(Err(no_table_selected()))
            } else {
                ask(
                    StageView::Scanning,
                    StorageRequestView::Iterate { namespace: select.namespace() },
                )
            }
        },
        PlanView::InsertPlan(insert) => match insert.write() {
            Err(e) => finish(Err(e)),
            Ok(write) => put_row(write.namespace, write.key, Some(json_bytes(write.fields))),
        },
        PlanView::CreateDatabasePlan(_) => finish(Ok(OkDBResultView::ExecutionResult)),
        PlanView::CreateTablePlan(create) => ask(
            StageView::CreatingKeyspace,
            StorageRequestView::CreateKeyspace { name: create.keyspace() },
        ),
    }
}

/// The step after the store's answer.
pub open spec fn next_move(plan: PlanView, stage: StageView, reply: StorageReplyView) -> Move {
    match (plan, stage, reply) {
        (_, _, StorageReplyView::Failed(e)) => finish(Err(e)),
        (PlanView::SelectPlan(select), StageView::Scanning, StorageReplyView::Rows(rows)) => {
            match select.result(rows) {
                Ok(result_set) => finish(Ok(OkDBResultView::SelectResult(result_set))),
                Err(e) => finish(Err(e)),
            }
        },
        (PlanView::InsertPlan(_), StageView::Writing, StorageReplyView::Done) => finish(
            Ok(OkDBResultView::ExecutionResult),
        ),
        (
            PlanView::CreateTablePlan(create),
            StageView::CreatingKeyspace,
            StorageReplyView::Done,
        ) => match create.table() {
            Err(e) => finish(Err(e)),
            Ok(table) => ask(
                StageView::LoadingSchema(table),
                StorageRequestView::FindSchema {
                    namespace: NamespaceView::Metadata,
                    key: schema_key_spec(create.database_name),
                },
            ),
        },
        (
            PlanView::CreateTablePlan(create),
            StageView::LoadingSchema(table),
            StorageReplyView::Schema(current),
        ) => match create_table_spec(current, create.database_name, table) {
            Err(e) => finish(Err(e)),
            Ok(database) => ask(
                StageView::SavingSchema,
                StorageRequestView::SaveSchema {
                    namespace: NamespaceView::Metadata,
                    key: schema_key_spec(database.name),
                    database,
                },
            ),
        },
        (PlanView::CreateTablePlan(_), StageView::SavingSchema, StorageReplyView::Done) => finish(
            Ok(OkDBResultView::ExecutionResult),
        ),
        _ => finish(Err(unexpected_reply())),
    }
}

/// Carries one plan out.
#[derive(Debug, Clone, PartialEq, Eq, Hash)]
pub struct Executor {
    plan: Plan,
    stage: Stage,
}

impl View for Executor {
    type V = ExecutorView;

    closed spec fn view(&self) -> ExecutorView {
        ExecutorView { plan: self.plan@, stage: self.stage@ }
    }
}

fn storage_err(message: &str) -> (r: DBError)
    ensures
        r@ == storage_error(message@),
{
    DBError::new(ErrorKind::Storage, message.to_owned())
}

impl Executor {
    /// The executor after a move.
    pub open spec fn moved(&self, before: &Executor, step: Step, to: Move) -> bool {
        &&& self@.plan == before@.plan
        &&& self@.stage == to.stage
        &&& step@ == to.step
    }

    pub fn new(plan: Plan) -> (r: Self)
        ensures
            r@ == (ExecutorView { plan: plan@, stage: StageView::Start }),
    {
        Self { plan, stage: Stage::Start }
    }

    /// The request to store the row of an INSERT, once the row was written as
    /// JSON; the error where it could not be written.
    pub fn put_row(namespace: Namespace, key: String, rendered: Option<Vec<u8>>) -> (r: (
        Stage,
        Step,
    ))
        ensures
            (Move { stage: r.0@, step: r.1@ }) == put_row(
                namespace@,
                key@,
                match rendered {
                    Some(value) => Some(value@),
                    None => None,
                },
            ),
    {
        match rendered {
            Some(value) => (Stage::Writing, Step::Perform(StorageRequest::Put { namespace, key, value })),
            None => (Stage::Finished, Step::Finished(Err(storage_err("failed to serialize")))),
        }
    }

    /// The first step of the plan: the first request to the store, or the
    /// result where the store is not needed or the plan cannot be carried
    /// out. For an INSERT the row is written as JSON here, and the request is
    /// to put it. An executor that was started before gives an error.
    pub fn execute(&mut self) -> (r: Step)
        ensures
            !(old(self)@.stage is Start) ==> final(self).moved(
                old(self),
                r,
                finish(Err(started_before())),
            ),
            old(self)@.stage is Start ==> final(self).moved(
                old(self),
                r,
                first_move(old(self)@.plan),
            ),
    {
        match &self.stage {
            Stage::Start => {},
            _ => {
                self.stage = Stage::Finished;
                return Step::Finished(Err(storage_err("the statement was started before")));
            },
        }
        let (stage, step) = match &self.plan {
            Plan::SelectPlan(select_plan) => Self::execute_select(select_plan),
            Plan::InsertPlan(insert_plan) => Self::execute_insert(insert_plan),
            Plan::CreateDatabasePlan(_) => Self::execute_create_database(),
            Plan::CreateTablePlan(create_table_plan) => Self::execute_create_table(
                create_table_plan,
            ),
        };
        self.stage = stage;
        step
    }

    fn execute_select(select_plan: &SelectPlan) -> (r: (Stage, Step))
        ensures
            (Move { stage: r.0@, step: r.1@ }) == first_move(PlanView::SelectPlan(select_plan@)),
    {
        match select_plan.namespace() {
            Ok(namespace) => (Stage::Scanning, Step::Perform(StorageRequest::Iterate { namespace })),
            Err(e) => (Stage::Finished, Step::Finished(Err(e))),
        }
    }

    fn execute_insert(insert_plan: &InsertPlan) -> (r: (Stage, Step))
        ensures
            (Move { stage: r.0@, step: r.1@ }) == first_move(PlanView::InsertPlan(insert_plan@)),
    {
        let key = match insert_plan.key() {
            Ok(key) => key,
            Err(e) => {
                return (Stage::Finished, Step::Finished(Err(e)));
            },
        };
        let fields = match insert_plan.fields() {
            Ok(fields) => fields,
            Err(e) => {
                return (Stage::Finished, Step::Finished(Err(e)));
            },
        };
        let namespace = Namespace::table(
            insert_plan.database.name.as_str(),
            insert_plan.table.name.as_str(),
        );
        let rendered = match write_object(&fields) {
            Ok(bytes) => Some(bytes),
            Err(_) => None,
        };
        Self::put_row(namespace, key, rendered)
    }

    fn execute_create_database() -> (r: (Stage, Step))
        ensures
            r.0@ is Finished,
            r.1@ == StepView::Finished(Ok(OkDBResultView::ExecutionResult)),
    {
        (Stage::Finished, Step::Finished(Ok(OkDBResult::ExecutionResult)))
    }

    fn execute_create_table(create_table: &CreateTablePlan) -> (r: (Stage, Step))
        ensures
            (Move { stage: r.0@, step: r.1@ }) == first_move(
                PlanView::CreateTablePlan(create_table@),
            ),
    {
        (
            Stage::CreatingKeyspace,
            Step::Perform(StorageRequest::CreateKeyspace { name: create_table.keyspace() }),
        )
    }

    /// The step after the store's answer to the request of the step before:
    /// the next request, or the result. A failure of the store ends the
    /// statement with the store's error.
    pub fn resume(&mut self, reply: StorageReply) -> (r: Step)
        ensures
            final(self).moved(
                old(self),
                r,
                next_move(old(self)@.plan, old(self)@.stage, reply@),
            ),
    {
        let (stage, step) = match (&self.plan, &self.stage, reply) {
            (_, _, StorageReply::Failed(e)) => (Stage::Finished, Step::Finished(Err(e))),
            (Plan::SelectPlan(select_plan), Stage::Scanning, StorageReply::Rows(rows)) => {
                match select_plan.select(&rows) {
                    Ok(result_set) => (
                        Stage::Finished,
                        Step::Finished(Ok(OkDBResult::SelectResult(result_set))),
                    ),
                    Err(e) => (Stage::Finished, Step::Finished(Err(e))),
                }
            },
            (Plan::InsertPlan(_), Stage::Writing, StorageReply::Done) => (
                Stage::Finished,
                Step::Finished(Ok(OkDBResult::ExecutionResult)),
            ),
            (Plan::CreateTablePlan(create), Stage::CreatingKeyspace, StorageReply::Done) => {
                match create.table() {
                    Err(e) => (Stage::Finished, Step::Finished(Err(e))),
                    Ok(table) => (
                        Stage::LoadingSchema(table),
                        Step::Perform(
                            StorageRequest::FindSchema {
                                namespace: Namespace::Metadata,
                                key: schema_key(create.database_name.as_str()),
                            },
                        ),
                    ),
                }
            },
            (
                Plan::CreateTablePlan(create),
                Stage::LoadingSchema(table),
                StorageReply::Schema(current),
            ) => {
                match create_table(current, create.database_name.as_str(), table.clone()) {
                    Err(e) => (Stage::Finished, Step::Finished(Err(e))),
                    Ok(database) => (
                        Stage::SavingSchema,
                        Step::Perform(
                            StorageRequest::SaveSchema {
                                namespace: Namespace::Metadata,
                                key: schema_key(database.name.as_str()),
                                database,
                            },
                        ),
                    ),
                }
            },
            (Plan::CreateTablePlan(_), Stage::SavingSchema, StorageReply::Done) => (
                Stage::Finished,
                Step::Finished(Ok(OkDBResult::ExecutionResult)),
            ),
            _ => (
                Stage::Finished,
                Step::Finished(Err(storage_err("the store's answer does not fit the request"))),
            ),
        };
        self.stage = stage;
        step
    }
}

// ---------------------------------------------------------------------------
// What holds of statements that follow one another
// ---------------------------------------------------------------------------

/// The columns that definitions declare stand in the definitions' order, each
/// with the name of its definition and the type that the definition names.
pub proof fn lemma_columns_from(
    definitions: Seq<ColumnDefinitionView>,
    i: int,
    columns: Seq<ColumnView>,
)
    requires
        0 <= i <= definitions.len(),
        columns.len() == i,
        columns_from(definitions, i, columns) is Ok,
    ensures
        columns_from(definitions, i, columns)->Ok_0.len() == definitions.len(),
        forall|k: int|
            0 <= k < i ==> #[trigger] columns_from(definitions, i, columns)->Ok_0[k] == columns[k],
        forall|k: int|
            i <= k < definitions.len() ==> (#[trigger] columns_from(
                definitions,
                i,
                columns,
            )->Ok_0[k]).name == definitions[k].name && ColumnType::of_alias(
                definitions[k].column_type,
            ) == Some(columns_from(definitions, i, columns)->Ok_0[k].column_type),
    decreases definitions.len() - i,
{
    if i < definitions.len() {
        let column_type = ColumnType::of_alias(definitions[i].column_type)->0;
        let next = columns.push(ColumnView { name: definitions[i].name, column_type });
        lemma_columns_from(definitions, i + 1, next);
        assert(next[i] == ColumnView { name: definitions[i].name, column_type });
        assert forall|k: int| 0 <= k < i implies #[trigger] columns_from(
            definitions,
            i,
            columns,
        )->Ok_0[k] == columns[k] by {
            assert(next[k] == columns[k]);
        }
    }
}

/// After a table was created, a query for all its columns has the columns as
/// fields, in the order in which the statement declared them, each with the
/// name that it was declared with and the name of its type. The rows of the
/// table do not matter.
pub proof fn lemma_created_table_fields_in_declared_order(
    current: Option<DatabaseView>,
    create: CreateTablePlanView,
    rows: Seq<(Seq<char>, Seq<u8>)>,
)
    requires
        create.table() is Ok,
        create_table_spec(current, create.database_name, create.table()->Ok_0) is Ok,
    ensures
        ({
            let table = create.table()->Ok_0;
            let database = create_table_spec(current, create.database_name, table)->Ok_0;
            let plan = plan_select(
                create.database_name,
                Some(database),
                wildcard_query(create.table_name, None),
            );
            &&& plan is Ok
            &&& plan->Ok_0.result_metadata() == fields_of(table.columns)
            &&& plan->Ok_0.result(rows) is Ok ==> plan->Ok_0.result(rows)->Ok_0.metadata
                == fields_of(table.columns)
            &&& fields_of(table.columns).len() == create.column_definitions.len()
            &&& forall|i: int|
                0 <= i < create.column_definitions.len() ==> (#[trigger] fields_of(
                    table.columns,
                )[i]).field_name == create.column_definitions[i].name && ColumnType::of_alias(
                    create.column_definitions[i].column_type,
                ) == Some(table.columns[i].column_type)
        }),
{
    let table = create.table()->Ok_0;
    let database = create_table_spec(current, create.database_name, table)->Ok_0;
    lemma_create_table_twice(current, create.database_name, table, table);
    lemma_wildcard_plan(create.database_name, database, table, None);
    lemma_wildcard_fields(database, table, Seq::empty());
    lemma_columns_from(create.column_definitions, 0, Seq::empty());
}

/// A second CREATE TABLE of a name ends with the error that the table exists
/// and asks for no write of the catalog: given the catalog that the first
/// statement wrote, the executor of the second finishes at once.
pub proof fn lemma_create_table_twice_leaves_catalog(
    current: Option<DatabaseView>,
    first: CreateTablePlanView,
    second: CreateTablePlanView,
)
    requires
        second.database_name == first.database_name,
        second.table_name == first.table_name,
        first.table() is Ok,
        second.table() is Ok,
        create_table_spec(current, first.database_name, first.table()->Ok_0) is Ok,
    ensures
        ({
            let written = create_table_spec(
                current,
                first.database_name,
                first.table()->Ok_0,
            )->Ok_0;
            &&& written.table(first.table_name) == Some(first.table()->Ok_0)
            &&& next_move(
                PlanView::CreateTablePlan(second),
                StageView::LoadingSchema(second.table()->Ok_0),
                StorageReplyView::Schema(Some(written)),
            ) == finish(Err(table_exists_error(first.table_name)))
        }),
{
    lemma_create_table_twice(
        current,
        first.database_name,
        first.table()->Ok_0,
        second.table()->Ok_0,
    );
}

/// An INSERT that is run again overwrites: both runs ask the store to put
/// the same value under the same key of the same namespace, so that the
/// keyspace after both is the keyspace after the first, and a listing of it
/// has one row with that key, which holds that value.
pub proof fn lemma_insert_again_overwrites(
    insert: InsertPlanView,
    keyspace: KeyspaceView,
    rows: Seq<(Seq<char>, Seq<u8>)>,
)
    requires
        insert.write() is Ok,
        lists(
            rows,
            after_put(
                after_put(
                    keyspace,
                    insert.write()->Ok_0.key,
                    json_bytes(insert.write()->Ok_0.fields),
                ),
                insert.write()->Ok_0.key,
                json_bytes(insert.write()->Ok_0.fields),
            ),
        ),
    ensures
        ({
            let write = insert.write()->Ok_0;
            let value = json_bytes(write.fields);
            &&& first_move(PlanView::InsertPlan(insert)).step == StepView::Perform(
                StorageRequestView::Put { namespace: write.namespace, key: write.key, value },
            )
            &&& after_put(after_put(keyspace, write.key, value), write.key, value) == after_put(
                keyspace,
                write.key,
                value,
            )
            &&& exists|i: int|
                0 <= i < rows.len() && #[trigger] rows[i] == (write.key, value) && forall|j: int|
                    0 <= j < rows.len() && j != i ==> (#[trigger] rows[j]).0 != write.key
        }),
{
    let write = insert.write()->Ok_0;
    let value = json_bytes(write.fields);
    let once = after_put(keyspace, write.key, value);
    let twice = after_put(once, write.key, value);
    assert(twice =~= once);
    assert(twice.contains_key(write.key));
    let i = choose|i: int| 0 <= i < rows.len() && (#[trigger] rows[i]).0 == write.key;
    assert(twice.contains_pair(rows[i].0, rows[i].1));
    assert(rows[i] == (write.key, value));
    assert forall|j: int| 0 <= j < rows.len() && j != i implies (#[trigger] rows[j]).0
        != write.key by {
        if j < i {
            assert(rows[j].0 != rows[i].0);
        } else {
            assert(rows[i].0 != rows[j].0);
        }
    }
}

/// Whether the row has a member for each field.
pub open spec fn holds_fields(row: RowView, fields: Seq<FieldMetadataView>) -> bool {
    forall|j: int| 0 <= j < fields.len() ==> member(row, (#[trigger] fields[j]).field_name) is Some
}

/// Whether the stored row, where it is well-formed, has a member for each
/// field.
pub open spec fn stored_row_holds_fields(
    table: TableView,
    fields: Seq<FieldMetadataView>,
    value: Seq<u8>,
) -> bool {
    json_object(value) matches Some(members) ==> (typed_row(table, members, 0, Seq::empty())
        matches Ok(row) ==> holds_fields(row, fields))
}

/// A record has at most one value for each field, and one for each where the
/// row has a member for each field.
pub proof fn lemma_record_length(fields: Seq<FieldMetadataView>, row: RowView, n: int)
    requires
        0 <= n <= fields.len(),
    ensures
        record_of(fields, row, n).len() <= n,
        holds_fields(row, fields) ==> record_of(fields, row, n).len() == n,
    decreases n,
{
    if n > 0 {
        lemma_record_length(fields, row, n - 1);
        if holds_fields(row, fields) {
            assert(member(row, fields[n - 1].field_name) is Some);
        }
    }
}

proof fn lemma_selected_records_are_complete(
    table: TableView,
    filters: Seq<FilterView>,
    fields: Seq<FieldMetadataView>,
    rows: Seq<(Seq<char>, Seq<u8>)>,
    i: int,
    records: Seq<Seq<FieldValueView>>,
)
    requires
        0 <= i <= rows.len(),
        forall|k: int| 0 <= k < records.len() ==> (#[trigger] records[k]).len() == fields.len(),
        forall|k: int|
            0 <= k < rows.len() ==> stored_row_holds_fields(table, fields, (#[trigger] rows[k]).1),
        selected_from(table, filters, fields, rows, i, records) is Ok,
    ensures
        forall|k: int|
            0 <= k < selected_from(table, filters, fields, rows, i, records)->Ok_0.len() ==> (
            #[trigger] selected_from(table, filters, fields, rows, i, records)->Ok_0[k]).len()
                == fields.len(),
    decreases rows.len() - i,
{
    if i < rows.len() {
        assert(stored_row_holds_fields(table, fields, rows[i].1));
        match selected(table, filters, fields, rows[i].0, rows[i].1) {
            Ok(Some(record)) => {
                let row = typed_row(table, json_object(rows[i].1)->0, 0, Seq::empty())->Ok_0;
                lemma_record_length(fields, row, fields.len() as int);
                let next = records.push(record);
                assert forall|k: int| 0 <= k < next.len() implies (#[trigger] next[k]).len()
                    == fields.len() by {
                    if k < records.len() {
                        assert(next[k] == records[k]);
                    }
                }
                lemma_selected_records_are_complete(table, filters, fields, rows, i + 1, next);
            },
            Ok(None) => {
                lemma_selected_records_are_complete(table, filters, fields, rows, i + 1, records);
            },
            Err(_) => {},
        }
    }
}

/// Every record of a result has one value for each field of the result,
/// provided that every well-formed row of the table has a member for each
/// field. A row that lacks one gives a shorter record.
pub proof fn lemma_result_is_rectangular(plan: SelectPlanView, rows: Seq<(Seq<char>, Seq<u8>)>)
    requires
        plan.result(rows) is Ok,
        forall|k: int|
            0 <= k < rows.len() ==> stored_row_holds_fields(
                plan.plans[0].table,
                plan.result_metadata(),
                (#[trigger] rows[k]).1,
            ),
    ensures
        plan.result(rows)->Ok_0.is_rectangular(),
{
    let table = plan.plans[0].table;
    let fields = plan.result_metadata();
    let filters = filters_on(plan.filters, table.name, plan.filters.len() as int);
    lemma_selected_records_are_complete(table, filters, fields, rows, 0, Seq::empty());
}

/// The member that a field of a written row is read back as.
pub open spec fn as_member(field: (Seq<char>, Seq<char>)) -> (Seq<char>, Option<Seq<char>>) {
    (field.0, Some(field.1))
}

/// Whether `member` is one of `fields`, read back.
pub open spec fn is_field(member: (Seq<char>, Option<Seq<char>>), fields: Seq<(Seq<char>, Seq<char>)>)
    -> bool {
    exists|j: int| 0 <= j < fields.len() && member == as_member(#[trigger] fields[j])
}

/// Whether `field`, read back, is one of `members`.
pub open spec fn is_member(field: (Seq<char>, Seq<char>), members: Seq<(Seq<char>, Option<Seq<char>>)>)
    -> bool {
    exists|i: int| 0 <= i < members.len() && #[trigger] members[i] == as_member(field)
}

/// Whether `members` are the fields `fields` as they are read back: the same
/// names with the same texts, in any order.
pub open spec fn reads_back(
    members: Seq<(Seq<char>, Option<Seq<char>>)>,
    fields: Seq<(Seq<char>, Seq<char>)>,
) -> bool {
    &&& forall|i: int| 0 <= i < members.len() ==> is_field(#[trigger] members[i], fields)
    &&& forall|j: int| 0 <= j < fields.len() ==> is_member(#[trigger] fields[j], members)
}

/// A text as a value of a column of the type `column_type`, where it is one.
pub open spec fn typed_text(column_type: ColumnType, text: Seq<char>) -> Option<FieldValueView> {
    match column_type {
        ColumnType::Integer => match i64_of_text(text) {
            Some(i) => Some(FieldValueView::Int(i)),
            None => None,
        },
        ColumnType::Varchar => Some(FieldValueView::Text(text)),
    }
}

/// Whether the values can be stored in the columns and read again: there is
/// a value for each column, each value has a text, and the text for an integer
/// column writes a 64-bit integer.
pub open spec fn storable(columns: Seq<ColumnView>, values: Seq<ValueView>) -> bool {
    &&& columns.len() <= values.len()
    &&& forall|i: int|
        0 <= i < columns.len() ==> (#[trigger] values[i]).text() is Some && typed_text(
            columns[i].column_type,
            values[i].text()->0,
        ) is Some
}

/// The fields of the row that holds the values in the columns.
pub open spec fn fields_to_store(columns: Seq<ColumnView>, values: Seq<ValueView>) -> Seq<
    (Seq<char>, Seq<char>),
> {
    Seq::new(columns.len(), |i: int| (columns[i].name, values[i].text()->0))
}

/// The record of the row that holds the values in the columns: each value
/// typed as its column declares.
pub open spec fn stored_record(columns: Seq<ColumnView>, values: Seq<ValueView>) -> Seq<
    FieldValueView,
> {
    Seq::new(columns.len(), |i: int| typed_text(columns[i].column_type, values[i].text()->0)->0)
}

/// Whether a literal can be compared with a column of the type.
pub open spec fn comparable(column_type: ColumnType, literal: ValueView) -> bool {
    match column_type {
        ColumnType::Integer => literal is Number,
        ColumnType::Varchar => literal is QuotedString,
    }
}

/// The condition `id = literal`.
pub open spec fn id_is(literal: ValueView) -> Option<ExpressionView> {
    Some(
        ExpressionView::BinOperator {
            lhs: Box::new(ExpressionView::Ident("id"@)),
            rhs: Box::new(ExpressionView::Value(literal)),
            op: BinaryOperator::Eq,
        },
    )
}

proof fn lemma_absent_field(fields: Seq<(Seq<char>, Seq<char>)>, name: Seq<char>, from: int)
    requires
        0 <= from <= fields.len(),
        forall|i: int| from <= i < fields.len() ==> (#[trigger] fields[i]).0 != name,
    ensures
        field_position(fields, name, from) == fields.len(),
    decreases fields.len() - from,
{
    if from < fields.len() {
        lemma_absent_field(fields, name, from + 1);
    }
}

proof fn lemma_row_fields_of_distinct_columns(
    columns: Seq<ColumnView>,
    values: Seq<ValueView>,
    i: int,
)
    requires
        distinct_columns(columns),
        storable(columns, values),
        0 <= i <= columns.len(),
    ensures
        row_fields(zip_values(columns, values), i, fields_to_store(columns, values).take(i))
            == Ok::<_, DBErrorView>(fields_to_store(columns, values)),
    decreases columns.len() - i,
{
    let zipped = zip_values(columns, values);
    let all = fields_to_store(columns, values);
    let fields = all.take(i);
    if i < columns.len() {
        assert(zipped[i].value == values[i]);
        assert(zipped[i].column == columns[i]);
        let text = values[i].text()->0;
        assert forall|k: int| 0 <= k < fields.len() implies (#[trigger] fields[k]).0
            != columns[i].name by {
            assert(fields[k] == all[k]);
            assert(columns[k].name != columns[i].name);
        }
        lemma_absent_field(fields, columns[i].name, 0);
        assert(with_field(fields, columns[i].name, text) =~= all.take(i + 1));
        lemma_row_fields_of_distinct_columns(columns, values, i + 1);
    } else {
        assert(fields =~= all);
    }
}

proof fn lemma_id_position(columns: Seq<ColumnView>, values: Seq<ValueView>, from: int)
    requires
        0 <= from <= columns.len(),
    ensures
        id_position(zip_values(columns, values), from) == column_position(columns, "id"@, from),
    decreases columns.len() - from,
{
    let zipped = zip_values(columns, values);
    if from < columns.len() {
        assert(zipped[from].column == columns[from]);
        if columns[from].name != "id"@ {
            lemma_id_position(columns, values, from + 1);
        }
    }
}

/// A column is the first of its name, where no two columns share a name.
proof fn lemma_own_column(columns: Seq<ColumnView>, at: int, from: int)
    requires
        distinct_columns(columns),
        0 <= from <= at < columns.len(),
    ensures
        column_position(columns, columns[at].name, from) == at,
    decreases at - from,
{
    if from < at {
        assert(columns[from].name != columns[at].name);
        lemma_own_column(columns, at, from + 1);
    }
}

proof fn lemma_member_position(row: RowView, name: Seq<char>, from: int)
    requires
        0 <= from <= row.len(),
    ensures
        from <= member_position(row, name, from) <= row.len(),
        member_position(row, name, from) < row.len() ==> row[member_position(row, name, from)].0
            == name,
        forall|i: int|
            from <= i < member_position(row, name, from) ==> (#[trigger] row[i]).0 != name,
    decreases row.len() - from,
{
    if from < row.len() && row[from].0 != name {
        lemma_member_position(row, name, from + 1);
    }
}

/// The typed members of a row whose members can all be typed.
proof fn lemma_typed_row(
    table: TableView,
    members: Seq<(Seq<char>, Option<Seq<char>>)>,
    i: int,
    row: RowView,
)
    requires
        0 <= i <= members.len(),
        row.len() == i,
        forall|k: int|
            0 <= k < members.len() ==> typed_value(
                table,
                (#[trigger] members[k]).0,
                members[k].1,
            ) is Ok,
        forall|k: int|
            0 <= k < i ==> #[trigger] row[k] == (
                members[k].0,
                typed_value(table, members[k].0, members[k].1)->Ok_0,
            ),
    ensures
        typed_row(table, members, i, row) is Ok,
        typed_row(table, members, i, row)->Ok_0.len() == members.len(),
        forall|k: int|
            0 <= k < members.len() ==> #[trigger] typed_row(table, members, i, row)->Ok_0[k] == (
                members[k].0,
                typed_value(table, members[k].0, members[k].1)->Ok_0,
            ),
    decreases members.len() - i,
{
    if i < members.len() {
        let value = typed_value(table, members[i].0, members[i].1)->Ok_0;
        let next = row.push((members[i].0, value));
        assert forall|k: int| 0 <= k < i + 1 implies #[trigger] next[k] == (
            members[k].0,
            typed_value(table, members[k].0, members[k].1)->Ok_0,
        ) by {
            if k < i {
                assert(next[k] == row[k]);
            }
        }
        lemma_typed_row(table, members, i + 1, next);
    }
}

/// What the stored row of an INSERT reads as, member by member: every
/// member can be typed, and the member of a column's name has the column's
/// value, typed as the column declares.
proof fn lemma_stored_row(
    table: TableView,
    values: Seq<ValueView>,
    members: Seq<(Seq<char>, Option<Seq<char>>)>,
)
    requires
        distinct_columns(table.columns),
        storable(table.columns, values),
        reads_back(members, fields_to_store(table.columns, values)),
    ensures
        typed_row(table, members, 0, Seq::empty()) is Ok,
        forall|j: int|
            0 <= j < table.columns.len() ==> member(
                typed_row(table, members, 0, Seq::empty())->Ok_0,
                (#[trigger] table.columns[j]).name,
            ) == Some(stored_record(table.columns, values)[j]),
{
    let columns = table.columns;
    let fields = fields_to_store(columns, values);
    assert forall|k: int| 0 <= k < members.len() implies typed_value(
        table,
        (#[trigger] members[k]).0,
        members[k].1,
    ) is Ok by {
        assert(is_field(members[k], fields));
        let j = choose|j: int| 0 <= j < fields.len() && members[k] == as_member(#[trigger] fields[j]);
        assert(fields[j] == (columns[j].name, values[j].text()->0));
        lemma_own_column(columns, j, 0);
        assert(values[j].text() is Some);
    }
    lemma_typed_row(table, members, 0, Seq::empty());
    let row = typed_row(table, members, 0, Seq::empty())->Ok_0;
    assert forall|j: int| 0 <= j < columns.len() implies member(
        row,
        (#[trigger] columns[j]).name,
    ) == Some(stored_record(columns, values)[j]) by {
        let name = columns[j].name;
        assert(fields[j] == (name, values[j].text()->0));
        assert(is_member(fields[j], members));
        let i = choose|i: int| 0 <= i < members.len() && #[trigger] members[i] == as_member(fields[j]);
        lemma_member_position(row, name, 0);
        let at = member_position(row, name, 0);
        assert(row[i].0 == name);
        assert(at <= i);
        assert(row[at].0 == name);
        assert(is_field(members[at], fields));
        let other = choose|other: int|
            0 <= other < fields.len() && members[at] == as_member(#[trigger] fields[other]);
        assert(fields[other] == (columns[other].name, values[other].text()->0));
        assert(row[at].0 == members[at].0);
        if other < j {
            assert(columns[other].name != columns[j].name);
        } else if j < other {
            assert(columns[j].name != columns[other].name);
        }
        assert(other == j);
        lemma_own_column(columns, j, 0);
        assert(values[j].text() is Some);
    }
}

/// The record of the stored row of an INSERT: the values in the order of the
/// columns, each typed as its column declares.
proof fn lemma_stored_row_record(table: TableView, values: Seq<ValueView>, row: RowView, n: int)
    requires
        0 <= n <= table.columns.len(),
        forall|j: int|
            0 <= j < table.columns.len() ==> member(row, (#[trigger] table.columns[j]).name)
                == Some(stored_record(table.columns, values)[j]),
    ensures
        record_of(fields_of(table.columns), row, n) == stored_record(table.columns, values).take(n),
    decreases n,
{
    let expected = stored_record(table.columns, values);
    if n > 0 {
        lemma_stored_row_record(table, values, row, n - 1);
        assert(fields_of(table.columns)[n - 1].field_name == table.columns[n - 1].name);
        assert(expected.take(n - 1).push(expected[n - 1]) =~= expected.take(n));
    } else {
        assert(record_of(fields_of(table.columns), row, n) =~= expected.take(n));
    }
}

/// A row that is inserted is found again by its id. Where an INSERT gives a
/// value for each column of a table whose columns have different names, and
/// the stored JSON is read back as the fields that were written, in whatever
/// order, a query for all columns of the row with that id, asked of a table
/// that holds this one row, returns one record: the inserted values in the
/// order of the columns, each typed as its column declares.
pub proof fn lemma_select_returns_inserted_row(
    database_name: Seq<char>,
    database: DatabaseView,
    table: TableView,
    values: Seq<ValueView>,
    members: Seq<(Seq<char>, Option<Seq<char>>)>,
)
    requires
        database.table(table.name) == Some(table),
        distinct_columns(table.columns),
        table.column("id"@) is Some,
        storable(table.columns, values),
        comparable(
            table.column("id"@)->0.column_type,
            values[column_position(table.columns, "id"@, 0)],
        ),
        json_object(json_bytes(fields_to_store(table.columns, values))) == Some(members),
        reads_back(members, fields_to_store(table.columns, values)),
    ensures
        ({
            let literal = values[column_position(table.columns, "id"@, 0)];
            let insert = plan_insert(
                database_name,
                Some(database),
                InsertView { table_name: table.name, values },
            );
            let select = plan_select(
                database_name,
                Some(database),
                wildcard_query(table.name, id_is(literal)),
            );
            &&& insert is Ok
            &&& insert->Ok_0.write() == Ok::<_, DBErrorView>(
                RowWrite {
                    namespace: NamespaceView::Table {
                        database_name: database.name,
                        name: table.name,
                    },
                    key: literal.text()->0,
                    fields: fields_to_store(table.columns, values),
                },
            )
            &&& select is Ok
            &&& select->Ok_0.namespace() == insert->Ok_0.write()->Ok_0.namespace
            &&& select->Ok_0.result(
                seq![
                    (literal.text()->0, json_bytes(fields_to_store(table.columns, values))),
                ],
            ) == Ok::<_, DBErrorView>(
                ResultSetView {
                    records: seq![stored_record(table.columns, values)],
                    metadata: fields_of(table.columns),
                },
            )
        }),
{
    let columns = table.columns;
    let at = column_position(columns, "id"@, 0);
    let literal = values[at];
    let fields = fields_to_store(columns, values);
    lemma_column_position(columns, "id"@, 0);
    // the INSERT
    let insert = plan_insert(
        database_name,
        Some(database),
        InsertView { table_name: table.name, values },
    )->Ok_0;
    assert(insert.values == zip_values(columns, values));
    lemma_id_position(columns, values, 0);
    assert(insert.values[at].value == literal);
    assert(fields.take(0) =~= Seq::empty());
    lemma_row_fields_of_distinct_columns(columns, values, 0);
    assert(values[at].text() is Some);
    // the query
    let filter = FilterView { table_name: table.name, column_name: "id"@, expected_value: literal };
    assert(owner_position(seq![table], "id"@, 0) == 0) by {
        reveal_with_fuel(owner_position, 2);
    }
    assert(filters_of(seq![table], id_is(literal)) == Ok::<_, DBErrorView>(seq![filter]));
    lemma_wildcard_plan(database_name, database, table, id_is(literal));
    let select = wildcard_plan(database, table, seq![filter]);
    lemma_wildcard_fields(database, table, seq![filter]);
    // the row
    lemma_stored_row(table, values, members);
    let row = typed_row(table, members, 0, Seq::empty())->Ok_0;
    lemma_stored_row_record(table, values, row, columns.len() as int);
    assert(stored_record(columns, values).take(columns.len() as int) =~= stored_record(
        columns,
        values,
    ));
    assert(filters_on(select.filters, table.name, 1) =~= seq![filter]) by {
        reveal_with_fuel(filters_on, 2);
    }
    assert(member(row, columns[at].name) == Some(stored_record(columns, values)[at]));
    assert(filter_holds(filter, row) == Ok::<_, DBErrorView>(true));
    assert(filters_hold(seq![filter], row, 0) == Ok::<_, DBErrorView>(true)) by {
        reveal_with_fuel(filters_hold, 2);
    }
    let rows = seq![(literal.text()->0, json_bytes(fields))];
    assert(selected_from(table, seq![filter], fields_of(columns), rows, 0, Seq::empty())
        == Ok::<_, DBErrorView>(seq![stored_record(columns, values)])) by {
        reveal_with_fuel(selected_from, 2);
        assert(Seq::<Seq<FieldValueView>>::empty().push(stored_record(columns, values)) =~= seq![
            stored_record(columns, values),
        ]);
    }
}

} // verus!
