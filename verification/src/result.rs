//! What a statement returns: a result set, or an acknowledgment.

use crate::error::DBError;
use crate::schema::ColumnType;
use vstd::prelude::*;

verus! {

/// One value of a record, typed as its column declares.
#[derive(Debug, PartialEq, Eq, Hash)]
pub enum FieldValue {
    Bytes(Vec<u8>),
    Int(i64),
    Text(String),
}

pub enum FieldValueView {
    Bytes(Seq<u8>),
    Int(i64),
    Text(Seq<char>),
}

impl View for FieldValue {
    type V = FieldValueView;

    open spec fn view(&self) -> FieldValueView {
        match self {
            FieldValue::Bytes(bytes) => FieldValueView::Bytes(bytes@),
            FieldValue::Int(i) => FieldValueView::Int(*i),
            FieldValue::Text(text) => FieldValueView::Text(text@),
        }
    }
}

impl DeepView for FieldValue {
    type V = FieldValueView;

    open spec fn deep_view(&self) -> FieldValueView {
        self@
    }
}

impl Clone for FieldValue {
    fn clone(&self) -> (r: Self)
        ensures
            r@ == self@,
    {
        match self {
            FieldValue::Bytes(bytes) => FieldValue::Bytes(bytes.clone()),
            FieldValue::Int(i) => FieldValue::Int(*i),
            FieldValue::Text(text) => FieldValue::Text(text.clone()),
        }
    }
}

#[derive(Debug, PartialEq, Eq, Hash)]
pub struct Record {
    pub values: Vec<FieldValue>,
}

impl View for Record {
    type V = Seq<FieldValueView>;

    open spec fn view(&self) -> Seq<FieldValueView> {
        self.values.deep_view()
    }
}

impl DeepView for Record {
    type V = Seq<FieldValueView>;

    open spec fn deep_view(&self) -> Seq<FieldValueView> {
        self@
    }
}

impl Clone for Record {
    fn clone(&self) -> (r: Self)
        ensures
            r@ == self@,
    {
        let mut values: Vec<FieldValue> = Vec::new();
        let mut i: usize = 0;
        while i < self.values.len()
            invariant
                i <= self.values.len(),
                values.deep_view() == self.values.deep_view().take(i as int),
            decreases self.values.len() - i,
        {
            let ghost before = values.deep_view();
            let value = self.values[i].clone();
            values.push(value);
            assert(values.deep_view() =~= before.push(value@));
            i += 1;
            assert(self.values.deep_view().take(i as int) =~= before.push(value@));
        }
        assert(self.values.deep_view().take(i as int) =~= self.values.deep_view());
        Record { values }
    }
}

impl Record {
    pub fn new(values: Vec<FieldValue>) -> (r: Self)
        ensures
            r@ == values.deep_view(),
    {
        Self { values }
    }

    /// The value at `index`, if the record has one there.
    pub fn get(&self, index: usize) -> (r: Option<&FieldValue>)
        ensures
            match r {
                Some(value) => index < self@.len() && value@ == self@[index as int],
                None => index >= self@.len(),
            },
    {
        if index < self.values.len() {
            Some(&self.values[index])
        } else {
            None
        }
    }
}

/// The name and the type of one field of a result.
#[derive(Debug, PartialEq, Eq, Hash)]
pub struct FieldMetadata {
    pub field_name: String,
    pub field_type: String,
}

pub struct FieldMetadataView {
    pub field_name: Seq<char>,
    pub field_type: Seq<char>,
}

impl View for FieldMetadata {
    type V = FieldMetadataView;

    open spec fn view(&self) -> FieldMetadataView {
        FieldMetadataView { field_name: self.field_name@, field_type: self.field_type@ }
    }
}

impl DeepView for FieldMetadata {
    type V = FieldMetadataView;

    open spec fn deep_view(&self) -> FieldMetadataView {
        self@
    }
}

impl Clone for FieldMetadata {
    fn clone(&self) -> (r: Self)
        ensures
            r@ == self@,
    {
        FieldMetadata { field_name: self.field_name.clone(), field_type: self.field_type.clone() }
    }
}

impl FieldMetadata {
    pub fn new(name: &str, _type: &str) -> (r: Self)
        ensures
            r@ == (FieldMetadataView { field_name: name@, field_type: _type@ }),
    {
        Self { field_name: name.to_owned(), field_type: _type.to_owned() }
    }

    /// The column type that the field's type names, if it names one.
    pub fn field_type(&self) -> (r: Option<ColumnType>)
        ensures
            r == ColumnType::of_alias(self@.field_type),
    {
        ColumnType::parse(self.field_type.as_str())
    }
}

#[derive(Debug, PartialEq, Eq, Hash)]
pub struct ResultMetadata {
    pub fields: Vec<FieldMetadata>,
}

impl View for ResultMetadata {
    type V = Seq<FieldMetadataView>;

    open spec fn view(&self) -> Seq<FieldMetadataView> {
        self.fields.deep_view()
    }
}

impl Clone for ResultMetadata {
    fn clone(&self) -> (r: Self)
        ensures
            r@ == self@,
    {
        let mut fields: Vec<FieldMetadata> = Vec::new();
        let mut i: usize = 0;
        while i < self.fields.len()
            invariant
                i <= self.fields.len(),
                fields.deep_view() == self.fields.deep_view().take(i as int),
            decreases self.fields.len() - i,
        {
            let ghost before = fields.deep_view();
            let field = self.fields[i].clone();
            fields.push(field);
            assert(fields.deep_view() =~= before.push(field@));
            i += 1;
            assert(self.fields.deep_view().take(i as int) =~= before.push(field@));
        }
        assert(self.fields.deep_view().take(i as int) =~= self.fields.deep_view());
        ResultMetadata { fields }
    }
}

impl ResultMetadata {
    pub fn new(field_metadatas: Vec<FieldMetadata>) -> (r: Self)
        ensures
            r@ == field_metadatas.deep_view(),
    {
        Self { fields: field_metadatas }
    }
}

impl Default for ResultMetadata {
    fn default() -> (r: Self)
        ensures
            r@ == Seq::<FieldMetadataView>::empty(),
    {
        let r = Self { fields: Vec::new() };
        assert(r.fields.deep_view() =~= Seq::empty());
        r
    }
}

/// The records of a query, in the order in which the store listed their rows,
/// with the metadata of their fields.
#[derive(Debug, PartialEq, Eq, Hash)]
pub struct ResultSet {
    pub records: Vec<Record>,
    pub metadata: ResultMetadata,
}

pub struct ResultSetView {
    pub records: Seq<Seq<FieldValueView>>,
    pub metadata: Seq<FieldMetadataView>,
}

impl ResultSetView {
    /// Every record has one value for each field of the metadata.
    pub open spec fn is_rectangular(self) -> bool {
        forall|i: int|
            0 <= i < self.records.len() ==> (#[trigger] self.records[i]).len()
                == self.metadata.len()
    }
}

impl View for ResultSet {
    type V = ResultSetView;

    open spec fn view(&self) -> ResultSetView {
        ResultSetView { records: self.records.deep_view(), metadata: self.metadata@ }
    }
}

impl Clone for ResultSet {
    fn clone(&self) -> (r: Self)
        ensures
            r@ == self@,
    {
        let mut records: Vec<Record> = Vec::new();
        let mut i: usize = 0;
        while i < self.records.len()
            invariant
                i <= self.records.len(),
                records.deep_view() == self.records.deep_view().take(i as int),
            decreases self.records.len() - i,
        {
            let ghost before = records.deep_view();
            let record = self.records[i].clone();
            records.push(record);
            assert(records.deep_view() =~= before.push(record@));
            i += 1;
            assert(self.records.deep_view().take(i as int) =~= before.push(record@));
        }
        assert(self.records.deep_view().take(i as int) =~= self.records.deep_view());
        ResultSet { records, metadata: self.metadata.clone() }
    }
}

impl ResultSet {
    pub fn new(records: Vec<Record>, metadata: ResultMetadata) -> (r: Self)
        ensures
            r@ == (ResultSetView { records: records.deep_view(), metadata: metadata@ }),
    {
        Self { records, metadata }
    }

    /// The record at `index`, if the result has one there.
    pub fn get(&self, index: usize) -> (r: Option<&Record>)
        ensures
            match r {
                Some(record) => index < self@.records.len() && record@ == self@.records[index as int],
                None => index >= self@.records.len(),
            },
    {
        if index < self.records.len() {
            Some(&self.records[index])
        } else {
            None
        }
    }
}

/// What a statement that succeeded returns.
#[derive(Debug, PartialEq, Eq, Hash)]
pub enum OkDBResult {
    SelectResult(ResultSet),
    ExecutionResult,
}

pub enum OkDBResultView {
    SelectResult(ResultSetView),
    ExecutionResult,
}

impl View for OkDBResult {
    type V = OkDBResultView;

    open spec fn view(&self) -> OkDBResultView {
        match self {
            OkDBResult::SelectResult(result_set) => OkDBResultView::SelectResult(result_set@),
            OkDBResult::ExecutionResult => OkDBResultView::ExecutionResult,
        }
    }
}

impl Clone for OkDBResult {
    fn clone(&self) -> (r: Self)
        ensures
            r@ == self@,
    {
        match self {
            OkDBResult::SelectResult(result_set) => OkDBResult::SelectResult(result_set.clone()),
            OkDBResult::ExecutionResult => OkDBResult::ExecutionResult,
        }
    }
}

pub type DBResult = Result<OkDBResult, DBError>;

} // verus!
