//! A small relational database engine: SQL text is tokenized, parsed, resolved
//! against a schema catalog into a plan, and the plan is carried out against an
//! ordered key-value store, one request at a time.

pub mod error;
pub mod json;
pub mod parser;
pub mod result;
pub mod schema;
pub mod sql;
pub mod storage;
pub mod text;

pub use error::{DBError, ErrorKind};
pub use result::{
    DBResult, FieldMetadata, FieldValue, OkDBResult, Record, ResultMetadata, ResultSet,
};
