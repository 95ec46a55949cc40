//! The error that every stage after parsing reports.

use crate::parser::{ParserError, ParserErrorView};
use crate::storage::{Namespace, NamespaceView};
use crate::text::join;
use vstd::prelude::*;

verus! {

/// The stage that failed.
#[derive(Debug, Clone, Copy, PartialEq, Eq, Hash)]
pub enum ErrorKind {
    /// A malformed lexeme.
    Tokenize,
    /// An unexpected token.
    Parse,
    /// A name that does not resolve, a shape that is not supported, a missing
    /// database.
    Plan,
    /// A table that exists already, an unknown column type.
    Schema,
    /// A keyspace that is missing, a failure of the store.
    Storage,
    /// A stored row that is malformed, a row without `id`, too few values.
    Data,
}

#[derive(Debug, PartialEq, Eq, Hash)]
pub struct DBError {
    pub kind: ErrorKind,
    pub message: String,
}

pub struct DBErrorView {
    pub kind: ErrorKind,
    pub message: Seq<char>,
}

impl View for DBError {
    type V = DBErrorView;

    open spec fn view(&self) -> DBErrorView {
        DBErrorView { kind: self.kind, message: self.message@ }
    }
}

impl Clone for DBError {
    fn clone(&self) -> (r: Self)
        ensures
            r@ == self@,
    {
        DBError { kind: self.kind, message: self.message.clone() }
    }
}

impl DBError {
    pub fn new(kind: ErrorKind, message: String) -> (r: Self)
        ensures
            r@ == (DBErrorView { kind, message: message@ }),
    {
        Self { kind, message }
    }

    /// The error of a text that is no statement: of the kind of the parser's
    /// error, with the parser's error as its message.
    pub open spec fn of_parser_error(e: ParserErrorView) -> DBErrorView {
        DBErrorView {
            kind: match e {
                ParserErrorView::TokenizeError(_) => ErrorKind::Tokenize,
                ParserErrorView::ParseError(_, _) => ErrorKind::Parse,
            },
            message: e.text(),
        }
    }

    pub fn from_parser_error(e: &ParserError) -> (r: Self)
        ensures
            r@ == Self::of_parser_error(e@),
    {
        let kind = match e {
            ParserError::TokenizeError(_) => ErrorKind::Tokenize,
            ParserError::ParseError(_, _) => ErrorKind::Parse,
        };
        Self { kind, message: e.to_string() }
    }

    /// The error of a read or a write in a keyspace that does not exist.
    pub open spec fn namespace_not_found_spec(namespace: NamespaceView) -> DBErrorView {
        DBErrorView {
            kind: ErrorKind::Storage,
            message: "ColumnFamily("@ + namespace.keyspace() + ") not found"@,
        }
    }

    pub fn namespace_not_found(namespace: &Namespace) -> (r: Self)
        ensures
            r@ == Self::namespace_not_found_spec(namespace@),
    {
        let name = namespace.cf_name();
        let mut message = join("ColumnFamily(", name.as_str());
        message.append(") not found");
        Self { kind: ErrorKind::Storage, message }
    }
}

} // verus!
