//! Namespaces: the logical keyspaces of the store, and the physical keyspace
//! that each one maps to.

use crate::error::{DBError, DBErrorView};
use crate::schema::{Database, DatabaseView};
use crate::text::join;
use vstd::prelude::*;

verus! {

/// A logical keyspace: the catalog's, a database's, or a table's.
#[derive(Debug, PartialEq, Eq, Hash)]
pub enum Namespace {
    Metadata,
    Database(String),
    Table { database_name: String, name: String },
}

pub enum NamespaceView {
    Metadata,
    Database(Seq<char>),
    Table { database_name: Seq<char>, name: Seq<char> },
}

impl NamespaceView {
    /// The name of the physical keyspace that holds this namespace.
    pub open spec fn keyspace(self) -> Seq<char> {
        match self {
            NamespaceView::Metadata => "metadata"@,
            NamespaceView::Database(name) => name,
            NamespaceView::Table { database_name, name } => database_name + "_"@ + name,
        }
    }
}

impl View for Namespace {
    type V = NamespaceView;

    open spec fn view(&self) -> NamespaceView {
        match self {
            Namespace::Metadata => NamespaceView::Metadata,
            Namespace::Database(name) => NamespaceView::Database(name@),
            Namespace::Table { database_name, name } => NamespaceView::Table {
                database_name: database_name@,
                name: name@,
            },
        }
    }
}

impl Clone for Namespace {
    fn clone(&self) -> (r: Self)
        ensures
            r@ == self@,
    {
        match self {
            Namespace::Metadata => Namespace::Metadata,
            Namespace::Database(name) => Namespace::Database(name.clone()),
            Namespace::Table { database_name, name } => Namespace::Table {
                database_name: database_name.clone(),
                name: name.clone(),
            },
        }
    }
}

impl Namespace {
    pub fn database(name: &str) -> (r: Namespace)
        ensures
            r@ == NamespaceView::Database(name@),
    {
        Namespace::Database(name.to_owned())
    }

    pub fn table(database_name: &str, name: &str) -> (r: Namespace)
        ensures
            r@ == (NamespaceView::Table { database_name: database_name@, name: name@ }),
    {
        Namespace::Table { database_name: database_name.to_owned(), name: name.to_owned() }
    }

    /// The name of the physical keyspace that holds this namespace.
    pub fn cf_name(&self) -> (r: String)
        ensures
            r@ == self@.keyspace(),
    {
        match self {
            Namespace::Metadata => "metadata".to_owned(),
            Namespace::Database(name) => name.clone(),
            Namespace::Table { database_name, name } => {
                let mut r = join(database_name.as_str(), "_");
                r.append(name.as_str());
                r
            },
        }
    }
}

/// Whether the keyspace of the catalog has yet to be created, given the names
/// of the keyspaces that exist.
pub fn needs_metadata_keyspace(existing: &Vec<String>) -> (r: bool)
    ensures
        r == !existing.deep_view().contains("metadata"@),
{
    let mut i: usize = 0;
    while i < existing.len()
        invariant
            i <= existing.len(),
            forall|j: int| 0 <= j < i ==> existing.deep_view()[j] != "metadata"@,
        decreases existing.len() - i,
    {
        assert(existing.deep_view()[i as int] == existing[i as int]@);
        if existing[i].as_str().eq("metadata") {
            return false;
        }
        i += 1;
    }
    true
}

/// What a keyspace holds: each key once, with its value.
pub type KeyspaceView = Map<Seq<char>, Seq<u8>>;

/// The keyspace after `Put`: the value stands under the key, in place of the
/// value that stood there, and nothing else has changed.
pub open spec fn after_put(keyspace: KeyspaceView, key: Seq<char>, value: Seq<u8>)
    -> KeyspaceView {
    keyspace.insert(key, value)
}

/// Whether `rows` is what `Iterate` gives for the keyspace: every key of the
/// keyspace once, with its value.
pub open spec fn lists(rows: Seq<(Seq<char>, Seq<u8>)>, keyspace: KeyspaceView) -> bool {
    &&& forall|i: int, j: int|
        0 <= i < j < rows.len() ==> (#[trigger] rows[i]).0 != (#[trigger] rows[j]).0
    &&& forall|i: int|
        0 <= i < rows.len() ==> keyspace.contains_pair((#[trigger] rows[i]).0, rows[i].1)
    &&& forall|key: Seq<char>| #[trigger]
        keyspace.contains_key(key) ==> exists|i: int|
            0 <= i < rows.len() && (#[trigger] rows[i]).0 == key
}

/// One request to the store. The store is an ordered key-value store with
/// named keyspaces; whoever holds it performs the request and answers with a
/// `StorageReply`.
#[derive(Debug, PartialEq, Eq, Hash)]
pub enum StorageRequest {
    /// List every row of the namespace, in the order of the keys.
    Iterate { namespace: Namespace },
    /// Store the value under the key; a value that is there is replaced.
    Put { namespace: Namespace, key: String, value: Vec<u8> },
    /// Create the keyspace of that name.
    CreateKeyspace { name: String },
    /// Read the catalog document under the key.
    FindSchema { namespace: Namespace, key: String },
    /// Write the catalog document under the key, in place of the one there.
    SaveSchema { namespace: Namespace, key: String, database: Database },
}

pub enum StorageRequestView {
    Iterate { namespace: NamespaceView },
    Put { namespace: NamespaceView, key: Seq<char>, value: Seq<u8> },
    CreateKeyspace { name: Seq<char> },
    FindSchema { namespace: NamespaceView, key: Seq<char> },
    SaveSchema { namespace: NamespaceView, key: Seq<char>, database: DatabaseView },
}

impl View for StorageRequest {
    type V = StorageRequestView;

    open spec fn view(&self) -> StorageRequestView {
        match self {
            StorageRequest::Iterate { namespace } => StorageRequestView::Iterate {
                namespace: namespace@,
            },
            StorageRequest::Put { namespace, key, value } => StorageRequestView::Put {
                namespace: namespace@,
                key: key@,
                value: value@,
            },
            StorageRequest::CreateKeyspace { name } => StorageRequestView::CreateKeyspace {
                name: name@,
            },
            StorageRequest::FindSchema { namespace, key } => StorageRequestView::FindSchema {
                namespace: namespace@,
                key: key@,
            },
            StorageRequest::SaveSchema { namespace, key, database } => {
                StorageRequestView::SaveSchema {
                    namespace: namespace@,
                    key: key@,
                    database: database@,
                }
            },
        }
    }
}

impl Clone for StorageRequest {
    fn clone(&self) -> (r: Self)
        ensures
            r@ == self@,
    {
        match self {
            StorageRequest::Iterate { namespace } => StorageRequest::Iterate {
                namespace: namespace.clone(),
            },
            StorageRequest::Put { namespace, key, value } => StorageRequest::Put {
                namespace: namespace.clone(),
                key: key.clone(),
                value: value.clone(),
            },
            StorageRequest::CreateKeyspace { name } => StorageRequest::CreateKeyspace {
                name: name.clone(),
            },
            StorageRequest::FindSchema { namespace, key } => StorageRequest::FindSchema {
                namespace: namespace.clone(),
                key: key.clone(),
            },
            StorageRequest::SaveSchema { namespace, key, database } => StorageRequest::SaveSchema {
                namespace: namespace.clone(),
                key: key.clone(),
                database: database.clone(),
            },
        }
    }
}

/// The store's answer to a request.
#[derive(Debug, Clone, PartialEq, Eq, Hash)]
pub enum StorageReply {
    /// The rows of a namespace, each with its key, in the order of the keys.
    Rows(Vec<(String, Vec<u8>)>),
    /// A write was made.
    Done,
    /// The catalog document that was read; `None` where there is none.
    Schema(Option<Database>),
    /// The request failed.
    Failed(DBError),
}

pub enum StorageReplyView {
    Rows(Seq<(Seq<char>, Seq<u8>)>),
    Done,
    Schema(Option<DatabaseView>),
    Failed(DBErrorView),
}

impl View for StorageReply {
    type V = StorageReplyView;

    open spec fn view(&self) -> StorageReplyView {
        match self {
            StorageReply::Rows(rows) => StorageReplyView::Rows(rows.deep_view()),
            StorageReply::Done => StorageReplyView::Done,
            StorageReply::Schema(database) => StorageReplyView::Schema(database.deep_view()),
            StorageReply::Failed(e) => StorageReplyView::Failed(e@),
        }
    }
}

} // verus!
