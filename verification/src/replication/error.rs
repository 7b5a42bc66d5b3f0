//! What can go wrong with logical replication.

use crate::replication::queries::PublicationTable;
use crate::server::error::Error as ServerError;
use vstd::prelude::*;

verus! {

/// What can go wrong with logical replication.
#[derive(Debug)]
pub enum Error {
    /// The server failed.
    Server(ServerError),
    /// The table (its schema and its name) is not there.
    NoReplicaIdentity(String, String),
    /// A row lacks a column.
    MissingData,
    /// The table has to be looked at inside a transaction.
    TransactionNotStarted,
    /// Someone stopped the copy of the table.
    CopyAborted(PublicationTable),
    /// A row does not have as many columns as its table.
    ColumnCount(usize, usize),
    /// This cannot happen now.
    OutOfOrder,
}

/// Why changes of a table cannot be carried over.
#[derive(Clone, Copy, Debug, PartialEq, Eq, Structural)]
pub enum TableValidationErrorKind {
    /// No column tells rows apart.
    NoIdentityColumns,
    /// The server does not say which row changed.
    ReplicaIdentityNothing,
}

/// Changes of a table cannot be carried over.
#[derive(Debug)]
pub struct TableValidationError {
    /// The table.
    pub table_name: String,
    /// Why.
    pub kind: TableValidationErrorKind,
}

} // verus!
