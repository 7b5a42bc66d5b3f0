//! What can go wrong with a server connection.

use crate::net::ErrorResponse;
use crate::pool::error::Error as PoolError;
use vstd::prelude::*;

verus! {

/// In what way the network failed.
#[derive(Clone, Copy, Debug, PartialEq, Eq, Structural)]
pub enum IoKind {
    /// The connection was refused, or could not be encrypted.
    ConnectionRefused,
    /// The other side closed the connection in the middle of something.
    ConnectionReset,
    /// The connection was broken off.
    ConnectionAborted,
    /// There is no connection.
    NotConnected,
    /// The other side does not read any longer.
    BrokenPipe,
    /// It took too long.
    TimedOut,
    /// Nothing more came.
    UnexpectedEof,
    /// What came makes no sense.
    InvalidData,
    /// In another way.
    Other,
}

/// What can go wrong with a server connection.
#[derive(Debug)]
pub enum Error {
    /// The network failed in this way.
    Io(IoKind, String),
    /// Encryption could not be set up.
    Net(String),
    /// The server refused the connection.
    ConnectionError(ErrorResponse),
    /// The server failed to execute a statement.
    ExecutionError(ErrorResponse),
    /// The server failed to close a prepared statement.
    PreparedStatementError(ErrorResponse),
    /// The server does not offer TLS and has to.
    TlsRequired,
    /// The host cannot be the name in a certificate.
    InvalidServerName,
    /// A message of this kind was not expected.
    UnexpectedMessage(char),
    /// A message of this kind could not be understood.
    MalformedMessage(char),
    /// The server is in a transaction of an unknown kind.
    UnexpectedTransactionStatus(char),
    /// The connection is in the middle of something else.
    NotInSync,
    /// The pooler and the server disagree on what comes next.
    ProtocolOutOfSync,
    /// A transaction could not be rolled back.
    RollbackFailed,
    /// The authentication exchange failed.
    Authentication,
    /// The pool failed.
    Pool(PoolError),
    /// There is no connection.
    NotConnected,
    /// There is no cluster yet.
    ClusterNotConnected,
    /// There is no cluster for this user and database.
    NoCluster,
    /// The request could not be routed.
    Router(String),
}

} // verus!
