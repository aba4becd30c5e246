use vstd::prelude::*;
use vstd::string::*;

verus! {

/// A failure of the persistent store.
#[derive(Debug, Clone, PartialEq, Eq)]
pub enum DatabaseError {
    ConnectionFailed(String),
    QueryFailed(String),
    TransactionFailed(String),
    ConstraintViolation(String),
    Timeout,
}

impl DatabaseError {
    /// The message of the error.
    pub open spec fn text(self) -> Seq<char> {
        match self {
            DatabaseError::ConnectionFailed(msg) => "Connection failed: "@ + msg@,
            DatabaseError::QueryFailed(msg) => "Query failed: "@ + msg@,
            DatabaseError::TransactionFailed(msg) => "Transaction failed: "@ + msg@,
            DatabaseError::ConstraintViolation(msg) => "Constraint violation: "@ + msg@,
            DatabaseError::Timeout => "Database timeout"@,
        }
    }

    /// Writes the message of the error.
    pub fn message(&self) -> (message: String)
        ensures
            message@ == self.text(),
    {
        match self {
            DatabaseError::ConnectionFailed(msg) => String::from_str("Connection failed: ").concat(
                msg.as_str(),
            ),
            DatabaseError::QueryFailed(msg) => String::from_str("Query failed: ").concat(
                msg.as_str(),
            ),
            DatabaseError::TransactionFailed(msg) => String::from_str(
                "Transaction failed: ",
            ).concat(msg.as_str()),
            DatabaseError::ConstraintViolation(msg) => String::from_str(
                "Constraint violation: ",
            ).concat(msg.as_str()),
            DatabaseError::Timeout => String::from_str("Database timeout"),
        }
    }
}

/// How an operation on the persistent store failed, as the store's driver reports it: the
/// class of the failure and the driver's own description.
#[derive(Debug, Clone, PartialEq, Eq)]
pub enum DbFailure {
    /// The row asked for does not exist.
    RecordNotFound,
    /// No connection to the store could be had.
    ConnectionAcquire(String),
    /// Any other failure.
    Other(String),
}

} // verus!
