//! The error taxonomy of the query pipeline.

use vstd::prelude::*;
use vstd::string::StringExecFns;

verus! {

/// Everything that can go wrong between receiving a query and producing
/// its encoded result.
#[derive(Debug, PartialEq, Eq)]
pub enum SqlError {
    /// The database URI's scheme matches no known backend. Rejected before
    /// any connection attempt; carries the offending URI.
    UnsupportedDatabase { db: String },
    /// The URI requested an `sslmode` outside the recognized set. Rejected
    /// before any network attempt; carries the offending mode.
    UnsupportedSslMode { mode: String },
    /// Establishing the connection failed (transport or authentication).
    ConnectionError { message: String },
    /// The database engine rejected the statement.
    QueryError { message: String },
    /// A result column's wire type has no JSON mapping; the whole query
    /// fails rather than emitting partial rows.
    UnsupportedType { column: String, wire_type: String },
}

/// The human-readable message of each error, character for character.
pub open spec fn message_text(e: SqlError) -> Seq<char> {
    match e {
        SqlError::UnsupportedDatabase { db } => "Unsupported database type "@ + db@,
        SqlError::UnsupportedSslMode { mode } => "Unsupported sslmode "@ + mode@,
        SqlError::ConnectionError { message } => message@,
        SqlError::QueryError { message } => message@,
        SqlError::UnsupportedType { column, wire_type } =>
            "Could not convert column '"@ + column@ + "' to json - unsupported column type '"@
                + wire_type@ + "'"@,
    }
}

impl SqlError {
    /// The human-readable message for this error.
    pub fn message(&self) -> (r: String)
        ensures
            r@ == message_text(*self),
    {
        match self {
            SqlError::UnsupportedDatabase { db } => {
                let mut out = String::new();
                out.append("Unsupported database type ");
                out.append(db.as_str());
                out
            },
            SqlError::UnsupportedSslMode { mode } => {
                let mut out = String::new();
                out.append("Unsupported sslmode ");
                out.append(mode.as_str());
                out
            },
            SqlError::ConnectionError { message } => message.clone(),
            SqlError::QueryError { message } => message.clone(),
            SqlError::UnsupportedType { column, wire_type } => {
                let mut out = String::new();
                out.append("Could not convert column '");
                out.append(column.as_str());
                out.append("' to json - unsupported column type '");
                out.append(wire_type.as_str());
                out.append("'");
                proof {
                    assert(out@ =~= message_text(*self));
                }
                out
            },
        }
    }
}

} // verus!
