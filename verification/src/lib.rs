//! A verified core for a SQL-to-JSON gateway: it decides how to connect to
//! a database (encrypted or plaintext transport), converts raw database
//! cells into JSON values, and renders result sets in four output
//! encodings.

pub mod api;
pub mod connect;
pub mod convert;
pub mod dispatch;
pub mod encode;
pub mod error;
pub mod json;

pub use connect::{ConnectPlan, SslPolicy};
pub use convert::{ColumnInfo, RawValue, ScalarType, ScalarValue, SqlRow, WireType};
pub use dispatch::SqlQuery;
pub use encode::SqlOutputFormat;
pub use error::SqlError;
pub use json::JsonValue;
