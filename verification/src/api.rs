//! The API response envelope the HTTP layer sends: either data or a list
//! of error messages.

use vstd::prelude::*;
use crate::json::JsonValue;
use crate::error::SqlError;
use crate::error::message_text;

verus! {

/// A handler failure, wrapping the pipeline error it stems from.
#[derive(Debug, PartialEq, Eq)]
pub struct HandlerError(pub SqlError);

/// One error message as the HTTP layer serializes it.
#[derive(Debug, PartialEq, Eq, Clone)]
pub struct HttpApiError {
    pub message: String,
}

/// The response envelope: data on success, error messages on failure.
#[derive(Debug, PartialEq, Eq, Clone)]
pub struct ApiResponse<T> {
    pub data: Option<T>,
    pub errors: Option<Vec<HttpApiError>>,
}

impl<T> ApiResponse<T> {
    /// A successful envelope carrying `data` and no errors.
    pub fn from_data(data: T) -> (r: Self)
        ensures
            r.data == Some(data),
            r.errors is None,
    {
        Self { data: Some(data), errors: None }
    }
}

/// Declares `anyhow::Error` so signatures may carry it; the value is
/// opaque here, read only through [`HttpApiError::from_anyhow`].
#[verifier::external_type_specification]
#[verifier::external_body]
pub struct ExAnyhowError(anyhow::Error);

/// Relies on `anyhow::Error`'s `Display` implementation: renders the
/// error's message.
#[verifier::external_body]
fn anyhow_message(err: &anyhow::Error) -> String {
    err.to_string()
}

impl HttpApiError {
    /// Wraps a dynamic error's message.
    pub fn from_anyhow(err: anyhow::Error) -> Self {
        Self { message: anyhow_message(&err) }
    }

    /// Wraps a pipeline error's message.
    pub fn from_sql_error(err: &SqlError) -> (r: Self)
        ensures
            r.message@ == message_text(*err),
    {
        Self { message: err.message() }
    }

    /// The JSON shape of this error: an object with one `message` entry.
    pub fn to_json(&self) -> (r: JsonValue)
        ensures
            r matches JsonValue::Object(entries) && entries@.len() == 1 && entries@[0].0@
                == "message"@ && entries@[0].1 == JsonValue::Str(self.message),
    {
        let entries: Vec<(String, JsonValue)> = vec![
            ("message".to_owned(), JsonValue::Str(self.message.clone())),
        ];
        JsonValue::Object(entries)
    }
}

} // verus!
