use daprox::api::{ApiResponse, HttpApiError};
use daprox::convert::{ColumnInfo, RawValue, ScalarType, ScalarValue, SqlRow, WireType};
use daprox::dispatch::{backend_for_uri, render_result, BackendKind, SqlQuery};
use daprox::encode::SqlOutputFormat;
use daprox::error::SqlError;
use daprox::json::JsonValue;

fn s(v: &str) -> String {
    v.to_string()
}

#[test]
fn postgres_scheme_selects_the_postgres_backend() {
    assert_eq!(backend_for_uri("postgres://host/db").unwrap(), BackendKind::Postgres);
}

#[test]
fn unrecognized_scheme_fails_before_any_connection_attempt() {
    let e = backend_for_uri("mysql://host/db").unwrap_err();
    assert_eq!(e, SqlError::UnsupportedDatabase { db: s("mysql://host/db") });
    assert_eq!(e.message(), "Unsupported database type mysql://host/db");
    assert!(backend_for_uri("postgres:/host/db").is_err());
    assert!(backend_for_uri("").is_err());
}

#[test]
fn query_record_carries_statement_and_database() {
    let q = SqlQuery {
        query: s("SELECT 1 as v"),
        args: None,
        kw_args: None,
        db: s("postgres://host/db"),
    };
    assert_eq!(q.query, "SELECT 1 as v");
    assert_eq!(backend_for_uri(&q.db).unwrap(), BackendKind::Postgres);
}

#[test]
fn conversion_failure_aborts_the_whole_render() {
    let rows = vec![SqlRow {
        columns: vec![ColumnInfo { name: s("when"), ty: WireType::Other(s("timestamptz")) }],
        values: vec![RawValue::Scalar(ScalarValue::Int(0))],
    }];
    let e = render_result(SqlOutputFormat::Json, rows).unwrap_err();
    assert_eq!(e, SqlError::UnsupportedType { column: s("when"), wire_type: s("timestamptz") });
}

#[test]
fn api_response_wraps_data_without_errors() {
    let r = ApiResponse::from_data(s("payload"));
    assert_eq!(r.data, Some(s("payload")));
    assert!(r.errors.is_none());
}

#[test]
fn http_api_error_serializes_as_message_object() {
    let e = HttpApiError { message: s("boom") };
    assert_eq!(
        e.to_json(),
        JsonValue::Object(vec![(s("message"), JsonValue::Str(s("boom")))])
    );
    let e = HttpApiError::from_anyhow(anyhow::Error::msg("it broke"));
    assert_eq!(e.message, "it broke");
}

#[test]
fn sql_errors_render_their_messages() {
    let e = HttpApiError::from_sql_error(&SqlError::ConnectionError { message: s("refused") });
    assert_eq!(e.message, "refused");
    let e = HttpApiError::from_sql_error(&SqlError::QueryError { message: s("syntax error") });
    assert_eq!(e.message, "syntax error");
    let e = HttpApiError::from_sql_error(&SqlError::UnsupportedSslMode { mode: s("odd") });
    assert_eq!(e.message, "Unsupported sslmode odd");
}
