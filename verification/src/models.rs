//! Requests and responses of the service, as plain values.

use vstd::prelude::*;
use crate::json::JsonValue;

verus! {

/// A request to `/execute`: one statement, run for its effects.
pub struct ExecuteRequest {
    pub sql: String,
    pub s3_endpoint: String,
    pub s3_region: Option<String>,
    pub s3_access_key: Option<String>,
    pub s3_secret_key: Option<String>,
    pub s3_use_ssl: Option<bool>,
    pub s3_url_style: Option<String>,
    /// When present, the query's result is written to this S3 path as CSV.
    pub output_s3_path: Option<String>,
    pub setup_sql: Option<String>,
    /// Placeholder values, substituted as `{{key}}`, in this order.
    pub variables: Option<Vec<(String, String)>>,
}

/// The reply to `/execute`.
pub struct ExecuteResponse {
    pub status: String,
    pub message: Option<String>,
}

/// A request to `/query`: runs SQL and returns its rows.
/// S3 fields mirror `ExecuteRequest` so callers can share the same config.
pub struct QueryRequest {
    pub sql: String,
    pub s3_endpoint: String,
    pub s3_region: Option<String>,
    pub s3_access_key: Option<String>,
    pub s3_secret_key: Option<String>,
    pub s3_use_ssl: Option<bool>,
    pub s3_url_style: Option<String>,
    pub setup_sql: Option<String>,
    /// When true, row values are encoded losslessly (exact decimals, ISO-8601
    /// temporals, nested lists/structs, base64 blobs).
    pub typed_values: bool,
    /// Optional statement run after `sql` on the same connection; its result is
    /// returned as `followup`.
    pub followup_sql: Option<String>,
    /// When true, the result is returned as Arrow IPC messages instead of rows.
    pub arrow_ipc: bool,
}

/// A result column: its name and DuckDB SQL type, as `DESCRIBE` would print it.
#[derive(Debug, PartialEq)]
pub struct Column {
    pub name: String,
    pub sql_type: String,
}

/// One record batch as an encapsulated Arrow IPC message, in base64.
#[derive(Debug, PartialEq)]
pub struct ArrowIpcBatch {
    pub data: String,
    pub row_count: usize,
}

/// A result as Arrow IPC: the schema message and the batch messages, in base64.
#[derive(Debug, PartialEq)]
pub struct ArrowIpc {
    pub schema: String,
    pub batches: Vec<ArrowIpcBatch>,
}

/// The service's environment settings (`FLOCI_DUCK_*`) that shape the SQL it
/// sends; each is `None` when the variable is unset.
pub struct EnvDefaults {
    /// `FLOCI_DUCK_EXT_DIR`
    pub extension_dir: Option<String>,
    /// `FLOCI_DUCK_S3_REGION`
    pub s3_region: Option<String>,
    /// `FLOCI_DUCK_S3_ACCESS_KEY`
    pub s3_access_key: Option<String>,
    /// `FLOCI_DUCK_S3_SECRET_KEY`
    pub s3_secret_key: Option<String>,
    /// `FLOCI_DUCK_S3_USE_SSL`, as written
    pub s3_use_ssl: Option<String>,
    /// `FLOCI_DUCK_S3_URL_STYLE`
    pub s3_url_style: Option<String>,
}

/// The view of an optional string.
pub open spec fn opt_view(o: Option<String>) -> Option<Seq<char>> {
    match o {
        Some(s) => Some(s@),
        None => None,
    }
}

impl ExecuteResponse {
    /// The reply to a statement that ran.
    pub fn success() -> (r: ExecuteResponse)
        ensures
            r.status@ == "success"@,
            r.message is None,
    {
        ExecuteResponse { status: "success".to_owned(), message: None }
    }

    /// The reply to a statement that failed with `message`.
    pub fn failure(message: String) -> (r: ExecuteResponse)
        ensures
            r.status@ == "error"@,
            r.message == Some(message),
    {
        ExecuteResponse { status: "error".to_owned(), message: Some(message) }
    }
}

/// One row of a result: each column's value under its name.
pub type Row = Vec<(String, JsonValue)>;

/// Columns and rows of one statement's result.
pub struct QueryResult {
    pub columns: Vec<Column>,
    pub rows: Vec<Row>,
}

/// What a `/query` request produced: the statement's columns and rows (or its
/// Arrow IPC messages), and the follow-up's result.
pub struct QueryOutput {
    pub columns: Vec<Column>,
    pub rows: Vec<Row>,
    pub followup: Option<QueryResult>,
    pub arrow: Option<ArrowIpc>,
}

/// The reply to `/query`.
pub struct QueryResponse {
    pub status: String,
    pub columns: Option<Vec<Column>>,
    pub rows: Option<Vec<Row>>,
    pub followup: Option<QueryResult>,
    pub arrow: Option<ArrowIpc>,
    pub message: Option<String>,
}

impl QueryResponse {
    /// The reply to a query that ran: everything it produced, no message.
    pub fn success(output: QueryOutput) -> (r: QueryResponse)
        ensures
            r.status@ == "success"@,
            r.columns == Some(output.columns),
            r.rows == Some(output.rows),
            r.followup == output.followup,
            r.arrow == output.arrow,
            r.message is None,
    {
        QueryResponse {
            status: "success".to_owned(),
            columns: Some(output.columns),
            rows: Some(output.rows),
            followup: output.followup,
            arrow: output.arrow,
            message: None,
        }
    }

    /// The reply to a query that failed with `message`: nothing else.
    pub fn failure(message: String) -> (r: QueryResponse)
        ensures
            r.status@ == "error"@,
            r.columns is None,
            r.rows is None,
            r.followup is None,
            r.arrow is None,
            r.message == Some(message),
    {
        QueryResponse {
            status: "error".to_owned(),
            columns: None,
            rows: None,
            followup: None,
            arrow: None,
            message: Some(message),
        }
    }
}

} // verus!
