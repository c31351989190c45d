//! Verified core of a DuckDB executor sidecar: the SQL text it sends, the
//! decisions it takes, and the encodings it returns.

pub mod text;
pub mod models;
pub mod sql;
pub mod executor;
pub mod types;
pub mod base64;
pub mod json;
pub mod telemetry;
pub mod temporal;
pub mod template;
