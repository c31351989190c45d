# floci_duck

The verified core of a DuckDB executor sidecar for Floci: an HTTP service
that runs SQL on DuckDB with S3 access (`/execute` for Firehose and Athena
mode, `/query` for rows).

- `src/` is the library, verified with Verus: the SQL text sent to DuckDB
  (quoting, `{{key}}` substitution and what it fills in a template, S3 and
  extension settings, Athena's CSV export), the order in which a request's
  statements run and when a run stops (`executor::BatchRun`, and
  `executor::QueryRun` for `/query` with its follow-up), result column type
  names, the legacy and lossless JSON encodings of result values (decimals,
  dates, times, intervals and timestamps rendered through Arrow), base64, and
  the log-field format.
- `app/` is the server around it: axum handlers, the DuckDB connection, the
  reading of Arrow results into the library's value model, and logging.
- `tests/` exercises the library on concrete values.

DuckDB itself is linked only by `app/`.
