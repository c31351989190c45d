//! The result-side scenarios of the service, on the values DuckDB reports for
//! the statements they name.

use floci_duck::json::{encode_row, Cell, FloatClass, JsonValue};
use floci_duck::models::Column;
use floci_duck::types::{
    result_columns, with_described_types, ArrowField, ArrowType, LogicalKind, ResultField, TimeUnit,
};

fn field(name: &str, t: ArrowType) -> ArrowField {
    ArrowField { name: name.to_string(), data_type: t }
}

fn result_field(name: &str, t: ArrowType, logical: LogicalKind) -> ResultField {
    ResultField { name: name.to_string(), data_type: t, logical }
}

/// The schema DuckDB reports for
/// `SELECT 1.25::DECIMAL(38,9) AS num, DATE '2024-01-02' AS d,
///  TIMESTAMPTZ '2024-01-02 03:04:05.123456+00' AS ts, TIMESTAMP '2024-01-02 03:04:05' AS dt,
///  [1, 2] AS arr, {'x': 1, 'y': 'z'} AS st, 'hi'::BLOB AS b, count_if(true) AS c,
///  'NaN'::DOUBLE AS nan`.
fn typed_sql_fields() -> Vec<ResultField> {
    vec![
        result_field("num", ArrowType::Decimal128(38, 9), LogicalKind::Other),
        result_field("d", ArrowType::Date32, LogicalKind::Other),
        result_field("ts", ArrowType::Timestamp(TimeUnit::Microsecond, true), LogicalKind::Other),
        result_field("dt", ArrowType::Timestamp(TimeUnit::Microsecond, false), LogicalKind::Other),
        result_field("arr", ArrowType::List(Box::new(field("l", ArrowType::Int32))), LogicalKind::Other),
        result_field(
            "st",
            ArrowType::Struct(vec![field("x", ArrowType::Int32), field("y", ArrowType::Utf8)]),
            LogicalKind::Other,
        ),
        result_field("b", ArrowType::Binary, LogicalKind::Other),
        result_field("c", ArrowType::Decimal128(38, 0), LogicalKind::Hugeint),
        result_field("nan", ArrowType::Float64, LogicalKind::Other),
    ]
}

/// The one row of that statement, with each column's `Debug` type name.
fn typed_sql_row() -> (Vec<String>, Vec<Cell>, Vec<String>) {
    let names = ["num", "d", "ts", "dt", "arr", "st", "b", "c", "nan"];
    let cells = vec![
        Cell::Decimal(FloatClass::Finite(1.25f64.to_bits()), 1_250_000_000, 9),
        Cell::Date32(19724),
        Cell::Timestamp(1_704_164_645_123_456, TimeUnit::Microsecond, true),
        Cell::Timestamp(1_704_164_645_000_000, TimeUnit::Microsecond, false),
        Cell::List(vec![Cell::Int(1), Cell::Int(2)]),
        Cell::Struct(vec![("x".to_string(), Cell::Int(1)), ("y".to_string(), Cell::Utf8("z".to_string()))]),
        Cell::Binary(b"hi".to_vec()),
        Cell::Decimal(FloatClass::Finite(1.0f64.to_bits()), 1, 0),
        Cell::Float(FloatClass::NotANumber),
    ];
    let debugs = [
        "Decimal128(38, 9)",
        "Date32",
        "Timestamp(Microsecond, Some(\"UTC\"))",
        "Timestamp(Microsecond, None)",
        "List(Field { name: \"l\", data_type: Int32, nullable: true })",
        "Struct(x Int32, y Utf8)",
        "Binary",
        "Decimal128(38, 0)",
        "Float64",
    ];
    (
        names.iter().map(|s| s.to_string()).collect(),
        cells,
        debugs.iter().map(|s| s.to_string()).collect(),
    )
}

fn member<'a>(row: &'a [(String, JsonValue)], name: &str) -> &'a JsonValue {
    &row.iter().find(|(k, _)| k == name).unwrap().1
}

fn text(s: &str) -> JsonValue {
    JsonValue::Text(s.to_string())
}

#[test]
fn test_query_returning_in_memory() {
    // `SELECT 42 AS answer, 'hello' AS greeting`: the names come from the schema.
    let columns = result_columns(&vec![
        result_field("answer", ArrowType::Int32, LogicalKind::Other),
        result_field("greeting", ArrowType::Utf8, LogicalKind::Other),
    ]);
    let names: Vec<String> = columns.iter().map(|c| c.name.clone()).collect();
    assert_eq!(names, vec!["answer", "greeting"]);
    let row = encode_row(
        &names,
        &vec![Cell::Int(42), Cell::Utf8("hello".to_string())],
        &vec!["Int32".to_string(), "Utf8".to_string()],
        false,
    );
    assert_eq!(row.len(), 2);
    assert_eq!(*member(&row, "answer"), JsonValue::Int(42));
    assert_eq!(*member(&row, "greeting"), text("hello"));
}

#[test]
fn test_columns_report_duckdb_types() {
    let columns = result_columns(&typed_sql_fields());
    let types: Vec<(&str, &str)> =
        columns.iter().map(|c| (c.name.as_str(), c.sql_type.as_str())).collect();
    assert_eq!(
        types,
        vec![
            ("num", "DECIMAL(38,9)"),
            ("d", "DATE"),
            ("ts", "TIMESTAMP WITH TIME ZONE"),
            ("dt", "TIMESTAMP"),
            ("arr", "INTEGER[]"),
            ("st", "STRUCT(\"x\" INTEGER, \"y\" VARCHAR)"),
            ("b", "BLOB"),
            ("c", "HUGEINT"),
            ("nan", "DOUBLE"),
        ]
    );
}

#[test]
fn test_described_types_keep_type_aliases() {
    // `SELECT '{"a": 1}'::JSON AS j, 1::HUGEINT AS h, 'x' AS s`: Arrow reports JSON as VARCHAR.
    let columns = result_columns(&vec![
        result_field("j", ArrowType::Utf8, LogicalKind::Other),
        result_field("h", ArrowType::Decimal128(38, 0), LogicalKind::Hugeint),
        result_field("s", ArrowType::Utf8, LogicalKind::Other),
    ]);
    let described = vec![
        ("j".to_string(), "JSON".to_string()),
        ("h".to_string(), "HUGEINT".to_string()),
        ("s".to_string(), "VARCHAR".to_string()),
    ];
    let columns = with_described_types(columns, Some(described));
    let types: Vec<&str> = columns.iter().map(|c| c.sql_type.as_str()).collect();
    assert_eq!(types, vec!["JSON", "HUGEINT", "VARCHAR"]);

    // DML cannot be described; the Arrow-derived names remain.
    let insert = result_columns(&vec![result_field("Count", ArrowType::Int64, LogicalKind::Other)]);
    let columns = with_described_types(insert, None);
    assert_eq!(columns[0].sql_type, "BIGINT");
}

#[test]
fn test_columns_present_for_empty_results() {
    // `SELECT 1 AS a, 'x' AS b WHERE false`: no rows, two columns. The rows
    // are whatever the statement returned; the columns come from its schema
    // alone, so they are there when no row is.
    let columns: Vec<Column> = result_columns(&vec![
        result_field("a", ArrowType::Int32, LogicalKind::Other),
        result_field("b", ArrowType::Utf8, LogicalKind::Other),
    ]);
    assert_eq!(columns.len(), 2);
    assert_eq!(columns[0].sql_type, "INTEGER");
    assert_eq!(columns[1].sql_type, "VARCHAR");
}

#[test]
fn test_typed_values_are_lossless() {
    let (names, cells, debugs) = typed_sql_row();
    let row = encode_row(&names, &cells, &debugs, true);
    assert_eq!(*member(&row, "num"), text("1.250000000"));
    assert_eq!(*member(&row, "d"), text("2024-01-02"));
    assert_eq!(*member(&row, "ts"), text("2024-01-02T03:04:05.123456Z"));
    assert_eq!(*member(&row, "dt"), text("2024-01-02T03:04:05"));
    assert_eq!(*member(&row, "arr"), JsonValue::Array(vec![JsonValue::Int(1), JsonValue::Int(2)]));
    assert_eq!(
        *member(&row, "st"),
        JsonValue::Object(vec![("x".to_string(), JsonValue::Int(1)), ("y".to_string(), text("z"))])
    );
    assert_eq!(*member(&row, "b"), text("aGk="));
    assert_eq!(*member(&row, "c"), text("1"));
    assert_eq!(*member(&row, "nan"), text("NaN"));
}

#[test]
fn test_untyped_values_keep_the_legacy_encoding() {
    let (names, cells, debugs) = typed_sql_row();
    let row = encode_row(&names, &cells, &debugs, false);
    assert_eq!(*member(&row, "num"), JsonValue::Float(1.25f64.to_bits()));
    assert_eq!(*member(&row, "d"), text("[Date32]"));
    match member(&row, "arr") {
        JsonValue::Text(s) => assert!(s.starts_with("[List(")),
        other => panic!("unexpected {:?}", other),
    }
    assert_eq!(*member(&row, "nan"), JsonValue::Null);
}
