use floci_duck::base64::base64_string;
use floci_duck::json::{
    arrow_value_to_json, arrow_value_to_typed_json, base64_value, encode_row, encode_rows, insert_member, Cell, CellBatch,
    FloatClass, JsonValue, Rendered,
};
use floci_duck::models::Column;
use floci_duck::telemetry::CorrelationFields;
use floci_duck::types::{
    arrow_type_sql, column_type_sql, result_columns, with_described_types, ArrowField, ArrowType,
    LogicalKind, ResultField, TimeUnit,
};

fn text(s: &str) -> JsonValue {
    JsonValue::Text(s.to_string())
}

fn field(name: &str, t: ArrowType) -> ArrowField {
    ArrowField { name: name.to_string(), data_type: t }
}

#[test]
fn test_base64() {
    assert_eq!(base64_value(b""), text(""));
    assert_eq!(base64_value(b"f"), text("Zg=="));
    assert_eq!(base64_value(b"fo"), text("Zm8="));
    assert_eq!(base64_value(b"foo"), text("Zm9v"));
}

fn decode_base64(text: &str) -> Vec<u8> {
    const ALPHABET: &[u8; 64] = b"ABCDEFGHIJKLMNOPQRSTUVWXYZabcdefghijklmnopqrstuvwxyz0123456789+/";
    let mut out = Vec::new();
    let mut buffer = 0u32;
    let mut bits = 0;
    for byte in text.bytes().filter(|b| *b != b'=') {
        let value = ALPHABET.iter().position(|c| *c == byte).unwrap() as u32;
        buffer = (buffer << 6) | value;
        bits += 6;
        if bits >= 8 {
            bits -= 8;
            out.push((buffer >> bits) as u8);
            buffer &= (1 << bits) - 1;
        }
    }
    out
}

#[test]
fn base64_round_trips_and_has_the_expected_length() {
    for n in 0..40usize {
        let bytes: Vec<u8> = (0..n).map(|i| (i * 37 + 11) as u8).collect();
        let encoded = base64_string(&bytes);
        assert_eq!(encoded.len(), 4 * ((n + 2) / 3));
        assert_eq!(decode_base64(&encoded), bytes);
    }
    assert_eq!(base64_string(b"hi"), "aGk=");
    assert_eq!(base64_string(&[0xfb, 0xff]), "+/8=");
}

#[test]
fn duckdb_type_names() {
    let cases: Vec<(ArrowType, LogicalKind, &str)> = vec![
        (ArrowType::Decimal128(38, 9), LogicalKind::Other, "DECIMAL(38,9)"),
        (ArrowType::Decimal128(38, 0), LogicalKind::Hugeint, "HUGEINT"),
        (ArrowType::Decimal256(10, -2), LogicalKind::Other, "DECIMAL(10,-2)"),
        (ArrowType::Date32, LogicalKind::Other, "DATE"),
        (ArrowType::Timestamp(TimeUnit::Microsecond, true), LogicalKind::Other, "TIMESTAMP WITH TIME ZONE"),
        (ArrowType::Timestamp(TimeUnit::Microsecond, false), LogicalKind::Other, "TIMESTAMP"),
        (ArrowType::Timestamp(TimeUnit::Second, false), LogicalKind::Other, "TIMESTAMP_S"),
        (ArrowType::Timestamp(TimeUnit::Millisecond, false), LogicalKind::Other, "TIMESTAMP_MS"),
        (ArrowType::Timestamp(TimeUnit::Nanosecond, false), LogicalKind::Other, "TIMESTAMP_NS"),
        (ArrowType::List(Box::new(field("item", ArrowType::Int32))), LogicalKind::Other, "INTEGER[]"),
        (
            ArrowType::Struct(vec![field("x", ArrowType::Int32), field("y", ArrowType::Utf8)]),
            LogicalKind::Other,
            "STRUCT(\"x\" INTEGER, \"y\" VARCHAR)",
        ),
        (ArrowType::Binary, LogicalKind::Other, "BLOB"),
        (ArrowType::Float64, LogicalKind::Other, "DOUBLE"),
        (ArrowType::Utf8, LogicalKind::Uuid, "UUID"),
        (ArrowType::Dictionary(Box::new(ArrowType::Utf8)), LogicalKind::Enum, "ENUM"),
        (ArrowType::Dictionary(Box::new(ArrowType::Utf8)), LogicalKind::Other, "VARCHAR"),
        (ArrowType::Time64, LogicalKind::TimeTz, "TIME WITH TIME ZONE"),
        (ArrowType::Binary, LogicalKind::Bit, "BIT"),
        (ArrowType::Decimal128(38, 0), LogicalKind::UHugeint, "UHUGEINT"),
        (ArrowType::Null, LogicalKind::Other, "\"NULL\""),
        (ArrowType::Interval, LogicalKind::Other, "INTERVAL"),
        (ArrowType::UInt8, LogicalKind::Other, "UTINYINT"),
        (ArrowType::Other("RunEndEncoded".to_string()), LogicalKind::Other, "RUNENDENCODED"),
    ];
    for (t, logical, expected) in cases {
        assert_eq!(column_type_sql(&t, logical), expected);
    }
}

#[test]
fn nested_type_names() {
    let kv = ArrowType::Struct(vec![field("key", ArrowType::Utf8), field("value", ArrowType::Int64)]);
    let map = ArrowType::MapEntries(Box::new(field("entries", kv)));
    assert_eq!(arrow_type_sql(&map), "MAP(VARCHAR, BIGINT)");
    let odd = ArrowType::MapEntries(Box::new(field("entries", ArrowType::Int8)));
    assert_eq!(arrow_type_sql(&odd), "MAP");
    let quoted = ArrowType::Struct(vec![field("a\"b", ArrowType::List(Box::new(field("i", ArrowType::Boolean))))]);
    assert_eq!(arrow_type_sql(&quoted), "STRUCT(\"a\"\"b\" BOOLEAN[])");
    assert_eq!(arrow_type_sql(&ArrowType::Struct(vec![])), "STRUCT()");
}

#[test]
fn columns_take_described_types_only_when_counts_agree() {
    let fields = vec![
        ResultField { name: "j".to_string(), data_type: ArrowType::Utf8, logical: LogicalKind::Other },
        ResultField { name: "h".to_string(), data_type: ArrowType::Decimal128(38, 0), logical: LogicalKind::Hugeint },
        ResultField { name: "s".to_string(), data_type: ArrowType::Utf8, logical: LogicalKind::Other },
    ];
    let columns = result_columns(&fields);
    let types: Vec<&str> = columns.iter().map(|c| c.sql_type.as_str()).collect();
    assert_eq!(types, vec!["VARCHAR", "HUGEINT", "VARCHAR"]);

    let described = vec![
        ("j".to_string(), "JSON".to_string()),
        ("h".to_string(), "HUGEINT".to_string()),
        ("s".to_string(), "VARCHAR".to_string()),
    ];
    let merged = with_described_types(columns, Some(described));
    let types: Vec<&str> = merged.iter().map(|c| c.sql_type.as_str()).collect();
    assert_eq!(types, vec!["JSON", "HUGEINT", "VARCHAR"]);
    assert_eq!(merged[0].name, "j");

    let count = vec![Column { name: "Count".to_string(), sql_type: "BIGINT".to_string() }];
    let kept = with_described_types(count, None);
    assert_eq!(kept[0].sql_type, "BIGINT");
    let mismatched = with_described_types(kept, Some(Vec::new()));
    assert_eq!(mismatched[0].sql_type, "BIGINT");
}

#[test]
fn typed_values_are_lossless_encodings() {
    let num = Cell::Decimal(FloatClass::Finite(1.25f64.to_bits()), 1_250_000_000, 9);
    assert_eq!(arrow_value_to_typed_json(&num), text("1.250000000"));
    assert_eq!(arrow_value_to_json(&num, "Decimal128(38, 9)"), JsonValue::Float(1.25f64.to_bits()));

    let ts = Cell::Timestamp(1_704_164_645_123_456, TimeUnit::Microsecond, true);
    assert_eq!(arrow_value_to_typed_json(&ts), text("2024-01-02T03:04:05.123456Z"));
    let dt = Cell::Timestamp(1_704_164_645_000_000, TimeUnit::Microsecond, false);
    assert_eq!(arrow_value_to_typed_json(&dt), text("2024-01-02T03:04:05"));
    let secs = Cell::Timestamp(1_704_164_645, TimeUnit::Second, false);
    assert_eq!(arrow_value_to_typed_json(&secs), text("2024-01-02T03:04:05"));
    let millis = Cell::Timestamp(1_704_164_645_120, TimeUnit::Millisecond, true);
    assert_eq!(arrow_value_to_typed_json(&millis), text("2024-01-02T03:04:05.120Z"));
    let nanos = Cell::Timestamp(1, TimeUnit::Nanosecond, false);
    assert_eq!(arrow_value_to_typed_json(&nanos), text("1970-01-01T00:00:00.000000001"));
    let far = Cell::Timestamp(i64::MAX, TimeUnit::Second, true);
    assert_eq!(arrow_value_to_typed_json(&far), JsonValue::Null);

    let arr = Cell::List(vec![Cell::Int(1), Cell::Int(2)]);
    assert_eq!(arrow_value_to_typed_json(&arr), JsonValue::Array(vec![JsonValue::Int(1), JsonValue::Int(2)]));
    assert_eq!(arrow_value_to_json(&arr, "List(Int32)"), text("[List(Int32)]"));

    let st = Cell::Struct(vec![("x".to_string(), Cell::Int(1)), ("y".to_string(), Cell::Utf8("z".to_string()))]);
    assert_eq!(
        arrow_value_to_typed_json(&st),
        JsonValue::Object(vec![("x".to_string(), JsonValue::Int(1)), ("y".to_string(), text("z"))])
    );

    let blob = Cell::Binary(b"hi".to_vec());
    assert_eq!(arrow_value_to_typed_json(&blob), text("aGk="));
    assert_eq!(arrow_value_to_json(&blob, "Binary"), text("[Binary]"));

    let nan = Cell::Float(FloatClass::NotANumber);
    assert_eq!(arrow_value_to_typed_json(&nan), text("NaN"));
    assert_eq!(arrow_value_to_json(&nan, "Float64"), JsonValue::Null);
    assert_eq!(arrow_value_to_typed_json(&Cell::Float(FloatClass::PositiveInfinity)), text("Infinity"));
    assert_eq!(arrow_value_to_typed_json(&Cell::Float(FloatClass::NegativeInfinity)), text("-Infinity"));

    let date = Cell::Date32(19724);
    assert_eq!(arrow_value_to_typed_json(&date), text("2024-01-02"));
    assert_eq!(arrow_value_to_json(&date, "Date32"), text("[Date32]"));
    let interval = Cell::Other(Rendered::Text("1 mons".to_string()));
    assert_eq!(arrow_value_to_typed_json(&interval), text("1 mons"));
    let odd = Cell::Other(Rendered::Unsupported("Union".to_string()));
    assert_eq!(arrow_value_to_typed_json(&odd), text("[Union]"));

    let map = Cell::Entries(vec![(Cell::Utf8("k".to_string()), Cell::Null)]);
    assert_eq!(
        arrow_value_to_typed_json(&map),
        JsonValue::Array(vec![JsonValue::Object(vec![
            ("key".to_string(), text("k")),
            ("value".to_string(), JsonValue::Null),
        ])])
    );
}

#[test]
fn decimals_render_exactly() {
    let cases: Vec<(i128, i8, &str)> = vec![
        (12345, 2, "123.45"),
        (-5, 3, "-0.005"),
        (0, -2, "0"),
        (12345, -2, "1234500"),
        (0, 2, "0.00"),
        (45, 3, "0.045"),
        (-12345, 2, "-123.45"),
        (12345, 0, "12345"),
        (12345, 5, "0.12345"),
        (i128::MIN, 38, "-1.70141183460469231731687303715884105728"),
    ];
    for (v, scale, expected) in cases {
        let c = Cell::Decimal(FloatClass::NotANumber, v, scale);
        assert_eq!(arrow_value_to_typed_json(&c), text(expected));
        assert_eq!(arrow_value_to_json(&c, "Decimal128(38, 9)"), JsonValue::Null);
    }
}

#[test]
fn wide_decimals_render_exactly() {
    let cases: Vec<(i128, u128, i8, &str)> = vec![
        (0, 12345, 2, "123.45"),
        (-1, u128::MAX - 12344, 2, "-123.45"),
        (0, 7, 0, "7"),
        (1, 0, 0, "340282366920938463463374607431768211456"),
        (0, 5, -2, "500"),
    ];
    for (high, low, scale, expected) in cases {
        let c = Cell::Decimal256(high, low, scale);
        assert_eq!(arrow_value_to_typed_json(&c), text(expected));
    }
}

#[test]
fn dates_times_and_intervals_render_as_arrow_shows_them() {
    assert_eq!(arrow_value_to_typed_json(&Cell::Date32(0)), text("1970-01-01"));
    assert_eq!(arrow_value_to_typed_json(&Cell::Date32(-1)), text("1969-12-31"));
    assert_eq!(arrow_value_to_typed_json(&Cell::Time64Micros(11_045_000_000)), text("03:04:05"));
    assert_eq!(arrow_value_to_typed_json(&Cell::Time64Micros(11_045_123_456)), text("03:04:05.123456"));
    assert_eq!(arrow_value_to_typed_json(&Cell::Time64Nanos(1_500_000_000)), text("00:00:01.500"));
    assert_eq!(
        arrow_value_to_typed_json(&Cell::Interval(1, 2, 3_723_500_000_000)),
        text("1 mons 2 days 1 hours 2 mins 3.500000000 secs")
    );
    assert_eq!(arrow_value_to_typed_json(&Cell::Interval(0, 0, 0)), text("0 secs"));
    assert_eq!(
        arrow_value_to_json(&Cell::Time64Micros(0), "Time64(Microsecond)"),
        text("[Time64(Microsecond)]")
    );
}

#[test]
fn dates_out_of_range_show_the_formatter_error() {
    // DuckDB's infinite date is `i32::MAX` days: beyond chrono's calendar.
    assert_eq!(
        arrow_value_to_typed_json(&Cell::Date32(i32::MAX)),
        text("ERROR: Cast error: Failed to convert 2147483647 to temporal for Date32")
    );
    match arrow_value_to_typed_json(&Cell::Time64Micros(-1)) {
        JsonValue::Text(t) => assert!(t.starts_with("ERROR: Cast error: Failed to convert -1")),
        other => panic!("unexpected {:?}", other),
    }
}

#[test]
fn plain_scalars_encode_alike_in_both_modes() {
    let cells = vec![
        Cell::Null,
        Cell::Bool(true),
        Cell::Int(-7),
        Cell::UInt(42),
        Cell::Utf8("hello".to_string()),
        Cell::Float(FloatClass::Finite(2.5f64.to_bits())),
    ];
    for c in &cells {
        assert_eq!(arrow_value_to_typed_json(c), arrow_value_to_json(c, "T"));
    }
}

#[test]
fn rows_keep_one_member_per_name() {
    let names = vec!["a".to_string(), "b".to_string(), "a".to_string()];
    let cells = vec![Cell::Int(1), Cell::Int(2), Cell::Int(3)];
    let debugs = vec!["Int32".to_string(), "Int32".to_string(), "Int32".to_string()];
    let row = encode_row(&names, &cells, &debugs, false);
    assert_eq!(row, vec![("a".to_string(), JsonValue::Int(3)), ("b".to_string(), JsonValue::Int(2))]);

    let mut obj = Vec::new();
    insert_member(&mut obj, "k".to_string(), JsonValue::Bool(false));
    insert_member(&mut obj, "k".to_string(), JsonValue::Bool(true));
    assert_eq!(obj, vec![("k".to_string(), JsonValue::Bool(true))]);

    let answer = encode_row(&vec!["answer".to_string()], &vec![Cell::Int(42)], &vec!["Int32".to_string()], true);
    assert_eq!(answer, vec![("answer".to_string(), JsonValue::Int(42))]);
}

#[test]
fn correlation_id_is_shown_bare() {
    let f = CorrelationFields;
    assert_eq!(f.render_field(true, "correlation_id", "abc"), "abc");
    assert_eq!(f.render_field(false, "correlation_id", "abc"), "abc");
    assert_eq!(f.render_field(true, "message", "hello"), "hello");
    assert_eq!(f.render_field(false, "message", "hello"), " hello");
    assert_eq!(f.render_field(false, "endpoint", "floci:4566"), " endpoint=floci:4566");
    assert_eq!(f.render_field(true, "region", "us-east-1"), "region=us-east-1");
}

#[test]
fn objects_keep_their_members_in_key_order() {
    let names = vec!["zeta".to_string(), "Alpha".to_string(), "alpha".to_string(), "al".to_string()];
    let cells = vec![Cell::Int(1), Cell::Int(2), Cell::Int(3), Cell::Int(4)];
    let debugs = vec!["Int64".to_string(); 4];
    let row = encode_row(&names, &cells, &debugs, true);
    let keys: Vec<&str> = row.iter().map(|(k, _)| k.as_str()).collect();
    assert_eq!(keys, vec!["Alpha", "al", "alpha", "zeta"]);

    let st = Cell::Struct(vec![
        ("y".to_string(), Cell::Utf8("z".to_string())),
        ("x".to_string(), Cell::Int(1)),
    ]);
    assert_eq!(
        arrow_value_to_typed_json(&st),
        JsonValue::Object(vec![("x".to_string(), JsonValue::Int(1)), ("y".to_string(), text("z"))])
    );
}

#[test]
fn rows_follow_batch_and_row_order() {
    let batch = |values: Vec<i64>| CellBatch {
        names: vec!["v".to_string()],
        type_debugs: vec!["Int64".to_string()],
        rows: values.into_iter().map(|v| vec![Cell::Int(v)]).collect(),
    };
    let rows = encode_rows(&vec![batch(vec![1, 2]), batch(vec![]), batch(vec![3])], false);
    let values: Vec<&JsonValue> = rows.iter().map(|r| &r[0].1).collect();
    assert_eq!(values, vec![&JsonValue::Int(1), &JsonValue::Int(2), &JsonValue::Int(3)]);
    assert!(rows.iter().all(|r| r.len() == 1 && r[0].0 == "v"));
    assert!(encode_rows(&Vec::new(), true).is_empty());
}
