//! The library's laws, on concrete values.

use floci_duck::base64::base64_string;
use floci_duck::executor::{BatchAction, BatchEvent, BatchRun};
use floci_duck::json::{
    arrow_value_to_json, arrow_value_to_typed_json, encode_row, insert_member, Cell, FloatClass, JsonValue,
};
use floci_duck::models::{ArrowIpc, Column, ExecuteResponse, QueryOutput, QueryResponse};
use floci_duck::sql::{apply_variables, escape_sql};

fn unquote(s: &str) -> String {
    s.replace("''", "'")
}

#[test]
fn escaping_round_trips() {
    for s in ["", "'", "''", "a'b'c", "O'Brien", "x"] {
        assert_eq!(unquote(&escape_sql(s)), s);
    }
}

#[test]
fn plain_sql_passes_through_substitution() {
    let vars = vec![("t".to_string(), "x".to_string())];
    assert_eq!(apply_variables("SELECT * FROM t WHERE a = 't'", &vars), "SELECT * FROM t WHERE a = 't'");
}

#[test]
fn successful_run_executes_each_batch_once_in_order() {
    let script = vec!["A".to_string(), "B".to_string(), "C".to_string()];
    let mut run = BatchRun::new(script.clone());
    let mut actions = vec![run.start()];
    for _ in 0..3 {
        actions.push(run.step(BatchEvent::Succeeded));
    }
    let executed: Vec<String> = actions
        .iter()
        .filter_map(|a| match a {
            BatchAction::Execute(s) => Some(s.clone()),
            _ => None,
        })
        .collect();
    assert_eq!(executed, script);
    assert!(matches!(actions[3], BatchAction::Finished));
}

#[test]
fn failure_stops_the_run_for_good() {
    let mut run = BatchRun::new(vec!["A".to_string(), "B".to_string(), "C".to_string()]);
    assert!(matches!(run.start(), BatchAction::Execute(ref s) if s == "A"));
    assert!(matches!(run.step(BatchEvent::Succeeded), BatchAction::Execute(ref s) if s == "B"));
    assert!(matches!(run.step(BatchEvent::Failed), BatchAction::Aborted));
    for _ in 0..3 {
        assert!(matches!(run.step(BatchEvent::Succeeded), BatchAction::Aborted));
    }
}

#[test]
fn base64_length_law() {
    for n in [0usize, 1, 2, 3, 4, 5, 6, 7, 100] {
        assert_eq!(base64_string(&vec![0xAB; n]).len(), 4 * ((n + 2) / 3));
    }
}

#[test]
fn read_after_insert() {
    let mut obj = Vec::new();
    insert_member(&mut obj, "a".to_string(), JsonValue::Int(1));
    insert_member(&mut obj, "b".to_string(), JsonValue::Int(2));
    insert_member(&mut obj, "a".to_string(), JsonValue::Int(3));
    let get = |k: &str| obj.iter().find(|(n, _)| n == k).map(|(_, v)| v);
    assert_eq!(get("a"), Some(&JsonValue::Int(3)));
    assert_eq!(get("b"), Some(&JsonValue::Int(2)));
    assert_eq!(obj.len(), 2);
}

#[test]
fn typed_and_legacy_agree_on_finite_doubles() {
    let c = Cell::Float(FloatClass::Finite(0.1f64.to_bits()));
    assert_eq!(arrow_value_to_typed_json(&c), arrow_value_to_json(&c, "Float64"));
    assert_eq!(arrow_value_to_typed_json(&c), JsonValue::Float(0.1f64.to_bits()));
}

#[test]
fn responses_carry_status_and_message() {
    let ok = ExecuteResponse::success();
    assert_eq!(ok.status, "success");
    assert_eq!(ok.message, None);
    let err = ExecuteResponse::failure("boom".to_string());
    assert_eq!(err.status, "error");
    assert_eq!(err.message, Some("boom".to_string()));

    let output = QueryOutput {
        columns: vec![Column { name: "a".to_string(), sql_type: "INTEGER".to_string() }],
        rows: vec![vec![("a".to_string(), JsonValue::Int(1))]],
        followup: None,
        arrow: Some(ArrowIpc { schema: "Zm9v".to_string(), batches: Vec::new() }),
    };
    let r = QueryResponse::success(output);
    assert_eq!(r.status, "success");
    assert_eq!(r.rows.as_ref().map(|rows| rows.len()), Some(1));
    assert_eq!(r.columns.as_ref().map(|c| c[0].sql_type.clone()), Some("INTEGER".to_string()));
    assert!(r.arrow.is_some());
    assert!(r.message.is_none());
    let f = QueryResponse::failure("bad".to_string());
    assert_eq!(f.status, "error");
    assert!(f.rows.is_none() && f.columns.is_none() && f.followup.is_none() && f.arrow.is_none());
    assert_eq!(f.message, Some("bad".to_string()));
}

#[test]
fn escaping_doubles_each_quote_and_nothing_else() {
    let s = "it's 'quoted''";
    let r = escape_sql(s);
    assert_eq!(r, "it''s ''quoted''''");
    assert_eq!(r.len(), s.len() + s.matches('\'').count());
    assert_eq!(escape_sql("no quotes"), "no quotes");
}

#[test]
fn substitution_does_not_depend_on_the_order_of_the_pairs() {
    let sql = "SELECT '{{a}}', '{{b}}', '{{a}}', '{{c}}'";
    let forward = vec![("a".to_string(), "x".to_string()), ("b".to_string(), "y".to_string())];
    let backward = vec![("b".to_string(), "y".to_string()), ("a".to_string(), "x".to_string())];
    let expected = "SELECT 'x', 'y', 'x', '{{c}}'";
    assert_eq!(apply_variables(sql, &forward), expected);
    assert_eq!(apply_variables(sql, &backward), expected);
}

#[test]
fn base64_pads_to_whole_groups_from_the_alphabet() {
    for (input, padding) in [(&b"abc"[..], 0usize), (&b"abcd"[..], 2), (&b"abcde"[..], 1)] {
        let s = base64_string(input);
        assert_eq!(s.len() % 4, 0);
        let pad = s.chars().rev().take_while(|c| *c == '=').count();
        assert_eq!(pad, padding);
        assert!(s[..s.len() - pad]
            .chars()
            .all(|c| c.is_ascii_alphanumeric() || c == '+' || c == '/'));
    }
    assert_eq!(base64_string(&[0xfb, 0xff]), "+/8=");
}

#[test]
fn rows_with_distinct_names_hold_each_column_once_in_order() {
    let names = vec!["a".to_string(), "b".to_string(), "c".to_string()];
    let cells = vec![Cell::Int(1), Cell::Utf8("two".to_string()), Cell::Null];
    let debugs = vec!["Int64".to_string(), "Utf8".to_string(), "Null".to_string()];
    let row = encode_row(&names, &cells, &debugs, true);
    assert_eq!(
        row,
        vec![
            ("a".to_string(), JsonValue::Int(1)),
            ("b".to_string(), JsonValue::Text("two".to_string())),
            ("c".to_string(), JsonValue::Null),
        ]
    );
}
