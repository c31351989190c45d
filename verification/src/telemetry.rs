//! How span and event fields appear in log lines: `correlation_id` as a bare
//! value, so `query{correlation_id=abc}` reads `query{abc}`; the message as
//! is; every other field as `key=value`; fields separated by one space.

use vstd::prelude::*;
use crate::text::{chars_eq, chars_of, push_char, push_str};

verus! {

broadcast use vstd::string::group_string_axioms;

/// The field formatter of the service's log lines.
pub struct CorrelationFields;

/// The text a field adds to a line; `first` says whether the line has no
/// field written yet.
pub open spec fn field_text(first: bool, name: Seq<char>, value: Seq<char>) -> Seq<char> {
    if name == "correlation_id"@ {
        value
    } else {
        (if first {
            seq![]
        } else {
            seq![' ']
        }) + if name == "message"@ {
            value
        } else {
            name + seq!['='] + value
        }
    }
}

impl CorrelationFields {
    /// The text of the field `name` with the rendered value `value`.
    pub fn render_field(&self, first: bool, name: &str, value: &str) -> (r: String)
        ensures
            r@ == field_text(first, name@, value@),
    {
        let n = chars_of(name);
        let mut r = String::new();
        if chars_eq(&n, &chars_of("correlation_id")) {
            push_str(&mut r, value);
            return r;
        }
        if !first {
            push_char(&mut r, ' ');
        }
        if chars_eq(&n, &chars_of("message")) {
            push_str(&mut r, value);
        } else {
            push_str(&mut r, name);
            push_char(&mut r, '=');
            push_str(&mut r, value);
        }
        r
    }
}

} // verus!
