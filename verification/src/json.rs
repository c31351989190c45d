//! JSON encoding of result values: the legacy encoding that `/query` has
//! always returned, and the lossless one that `typed_values` selects.
//!
//! A value of the result is given as a `Cell`: what the encoders read of the
//! Arrow value at one row of one column. A JSON value is a `JsonValue`; an
//! object is a map as `serde_json::Map` keeps it: one member per key, in key
//! order.

use vstd::prelude::*;
use crate::base64::{base64_string, base64_text};
use crate::text::{chars_of, push_str};
use crate::temporal::{
    date32_render, date32_text, decimal_text, format_decimal, format_decimal256, interval_render, interval_text,
    opt_text, time64ns_render, time64ns_text, time64us_render, time64us_text, timestamp_iso, timestamp_iso_text,
};
use crate::types::TimeUnit;

verus! {

broadcast use vstd::string::group_string_axioms;

/// A JSON value.
#[derive(Debug, PartialEq)]
pub enum JsonValue {
    Null,
    Bool(bool),
    Int(i64),
    UInt(u64),
    /// A finite double, carried by its IEEE-754 bit pattern.
    Float(u64),
    Text(String),
    Array(Vec<JsonValue>),
    Object(Vec<(String, JsonValue)>),
}

/// A JSON value as a mathematical value.
pub enum JsonView {
    Null,
    Bool(bool),
    Int(i64),
    UInt(u64),
    Float(u64),
    Text(Seq<char>),
    Array(Seq<JsonView>),
    Object(Seq<(Seq<char>, JsonView)>),
}

/// The view of a JSON value.
pub open spec fn json_view(v: JsonValue) -> JsonView
    decreases v, 0int,
{
    match v {
        JsonValue::Null => JsonView::Null,
        JsonValue::Bool(b) => JsonView::Bool(b),
        JsonValue::Int(i) => JsonView::Int(i),
        JsonValue::UInt(u) => JsonView::UInt(u),
        JsonValue::Float(f) => JsonView::Float(f),
        JsonValue::Text(s) => JsonView::Text(s@),
        JsonValue::Array(items) => JsonView::Array(items_view(items@)),
        JsonValue::Object(members) => JsonView::Object(members_view(members@)),
    }
}

/// The views of the items of an array.
pub open spec fn items_view(s: Seq<JsonValue>) -> Seq<JsonView>
    decreases s, 1int,
{
    if s.len() == 0 {
        seq![]
    } else {
        items_view(s.drop_last()).push(json_view(s.last()))
    }
}

/// The views of the members of an object.
pub open spec fn members_view(s: Seq<(String, JsonValue)>) -> Seq<(Seq<char>, JsonView)>
    decreases s, 1int,
{
    if s.len() == 0 {
        seq![]
    } else {
        members_view(s.drop_last()).push((s.last().0@, json_view(s.last().1)))
    }
}

impl View for JsonValue {
    type V = JsonView;

    open spec fn view(&self) -> JsonView {
        json_view(*self)
    }
}

proof fn lemma_items_view(s: Seq<JsonValue>)
    ensures
        items_view(s).len() == s.len(),
        forall|i: int| #![trigger items_view(s)[i]] 0 <= i < s.len() ==> items_view(s)[i] == json_view(s[i]),
    decreases s.len(),
{
    if s.len() > 0 {
        lemma_items_view(s.drop_last());
        assert forall|i: int| 0 <= i < s.len() implies #[trigger] items_view(s)[i] == json_view(s[i]) by {
            if i < s.len() - 1 {
                assert(s.drop_last()[i] == s[i]);
            }
        }
    }
}

proof fn lemma_members_view(s: Seq<(String, JsonValue)>)
    ensures
        members_view(s).len() == s.len(),
        forall|i: int|
            #![trigger members_view(s)[i]]
            0 <= i < s.len() ==> members_view(s)[i] == (s[i].0@, json_view(s[i].1)),
    decreases s.len(),
{
    if s.len() > 0 {
        lemma_members_view(s.drop_last());
        assert forall|i: int| 0 <= i < s.len() implies #[trigger] members_view(s)[i] == (
            s[i].0@,
            json_view(s[i].1),
        ) by {
            if i < s.len() - 1 {
                assert(s.drop_last()[i] == s[i]);
            }
        }
    }
}

/// The position of the member named `key`, if any.
pub open spec fn find_key(obj: Seq<(Seq<char>, JsonView)>, key: Seq<char>) -> Option<int>
    decreases obj.len(),
{
    if obj.len() == 0 {
        None
    } else if obj.last().0 == key {
        Some(obj.len() - 1)
    } else {
        find_key(obj.drop_last(), key)
    }
}

/// `a` sorts before `b`: compared character by character by code point (the
/// order of their UTF-8 bytes, which `String`'s order compares), a proper
/// prefix first.
pub open spec fn key_less(a: Seq<char>, b: Seq<char>) -> bool
    decreases a.len(),
{
    if a.len() == 0 {
        b.len() > 0
    } else if b.len() == 0 {
        false
    } else if a[0] != b[0] {
        (a[0] as u32) < (b[0] as u32)
    } else {
        key_less(a.skip(1), b.skip(1))
    }
}

/// Where a new key goes among the members: after the last one whose key
/// sorts before it.
pub open spec fn insert_pos(obj: Seq<(Seq<char>, JsonView)>, key: Seq<char>) -> int
    decreases obj.len(),
{
    if obj.len() == 0 {
        0
    } else if key_less(obj.last().0, key) {
        obj.len() as int
    } else {
        insert_pos(obj.drop_last(), key)
    }
}

/// The members' keys are in strictly increasing order.
pub open spec fn sorted_keys(obj: Seq<(Seq<char>, JsonView)>) -> bool {
    forall|i: int, j: int| 0 <= i < j < obj.len() ==> key_less(#[trigger] obj[i].0, #[trigger] obj[j].0)
}

/// `obj` with `key` set to `value`, as `serde_json::Map::insert` does: the
/// member's value is replaced where it stands, or the member goes in at its
/// place in key order.
pub open spec fn object_insert(obj: Seq<(Seq<char>, JsonView)>, key: Seq<char>, value: JsonView) -> Seq<
    (Seq<char>, JsonView),
> {
    match find_key(obj, key) {
        Some(j) => obj.update(j, (key, value)),
        None => obj.insert(insert_pos(obj, key), (key, value)),
    }
}

/// The object made by inserting the pairs in order.
pub open spec fn object_of(pairs: Seq<(Seq<char>, JsonView)>) -> Seq<(Seq<char>, JsonView)>
    decreases pairs.len(),
{
    if pairs.len() == 0 {
        seq![]
    } else {
        object_insert(object_of(pairs.drop_last()), pairs.last().0, pairs.last().1)
    }
}

proof fn lemma_find_key(obj: Seq<(Seq<char>, JsonView)>, key: Seq<char>)
    ensures
        match find_key(obj, key) {
            Some(j) => 0 <= j < obj.len() && obj[j].0 == key && forall|k: int|
                j < k < obj.len() ==> obj[k].0 != key,
            None => forall|k: int| 0 <= k < obj.len() ==> obj[k].0 != key,
        },
    decreases obj.len(),
{
    if obj.len() > 0 {
        lemma_find_key(obj.drop_last(), key);
        assert forall|k: int| 0 <= k < obj.len() - 1 implies obj.drop_last()[k] == obj[k] by {}
    }
}

/// Sets `key` to `value` in an object, as `serde_json::Map::insert` does.
pub fn insert_member(obj: &mut Vec<(String, JsonValue)>, key: String, value: JsonValue)
    ensures
        members_view(final(obj)@) == object_insert(members_view(old(obj)@), key@, json_view(value)),
{
    proof {
        lemma_members_view(obj@);
    }
    let ghost start = members_view(obj@);
    assert(start.take(start.len() as int) =~= start);
    let mut j = obj.len();
    while j > 0
        invariant
            j <= obj.len(),
            obj@ == old(obj)@,
            start == members_view(obj@),
            start.len() == obj@.len(),
            forall|i: int| 0 <= i < obj@.len() ==> #[trigger] start[i] == (obj@[i].0@, json_view(obj@[i].1)),
            find_key(start, key@) == find_key(start.take(j as int), key@),
        decreases j,
    {
        assert(start.take(j as int).drop_last() =~= start.take(j - 1));
        if obj[j - 1].0 == key {
            let ghost before = obj@;
            obj.set(j - 1, (key, value));
            proof {
                lemma_members_view(obj@);
                assert forall|i: int| 0 <= i < obj@.len() implies #[trigger] members_view(obj@)[i]
                    == start.update(j - 1, (key@, json_view(value)))[i] by {
                    if i != j - 1 {
                        assert(obj@[i] == before[i]);
                        assert(start[i] == (before[i].0@, json_view(before[i].1)));
                    }
                }
                assert(members_view(obj@) =~= start.update(j - 1, (key@, json_view(value))));
            }
            return;
        }
        j -= 1;
    }
    let mut p = obj.len();
    while p > 0 && !keys_in_order(&obj[p - 1].0, &key)
        invariant
            p <= obj.len(),
            obj@ == old(obj)@,
            start == members_view(obj@),
            start.len() == obj@.len(),
            forall|i: int| 0 <= i < obj@.len() ==> #[trigger] start[i] == (obj@[i].0@, json_view(obj@[i].1)),
            insert_pos(start, key@) == insert_pos(start.take(p as int), key@),
        decreases p,
    {
        assert(start.take(p as int).drop_last() =~= start.take(p - 1));
        p -= 1;
    }
    proof {
        if p > 0 {
            assert(start.take(p as int).last() == start[p - 1]);
        }
    }
    let ghost before = obj@;
    obj.insert(p, (key, value));
    proof {
        lemma_members_view(obj@);
        let want = start.insert(p as int, (key@, json_view(value)));
        assert forall|i: int| 0 <= i < obj@.len() implies #[trigger] members_view(obj@)[i] == want[i] by {
            if i < p {
                assert(obj@[i] == before[i]);
                assert(start[i] == (before[i].0@, json_view(before[i].1)));
            } else if i > p {
                assert(obj@[i] == before[i - 1]);
                assert(start[i - 1] == (before[i - 1].0@, json_view(before[i - 1].1)));
            }
        }
        assert(members_view(obj@) =~= want);
    }
}

/// Whether `a` sorts before `b` (`key_less`).
pub fn keys_in_order(a: &String, b: &String) -> (r: bool)
    ensures
        r == key_less(a@, b@),
{
    let av = chars_of(a.as_str());
    let bv = chars_of(b.as_str());
    let mut i: usize = 0;
    assert(a@.skip(0) =~= a@);
    assert(b@.skip(0) =~= b@);
    while i < av.len() && i < bv.len()
        invariant
            av@ == a@,
            bv@ == b@,
            i <= av.len(),
            i <= bv.len(),
            key_less(a@, b@) == key_less(a@.skip(i as int), b@.skip(i as int)),
        decreases av.len() - i,
    {
        assert(a@.skip(i as int)[0] == av@[i as int]);
        assert(b@.skip(i as int)[0] == bv@[i as int]);
        if av[i] != bv[i] {
            return (av[i] as u32) < (bv[i] as u32);
        }
        assert(a@.skip(i as int).skip(1) =~= a@.skip(i + 1));
        assert(b@.skip(i as int).skip(1) =~= b@.skip(i + 1));
        i += 1;
    }
    i < bv.len()
}

/// A double, as far as JSON can hold it.
#[derive(PartialEq, Eq, Structural, Clone, Copy, Debug)]
pub enum FloatClass {
    NotANumber,
    PositiveInfinity,
    NegativeInfinity,
    /// A finite value, by its IEEE-754 bit pattern.
    Finite(u64),
}

/// Arrow's canonical text for a value, or the type it could not render.
#[derive(Debug)]
pub enum Rendered {
    Text(String),
    /// The formatter does not support the type; its `Debug` rendering.
    Unsupported(String),
}

/// What the encoders read of one Arrow value.
#[derive(Debug)]
pub enum Cell {
    Null,
    Bool(bool),
    /// `Int8` to `Int64`.
    Int(i64),
    /// `UInt8` to `UInt64`.
    UInt(u64),
    /// `Float32` (widened) or `Float64`.
    Float(FloatClass),
    /// `Utf8` or `LargeUtf8`.
    Utf8(String),
    /// `Decimal128`: the value as a double, the unscaled value, the scale.
    Decimal(FloatClass, i128, i8),
    /// `Decimal256`: the unscaled value's high and low halves, and the scale.
    Decimal256(i128, u128, i8),
    /// `Binary`, `LargeBinary` or `FixedSizeBinary`.
    Binary(Vec<u8>),
    /// `List`, `LargeList` or `FixedSizeList`: the items.
    List(Vec<Cell>),
    /// A struct: each child field's name and value.
    Struct(Vec<(String, Cell)>),
    /// A map: its entries' keys and values.
    Entries(Vec<(Cell, Cell)>),
    /// A timestamp: its value, its unit, and whether the column has a time
    /// zone.
    Timestamp(i64, TimeUnit, bool),
    /// `Date32`: days since the epoch.
    Date32(i32),
    /// `Time64(Microsecond)`: microseconds since midnight.
    Time64Micros(i64),
    /// `Time64(Nanosecond)`: nanoseconds since midnight.
    Time64Nanos(i64),
    /// `Interval(MonthDayNano)`: months, days and nanoseconds.
    Interval(i32, i32, i64),
    /// Any other type: `Date64`, `Time32`, durations, other intervals,
    /// dictionaries, views, half floats.
    Other(Rendered),
}

/// The legacy encoding of a double: a number, or `null` when not finite.
pub open spec fn float_legacy(f: FloatClass) -> JsonView {
    match f {
        FloatClass::Finite(bits) => JsonView::Float(bits),
        _ => JsonView::Null,
    }
}

/// The legacy encoding: booleans, integers, doubles and strings as JSON
/// scalars; any other type as `[<its Debug rendering>]`.
pub open spec fn legacy_view(c: Cell, type_debug: Seq<char>) -> JsonView {
    match c {
        Cell::Null => JsonView::Null,
        Cell::Bool(b) => JsonView::Bool(b),
        Cell::Int(i) => JsonView::Int(i),
        Cell::UInt(u) => JsonView::UInt(u),
        Cell::Float(f) => float_legacy(f),
        Cell::Decimal(f, _, _) => float_legacy(f),
        Cell::Utf8(s) => JsonView::Text(s@),
        _ => JsonView::Text(seq!['['] + type_debug + seq![']']),
    }
}

fn float_json(f: FloatClass) -> (r: JsonValue)
    ensures
        r@ == float_legacy(f),
{
    match f {
        FloatClass::Finite(bits) => JsonValue::Float(bits),
        _ => JsonValue::Null,
    }
}

/// The legacy JSON of a value; `type_debug` is its column's Arrow type as
/// `Debug` renders it.
pub fn arrow_value_to_json(c: &Cell, type_debug: &str) -> (r: JsonValue)
    ensures
        r@ == legacy_view(*c, type_debug@),
{
    match c {
        Cell::Null => JsonValue::Null,
        Cell::Bool(b) => JsonValue::Bool(*b),
        Cell::Int(i) => JsonValue::Int(*i),
        Cell::UInt(u) => JsonValue::UInt(*u),
        Cell::Float(f) => float_json(*f),
        Cell::Decimal(f, _, _) => float_json(*f),
        Cell::Utf8(s) => JsonValue::Text(s.clone()),
        _ => {
            let mut t = String::new();
            push_str(&mut t, "[");
            push_str(&mut t, type_debug);
            push_str(&mut t, "]");
            proof {
                reveal_strlit("[");
                reveal_strlit("]");
                assert(t@ =~= seq!['['] + type_debug@ + seq![']']);
            }
            JsonValue::Text(t)
        },
    }
}

/// A blob as a JSON string: its base64 encoding.
pub fn base64_value(bytes: &[u8]) -> (r: JsonValue)
    ensures
        r@ == JsonView::Text(base64_text(bytes@)),
{
    JsonValue::Text(base64_string(bytes))
}

/// The text of a rendered value, or `[<type>]` when the type has none.
pub open spec fn rendered_view(r: Rendered) -> JsonView {
    match r {
        Rendered::Text(t) => JsonView::Text(t@),
        Rendered::Unsupported(debug) => JsonView::Text(seq!['['] + debug@ + seq![']']),
    }
}

/// The lossless encoding of a double: a number when finite, else `"NaN"`,
/// `"Infinity"` or `"-Infinity"`.
pub open spec fn float_typed(f: FloatClass) -> JsonView {
    match f {
        FloatClass::NotANumber => JsonView::Text("NaN"@),
        FloatClass::PositiveInfinity => JsonView::Text("Infinity"@),
        FloatClass::NegativeInfinity => JsonView::Text("-Infinity"@),
        FloatClass::Finite(bits) => JsonView::Float(bits),
    }
}

/// The lossless encoding of a value: scalars that JSON holds exactly stay
/// numbers and booleans; decimals, temporals and intervals are Arrow's
/// canonical text; blobs are base64; lists, structs and maps nest.
pub open spec fn typed_view(c: Cell) -> JsonView
    decreases c, 0int,
{
    match c {
        Cell::Null => JsonView::Null,
        Cell::Bool(b) => JsonView::Bool(b),
        Cell::Int(i) => JsonView::Int(i),
        Cell::UInt(u) => JsonView::UInt(u),
        Cell::Float(f) => float_typed(f),
        Cell::Utf8(s) => JsonView::Text(s@),
        Cell::Decimal(_, v, scale) => JsonView::Text(decimal_text(v as int, scale as int)),
        Cell::Decimal256(high, low, scale) => JsonView::Text(
            decimal_text(high as int * 0x1_0000_0000_0000_0000_0000_0000_0000_0000 + low as int, scale as int),
        ),
        Cell::Binary(b) => JsonView::Text(base64_text(b@)),
        Cell::List(items) => JsonView::Array(typed_items(items@)),
        Cell::Struct(fields) => JsonView::Object(typed_fields(fields@)),
        Cell::Entries(entries) => JsonView::Array(typed_entries(entries@)),
        Cell::Timestamp(v, unit, zoned) => match timestamp_iso(v, unit) {
            Some(t) => JsonView::Text(
                if zoned {
                    t.push('Z')
                } else {
                    t
                },
            ),
            None => JsonView::Null,
        },
        Cell::Date32(v) => formatted_view(date32_render(v), "Date32"@),
        Cell::Time64Micros(v) => formatted_view(time64us_render(v), "Time64(Microsecond)"@),
        Cell::Time64Nanos(v) => formatted_view(time64ns_render(v), "Time64(Nanosecond)"@),
        Cell::Interval(months, days, nanos) => formatted_view(
            interval_render(months, days, nanos),
            "Interval(MonthDayNano)"@,
        ),
        Cell::Other(r) => rendered_view(r),
    }
}

/// A value as arrow's default formatter shows it, or `[<type>]` when the
/// formatter does not take the type.
pub open spec fn formatted_view(t: Option<Seq<char>>, type_debug: Seq<char>) -> JsonView {
    match t {
        Some(t) => JsonView::Text(t),
        None => JsonView::Text(seq!['['] + type_debug + seq![']']),
    }
}

/// The lossless encodings of the items of a list.
pub open spec fn typed_items(s: Seq<Cell>) -> Seq<JsonView>
    decreases s, 1int,
{
    if s.len() == 0 {
        seq![]
    } else {
        typed_items(s.drop_last()).push(typed_view(s.last()))
    }
}

/// A struct as an object: each field inserted in order, under its name.
pub open spec fn typed_fields(s: Seq<(String, Cell)>) -> Seq<(Seq<char>, JsonView)>
    decreases s, 1int,
{
    if s.len() == 0 {
        seq![]
    } else {
        object_insert(typed_fields(s.drop_last()), s.last().0@, typed_view(s.last().1))
    }
}

/// A map entry as an object with members `key` and `value`.
pub open spec fn entry_view(key: JsonView, value: JsonView) -> JsonView {
    JsonView::Object(seq![("key"@, key), ("value"@, value)])
}

/// The entries of a map, each as `{"key": .., "value": ..}`.
pub open spec fn typed_entries(s: Seq<(Cell, Cell)>) -> Seq<JsonView>
    decreases s, 1int,
{
    if s.len() == 0 {
        seq![]
    } else {
        typed_entries(s.drop_last()).push(entry_view(typed_view(s.last().0), typed_view(s.last().1)))
    }
}

fn rendered_json(r: &Rendered) -> (v: JsonValue)
    ensures
        v@ == rendered_view(*r),
{
    match r {
        Rendered::Text(t) => JsonValue::Text(t.clone()),
        Rendered::Unsupported(debug) => {
            let mut t = String::new();
            push_str(&mut t, "[");
            push_str(&mut t, debug.as_str());
            push_str(&mut t, "]");
            proof {
                reveal_strlit("[");
                reveal_strlit("]");
                assert(t@ =~= seq!['['] + debug@ + seq![']']);
            }
            JsonValue::Text(t)
        },
    }
}

fn float_typed_json(f: FloatClass) -> (r: JsonValue)
    ensures
        r@ == float_typed(f),
{
    match f {
        FloatClass::NotANumber => JsonValue::Text("NaN".to_owned()),
        FloatClass::PositiveInfinity => JsonValue::Text("Infinity".to_owned()),
        FloatClass::NegativeInfinity => JsonValue::Text("-Infinity".to_owned()),
        FloatClass::Finite(bits) => JsonValue::Float(bits),
    }
}

fn push_item(items: &mut Vec<JsonValue>, v: JsonValue)
    ensures
        items_view(final(items)@) == items_view(old(items)@).push(json_view(v)),
{
    items.push(v);
    assert(final(items)@.drop_last() =~= old(items)@);
}

/// The lossless JSON of a value.
pub fn arrow_value_to_typed_json(c: &Cell) -> (r: JsonValue)
    ensures
        r@ == typed_view(*c),
    decreases *c, 0int,
{
    match c {
        Cell::Null => JsonValue::Null,
        Cell::Bool(b) => JsonValue::Bool(*b),
        Cell::Int(i) => JsonValue::Int(*i),
        Cell::UInt(u) => JsonValue::UInt(*u),
        Cell::Float(f) => float_typed_json(*f),
        Cell::Utf8(s) => JsonValue::Text(s.clone()),
        Cell::Decimal(_, v, scale) => JsonValue::Text(format_decimal(*v, *scale)),
        Cell::Decimal256(high, low, scale) => JsonValue::Text(format_decimal256(*high, *low, *scale)),
        Cell::Binary(b) => base64_value(b.as_slice()),
        Cell::List(items) => JsonValue::Array(nested_list(items)),
        Cell::Struct(fields) => JsonValue::Object(struct_object(fields)),
        Cell::Entries(entries) => JsonValue::Array(map_entries(entries)),
        Cell::Timestamp(v, unit, zoned) => match timestamp_iso_text(*v, *unit) {
            Some(t) => {
                let mut s = t;
                if *zoned {
                    crate::text::push_char(&mut s, 'Z');
                }
                JsonValue::Text(s)
            },
            None => JsonValue::Null,
        },
        Cell::Date32(v) => formatted_json(date32_text(*v), "Date32"),
        Cell::Time64Micros(v) => formatted_json(time64us_text(*v), "Time64(Microsecond)"),
        Cell::Time64Nanos(v) => formatted_json(time64ns_text(*v), "Time64(Nanosecond)"),
        Cell::Interval(months, days, nanos) => formatted_json(
            interval_text(*months, *days, *nanos),
            "Interval(MonthDayNano)",
        ),
        Cell::Other(r) => rendered_json(r),
    }
}

fn formatted_json(t: Option<String>, type_debug: &str) -> (r: JsonValue)
    ensures
        r@ == formatted_view(opt_text(t), type_debug@),
{
    match t {
        Some(t) => JsonValue::Text(t),
        None => {
            let mut u = String::new();
            push_str(&mut u, "[");
            push_str(&mut u, type_debug);
            push_str(&mut u, "]");
            proof {
                reveal_strlit("[");
                reveal_strlit("]");
                assert(u@ =~= seq!['['] + type_debug@ + seq![']']);
            }
            JsonValue::Text(u)
        },
    }
}

/// The lossless JSON of each item of a list.
pub fn nested_list(items: &Vec<Cell>) -> (r: Vec<JsonValue>)
    ensures
        items_view(r@) == typed_items(items@),
    decreases items@, 1int,
{
    let mut r: Vec<JsonValue> = Vec::new();
    let mut i: usize = 0;
    while i < items.len()
        invariant
            i <= items.len(),
            items_view(r@) == typed_items(items@.take(i as int)),
        decreases items.len() - i,
    {
        assert(decreases_to!(items@ => items@[i as int]));
        let v = arrow_value_to_typed_json(&items[i]);
        push_item(&mut r, v);
        assert(items@.take(i + 1).drop_last() =~= items@.take(i as int));
        i += 1;
    }
    assert(items@.take(items@.len() as int) =~= items@);
    r
}

fn struct_object(fields: &Vec<(String, Cell)>) -> (r: Vec<(String, JsonValue)>)
    ensures
        members_view(r@) == typed_fields(fields@),
    decreases fields@, 1int,
{
    let mut r: Vec<(String, JsonValue)> = Vec::new();
    let mut i: usize = 0;
    while i < fields.len()
        invariant
            i <= fields.len(),
            members_view(r@) == typed_fields(fields@.take(i as int)),
        decreases fields.len() - i,
    {
        assert(decreases_to!(fields@ => fields@[i as int]));
        let v = arrow_value_to_typed_json(&fields[i].1);
        insert_member(&mut r, fields[i].0.clone(), v);
        assert(fields@.take(i + 1).drop_last() =~= fields@.take(i as int));
        i += 1;
    }
    assert(fields@.take(fields@.len() as int) =~= fields@);
    r
}

fn map_entries(entries: &Vec<(Cell, Cell)>) -> (r: Vec<JsonValue>)
    ensures
        items_view(r@) == typed_entries(entries@),
    decreases entries@, 1int,
{
    let mut r: Vec<JsonValue> = Vec::new();
    let mut i: usize = 0;
    while i < entries.len()
        invariant
            i <= entries.len(),
            items_view(r@) == typed_entries(entries@.take(i as int)),
        decreases entries.len() - i,
    {
        assert(decreases_to!(entries@ => entries@[i as int]));
        let k = arrow_value_to_typed_json(&entries[i].0);
        let v = arrow_value_to_typed_json(&entries[i].1);
        let mut pair: Vec<(String, JsonValue)> = Vec::new();
        pair.push(("key".to_owned(), k));
        pair.push(("value".to_owned(), v));
        proof {
            lemma_members_view(pair@);
        }
        let e = JsonValue::Object(pair);
        assert(json_view(e) == entry_view(typed_view(entries@[i as int].0), typed_view(entries@[i as int].1))) by {
            assert(members_view(pair@) =~= seq![("key"@, typed_view(entries@[i as int].0)), ("value"@, typed_view(entries@[i as int].1))]);
        }
        push_item(&mut r, e);
        assert(entries@.take(i + 1).drop_last() =~= entries@.take(i as int));
        i += 1;
    }
    assert(entries@.take(entries@.len() as int) =~= entries@);
    r
}

/// The value of the member named `key`, if any.
pub open spec fn lookup(obj: Seq<(Seq<char>, JsonView)>, key: Seq<char>) -> Option<JsonView> {
    match find_key(obj, key) {
        Some(j) => Some(obj[j].1),
        None => None,
    }
}

proof fn lemma_find_key_by_keys(a: Seq<(Seq<char>, JsonView)>, b: Seq<(Seq<char>, JsonView)>, key: Seq<char>)
    requires
        a.len() == b.len(),
        forall|i: int| 0 <= i < a.len() ==> #[trigger] a[i].0 == b[i].0,
    ensures
        find_key(a, key) == find_key(b, key),
    decreases a.len(),
{
    if a.len() > 0 {
        assert forall|i: int| 0 <= i < a.len() - 1 implies #[trigger] a.drop_last()[i].0 == b.drop_last()[i].0 by {
            assert(a.drop_last()[i] == a[i]);
            assert(b.drop_last()[i] == b[i]);
        }
        lemma_find_key_by_keys(a.drop_last(), b.drop_last(), key);
    }
}

/// Reading an object after setting a member: the member has the value set,
/// and every other member keeps its value.
pub proof fn lemma_insert_then_lookup(
    obj: Seq<(Seq<char>, JsonView)>,
    key: Seq<char>,
    value: JsonView,
    other: Seq<char>,
)
    ensures
        lookup(object_insert(obj, key, value), key) == Some(value),
        other != key ==> lookup(object_insert(obj, key, value), other) == lookup(obj, other),
{
    lemma_find_key(obj, key);
    let after = object_insert(obj, key, value);
    match find_key(obj, key) {
        Some(j) => {
            assert forall|i: int| 0 <= i < obj.len() implies #[trigger] after[i].0 == obj[i].0 by {}
            lemma_find_key_by_keys(after, obj, key);
            lemma_find_key_by_keys(after, obj, other);
            lemma_find_key(obj, other);
        },
        None => {
            lemma_insert_pos(obj, key);
            let p = insert_pos(obj, key);
            assert forall|k: int| p < k < after.len() implies after[k].0 != key by {
                assert(after[k] == obj[k - 1]);
            }
            lemma_find_key_at(after, key, p);
            if other != key {
                lemma_find_key(obj, other);
                match find_key(obj, other) {
                    Some(j0) => {
                        let j1 = if j0 < p {
                            j0
                        } else {
                            j0 + 1
                        };
                        assert(after[j1] == obj[j0]);
                        assert forall|k: int| j1 < k < after.len() implies after[k].0 != other by {
                            if k < p {
                                assert(after[k] == obj[k]);
                            } else if k > p {
                                assert(after[k] == obj[k - 1]);
                            }
                        }
                        lemma_find_key_at(after, other, j1);
                    },
                    None => {
                        lemma_find_key(after, other);
                        if find_key(after, other) is Some {
                            let j = find_key(after, other)->0;
                            if j < p {
                                assert(after[j] == obj[j]);
                            } else if j > p {
                                assert(after[j] == obj[j - 1]);
                            }
                        }
                    },
                }
            }
        },
    }
}

proof fn lemma_find_key_at(obj: Seq<(Seq<char>, JsonView)>, key: Seq<char>, j: int)
    requires
        0 <= j < obj.len(),
        obj[j].0 == key,
        forall|k: int| j < k < obj.len() ==> obj[k].0 != key,
    ensures
        find_key(obj, key) == Some(j),
{
    lemma_find_key(obj, key);
    if find_key(obj, key) is Some {
        let j2 = find_key(obj, key)->0;
        if j2 < j {
            assert(obj[j].0 == key);
        }
    }
}

proof fn lemma_insert_pos(obj: Seq<(Seq<char>, JsonView)>, key: Seq<char>)
    ensures
        0 <= insert_pos(obj, key) <= obj.len(),
        forall|i: int| insert_pos(obj, key) <= i < obj.len() ==> !key_less(#[trigger] obj[i].0, key),
        insert_pos(obj, key) > 0 ==> key_less(obj[insert_pos(obj, key) - 1].0, key),
    decreases obj.len(),
{
    if obj.len() > 0 && !key_less(obj.last().0, key) {
        lemma_insert_pos(obj.drop_last(), key);
        let p = insert_pos(obj, key);
        assert forall|i: int| p <= i < obj.len() implies !key_less(#[trigger] obj[i].0, key) by {
            if i < obj.len() - 1 {
                assert(obj[i] == obj.drop_last()[i]);
            }
        }
        if p > 0 {
            assert(obj[p - 1] == obj.drop_last()[p - 1]);
        }
    }
}

proof fn lemma_key_less_irreflexive(a: Seq<char>)
    ensures
        !key_less(a, a),
    decreases a.len(),
{
    if a.len() > 0 {
        lemma_key_less_irreflexive(a.skip(1));
    }
}

proof fn lemma_key_less_transitive(a: Seq<char>, b: Seq<char>, c: Seq<char>)
    requires
        key_less(a, b),
        key_less(b, c),
    ensures
        key_less(a, c),
    decreases a.len(),
{
    if a.len() > 0 && b.len() > 0 && c.len() > 0 && a[0] == b[0] && b[0] == c[0] {
        lemma_key_less_transitive(a.skip(1), b.skip(1), c.skip(1));
    }
}

proof fn lemma_key_less_total(a: Seq<char>, b: Seq<char>)
    requires
        a != b,
    ensures
        key_less(a, b) || key_less(b, a),
    decreases a.len(),
{
    if a.len() > 0 && b.len() > 0 {
        if a[0] == b[0] {
            if a.skip(1) == b.skip(1) {
                assert(a =~= b) by {
                    assert(a.skip(1).len() == a.len() - 1);
                    assert(b.skip(1).len() == b.len() - 1);
                    assert(a.len() == b.len());
                    assert forall|i: int| 0 <= i < a.len() implies a[i] == b[i] by {
                        if i > 0 {
                            assert(a[i] == a.skip(1)[i - 1]);
                            assert(b[i] == b.skip(1)[i - 1]);
                        }
                    }
                }
            } else {
                lemma_key_less_total(a.skip(1), b.skip(1));
            }
        } else {
            lemma_char_code(a[0]);
            lemma_char_code(b[0]);
            assert((a[0] as int) != (b[0] as int));
        }
    } else if a.len() == 0 && b.len() == 0 {
        assert(a =~= b);
    }
}

proof fn lemma_char_code(c: char)
    ensures
        (c as u32) as int == c as int,
{
}

/// Setting a member keeps an object's keys in order.
pub proof fn lemma_insert_sorted(obj: Seq<(Seq<char>, JsonView)>, key: Seq<char>, value: JsonView)
    requires
        sorted_keys(obj),
    ensures
        sorted_keys(object_insert(obj, key, value)),
{
    lemma_find_key(obj, key);
    let after = object_insert(obj, key, value);
    match find_key(obj, key) {
        Some(j) => {
            assert forall|a: int, b: int| 0 <= a < b < after.len() implies key_less(
                #[trigger] after[a].0,
                #[trigger] after[b].0,
            ) by {
                assert(after[a].0 == obj[a].0 && after[b].0 == obj[b].0);
            }
        },
        None => {
            lemma_insert_pos(obj, key);
            let p = insert_pos(obj, key);
            assert forall|i: int| 0 <= i < p implies key_less(#[trigger] obj[i].0, key) by {
                if i < p - 1 {
                    lemma_key_less_transitive(obj[i].0, obj[p - 1].0, key);
                }
            }
            assert forall|i: int| p <= i < obj.len() implies key_less(key, #[trigger] obj[i].0) by {
                lemma_key_less_total(obj[i].0, key);
            }
            assert forall|a: int, b: int| 0 <= a < b < after.len() implies key_less(
                #[trigger] after[a].0,
                #[trigger] after[b].0,
            ) by {
                if b < p {
                    assert(after[a] == obj[a] && after[b] == obj[b]);
                } else if b == p {
                    assert(after[a] == obj[a]);
                } else if a < p {
                    assert(after[a] == obj[a] && after[b] == obj[b - 1]);
                } else if a == p {
                    assert(after[b] == obj[b - 1]);
                } else {
                    assert(after[a] == obj[a - 1] && after[b] == obj[b - 1]);
                }
            }
        },
    }
}

/// Values that JSON holds exactly (null, booleans, integers, strings, finite
/// doubles) are encoded the same way with or without `typed_values`.
pub proof fn lemma_typed_keeps_plain_scalars(c: Cell, type_debug: Seq<char>)
    requires
        c is Null || c is Bool || c is Int || c is UInt || c is Utf8 || (c matches Cell::Float(
            f,
        ) && f is Finite),
    ensures
        typed_view(c) == legacy_view(c, type_debug),
{
}

/// Scalars keep their values in both encodings: a boolean is the JSON
/// boolean of the same value, an integer the same integer, a string the same
/// text, and null is null.
pub proof fn lemma_scalars_keep_their_values(b: bool, i: i64, u: u64, t: String, type_debug: Seq<char>)
    ensures
        legacy_view(Cell::Bool(b), type_debug) == JsonView::Bool(b),
        typed_view(Cell::Bool(b)) == JsonView::Bool(b),
        legacy_view(Cell::Int(i), type_debug) == JsonView::Int(i),
        typed_view(Cell::Int(i)) == JsonView::Int(i),
        legacy_view(Cell::UInt(u), type_debug) == JsonView::UInt(u),
        typed_view(Cell::UInt(u)) == JsonView::UInt(u),
        legacy_view(Cell::Utf8(t), type_debug) == JsonView::Text(t@),
        typed_view(Cell::Utf8(t)) == JsonView::Text(t@),
        legacy_view(Cell::Null, type_debug) == JsonView::Null,
        typed_view(Cell::Null) == JsonView::Null,
{
}

/// One row as an object: each column's value inserted under its name, in
/// order (a later column of the same name replaces an earlier one).
pub open spec fn row_view(names: Seq<String>, cells: Seq<Cell>, type_debugs: Seq<String>, typed: bool) -> Seq<
    (Seq<char>, JsonView),
> {
    object_of(
        Seq::new(
            names.len(),
            |i: int|
                (names[i]@, if typed {
                    typed_view(cells[i])
                } else {
                    legacy_view(cells[i], type_debugs[i]@)
                }),
        ),
    )
}

/// Encodes one row of a result: `names[i]`, `cells[i]` and `type_debugs[i]`
/// describe column `i`.
pub fn encode_row(names: &Vec<String>, cells: &Vec<Cell>, type_debugs: &Vec<String>, typed: bool) -> (r: Vec<
    (String, JsonValue),
>)
    requires
        names.len() == cells.len(),
        names.len() == type_debugs.len(),
    ensures
        members_view(r@) == row_view(names@, cells@, type_debugs@, typed),
{
    let ghost pairs = Seq::new(
        names@.len(),
        |i: int|
            (names@[i]@, if typed {
                typed_view(cells@[i])
            } else {
                legacy_view(cells@[i], type_debugs@[i]@)
            }),
    );
    let mut r: Vec<(String, JsonValue)> = Vec::new();
    let mut i: usize = 0;
    while i < names.len()
        invariant
            i <= names.len() == cells.len() == type_debugs.len(),
            pairs.len() == names.len(),
            pairs == Seq::new(
                names@.len(),
                |i: int|
                    (names@[i]@, if typed {
                        typed_view(cells@[i])
                    } else {
                        legacy_view(cells@[i], type_debugs@[i]@)
                    }),
            ),
            members_view(r@) == object_of(pairs.take(i as int)),
        decreases names.len() - i,
    {
        let v = if typed {
            arrow_value_to_typed_json(&cells[i])
        } else {
            arrow_value_to_json(&cells[i], type_debugs[i].as_str())
        };
        insert_member(&mut r, names[i].clone(), v);
        assert(pairs.take(i + 1).drop_last() =~= pairs.take(i as int));
        i += 1;
    }
    assert(pairs.take(names@.len() as int) =~= pairs);
    r
}

/// The cells of one record batch: its columns' names and Arrow types (as
/// `Debug` renders them), and the values of each of its rows.
pub struct CellBatch {
    pub names: Vec<String>,
    pub type_debugs: Vec<String>,
    pub rows: Vec<Vec<Cell>>,
}

/// A batch whose every row has one value per column.
pub open spec fn batch_well_formed(b: CellBatch) -> bool {
    &&& b.names.len() == b.type_debugs.len()
    &&& forall|j: int| 0 <= j < b.rows.len() ==> (#[trigger] b.rows@[j]).len() == b.names.len()
}

/// The encoded rows of one batch, in row order.
pub open spec fn batch_rows(b: CellBatch, typed: bool) -> Seq<Seq<(Seq<char>, JsonView)>> {
    Seq::new(b.rows@.len(), |j: int| row_view(b.names@, b.rows@[j]@, b.type_debugs@, typed))
}

/// The encoded rows of a result: those of each batch, batch after batch.
pub open spec fn all_rows(batches: Seq<CellBatch>, typed: bool) -> Seq<Seq<(Seq<char>, JsonView)>>
    decreases batches.len(),
{
    if batches.len() == 0 {
        seq![]
    } else {
        all_rows(batches.drop_last(), typed) + batch_rows(batches.last(), typed)
    }
}

/// The views of encoded rows.
pub open spec fn rows_view(rows: Seq<Vec<(String, JsonValue)>>) -> Seq<Seq<(Seq<char>, JsonView)>> {
    Seq::new(rows.len(), |i: int| members_view(rows[i]@))
}

/// Encodes every row of a result, batch after batch and row after row.
pub fn encode_rows(batches: &Vec<CellBatch>, typed: bool) -> (r: Vec<Vec<(String, JsonValue)>>)
    requires
        forall|i: int| 0 <= i < batches.len() ==> batch_well_formed(#[trigger] batches@[i]),
    ensures
        rows_view(r@) == all_rows(batches@, typed),
{
    let mut r: Vec<Vec<(String, JsonValue)>> = Vec::new();
    let mut i: usize = 0;
    while i < batches.len()
        invariant
            i <= batches.len(),
            forall|k: int| 0 <= k < batches.len() ==> batch_well_formed(#[trigger] batches@[k]),
            rows_view(r@) == all_rows(batches@.take(i as int), typed),
        decreases batches.len() - i,
    {
        let b = &batches[i];
        assert(batch_well_formed(batches@[i as int]));
        let ghost before = rows_view(r@);
        let mut j: usize = 0;
        while j < b.rows.len()
            invariant
                j <= b.rows.len(),
                *b == batches@[i as int],
                batch_well_formed(*b),
                rows_view(r@) == before + batch_rows(*b, typed).take(j as int),
            decreases b.rows.len() - j,
        {
            assert((b.rows@[j as int]).len() == b.names.len());
            let row = encode_row(&b.names, &b.rows[j], &b.type_debugs, typed);
            let ghost prev = r@;
            r.push(row);
            assert(rows_view(r@) =~= rows_view(prev).push(members_view(row@)));
            assert(batch_rows(*b, typed).take(j + 1) =~= batch_rows(*b, typed).take(j as int).push(
                batch_rows(*b, typed)[j as int],
            ));
            j += 1;
        }
        assert(batch_rows(*b, typed).take(b.rows.len() as int) =~= batch_rows(*b, typed));
        assert(batches@.take(i + 1).drop_last() =~= batches@.take(i as int));
        i += 1;
    }
    assert(batches@.take(batches.len() as int) =~= batches@);
    r
}

proof fn lemma_object_of_distinct(pairs: Seq<(Seq<char>, JsonView)>)
    requires
        forall|i: int, j: int| 0 <= i < j < pairs.len() ==> pairs[i].0 != pairs[j].0,
    ensures
        object_of(pairs).len() == pairs.len(),
        sorted_keys(object_of(pairs)),
        forall|i: int| 0 <= i < pairs.len() ==> lookup(object_of(pairs), #[trigger] pairs[i].0) == Some(pairs[i].1),
        forall|key: Seq<char>|
            (forall|i: int| 0 <= i < pairs.len() ==> pairs[i].0 != key) ==> #[trigger] lookup(object_of(pairs), key)
                is None,
    decreases pairs.len(),
{
    if pairs.len() > 0 {
        let init = pairs.drop_last();
        let (k, v) = pairs.last();
        assert forall|i: int, j: int| 0 <= i < j < init.len() implies init[i].0 != init[j].0 by {
            assert(init[i] == pairs[i] && init[j] == pairs[j]);
        }
        lemma_object_of_distinct(init);
        let o = object_of(init);
        assert forall|i: int| 0 <= i < init.len() implies init[i].0 != k by {
            assert(init[i] == pairs[i]);
        }
        assert(lookup(o, k) is None);
        lemma_find_key(o, k);
        lemma_insert_pos(o, k);
        lemma_insert_sorted(o, k, v);
        lemma_insert_then_lookup(o, k, v, k);
        assert forall|i: int| 0 <= i < pairs.len() implies lookup(object_of(pairs), #[trigger] pairs[i].0) == Some(
            pairs[i].1,
        ) by {
            if i < pairs.len() - 1 {
                assert(init[i] == pairs[i]);
                lemma_insert_then_lookup(o, k, v, pairs[i].0);
            }
        }
        assert forall|key: Seq<char>|
            (forall|i: int| 0 <= i < pairs.len() ==> pairs[i].0 != key) implies #[trigger] lookup(
                object_of(pairs),
                key,
            ) is None by {
            assert(pairs[pairs.len() - 1].0 != key);
            assert forall|i: int| 0 <= i < init.len() implies init[i].0 != key by {
                assert(init[i] == pairs[i]);
            }
            lemma_insert_then_lookup(o, k, v, key);
        }
    }
}

/// When the columns have distinct names, a row has exactly one member per
/// column, in key order, each holding that column's encoded value.
pub proof fn lemma_row_has_each_column(
    names: Seq<String>,
    cells: Seq<Cell>,
    type_debugs: Seq<String>,
    typed: bool,
)
    requires
        names.len() == cells.len() == type_debugs.len(),
        forall|i: int, j: int| 0 <= i < j < names.len() ==> names[i]@ != names[j]@,
    ensures
        row_view(names, cells, type_debugs, typed).len() == names.len(),
        sorted_keys(row_view(names, cells, type_debugs, typed)),
        forall|i: int|
            0 <= i < names.len() ==> lookup(row_view(names, cells, type_debugs, typed), #[trigger] names[i]@)
                == Some(
                if typed {
                    typed_view(cells[i])
                } else {
                    legacy_view(cells[i], type_debugs[i]@)
                },
            ),
{
    let pairs = Seq::new(
        names.len(),
        |i: int|
            (names[i]@, if typed {
                typed_view(cells[i])
            } else {
                legacy_view(cells[i], type_debugs[i]@)
            }),
    );
    assert forall|i: int, j: int| 0 <= i < j < pairs.len() implies pairs[i].0 != pairs[j].0 by {}
    lemma_object_of_distinct(pairs);
    assert forall|i: int| 0 <= i < names.len() implies lookup(
        row_view(names, cells, type_debugs, typed),
        #[trigger] names[i]@,
    ) == Some(
        if typed {
            typed_view(cells[i])
        } else {
            legacy_view(cells[i], type_debugs[i]@)
        },
    ) by {
        assert(pairs[i].0 == names[i]@);
    }
}

} // verus!
