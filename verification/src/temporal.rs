//! Text of decimal, date, time and timestamp values, as Arrow renders them.

use vstd::prelude::*;
use crate::types::{int_text, nat_text, TimeUnit};

verus! {

/// `n` zeros.
pub open spec fn zeros(n: int) -> Seq<char> {
    Seq::new(if n > 0 { n as nat } else { 0 }, |i: int| '0')
}

/// The unscaled decimal `value` with `scale` fractional digits: the decimal
/// point is inserted `scale` digits from the right, with leading zeros as
/// needed; a negative scale appends zeros instead (none to zero).
pub open spec fn decimal_text(value: int, scale: int) -> Seq<char> {
    let s = int_text(value);
    let digits = nat_text(if value < 0 { (-value) as nat } else { value as nat });
    let sign = if value < 0 { seq!['-'] } else { seq![] };
    if scale == 0 {
        s
    } else if scale < 0 {
        if digits == seq!['0'] {
            s
        } else {
            s + zeros(-scale)
        }
    } else if digits.len() > scale {
        s.take(s.len() - scale) + seq!['.'] + s.skip(s.len() - scale)
    } else {
        sign + seq!['0', '.'] + zeros(scale - digits.len()) + digits
    }
}

/// Renders an unscaled 256-bit decimal, given as its high and low halves,
/// with arrow's `arrow_data::decimal::format_decimal`, whose text the contract
/// spells out.
#[verifier::external_body]
pub(crate) fn format_decimal256(high: i128, low: u128, scale: i8) -> (r: String)
    ensures
        r@ == decimal_text(high as int * 0x1_0000_0000_0000_0000_0000_0000_0000_0000 + low as int, scale as int),
{
    let value = <arrow_array::types::Decimal256Type as arrow_array::ArrowPrimitiveType>::Native::from_parts(low, high);
    arrow_data::decimal::format_decimal(value, scale)
}

/// Renders an unscaled 128-bit decimal with arrow's
/// `arrow_data::decimal::format_decimal`, whose text the contract spells out.
#[verifier::external_body]
pub(crate) fn format_decimal(value: i128, scale: i8) -> (r: String)
    ensures
        r@ == decimal_text(value as int, scale as int),
{
    arrow_data::decimal::format_decimal(value, scale)
}

/// What arrow's `timestamp_s_to_datetime` followed by chrono's `format` with
/// `pattern` gives for `v` seconds since the epoch (`None` when out of range).
pub uninterp spec fn timestamp_s_format(v: i64, pattern: Seq<char>) -> Option<Seq<char>>;

/// As `timestamp_s_format`, for milliseconds (`timestamp_ms_to_datetime`).
pub uninterp spec fn timestamp_ms_format(v: i64, pattern: Seq<char>) -> Option<Seq<char>>;

/// As `timestamp_s_format`, for microseconds (`timestamp_us_to_datetime`).
pub uninterp spec fn timestamp_us_format(v: i64, pattern: Seq<char>) -> Option<Seq<char>>;

/// As `timestamp_s_format`, for nanoseconds (`timestamp_ns_to_datetime`).
pub uninterp spec fn timestamp_ns_format(v: i64, pattern: Seq<char>) -> Option<Seq<char>>;

/// The view of an optional string.
pub open spec fn opt_text(o: Option<String>) -> Option<Seq<char>> {
    match o {
        Some(s) => Some(s@),
        None => None,
    }
}

/// Calls arrow's `timestamp_s_to_datetime` and formats the date-time with
/// chrono's `format(pattern)`; the text is named, not spelled out. Only the
/// ISO-8601 pattern is admitted: chrono reports a malformed pattern only
/// while writing, where `to_string` would panic.
#[verifier::external_body]
fn timestamp_s_text(v: i64, pattern: &str) -> (r: Option<String>)
    requires
        pattern@ == iso_pattern(),
    ensures
        opt_text(r) == timestamp_s_format(v, pattern@),
{
    match arrow_array::temporal_conversions::timestamp_s_to_datetime(v) {
        Some(dt) => Some(dt.format(pattern).to_string()),
        None => None,
    }
}

/// Calls arrow's `timestamp_ms_to_datetime` and formats the date-time with
/// chrono's `format(pattern)`; the text is named, not spelled out. Only the
/// ISO-8601 pattern is admitted: chrono reports a malformed pattern only
/// while writing, where `to_string` would panic.
#[verifier::external_body]
fn timestamp_ms_text(v: i64, pattern: &str) -> (r: Option<String>)
    requires
        pattern@ == iso_pattern(),
    ensures
        opt_text(r) == timestamp_ms_format(v, pattern@),
{
    match arrow_array::temporal_conversions::timestamp_ms_to_datetime(v) {
        Some(dt) => Some(dt.format(pattern).to_string()),
        None => None,
    }
}

/// Calls arrow's `timestamp_us_to_datetime` and formats the date-time with
/// chrono's `format(pattern)`; the text is named, not spelled out. Only the
/// ISO-8601 pattern is admitted: chrono reports a malformed pattern only
/// while writing, where `to_string` would panic.
#[verifier::external_body]
fn timestamp_us_text(v: i64, pattern: &str) -> (r: Option<String>)
    requires
        pattern@ == iso_pattern(),
    ensures
        opt_text(r) == timestamp_us_format(v, pattern@),
{
    match arrow_array::temporal_conversions::timestamp_us_to_datetime(v) {
        Some(dt) => Some(dt.format(pattern).to_string()),
        None => None,
    }
}

/// Calls arrow's `timestamp_ns_to_datetime` and formats the date-time with
/// chrono's `format(pattern)`; the text is named, not spelled out. Only the
/// ISO-8601 pattern is admitted: chrono reports a malformed pattern only
/// while writing, where `to_string` would panic.
#[verifier::external_body]
fn timestamp_ns_text(v: i64, pattern: &str) -> (r: Option<String>)
    requires
        pattern@ == iso_pattern(),
    ensures
        opt_text(r) == timestamp_ns_format(v, pattern@),
{
    match arrow_array::temporal_conversions::timestamp_ns_to_datetime(v) {
        Some(dt) => Some(dt.format(pattern).to_string()),
        None => None,
    }
}

/// The ISO-8601 date-time pattern, with as many fractional digits as needed.
pub open spec fn iso_pattern() -> Seq<char> {
    "%Y-%m-%dT%H:%M:%S%.f"@
}

/// The ISO-8601 text of a timestamp of the given unit, if it is in range.
pub open spec fn timestamp_iso(v: i64, unit: TimeUnit) -> Option<Seq<char>> {
    match unit {
        TimeUnit::Second => timestamp_s_format(v, iso_pattern()),
        TimeUnit::Millisecond => timestamp_ms_format(v, iso_pattern()),
        TimeUnit::Microsecond => timestamp_us_format(v, iso_pattern()),
        TimeUnit::Nanosecond => timestamp_ns_format(v, iso_pattern()),
    }
}

/// The ISO-8601 text (without zone) of a timestamp of the given unit.
pub fn timestamp_iso_text(v: i64, unit: TimeUnit) -> (r: Option<String>)
    ensures
        opt_text(r) == timestamp_iso(v, unit),
{
    let pattern = "%Y-%m-%dT%H:%M:%S%.f";
    match unit {
        TimeUnit::Second => timestamp_s_text(v, pattern),
        TimeUnit::Millisecond => timestamp_ms_text(v, pattern),
        TimeUnit::Microsecond => timestamp_us_text(v, pattern),
        TimeUnit::Nanosecond => timestamp_ns_text(v, pattern),
    }
}

/// What arrow's default formatter (`ArrayFormatter` with default options)
/// shows for a `Date32` of `v` days since the epoch; `None` when the
/// formatter does not take the type.
pub uninterp spec fn date32_render(v: i32) -> Option<Seq<char>>;

/// As `date32_render`, for a `Time64(Microsecond)` of `v`.
pub uninterp spec fn time64us_render(v: i64) -> Option<Seq<char>>;

/// As `date32_render`, for a `Time64(Nanosecond)` of `v`.
pub uninterp spec fn time64ns_render(v: i64) -> Option<Seq<char>>;

/// As `date32_render`, for an `Interval(MonthDayNano)` of the given months,
/// days and nanoseconds.
pub uninterp spec fn interval_render(months: i32, days: i32, nanos: i64) -> Option<Seq<char>>;

/// Renders a `Date32` value with arrow-cast's `ArrayFormatter` and its
/// default options, on a one-value array; the text is named, not spelled
/// out. With those options a value the formatter cannot convert is shown as
/// an error text, so nothing here panics.
#[verifier::external_body]
pub(crate) fn date32_text(v: i32) -> (r: Option<String>)
    ensures
        opt_text(r) == date32_render(v),
{
    let array = arrow_array::Date32Array::from(vec![v]);
    let options = arrow_cast::display::FormatOptions::default();
    let text = match arrow_cast::display::ArrayFormatter::try_new(&array, &options) {
        Ok(formatter) => Some(formatter.value(0).to_string()),
        Err(_) => None,
    };
    text
}

/// As `date32_text`, for a `Time64(Microsecond)` value.
#[verifier::external_body]
pub(crate) fn time64us_text(v: i64) -> (r: Option<String>)
    ensures
        opt_text(r) == time64us_render(v),
{
    let array = arrow_array::Time64MicrosecondArray::from(vec![v]);
    let options = arrow_cast::display::FormatOptions::default();
    let text = match arrow_cast::display::ArrayFormatter::try_new(&array, &options) {
        Ok(formatter) => Some(formatter.value(0).to_string()),
        Err(_) => None,
    };
    text
}

/// As `date32_text`, for a `Time64(Nanosecond)` value.
#[verifier::external_body]
pub(crate) fn time64ns_text(v: i64) -> (r: Option<String>)
    ensures
        opt_text(r) == time64ns_render(v),
{
    let array = arrow_array::Time64NanosecondArray::from(vec![v]);
    let options = arrow_cast::display::FormatOptions::default();
    let text = match arrow_cast::display::ArrayFormatter::try_new(&array, &options) {
        Ok(formatter) => Some(formatter.value(0).to_string()),
        Err(_) => None,
    };
    text
}

/// As `date32_text`, for an `Interval(MonthDayNano)` value.
#[verifier::external_body]
pub(crate) fn interval_text(months: i32, days: i32, nanos: i64) -> (r: Option<String>)
    ensures
        opt_text(r) == interval_render(months, days, nanos),
{
    let value = arrow_array::types::IntervalMonthDayNano::new(months, days, nanos);
    let array = arrow_array::IntervalMonthDayNanoArray::from(vec![value]);
    let options = arrow_cast::display::FormatOptions::default();
    let text = match arrow_cast::display::ArrayFormatter::try_new(&array, &options) {
        Ok(formatter) => Some(formatter.value(0).to_string()),
        Err(_) => None,
    };
    text
}

} // verus!
