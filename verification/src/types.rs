//! Result column types, rendered as DuckDB SQL the way `DESCRIBE` prints them
//! (e.g. `DECIMAL(38,9)`, `TIMESTAMP WITH TIME ZONE`, `STRUCT("a" INTEGER[])`).

use vstd::prelude::*;
use crate::models::Column;
use crate::text::{double_char, double_char_in, push_char, push_str};

verus! {

broadcast use vstd::string::group_string_axioms;

/// The unit of an Arrow time or timestamp.
#[derive(PartialEq, Eq, Structural, Clone, Copy, Debug)]
pub enum TimeUnit {
    Second,
    Millisecond,
    Microsecond,
    Nanosecond,
}

/// A named Arrow field.
#[derive(Debug)]
pub struct ArrowField {
    pub name: String,
    pub data_type: ArrowType,
}

/// An Arrow data type, with what the rendering reads of it.
#[derive(Debug)]
pub enum ArrowType {
    Null,
    Boolean,
    Int8,
    Int16,
    Int32,
    Int64,
    UInt8,
    UInt16,
    UInt32,
    UInt64,
    Float16,
    Float32,
    Float64,
    /// Precision and scale.
    Decimal128(u8, i8),
    /// Precision and scale.
    Decimal256(u8, i8),
    Utf8,
    LargeUtf8,
    Utf8View,
    Binary,
    LargeBinary,
    BinaryView,
    FixedSizeBinary,
    Date32,
    Date64,
    Time32,
    Time64,
    /// The unit, and whether a time zone is attached.
    Timestamp(TimeUnit, bool),
    Interval,
    Duration,
    List(Box<ArrowField>),
    LargeList(Box<ArrowField>),
    FixedSizeList(Box<ArrowField>),
    Struct(Vec<ArrowField>),
    /// The field of the map's entries.
    MapEntries(Box<ArrowField>),
    /// The type of the dictionary's values.
    Dictionary(Box<ArrowType>),
    /// Any other type, by its `Debug` rendering.
    Other(String),
}

/// The DuckDB logical type id of a result column, as far as it changes the
/// rendering: the types Arrow folds into another.
#[derive(PartialEq, Eq, Structural, Clone, Copy, Debug)]
pub enum LogicalKind {
    Hugeint,
    UHugeint,
    Uuid,
    Enum,
    TimeTz,
    Bit,
    Other,
}

/// What `str::to_uppercase` returns for `s` (full Unicode case mapping).
pub uninterp spec fn uppercase(s: Seq<char>) -> Seq<char>;

/// Upper-cases `s` with std's `str::to_uppercase`; the result is named, not
/// spelled out: it is the Unicode uppercase mapping of `s`, char by char.
#[verifier::external_body]
fn to_uppercase(s: &str) -> (r: String)
    ensures
        r@ == uppercase(s@),
{
    s.to_uppercase()
}

/// The decimal digit `d`.
pub open spec fn digit_char(d: int) -> char {
    if d == 0 {
        '0'
    } else if d == 1 {
        '1'
    } else if d == 2 {
        '2'
    } else if d == 3 {
        '3'
    } else if d == 4 {
        '4'
    } else if d == 5 {
        '5'
    } else if d == 6 {
        '6'
    } else if d == 7 {
        '7'
    } else if d == 8 {
        '8'
    } else {
        '9'
    }
}

/// The decimal numeral of `n`, as `format!("{}")` writes it.
pub open spec fn nat_text(n: nat) -> Seq<char>
    decreases n,
{
    if n < 10 {
        seq![digit_char(n as int)]
    } else {
        nat_text(n / 10) + seq![digit_char((n % 10) as int)]
    }
}

/// The decimal numeral of `i`, with a `-` when negative.
pub open spec fn int_text(i: int) -> Seq<char> {
    if i < 0 {
        seq!['-'] + nat_text((-i) as nat)
    } else {
        nat_text(i as nat)
    }
}

fn push_digit(out: &mut String, d: u64)
    requires
        d < 10,
    ensures
        final(out)@ == old(out)@.push(digit_char(d as int)),
{
    let c = if d == 0 {
        '0'
    } else if d == 1 {
        '1'
    } else if d == 2 {
        '2'
    } else if d == 3 {
        '3'
    } else if d == 4 {
        '4'
    } else if d == 5 {
        '5'
    } else if d == 6 {
        '6'
    } else if d == 7 {
        '7'
    } else if d == 8 {
        '8'
    } else {
        '9'
    };
    push_char(out, c);
}

/// Appends the decimal numeral of `n`.
pub fn push_nat(out: &mut String, n: u64)
    ensures
        final(out)@ == old(out)@ + nat_text(n as nat),
    decreases n,
{
    if n < 10 {
        push_digit(out, n);
    } else {
        push_nat(out, n / 10);
        push_digit(out, n % 10);
        assert(old(out)@ + nat_text((n / 10) as nat) + seq![digit_char((n % 10) as int)] =~= old(out)@
            + nat_text(n as nat));
    }
}

/// Appends the decimal numeral of `i`.
pub fn push_int(out: &mut String, i: i64)
    ensures
        final(out)@ == old(out)@ + int_text(i as int),
{
    if i < 0 {
        push_char(out, '-');
        let m: u64 = if i == i64::MIN {
            9223372036854775808u64
        } else {
            (-i) as u64
        };
        push_nat(out, m);
        assert(old(out)@.push('-') + nat_text(m as nat) =~= old(out)@ + int_text(i as int));
    } else {
        push_nat(out, i as u64);
    }
}

/// A struct member as DuckDB writes it: the quoted name, then the type.
pub open spec fn member_text(f: ArrowField) -> Seq<char>
    decreases f, 1int,
{
    seq!['"'] + double_char(f.name@, '"') + seq!['"', ' '] + type_text(f.data_type)
}

/// The members of a struct, separated by `, `.
pub open spec fn members_text(fs: Seq<ArrowField>) -> Seq<char>
    decreases fs, 2int,
{
    if fs.len() == 0 {
        seq![]
    } else if fs.len() == 1 {
        member_text(fs[0])
    } else {
        members_text(fs.drop_last()) + seq![',', ' '] + member_text(fs.last())
    }
}

/// The DuckDB SQL name of an Arrow type.
pub open spec fn type_text(t: ArrowType) -> Seq<char>
    decreases t, 0int,
{
    match t {
        ArrowType::Null => "\"NULL\""@,
        ArrowType::Boolean => "BOOLEAN"@,
        ArrowType::Int8 => "TINYINT"@,
        ArrowType::Int16 => "SMALLINT"@,
        ArrowType::Int32 => "INTEGER"@,
        ArrowType::Int64 => "BIGINT"@,
        ArrowType::UInt8 => "UTINYINT"@,
        ArrowType::UInt16 => "USMALLINT"@,
        ArrowType::UInt32 => "UINTEGER"@,
        ArrowType::UInt64 => "UBIGINT"@,
        ArrowType::Float16 | ArrowType::Float32 => "FLOAT"@,
        ArrowType::Float64 => "DOUBLE"@,
        ArrowType::Decimal128(p, s) | ArrowType::Decimal256(p, s) => "DECIMAL("@ + nat_text(
            p as nat,
        ) + seq![','] + int_text(s as int) + seq![')'],
        ArrowType::Utf8 | ArrowType::LargeUtf8 | ArrowType::Utf8View => "VARCHAR"@,
        ArrowType::Binary
        | ArrowType::LargeBinary
        | ArrowType::BinaryView
        | ArrowType::FixedSizeBinary => "BLOB"@,
        ArrowType::Date32 | ArrowType::Date64 => "DATE"@,
        ArrowType::Time32 | ArrowType::Time64 => "TIME"@,
        ArrowType::Timestamp(unit, zoned) => if zoned {
            "TIMESTAMP WITH TIME ZONE"@
        } else {
            match unit {
                TimeUnit::Second => "TIMESTAMP_S"@,
                TimeUnit::Millisecond => "TIMESTAMP_MS"@,
                TimeUnit::Nanosecond => "TIMESTAMP_NS"@,
                TimeUnit::Microsecond => "TIMESTAMP"@,
            }
        },
        ArrowType::Interval | ArrowType::Duration => "INTERVAL"@,
        ArrowType::List(f) | ArrowType::LargeList(f) | ArrowType::FixedSizeList(f) => type_text(
            f.data_type,
        ) + seq!['[', ']'],
        ArrowType::Struct(fs) => "STRUCT("@ + members_text(fs@) + seq![')'],
        ArrowType::MapEntries(entries) => match entries.data_type {
            ArrowType::Struct(kv) => if kv@.len() == 2 {
                "MAP("@ + type_text(kv@[0].data_type) + seq![',', ' '] + type_text(
                    kv@[1].data_type,
                ) + seq![')']
            } else {
                "MAP"@
            },
            _ => "MAP"@,
        },
        ArrowType::Dictionary(value) => type_text(*value),
        ArrowType::Other(debug) => uppercase(debug@),
    }
}

/// The DuckDB SQL name of a result column's type: the logical type id decides
/// for the types Arrow folds into another, the Arrow type for the rest.
pub open spec fn column_type_text(arrow: ArrowType, logical: LogicalKind) -> Seq<char> {
    match logical {
        LogicalKind::Hugeint => "HUGEINT"@,
        LogicalKind::UHugeint => "UHUGEINT"@,
        LogicalKind::Uuid => "UUID"@,
        LogicalKind::Enum => "ENUM"@,
        LogicalKind::TimeTz => "TIME WITH TIME ZONE"@,
        LogicalKind::Bit => "BIT"@,
        LogicalKind::Other => type_text(arrow),
    }
}

/// Renders a result column's type as DuckDB SQL, the way `DESCRIBE` prints it.
pub fn column_type_sql(arrow: &ArrowType, logical: LogicalKind) -> (r: String)
    ensures
        r@ == column_type_text(*arrow, logical),
{
    match logical {
        LogicalKind::Hugeint => "HUGEINT".to_owned(),
        LogicalKind::UHugeint => "UHUGEINT".to_owned(),
        LogicalKind::Uuid => "UUID".to_owned(),
        LogicalKind::Enum => "ENUM".to_owned(),
        LogicalKind::TimeTz => "TIME WITH TIME ZONE".to_owned(),
        LogicalKind::Bit => "BIT".to_owned(),
        LogicalKind::Other => arrow_type_sql(arrow),
    }
}

fn push_member(out: &mut String, f: &ArrowField)
    ensures
        final(out)@ == old(out)@ + member_text(*f),
    decreases *f, 1int,
{
    push_char(out, '"');
    push_str(out, double_char_in(f.name.as_str(), '"').as_str());
    push_char(out, '"');
    push_char(out, ' ');
    push_type(out, &f.data_type);
    assert(final(out)@ =~= old(out)@ + member_text(*f));
}

fn push_members(out: &mut String, fs: &Vec<ArrowField>)
    ensures
        final(out)@ == old(out)@ + members_text(fs@),
    decreases fs@, 2int,
{
    let mut i: usize = 0;
    while i < fs.len()
        invariant
            i <= fs.len(),
            out@ == old(out)@ + members_text(fs@.take(i as int)),
        decreases fs.len() - i,
    {
        if i > 0 {
            push_char(out, ',');
            push_char(out, ' ');
        }
        assert(decreases_to!(fs@ => fs@[i as int]));
        push_member(out, &fs[i]);
        proof {
            let t = fs@.take(i + 1);
            assert(t.drop_last() =~= fs@.take(i as int));
            if i == 0 {
                assert(t.len() == 1);
            }
        }
        i += 1;
    }
    assert(fs@.take(fs@.len() as int) =~= fs@);
}

fn push_type(out: &mut String, t: &ArrowType)
    ensures
        final(out)@ == old(out)@ + type_text(*t),
    decreases *t, 0int,
{
    match t {
        ArrowType::Null => push_str(out, "\"NULL\""),
        ArrowType::Boolean => push_str(out, "BOOLEAN"),
        ArrowType::Int8 => push_str(out, "TINYINT"),
        ArrowType::Int16 => push_str(out, "SMALLINT"),
        ArrowType::Int32 => push_str(out, "INTEGER"),
        ArrowType::Int64 => push_str(out, "BIGINT"),
        ArrowType::UInt8 => push_str(out, "UTINYINT"),
        ArrowType::UInt16 => push_str(out, "USMALLINT"),
        ArrowType::UInt32 => push_str(out, "UINTEGER"),
        ArrowType::UInt64 => push_str(out, "UBIGINT"),
        ArrowType::Float16 | ArrowType::Float32 => push_str(out, "FLOAT"),
        ArrowType::Float64 => push_str(out, "DOUBLE"),
        ArrowType::Decimal128(p, s) | ArrowType::Decimal256(p, s) => {
            push_str(out, "DECIMAL(");
            push_nat(out, *p as u64);
            push_char(out, ',');
            push_int(out, *s as i64);
            push_char(out, ')');
            assert(final(out)@ =~= old(out)@ + type_text(*t));
        },
        ArrowType::Utf8 | ArrowType::LargeUtf8 | ArrowType::Utf8View => push_str(out, "VARCHAR"),
        ArrowType::Binary
        | ArrowType::LargeBinary
        | ArrowType::BinaryView
        | ArrowType::FixedSizeBinary => push_str(out, "BLOB"),
        ArrowType::Date32 | ArrowType::Date64 => push_str(out, "DATE"),
        ArrowType::Time32 | ArrowType::Time64 => push_str(out, "TIME"),
        ArrowType::Timestamp(unit, zoned) => {
            if *zoned {
                push_str(out, "TIMESTAMP WITH TIME ZONE");
            } else {
                match unit {
                    TimeUnit::Second => push_str(out, "TIMESTAMP_S"),
                    TimeUnit::Millisecond => push_str(out, "TIMESTAMP_MS"),
                    TimeUnit::Nanosecond => push_str(out, "TIMESTAMP_NS"),
                    TimeUnit::Microsecond => push_str(out, "TIMESTAMP"),
                }
            }
        },
        ArrowType::Interval | ArrowType::Duration => push_str(out, "INTERVAL"),
        ArrowType::List(f) | ArrowType::LargeList(f) | ArrowType::FixedSizeList(f) => {
            push_type(out, &f.data_type);
            push_char(out, '[');
            push_char(out, ']');
            assert(final(out)@ =~= old(out)@ + type_text(*t));
        },
        ArrowType::Struct(fs) => {
            push_str(out, "STRUCT(");
            push_members(out, fs);
            push_char(out, ')');
            assert(final(out)@ =~= old(out)@ + type_text(*t));
        },
        ArrowType::MapEntries(entries) => {
            match &entries.data_type {
                ArrowType::Struct(kv) => {
                    if kv.len() == 2 {
                        push_str(out, "MAP(");
                        assert(decreases_to!(kv@ => kv@[0]));
                        push_type(out, &kv[0].data_type);
                        push_char(out, ',');
                        push_char(out, ' ');
                        assert(decreases_to!(kv@ => kv@[1]));
                        push_type(out, &kv[1].data_type);
                        push_char(out, ')');
                        assert(final(out)@ =~= old(out)@ + type_text(*t));
                    } else {
                        push_str(out, "MAP");
                    }
                },
                _ => push_str(out, "MAP"),
            }
        },
        ArrowType::Dictionary(value) => push_type(out, value),
        ArrowType::Other(debug) => push_str(out, to_uppercase(debug.as_str()).as_str()),
    }
}

/// Renders an Arrow type as DuckDB SQL.
pub fn arrow_type_sql(t: &ArrowType) -> (r: String)
    ensures
        r@ == type_text(*t),
{
    let mut r = String::new();
    push_type(&mut r, t);
    r
}

/// A field of a result's schema, with the DuckDB logical type of its column.
#[derive(Debug)]
pub struct ResultField {
    pub name: String,
    pub data_type: ArrowType,
    pub logical: LogicalKind,
}

/// A column's name and type, as text.
pub open spec fn column_view(c: Column) -> (Seq<char>, Seq<char>) {
    (c.name@, c.sql_type@)
}

/// The names and types of the columns.
pub open spec fn columns_view(cs: Seq<Column>) -> Seq<(Seq<char>, Seq<char>)> {
    Seq::new(cs.len(), |i: int| column_view(cs[i]))
}

/// The columns of a result: each field's name, and its type as DuckDB SQL.
pub open spec fn result_columns_view(fields: Seq<ResultField>) -> Seq<(Seq<char>, Seq<char>)> {
    Seq::new(fields.len(), |i: int| (fields[i].name@, column_type_text(fields[i].data_type, fields[i].logical)))
}

/// The columns of a result, named as in its schema, typed as DuckDB SQL.
pub fn result_columns(fields: &Vec<ResultField>) -> (r: Vec<Column>)
    ensures
        columns_view(r@) == result_columns_view(fields@),
{
    let mut r: Vec<Column> = Vec::new();
    let mut i: usize = 0;
    while i < fields.len()
        invariant
            i <= fields.len(),
            columns_view(r@) == result_columns_view(fields@).take(i as int),
        decreases fields.len() - i,
    {
        let f = &fields[i];
        let ghost prev = r@;
        r.push(Column { name: f.name.clone(), sql_type: column_type_sql(&f.data_type, f.logical) });
        assert(columns_view(r@) =~= columns_view(prev).push(column_view(r@[i as int])));
        assert(result_columns_view(fields@).take(i + 1) =~= result_columns_view(fields@).take(
            i as int,
        ).push(result_columns_view(fields@)[i as int]));
        i += 1;
    }
    assert(result_columns_view(fields@).take(fields@.len() as int) =~= result_columns_view(fields@));
    r
}

/// The second element of each pair.
pub open spec fn second_texts(d: Seq<(String, String)>) -> Seq<Seq<char>> {
    Seq::new(d.len(), |i: int| d[i].1@)
}

/// The columns after `DESCRIBE`: when it described exactly as many columns,
/// each keeps its name and takes the described type; otherwise nothing changes.
pub open spec fn described_view(
    columns: Seq<(Seq<char>, Seq<char>)>,
    described: Option<Seq<(String, String)>>,
) -> Seq<(Seq<char>, Seq<char>)> {
    match described {
        Some(d) => if d.len() == columns.len() {
            Seq::new(columns.len(), |i: int| (columns[i].0, d[i].1@))
        } else {
            columns
        },
        None => columns,
    }
}

/// The view of an optional list of pairs.
pub open spec fn opt_pairs(o: Option<Vec<(String, String)>>) -> Option<Seq<(String, String)>> {
    match o {
        Some(v) => Some(v@),
        None => None,
    }
}

/// Replaces the Arrow-derived type names with the ones `DESCRIBE` reported
/// (Arrow folds aliases such as `JSON` into `VARCHAR`); `described` is `None`
/// when the statement could not be described (DML, DDL), and the columns then
/// keep their names.
pub fn with_described_types(columns: Vec<Column>, described: Option<Vec<(String, String)>>) -> (r: Vec<Column>)
    ensures
        columns_view(r@) == described_view(columns_view(columns@), opt_pairs(described)),
{
    match described {
        Some(d) => {
            if d.len() == columns.len() {
                let mut r: Vec<Column> = Vec::new();
                let mut i: usize = 0;
                while i < columns.len()
                    invariant
                        i <= columns.len() == d.len(),
                        columns_view(r@) == described_view(columns_view(columns@), Some(d@)).take(i as int),
                    decreases columns.len() - i,
                {
                    let ghost prev = r@;
                    r.push(Column { name: columns[i].name.clone(), sql_type: d[i].1.clone() });
                    assert(columns_view(r@) =~= columns_view(prev).push(column_view(r@[i as int])));
                    assert(described_view(columns_view(columns@), Some(d@)).take(i + 1)
                        =~= described_view(columns_view(columns@), Some(d@)).take(i as int).push(
                        described_view(columns_view(columns@), Some(d@))[i as int],
                    ));
                    i += 1;
                }
                assert(described_view(columns_view(columns@), Some(d@)).take(columns@.len() as int)
                    =~= described_view(columns_view(columns@), Some(d@)));
                r
            } else {
                columns
            }
        },
        None => columns,
    }
}

/// Each scalar Arrow type a plain column can have is reported by DuckDB's
/// name for it, and columns whose logical type Arrow cannot show by DuckDB's
/// own name for that type.
pub proof fn lemma_scalar_type_names(unit: TimeUnit, arrow: ArrowType)
    ensures
        column_type_text(ArrowType::Boolean, LogicalKind::Other) == "BOOLEAN"@,
        column_type_text(ArrowType::Int8, LogicalKind::Other) == "TINYINT"@,
        column_type_text(ArrowType::Int16, LogicalKind::Other) == "SMALLINT"@,
        column_type_text(ArrowType::Int32, LogicalKind::Other) == "INTEGER"@,
        column_type_text(ArrowType::Int64, LogicalKind::Other) == "BIGINT"@,
        column_type_text(ArrowType::UInt8, LogicalKind::Other) == "UTINYINT"@,
        column_type_text(ArrowType::UInt16, LogicalKind::Other) == "USMALLINT"@,
        column_type_text(ArrowType::UInt32, LogicalKind::Other) == "UINTEGER"@,
        column_type_text(ArrowType::UInt64, LogicalKind::Other) == "UBIGINT"@,
        column_type_text(ArrowType::Float32, LogicalKind::Other) == "FLOAT"@,
        column_type_text(ArrowType::Float64, LogicalKind::Other) == "DOUBLE"@,
        column_type_text(ArrowType::Utf8, LogicalKind::Other) == "VARCHAR"@,
        column_type_text(ArrowType::Binary, LogicalKind::Other) == "BLOB"@,
        column_type_text(ArrowType::Date32, LogicalKind::Other) == "DATE"@,
        column_type_text(ArrowType::Time64, LogicalKind::Other) == "TIME"@,
        column_type_text(ArrowType::Interval, LogicalKind::Other) == "INTERVAL"@,
        column_type_text(ArrowType::Timestamp(unit, true), LogicalKind::Other) == "TIMESTAMP WITH TIME ZONE"@,
        column_type_text(ArrowType::Timestamp(TimeUnit::Microsecond, false), LogicalKind::Other) == "TIMESTAMP"@,
        column_type_text(ArrowType::Timestamp(TimeUnit::Second, false), LogicalKind::Other) == "TIMESTAMP_S"@,
        column_type_text(ArrowType::Timestamp(TimeUnit::Millisecond, false), LogicalKind::Other) == "TIMESTAMP_MS"@,
        column_type_text(ArrowType::Timestamp(TimeUnit::Nanosecond, false), LogicalKind::Other) == "TIMESTAMP_NS"@,
        column_type_text(arrow, LogicalKind::Hugeint) == "HUGEINT"@,
        column_type_text(arrow, LogicalKind::UHugeint) == "UHUGEINT"@,
        column_type_text(arrow, LogicalKind::Uuid) == "UUID"@,
        column_type_text(arrow, LogicalKind::Enum) == "ENUM"@,
        column_type_text(arrow, LogicalKind::TimeTz) == "TIME WITH TIME ZONE"@,
        column_type_text(arrow, LogicalKind::Bit) == "BIT"@,
{
}

/// The integer types are told apart: no two of them get the same name.
pub proof fn lemma_integer_type_names_differ(a: ArrowType, b: ArrowType)
    requires
        a is Int8 || a is Int16 || a is Int32 || a is Int64 || a is UInt8 || a is UInt16 || a is UInt32 || a is UInt64,
        b is Int8 || b is Int16 || b is Int32 || b is Int64 || b is UInt8 || b is UInt16 || b is UInt32 || b is UInt64,
        a != b,
    ensures
        type_text(a) != type_text(b),
{
    reveal_strlit("TINYINT");
    reveal_strlit("SMALLINT");
    reveal_strlit("INTEGER");
    reveal_strlit("BIGINT");
    reveal_strlit("UTINYINT");
    reveal_strlit("USMALLINT");
    reveal_strlit("UINTEGER");
    reveal_strlit("UBIGINT");
    let x = type_text(a);
    let y = type_text(b);
    if x == y {
        assert(x.len() == y.len());
        assert(x[0] == y[0]);
        assert(x[1] == y[1]);
    }
}

} // verus!
