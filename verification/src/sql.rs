//! The SQL text the service sends to DuckDB: quoting, placeholder
//! substitution, and the statements that configure a connection for S3.

use vstd::prelude::*;
use crate::text::{
    chars_eq, chars_of, double_char, double_char_in, matches_at, push_str, replace_all,
    replace_all_chars, starts_with, string_from_chars, trim_end_char, trim_end_char_in,
    trim_start_str, trim_start_str_in,
};
use crate::models::{opt_view, EnvDefaults};

verus! {

broadcast use vstd::string::group_string_axioms;

/// A string literal's body with its single quotes doubled.
pub open spec fn quoted_body(s: Seq<char>) -> Seq<char> {
    double_char(s, '\'')
}

/// Escapes `s` for use inside a single-quoted SQL literal: every `'` becomes `''`.
pub fn escape_sql(s: &str) -> (r: String)
    ensures
        r@ == quoted_body(s@),
{
    double_char_in(s, '\'')
}

/// The placeholder that stands for `key` in a statement: `{{key}}`.
pub open spec fn placeholder(key: Seq<char>) -> Seq<char> {
    seq!['{', '{'] + key + seq!['}', '}']
}

/// The text of each (key, value) pair.
pub open spec fn pairs_view(v: Seq<(String, String)>) -> Seq<(Seq<char>, Seq<char>)> {
    Seq::new(v.len(), |i: int| (v[i].0@, v[i].1@))
}

/// `sql` after substituting each pair in turn: every `{{key}}` of the text
/// produced so far becomes `value`.
pub open spec fn substitute(sql: Seq<char>, vars: Seq<(Seq<char>, Seq<char>)>) -> Seq<char>
    decreases vars.len(),
{
    if vars.len() == 0 {
        sql
    } else {
        replace_all(substitute(sql, vars.drop_last()), placeholder(vars.last().0), vars.last().1)
    }
}

fn placeholder_chars(key: &str) -> (r: Vec<char>)
    ensures
        r@ == placeholder(key@),
{
    let mut r: Vec<char> = Vec::new();
    r.push('{');
    r.push('{');
    let mut k = chars_of(key);
    r.append(&mut k);
    r.push('}');
    r.push('}');
    assert(r@ =~= placeholder(key@));
    r
}

/// Replaces each `{{key}}` in `sql` by its value, taking the pairs in order.
pub fn apply_variables(sql: &str, variables: &Vec<(String, String)>) -> (r: String)
    ensures
        r@ == substitute(sql@, pairs_view(variables@)),
{
    let mut cur = chars_of(sql);
    let mut k: usize = 0;
    while k < variables.len()
        invariant
            k <= variables.len(),
            cur@ == substitute(sql@, pairs_view(variables@).take(k as int)),
        decreases variables.len() - k,
    {
        let pat = placeholder_chars(variables[k].0.as_str());
        let rep = chars_of(variables[k].1.as_str());
        cur = replace_all_chars(&cur, &pat, &rep);
        assert(pairs_view(variables@).take(k + 1).drop_last() == pairs_view(variables@).take(k as int));
        k += 1;
    }
    assert(pairs_view(variables@).take(variables@.len() as int) == pairs_view(variables@));
    string_from_chars(&cur)
}

/// The endpoint as DuckDB's `s3_endpoint` wants it: without trailing `/` and
/// without a leading `https://` or `http://` (each repetition removed).
pub open spec fn trimmed_endpoint(e: Seq<char>) -> Seq<char> {
    trim_start_str(trim_start_str(trim_end_char(e, '/'), "https://"@), "http://"@)
}

/// Strips the scheme and trailing slashes from an S3 endpoint.
pub fn trim_endpoint(endpoint: &str) -> (r: String)
    ensures
        r@ == trimmed_endpoint(endpoint@),
{
    let v = chars_of(endpoint);
    let a = trim_end_char_in(&v, '/');
    let b = trim_start_str_in(&a, &chars_of("https://"));
    let c = trim_start_str_in(&b, &chars_of("http://"));
    string_from_chars(&c)
}

/// What `str::parse::<bool>` accepts: exactly `true` or `false`.
pub open spec fn parse_bool(s: Seq<char>) -> Option<bool> {
    if s == seq!['t', 'r', 'u', 'e'] {
        Some(true)
    } else if s == seq!['f', 'a', 'l', 's', 'e'] {
        Some(false)
    } else {
        None
    }
}

/// Parses `true` or `false`; anything else is `None`.
pub fn parse_bool_str(s: &str) -> (r: Option<bool>)
    ensures
        r == parse_bool(s@),
{
    let v = chars_of(s);
    if chars_eq(&v, &vec!['t', 'r', 'u', 'e']) {
        Some(true)
    } else if chars_eq(&v, &vec!['f', 'a', 'l', 's', 'e']) {
        Some(false)
    } else {
        None
    }
}

/// The view of an optional string slice.
pub open spec fn opt_str_view(o: Option<&str>) -> Option<Seq<char>> {
    match o {
        Some(s) => Some(s@),
        None => None,
    }
}

/// A setting taken from the request, else from the environment, else `fallback`.
pub open spec fn pick(given: Option<Seq<char>>, env: Option<Seq<char>>, fallback: Seq<char>) -> Seq<char> {
    match given {
        Some(g) => g,
        None => match env {
            Some(e) => e,
            None => fallback,
        },
    }
}

/// Whether to use SSL: the request's choice, else a parseable environment
/// setting, else whether the endpoint is `https://`.
pub open spec fn pick_use_ssl(given: Option<bool>, env: Option<Seq<char>>, endpoint: Seq<char>) -> bool {
    match given {
        Some(b) => b,
        None => match env {
            Some(e) if parse_bool(e) is Some => parse_bool(e)->0,
            _ => starts_with(endpoint, "https://"@),
        },
    }
}

/// The resolved S3 settings: region, access key, secret key, SSL, URL style.
pub open spec fn resolved_s3(
    endpoint: Seq<char>,
    region: Option<Seq<char>>,
    access_key: Option<Seq<char>>,
    secret_key: Option<Seq<char>>,
    use_ssl: Option<bool>,
    url_style: Option<Seq<char>>,
    env: EnvDefaults,
) -> (Seq<char>, Seq<char>, Seq<char>, bool, Seq<char>) {
    (
        pick(region, opt_view(env.s3_region), "us-east-1"@),
        pick(access_key, opt_view(env.s3_access_key), "flociadmin"@),
        pick(secret_key, opt_view(env.s3_secret_key), "flociadmin"@),
        pick_use_ssl(use_ssl, opt_view(env.s3_use_ssl), endpoint),
        pick(url_style, opt_view(env.s3_url_style), "path"@),
    )
}

fn pick_text(given: Option<&str>, env: &Option<String>, fallback: &str) -> (r: String)
    ensures
        r@ == pick(opt_str_view(given), opt_view(*env), fallback@),
{
    match given {
        Some(g) => g.to_owned(),
        None => match env {
            Some(e) => e.clone(),
            None => fallback.to_owned(),
        },
    }
}

/// Resolves the S3 settings of a request against the environment's defaults.
pub fn resolve_s3_params(
    s3_endpoint: &str,
    s3_region: Option<&str>,
    s3_access_key: Option<&str>,
    s3_secret_key: Option<&str>,
    s3_use_ssl: Option<bool>,
    s3_url_style: Option<&str>,
    env: &EnvDefaults,
) -> (r: (String, String, String, bool, String))
    ensures
        (r.0@, r.1@, r.2@, r.3, r.4@) == resolved_s3(
            s3_endpoint@,
            opt_str_view(s3_region),
            opt_str_view(s3_access_key),
            opt_str_view(s3_secret_key),
            s3_use_ssl,
            opt_str_view(s3_url_style),
            *env,
        ),
{
    let region = pick_text(s3_region, &env.s3_region, "us-east-1");
    let access_key = pick_text(s3_access_key, &env.s3_access_key, "flociadmin");
    let secret_key = pick_text(s3_secret_key, &env.s3_secret_key, "flociadmin");
    let endpoint_chars = chars_of(s3_endpoint);
    proof {
        assert(endpoint_chars@.skip(0) == s3_endpoint@);
    }
    let use_ssl = match s3_use_ssl {
        Some(b) => b,
        None => {
            let parsed = match &env.s3_use_ssl {
                Some(e) => parse_bool_str(e.as_str()),
                None => None,
            };
            match parsed {
                Some(b) => b,
                None => matches_at(&endpoint_chars, 0, &chars_of("https://")),
            }
        },
    };
    let url_style = pick_text(s3_url_style, &env.s3_url_style, "path");
    (region, access_key, secret_key, use_ssl, url_style)
}

/// `true` or `false`, as `format!` renders a `bool`.
pub open spec fn bool_text(b: bool) -> Seq<char> {
    if b {
        "true"@
    } else {
        "false"@
    }
}

/// The line break and indentation between two settings.
pub open spec fn setting_break() -> Seq<char> {
    "\n         "@
}

/// The statement that configures S3 access on a connection.
pub open spec fn s3_settings_sql(
    endpoint: Seq<char>,
    region: Seq<char>,
    access_key: Seq<char>,
    secret_key: Seq<char>,
    use_ssl: bool,
    url_style: Seq<char>,
) -> Seq<char> {
    "SET s3_endpoint = '"@ + quoted_body(endpoint) + "';"@ + setting_break() + "SET s3_region = '"@
        + quoted_body(region) + "';"@ + setting_break() + "SET s3_access_key_id = '"@ + quoted_body(
        access_key,
    ) + "';"@ + setting_break() + "SET s3_secret_access_key = '"@ + quoted_body(secret_key) + "';"@
        + setting_break() + "SET s3_use_ssl = "@ + bool_text(use_ssl) + ";"@ + setting_break()
        + "SET s3_url_style = '"@ + quoted_body(url_style) + "';"@
}

/// The batches that load `httpfs` and configure S3 on a connection.
pub open spec fn s3_setup_batches(
    endpoint: Seq<char>,
    p: (Seq<char>, Seq<char>, Seq<char>, bool, Seq<char>),
) -> Seq<Seq<char>> {
    seq!["LOAD httpfs;"@, s3_settings_sql(trimmed_endpoint(endpoint), p.0, p.1, p.2, p.3, p.4)]
}

/// The batches that load `httpfs` and configure S3 access, in order.
pub fn setup_s3(
    s3_endpoint: &str,
    s3_region: &str,
    access_key: &str,
    secret_key: &str,
    use_ssl: bool,
    url_style: &str,
) -> (r: Vec<String>)
    ensures
        strings_view(r@) == s3_setup_batches(
            s3_endpoint@,
            (s3_region@, access_key@, secret_key@, use_ssl, url_style@),
        ),
{
    let endpoint = trim_endpoint(s3_endpoint);
    let mut sql = String::new();
    push_str(&mut sql, "SET s3_endpoint = '");
    push_str(&mut sql, escape_sql(endpoint.as_str()).as_str());
    push_str(&mut sql, "';");
    push_str(&mut sql, "\n         ");
    push_str(&mut sql, "SET s3_region = '");
    push_str(&mut sql, escape_sql(s3_region).as_str());
    push_str(&mut sql, "';");
    push_str(&mut sql, "\n         ");
    push_str(&mut sql, "SET s3_access_key_id = '");
    push_str(&mut sql, escape_sql(access_key).as_str());
    push_str(&mut sql, "';");
    push_str(&mut sql, "\n         ");
    push_str(&mut sql, "SET s3_secret_access_key = '");
    push_str(&mut sql, escape_sql(secret_key).as_str());
    push_str(&mut sql, "';");
    push_str(&mut sql, "\n         ");
    push_str(&mut sql, "SET s3_use_ssl = ");
    push_str(&mut sql, if use_ssl { "true" } else { "false" });
    push_str(&mut sql, ";");
    push_str(&mut sql, "\n         ");
    push_str(&mut sql, "SET s3_url_style = '");
    push_str(&mut sql, escape_sql(url_style).as_str());
    push_str(&mut sql, "';");
    let mut r: Vec<String> = Vec::new();
    r.push("LOAD httpfs;".to_owned());
    r.push(sql);
    assert(strings_view(r@) =~= s3_setup_batches(
        s3_endpoint@,
        (s3_region@, access_key@, secret_key@, use_ssl, url_style@),
    ));
    r
}

/// The text of each string.
pub open spec fn strings_view(v: Seq<String>) -> Seq<Seq<char>> {
    Seq::new(v.len(), |i: int| v[i]@)
}

/// The statement that points DuckDB at an extension directory.
pub open spec fn extension_dir_sql(dir: Seq<char>) -> Seq<char> {
    "SET extension_directory = '"@ + quoted_body(dir) + "';"@
}

/// Builds the statement that points DuckDB at an extension directory.
pub fn set_extension_dir_sql(dir: &str) -> (r: String)
    ensures
        r@ == extension_dir_sql(dir@),
{
    let mut r = String::new();
    push_str(&mut r, "SET extension_directory = '");
    push_str(&mut r, escape_sql(dir).as_str());
    push_str(&mut r, "';");
    r
}

/// The statement that exports a query's result to S3 as CSV with a header.
pub open spec fn athena_copy_sql(sql: Seq<char>, output_path: Seq<char>) -> Seq<char> {
    "COPY ("@ + sql + ") TO '"@ + output_path + "' (FORMAT CSV, HEADER);"@
}

/// Wraps a query so that its result is written to `output_path` as CSV.
pub fn athena_copy(sql: &str, output_path: &str) -> (r: String)
    ensures
        r@ == athena_copy_sql(sql@, output_path@),
{
    let mut r = String::new();
    push_str(&mut r, "COPY (");
    push_str(&mut r, sql);
    push_str(&mut r, ") TO '");
    push_str(&mut r, output_path);
    push_str(&mut r, "' (FORMAT CSV, HEADER);");
    r
}

/// The statement that reports the result columns of `sql` with their types.
pub open spec fn describe_sql_text(sql: Seq<char>) -> Seq<char> {
    "DESCRIBE "@ + sql
}

/// Builds `DESCRIBE <sql>`.
pub fn describe_sql(sql: &str) -> (r: String)
    ensures
        r@ == describe_sql_text(sql@),
{
    let mut r = String::new();
    push_str(&mut r, "DESCRIBE ");
    push_str(&mut r, sql);
    r
}

/// A doubled-quote body read back: each `''` stands for one `'`.
pub open spec fn unquoted_body(s: Seq<char>) -> Seq<char>
    decreases s.len(),
{
    if s.len() >= 2 && s.last() == '\'' && s[s.len() - 2] == '\'' {
        unquoted_body(s.take(s.len() - 2)).push('\'')
    } else if s.len() > 0 {
        unquoted_body(s.drop_last()).push(s.last())
    } else {
        s
    }
}

/// Escaping loses nothing: reading the escaped text back as the body of a
/// quoted SQL literal gives back the text that was escaped.
pub proof fn lemma_escape_round_trip(s: Seq<char>)
    ensures
        unquoted_body(quoted_body(s)) == s,
    decreases s.len(),
{
    if s.len() > 0 {
        lemma_escape_round_trip(s.drop_last());
        let d = double_char(s.drop_last(), '\'');
        if s.last() == '\'' {
            let e = d + seq!['\'', '\''];
            assert(e.take(e.len() - 2) =~= d);
        } else {
            let e = d + seq![s.last()];
            assert(e.drop_last() =~= d);
        }
        assert(s.drop_last().push(s.last()) =~= s);
    }
}

proof fn lemma_replace_absent(s: Seq<char>, pat: Seq<char>, rep: Seq<char>)
    requires
        pat.len() > 0,
        forall|i: int| 0 <= i < s.len() ==> s[i] != pat[0],
    ensures
        replace_all(s, pat, rep) == s,
    decreases s.len(),
{
    if s.len() > 0 {
        assert(!starts_with(s, pat)) by {
            if starts_with(s, pat) {
                assert(s.subrange(0, pat.len() as int)[0] == s[0]);
            }
        }
        lemma_replace_absent(s.skip(1), pat, rep);
        assert(seq![s[0]] + s.skip(1) =~= s);
    }
}

/// Text without `{` holds no placeholder: substitution leaves it as it is.
pub proof fn lemma_plain_sql_unchanged(sql: Seq<char>, vars: Seq<(Seq<char>, Seq<char>)>)
    requires
        forall|i: int| 0 <= i < sql.len() ==> sql[i] != '{',
    ensures
        substitute(sql, vars) == sql,
    decreases vars.len(),
{
    if vars.len() > 0 {
        lemma_plain_sql_unchanged(sql, vars.drop_last());
        lemma_replace_absent(sql, placeholder(vars.last().0), vars.last().1);
    }
}

/// How many times `c` occurs in `s`.
pub open spec fn count_char(s: Seq<char>, c: char) -> nat
    decreases s.len(),
{
    if s.len() == 0 {
        0
    } else {
        count_char(s.drop_last(), c) + if s.last() == c {
            1nat
        } else {
            0nat
        }
    }
}

/// `r` is made of characters other than `q` and of pairs `qq`: every maximal
/// run of `q` has even length, so `r` can stand between two `q`s.
pub open spec fn quotes_paired(r: Seq<char>, q: char) -> bool
    decreases r.len(),
{
    if r.len() == 0 {
        true
    } else if r.last() == q {
        r.len() >= 2 && r[r.len() - 2] == q && quotes_paired(r.take(r.len() - 2), q)
    } else {
        quotes_paired(r.drop_last(), q)
    }
}

/// The escaped text is one character longer per quote, its quotes come in
/// pairs (so it can sit between single quotes in SQL), and text without a
/// quote is left as it is.
pub proof fn lemma_escape_shape(s: Seq<char>)
    ensures
        quoted_body(s).len() == s.len() + count_char(s, '\''),
        quotes_paired(quoted_body(s), '\''),
        count_char(s, '\'') == 0 ==> quoted_body(s) == s,
    decreases s.len(),
{
    if s.len() > 0 {
        lemma_escape_shape(s.drop_last());
        let d = double_char(s.drop_last(), '\'');
        if s.last() == '\'' {
            let e = d + seq!['\'', '\''];
            assert(e.take(e.len() - 2) =~= d);
        } else {
            let e = d + seq![s.last()];
            assert(e.drop_last() =~= d);
            assert(s.drop_last().push(s.last()) =~= s);
        }
    }
}

/// A setting given in the request wins; the environment's value is used only
/// when the request gives none, and the default only when neither does. SSL
/// falls back to an environment setting only when it reads `true` or
/// `false`, and then to whether the endpoint is `https://`.
pub proof fn lemma_request_settings_win(
    endpoint: Seq<char>,
    region: Option<Seq<char>>,
    access_key: Option<Seq<char>>,
    secret_key: Option<Seq<char>>,
    use_ssl: Option<bool>,
    url_style: Option<Seq<char>>,
    env: EnvDefaults,
)
    ensures
        ({
            let r = resolved_s3(endpoint, region, access_key, secret_key, use_ssl, url_style, env);
            &&& region matches Some(v) ==> r.0 == v
            &&& access_key matches Some(v) ==> r.1 == v
            &&& secret_key matches Some(v) ==> r.2 == v
            &&& use_ssl matches Some(v) ==> r.3 == v
            &&& url_style matches Some(v) ==> r.4 == v
            &&& region is None ==> r.0 == (match env.s3_region {
                Some(e) => e@,
                None => "us-east-1"@,
            })
            &&& access_key is None ==> r.1 == (match env.s3_access_key {
                Some(e) => e@,
                None => "flociadmin"@,
            })
            &&& secret_key is None ==> r.2 == (match env.s3_secret_key {
                Some(e) => e@,
                None => "flociadmin"@,
            })
            &&& url_style is None ==> r.4 == (match env.s3_url_style {
                Some(e) => e@,
                None => "path"@,
            })
            &&& use_ssl is None ==> (env.s3_use_ssl matches Some(e) && e@ == "true"@ ==> r.3)
            &&& use_ssl is None ==> (env.s3_use_ssl matches Some(e) && e@ == "false"@ ==> !r.3)
            &&& use_ssl is None ==> (env.s3_use_ssl matches Some(e) && e@ != "true"@ && e@ != "false"@
                ==> r.3 == starts_with(endpoint, "https://"@))
            &&& use_ssl is None && env.s3_use_ssl is None ==> r.3 == starts_with(endpoint, "https://"@)
        }),
{
    reveal_strlit("true");
    reveal_strlit("false");
    assert("true"@ =~= seq!['t', 'r', 'u', 'e']);
    assert("false"@ =~= seq!['f', 'a', 'l', 's', 'e']);
}

/// `t` occurs in `s`.
pub open spec fn contains_text(s: Seq<char>, t: Seq<char>) -> bool {
    exists|i: int| 0 <= i && i + t.len() <= s.len() && #[trigger] s.subrange(i, i + t.len()) == t
}

proof fn lemma_contains_middle(x: Seq<char>, t: Seq<char>, y: Seq<char>)
    ensures
        contains_text(x + t + y, t),
{
    let s = x + t + y;
    assert(s.subrange(x.len() as int, x.len() + t.len() as int) =~= t);
}

/// The S3 statement sets each setting to the value it is given, quoted as an
/// SQL literal (SSL as `true` or `false`).
pub proof fn lemma_settings_set_each_value(
    endpoint: Seq<char>,
    region: Seq<char>,
    access_key: Seq<char>,
    secret_key: Seq<char>,
    use_ssl: bool,
    url_style: Seq<char>,
)
    ensures
        ({
            let sql = s3_settings_sql(endpoint, region, access_key, secret_key, use_ssl, url_style);
            &&& contains_text(sql, "SET s3_endpoint = '"@ + quoted_body(endpoint) + "';"@)
            &&& contains_text(sql, "SET s3_region = '"@ + quoted_body(region) + "';"@)
            &&& contains_text(sql, "SET s3_access_key_id = '"@ + quoted_body(access_key) + "';"@)
            &&& contains_text(sql, "SET s3_secret_access_key = '"@ + quoted_body(secret_key) + "';"@)
            &&& contains_text(sql, "SET s3_use_ssl = "@ + bool_text(use_ssl) + ";"@)
            &&& contains_text(sql, "SET s3_url_style = '"@ + quoted_body(url_style) + "';"@)
        }),
{
    let sql = s3_settings_sql(endpoint, region, access_key, secret_key, use_ssl, url_style);
    lemma_settings_line_endpoint(endpoint, region, access_key, secret_key, use_ssl, url_style);
    lemma_settings_line_region(endpoint, region, access_key, secret_key, use_ssl, url_style);
    lemma_settings_line_access_key(endpoint, region, access_key, secret_key, use_ssl, url_style);
    lemma_settings_line_secret_key(endpoint, region, access_key, secret_key, use_ssl, url_style);
    lemma_settings_line_use_ssl(endpoint, region, access_key, secret_key, use_ssl, url_style);
    lemma_settings_line_url_style(endpoint, region, access_key, secret_key, use_ssl, url_style);
}

proof fn lemma_settings_line_endpoint(
    endpoint: Seq<char>,
    region: Seq<char>,
    access_key: Seq<char>,
    secret_key: Seq<char>,
    use_ssl: bool,
    url_style: Seq<char>,
)
    ensures
        contains_text(s3_settings_sql(endpoint, region, access_key, secret_key, use_ssl, url_style), "SET s3_endpoint = '"@ + quoted_body(endpoint) + "';"@),
{
    let sql = s3_settings_sql(endpoint, region, access_key, secret_key, use_ssl, url_style);
    let x = Seq::<char>::empty();
    let y = (setting_break() + ("SET s3_region = '"@ + quoted_body(region) + "';"@) + setting_break() + ("SET s3_access_key_id = '"@ + quoted_body(access_key) + "';"@) + setting_break() + ("SET s3_secret_access_key = '"@ + quoted_body(secret_key) + "';"@) + setting_break() + ("SET s3_use_ssl = "@ + bool_text(use_ssl) + ";"@) + setting_break() + ("SET s3_url_style = '"@ + quoted_body(url_style) + "';"@));
    assert(sql =~= x + ("SET s3_endpoint = '"@ + quoted_body(endpoint) + "';"@) + y);
    lemma_contains_middle(x, "SET s3_endpoint = '"@ + quoted_body(endpoint) + "';"@, y);
}

proof fn lemma_settings_line_region(
    endpoint: Seq<char>,
    region: Seq<char>,
    access_key: Seq<char>,
    secret_key: Seq<char>,
    use_ssl: bool,
    url_style: Seq<char>,
)
    ensures
        contains_text(s3_settings_sql(endpoint, region, access_key, secret_key, use_ssl, url_style), "SET s3_region = '"@ + quoted_body(region) + "';"@),
{
    let sql = s3_settings_sql(endpoint, region, access_key, secret_key, use_ssl, url_style);
    let x = (("SET s3_endpoint = '"@ + quoted_body(endpoint) + "';"@) + setting_break());
    let y = (setting_break() + ("SET s3_access_key_id = '"@ + quoted_body(access_key) + "';"@) + setting_break() + ("SET s3_secret_access_key = '"@ + quoted_body(secret_key) + "';"@) + setting_break() + ("SET s3_use_ssl = "@ + bool_text(use_ssl) + ";"@) + setting_break() + ("SET s3_url_style = '"@ + quoted_body(url_style) + "';"@));
    assert(sql =~= x + ("SET s3_region = '"@ + quoted_body(region) + "';"@) + y);
    lemma_contains_middle(x, "SET s3_region = '"@ + quoted_body(region) + "';"@, y);
}

proof fn lemma_settings_line_access_key(
    endpoint: Seq<char>,
    region: Seq<char>,
    access_key: Seq<char>,
    secret_key: Seq<char>,
    use_ssl: bool,
    url_style: Seq<char>,
)
    ensures
        contains_text(s3_settings_sql(endpoint, region, access_key, secret_key, use_ssl, url_style), "SET s3_access_key_id = '"@ + quoted_body(access_key) + "';"@),
{
    let sql = s3_settings_sql(endpoint, region, access_key, secret_key, use_ssl, url_style);
    let x = (("SET s3_endpoint = '"@ + quoted_body(endpoint) + "';"@) + setting_break() + ("SET s3_region = '"@ + quoted_body(region) + "';"@) + setting_break());
    let y = (setting_break() + ("SET s3_secret_access_key = '"@ + quoted_body(secret_key) + "';"@) + setting_break() + ("SET s3_use_ssl = "@ + bool_text(use_ssl) + ";"@) + setting_break() + ("SET s3_url_style = '"@ + quoted_body(url_style) + "';"@));
    assert(sql =~= x + ("SET s3_access_key_id = '"@ + quoted_body(access_key) + "';"@) + y);
    lemma_contains_middle(x, "SET s3_access_key_id = '"@ + quoted_body(access_key) + "';"@, y);
}

proof fn lemma_settings_line_secret_key(
    endpoint: Seq<char>,
    region: Seq<char>,
    access_key: Seq<char>,
    secret_key: Seq<char>,
    use_ssl: bool,
    url_style: Seq<char>,
)
    ensures
        contains_text(s3_settings_sql(endpoint, region, access_key, secret_key, use_ssl, url_style), "SET s3_secret_access_key = '"@ + quoted_body(secret_key) + "';"@),
{
    let sql = s3_settings_sql(endpoint, region, access_key, secret_key, use_ssl, url_style);
    let x = (("SET s3_endpoint = '"@ + quoted_body(endpoint) + "';"@) + setting_break() + ("SET s3_region = '"@ + quoted_body(region) + "';"@) + setting_break() + ("SET s3_access_key_id = '"@ + quoted_body(access_key) + "';"@) + setting_break());
    let y = (setting_break() + ("SET s3_use_ssl = "@ + bool_text(use_ssl) + ";"@) + setting_break() + ("SET s3_url_style = '"@ + quoted_body(url_style) + "';"@));
    assert(sql =~= x + ("SET s3_secret_access_key = '"@ + quoted_body(secret_key) + "';"@) + y);
    lemma_contains_middle(x, "SET s3_secret_access_key = '"@ + quoted_body(secret_key) + "';"@, y);
}

proof fn lemma_settings_line_use_ssl(
    endpoint: Seq<char>,
    region: Seq<char>,
    access_key: Seq<char>,
    secret_key: Seq<char>,
    use_ssl: bool,
    url_style: Seq<char>,
)
    ensures
        contains_text(s3_settings_sql(endpoint, region, access_key, secret_key, use_ssl, url_style), "SET s3_use_ssl = "@ + bool_text(use_ssl) + ";"@),
{
    let sql = s3_settings_sql(endpoint, region, access_key, secret_key, use_ssl, url_style);
    let x = (("SET s3_endpoint = '"@ + quoted_body(endpoint) + "';"@) + setting_break() + ("SET s3_region = '"@ + quoted_body(region) + "';"@) + setting_break() + ("SET s3_access_key_id = '"@ + quoted_body(access_key) + "';"@) + setting_break() + ("SET s3_secret_access_key = '"@ + quoted_body(secret_key) + "';"@) + setting_break());
    let y = (setting_break() + ("SET s3_url_style = '"@ + quoted_body(url_style) + "';"@));
    assert(sql =~= x + ("SET s3_use_ssl = "@ + bool_text(use_ssl) + ";"@) + y);
    lemma_contains_middle(x, "SET s3_use_ssl = "@ + bool_text(use_ssl) + ";"@, y);
}

proof fn lemma_settings_line_url_style(
    endpoint: Seq<char>,
    region: Seq<char>,
    access_key: Seq<char>,
    secret_key: Seq<char>,
    use_ssl: bool,
    url_style: Seq<char>,
)
    ensures
        contains_text(s3_settings_sql(endpoint, region, access_key, secret_key, use_ssl, url_style), "SET s3_url_style = '"@ + quoted_body(url_style) + "';"@),
{
    let sql = s3_settings_sql(endpoint, region, access_key, secret_key, use_ssl, url_style);
    let x = (("SET s3_endpoint = '"@ + quoted_body(endpoint) + "';"@) + setting_break() + ("SET s3_region = '"@ + quoted_body(region) + "';"@) + setting_break() + ("SET s3_access_key_id = '"@ + quoted_body(access_key) + "';"@) + setting_break() + ("SET s3_secret_access_key = '"@ + quoted_body(secret_key) + "';"@) + setting_break() + ("SET s3_use_ssl = "@ + bool_text(use_ssl) + ";"@) + setting_break());
    let y = Seq::<char>::empty();
    assert(sql =~= x + ("SET s3_url_style = '"@ + quoted_body(url_style) + "';"@) + y);
    lemma_contains_middle(x, "SET s3_url_style = '"@ + quoted_body(url_style) + "';"@, y);
}

} // verus!
