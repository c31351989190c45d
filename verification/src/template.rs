//! Placeholder substitution read as a template: for keys and values without
//! braces, substituting the pairs one by one fills each `{{key}}` of the
//! statement from the map of pairs, whatever their order.

use vstd::prelude::*;
use crate::sql::{placeholder, substitute};
use crate::text::{replace_all, starts_with};

verus! {

/// `k` holds no brace.
pub open spec fn brace_free(k: Seq<char>) -> bool {
    forall|i: int| 0 <= i < k.len() ==> k[i] != '{' && k[i] != '}'
}

/// `k` holds no `{`.
pub open spec fn no_open_brace(k: Seq<char>) -> bool {
    forall|i: int| 0 <= i < k.len() ==> k[i] != '{'
}

/// How many characters at the front of `t` are not braces.
pub open spec fn key_len(t: Seq<char>) -> nat
    decreases t.len(),
{
    if t.len() > 0 && t[0] != '{' && t[0] != '}' {
        1 + key_len(t.skip(1))
    } else {
        0
    }
}

/// The key of the placeholder `{{key}}` (key without braces) that `s` starts
/// with, if any.
pub open spec fn placeholder_at(s: Seq<char>) -> Option<Seq<char>> {
    if s.len() >= 4 && s[0] == '{' && s[1] == '{' {
        let n = key_len(s.skip(2)) as int;
        if 4 + n <= s.len() && s[2 + n] == '}' && s[3 + n] == '}' {
            Some(s.subrange(2, 2 + n))
        } else {
            None
        }
    } else {
        None
    }
}

/// Every `{{` of `s` starts a placeholder whose key holds no brace.
pub open spec fn is_template(s: Seq<char>) -> bool
    decreases s.len(),
{
    if s.len() == 0 {
        true
    } else {
        match placeholder_at(s) {
            Some(k) => is_template(s.skip(k.len() + 4int)),
            None => !(s.len() >= 2 && s[0] == '{' && s[1] == '{') && is_template(s.skip(1)),
        }
    }
}

/// `s` with each placeholder whose key the map holds replaced by its value,
/// and everything else kept.
pub open spec fn fill(s: Seq<char>, m: Map<Seq<char>, Seq<char>>) -> Seq<char>
    decreases s.len(),
{
    if s.len() == 0 {
        s
    } else {
        match placeholder_at(s) {
            Some(k) => (if m.contains_key(k) {
                m[k]
            } else {
                placeholder(k)
            }) + fill(s.skip(k.len() + 4int), m),
            None => seq![s[0]] + fill(s.skip(1), m),
        }
    }
}

/// The map of the pairs: each key to its value.
pub open spec fn map_of(vars: Seq<(Seq<char>, Seq<char>)>) -> Map<Seq<char>, Seq<char>>
    decreases vars.len(),
{
    if vars.len() == 0 {
        Map::empty()
    } else {
        map_of(vars.drop_last()).insert(vars.last().0, vars.last().1)
    }
}

proof fn lemma_key_len(t: Seq<char>)
    ensures
        key_len(t) <= t.len(),
        forall|i: int| 0 <= i < key_len(t) ==> t[i] != '{' && t[i] != '}',
        key_len(t) < t.len() ==> (t[key_len(t) as int] == '{' || t[key_len(t) as int] == '}'),
    decreases t.len(),
{
    if t.len() > 0 && t[0] != '{' && t[0] != '}' {
        lemma_key_len(t.skip(1));
        assert forall|i: int| 0 <= i < key_len(t) implies t[i] != '{' && t[i] != '}' by {
            if i > 0 {
                assert(t[i] == t.skip(1)[i - 1]);
            }
        }
    }
}

proof fn lemma_placeholder_at(s: Seq<char>)
    ensures
        placeholder_at(s) matches Some(k) ==> brace_free(k) && s.len() >= k.len() + 4 && s.take(
            k.len() + 4int,
        ) == placeholder(k),
{
    if s.len() >= 4 && s[0] == '{' && s[1] == '{' {
        lemma_key_len(s.skip(2));
        let n = key_len(s.skip(2)) as int;
        if 4 + n <= s.len() && s[2 + n] == '}' && s[3 + n] == '}' {
            let k = s.subrange(2, 2 + n);
            assert forall|i: int| 0 <= i < k.len() implies k[i] != '{' && k[i] != '}' by {
                assert(k[i] == s.skip(2)[i]);
            }
            assert(s.take(k.len() + 4int) =~= placeholder(k));
        }
    }
}

proof fn lemma_placeholder_recognized(k: Seq<char>, y: Seq<char>)
    requires
        brace_free(k),
    ensures
        placeholder_at(placeholder(k) + y) == Some(k),
{
    let s = placeholder(k) + y;
    let t = s.skip(2);
    lemma_key_len(t);
    let n = key_len(t) as int;
    assert forall|i: int| 0 <= i < k.len() implies t[i] == k[i] by {}
    if n < k.len() {
        assert(t[n] == k[n]);
    }
    if n > k.len() {
        assert(t[k.len() as int] == '}');
    }
    assert(n == k.len()) by {
        lemma_key_len_at_least(t, k.len());
    }
    assert(s.subrange(2, 2 + n) =~= k);
}

proof fn lemma_key_len_at_least(t: Seq<char>, n: nat)
    requires
        n <= t.len(),
        forall|i: int| 0 <= i < n ==> t[i] != '{' && t[i] != '}',
        n < t.len() ==> t[n as int] == '}',
    ensures
        key_len(t) == n,
    decreases n,
{
    if n > 0 {
        assert forall|i: int| 0 <= i < n - 1 implies t.skip(1)[i] != '{' && t.skip(1)[i] != '}' by {
            assert(t.skip(1)[i] == t[i + 1]);
        }
        if n - 1 < t.skip(1).len() {
            assert(t.skip(1)[n - 1] == t[n as int]);
        }
        lemma_key_len_at_least(t.skip(1), (n - 1) as nat);
    }
}

/// A prefix in which no occurrence of `p` starts is kept as it is.
proof fn lemma_replace_keeps_prefix(x: Seq<char>, y: Seq<char>, p: Seq<char>, v: Seq<char>)
    requires
        p.len() > 0,
        forall|i: int| 0 <= i < x.len() ==> !starts_with(#[trigger] (x + y).skip(i), p),
    ensures
        replace_all(x + y, p, v) == x + replace_all(y, p, v),
    decreases x.len(),
{
    if x.len() > 0 {
        let s = x + y;
        assert(s.skip(0) =~= s);
        assert(s.skip(1) =~= x.skip(1) + y);
        assert forall|i: int| 0 <= i < x.skip(1).len() implies !starts_with(
            #[trigger] (x.skip(1) + y).skip(i),
            p,
        ) by {
            assert((x.skip(1) + y).skip(i) =~= s.skip(i + 1));
        }
        lemma_replace_keeps_prefix(x.skip(1), y, p, v);
        assert(seq![s[0]] + (x.skip(1) + replace_all(y, p, v)) =~= x + replace_all(y, p, v));
    } else {
        assert(x + y =~= y);
    }
}

proof fn lemma_no_open_prefix(x: Seq<char>, y: Seq<char>, p: Seq<char>)
    requires
        p.len() > 0,
        p[0] == '{',
        no_open_brace(x),
    ensures
        forall|i: int| 0 <= i < x.len() ==> !starts_with(#[trigger] (x + y).skip(i), p),
{
    assert forall|i: int| 0 <= i < x.len() implies !starts_with(#[trigger] (x + y).skip(i), p) by {
        if starts_with((x + y).skip(i), p) {
            assert((x + y).skip(i).subrange(0, p.len() as int)[0] == (x + y)[i]);
        }
    }
}

proof fn lemma_other_placeholder_prefix(k: Seq<char>, k2: Seq<char>, y: Seq<char>, v: Seq<char>)
    requires
        brace_free(k),
        brace_free(k2),
        k != k2,
    ensures
        replace_all(placeholder(k2) + y, placeholder(k), v) == placeholder(k2) + replace_all(
            y,
            placeholder(k),
            v,
        ),
{
    let x = placeholder(k2);
    let p = placeholder(k);
    let s = x + y;
    assert forall|i: int| 0 <= i < x.len() implies !starts_with(#[trigger] s.skip(i), p) by {
        if starts_with(s.skip(i), p) {
            let w = s.skip(i).subrange(0, p.len() as int);
            assert(w[0] == s[i]);
            if i == 0 {
                if k.len() <= k2.len() {
                    if k.len() == k2.len() {
                        assert(k =~= k2) by {
                            assert forall|j: int| 0 <= j < k.len() implies k[j] == k2[j] by {
                                assert(w[j + 2] == s[j + 2]);
                            }
                        }
                    } else {
                        assert(w[k.len() + 2int] == s[k.len() + 2int]);
                    }
                } else {
                    assert(w[k2.len() + 2int] == s[k2.len() + 2int]);
                }
            } else if i == 1 {
                assert(w[1] == s[2]);
            } else {
                assert(s[i] == x[i]);
            }
        }
    }
    lemma_replace_keeps_prefix(x, y, p, v);
}

proof fn lemma_fill_first(t: Seq<char>, m: Map<Seq<char>, Seq<char>>)
    requires
        t.len() > 0,
        t[0] != '{',
    ensures
        fill(t, m).len() > 0,
        fill(t, m)[0] == t[0],
{
}

proof fn lemma_fill_step(
    s: Seq<char>,
    m: Map<Seq<char>, Seq<char>>,
    k: Seq<char>,
    v: Seq<char>,
)
    requires
        is_template(s),
        brace_free(k),
        no_open_brace(v),
        !m.contains_key(k),
        forall|key: Seq<char>| #[trigger] m.contains_key(key) ==> no_open_brace(m[key]),
    ensures
        replace_all(fill(s, m), placeholder(k), v) == fill(s, m.insert(k, v)),
    decreases s.len(),
{
    let p = placeholder(k);
    let m2 = m.insert(k, v);
    if s.len() == 0 {
    } else {
        lemma_placeholder_at(s);
        match placeholder_at(s) {
            Some(k2) => {
                let rest = s.skip(k2.len() + 4int);
                lemma_fill_step(rest, m, k, v);
                let y = fill(rest, m);
                if k2 == k {
                    let t = p + y;
                    assert(t.subrange(0, p.len() as int) =~= p);
                    assert(t.skip(p.len() as int) =~= y);
                } else if m.contains_key(k2) {
                    lemma_no_open_prefix(m[k2], y, p);
                    lemma_replace_keeps_prefix(m[k2], y, p, v);
                } else {
                    lemma_other_placeholder_prefix(k, k2, y, v);
                }
            },
            None => {
                let rest = s.skip(1);
                lemma_fill_step(rest, m, k, v);
                let y = fill(rest, m);
                let x = seq![s[0]];
                assert forall|i: int| 0 <= i < x.len() implies !starts_with(#[trigger] (x + y).skip(i), p) by {
                    if starts_with((x + y).skip(i), p) {
                        let w = (x + y).skip(i).subrange(0, p.len() as int);
                        assert(w[0] == s[0]);
                        assert(s.len() >= 2);
                        assert(rest[0] == s[1]);
                        lemma_fill_first(rest, m);
                        assert(w[1] == y[0]);
                    }
                }
                lemma_replace_keeps_prefix(x, y, p, v);
            },
        }
    }
}

proof fn lemma_fill_empty(s: Seq<char>)
    ensures
        fill(s, Map::empty()) == s,
    decreases s.len(),
{
    if s.len() > 0 {
        lemma_placeholder_at(s);
        match placeholder_at(s) {
            Some(k) => {
                lemma_fill_empty(s.skip(k.len() + 4int));
                assert(s.take(k.len() + 4int) + s.skip(k.len() + 4int) =~= s);
            },
            None => {
                lemma_fill_empty(s.skip(1));
                assert(seq![s[0]] + s.skip(1) =~= s);
            },
        }
    }
}

proof fn lemma_map_of(vars: Seq<(Seq<char>, Seq<char>)>)
    requires
        forall|i: int| 0 <= i < vars.len() ==> no_open_brace(#[trigger] vars[i].1),
    ensures
        forall|key: Seq<char>| #[trigger] map_of(vars).contains_key(key) ==> no_open_brace(map_of(vars)[key]),
        forall|key: Seq<char>|
            #[trigger] map_of(vars).contains_key(key) ==> exists|i: int| 0 <= i < vars.len() && vars[i].0 == key,
    decreases vars.len(),
{
    if vars.len() > 0 {
        let init = vars.drop_last();
        assert forall|i: int| 0 <= i < init.len() implies no_open_brace(#[trigger] init[i].1) by {
            assert(init[i] == vars[i]);
        }
        lemma_map_of(init);
        let last = vars[vars.len() - 1];
        assert(no_open_brace(last.1));
        assert forall|key: Seq<char>| #[trigger] map_of(vars).contains_key(key) implies no_open_brace(
            map_of(vars)[key],
        ) && exists|i: int| 0 <= i < vars.len() && vars[i].0 == key by {
            if key == last.0 {
                assert(vars[vars.len() - 1].0 == key);
            } else {
                assert(map_of(init).contains_key(key));
                let i = choose|i: int| 0 <= i < init.len() && init[i].0 == key;
                assert(vars[i] == init[i]);
            }
        }
    }
}

/// Substituting pairs whose keys are distinct and hold no brace, and whose
/// values hold no `{`, into a statement whose every `{{` starts a
/// placeholder, fills the statement from the map of the pairs: every
/// `{{key}}` of a key in the map becomes its value, all other text (and the
/// placeholders of other keys) stays. The map, and so the result, does not
/// depend on the order of the pairs.
pub proof fn lemma_substitution_fills_template(sql: Seq<char>, vars: Seq<(Seq<char>, Seq<char>)>)
    requires
        is_template(sql),
        forall|i: int, j: int| 0 <= i < j < vars.len() ==> vars[i].0 != vars[j].0,
        forall|i: int| 0 <= i < vars.len() ==> brace_free(#[trigger] vars[i].0),
        forall|i: int| 0 <= i < vars.len() ==> no_open_brace(#[trigger] vars[i].1),
    ensures
        substitute(sql, vars) == fill(sql, map_of(vars)),
    decreases vars.len(),
{
    if vars.len() == 0 {
        lemma_fill_empty(sql);
    } else {
        let init = vars.drop_last();
        assert forall|i: int, j: int| 0 <= i < j < init.len() implies init[i].0 != init[j].0 by {
            assert(init[i] == vars[i] && init[j] == vars[j]);
        }
        assert forall|i: int| 0 <= i < init.len() implies brace_free(#[trigger] init[i].0) by {
            assert(init[i] == vars[i]);
        }
        assert forall|i: int| 0 <= i < init.len() implies no_open_brace(#[trigger] init[i].1) by {
            assert(init[i] == vars[i]);
        }
        lemma_substitution_fills_template(sql, init);
        lemma_map_of(init);
        let last = vars.last();
        assert(brace_free(vars[vars.len() - 1].0));
        assert(no_open_brace(vars[vars.len() - 1].1));
        if map_of(init).contains_key(last.0) {
            let i = choose|i: int| 0 <= i < init.len() && init[i].0 == last.0;
            assert(vars[i].0 == vars[vars.len() - 1].0);
        }
        lemma_fill_step(sql, map_of(init), last.0, last.1);
    }
}

proof fn lemma_map_of_entry(vars: Seq<(Seq<char>, Seq<char>)>, i: int)
    requires
        0 <= i < vars.len(),
        forall|a: int, b: int| 0 <= a < b < vars.len() ==> vars[a].0 != vars[b].0,
    ensures
        map_of(vars).contains_key(vars[i].0),
        map_of(vars)[vars[i].0] == vars[i].1,
    decreases vars.len(),
{
    if i < vars.len() - 1 {
        let init = vars.drop_last();
        assert forall|a: int, b: int| 0 <= a < b < init.len() implies init[a].0 != init[b].0 by {
            assert(init[a] == vars[a] && init[b] == vars[b]);
        }
        assert(init[i] == vars[i]);
        lemma_map_of_entry(init, i);
    }
}

/// Pairs with distinct keys that hold the same pairs, in whatever order,
/// substitute a statement alike (under the conditions of
/// `lemma_substitution_fills_template`): the order in which a map hands out
/// its entries does not change the statement.
pub proof fn lemma_substitution_order_free(
    sql: Seq<char>,
    vars: Seq<(Seq<char>, Seq<char>)>,
    other: Seq<(Seq<char>, Seq<char>)>,
)
    requires
        is_template(sql),
        forall|i: int, j: int| 0 <= i < j < vars.len() ==> vars[i].0 != vars[j].0,
        forall|i: int| 0 <= i < vars.len() ==> brace_free(#[trigger] vars[i].0),
        forall|i: int| 0 <= i < vars.len() ==> no_open_brace(#[trigger] vars[i].1),
        forall|i: int, j: int| 0 <= i < j < other.len() ==> other[i].0 != other[j].0,
        forall|i: int| 0 <= i < other.len() ==> brace_free(#[trigger] other[i].0),
        forall|i: int| 0 <= i < other.len() ==> no_open_brace(#[trigger] other[i].1),
        forall|p: (Seq<char>, Seq<char>)| vars.contains(p) <==> other.contains(p),
    ensures
        substitute(sql, vars) == substitute(sql, other),
{
    lemma_substitution_fills_template(sql, vars);
    lemma_substitution_fills_template(sql, other);
    lemma_map_of(vars);
    lemma_map_of(other);
    assert forall|key: Seq<char>| #[trigger] map_of(vars).contains_key(key) implies map_of(
        other,
    ).contains_key(key) && map_of(other)[key] == map_of(vars)[key] by {
        let i = choose|i: int| 0 <= i < vars.len() && vars[i].0 == key;
        lemma_map_of_entry(vars, i);
        assert(vars.contains(vars[i]));
        let j = choose|j: int| 0 <= j < other.len() && other[j] == vars[i];
        lemma_map_of_entry(other, j);
    }
    assert forall|key: Seq<char>| #[trigger] map_of(other).contains_key(key) implies map_of(
        vars,
    ).contains_key(key) by {
        let j = choose|j: int| 0 <= j < other.len() && other[j].0 == key;
        assert(other.contains(other[j]));
        let i = choose|i: int| 0 <= i < vars.len() && vars[i] == other[j];
        lemma_map_of_entry(vars, i);
    }
    assert(map_of(vars) =~= map_of(other));
}

} // verus!
