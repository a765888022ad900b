//! Environment-variable overrides of the configuration tree: `RINFRA_A__B=v`
//! sets `a.b` to `v`, creating objects on the way.
use vstd::prelude::*;
use crate::text::{all_ascii, ascii_lower, chars_of, string_from_chars, sub_chars, to_lowercase, lowercased, spec_lowercase};
use crate::error::{AppError, ErrorCode};
use crate::codec::{
    json_i64_of, json_number_i64, json_number_text, json_number_text_of, json_number_u64, json_shape, json_shape_of,
    json_u64_of, JsonShape,
};
use crate::yaml::{yaml_error_text, yaml_json_of, yaml_json_parses, yaml_to_json};

verus! {

/// A configuration value, as plain data. Fractional numbers are kept as
/// their decimal text.
#[derive(Debug)]
pub enum ConfigValue {
    Null,
    Bool(bool),
    UInt(u64),
    Int(i64),
    Float(String),
    Text(String),
    Array(Vec<ConfigValue>),
    Object(Vec<(String, ConfigValue)>),
}

/// The mathematical form of a configuration value.
pub enum Tree {
    Null,
    Bool(bool),
    UInt(u64),
    Int(i64),
    Float(Seq<char>),
    Text(Seq<char>),
    Array(Seq<Tree>),
    Object(Seq<(Seq<char>, Tree)>),
}

pub open spec fn tree_of(v: ConfigValue) -> Tree
    decreases v, 0nat,
{
    match v {
        ConfigValue::Null => Tree::Null,
        ConfigValue::Bool(b) => Tree::Bool(b),
        ConfigValue::UInt(n) => Tree::UInt(n),
        ConfigValue::Int(n) => Tree::Int(n),
        ConfigValue::Float(s) => Tree::Float(s@),
        ConfigValue::Text(s) => Tree::Text(s@),
        ConfigValue::Array(items) => Tree::Array(trees_of(items@)),
        ConfigValue::Object(entries) => Tree::Object(members_of(entries@)),
    }
}

pub open spec fn trees_of(s: Seq<ConfigValue>) -> Seq<Tree>
    decreases s, s.len(),
{
    if s.len() == 0 { Seq::empty() } else { trees_of(s.drop_last()).push(tree_of(s.last())) }
}

pub open spec fn members_of(s: Seq<(String, ConfigValue)>) -> Seq<(Seq<char>, Tree)>
    decreases s, s.len(),
{
    if s.len() == 0 { Seq::empty() } else { members_of(s.drop_last()).push((s.last().0@, tree_of(s.last().1))) }
}

proof fn lemma_members_of(s: Seq<(String, ConfigValue)>)
    ensures
        members_of(s).len() == s.len(),
        forall|i: int| 0 <= i < s.len() ==> #[trigger] members_of(s)[i] == (s[i].0@, tree_of(s[i].1)),
    decreases s.len(),
{
    if s.len() > 0 {
        lemma_members_of(s.drop_last());
        assert forall|i: int| 0 <= i < s.len() implies #[trigger] members_of(s)[i] == (s[i].0@, tree_of(s[i].1)) by {
            if i < s.len() - 1 {
                assert(s.drop_last()[i] == s[i]);
            }
        }
    }
}

/// The position of the first member named `k`.
pub open spec fn member_index(es: Seq<(Seq<char>, Tree)>, k: Seq<char>) -> Option<int> {
    if exists|i: int| 0 <= i < es.len() && es[i].0 == k {
        Some(choose|i: int| 0 <= i < es.len() && es[i].0 == k && forall|j: int| 0 <= j < i ==> es[j].0 != k)
    } else {
        None
    }
}

/// The value of the first member named `k`.
pub open spec fn member(es: Seq<(Seq<char>, Tree)>, k: Seq<char>) -> Option<Tree> {
    match member_index(es, k) {
        Some(i) => Some(es[i].1),
        None => None,
    }
}

/// `es` with member `k` set to `v`: in place if present, else appended.
pub open spec fn with_member(es: Seq<(Seq<char>, Tree)>, k: Seq<char>, v: Tree) -> Seq<(Seq<char>, Tree)> {
    match member_index(es, k) {
        Some(i) => es.update(i, (k, v)),
        None => es.push((k, v)),
    }
}

/// The tree after setting `path` to `leaf`: objects along the path are
/// entered (missing ones created); a non-object on the way stops the update.
pub open spec fn spec_set(root: Tree, path: Seq<Seq<char>>, leaf: Tree) -> Tree
    decreases path.len(),
{
    if path.len() == 0 {
        root
    } else {
        match root {
            Tree::Object(es) => if path.len() == 1 {
                Tree::Object(with_member(es, path[0], leaf))
            } else {
                let child = match member(es, path[0]) {
                    Some(c) => c,
                    None => Tree::Object(Seq::empty()),
                };
                Tree::Object(with_member(es, path[0], spec_set(child, path.drop_first(), leaf)))
            },
            _ => root,
        }
    }
}

/// The value at `path`, if every step is an object member.
pub open spec fn spec_get(root: Tree, path: Seq<Seq<char>>) -> Option<Tree>
    decreases path.len(),
{
    if path.len() == 0 {
        Some(root)
    } else {
        match root {
            Tree::Object(es) => match member(es, path[0]) {
                Some(c) => spec_get(c, path.drop_first()),
                None => None,
            },
            _ => None,
        }
    }
}

/// Whether every node that `path` passes through is an object or missing.
pub open spec fn navigable(root: Tree, path: Seq<Seq<char>>) -> bool
    decreases path.len(),
{
    if path.len() == 0 {
        true
    } else {
        match root {
            Tree::Object(es) => path.len() == 1 || match member(es, path[0]) {
                Some(c) => navigable(c, path.drop_first()),
                None => true,
            },
            _ => false,
        }
    }
}

proof fn lemma_first_exists(es: Seq<(Seq<char>, Tree)>, k: Seq<char>, i: int)
    requires
        0 <= i < es.len(),
        es[i].0 == k,
    ensures
        exists|c: int| 0 <= c < es.len() && es[c].0 == k && forall|j: int| 0 <= j < c ==> es[j].0 != k,
    decreases i,
{
    if exists|j: int| 0 <= j < i && es[j].0 == k {
        let j = choose|j: int| 0 <= j < i && es[j].0 == k;
        lemma_first_exists(es, k, j);
    } else {
        assert(forall|j: int| 0 <= j < i ==> es[j].0 != k);
    }
}

proof fn lemma_member_index(es: Seq<(Seq<char>, Tree)>, k: Seq<char>)
    ensures
        match member_index(es, k) {
            Some(i) => 0 <= i < es.len() && es[i].0 == k && forall|j: int| 0 <= j < i ==> es[j].0 != k,
            None => forall|j: int| 0 <= j < es.len() ==> es[j].0 != k,
        },
{
    if exists|i: int| 0 <= i < es.len() && es[i].0 == k {
        let i = choose|i: int| 0 <= i < es.len() && es[i].0 == k;
        lemma_first_exists(es, k, i);
    }
}

proof fn lemma_index_is_first(es: Seq<(Seq<char>, Tree)>, k: Seq<char>, i: int)
    requires
        0 <= i < es.len(),
        es[i].0 == k,
        forall|j: int| 0 <= j < i ==> es[j].0 != k,
    ensures
        member_index(es, k) == Some(i),
{
    lemma_member_index(es, k);
    let c = member_index(es, k)->0;
    if c < i {
        assert(es[c].0 != k);
    } else if c > i {
        assert(es[i].0 != k);
    }
}

proof fn lemma_with_member(es: Seq<(Seq<char>, Tree)>, k: Seq<char>, v: Tree)
    ensures
        member(with_member(es, k, v), k) == Some(v),
{
    lemma_member_index(es, k);
    let w = with_member(es, k, v);
    match member_index(es, k) {
        Some(i) => {
            assert forall|j: int| 0 <= j < i implies w[j].0 != k by {
                assert(w[j] == es[j]);
            }
            lemma_index_is_first(w, k, i);
        },
        None => {
            let n = es.len() as int;
            assert forall|j: int| 0 <= j < n implies w[j].0 != k by {
                assert(w[j] == es[j]);
            }
            lemma_index_is_first(w, k, n);
        },
    }
}

/// Law: after an override along a navigable path, reading that path gives the new value.
pub proof fn lemma_set_then_get(root: Tree, path: Seq<Seq<char>>, leaf: Tree)
    requires
        path.len() > 0,
        navigable(root, path),
    ensures
        spec_get(spec_set(root, path, leaf), path) == Some(leaf),
    decreases path.len(),
{
    match root {
        Tree::Object(es) => {
            if path.len() == 1 {
                lemma_with_member(es, path[0], leaf);
                assert(path.drop_first().len() == 0);
                assert(spec_get(leaf, path.drop_first()) == Some(leaf));
            } else {
                let child = match member(es, path[0]) {
                    Some(c) => c,
                    None => Tree::Object(Seq::empty()),
                };
                assert(navigable(child, path.drop_first()));
                lemma_set_then_get(child, path.drop_first(), leaf);
                lemma_with_member(es, path[0], spec_set(child, path.drop_first(), leaf));
                assert(spec_set(root, path, leaf) == Tree::Object(with_member(es, path[0], spec_set(child, path.drop_first(), leaf))));
            }
        },
        _ => {},
    }
}

fn find_member(entries: &Vec<(String, ConfigValue)>, k: &String) -> (r: Option<usize>)
    ensures
        r matches Some(i) ==> i < entries@.len(),
        member_index(members_of(entries@), k@) == match r { Some(i) => Some(i as int), None => None::<int> },
{
    let ghost es = members_of(entries@);
    proof { lemma_members_of(entries@); }
    let mut i: usize = 0;
    while i < entries.len()
        invariant
            i <= entries@.len(),
            es == members_of(entries@),
            es.len() == entries@.len(),
            forall|j: int| 0 <= j < entries@.len() ==> #[trigger] es[j] == (entries@[j].0@, tree_of(entries@[j].1)),
            forall|j: int| 0 <= j < i ==> es[j].0 != k@,
        decreases entries@.len() - i,
    {
        if entries[i].0 == *k {
            proof {
                assert(es[i as int].0 == k@);
                let c = choose|c: int| 0 <= c < es.len() && es[c].0 == k@ && forall|j: int| 0 <= j < c ==> es[j].0 != k@;
                assert(c == i);
            }
            return Some(i);
        }
        i = i + 1;
    }
    None
}

proof fn lemma_members_update(s: Seq<(String, ConfigValue)>, i: int, e: (String, ConfigValue))
    requires
        0 <= i < s.len(),
    ensures
        members_of(s.update(i, e)) == members_of(s).update(i, (e.0@, tree_of(e.1))),
{
    lemma_members_of(s);
    lemma_members_of(s.update(i, e));
    assert(members_of(s.update(i, e)) =~= members_of(s).update(i, (e.0@, tree_of(e.1))));
}

proof fn lemma_members_push(s: Seq<(String, ConfigValue)>, e: (String, ConfigValue))
    ensures
        members_of(s.push(e)) == members_of(s).push((e.0@, tree_of(e.1))),
{
    assert(s.push(e).drop_last() =~= s);
}

/// Sets the value at `path` to `leaf` (see `spec_set`).
#[verifier::rlimit(60)]
pub fn set_nested(root: ConfigValue, path: &[String], leaf: ConfigValue) -> (r: ConfigValue)
    ensures
        tree_of(r) == spec_set(tree_of(root), path@.map_values(|s: String| s@), tree_of(leaf)),
    decreases path@.len(),
{
    let ghost pv = path@.map_values(|s: String| s@);
    if path.len() == 0 {
        return root;
    }
    match root {
        ConfigValue::Object(mut entries) => {
            let ghost es = members_of(entries@);
            let ghost old_entries = entries@;
            let key = path[0].clone();
            assert(pv[0] == key@);
            let idx = find_member(&entries, &key);
            proof {
                lemma_member_index(es, key@);
                lemma_members_of(entries@);
            }
            if path.len() == 1 {
                let ghost lt = tree_of(leaf);
                match idx {
                    Some(i) => {
                        entries.set(i, (key, leaf));
                        proof { lemma_members_update(old_entries, i as int, (key, leaf)); }
                        assert(members_of(entries@) == es.update(i as int, (key@, lt)));
                    },
                    None => {
                        entries.push((key, leaf));
                        proof { lemma_members_push(old_entries, (key, leaf)); }
                        assert(members_of(entries@) == es.push((key@, lt)));
                    },
                }
                assert(members_of(entries@) == with_member(es, pv[0], lt));
                ConfigValue::Object(entries)
            } else {
                let rest = vstd::slice::slice_subrange(path, 1, path.len());
                assert(rest@.map_values(|s: String| s@) =~= pv.drop_first());
                let ghost child_t = match member(es, pv[0]) {
                    Some(c) => c,
                    None => Tree::Object(Seq::empty()),
                };
                let ghost st = spec_set(child_t, pv.drop_first(), tree_of(leaf));
                match idx {
                    Some(i) => {
                        let (k, child) = entries.remove(i);
                        assert(k@ == key@);
                        assert(tree_of(child) == child_t);
                        let updated = set_nested(child, rest, leaf);
                        assert(tree_of(updated) == st);
                        entries.insert(i, (k, updated));
                        assert(entries@ =~= old_entries.update(i as int, (k, updated)));
                        proof { lemma_members_update(old_entries, i as int, (k, updated)); }
                        assert(members_of(entries@) == es.update(i as int, (key@, st)));
                    },
                    None => {
                        let fresh = ConfigValue::Object(Vec::new());
                        assert(tree_of(fresh) == Tree::Object(Seq::empty())) by {
                            assert(members_of(Seq::<(String, ConfigValue)>::empty()) =~= Seq::empty());
                        }
                        let updated = set_nested(fresh, rest, leaf);
                        assert(tree_of(updated) == st);
                        entries.push((key, updated));
                        proof { lemma_members_push(old_entries, (key, updated)); }
                        assert(members_of(entries@) == es.push((key@, st)));
                    },
                }
                assert(members_of(entries@) == with_member(es, pv[0], st));
                ConfigValue::Object(entries)
            }
        },
        other => other,
    }
}

/// The value of a run of ASCII digits.
pub open spec fn digits_value(s: Seq<char>) -> nat
    decreases s.len(),
{
    if s.len() == 0 { 0 } else { digits_value(s.drop_last()) * 10 + ((s.last() as int - '0' as int) as nat) }
}

pub open spec fn all_digits(s: Seq<char>) -> bool {
    forall|i: int| 0 <= i < s.len() ==> '0' <= #[trigger] s[i] <= '9'
}

/// What `u64::from_str` accepts: an optional `+`, then one or more ASCII
/// digits, with a value that fits.
pub open spec fn spec_parse_u64(s: Seq<char>) -> Option<u64> {
    let d = if s.len() > 0 && s[0] == '+' { s.drop_first() } else { s };
    if d.len() > 0 && all_digits(d) && digits_value(d) <= u64::MAX { Some(digits_value(d) as u64) } else { None }
}

/// Parses an unsigned decimal number as `u64::from_str` does.
pub fn parse_u64(s: &[char]) -> (r: Option<u64>)
    ensures
        r == spec_parse_u64(s@),
{
    let start: usize = if s.len() > 0 && s[0] == '+' { 1 } else { 0 };
    let ghost d = s@.subrange(start as int, s@.len() as int);
    assert(d == if s@.len() > 0 && s@[0] == '+' { s@.drop_first() } else { s@ });
    if start >= s.len() {
        return None;
    }
    let mut v: u64 = 0;
    let mut i = start;
    while i < s.len()
        invariant
            start <= i <= s@.len(),
            d == s@.subrange(start as int, s@.len() as int),
            d == if s@.len() > 0 && s@[0] == '+' { s@.drop_first() } else { s@ },
            all_digits(s@.subrange(start as int, i as int)),
            v == digits_value(s@.subrange(start as int, i as int)),
        decreases s@.len() - i,
    {
        let c = s[i];
        assert(s@.subrange(start as int, i as int + 1).drop_last() =~= s@.subrange(start as int, i as int));
        if c < '0' || c > '9' {
            assert(!all_digits(d)) by {
                assert(d[i - start] == c);
            }
            return None;
        }
        let digit = (c as u32 - '0' as u32) as u64;
        if v > (u64::MAX - digit) / 10 {
            proof {
                assert(s@.subrange(start as int, i as int + 1) =~= d.subrange(0, i - start + 1));
                assert forall|j: int| 0 <= j < i - start + 1 implies '0' <= #[trigger] d.subrange(0, i - start + 1)[j] <= '9' by {
                    assert(d.subrange(0, i - start + 1)[j] == s@[start + j]);
                    if j < i - start {
                        assert(s@.subrange(start as int, i as int)[j] == s@[start + j]);
                    }
                }
                lemma_digits_monotone(d, (i - start + 1) as nat);
                assert(digits_value(s@.subrange(start as int, i as int + 1)) == v * 10 + digit);
                assert(v * 10 + digit > u64::MAX) by (nonlinear_arith)
                    requires v > (u64::MAX - digit) / 10, digit <= 9;
            }
            return None;
        }
        assert(v * 10 + digit <= u64::MAX) by (nonlinear_arith)
            requires v <= (u64::MAX - digit) / 10, digit <= 9;
        v = v * 10 + digit;
        proof {
            assert forall|j: int| 0 <= j < i + 1 - start implies '0' <= #[trigger] s@.subrange(start as int, i as int + 1)[j] <= '9' by {
                if j < i - start {
                    assert(s@.subrange(start as int, i as int + 1)[j] == s@.subrange(start as int, i as int)[j]);
                }
            }
        }
        i = i + 1;
    }
    assert(s@.subrange(start as int, s@.len() as int) == d);
    Some(v)
}

proof fn lemma_digits_monotone(d: Seq<char>, n: nat)
    requires
        n <= d.len(),
        all_digits(d.subrange(0, n as int)),
    ensures
        all_digits(d) ==> digits_value(d) >= digits_value(d.subrange(0, n as int)),
    decreases d.len(),
{
    if all_digits(d) && d.len() > n {
        let e = d.drop_last();
        assert(e.subrange(0, n as int) =~= d.subrange(0, n as int));
        assert(all_digits(e));
        lemma_digits_monotone(e, n);
    } else if d.len() == n {
        assert(d.subrange(0, n as int) =~= d);
    }
}

/// The value an override's text stands for: `true`/`false` in any case, an
/// unsigned integer, or else the text itself. (Fractional numbers are
/// recognised by the caller, who holds the floating-point parser.)
pub open spec fn spec_env_value(raw: Seq<char>) -> Tree {
    if spec_lowercase(raw) == "true"@ {
        Tree::Bool(true)
    } else if spec_lowercase(raw) == "false"@ {
        Tree::Bool(false)
    } else {
        match spec_parse_u64(raw) {
            Some(n) => Tree::UInt(n),
            None => Tree::Text(raw),
        }
    }
}

/// Law: an override made only of ASCII digits whose value fits `u64` is
/// that unsigned number (never a boolean and never text); `true` and
/// `false`, in any case, are booleans.
pub proof fn lemma_env_value_numbers(raw: Seq<char>)
    ensures
        raw.len() > 0 && (forall|i: int| 0 <= i < raw.len() ==> '0' <= #[trigger] raw[i] <= '9')
            && digits_value(raw) <= u64::MAX ==> spec_env_value(raw) == Tree::UInt(digits_value(raw) as u64),
        raw =~= seq!['t', 'r', 'u', 'e'] || raw =~= seq!['T', 'R', 'U', 'E'] ==> spec_env_value(raw) == Tree::Bool(true),
        raw =~= seq!['f', 'a', 'l', 's', 'e'] || raw =~= seq!['F', 'A', 'L', 'S', 'E'] ==> spec_env_value(raw) == Tree::Bool(false),
{
    reveal_strlit("true");
    reveal_strlit("false");
    if raw.len() > 0 && (forall|i: int| 0 <= i < raw.len() ==> '0' <= #[trigger] raw[i] <= '9') {
        assert(all_ascii(raw)) by {
            assert forall|i: int| 0 <= i < raw.len() implies (raw[i] as u32) < 128 by {
                assert('0' <= raw[i] <= '9');
            }
        }
        let low = raw.map_values(|c: char| ascii_lower(c));
        assert(low[0] == ascii_lower(raw[0]));
        assert('0' <= raw[0] <= '9');
        assert(low[0] == raw[0]);
        assert(low != "true"@) by {
            if low == "true"@ {
                assert(low[0] == 't');
            }
        }
        assert(low != "false"@) by {
            if low == "false"@ {
                assert(low[0] == 'f');
            }
        }
        assert(raw[0] != '+');
        assert(all_digits(raw));
    }
    if raw =~= seq!['t', 'r', 'u', 'e'] || raw =~= seq!['T', 'R', 'U', 'E'] {
        assert(all_ascii(raw));
        assert(raw.map_values(|c: char| ascii_lower(c)) =~= "true"@);
    }
    if raw =~= seq!['f', 'a', 'l', 's', 'e'] || raw =~= seq!['F', 'A', 'L', 'S', 'E'] {
        assert(all_ascii(raw));
        assert(raw.map_values(|c: char| ascii_lower(c)) =~= "false"@);
    }
}

pub fn parse_env_value(raw: &str) -> (v: ConfigValue)
    ensures
        tree_of(v) == spec_env_value(raw@),
{
    let lower = to_lowercase(raw);
    if lower == "true".to_string() {
        return ConfigValue::Bool(true);
    }
    if lower == "false".to_string() {
        return ConfigValue::Bool(false);
    }
    let cs = chars_of(raw);
    match parse_u64(cs.as_slice()) {
        Some(n) => ConfigValue::UInt(n),
        None => ConfigValue::Text(raw.to_string()),
    }
}

/// The parts of `s` between occurrences of `__`, as `str::split("__")` gives them.
pub open spec fn split_dunder(s: Seq<char>) -> Seq<Seq<char>>
    decreases s.len(),
{
    if s.len() < 2 {
        seq![s]
    } else if s[0] == '_' && s[1] == '_' {
        seq![Seq::<char>::empty()] + split_dunder(s.subrange(2, s.len() as int))
    } else {
        let rest = split_dunder(s.drop_first());
        rest.update(0, seq![s[0]] + rest[0])
    }
}

proof fn lemma_split_nonempty(s: Seq<char>)
    ensures
        split_dunder(s).len() >= 1,
    decreases s.len(),
{
    if s.len() >= 2 {
        if s[0] == '_' && s[1] == '_' {
            lemma_split_nonempty(s.subrange(2, s.len() as int));
        } else {
            lemma_split_nonempty(s.drop_first());
        }
    }
}

fn split_dunder_exec(s: &[char]) -> (r: Vec<Vec<char>>)
    ensures
        r@.map_values(|v: Vec<char>| v@) == split_dunder(s@),
    decreases s@.len(),
{
    if s.len() < 2 {
        let mut r: Vec<Vec<char>> = Vec::new();
        r.push(sub_chars(s, 0, s.len()));
        assert(s@.subrange(0, s@.len() as int) =~= s@);
        assert(r@.map_values(|v: Vec<char>| v@) =~= seq![s@]);
        return r;
    }
    if s[0] == '_' && s[1] == '_' {
        let tail = vstd::slice::slice_subrange(s, 2, s.len());
        let mut rest = split_dunder_exec(tail);
        let mut r: Vec<Vec<char>> = Vec::new();
        r.push(Vec::new());
        let ghost hv = r@;
        let ghost tl = rest@;
        r.append(&mut rest);
        assert(r@ == hv + tl);
        assert((hv + tl).map_values(|v: Vec<char>| v@) =~= hv.map_values(|v: Vec<char>| v@) + tl.map_values(|v: Vec<char>| v@));
        assert(hv.map_values(|v: Vec<char>| v@) =~= seq![Seq::<char>::empty()]);
        r
    } else {
        let tail = vstd::slice::slice_subrange(s, 1, s.len());
        assert(tail@ =~= s@.drop_first());
        let mut rest = split_dunder_exec(tail);
        proof { lemma_split_nonempty(s@.drop_first()); }
        let ghost rv = rest@.map_values(|v: Vec<char>| v@);
        assert(rest@.len() >= 1);
        let mut first: Vec<char> = Vec::new();
        let ghost before = rest@;
        std::mem::swap(&mut first, &mut rest[0]);
        assert(first@ == rv[0]);
        first.insert(0, s[0]);
        assert(first@ =~= seq![s@[0]] + rv[0]);
        rest.set(0, first);
        assert(rest@.map_values(|v: Vec<char>| v@) =~= rv.update(0, seq![s@[0]] + rv[0]));
        rest
    }
}

/// The configuration path an environment variable overrides: `RINFRA_`
/// stripped, split at `__`, each part lowercased; `None` for other variables
/// and for the bare prefix.
pub open spec fn spec_env_path(key: Seq<char>) -> Option<Seq<Seq<char>>> {
    let p = "RINFRA_"@;
    if key.len() > p.len() && key.subrange(0, p.len() as int) == p {
        Some(split_dunder(key.subrange(p.len() as int, key.len() as int)).map_values(|s: Seq<char>| lowercased(s)))
    } else {
        None
    }
}

pub fn env_override_path(key: &str) -> (r: Option<Vec<String>>)
    ensures
        match r {
            Some(p) => spec_env_path(key@) == Some(p@.map_values(|s: String| s@)),
            None => spec_env_path(key@) is None,
        },
{
    let cs = chars_of(key);
    let prefix = chars_of("RINFRA_");
    proof { reveal_strlit("RINFRA_"); }
    if cs.len() <= prefix.len() || !crate::text::starts_with(cs.as_slice(), prefix.as_slice()) {
        return None;
    }
    let rest = vstd::slice::slice_subrange(cs.as_slice(), prefix.len(), cs.len());
    let parts = split_dunder_exec(rest);
    let ghost pv = parts@.map_values(|v: Vec<char>| v@);
    let mut out: Vec<String> = Vec::new();
    let mut i: usize = 0;
    while i < parts.len()
        invariant
            i <= parts@.len(),
            pv == parts@.map_values(|v: Vec<char>| v@),
            out@.len() == i,
            forall|j: int| 0 <= j < i ==> (#[trigger] out@[j])@ == lowercased(pv[j]),
        decreases parts@.len() - i,
    {
        let part = string_from_chars(parts[i].as_slice());
        assert(pv[i as int] == parts@[i as int]@);
        let low = to_lowercase(part.as_str());
        out.push(low);
        i = i + 1;
    }
    assert(out@.map_values(|s: String| s@) =~= pv.map_values(|s: Seq<char>| lowercased(s)));
    Some(out)
}

/// One override applied to a tree: variables that are not overrides change nothing.
pub open spec fn apply_override(t: Tree, name: Seq<char>, value: Tree) -> Tree {
    match spec_env_path(name) {
        Some(path) => spec_set(t, path, value),
        None => t,
    }
}

/// The tree after applying the overrides `vs` in order.
pub open spec fn spec_merge(t: Tree, vs: Seq<(String, ConfigValue)>) -> Tree
    decreases vs.len(),
{
    if vs.len() == 0 { t } else { apply_override(spec_merge(t, vs.drop_last()), vs.last().0@, tree_of(vs.last().1)) }
}

/// How many of `vs` are overrides.
pub open spec fn override_count(vs: Seq<(String, ConfigValue)>) -> nat
    decreases vs.len(),
{
    if vs.len() == 0 {
        0
    } else {
        override_count(vs.drop_last()) + if spec_env_path(vs.last().0@) is Some { 1nat } else { 0nat }
    }
}

/// Applies every override among `vars` (name, parsed value) to `root`, in
/// order; returns the new tree and how many variables were overrides.
pub fn merge_env_overrides(root: ConfigValue, vars: Vec<(String, ConfigValue)>) -> (r: (ConfigValue, usize))
    ensures
        tree_of(r.0) == spec_merge(tree_of(root), vars@),
        r.1 == override_count(vars@),
{
    let ghost t0 = tree_of(root);
    let ghost all = vars@;
    let mut cur = root;
    let mut count: usize = 0;
    let mut vars = vars;
    let ghost mut consumed: int = 0;
    assert(all.len() == vars.len());
    while vars.len() > 0
        invariant
            all.len() <= usize::MAX,
            0 <= consumed <= all.len(),
            vars@ == all.subrange(consumed, all.len() as int),
            count <= consumed,
            count == override_count(all.subrange(0, consumed)),
            tree_of(cur) == spec_merge(t0, all.subrange(0, consumed)),
        decreases vars@.len(),
    {
        assert(all[consumed] == vars@[0]);
        let (name, value) = vars.remove(0);
        assert(all.subrange(0, consumed + 1).drop_last() =~= all.subrange(0, consumed));
        assert(all.subrange(0, consumed + 1).last() == (name, value));
        match env_override_path(name.as_str()) {
            Some(path) => {
                cur = set_nested(cur, path.as_slice(), value);
                count = count + 1;
            },
            None => {},
        }
        proof { consumed = consumed + 1; }
        assert(vars@ =~= all.subrange(consumed, all.len() as int));
    }
    assert(all.subrange(0, all.len() as int) =~= all);
    (cur, count)
}

// ── Reading the tree ────────────────────────────────────────────────

/// Reads `s` from the left, splitting at `c`: the finished parts and the
/// part being read.
pub open spec fn split_scan(s: Seq<char>, c: char) -> (Seq<Seq<char>>, Seq<char>)
    decreases s.len(),
{
    if s.len() == 0 {
        (Seq::empty(), Seq::empty())
    } else {
        let (done, cur) = split_scan(s.drop_last(), c);
        if s.last() == c { (done.push(cur), Seq::empty()) } else { (done, cur.push(s.last())) }
    }
}

/// The parts of `s` between occurrences of `c`, as `str::split` gives them.
pub open spec fn split_at_char(s: Seq<char>, c: char) -> Seq<Seq<char>> {
    split_scan(s, c).0.push(split_scan(s, c).1)
}

/// The parts of a dotted path.
pub open spec fn dotted(path: Seq<char>) -> Seq<Seq<char>> {
    split_at_char(path, '.')
}

/// Splits a dotted path into its parts.
pub fn split_path(path: &str) -> (r: Vec<String>)
    ensures
        r@.map_values(|p: String| p@) == dotted(path@),
{
    let cs = chars_of(path);
    let mut done: Vec<String> = Vec::new();
    let mut cur: Vec<char> = Vec::new();
    let mut i: usize = 0;
    assert(cs@.subrange(0, 0) =~= Seq::<char>::empty());
    assert(done@.map_values(|p: String| p@) =~= Seq::<Seq<char>>::empty());
    while i < cs.len()
        invariant
            i <= cs@.len(),
            cs@ == path@,
            (done@.map_values(|p: String| p@), cur@) == split_scan(cs@.subrange(0, i as int), '.'),
        decreases cs@.len() - i,
    {
        let c = cs[i];
        assert(cs@.subrange(0, i as int + 1).drop_last() =~= cs@.subrange(0, i as int));
        if c == '.' {
            let part = string_from_chars(cur.as_slice());
            let ghost before = done@;
            done.push(part);
            assert(done@.map_values(|p: String| p@) =~= before.map_values(|p: String| p@).push(cur@));
            cur = Vec::new();
        } else {
            cur.push(c);
        }
        i = i + 1;
    }
    assert(cs@.subrange(0, cs@.len() as int) =~= path@);
    let last = string_from_chars(cur.as_slice());
    let ghost before = done@;
    done.push(last);
    assert(done@.map_values(|p: String| p@) =~= before.map_values(|p: String| p@).push(cur@));
    done
}

/// The trees of an array's items, item by item.
pub(crate) proof fn lemma_trees_of(s: Seq<ConfigValue>)
    ensures
        trees_of(s).len() == s.len(),
        forall|i: int| 0 <= i < s.len() ==> #[trigger] trees_of(s)[i] == tree_of(s[i]),
    decreases s.len(),
{
    if s.len() > 0 {
        lemma_trees_of(s.drop_last());
        assert forall|i: int| 0 <= i < s.len() implies #[trigger] trees_of(s)[i] == tree_of(s[i]) by {
            if i < s.len() - 1 {
                assert(s.drop_last()[i] == s[i]);
            }
        }
    }
}

proof fn lemma_get_member(entries: Seq<(String, ConfigValue)>, j: int, path: Seq<Seq<char>>)
    requires
        path.len() > 0,
        0 <= j < entries.len(),
        member_index(members_of(entries), path[0]) == Some(j),
    ensures
        spec_get(Tree::Object(members_of(entries)), path) == spec_get(tree_of(entries[j].1), path.drop_first()),
{
    lemma_members_of(entries);
}

proof fn lemma_get_missing(entries: Seq<(String, ConfigValue)>, path: Seq<Seq<char>>)
    requires
        path.len() > 0,
        member_index(members_of(entries), path[0]) is None,
    ensures
        spec_get(Tree::Object(members_of(entries)), path) is None,
{
}

/// The node at a dotted path of the tree: each part names a member of an
/// object (the first member of that name).
pub fn lookup<'a>(v: &'a ConfigValue, path: &str) -> (r: Option<&'a ConfigValue>)
    ensures
        match r {
            Some(x) => spec_get(tree_of(*v), dotted(path@)) == Some(tree_of(*x)),
            None => spec_get(tree_of(*v), dotted(path@)) is None,
        },
{
    let parts = split_path(path);
    let ghost ps = parts@.map_values(|p: String| p@);
    let ghost n = ps.len() as int;
    let mut cur: &ConfigValue = v;
    let mut i: usize = 0;
    assert(ps.subrange(0, n) =~= ps);
    while i < parts.len()
        invariant
            i <= parts@.len(),
            n == parts@.len(),
            ps == parts@.map_values(|p: String| p@),
            ps == dotted(path@),
            spec_get(tree_of(*v), ps) == spec_get(tree_of(*cur), ps.subrange(i as int, n)),
        decreases parts@.len() - i,
    {
        let ghost sub = ps.subrange(i as int, n);
        assert(sub[0] == parts@[i as int]@);
        assert(sub.drop_first() =~= ps.subrange(i as int + 1, n));
        match cur {
            ConfigValue::Object(entries) => {
                assert(tree_of(*cur) == Tree::Object(members_of(entries@)));
                match find_member(entries, &parts[i]) {
                    Some(j) => {
                        proof { lemma_get_member(entries@, j as int, sub); }
                        cur = &entries[j].1;
                    },
                    None => {
                        proof { lemma_get_missing(entries@, sub); }
                        return None;
                    },
                }
            },
            _ => {
                assert(!(tree_of(*cur) is Object));
                return None;
            },
        }
        i = i + 1;
    }
    Some(cur)
}

/// The flag at a dotted path, or `default` when there is no boolean there.
pub open spec fn spec_flag(root: Tree, path: Seq<char>, default: bool) -> bool {
    match spec_get(root, dotted(path)) {
        Some(Tree::Bool(b)) => b,
        _ => default,
    }
}

/// The text at a dotted path, or `default` when there is no string there.
pub open spec fn spec_text(root: Tree, path: Seq<char>, default: Seq<char>) -> Seq<char> {
    match spec_get(root, dotted(path)) {
        Some(Tree::Text(s)) => s,
        _ => default,
    }
}

/// The unsigned number at a dotted path, or `default` when there is none.
pub open spec fn spec_number(root: Tree, path: Seq<char>, default: u64) -> u64 {
    match spec_get(root, dotted(path)) {
        Some(Tree::UInt(n)) => n,
        _ => default,
    }
}

pub fn flag(v: &ConfigValue, path: &str, default: bool) -> (b: bool)
    ensures
        b == spec_flag(tree_of(*v), path@, default),
{
    match lookup(v, path) {
        Some(ConfigValue::Bool(b)) => *b,
        _ => default,
    }
}

pub fn text(v: &ConfigValue, path: &str, default: &str) -> (r: String)
    ensures
        r@ == spec_text(tree_of(*v), path@, default@),
{
    match lookup(v, path) {
        Some(ConfigValue::Text(s)) => s.clone(),
        _ => default.to_string(),
    }
}

pub fn number(v: &ConfigValue, path: &str, default: u64) -> (n: u64)
    ensures
        n == spec_number(tree_of(*v), path@, default),
{
    match lookup(v, path) {
        Some(ConfigValue::UInt(n)) => *n,
        _ => default,
    }
}

// ── The configuration file ──────────────────────────────────────────

/// The configuration tree of a JSON value, read down to `depth` levels
/// (deeper nodes read as null). Numbers that fit `u64` or `i64` stay
/// integers; others keep their text.
pub open spec fn json_config(v: serde_json::Value, depth: nat) -> Tree
    decreases depth, 0nat, 0nat,
{
    if depth == 0 {
        Tree::Null
    } else {
        match json_shape_of(v) {
            JsonShape::Null => Tree::Null,
            JsonShape::Bool(b) => Tree::Bool(b),
            JsonShape::Number(n) => match json_u64_of(n) {
                Some(u) => Tree::UInt(u),
                None => match json_i64_of(n) {
                    Some(i) => Tree::Int(i),
                    None => Tree::Float(json_number_text_of(n)),
                },
            },
            JsonShape::Str(s) => Tree::Text(s@),
            JsonShape::Array(items) => Tree::Array(json_config_items(items@, (depth - 1) as nat)),
            JsonShape::Object(es) => Tree::Object(json_config_members(es@, (depth - 1) as nat)),
        }
    }
}

pub open spec fn json_config_items(items: Seq<serde_json::Value>, depth: nat) -> Seq<Tree>
    decreases depth, 1nat, items.len(),
{
    if items.len() == 0 {
        Seq::empty()
    } else {
        json_config_items(items.drop_last(), depth).push(json_config(items.last(), depth))
    }
}

pub open spec fn json_config_members(es: Seq<(String, serde_json::Value)>, depth: nat) -> Seq<(Seq<char>, Tree)>
    decreases depth, 1nat, es.len(),
{
    if es.len() == 0 {
        Seq::empty()
    } else {
        json_config_members(es.drop_last(), depth).push((es.last().0@, json_config(es.last().1, depth)))
    }
}

/// How deep a configuration file is read: deeper than serde_yaml parses.
pub open spec fn config_depth() -> nat {
    256
}

fn config_of_json(v: &serde_json::Value, depth: u32) -> (r: ConfigValue)
    ensures
        tree_of(r) == json_config(*v, depth as nat),
    decreases depth,
{
    if depth == 0 {
        return ConfigValue::Null;
    }
    match json_shape(v) {
        JsonShape::Null => ConfigValue::Null,
        JsonShape::Bool(b) => ConfigValue::Bool(b),
        JsonShape::Number(n) => match json_number_u64(&n) {
            Some(u) => ConfigValue::UInt(u),
            None => match json_number_i64(&n) {
                Some(i) => ConfigValue::Int(i),
                None => ConfigValue::Float(json_number_text(&n)),
            },
        },
        JsonShape::Str(s) => ConfigValue::Text(s),
        JsonShape::Array(items) => {
            let mut out: Vec<ConfigValue> = Vec::new();
            let mut i: usize = 0;
            while i < items.len()
                invariant
                    i <= items@.len(),
                    depth > 0,
                    trees_of(out@) == json_config_items(items@.subrange(0, i as int), (depth - 1) as nat),
                decreases items@.len() - i,
            {
                let c = config_of_json(&items[i], depth - 1);
                let ghost before = out@;
                out.push(c);
                assert(out@.drop_last() =~= before);
                assert(items@.subrange(0, i as int + 1).drop_last() =~= items@.subrange(0, i as int));
                i = i + 1;
            }
            assert(items@.subrange(0, items@.len() as int) =~= items@);
            ConfigValue::Array(out)
        },
        JsonShape::Object(es) => {
            let mut out: Vec<(String, ConfigValue)> = Vec::new();
            let mut i: usize = 0;
            while i < es.len()
                invariant
                    i <= es@.len(),
                    depth > 0,
                    members_of(out@) == json_config_members(es@.subrange(0, i as int), (depth - 1) as nat),
                decreases es@.len() - i,
            {
                let c = config_of_json(&es[i].1, depth - 1);
                let k = es[i].0.clone();
                let ghost before = out@;
                out.push((k, c));
                assert(out@.drop_last() =~= before);
                assert(es@.subrange(0, i as int + 1).drop_last() =~= es@.subrange(0, i as int));
                i = i + 1;
            }
            assert(es@.subrange(0, es@.len() as int) =~= es@);
            ConfigValue::Object(out)
        },
    }
}

/// Reads a YAML configuration document: the text as serde_yaml reads it
/// into a JSON value, turned into a configuration tree; text serde_yaml
/// refuses gives `ConfigParseFailed`.
pub fn config_from_yaml(text: &str) -> (r: Result<ConfigValue, AppError>)
    ensures
        match r {
            Ok(c) => yaml_json_parses(text@) && tree_of(c) == json_config(yaml_json_of(text@), config_depth()),
            Err(e) => !yaml_json_parses(text@) && e.code == ErrorCode::ConfigParseFailed,
        },
{
    match yaml_to_json(text) {
        Ok(v) => Ok(config_of_json(&v, 256)),
        Err(e) => {
            let mut msg = String::from_str("failed to parse YAML config: ");
            msg.append(yaml_error_text(&e).as_str());
            Err(AppError::new(ErrorCode::ConfigParseFailed, msg))
        },
    }
}

} // verus!
