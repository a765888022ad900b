//! Message catalogs with dotted keys and fallback to a default locale.
use vstd::prelude::*;
use crate::strmap::StrMap;
use crate::error::{AppError, ErrorCode};
use crate::yaml::{
    yaml_debug_of, yaml_debug_text, yaml_error_text, yaml_from_str, yaml_number_text, yaml_number_text_of,
    yaml_parses, yaml_shape, yaml_shape_of, yaml_value_of, YamlShape,
};
use crate::text::{chars_of, concat_str, string_from_chars, sub_chars, to_lowercase, trim};

verus! {

/// A parsed YAML document, reduced to what translation needs: mappings
/// (keys already rendered as text), scalars (strings, numbers and booleans
/// rendered as text), and everything else.
#[derive(Debug)]
pub enum YamlNode {
    Mapping(Vec<(String, YamlNode)>),
    Scalar(String),
    Other,
}

/// `prefix.key`, or `key` at the top level.
pub open spec fn join_key(prefix: Seq<char>, key: Seq<char>) -> Seq<char> {
    if prefix.len() == 0 { key } else { prefix + seq!['.'] + key }
}

/// The catalog after flattening `n` under `prefix` into `m`: scalars become
/// entries, mappings recurse with dotted keys, later entries win.
pub open spec fn flatten_node(n: YamlNode, prefix: Seq<char>, m: Map<Seq<char>, Seq<char>>) -> Map<Seq<char>, Seq<char>>
    decreases n, 0nat,
{
    match n {
        YamlNode::Mapping(entries) => flatten_entries(entries@, prefix, m),
        YamlNode::Scalar(s) => m.insert(prefix, s@),
        YamlNode::Other => m,
    }
}

/// Flattens the entries of a mapping, in order.
pub open spec fn flatten_entries(es: Seq<(String, YamlNode)>, prefix: Seq<char>, m: Map<Seq<char>, Seq<char>>) -> Map<Seq<char>, Seq<char>>
    decreases es, es.len(),
{
    if es.len() == 0 {
        m
    } else {
        let last = es.last();
        flatten_node(last.1, join_key(prefix, last.0@), flatten_entries(es.drop_last(), prefix, m))
    }
}

/// The catalog that a list of `(locale, document)` pairs gives: each
/// locale's messages are the flattened leaves of its last document.
pub open spec fn catalog_of(docs: Seq<(String, YamlNode)>) -> Map<Seq<char>, Map<Seq<char>, Seq<char>>>
    decreases docs.len(),
{
    if docs.len() == 0 {
        Map::empty()
    } else {
        catalog_of(docs.drop_last()).insert(docs.last().0@, flatten_node(docs.last().1, Seq::empty(), Map::empty()))
    }
}

/// In a catalog built from documents, a locale's messages are the flattened
/// leaves (dotted keys) of the last document given for that locale.
pub proof fn lemma_catalog_of_last(docs: Seq<(String, YamlNode)>, i: int)
    requires
        0 <= i < docs.len(),
        forall|j: int| i < j < docs.len() ==> #[trigger] docs[j].0@ != docs[i].0@,
    ensures
        catalog_of(docs).contains_key(docs[i].0@),
        catalog_of(docs)[docs[i].0@] == flatten_node(docs[i].1, Seq::empty(), Map::empty()),
    decreases docs.len(),
{
    if i < docs.len() - 1 {
        let init = docs.drop_last();
        assert forall|j: int| i < j < init.len() implies #[trigger] init[j].0@ != init[i].0@ by {
            assert(init[j] == docs[j]);
        }
        lemma_catalog_of_last(init, i);
        assert(docs[docs.len() - 1].0@ != docs[i].0@);
    }
}

// ── Reading YAML documents ──────────────────────────────────────────

/// The text a mapping key stands for: a string as it is, any other key as
/// its `Debug` text.
pub open spec fn yaml_key_text(k: serde_yaml::Value) -> Seq<char> {
    match yaml_shape_of(k) {
        YamlShape::Str(s) => s@,
        _ => yaml_debug_of(k),
    }
}

/// The catalog after flattening YAML value `v` under `prefix` into `m`,
/// read down to `depth` levels: strings, numbers (as written) and booleans
/// become entries, mappings recurse with dotted keys, anything else adds
/// nothing.
pub open spec fn yaml_flatten(v: serde_yaml::Value, prefix: Seq<char>, m: Map<Seq<char>, Seq<char>>, depth: nat) -> Map<Seq<char>, Seq<char>>
    decreases depth, 0nat, 0nat,
{
    if depth == 0 {
        m
    } else {
        match yaml_shape_of(v) {
            YamlShape::Mapping(es) => yaml_flatten_entries(es@, prefix, m, (depth - 1) as nat),
            YamlShape::Str(s) => m.insert(prefix, s@),
            YamlShape::Number(n) => m.insert(prefix, yaml_number_text_of(n)),
            YamlShape::Bool(b) => m.insert(prefix, if b { "true"@ } else { "false"@ }),
            YamlShape::Other => m,
        }
    }
}

pub open spec fn yaml_flatten_entries(
    es: Seq<(serde_yaml::Value, serde_yaml::Value)>, prefix: Seq<char>, m: Map<Seq<char>, Seq<char>>, depth: nat,
) -> Map<Seq<char>, Seq<char>>
    decreases depth, 1nat, es.len(),
{
    if es.len() == 0 {
        m
    } else {
        yaml_flatten(es.last().1, join_key(prefix, yaml_key_text(es.last().0)), yaml_flatten_entries(es.drop_last(), prefix, m, depth), depth)
    }
}

/// How deep a translation file is read: deeper than serde_yaml parses.
pub open spec fn yaml_depth() -> nat {
    256
}

/// A node that flattens exactly as `v` does, read down to `depth` levels.
fn node_of(v: &serde_yaml::Value, depth: u32) -> (n: YamlNode)
    ensures
        forall|p: Seq<char>, m: Map<Seq<char>, Seq<char>>|
            #[trigger] flatten_node(n, p, m) == yaml_flatten(*v, p, m, depth as nat),
    decreases depth,
{
    if depth == 0 {
        return YamlNode::Other;
    }
    match yaml_shape(v) {
        YamlShape::Mapping(es) => {
            let mut out: Vec<(String, YamlNode)> = Vec::new();
            let mut i: usize = 0;
            while i < es.len()
                invariant
                    i <= es@.len(),
                    depth > 0,
                    forall|p: Seq<char>, m: Map<Seq<char>, Seq<char>>|
                        #[trigger] flatten_entries(out@, p, m)
                            == yaml_flatten_entries(es@.subrange(0, i as int), p, m, (depth - 1) as nat),
                decreases es@.len() - i,
            {
                let key = match yaml_shape(&es[i].0) {
                    YamlShape::Str(s) => s,
                    _ => yaml_debug_text(&es[i].0),
                };
                let child = node_of(&es[i].1, depth - 1);
                let ghost before = out@;
                let ghost kt = key@;
                out.push((key, child));
                proof {
                    assert(out@.drop_last() =~= before);
                    assert(es@.subrange(0, i as int + 1).drop_last() =~= es@.subrange(0, i as int));
                    assert(kt == yaml_key_text(es@[i as int].0));
                    assert forall|p: Seq<char>, m: Map<Seq<char>, Seq<char>>|
                        #[trigger] flatten_entries(out@, p, m)
                            == yaml_flatten_entries(es@.subrange(0, i as int + 1), p, m, (depth - 1) as nat) by {
                        assert(flatten_entries(out@, p, m) == flatten_node(child, join_key(p, kt), flatten_entries(before, p, m)));
                        assert(flatten_node(child, join_key(p, kt), flatten_entries(before, p, m))
                            == yaml_flatten(es@[i as int].1, join_key(p, kt), flatten_entries(before, p, m), (depth - 1) as nat));
                    }
                }
                i = i + 1;
            }
            assert(es@.subrange(0, es@.len() as int) =~= es@);
            let n = YamlNode::Mapping(out);
            assert forall|p: Seq<char>, m: Map<Seq<char>, Seq<char>>|
                #[trigger] flatten_node(n, p, m) == yaml_flatten(*v, p, m, depth as nat) by {
                assert(flatten_node(n, p, m) == flatten_entries(out@, p, m));
            }
            n
        },
        YamlShape::Str(s) => YamlNode::Scalar(s),
        YamlShape::Number(n) => YamlNode::Scalar(yaml_number_text(&n)),
        YamlShape::Bool(b) => {
            let t = if b { "true".to_string() } else { "false".to_string() };
            assert(t@ == if b { "true"@ } else { "false"@ });
            YamlNode::Scalar(t)
        },
        YamlShape::Other => YamlNode::Other,
    }
}

/// The catalog that translation files (name, YAML text) give: files not
/// named `<locale>.yaml` or `<locale>.yml` are skipped, and each locale's
/// messages are the flattened leaves of its last file.
pub open spec fn catalog_of_files(files: Seq<(String, String)>) -> Map<Seq<char>, Map<Seq<char>, Seq<char>>>
    decreases files.len(),
{
    if files.len() == 0 {
        Map::empty()
    } else {
        let rest = catalog_of_files(files.drop_last());
        match locale_of_file(files.last().0@) {
            Some(l) => rest.insert(l, yaml_flatten(yaml_value_of(files.last().1@), Seq::empty(), Map::empty(), yaml_depth())),
            None => rest,
        }
    }
}

/// Whether every translation file among `files` parses.
pub open spec fn all_files_parse(files: Seq<(String, String)>) -> bool {
    forall|i: int| 0 <= i < files.len() && (#[trigger] locale_of_file(files[i].0@)) is Some ==> yaml_parses(files[i].1@)
}

fn join_key_exec(prefix: &String, key: &String) -> (r: String)
    ensures
        r@ == join_key(prefix@, key@),
{
    if prefix.as_str().is_empty() {
        key.clone()
    } else {
        let mut r = concat_str(prefix.as_str(), ".");
        r.append(key.as_str());
        assert(r@ == prefix@ + seq!['.'] + key@) by {
            reveal_strlit(".");
        }
        r
    }
}

/// Adds the entries of `n` under `prefix` to `out`.
#[verifier::loop_isolation(false)]
fn flatten(n: &YamlNode, prefix: &String, out: &mut StrMap<String>)
    requires
        old(out).wf(),
    ensures
        final(out).wf(),
        final(out).view().map_values(|s: String| s@) == flatten_node(*n, prefix@, old(out).view().map_values(|s: String| s@)),
    decreases n, 0nat,
{
    match n {
        YamlNode::Mapping(entries) => {
            let mut i: usize = 0;
            while i < entries.len()
                invariant
                    i <= entries@.len(),
                    out.wf(),
                    out.view().map_values(|s: String| s@) == flatten_entries(entries@.subrange(0, i as int), prefix@,
                        old(out).view().map_values(|s: String| s@)),
                decreases entries@.len() - i,
            {
                let key = join_key_exec(prefix, &entries[i].0);
                assert(entries@.subrange(0, i as int + 1).drop_last() =~= entries@.subrange(0, i as int));
                assert(entries@.subrange(0, i as int + 1).last() == entries@[i as int]);
                proof {
                    assert(decreases_to!(entries@ => entries@[i as int]));
                    assert(decreases_to!(entries@[i as int] => entries@[i as int].1));
                }
                flatten(&entries[i].1, &key, out);
                i = i + 1;
            }
            assert(entries@.subrange(0, entries@.len() as int) =~= entries@);
        },
        YamlNode::Scalar(s) => {
            let ghost before = out.view();
            out.insert(prefix.clone(), s.clone());
            assert(out.view().map_values(|s: String| s@) =~= before.map_values(|s: String| s@).insert(prefix@, s@));
        },
        YamlNode::Other => {},
    }
}

/// Translations loaded from YAML documents, one per locale.
pub struct FileI18n {
    catalog: StrMap<StrMap<String>>,
    default_locale: String,
}

/// The catalog of one locale as plain text.
spec fn messages_view(m: StrMap<String>) -> Map<Seq<char>, Seq<char>> {
    m.view().map_values(|s: String| s@)
}

/// The translation of `key` for `locale`: the locale's message, else the
/// default locale's, else the key itself.
pub open spec fn spec_translate(
    cat: Map<Seq<char>, Map<Seq<char>, Seq<char>>>, default_locale: Seq<char>, key: Seq<char>, locale: Seq<char>,
) -> Seq<char> {
    if cat.contains_key(locale) && cat[locale].contains_key(key) {
        cat[locale][key]
    } else if locale != default_locale && cat.contains_key(default_locale) && cat[default_locale].contains_key(key) {
        cat[default_locale][key]
    } else {
        key
    }
}

/// Lexicographic order on character sequences (code point by code point).
pub open spec fn text_lt(a: Seq<char>, b: Seq<char>) -> bool
    decreases a.len(),
{
    if a.len() == 0 {
        b.len() > 0
    } else if b.len() == 0 {
        false
    } else if a[0] != b[0] {
        (a[0] as int) < (b[0] as int)
    } else {
        text_lt(a.drop_first(), b.drop_first())
    }
}

pub(crate) fn text_less(a: &String, b: &String) -> (r: bool)
    ensures
        r == text_lt(a@, b@),
{
    let x = chars_of(a.as_str());
    let y = chars_of(b.as_str());
    let mut i: usize = 0;
    assert(x@.subrange(0, x@.len() as int) =~= x@);
    assert(y@.subrange(0, y@.len() as int) =~= y@);
    while i < x.len() && i < y.len() && x[i] == y[i]
        invariant
            i <= x@.len(),
            i <= y@.len(),
            text_lt(x@, y@) == text_lt(x@.subrange(i as int, x@.len() as int), y@.subrange(i as int, y@.len() as int)),
        decreases x@.len() - i,
    {
        assert(x@.subrange(i as int, x@.len() as int).drop_first() =~= x@.subrange(i as int + 1, x@.len() as int));
        assert(y@.subrange(i as int, y@.len() as int).drop_first() =~= y@.subrange(i as int + 1, y@.len() as int));
        i = i + 1;
    }
    if i == x.len() {
        i < y.len()
    } else if i == y.len() {
        false
    } else {
        assert(x@.subrange(i as int, x@.len() as int)[0] == x@[i as int]);
        assert(y@.subrange(i as int, y@.len() as int)[0] == y@[i as int]);
        x[i] < y[i]
    }
}

/// Whether a sequence of texts is strictly increasing.
pub open spec fn sorted_texts(s: Seq<Seq<char>>) -> bool {
    forall|i: int, j: int| 0 <= i < j < s.len() ==> text_lt(s[i], s[j])
}

pub(crate) proof fn lemma_text_lt_trans(a: Seq<char>, b: Seq<char>, c: Seq<char>)
    requires
        text_lt(a, b),
        text_lt(b, c),
    ensures
        text_lt(a, c),
    decreases a.len(),
{
    if a.len() > 0 && b.len() > 0 && c.len() > 0 && a[0] == b[0] && b[0] == c[0] {
        lemma_text_lt_trans(a.drop_first(), b.drop_first(), c.drop_first());
    }
}

pub(crate) proof fn lemma_text_lt_total(a: Seq<char>, b: Seq<char>)
    requires
        a != b,
    ensures
        text_lt(a, b) || text_lt(b, a),
    decreases a.len(),
{
    if a.len() > 0 && b.len() > 0 && a[0] == b[0] {
        if a.drop_first() == b.drop_first() {
            assert(a =~= seq![a[0]] + a.drop_first());
            assert(b =~= seq![b[0]] + b.drop_first());
            assert(a == b);
        } else {
            lemma_text_lt_total(a.drop_first(), b.drop_first());
        }
    } else if a.len() > 0 && b.len() > 0 {
        assert((a[0] as int) != (b[0] as int));
    } else if a.len() == 0 && b.len() == 0 {
        assert(a =~= b);
    }
}

pub(crate) proof fn lemma_text_lt_irrefl(a: Seq<char>)
    ensures
        !text_lt(a, a),
    decreases a.len(),
{
    if a.len() > 0 {
        lemma_text_lt_irrefl(a.drop_first());
    }
}

/// Where `s` differs from every character except at one spot: `s` with `x` inserted at `pos`.
fn insert_sorted(v: &mut Vec<String>, x: String)
    requires
        sorted_texts(old(v)@.map_values(|s: String| s@)),
        forall|i: int| 0 <= i < old(v)@.len() ==> old(v)@[i]@ != x@,
    ensures
        sorted_texts(final(v)@.map_values(|s: String| s@)),
        final(v)@.map_values(|s: String| s@).to_set() == old(v)@.map_values(|s: String| s@).to_set().insert(x@),
        final(v)@.len() == old(v)@.len() + 1,
{
    let ghost sv = v@.map_values(|s: String| s@);
    let mut pos: usize = 0;
    while pos < v.len() && text_less(&v[pos], &x)
        invariant
            pos <= v@.len(),
            v@ == old(v)@,
            sv == v@.map_values(|s: String| s@),
            forall|i: int| 0 <= i < pos ==> text_lt(sv[i], x@),
        decreases v@.len() - pos,
    {
        pos = pos + 1;
    }
    proof {
        if pos < v@.len() {
            lemma_text_lt_total(sv[pos as int], x@);
            assert(text_lt(x@, sv[pos as int]));
            assert forall|i: int| pos <= i < sv.len() implies text_lt(x@, sv[i]) by {
                if i > pos {
                    lemma_text_lt_trans(x@, sv[pos as int], sv[i]);
                }
            }
        }
    }
    let ghost xv = x@;
    v.insert(pos, x);
    let ghost nv = v@.map_values(|s: String| s@);
    assert(nv =~= sv.insert(pos as int, xv));
    assert forall|i: int, j: int| 0 <= i < j < nv.len() implies text_lt(nv[i], nv[j]) by {
        if i < pos && j < pos {
        } else if i < pos && j == pos {
        } else if i < pos && j > pos {
            assert(nv[j] == sv[j - 1]);
            if j - 1 >= pos {
                lemma_text_lt_trans(nv[i], xv, sv[j - 1]);
            }
        } else if i == pos {
            assert(nv[j] == sv[j - 1]);
        } else {
            assert(nv[i] == sv[i - 1]);
            assert(nv[j] == sv[j - 1]);
        }
    }
    assert(nv.to_set() =~= sv.to_set().insert(xv)) by {
        assert forall|e: Seq<char>| nv.to_set().contains(e) <==> sv.to_set().insert(xv).contains(e) by {
            if nv.contains(e) {
                let k = choose|k: int| 0 <= k < nv.len() && nv[k] == e;
                if k < pos {
                    assert(sv[k] == e);
                } else if k > pos {
                    assert(sv[k - 1] == e);
                }
            }
            if sv.contains(e) {
                let k = choose|k: int| 0 <= k < sv.len() && sv[k] == e;
                if k < pos {
                    assert(nv[k] == e);
                } else {
                    assert(nv[k + 1] == e);
                }
            }
            if e == xv {
                assert(nv[pos as int] == e);
            }
        }
    }
}

impl FileI18n {
    pub closed spec fn wf(&self) -> bool {
        &&& self.catalog.wf()
        &&& forall|l: Seq<char>| #[trigger] self.catalog.view().contains_key(l) ==> self.catalog.view()[l].wf()
    }

    /// The messages of each locale.
    pub closed spec fn catalog(&self) -> Map<Seq<char>, Map<Seq<char>, Seq<char>>> {
        self.catalog.view().map_values(|m: StrMap<String>| messages_view(m))
    }

    /// The default locale.
    pub closed spec fn default_locale_view(&self) -> Seq<char> {
        self.default_locale@
    }

    /// A catalog without translations.
    pub fn empty(default_locale: &str) -> (r: FileI18n)
        ensures
            r.wf(),
            r.catalog() == Map::<Seq<char>, Map<Seq<char>, Seq<char>>>::empty(),
            r.default_locale_view() == default_locale@,
    {
        let r = FileI18n { catalog: StrMap::new(), default_locale: default_locale.to_string() };
        assert(r.catalog() =~= Map::<Seq<char>, Map<Seq<char>, Seq<char>>>::empty());
        r
    }

    /// Adds (or replaces) the translations of one locale, flattened from a YAML document.
    pub fn add_locale(&mut self, locale: String, doc: &YamlNode)
        requires
            old(self).wf(),
        ensures
            final(self).wf(),
            final(self).default_locale_view() == old(self).default_locale_view(),
            final(self).catalog() == old(self).catalog().insert(
                locale@,
                flatten_node(*doc, Seq::empty(), Map::empty()),
            ),
    {
        let mut messages: StrMap<String> = StrMap::new();
        let root = String::new();
        assert(messages.view().map_values(|s: String| s@) =~= Map::<Seq<char>, Seq<char>>::empty());
        flatten(doc, &root, &mut messages);
        let ghost mv = messages;
        self.catalog.insert(locale, messages);
        assert(self.catalog() =~= old(self).catalog().insert(locale@, messages_view(mv)));
    }

    /// Builds the catalog from `(locale, document)` pairs; a later document for
    /// the same locale replaces an earlier one.
    pub fn from_documents(docs: &Vec<(String, YamlNode)>, default_locale: &str) -> (r: FileI18n)
        ensures
            r.wf(),
            r.default_locale_view() == default_locale@,
            r.catalog() == catalog_of(docs@),
            forall|l: Seq<char>| r.catalog().contains_key(l) <==> exists|i: int| 0 <= i < docs@.len() && #[trigger] docs@[i].0@ == l,
    {
        let mut r = FileI18n::empty(default_locale);
        let mut i: usize = 0;
        assert(docs@.subrange(0, 0) =~= Seq::<(String, YamlNode)>::empty());
        while i < docs.len()
            invariant
                i <= docs@.len(),
                r.wf(),
                r.default_locale_view() == default_locale@,
                r.catalog() == catalog_of(docs@.subrange(0, i as int)),
                forall|l: Seq<char>| r.catalog().contains_key(l) <==> exists|j: int| 0 <= j < i && #[trigger] docs@[j].0@ == l,
            decreases docs@.len() - i,
        {
            assert(docs@.subrange(0, i as int + 1).drop_last() =~= docs@.subrange(0, i as int));
            r.add_locale(docs[i].0.clone(), &docs[i].1);
            assert forall|l: Seq<char>| r.catalog().contains_key(l) <==> exists|j: int| 0 <= j < i + 1 && #[trigger] docs@[j].0@ == l by {
                if l == docs@[i as int].0@ {
                    assert(docs@[i as int].0@ == l);
                }
            }
            i = i + 1;
        }
        assert(docs@.subrange(0, docs@.len() as int) =~= docs@);
        r
    }

    /// Builds the catalog from translation files, given as (file name, YAML
    /// text) pairs: files named `<locale>.yaml` or `<locale>.yml` are parsed
    /// and flattened, a later file for a locale replacing an earlier one;
    /// other files are skipped. A translation file that does not parse
    /// fails the whole load with `I18nLoadFailed`.
    pub fn load_documents(files: Vec<(String, String)>, default_locale: &str) -> (r: Result<FileI18n, AppError>)
        ensures
            match r {
                Ok(i) => all_files_parse(files@) && i.wf() && i.default_locale_view() == default_locale@
                    && i.catalog() == catalog_of_files(files@),
                Err(e) => !all_files_parse(files@) && e.code == ErrorCode::I18nLoadFailed,
            },
    {
        let mut cat = FileI18n::empty(default_locale);
        let mut i: usize = 0;
        assert(files@.subrange(0, 0) =~= Seq::<(String, String)>::empty());
        while i < files.len()
            invariant
                i <= files@.len(),
                cat.wf(),
                cat.default_locale_view() == default_locale@,
                cat.catalog() == catalog_of_files(files@.subrange(0, i as int)),
                forall|j: int| 0 <= j < i && (#[trigger] locale_of_file(files@[j].0@)) is Some ==> yaml_parses(files@[j].1@),
            decreases files@.len() - i,
        {
            assert(files@.subrange(0, i as int + 1).drop_last() =~= files@.subrange(0, i as int));
            match locale_from_file_name(files[i].0.as_str()) {
                Some(locale) => {
                    match yaml_from_str(files[i].1.as_str()) {
                        Ok(v) => {
                            let node = node_of(&v, 256);
                            assert(flatten_node(node, Seq::empty(), Map::empty())
                                == yaml_flatten(v, Seq::empty(), Map::empty(), 256));
                            cat.add_locale(locale, &node);
                        },
                        Err(e) => {
                            let mut msg = String::from_str("failed to parse ");
                            msg.append(files[i].0.as_str());
                            msg.append(": ");
                            msg.append(yaml_error_text(&e).as_str());
                            assert(!all_files_parse(files@)) by {
                                assert(locale_of_file(files@[i as int].0@) is Some);
                            }
                            return Err(AppError::new(ErrorCode::I18nLoadFailed, msg));
                        },
                    }
                },
                None => {},
            }
            i = i + 1;
        }
        assert(files@.subrange(0, files@.len() as int) =~= files@);
        Ok(cat)
    }

    /// The translation of `key` for `locale`, falling back to the default
    /// locale and then to the key itself.
    pub fn t(&self, key: &str, locale: &str) -> (r: String)
        requires
            self.wf(),
        ensures
            r@ == spec_translate(self.catalog(), self.default_locale_view(), key@, locale@),
    {
        match self.catalog.get(locale) {
            Some(messages) => {
                match messages.get(key) {
                    Some(v) => {
                        return v.clone();
                    },
                    None => {},
                }
            },
            None => {},
        }
        let loc = locale.to_string();
        if loc != self.default_locale {
            match self.catalog.get(self.default_locale.as_str()) {
                Some(messages) => {
                    match messages.get(key) {
                        Some(v) => {
                            return v.clone();
                        },
                        None => {},
                    }
                },
                None => {},
            }
        }
        key.to_string()
    }

    /// The translation of `key` for `locale` with each `{name}` placeholder
    /// replaced by its value, one argument after the other.
    pub fn t_args(&self, key: &str, locale: &str, args: &Vec<(String, String)>) -> (r: String)
        requires
            self.wf(),
        ensures
            r@ == fill_args(spec_translate(self.catalog(), self.default_locale_view(), key@, locale@), args@),
    {
        let text = self.t(key, locale);
        let mut cur = chars_of(text.as_str());
        let mut k: usize = 0;
        assert(args@.subrange(0, args@.len() as int) =~= args@);
        while k < args.len()
            invariant
                k <= args@.len(),
                fill_args(cur@, args@.subrange(k as int, args@.len() as int)) == fill_args(text@, args@),
            decreases args@.len() - k,
        {
            let ghost rest = args@.subrange(k as int, args@.len() as int);
            let pat = placeholder_chars(args[k].0.as_str());
            let rep = chars_of(args[k].1.as_str());
            let next = replace_chars(&cur, &pat, &rep);
            assert(rest.drop_first() =~= args@.subrange(k + 1, args@.len() as int));
            cur = next;
            k = k + 1;
        }
        assert(args@.subrange(k as int, args@.len() as int) =~= Seq::<(String, String)>::empty());
        string_from_chars(cur.as_slice())
    }

    /// The locales that have a catalog, in increasing order.
    pub fn available_locales(&self) -> (r: Vec<String>)
        requires
            self.wf(),
        ensures
            sorted_texts(r@.map_values(|s: String| s@)),
            r@.map_values(|s: String| s@).to_set() == self.catalog().dom(),
    {
        let mut out: Vec<String> = Vec::new();
        let mut i: usize = 0;
        while i < self.catalog.len()
            invariant
                self.wf(),
                i <= self.catalog.entries@.len(),
                sorted_texts(out@.map_values(|s: String| s@)),
                out@.map_values(|s: String| s@).to_set()
                    == self.catalog.entries@.subrange(0, i as int).map_values(|e: (String, StrMap<String>)| e.0@).to_set(),
            decreases self.catalog.entries@.len() - i,
        {
            let k = self.catalog.key_at(i).clone();
            proof {
                assert forall|j: int| 0 <= j < out@.len() implies out@[j]@ != k@ by {
                    let sv = out@.map_values(|s: String| s@);
                    assert(sv.to_set().contains(sv[j]));
                    let pre = self.catalog.entries@.subrange(0, i as int).map_values(|e: (String, StrMap<String>)| e.0@);
                    assert(pre.to_set().contains(sv[j]));
                    let a = choose|a: int| 0 <= a < pre.len() && pre[a] == sv[j];
                    assert(self.catalog.entries@[a].0@ != self.catalog.entries@[i as int].0@);
                }
            }
            let ghost pre = self.catalog.entries@.subrange(0, i as int).map_values(|e: (String, StrMap<String>)| e.0@);
            insert_sorted(&mut out, k);
            proof {
                let post = self.catalog.entries@.subrange(0, i as int + 1).map_values(|e: (String, StrMap<String>)| e.0@);
                assert(post =~= pre.push(self.catalog.entries@[i as int].0@));
                assert(post.to_set() =~= pre.to_set().insert(self.catalog.entries@[i as int].0@)) by {
                    assert forall|e: Seq<char>| post.to_set().contains(e) <==> pre.to_set().insert(self.catalog.entries@[i as int].0@).contains(e) by {
                        if post.contains(e) {
                            let a = choose|a: int| 0 <= a < post.len() && post[a] == e;
                            if a < pre.len() {
                                assert(pre[a] == e);
                            }
                        }
                        if pre.contains(e) {
                            let a = choose|a: int| 0 <= a < pre.len() && pre[a] == e;
                            assert(post[a] == e);
                        }
                        if e == self.catalog.entries@[i as int].0@ {
                            assert(post[pre.len() as int] == e);
                        }
                    }
                }
            }
            i = i + 1;
        }
        proof {
            let all = self.catalog.entries@.subrange(0, self.catalog.entries@.len() as int).map_values(|e: (String, StrMap<String>)| e.0@);
            assert(self.catalog.entries@.subrange(0, self.catalog.entries@.len() as int) =~= self.catalog.entries@);
            assert forall|e: Seq<char>| all.to_set().contains(e) <==> self.catalog().dom().contains(e) by {
                if all.contains(e) {
                    let a = choose|a: int| 0 <= a < all.len() && all[a] == e;
                    self.catalog.lemma_view_at(a);
                }
                if self.catalog().dom().contains(e) {
                    let a = choose|a: int| 0 <= a < self.catalog.entries@.len() && self.catalog.entries@[a].0@ == e;
                    assert(all[a] == e);
                }
            }
            assert(all.to_set() =~= self.catalog().dom());
        }
        out
    }

    /// The default locale.
    pub fn default_locale(&self) -> (s: &str)
        ensures
            s@ == self.default_locale_view(),
    {
        self.default_locale.as_str()
    }

    /// The translated message for an error code (`error.<code in lowercase>`),
    /// or `None` when no catalog has it.
    pub fn error_message(&self, code: &str, locale: &str) -> (r: Option<String>)
        requires
            self.wf(),
        ensures
            ({
                let key = "error."@ + crate::text::lowercased(code@);
                let t = spec_translate(self.catalog(), self.default_locale_view(), key, locale@);
                &&& t == key ==> r is None
                &&& t != key ==> (r matches Some(m) && m@ == t)
            }),
    {
        let lower = to_lowercase(code);
        let key = concat_str("error.", lower.as_str());
        let translated = self.t(key.as_str(), locale);
        if translated == key {
            None
        } else {
            Some(translated)
        }
    }
}

/// Law: a message present for the requested locale is returned as is; a
/// message missing there but present for the default locale is returned
/// from the default; otherwise the key itself comes back.
pub proof fn lemma_translation_fallback(
    cat: Map<Seq<char>, Map<Seq<char>, Seq<char>>>, default_locale: Seq<char>, key: Seq<char>, locale: Seq<char>,
)
    ensures
        cat.contains_key(locale) && cat[locale].contains_key(key)
            ==> spec_translate(cat, default_locale, key, locale) == cat[locale][key],
        !(cat.contains_key(locale) && cat[locale].contains_key(key)) && cat.contains_key(default_locale)
            && cat[default_locale].contains_key(key)
            ==> spec_translate(cat, default_locale, key, locale) == cat[default_locale][key],
        !(cat.contains_key(locale) && cat[locale].contains_key(key))
            && !(cat.contains_key(default_locale) && cat[default_locale].contains_key(key))
            ==> spec_translate(cat, default_locale, key, locale) == key,
{
}

/// The locale an `Accept-Language` value asks for first: the text before the
/// first `,`, then before its first `;`, trimmed.
pub open spec fn first_language(h: Seq<char>) -> Seq<char> {
    crate::text::trimmed(before_char(before_char(h, ','), ';'))
}

/// The part of `s` before the first `c` (all of `s` if there is none).
pub open spec fn before_char(s: Seq<char>, c: char) -> Seq<char> {
    if exists|i: int| 0 <= i < s.len() && s[i] == c {
        let i = choose|i: int| 0 <= i < s.len() && s[i] == c && forall|j: int| 0 <= j < i ==> s[j] != c;
        s.subrange(0, i)
    } else {
        s
    }
}

pub(crate) fn before(s: &Vec<char>, c: char) -> (r: Vec<char>)
    ensures
        r@ == before_char(s@, c),
{
    let mut i: usize = 0;
    while i < s.len() && s[i] != c
        invariant
            i <= s@.len(),
            forall|j: int| 0 <= j < i ==> s@[j] != c,
        decreases s@.len() - i,
    {
        i = i + 1;
    }
    proof {
        if i < s@.len() {
            let k = choose|k: int| 0 <= k < s@.len() && s@[k] == c && forall|j: int| 0 <= j < k ==> s@[j] != c;
            assert(k == i);
        }
    }
    sub_chars(s.as_slice(), 0, i)
}

/// The locale requested by an `Accept-Language` header value, or `en` when
/// the header is absent.
pub fn parse_accept_language(header: Option<&str>) -> (r: String)
    ensures
        match header {
            Some(h) => r@ == first_language(h@),
            None => r@ == "en"@,
        },
{
    match header {
        Some(h) => {
            let cs = chars_of(h);
            let a = before(&cs, ',');
            let b = before(&a, ';');
            let t = trim(b.as_slice());
            string_from_chars(t.as_slice())
        },
        None => "en".to_string(),
    }
}

/// The locale named by an i18n file: the file name without a `.yaml` or
/// `.yml` extension; other names have none.
pub open spec fn locale_of_file(name: Seq<char>) -> Option<Seq<char>> {
    if exists|i: int| 0 < i < name.len() && name[i] == '.' {
        let i = choose|i: int| 0 < i < name.len() && name[i] == '.' && forall|j: int| i < j < name.len() ==> name[j] != '.';
        let ext = name.subrange(i + 1, name.len() as int);
        if ext == "yaml"@ || ext == "yml"@ { Some(name.subrange(0, i)) } else { None }
    } else {
        None
    }
}

pub fn locale_from_file_name(name: &str) -> (r: Option<String>)
    ensures
        match r {
            Some(l) => locale_of_file(name@) == Some(l@),
            None => locale_of_file(name@) is None,
        },
{
    let cs = chars_of(name);
    let mut i: usize = cs.len();
    while i > 0 && cs[i - 1] != '.'
        invariant
            i <= cs@.len(),
            forall|j: int| i <= j < cs@.len() ==> cs@[j] != '.',
        decreases i,
    {
        i = i - 1;
    }
    if i <= 1 {
        proof {
            if exists|k: int| 0 < k < cs@.len() && cs@[k] == '.' {
                let k = choose|k: int| 0 < k < cs@.len() && cs@[k] == '.';
                assert(k < i);
            }
        }
        return None;
    }
    let dot = i - 1;
    proof {
        let k = choose|k: int| 0 < k < cs@.len() && cs@[k] == '.' && forall|j: int| k < j < cs@.len() ==> cs@[j] != '.';
        assert(cs@[dot as int] == '.');
        assert(k == dot);
    }
    let ext = string_from_chars(sub_chars(cs.as_slice(), dot + 1, cs.len()).as_slice());
    let yaml = "yaml".to_string();
    let yml = "yml".to_string();
    if ext == yaml || ext == yml {
        Some(string_from_chars(sub_chars(cs.as_slice(), 0, dot).as_slice()))
    } else {
        None
    }
}

/// `s` with every occurrence of `pat`, found from the left without
/// overlapping, replaced by `rep`.
pub open spec fn replace_all(s: Seq<char>, pat: Seq<char>, rep: Seq<char>) -> Seq<char>
    decreases s.len(),
{
    if s.len() == 0 {
        s
    } else if pat.len() > 0 && crate::text::is_prefix(pat, s) {
        rep + replace_all(s.subrange(pat.len() as int, s.len() as int), pat, rep)
    } else {
        seq![s[0]] + replace_all(s.subrange(1, s.len() as int), pat, rep)
    }
}

/// The placeholder of an argument: its name in braces.
pub open spec fn placeholder(name: Seq<char>) -> Seq<char> {
    seq!['{'] + name + seq!['}']
}

/// `text` with the placeholders of `args` replaced, first argument first.
pub open spec fn fill_args(text: Seq<char>, args: Seq<(String, String)>) -> Seq<char>
    decreases args.len(),
{
    if args.len() == 0 {
        text
    } else {
        fill_args(replace_all(text, placeholder(args[0].0@), args[0].1@), args.drop_first())
    }
}

fn placeholder_chars(name: &str) -> (r: Vec<char>)
    ensures
        r@ == placeholder(name@),
{
    let mut r: Vec<char> = Vec::new();
    r.push('{');
    let n = chars_of(name);
    let mut i: usize = 0;
    while i < n.len()
        invariant
            i <= n@.len(),
            r@ == seq!['{'] + n@.subrange(0, i as int),
        decreases n@.len() - i,
    {
        r.push(n[i]);
        i = i + 1;
        assert(r@ =~= seq!['{'] + n@.subrange(0, i as int));
    }
    r.push('}');
    assert(n@.subrange(0, n@.len() as int) =~= n@);
    assert(r@ =~= placeholder(name@));
    r
}

/// Whether `p` occurs in `s` at position `i`.
fn matches_at(s: &Vec<char>, i: usize, p: &Vec<char>) -> (b: bool)
    requires
        i <= s@.len(),
    ensures
        b == crate::text::is_prefix(p@, s@.subrange(i as int, s@.len() as int)),
{
    if p.len() > s.len() - i {
        return false;
    }
    let mut j: usize = 0;
    while j < p.len()
        invariant
            j <= p@.len(),
            i + p.len() <= s.len(),
            forall|k: int| 0 <= k < j ==> s@[i + k] == p@[k],
        decreases p@.len() - j,
    {
        if s[i + j] != p[j] {
            assert(s@.subrange(i as int, s@.len() as int).subrange(0, p@.len() as int)[j as int] != p@[j as int]);
            return false;
        }
        j = j + 1;
    }
    assert(s@.subrange(i as int, s@.len() as int).subrange(0, p@.len() as int) =~= p@);
    true
}

fn replace_chars(s: &Vec<char>, pat: &Vec<char>, rep: &Vec<char>) -> (r: Vec<char>)
    ensures
        r@ == replace_all(s@, pat@, rep@),
{
    let mut out: Vec<char> = Vec::new();
    let mut i: usize = 0;
    assert(s@.subrange(0, s@.len() as int) =~= s@);
    while i < s.len()
        invariant
            i <= s@.len(),
            out@ + replace_all(s@.subrange(i as int, s@.len() as int), pat@, rep@) == replace_all(s@, pat@, rep@),
        decreases s@.len() - i,
    {
        let ghost rest = s@.subrange(i as int, s@.len() as int);
        if pat.len() > 0 && matches_at(s, i, pat) {
            let ghost before = out@;
            let mut j: usize = 0;
            while j < rep.len()
                invariant
                    j <= rep@.len(),
                    out@ == before + rep@.subrange(0, j as int),
                decreases rep@.len() - j,
            {
                out.push(rep[j]);
                j = j + 1;
                assert(out@ =~= before + rep@.subrange(0, j as int));
            }
            assert(rep@.subrange(0, rep@.len() as int) =~= rep@);
            assert(rest.subrange(pat@.len() as int, rest.len() as int)
                =~= s@.subrange(i + pat@.len(), s@.len() as int));
            assert(before + (rep@ + replace_all(s@.subrange(i + pat@.len(), s@.len() as int), pat@, rep@))
                =~= out@ + replace_all(s@.subrange(i + pat@.len(), s@.len() as int), pat@, rep@));
            i = i + pat.len();
        } else {
            let ghost before = out@;
            out.push(s[i]);
            assert(rest.subrange(1, rest.len() as int) =~= s@.subrange(i + 1, s@.len() as int));
            assert(before + (seq![s@[i as int]] + replace_all(s@.subrange(i + 1, s@.len() as int), pat@, rep@))
                =~= out@ + replace_all(s@.subrange(i + 1, s@.len() as int), pat@, rep@));
            i = i + 1;
        }
    }
    assert(out@ + replace_all(s@.subrange(i as int, s@.len() as int), pat@, rep@) =~= out@);
    out
}

} // verus!
