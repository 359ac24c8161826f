//! YAML documents as the library holds them (an addon's `config.yaml`), and
//! the reads and edits the configuration pages make on them: nodes found by
//! a path of mapping keys, values set along a dotted path, nodes created
//! where missing.
use vstd::prelude::*;
use crate::text::{
    clone_string, str_eq, string_from_str, views, split_on, split_from, join_text, parse_i64, parse_i64_spec,
    trim, trim_start, trim_end, is_ws, text_views,
};
use crate::shell::{path_segments, split_path};

verus! {

/// A YAML value.  A number is held as its text, as `serde_yaml` prints it;
/// mappings keep their order and may have keys of any kind.
#[derive(Debug, PartialEq)]
pub enum Yaml {
    Null,
    Bool(bool),
    Number(String),
    Str(String),
    Sequence(Vec<Yaml>),
    Mapping(Vec<(Yaml, Yaml)>),
    Tagged(String, Box<Yaml>),
}

pub enum YamlV {
    Null,
    Bool(bool),
    Number(Seq<char>),
    Str(Seq<char>),
    Sequence(Seq<YamlV>),
    Mapping(Seq<(YamlV, YamlV)>),
    Tagged(Seq<char>, Box<YamlV>),
}

pub open spec fn yaml_items(s: Seq<Yaml>) -> Seq<YamlV>
    decreases s,
{
    if s.len() == 0 {
        Seq::empty()
    } else {
        yaml_items(s.drop_last()).push(yaml_view(s.last()))
    }
}

pub open spec fn yaml_pairs(s: Seq<(Yaml, Yaml)>) -> Seq<(YamlV, YamlV)>
    decreases s,
{
    if s.len() == 0 {
        Seq::empty()
    } else {
        yaml_pairs(s.drop_last()).push((yaml_view(s.last().0), yaml_view(s.last().1)))
    }
}

pub open spec fn yaml_view(y: Yaml) -> YamlV
    decreases y,
{
    match y {
        Yaml::Null => YamlV::Null,
        Yaml::Bool(b) => YamlV::Bool(b),
        Yaml::Number(n) => YamlV::Number(n@),
        Yaml::Str(s) => YamlV::Str(s@),
        Yaml::Sequence(v) => YamlV::Sequence(yaml_items(v@)),
        Yaml::Mapping(m) => YamlV::Mapping(yaml_pairs(m@)),
        Yaml::Tagged(t, b) => YamlV::Tagged(t@, Box::new(yaml_view(*b))),
    }
}

impl Yaml {
    pub open spec fn view(&self) -> YamlV {
        yaml_view(*self)
    }

    /// A deep copy.
    pub fn duplicate(&self) -> (r: Yaml)
        ensures
            r.view() == self.view(),
        decreases self, 0nat,
    {
        match self {
            Yaml::Null => Yaml::Null,
            Yaml::Bool(b) => Yaml::Bool(*b),
            Yaml::Number(n) => Yaml::Number(clone_string(n)),
            Yaml::Str(t) => Yaml::Str(clone_string(t)),
            Yaml::Sequence(items) => Yaml::Sequence(duplicate_items(items)),
            Yaml::Mapping(pairs) => Yaml::Mapping(duplicate_pairs(pairs)),
            Yaml::Tagged(t, b) => {
                let inner = b.duplicate();
                Yaml::Tagged(clone_string(t), Box::new(inner))
            },
        }
    }
}

pub fn duplicate_items(items: &Vec<Yaml>) -> (r: Vec<Yaml>)
    ensures
        yaml_items(r@) == yaml_items(items@),
    decreases items, 1nat,
{
    let mut out: Vec<Yaml> = Vec::new();
    for i in 0..items.len()
        invariant
            yaml_items(out@) == yaml_items(items@.take(i as int)),
    {
        assert(items@.take(i + 1).drop_last() =~= items@.take(i as int));
        assert(decreases_to!(items@ => items@[i as int]));
        let c = items[i].duplicate();
        let ghost before = out@;
        out.push(c);
        assert(out@.drop_last() =~= before);
    }
    assert(items@.take(items.len() as int) =~= items@);
    out
}

pub fn duplicate_pairs(pairs: &Vec<(Yaml, Yaml)>) -> (r: Vec<(Yaml, Yaml)>)
    ensures
        yaml_pairs(r@) == yaml_pairs(pairs@),
    decreases pairs, 1nat,
{
    let mut out: Vec<(Yaml, Yaml)> = Vec::new();
    for i in 0..pairs.len()
        invariant
            yaml_pairs(out@) == yaml_pairs(pairs@.take(i as int)),
    {
        assert(pairs@.take(i + 1).drop_last() =~= pairs@.take(i as int));
        assert(decreases_to!(pairs@ => pairs@[i as int]));
        let k = pairs[i].0.duplicate();
        let v = pairs[i].1.duplicate();
        let ghost before = out@;
        out.push((k, v));
        assert(out@.drop_last() =~= before);
    }
    assert(pairs@.take(pairs.len() as int) =~= pairs@);
    out
}

pub proof fn lemma_yaml_pairs_len(s: Seq<(Yaml, Yaml)>)
    ensures
        yaml_pairs(s).len() == s.len(),
    decreases s.len(),
{
    if s.len() > 0 {
        lemma_yaml_pairs_len(s.drop_last());
    }
}

pub proof fn lemma_yaml_pairs_index(s: Seq<(Yaml, Yaml)>, i: int)
    requires
        0 <= i < s.len(),
    ensures
        yaml_pairs(s)[i] == (yaml_view(s[i].0), yaml_view(s[i].1)),
    decreases s.len(),
{
    lemma_yaml_pairs_len(s);
    if i < s.len() - 1 {
        lemma_yaml_pairs_index(s.drop_last(), i);
    }
}

pub proof fn lemma_yaml_items_len(s: Seq<Yaml>)
    ensures
        yaml_items(s).len() == s.len(),
    decreases s.len(),
{
    if s.len() > 0 {
        lemma_yaml_items_len(s.drop_last());
    }
}

pub proof fn lemma_yaml_items_index(s: Seq<Yaml>, i: int)
    requires
        0 <= i < s.len(),
    ensures
        yaml_items(s)[i] == yaml_view(s[i]),
    decreases s.len(),
{
    lemma_yaml_items_len(s);
    if i < s.len() - 1 {
        lemma_yaml_items_index(s.drop_last(), i);
    }
}

// ---------------------------------------------------------------------------
// Tags
// ---------------------------------------------------------------------------

/// The value under its tags (what `Value::untag_ref` gives).
pub open spec fn untagged(y: YamlV) -> YamlV
    decreases y,
{
    match y {
        YamlV::Tagged(_, b) => untagged(*b),
        _ => y,
    }
}

/// `Value::as_str`: the text of a value, under its tags.
pub open spec fn as_text(y: YamlV) -> Option<Seq<char>> {
    match untagged(y) {
        YamlV::Str(s) => Some(s),
        _ => None,
    }
}

/// `Value::as_bool`.
pub open spec fn as_flag(y: YamlV) -> Option<bool> {
    match untagged(y) {
        YamlV::Bool(b) => Some(b),
        _ => None,
    }
}

/// `Value::as_mapping`.
pub open spec fn as_entries(y: YamlV) -> Option<Seq<(YamlV, YamlV)>> {
    match untagged(y) {
        YamlV::Mapping(ms) => Some(ms),
        _ => None,
    }
}

/// A value under its tags.
pub fn untag(y: &Yaml) -> (r: &Yaml)
    ensures
        r.view() == untagged(y.view()),
        !(r is Tagged),
    decreases y,
{
    match y {
        Yaml::Tagged(_, b) => untag(b),
        _ => y,
    }
}

/// `Value::as_str`.
pub fn text_value(y: &Yaml) -> (r: Option<&String>)
    ensures
        match as_text(y.view()) {
            Some(t) => r matches Some(s) && s@ == t,
            None => r is None,
        },
{
    match untag(y) {
        Yaml::Str(s) => Some(s),
        _ => None,
    }
}

// ---------------------------------------------------------------------------
// Mappings
// ---------------------------------------------------------------------------

/// The position of the entry whose key is the string `name`.
pub open spec fn key_index(ms: Seq<(YamlV, YamlV)>, name: Seq<char>) -> Option<int>
    decreases ms.len(),
{
    if ms.len() == 0 {
        None
    } else {
        match key_index(ms.drop_last(), name) {
            Some(i) => Some(i),
            None => if ms.last().0 == YamlV::Str(name) { Some(ms.len() - 1) } else { None },
        }
    }
}

/// The value under the string key `name` (`Mapping::get`).
pub open spec fn map_get(ms: Seq<(YamlV, YamlV)>, name: Seq<char>) -> Option<YamlV> {
    match key_index(ms, name) {
        Some(i) => Some(ms[i].1),
        None => None,
    }
}

/// `Mapping::insert` with a string key: the value is replaced in place, or
/// the entry added at the end.
pub open spec fn map_set(ms: Seq<(YamlV, YamlV)>, name: Seq<char>, v: YamlV) -> Seq<(YamlV, YamlV)> {
    match key_index(ms, name) {
        Some(i) => ms.update(i, (ms[i].0, v)),
        None => ms.push((YamlV::Str(name), v)),
    }
}

/// The entries of a mapping, none for any other value.
pub open spec fn entries_or_empty(y: YamlV) -> Seq<(YamlV, YamlV)> {
    match y {
        YamlV::Mapping(ms) => ms,
        _ => Seq::empty(),
    }
}

pub proof fn lemma_key_index(ms: Seq<(YamlV, YamlV)>, name: Seq<char>)
    ensures
        match key_index(ms, name) {
            Some(i) => 0 <= i < ms.len() && ms[i].0 == YamlV::Str(name) && forall|k: int|
                0 <= k < i ==> (#[trigger] ms[k]).0 != YamlV::Str(name),
            None => forall|k: int| 0 <= k < ms.len() ==> (#[trigger] ms[k]).0 != YamlV::Str(name),
        },
    decreases ms.len(),
{
    if ms.len() > 0 {
        lemma_key_index(ms.drop_last(), name);
        assert forall|k: int| 0 <= k < ms.len() - 1 implies (#[trigger] ms[k]) == ms.drop_last()[k] by {}
    }
}

pub proof fn lemma_key_index_at(ms: Seq<(YamlV, YamlV)>, name: Seq<char>, i: int)
    requires
        0 <= i < ms.len(),
        ms[i].0 == YamlV::Str(name),
        forall|k: int| 0 <= k < i ==> (#[trigger] ms[k]).0 != YamlV::Str(name),
    ensures
        key_index(ms, name) == Some(i),
{
    lemma_key_index(ms, name);
    match key_index(ms, name) {
        Some(j) => {
            if j < i {
                assert(ms[j].0 != YamlV::Str(name));
            } else if j > i {
                assert(ms[i].0 != YamlV::Str(name));
            }
        },
        None => {
            assert(ms[i].0 != YamlV::Str(name));
        },
    }
}

pub proof fn lemma_key_index_none(ms: Seq<(YamlV, YamlV)>, name: Seq<char>)
    requires
        forall|k: int| 0 <= k < ms.len() ==> (#[trigger] ms[k]).0 != YamlV::Str(name),
    ensures
        key_index(ms, name) is None,
{
    lemma_key_index(ms, name);
    if let Some(j) = key_index(ms, name) {
        assert(ms[j].0 != YamlV::Str(name));
    }
}

fn is_str_key(k: &Yaml, name: &str) -> (r: bool)
    ensures
        r == (k.view() == YamlV::Str(name@)),
{
    match k {
        Yaml::Str(s) => str_eq(s.as_str(), name),
        _ => false,
    }
}

/// The position of the entry under the string key `name`.
pub fn find_key(ms: &Vec<(Yaml, Yaml)>, name: &str) -> (r: Option<usize>)
    ensures
        match r {
            Some(i) => key_index(yaml_pairs(ms@), name@) == Some(i as int) && i < ms.len(),
            None => key_index(yaml_pairs(ms@), name@) is None,
        },
{
    let ghost pv = yaml_pairs(ms@);
    proof { lemma_yaml_pairs_len(ms@); }
    for i in 0..ms.len()
        invariant
            pv == yaml_pairs(ms@),
            pv.len() == ms.len(),
            forall|k: int| 0 <= k < i ==> (#[trigger] pv[k]).0 != YamlV::Str(name@),
    {
        proof { lemma_yaml_pairs_index(ms@, i as int); }
        if is_str_key(&ms[i].0, name) {
            proof { lemma_key_index_at(pv, name@, i as int); }
            return Some(i);
        }
    }
    proof { lemma_key_index_none(pv, name@); }
    None
}

/// `Mapping::insert` under a string key.
pub fn map_insert(ms: &mut Vec<(Yaml, Yaml)>, name: &str, v: Yaml)
    ensures
        yaml_pairs(final(ms)@) == map_set(yaml_pairs(old(ms)@), name@, v.view()),
{
    let ghost before = ms@;
    let ghost vv = v.view();
    proof { lemma_yaml_pairs_len(before); }
    match find_key(ms, name) {
        Some(i) => {
            let k = ms[i].0.duplicate();
            proof { lemma_yaml_pairs_index(before, i as int); }
            ms.set(i, (k, v));
            proof {
                lemma_yaml_pairs_len(ms@);
                assert forall|j: int| 0 <= j < ms@.len() implies #[trigger] yaml_pairs(ms@)[j] == yaml_pairs(before).update(
                    i as int,
                    (yaml_pairs(before)[i as int].0, vv),
                )[j] by {
                    lemma_yaml_pairs_index(ms@, j);
                    lemma_yaml_pairs_index(before, j);
                }
                assert(yaml_pairs(ms@) =~= yaml_pairs(before).update(i as int, (yaml_pairs(before)[i as int].0, vv)));
            }
        },
        None => {
            let key = Yaml::Str(string_from_str(name));
            assert(key.view() == YamlV::Str(name@));
            ms.push((key, v));
            assert(ms@.drop_last() =~= before);
            assert(yaml_pairs(ms@) == yaml_pairs(before).push((YamlV::Str(name@), vv)));
        },
    }
}

// ---------------------------------------------------------------------------
// Paths
// ---------------------------------------------------------------------------

/// The node a path of mapping keys leads to from `root`.
pub open spec fn node_at(root: YamlV, path: Seq<Seq<char>>) -> Option<YamlV>
    decreases path.len(),
{
    if path.len() == 0 {
        Some(root)
    } else {
        match root {
            YamlV::Mapping(ms) => match map_get(ms, path[0]) {
                Some(c) => node_at(c, path.skip(1)),
                None => None,
            },
            _ => None,
        }
    }
}

/// The node a path of mapping keys leads to.
pub fn get_node<'a>(root: &'a Yaml, path: &Vec<String>) -> (r: Option<&'a Yaml>)
    ensures
        match r {
            Some(n) => node_at(root.view(), text_views(path@)) == Some(n.view()),
            None => node_at(root.view(), text_views(path@)) is None,
        },
{
    let ghost pv = text_views(path@);
    let mut current: &Yaml = root;
    let mut k: usize = 0;
    assert(pv.skip(0) =~= pv);
    while k < path.len()
        invariant
            k <= path.len(),
            pv == text_views(path@),
            node_at(root.view(), pv) == node_at(current.view(), pv.skip(k as int)),
        decreases path.len() - k,
    {
        assert(pv.skip(k as int)[0] == path@[k as int]@);
        assert(pv.skip(k as int).skip(1) =~= pv.skip(k + 1));
        match current {
            Yaml::Mapping(ms) => {
                match find_key(ms, path[k].as_str()) {
                    Some(i) => {
                        proof { lemma_yaml_pairs_index(ms@, i as int); }
                        current = &ms[i].1;
                    },
                    None => {
                        return None;
                    },
                }
            },
            _ => {
                return None;
            },
        }
        k += 1;
    }
    assert(pv.skip(k as int) =~= Seq::<Seq<char>>::empty());
    Some(current)
}


pub proof fn lemma_yaml_pairs_update(s: Seq<(Yaml, Yaml)>, i: int, p: (Yaml, Yaml))
    requires
        0 <= i < s.len(),
    ensures
        yaml_pairs(s.update(i, p)) == yaml_pairs(s).update(i, (yaml_view(p.0), yaml_view(p.1))),
{
    lemma_yaml_pairs_len(s);
    lemma_yaml_pairs_len(s.update(i, p));
    assert forall|j: int| 0 <= j < s.len() implies #[trigger] yaml_pairs(s.update(i, p))[j] == yaml_pairs(s).update(
        i,
        (yaml_view(p.0), yaml_view(p.1)),
    )[j] by {
        lemma_yaml_pairs_index(s.update(i, p), j);
        lemma_yaml_pairs_index(s, j);
    }
    assert(yaml_pairs(s.update(i, p)) =~= yaml_pairs(s).update(i, (yaml_view(p.0), yaml_view(p.1))));
}

pub fn entry_value(ms: &Vec<(Yaml, Yaml)>, name: &str) -> (r: Option<Yaml>)
    ensures
        match r {
            Some(v) => map_get(yaml_pairs(ms@), name@) == Some(v.view()),
            None => map_get(yaml_pairs(ms@), name@) is None,
        },
{
    match find_key(ms, name) {
        Some(j) => {
            proof { lemma_yaml_pairs_index(ms@, j as int); }
            Some(ms[j].1.duplicate())
        },
        None => None,
    }
}

fn into_entries(node: Yaml) -> (r: Vec<(Yaml, Yaml)>)
    ensures
        yaml_pairs(r@) == entries_or_empty(node.view()),
{
    match node {
        Yaml::Mapping(ms) => ms,
        _ => {
            let v: Vec<(Yaml, Yaml)> = Vec::new();
            assert(yaml_pairs(v@) =~= Seq::<(YamlV, YamlV)>::empty());
            v
        },
    }
}

proof fn lemma_skip_step(pv: Seq<Seq<char>>, i: int)
    requires
        0 <= i < pv.len(),
    ensures
        pv.skip(i)[0] == pv[i],
        pv.skip(i).skip(1) == pv.skip(i + 1),
        pv.skip(i).len() == pv.len() - i,
{
    assert(pv.skip(i).skip(1) =~= pv.skip(i + 1));
}

/// `set_yaml_value`: the value set under the last key of `parts`, each
/// earlier key made a mapping (created when missing, replaced when it is
/// not a mapping); nothing is set when the parent of the last key is not
/// a mapping.
pub open spec fn set_path(node: YamlV, parts: Seq<Seq<char>>, v: YamlV) -> YamlV
    decreases parts.len(),
{
    if parts.len() == 0 {
        node
    } else if parts.len() == 1 {
        match node {
            YamlV::Mapping(ms) => YamlV::Mapping(map_set(ms, parts[0], v)),
            _ => node,
        }
    } else {
        let ms = entries_or_empty(node);
        let child = match map_get(ms, parts[0]) {
            Some(c) => c,
            None => YamlV::Mapping(Seq::empty()),
        };
        YamlV::Mapping(map_set(ms, parts[0], set_path(child, parts.skip(1), v)))
    }
}

fn set_path_from(node: Yaml, parts: &Vec<String>, i: usize, v: Yaml) -> (r: Yaml)
    requires
        i <= parts.len(),
    ensures
        r.view() == set_path(node.view(), text_views(parts@).skip(i as int), v.view()),
    decreases parts.len() - i,
{
    let ghost pv = text_views(parts@);
    if i >= parts.len() {
        assert(pv.skip(i as int).len() == 0);
        return node;
    }
    proof { lemma_skip_step(pv, i as int); }
    if i + 1 == parts.len() {
        match node {
            Yaml::Mapping(ms) => {
                let mut ms = ms;
                map_insert(&mut ms, parts[i].as_str(), v);
                Yaml::Mapping(ms)
            },
            other => other,
        }
    } else {
        let mut ms = into_entries(node);
        let child = match entry_value(&ms, parts[i].as_str()) {
            Some(c) => c,
            None => {
                let e: Vec<(Yaml, Yaml)> = Vec::new();
                assert(yaml_pairs(e@) =~= Seq::<(YamlV, YamlV)>::empty());
                Yaml::Mapping(e)
            },
        };
        let updated = set_path_from(child, parts, i + 1, v);
        map_insert(&mut ms, parts[i].as_str(), updated);
        Yaml::Mapping(ms)
    }
}

fn strings_of(parts: &Vec<Vec<char>>) -> (r: Vec<String>)
    ensures
        text_views(r@) == views(parts@),
{
    let mut out: Vec<String> = Vec::new();
    for i in 0..parts.len()
        invariant
            text_views(out@) == views(parts@.take(i as int)),
    {
        let t = crate::text::string_from_chars(&parts[i]);
        let ghost before = out@;
        out.push(t);
        assert(out@.drop_last() =~= before);
        assert(text_views(out@) =~= text_views(before).push(parts@[i as int]@));
        assert(parts@.take(i + 1) =~= parts@.take(i as int).push(parts@[i as int]));
        assert(views(parts@.take(i + 1)) =~= views(parts@.take(i as int)).push(parts@[i as int]@));
    }
    assert(parts@.take(parts.len() as int) =~= parts@);
    out
}

/// Sets `value` at a dotted path (`a.b.c`, split at every `.`).
pub fn set_yaml_value(root: &mut Yaml, path: &str, value: Yaml)
    ensures
        final(root).view() == set_path(old(root).view(), crate::text::split_on(path@, '.'), value.view()),
{
    let cs = crate::text::chars_of(path);
    let pieces = crate::text::split_chars(&cs, '.');
    let parts = strings_of(&pieces);
    let mut taken = Yaml::Null;
    std::mem::swap(root, &mut taken);
    assert(text_views(parts@).skip(0) =~= text_views(parts@));
    *root = set_path_from(taken, &parts, 0, value);
}

/// `ensure_node_path`: each key of `path` present, in mappings (a node that
/// is not a mapping becomes an empty one); a missing last key gets `d`.
pub open spec fn ensure_path(node: YamlV, path: Seq<Seq<char>>, d: YamlV) -> YamlV
    decreases path.len(),
{
    if path.len() == 0 {
        node
    } else {
        let ms = entries_or_empty(node);
        if path.len() == 1 {
            if map_get(ms, path[0]) is Some {
                YamlV::Mapping(ms)
            } else {
                YamlV::Mapping(ms.push((YamlV::Str(path[0]), d)))
            }
        } else {
            let child = match map_get(ms, path[0]) {
                Some(c) => c,
                None => YamlV::Mapping(Seq::empty()),
            };
            YamlV::Mapping(map_set(ms, path[0], ensure_path(child, path.skip(1), d)))
        }
    }
}

fn ensure_path_from(node: Yaml, path: &Vec<String>, i: usize, d: Yaml) -> (r: Yaml)
    requires
        i <= path.len(),
    ensures
        r.view() == ensure_path(node.view(), text_views(path@).skip(i as int), d.view()),
    decreases path.len() - i,
{
    let ghost pv = text_views(path@);
    if i >= path.len() {
        assert(pv.skip(i as int).len() == 0);
        return node;
    }
    proof { lemma_skip_step(pv, i as int); }
    let mut ms = into_entries(node);
    if i + 1 == path.len() {
        match find_key(&ms, path[i].as_str()) {
            Some(j) => {
                proof { lemma_yaml_pairs_index(ms@, j as int); }
            },
            None => {
                let ghost before = ms@;
                let key = Yaml::Str(clone_string(&path[i]));
                assert(key.view() == YamlV::Str(pv[i as int]));
                let ghost dv = d.view();
                ms.push((key, d));
                assert(ms@.drop_last() =~= before);
                assert(yaml_pairs(ms@) == yaml_pairs(before).push((YamlV::Str(pv[i as int]), dv)));
            },
        }
        Yaml::Mapping(ms)
    } else {
        let child = match entry_value(&ms, path[i].as_str()) {
            Some(c) => c,
            None => {
                let e: Vec<(Yaml, Yaml)> = Vec::new();
                assert(yaml_pairs(e@) =~= Seq::<(YamlV, YamlV)>::empty());
                Yaml::Mapping(e)
            },
        };
        let updated = ensure_path_from(child, path, i + 1, d);
        map_insert(&mut ms, path[i].as_str(), updated);
        Yaml::Mapping(ms)
    }
}

/// Makes sure every key of `path` exists, giving a missing last key the
/// value `default_value`.
pub fn ensure_node_path(root: &mut Yaml, path: &Vec<String>, default_value: Yaml)
    ensures
        final(root).view() == ensure_path(old(root).view(), text_views(path@), default_value.view()),
{
    let mut taken = Yaml::Null;
    std::mem::swap(root, &mut taken);
    assert(text_views(path@).skip(0) =~= text_views(path@));
    *root = ensure_path_from(taken, path, 0, default_value);
}

/// The document with the node at `path` replaced by `v` (unchanged when
/// the path leads nowhere).
pub open spec fn replace_at(node: YamlV, path: Seq<Seq<char>>, v: YamlV) -> YamlV
    decreases path.len(),
{
    if path.len() == 0 {
        v
    } else {
        match node {
            YamlV::Mapping(ms) => match key_index(ms, path[0]) {
                Some(i) => YamlV::Mapping(ms.update(i, (ms[i].0, replace_at(ms[i].1, path.skip(1), v)))),
                None => node,
            },
            _ => node,
        }
    }
}

fn replace_from(node: Yaml, path: &Vec<String>, i: usize, v: Yaml) -> (r: Yaml)
    requires
        i <= path.len(),
    ensures
        r.view() == replace_at(node.view(), text_views(path@).skip(i as int), v.view()),
    decreases path.len() - i,
{
    let ghost pv = text_views(path@);
    if i >= path.len() {
        assert(pv.skip(i as int).len() == 0);
        return v;
    }
    proof { lemma_skip_step(pv, i as int); }
    match node {
        Yaml::Mapping(ms) => {
            let mut ms = ms;
            match find_key(&ms, path[i].as_str()) {
                Some(j) => {
                    proof { lemma_yaml_pairs_index(ms@, j as int); }
                    let child = ms[j].1.duplicate();
                    let key = ms[j].0.duplicate();
                    let updated = replace_from(child, path, i + 1, v);
                    let ghost before = ms@;
                    proof { lemma_yaml_pairs_len(before); }
                    ms.set(j, (key, updated));
                    proof { lemma_yaml_pairs_update(before, j as int, ms@[j as int]); }
                    Yaml::Mapping(ms)
                },
                None => Yaml::Mapping(ms),
            }
        },
        other => other,
    }
}

/// Replaces the node at `path`, when there is one (what writing through
/// `get_node_mut` does).
pub fn replace_node(root: &mut Yaml, path: &Vec<String>, v: Yaml)
    ensures
        final(root).view() == replace_at(old(root).view(), text_views(path@), v.view()),
{
    let mut taken = Yaml::Null;
    std::mem::swap(root, &mut taken);
    assert(text_views(path@).skip(0) =~= text_views(path@));
    *root = replace_from(taken, path, 0, v);
}


// ---------------------------------------------------------------------------
// Reads along dotted paths
// ---------------------------------------------------------------------------

/// The node a dotted path (`a.b.c`, trimmed segments, empty ones dropped)
/// leads to.
pub open spec fn node_at_dotted(root: YamlV, dotted: Seq<char>) -> Option<YamlV> {
    node_at(root, path_segments(split_on(dotted, '.')))
}

/// The text items of a sequence (`as_str` on each).
pub open spec fn str_items(items: Seq<YamlV>) -> Seq<Seq<char>>
    decreases items.len(),
{
    if items.len() == 0 {
        Seq::empty()
    } else {
        let rest = str_items(items.drop_last());
        match as_text(items.last()) {
            Some(s) => rest.push(s),
            None => rest,
        }
    }
}

/// `yaml_string_list`: a sequence's text items, a text alone, or nothing.
pub open spec fn string_list_of(node: Option<YamlV>) -> Seq<Seq<char>> {
    match node {
        Some(YamlV::Sequence(items)) => str_items(items),
        Some(YamlV::Str(s)) => seq![s],
        _ => Seq::empty(),
    }
}

pub fn text_items_of(items: &Vec<Yaml>) -> (r: Vec<String>)
    ensures
        text_views(r@) == str_items(yaml_items(items@)),
{
    let ghost iv = yaml_items(items@);
    proof { lemma_yaml_items_len(items@); }
    let mut out: Vec<String> = Vec::new();
    for i in 0..items.len()
        invariant
            iv == yaml_items(items@),
            iv.len() == items.len(),
            text_views(out@) == str_items(iv.take(i as int)),
    {
        proof { lemma_yaml_items_index(items@, i as int); }
        assert(iv.take(i + 1).drop_last() =~= iv.take(i as int));
        match text_value(&items[i]) {
            Some(t) => {
                let ghost before = out@;
                out.push(clone_string(t));
                assert(out@.drop_last() =~= before);
                assert(text_views(out@) =~= text_views(before).push(t@));
            },
            None => {},
        }
    }
    assert(iv.take(items.len() as int) =~= iv);
    out
}

/// The texts at a dotted path: a sequence's text items, a lone text, or none.
pub fn yaml_string_list(root: &Yaml, dotted_path: &str) -> (r: Vec<String>)
    ensures
        text_views(r@) == string_list_of(node_at_dotted(root.view(), dotted_path@)),
{
    let path = split_path(dotted_path);
    match get_node(root, &path) {
        Some(Yaml::Sequence(items)) => text_items_of(items),
        Some(Yaml::Str(t)) => {
            let v = vec![clone_string(t)];
            assert(text_views(v@) =~= seq![t@]);
            v
        },
        _ => {
            let v: Vec<String> = Vec::new();
            assert(text_views(v@) =~= Seq::<Seq<char>>::empty());
            v
        },
    }
}

/// The entries of a mapping whose key and value are both texts (`as_str`).
pub open spec fn str_pairs(ms: Seq<(YamlV, YamlV)>) -> Seq<(Seq<char>, Seq<char>)>
    decreases ms.len(),
{
    if ms.len() == 0 {
        Seq::empty()
    } else {
        let rest = str_pairs(ms.drop_last());
        match (as_text(ms.last().0), as_text(ms.last().1)) {
            (Some(k), Some(v)) => rest.push((k, v)),
            _ => rest,
        }
    }
}

pub open spec fn text_pair_views(v: Seq<(String, String)>) -> Seq<(Seq<char>, Seq<char>)> {
    v.map_values(|p: (String, String)| (p.0@, p.1@))
}

/// `yaml_string_map`: the text-to-text entries of the mapping at a
/// dotted path, in order (none when it is not a mapping).
pub fn yaml_string_map(root: &Yaml, dotted_path: &str) -> (r: Vec<(String, String)>)
    ensures
        text_pair_views(r@) == match node_at_dotted(root.view(), dotted_path@) {
            Some(YamlV::Mapping(ms)) => str_pairs(ms),
            _ => Seq::empty(),
        },
{
    let path = split_path(dotted_path);
    let mut out: Vec<(String, String)> = Vec::new();
    match get_node(root, &path) {
        Some(Yaml::Mapping(ms)) => {
            let ghost pv = yaml_pairs(ms@);
            proof { lemma_yaml_pairs_len(ms@); }
            for i in 0..ms.len()
                invariant
                    pv == yaml_pairs(ms@),
                    pv.len() == ms.len(),
                    text_pair_views(out@) == str_pairs(pv.take(i as int)),
            {
                proof { lemma_yaml_pairs_index(ms@, i as int); }
                assert(pv.take(i + 1).drop_last() =~= pv.take(i as int));
                match (text_value(&ms[i].0), text_value(&ms[i].1)) {
                    (Some(k), Some(v)) => {
                        let ghost before = out@;
                        out.push((clone_string(k), clone_string(v)));
                        assert(out@.drop_last() =~= before);
                        assert(text_pair_views(out@) =~= text_pair_views(before).push((k@, v@)));
                    },
                    _ => {},
                }
            }
            assert(pv.take(ms.len() as int) =~= pv);
        },
        _ => {
            assert(text_pair_views(out@) =~= Seq::<(Seq<char>, Seq<char>)>::empty());
        },
    }
    out
}

/// Path segments joined by `.`.
pub open spec fn dotted(parts: Seq<Seq<char>>) -> Seq<char>
    decreases parts.len(),
{
    if parts.len() == 0 {
        Seq::empty()
    } else if parts.len() == 1 {
        parts[0]
    } else {
        dotted(parts.drop_last()) + seq!['.'] + parts.last()
    }
}

fn join_dots(parts: &Vec<String>) -> (r: String)
    ensures
        r@ == dotted(text_views(parts@)),
{
    let ghost pv = text_views(parts@);
    let mut out: Vec<char> = Vec::new();
    for i in 0..parts.len()
        invariant
            pv == text_views(parts@),
            out@ == dotted(pv.take(i as int)),
    {
        assert(pv.take(i + 1).drop_last() =~= pv.take(i as int));
        assert(pv.take(i + 1).last() == parts@[i as int]@);
        if i > 0 {
            out.push('.');
        }
        crate::text::push_str_chars(&mut out, parts[i].as_str());
        if i == 0 {
            assert(out@ =~= dotted(pv.take(1)));
        }
    }
    assert(pv.take(parts.len() as int) =~= pv);
    crate::text::string_from_chars(&out)
}

/// The text at a dotted path (`as_str`).
pub open spec fn text_at_dotted(root: YamlV, dotted: Seq<char>) -> Option<Seq<char>> {
    match node_at_dotted(root, dotted) {
        Some(n) => as_text(n),
        None => None,
    }
}

/// The boolean at a dotted path (`as_bool`).
pub open spec fn flag_at_dotted(root: YamlV, dotted: Seq<char>) -> Option<bool> {
    match node_at_dotted(root, dotted) {
        Some(n) => as_flag(n),
        None => None,
    }
}

/// `Value::as_i64`: a number whose text (as `serde_yaml` prints numbers:
/// integers in plain decimal, floats always with a `.`, an exponent or as
/// `.inf`/`.nan`) is an integer that fits in an `i64`.
pub open spec fn as_int(y: YamlV) -> Option<i64> {
    match untagged(y) {
        YamlV::Number(t) => parse_i64_spec(t),
        _ => None,
    }
}

/// The integer at a dotted path (`as_i64`).
pub open spec fn int_at_dotted(root: YamlV, dotted: Seq<char>) -> Option<i64> {
    match node_at_dotted(root, dotted) {
        Some(n) => as_int(n),
        None => None,
    }
}

/// The text at a dotted path.
pub fn yaml_string(root: &Yaml, dotted_path: &str) -> (r: Option<String>)
    ensures
        match text_at_dotted(root.view(), dotted_path@) {
            Some(t) => r matches Some(s) && s@ == t,
            None => r is None,
        },
{
    let path = split_path(dotted_path);
    match get_node(root, &path) {
        Some(n) => match text_value(n) {
            Some(t) => Some(clone_string(t)),
            None => None,
        },
        None => None,
    }
}

/// The boolean at a dotted path.
pub fn yaml_bool(root: &Yaml, dotted_path: &str) -> (r: Option<bool>)
    ensures
        r == flag_at_dotted(root.view(), dotted_path@),
{
    let path = split_path(dotted_path);
    match get_node(root, &path) {
        Some(n) => match untag(n) {
            Yaml::Bool(b) => Some(*b),
            _ => None,
        },
        None => None,
    }
}

/// The integer at a dotted path.
pub fn yaml_i64(root: &Yaml, dotted_path: &str) -> (r: Option<i64>)
    ensures
        r == int_at_dotted(root.view(), dotted_path@),
{
    let path = split_path(dotted_path);
    match get_node(root, &path) {
        Some(n) => match untag(n) {
            Yaml::Number(t) => parse_i64(&crate::text::chars_of(t.as_str())),
            _ => None,
        },
        None => None,
    }
}

/// The asset selectors' current values: each path whose node is a text,
/// with the path joined by `.`.
pub open spec fn selector_values(root: YamlV, paths: Seq<Seq<Seq<char>>>) -> Seq<(Seq<char>, Seq<char>)>
    decreases paths.len(),
{
    if paths.len() == 0 {
        Seq::empty()
    } else {
        let rest = selector_values(root, paths.drop_last());
        match node_at(root, paths.last()) {
            Some(YamlV::Str(s)) => rest.push((dotted(paths.last()), s)),
            _ => rest,
        }
    }
}

/// Reads the asset selectors' values.
pub fn read_asset_selector_values(root: &Yaml, selector_paths: &Vec<Vec<String>>) -> (r: Vec<(String, String)>)
    ensures
        text_pair_views(r@) == selector_values(root.view(), selector_paths@.map_values(|p: Vec<String>| text_views(p@))),
{
    let ghost ps = selector_paths@.map_values(|p: Vec<String>| text_views(p@));
    let mut out: Vec<(String, String)> = Vec::new();
    for i in 0..selector_paths.len()
        invariant
            ps == selector_paths@.map_values(|p: Vec<String>| text_views(p@)),
            text_pair_views(out@) == selector_values(root.view(), ps.take(i as int)),
    {
        assert(ps.take(i + 1).drop_last() =~= ps.take(i as int));
        assert(ps.take(i + 1).last() == text_views(selector_paths@[i as int]@));
        match get_node(root, &selector_paths[i]) {
            Some(Yaml::Str(s)) => {
                let name = join_dots(&selector_paths[i]);
                let ghost before = out@;
                out.push((name, clone_string(s)));
                assert(out@.drop_last() =~= before);
                assert(text_pair_views(out@) =~= text_pair_views(before).push((dotted(ps[i as int]), s@)));
            },
            _ => {},
        }
    }
    assert(ps.take(selector_paths.len() as int) =~= ps);
    out
}

/// The wallpaper a monitor shows by the configuration: its own assignment,
/// else the `*` assignment, else `wallpaper.wallpaper_id`.
pub open spec fn assigned_asset(root: YamlV, monitor_key: Seq<char>) -> Option<Seq<char>> {
    match node_at_dotted(root, "wallpaper.assignments."@ + monitor_key) {
        Some(YamlV::Str(v)) => Some(v),
        _ => match node_at_dotted(root, "wallpaper.assignments.*"@) {
            Some(YamlV::Str(v)) => Some(v),
            _ => match node_at_dotted(root, "wallpaper.wallpaper_id"@) {
                Some(YamlV::Str(v)) => Some(v),
                _ => None,
            },
        },
    }
}

fn text_at(root: &Yaml, dotted_path: &str) -> (r: Option<String>)
    ensures
        match node_at_dotted(root.view(), dotted_path@) {
            Some(YamlV::Str(v)) => r matches Some(t) && t@ == v,
            _ => r is None,
        },
{
    let path = split_path(dotted_path);
    match get_node(root, &path) {
        Some(Yaml::Str(v)) => Some(clone_string(v)),
        _ => None,
    }
}

/// The wallpaper assigned to a monitor.
pub fn get_assigned_asset_for_monitor(root: &Yaml, monitor_key: &str) -> (r: Option<String>)
    ensures
        match assigned_asset(root.view(), monitor_key@) {
            Some(v) => r matches Some(t) && t@ == v,
            None => r is None,
        },
{
    let own = join_text("wallpaper.assignments.", monitor_key);
    if let Some(v) = text_at(root, own.as_str()) {
        return Some(v);
    }
    if let Some(v) = text_at(root, "wallpaper.assignments.*") {
        return Some(v);
    }
    text_at(root, "wallpaper.wallpaper_id")
}

/// Some item of the sequence is the text `t` (by `as_str`).
pub open spec fn has_text(items: Seq<YamlV>, t: Seq<char>) -> bool {
    exists|i: int| 0 <= i < items.len() && as_text(items[i]) == Some(t)
}

/// Assigning an asset to a monitor: `wallpaper.assignments.<monitor>` set
/// to it (the assignments made a mapping first), `wallpaper.wallpaper_id`
/// set to it when present, and the monitor added to `wallpaper.monitor_index`
/// (made a sequence when missing) unless it is listed there.
pub open spec fn asset_assigned(root: YamlV, monitor_key: Seq<char>, asset_id: Seq<char>) -> YamlV {
    let a = path_segments(split_on("wallpaper.assignments"@, '.'));
    let e = path_segments(split_on("wallpaper.assignments."@ + monitor_key, '.'));
    let w = path_segments(split_on("wallpaper.wallpaper_id"@, '.'));
    let m = path_segments(split_on("wallpaper.monitor_index"@, '.'));
    let r1 = ensure_path(root, a, YamlV::Mapping(Seq::empty()));
    let r2 = ensure_path(r1, e, YamlV::Str(asset_id));
    let r3 = replace_at(r2, e, YamlV::Str(asset_id));
    let r4 = replace_at(r3, w, YamlV::Str(asset_id));
    let r5 = ensure_path(r4, m, YamlV::Sequence(Seq::empty()));
    match node_at(r5, m) {
        Some(YamlV::Sequence(items)) => if has_text(items, monitor_key) {
            r5
        } else {
            replace_at(r5, m, YamlV::Sequence(items.push(YamlV::Str(monitor_key))))
        },
        _ => r5,
    }
}

fn find_text(items: &Vec<Yaml>, t: &str) -> (r: bool)
    ensures
        r == has_text(yaml_items(items@), t@),
{
    let ghost iv = yaml_items(items@);
    proof { lemma_yaml_items_len(items@); }
    for i in 0..items.len()
        invariant
            iv == yaml_items(items@),
            iv.len() == items.len(),
            forall|k: int| 0 <= k < i ==> as_text(iv[k]) != Some(t@),
    {
        proof { lemma_yaml_items_index(items@, i as int); }
        match text_value(&items[i]) {
            Some(s) => {
                if str_eq(s.as_str(), t) {
                    return true;
                }
            },
            None => {},
        }
    }
    false
}

/// Assigns an asset to a monitor in a wallpaper configuration.
pub fn apply_asset_assignment_to_monitor(root: &mut Yaml, monitor_key: &str, asset_id: &str)
    ensures
        final(root).view() == asset_assigned(old(root).view(), monitor_key@, asset_id@),
{
    let ghost r0 = root.view();
    let assignments = split_path("wallpaper.assignments");
    let no_pairs: Vec<(Yaml, Yaml)> = Vec::new();
    assert(yaml_pairs(no_pairs@) =~= Seq::<(YamlV, YamlV)>::empty());
    let empty_map = Yaml::Mapping(no_pairs);
    ensure_node_path(root, &assignments, empty_map);
    let ghost r1 = root.view();
    assert(r1 == ensure_path(r0, path_segments(split_on("wallpaper.assignments"@, '.')), YamlV::Mapping(Seq::empty())));
    let own = join_text("wallpaper.assignments.", monitor_key);
    let entry = split_path(own.as_str());
    ensure_node_path(root, &entry, Yaml::Str(string_from_str(asset_id)));
    let ghost r2 = root.view();
    assert(r2 == ensure_path(r1, path_segments(split_on("wallpaper.assignments."@ + monitor_key@, '.')), YamlV::Str(asset_id@)));
    replace_node(root, &entry, Yaml::Str(string_from_str(asset_id)));
    let ghost r3 = root.view();
    assert(r3 == replace_at(r2, path_segments(split_on("wallpaper.assignments."@ + monitor_key@, '.')), YamlV::Str(asset_id@)));
    let wid = split_path("wallpaper.wallpaper_id");
    replace_node(root, &wid, Yaml::Str(string_from_str(asset_id)));
    let ghost r4 = root.view();
    assert(r4 == replace_at(r3, path_segments(split_on("wallpaper.wallpaper_id"@, '.')), YamlV::Str(asset_id@)));
    let indexes = split_path("wallpaper.monitor_index");
    let no_items: Vec<Yaml> = Vec::new();
    assert(yaml_items(no_items@) =~= Seq::<YamlV>::empty());
    let empty_seq = Yaml::Sequence(no_items);
    ensure_node_path(root, &indexes, empty_seq);
    let ghost r5 = root.view();
    assert(r5 == ensure_path(r4, path_segments(split_on("wallpaper.monitor_index"@, '.')), YamlV::Sequence(Seq::empty())));
    let ghost mpath = text_views(indexes@);
    let ghost expected: Option<YamlV> = match node_at(r5, mpath) {
        Some(YamlV::Sequence(iv)) => if has_text(iv, monitor_key@) {
            None
        } else {
            Some(YamlV::Sequence(iv.push(YamlV::Str(monitor_key@))))
        },
        _ => None,
    };
    let grown: Option<Yaml> = match get_node(root, &indexes) {
        Some(Yaml::Sequence(items)) => {
            assert(node_at(r5, mpath) == Some(YamlV::Sequence(yaml_items(items@))));
            if find_text(items, monitor_key) {
                None
            } else {
                let mut next = duplicate_items(items);
                let ghost before = next@;
                let item = Yaml::Str(string_from_str(monitor_key));
                assert(item.view() == YamlV::Str(monitor_key@));
                next.push(item);
                assert(next@.drop_last() =~= before);
                assert(yaml_items(next@) == yaml_items(items@).push(YamlV::Str(monitor_key@)));
                let grown_seq = Yaml::Sequence(next);
                assert(grown_seq.view() == YamlV::Sequence(yaml_items(items@).push(YamlV::Str(monitor_key@))));
                Some(grown_seq)
            }
        },
        Some(other) => {
            assert(node_at(r5, mpath) == Some(other.view()));
            None
        },
        None => None,
    };
    assert(match grown {
        Some(g) => expected == Some(g.view()),
        None => expected is None,
    });
    match grown {
        Some(seq_value) => replace_node(root, &indexes, seq_value),
        None => {},
    }
}

// ---------------------------------------------------------------------------
// Reading back what was written
// ---------------------------------------------------------------------------

proof fn lemma_map_get_set(ms: Seq<(YamlV, YamlV)>, k: Seq<char>, v: YamlV)
    ensures
        map_get(map_set(ms, k, v), k) == Some(v),
{
    lemma_key_index(ms, k);
    match key_index(ms, k) {
        Some(i) => {
            let u = ms.update(i, (ms[i].0, v));
            assert forall|j: int| 0 <= j < i implies (#[trigger] u[j]).0 != YamlV::Str(k) by {
                assert(u[j] == ms[j]);
            }
            lemma_key_index_at(u, k, i);
        },
        None => {
            let u = ms.push((YamlV::Str(k), v));
            assert forall|j: int| 0 <= j < ms.len() implies (#[trigger] u[j]).0 != YamlV::Str(k) by {
                assert(u[j] == ms[j]);
            }
            lemma_key_index_at(u, k, ms.len() as int);
        },
    }
}

proof fn lemma_map_get_push_absent(ms: Seq<(YamlV, YamlV)>, k: Seq<char>, v: YamlV)
    requires
        map_get(ms, k) is None,
    ensures
        map_get(ms.push((YamlV::Str(k), v)), k) == Some(v),
{
    lemma_key_index(ms, k);
    let u = ms.push((YamlV::Str(k), v));
    assert forall|j: int| 0 <= j < ms.len() implies (#[trigger] u[j]).0 != YamlV::Str(k) by {
        assert(u[j] == ms[j]);
    }
    lemma_key_index_at(u, k, ms.len() as int);
}

/// Setting a value along a path and reading the path back gives the value,
/// unless the node that would hold it exists and is not a mapping (then
/// nothing is set).
pub proof fn law_set_path_reads_back(root: YamlV, parts: Seq<Seq<char>>, v: YamlV)
    requires
        parts.len() > 0,
        !(node_at(root, parts.drop_last()) matches Some(n) && !(n is Mapping)),
    ensures
        node_at(set_path(root, parts, v), parts) == Some(v),
    decreases parts.len(),
{
    let k = parts[0];
    let rest = parts.skip(1);
    if parts.len() == 1 {
        assert(parts.drop_last() =~= Seq::<Seq<char>>::empty());
        let ms = root->Mapping_0;
        lemma_map_get_set(ms, k, v);
        assert(rest =~= Seq::<Seq<char>>::empty());
        assert(node_at(v, rest) == Some(v));
        assert(set_path(root, parts, v) == YamlV::Mapping(map_set(ms, k, v)));
    } else {
        let ms = entries_or_empty(root);
        let child = match map_get(ms, k) {
            Some(c) => c,
            None => YamlV::Mapping(Seq::empty()),
        };
        assert(rest.drop_last() =~= parts.drop_last().skip(1));
        assert(parts.drop_last()[0] == k);
        if rest.drop_last().len() > 0 {
            assert(map_get(Seq::<(YamlV, YamlV)>::empty(), rest.drop_last()[0]) is None) by {
                lemma_key_index(Seq::<(YamlV, YamlV)>::empty(), rest.drop_last()[0]);
            }
        }
        law_set_path_reads_back(child, rest, v);
        lemma_map_get_set(ms, k, set_path(child, rest, v));
        assert(set_path(root, parts, v) == YamlV::Mapping(map_set(ms, k, set_path(child, rest, v))));
    }
}

/// Making sure a path exists: afterwards it leads to what it led to
/// before, or, when it led nowhere, to the default value.
pub proof fn law_ensure_path_exists(root: YamlV, path: Seq<Seq<char>>, d: YamlV)
    ensures
        node_at(ensure_path(root, path, d), path) == Some(match node_at(root, path) {
            Some(x) => x,
            None => d,
        }),
    decreases path.len(),
{
    if path.len() > 0 {
        let k = path[0];
        let rest = path.skip(1);
        let ms = entries_or_empty(root);
        if path.len() == 1 {
            assert(rest =~= Seq::<Seq<char>>::empty());
            match map_get(ms, k) {
                Some(x) => {
                    assert(node_at(x, rest) == Some(x));
                },
                None => {
                    lemma_map_get_push_absent(ms, k, d);
                    assert(node_at(d, rest) == Some(d));
                },
            }
            if let YamlV::Mapping(m0) = root {
                if let Some(x) = map_get(m0, k) {
                    assert(node_at(x, rest) == Some(x));
                }
            }
        } else {
            let child = match map_get(ms, k) {
                Some(c) => c,
                None => YamlV::Mapping(Seq::empty()),
            };
            law_ensure_path_exists(child, rest, d);
            lemma_map_get_set(ms, k, ensure_path(child, rest, d));
            if map_get(ms, k) is None {
                assert(map_get(Seq::<(YamlV, YamlV)>::empty(), rest[0]) is None) by {
                    lemma_key_index(Seq::<(YamlV, YamlV)>::empty(), rest[0]);
                }
            }
        }
    }
}

/// Replacing the node a path leads to: reading the path back gives the new
/// value; a path that leads nowhere leaves the document as it was.
pub proof fn law_replace_reads_back(root: YamlV, path: Seq<Seq<char>>, v: YamlV)
    ensures
        node_at(root, path) is Some ==> node_at(replace_at(root, path, v), path) == Some(v),
        node_at(root, path) is None ==> replace_at(root, path, v) == root,
    decreases path.len(),
{
    if path.len() > 0 {
        if let YamlV::Mapping(ms) = root {
            let k = path[0];
            let rest = path.skip(1);
            lemma_key_index(ms, k);
            match key_index(ms, k) {
                Some(i) => {
                    law_replace_reads_back(ms[i].1, rest, v);
                    let u = ms.update(i, (ms[i].0, replace_at(ms[i].1, rest, v)));
                    assert forall|j: int| 0 <= j < i implies (#[trigger] u[j]).0 != YamlV::Str(k) by {
                        assert(u[j] == ms[j]);
                    }
                    lemma_key_index_at(u, k, i);
                    if node_at(root, path) is None {
                        assert(u =~= ms);
                    }
                },
                None => {},
            }
        }
    }
}


// ---------------------------------------------------------------------------
// Paths that part ways
// ---------------------------------------------------------------------------

/// Two key paths agree up to position `j` and differ there.
pub open spec fn part_at(p: Seq<Seq<char>>, q: Seq<Seq<char>>, j: int) -> bool {
    &&& 0 <= j < p.len()
    &&& j < q.len()
    &&& p.take(j) == q.take(j)
    &&& p[j] != q[j]
}

proof fn lemma_key_index_same_keys(ms: Seq<(YamlV, YamlV)>, u: Seq<(YamlV, YamlV)>, k: Seq<char>)
    requires
        u.len() == ms.len(),
        forall|l: int| 0 <= l < ms.len() ==> (#[trigger] u[l]).0 == ms[l].0,
    ensures
        key_index(u, k) == key_index(ms, k),
{
    lemma_key_index(ms, k);
    match key_index(ms, k) {
        Some(i) => {
            assert forall|l: int| 0 <= l < i implies (#[trigger] u[l]).0 != YamlV::Str(k) by {
                assert(ms[l].0 != YamlV::Str(k));
            }
            lemma_key_index_at(u, k, i);
        },
        None => {
            assert forall|l: int| 0 <= l < u.len() implies (#[trigger] u[l]).0 != YamlV::Str(k) by {
                assert(ms[l].0 != YamlV::Str(k));
            }
            lemma_key_index_none(u, k);
        },
    }
}

proof fn lemma_map_get_set_other(ms: Seq<(YamlV, YamlV)>, k: Seq<char>, v: YamlV, k2: Seq<char>)
    requires
        k2 != k,
    ensures
        map_get(map_set(ms, k, v), k2) == map_get(ms, k2),
{
    lemma_key_index(ms, k);
    lemma_key_index(ms, k2);
    match key_index(ms, k) {
        Some(i) => {
            let u = ms.update(i, (ms[i].0, v));
            lemma_key_index_same_keys(ms, u, k2);
            if let Some(j) = key_index(ms, k2) {
                assert(j != i);
            }
        },
        None => {
            lemma_map_get_push_other(ms, k, v, k2);
        },
    }
}

proof fn lemma_map_get_push_other(ms: Seq<(YamlV, YamlV)>, k: Seq<char>, v: YamlV, k2: Seq<char>)
    requires
        k2 != k,
    ensures
        map_get(ms.push((YamlV::Str(k), v)), k2) == map_get(ms, k2),
{
    let u = ms.push((YamlV::Str(k), v));
    assert(u.drop_last() =~= ms);
    lemma_key_index(ms, k2);
    if let Some(j) = key_index(ms, k2) {
        assert(u[j] == ms[j]);
    }
}

proof fn lemma_part_at_step(p: Seq<Seq<char>>, q: Seq<Seq<char>>, j: int)
    requires
        part_at(p, q, j),
        j > 0,
    ensures
        p[0] == q[0],
        part_at(p.skip(1), q.skip(1), j - 1),
{
    assert(p[0] == p.take(j)[0]);
    assert(q[0] == q.take(j)[0]);
    assert(p.skip(1).take(j - 1) =~= p.take(j).skip(1));
    assert(q.skip(1).take(j - 1) =~= q.take(j).skip(1));
}

/// Replacing the node at one path leaves what another path, parting from
/// it, leads to.
proof fn lemma_replace_elsewhere(root: YamlV, p: Seq<Seq<char>>, q: Seq<Seq<char>>, j: int, v: YamlV)
    requires
        part_at(p, q, j),
    ensures
        node_at(replace_at(root, p, v), q) == node_at(root, q),
    decreases j,
{
    if let YamlV::Mapping(ms) = root {
        lemma_key_index(ms, p[0]);
        if let Some(i) = key_index(ms, p[0]) {
            let u = ms.update(i, (ms[i].0, replace_at(ms[i].1, p.skip(1), v)));
            lemma_key_index_same_keys(ms, u, q[0]);
            if j == 0 {
                lemma_key_index(ms, q[0]);
                if let Some(l) = key_index(ms, q[0]) {
                    assert(l != i);
                }
            } else {
                lemma_part_at_step(p, q, j);
                lemma_replace_elsewhere(ms[i].1, p.skip(1), q.skip(1), j - 1, v);
            }
        }
    }
}

/// Making sure one path exists leaves what another path, parting from it,
/// leads to, where that path leads somewhere.
proof fn lemma_ensure_elsewhere(root: YamlV, p: Seq<Seq<char>>, q: Seq<Seq<char>>, j: int, d: YamlV)
    requires
        part_at(p, q, j),
        node_at(root, q) is Some,
    ensures
        node_at(ensure_path(root, p, d), q) == node_at(root, q),
    decreases j,
{
    let ms = root->Mapping_0;
    if p.len() == 1 {
        if map_get(ms, p[0]) is None {
            lemma_map_get_push_other(ms, p[0], d, q[0]);
        }
    } else {
        let child = match map_get(ms, p[0]) {
            Some(c) => c,
            None => YamlV::Mapping(Seq::empty()),
        };
        if j == 0 {
            lemma_map_get_set_other(ms, p[0], ensure_path(child, p.skip(1), d), q[0]);
        } else {
            lemma_part_at_step(p, q, j);
            lemma_map_get_set(ms, p[0], ensure_path(child, p.skip(1), d));
            lemma_ensure_elsewhere(child, p.skip(1), q.skip(1), j - 1, d);
        }
    }
}

// ---------------------------------------------------------------------------
// The wallpaper paths
// ---------------------------------------------------------------------------

proof fn lemma_split_word(cur: Seq<char>, a: Seq<char>, rest: Seq<char>, sep: char)
    requires
        forall|i: int| 0 <= i < a.len() ==> a[i] != sep,
    ensures
        split_from(cur, a + rest, sep) == split_from(cur + a, rest, sep),
    decreases a.len(),
{
    if a.len() == 0 {
        assert(a + rest =~= rest);
        assert(cur + a =~= cur);
    } else {
        assert((a + rest)[0] == a[0]);
        assert((a + rest).drop_first() =~= a.drop_first() + rest);
        lemma_split_word(cur.push(a[0]), a.drop_first(), rest, sep);
        assert(cur.push(a[0]) + a.drop_first() =~= cur + a);
    }
}

proof fn lemma_split_at_sep(cur: Seq<char>, rest: Seq<char>, sep: char)
    ensures
        split_from(cur, seq![sep] + rest, sep) == seq![cur] + split_from(Seq::empty(), rest, sep),
{
    assert((seq![sep] + rest)[0] == sep);
    assert((seq![sep] + rest).drop_first() =~= rest);
}

proof fn lemma_path_segments_append(x: Seq<Seq<char>>, y: Seq<Seq<char>>)
    ensures
        path_segments(x + y) == path_segments(x) + path_segments(y),
    decreases y.len(),
{
    if y.len() == 0 {
        assert(x + y =~= x);
        assert(path_segments(x) + path_segments(y) =~= path_segments(x));
    } else {
        assert((x + y).drop_last() =~= x + y.drop_last());
        assert((x + y).last() == y.last());
        lemma_path_segments_append(x, y.drop_last());
        let t = trim(y.last());
        if t.len() > 0 {
            assert((path_segments(x) + path_segments(y.drop_last())).push(t)
                =~= path_segments(x) + path_segments(y.drop_last()).push(t));
        }
    }
}

/// A word with no separator and no white space at its ends is one segment.
proof fn lemma_word_segment(w: Seq<char>)
    requires
        w.len() > 0,
        forall|i: int| 0 <= i < w.len() ==> w[i] != '.',
        !is_ws(w[0]),
        !is_ws(w.last()),
    ensures
        path_segments(split_on(w, '.')) == seq![w],
        trim(w) == w,
{
    lemma_split_word(Seq::empty(), w, Seq::empty(), '.');
    assert(w + Seq::<char>::empty() =~= w);
    assert(Seq::<char>::empty() + w =~= w);
    assert(split_from(w, Seq::empty(), '.') == seq![w]);
    assert(split_on(w, '.') == seq![w]);
    assert(trim_start(w) == w);
    assert(trim_end(w) == w);
    assert(seq![w].drop_last() =~= Seq::<Seq<char>>::empty());
    assert(path_segments(seq![w]) == path_segments(Seq::<Seq<char>>::empty()).push(w));
    assert(path_segments(Seq::<Seq<char>>::empty()).push(w) =~= seq![w]);
}

/// `a.b` splits into the segments `a`, `b`, and `a.` followed by more text
/// into `a` and the segments of that text.
proof fn lemma_dotted_segments(a: Seq<char>, rest: Seq<char>)
    requires
        a.len() > 0,
        forall|i: int| 0 <= i < a.len() ==> a[i] != '.',
        !is_ws(a[0]),
        !is_ws(a.last()),
    ensures
        path_segments(split_on(a + seq!['.'] + rest, '.'))
            == seq![a] + path_segments(split_on(rest, '.')),
{
    lemma_word_segment(a);
    assert(a + seq!['.'] + rest =~= a + (seq!['.'] + rest));
    lemma_split_word(Seq::empty(), a, seq!['.'] + rest, '.');
    assert(Seq::<char>::empty() + a =~= a);
    lemma_split_at_sep(a, rest, '.');
    lemma_path_segments_append(seq![a], split_on(rest, '.'));
    lemma_path_segments_append(Seq::empty(), seq![a]);
    assert(Seq::<Seq<char>>::empty() + seq![a] =~= seq![a]);
    assert(seq![a].drop_last() =~= Seq::<Seq<char>>::empty());
}

/// Assigning an asset to a monitor and reading the monitor's assignment
/// back gives that asset.
pub proof fn law_assigned_asset_reads_back(root: YamlV, monitor_key: Seq<char>, asset_id: Seq<char>)
    ensures
        assigned_asset(asset_assigned(root, monitor_key, asset_id), monitor_key) == Some(asset_id),
{
    reveal_strlit("wallpaper");
    reveal_strlit("assignments");
    reveal_strlit("wallpaper_id");
    reveal_strlit("monitor_index");
    reveal_strlit("wallpaper.assignments.");
    reveal_strlit("wallpaper.wallpaper_id");
    reveal_strlit("wallpaper.monitor_index");
    let wp = "wallpaper"@;
    let asg = "assignments"@;
    let wid = "wallpaper_id"@;
    let mi = "monitor_index"@;
    assert(forall|i: int| 0 <= i < wp.len() ==> wp[i] != '.');
    assert(forall|i: int| 0 <= i < asg.len() ==> asg[i] != '.');
    assert(forall|i: int| 0 <= i < wid.len() ==> wid[i] != '.');
    assert(forall|i: int| 0 <= i < mi.len() ==> mi[i] != '.');
    let s = "wallpaper.assignments."@ + monitor_key;
    assert(s =~= wp + seq!['.'] + (asg + seq!['.'] + monitor_key));
    lemma_dotted_segments(wp, asg + seq!['.'] + monitor_key);
    lemma_dotted_segments(asg, monitor_key);
    let e = path_segments(split_on(s, '.'));
    let tail = path_segments(split_on(monitor_key, '.'));
    assert(e == seq![wp] + (seq![asg] + tail));
    assert("wallpaper.wallpaper_id"@ =~= wp + seq!['.'] + wid);
    lemma_dotted_segments(wp, wid);
    lemma_word_segment(wid);
    let w = path_segments(split_on("wallpaper.wallpaper_id"@, '.'));
    assert(w == seq![wp] + seq![wid]);
    assert("wallpaper.monitor_index"@ =~= wp + seq!['.'] + mi);
    lemma_dotted_segments(wp, mi);
    lemma_word_segment(mi);
    let m = path_segments(split_on("wallpaper.monitor_index"@, '.'));
    assert(m == seq![wp] + seq![mi]);
    assert(e[0] == wp && e[1] == asg);
    assert(w.take(1) =~= e.take(1));
    assert(m.take(1) =~= e.take(1));
    assert(w[1] != e[1]);
    assert(m[1] != e[1]);
    assert(part_at(w, e, 1));
    assert(part_at(m, e, 1));

    let a = path_segments(split_on("wallpaper.assignments"@, '.'));
    let v = YamlV::Str(asset_id);
    let r1 = ensure_path(root, a, YamlV::Mapping(Seq::empty()));
    let r2 = ensure_path(r1, e, v);
    let r3 = replace_at(r2, e, v);
    let r4 = replace_at(r3, w, v);
    let r5 = ensure_path(r4, m, YamlV::Sequence(Seq::empty()));
    law_ensure_path_exists(r1, e, v);
    law_replace_reads_back(r2, e, v);
    lemma_replace_elsewhere(r3, w, e, 1, v);
    lemma_ensure_elsewhere(r4, m, e, 1, YamlV::Sequence(Seq::empty()));
    assert(node_at(r5, e) == Some(v));
    match node_at(r5, m) {
        Some(YamlV::Sequence(items)) => {
            if !has_text(items, monitor_key) {
                lemma_replace_elsewhere(r5, m, e, 1, YamlV::Sequence(items.push(YamlV::Str(monitor_key))));
            }
        },
        _ => {},
    }
}


/// Setting a value along a path keeps every other top-level key of a
/// mapping as it was.
pub proof fn law_set_path_keeps_other_keys(root: YamlV, parts: Seq<Seq<char>>, v: YamlV, k: Seq<char>)
    requires
        parts.len() > 0,
        root is Mapping,
        k != parts[0],
    ensures
        map_get(entries_or_empty(set_path(root, parts, v)), k) == map_get(entries_or_empty(root), k),
{
    let ms = root->Mapping_0;
    if parts.len() == 1 {
        lemma_map_get_set_other(ms, parts[0], v, k);
    } else {
        let child = match map_get(ms, parts[0]) {
            Some(c) => c,
            None => YamlV::Mapping(Seq::empty()),
        };
        lemma_map_get_set_other(ms, parts[0], set_path(child, parts.skip(1), v), k);
    }
}

} // verus!
