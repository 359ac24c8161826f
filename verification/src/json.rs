//! JSON values as the library holds them, and the reads and writes the
//! registry logic makes on them.
use vstd::prelude::*;
use crate::text::{clone_string, str_eq, string_from_str, text_views};

verus! {

#[derive(Debug, PartialEq)]
pub enum JsonNumber {
    Unsigned(u64),
    Signed(i64),
    Decimal(String),
}

#[derive(Debug, PartialEq)]
pub enum Json {
    Null,
    Bool(bool),
    Number(JsonNumber),
    Str(String),
    Array(Vec<Json>),
    Object(Vec<(String, Json)>),
}

pub enum NumberV {
    Unsigned(u64),
    Signed(i64),
    Decimal(Seq<char>),
}

pub enum JsonV {
    Null,
    Bool(bool),
    Number(NumberV),
    Str(Seq<char>),
    Array(Seq<JsonV>),
    Object(Seq<(Seq<char>, JsonV)>),
}

impl JsonNumber {
    pub open spec fn view(&self) -> NumberV {
        match self {
            JsonNumber::Unsigned(u) => NumberV::Unsigned(*u),
            JsonNumber::Signed(i) => NumberV::Signed(*i),
            JsonNumber::Decimal(s) => NumberV::Decimal(s@),
        }
    }
}

pub open spec fn view_items(s: Seq<Json>) -> Seq<JsonV>
    decreases s,
{
    if s.len() == 0 {
        Seq::empty()
    } else {
        view_items(s.drop_last()).push(json_view(s.last()))
    }
}

pub open spec fn view_members(s: Seq<(String, Json)>) -> Seq<(Seq<char>, JsonV)>
    decreases s,
{
    if s.len() == 0 {
        Seq::empty()
    } else {
        view_members(s.drop_last()).push((s.last().0@, json_view(s.last().1)))
    }
}

pub open spec fn json_view(j: Json) -> JsonV
    decreases j,
{
    match j {
        Json::Null => JsonV::Null,
        Json::Bool(b) => JsonV::Bool(b),
        Json::Number(n) => JsonV::Number(n.view()),
        Json::Str(s) => JsonV::Str(s@),
        Json::Array(v) => JsonV::Array(view_items(v@)),
        Json::Object(m) => JsonV::Object(view_members(m@)),
    }
}


impl JsonNumber {
    pub fn duplicate(&self) -> (r: JsonNumber)
        ensures
            r.view() == self.view(),
    {
        match self {
            JsonNumber::Unsigned(u) => JsonNumber::Unsigned(*u),
            JsonNumber::Signed(i) => JsonNumber::Signed(*i),
            JsonNumber::Decimal(t) => JsonNumber::Decimal(clone_string(t)),
        }
    }
}

impl Json {
    pub open spec fn view(&self) -> JsonV {
        json_view(*self)
    }

    /// A deep copy.
    pub fn duplicate(&self) -> (r: Json)
        ensures
            r.view() == self.view(),
        decreases self, 0nat,
    {
        match self {
            Json::Null => Json::Null,
            Json::Bool(b) => Json::Bool(*b),
            Json::Number(n) => Json::Number(n.duplicate()),
            Json::Str(t) => Json::Str(clone_string(t)),
            Json::Array(items) => Json::Array(duplicate_items(items)),
            Json::Object(members) => Json::Object(duplicate_members(members)),
        }
    }
}

pub fn duplicate_items(items: &Vec<Json>) -> (r: Vec<Json>)
    ensures
        view_items(r@) == view_items(items@),
    decreases items, 1nat,
{
    let mut out: Vec<Json> = Vec::new();
    for i in 0..items.len()
        invariant
            view_items(out@) == view_items(items@.take(i as int)),
    {
        assert(items@.take(i + 1).drop_last() =~= items@.take(i as int));
        assert(decreases_to!(items@ => items@[i as int]));
        let c = items[i].duplicate();
        let ghost before = out@;
        out.push(c);
        assert(out@.drop_last() =~= before);
    }
    assert(items@.take(items.len() as int) =~= items@);
    out
}

/// Deep copies of an object's members.
pub fn duplicate_members(members: &Vec<(String, Json)>) -> (r: Vec<(String, Json)>)
    ensures
        view_members(r@) == view_members(members@),
    decreases members, 1nat,
{
    let mut out: Vec<(String, Json)> = Vec::new();
    for i in 0..members.len()
        invariant
            view_members(out@) == view_members(members@.take(i as int)),
    {
        assert(members@.take(i + 1).drop_last() =~= members@.take(i as int));
        let c = members[i].1.duplicate();
        let ghost before = out@;
        out.push((clone_string(&members[i].0), c));
        assert(out@.drop_last() =~= before);
    }
    assert(members@.take(members.len() as int) =~= members@);
    out
}


// ---------------------------------------------------------------------------
// Reads
// ---------------------------------------------------------------------------

/// The value of the first member named `key`.
pub open spec fn member_get(ms: Seq<(Seq<char>, JsonV)>, key: Seq<char>) -> Option<JsonV>
    decreases ms.len(),
{
    if ms.len() == 0 {
        None
    } else {
        match member_get(ms.drop_last(), key) {
            Some(v) => Some(v),
            None => if ms.last().0 == key { Some(ms.last().1) } else { None },
        }
    }
}

/// `Value::get` with a string key: a member of an object, nothing otherwise.
pub open spec fn json_get(j: JsonV, key: Seq<char>) -> Option<JsonV> {
    match j {
        JsonV::Object(ms) => member_get(ms, key),
        _ => None,
    }
}

/// `get(key)` on an optional value.
pub open spec fn opt_get(o: Option<JsonV>, key: Seq<char>) -> Option<JsonV> {
    match o {
        Some(j) => json_get(j, key),
        None => None,
    }
}

/// `as_str` on an optional value.
pub open spec fn as_str_spec(o: Option<JsonV>) -> Option<Seq<char>> {
    match o {
        Some(JsonV::Str(t)) => Some(t),
        _ => None,
    }
}

/// `as_bool` on an optional value.
pub open spec fn as_bool_spec(o: Option<JsonV>) -> Option<bool> {
    match o {
        Some(JsonV::Bool(b)) => Some(b),
        _ => None,
    }
}

/// `as_u64` on an optional value: a number that is a non-negative integer.
pub open spec fn as_u64_spec(o: Option<JsonV>) -> Option<u64> {
    match o {
        Some(JsonV::Number(NumberV::Unsigned(u))) => Some(u),
        Some(JsonV::Number(NumberV::Signed(i))) => if i >= 0 { Some(i as u64) } else { None },
        _ => None,
    }
}

/// `as_array` on an optional value.
pub open spec fn as_array_spec(o: Option<JsonV>) -> Option<Seq<JsonV>> {
    match o {
        Some(JsonV::Array(items)) => Some(items),
        _ => None,
    }
}

pub open spec fn opt_json_view(o: Option<&Json>) -> Option<JsonV> {
    match o {
        Some(j) => Some(j.view()),
        None => None,
    }
}

pub open spec fn opt_text_view(o: Option<String>) -> Option<Seq<char>> {
    match o {
        Some(t) => Some(t@),
        None => None,
    }
}

fn members_get<'a>(ms: &'a Vec<(String, Json)>, key: &str) -> (r: Option<&'a Json>)
    ensures
        opt_json_view(r) == member_get(view_members(ms@), key@),
{
    let ghost vm = view_members(ms@);
    let mut i: usize = 0;
    while i < ms.len()
        invariant
            i <= ms.len(),
            vm == view_members(ms@),
            member_get(view_members(ms@.take(i as int)), key@) is None,
        decreases ms.len() - i,
    {
        assert(ms@.take(i + 1).drop_last() =~= ms@.take(i as int));
        assert(ms@.take(i + 1).last() == ms@[i as int]);
        assert(view_members(ms@.take(i + 1)).drop_last() =~= view_members(ms@.take(i as int)));
        if str_eq(ms[i].0.as_str(), key) {
            assert(member_get(view_members(ms@.take(i + 1)), key@) == Some(ms@[i as int].1.view()));
            proof { lemma_member_get_prefix(ms@, key@, i as int + 1); }
            return Some(&ms[i].1);
        }
        i += 1;
    }
    assert(ms@.take(ms.len() as int) =~= ms@);
    None
}

proof fn lemma_view_members_take(ms: Seq<(String, Json)>, k: int)
    requires
        0 <= k <= ms.len(),
    ensures
        view_members(ms.take(k)) == view_members(ms).take(k),
        view_members(ms).len() == ms.len(),
    decreases ms.len(),
{
    if ms.len() > 0 {
        if k < ms.len() {
            assert(ms.drop_last().take(k) =~= ms.take(k));
            lemma_view_members_take(ms.drop_last(), k);
            assert(view_members(ms).take(k) =~= view_members(ms.drop_last()).take(k));
        } else {
            lemma_view_members_take(ms.drop_last(), k - 1);
            assert(ms.take(k) =~= ms);
            assert(view_members(ms).take(k) =~= view_members(ms));
        }
    } else {
        assert(ms.take(k) =~= ms);
    }
}

proof fn lemma_member_get_prefix(ms: Seq<(String, Json)>, key: Seq<char>, k: int)
    requires
        0 <= k <= ms.len(),
        member_get(view_members(ms.take(k)), key) is Some,
    ensures
        member_get(view_members(ms), key) == member_get(view_members(ms.take(k)), key),
    decreases ms.len() - k,
{
    if k < ms.len() {
        assert(ms.drop_last().take(k) =~= ms.take(k));
        assert(view_members(ms).drop_last() =~= view_members(ms.drop_last()));
        lemma_member_get_prefix(ms.drop_last(), key, k);
    } else {
        assert(ms.take(k) =~= ms);
    }
}

/// `Value::get(key)`.
pub fn get_member<'a>(j: &'a Json, key: &str) -> (r: Option<&'a Json>)
    ensures
        opt_json_view(r) == json_get(j.view(), key@),
{
    match j {
        Json::Object(ms) => members_get(ms, key),
        _ => None,
    }
}

/// `get(key)` on an optional value.
pub fn get_opt<'a>(o: Option<&'a Json>, key: &str) -> (r: Option<&'a Json>)
    ensures
        opt_json_view(r) == opt_get(opt_json_view(o), key@),
{
    match o {
        Some(j) => get_member(j, key),
        None => None,
    }
}

/// `as_str`, copied out.
pub fn text_of(o: Option<&Json>) -> (r: Option<String>)
    ensures
        opt_text_view(r) == as_str_spec(opt_json_view(o)),
{
    match o {
        Some(Json::Str(t)) => Some(clone_string(t)),
        _ => None,
    }
}

/// `as_bool`.
pub fn bool_of(o: Option<&Json>) -> (r: Option<bool>)
    ensures
        r == as_bool_spec(opt_json_view(o)),
{
    match o {
        Some(Json::Bool(b)) => Some(*b),
        _ => None,
    }
}

/// `as_u64`.
pub fn u64_of(o: Option<&Json>) -> (r: Option<u64>)
    ensures
        r == as_u64_spec(opt_json_view(o)),
{
    match o {
        Some(Json::Number(JsonNumber::Unsigned(u))) => Some(*u),
        Some(Json::Number(JsonNumber::Signed(i))) => if *i >= 0 { Some(*i as u64) } else { None },
        _ => None,
    }
}

/// `as_array`.
pub fn items_of<'a>(o: Option<&'a Json>) -> (r: Option<&'a Vec<Json>>)
    ensures
        match r {
            Some(v) => as_array_spec(opt_json_view(o)) == Some(view_items(v@)),
            None => as_array_spec(opt_json_view(o)) is None,
        },
{
    match o {
        Some(Json::Array(v)) => Some(v),
        _ => None,
    }
}

/// The text items of an array, in order (other items are skipped).
pub open spec fn text_items(items: Seq<JsonV>) -> Seq<Seq<char>>
    decreases items.len(),
{
    if items.len() == 0 {
        Seq::empty()
    } else {
        let rest = text_items(items.drop_last());
        match items.last() {
            JsonV::Str(t) => rest.push(t),
            _ => rest,
        }
    }
}

/// The strings among an array's items.
pub fn strings_in(items: &Vec<Json>) -> (r: Vec<String>)
    ensures
        text_views(r@) == text_items(view_items(items@)),
{
    let mut out: Vec<String> = Vec::new();
    for i in 0..items.len()
        invariant
            text_views(out@) == text_items(view_items(items@.take(i as int))),
    {
        assert(items@.take(i + 1).drop_last() =~= items@.take(i as int));
        assert(items@.take(i + 1).last() == items@[i as int]);
        assert(view_items(items@.take(i + 1)).drop_last() =~= view_items(items@.take(i as int)));
        assert(view_items(items@.take(i + 1)).last() == json_view(items@[i as int]));
        let ghost before = text_views(out@);
        match &items[i] {
            Json::Str(t) => {
                out.push(clone_string(t));
                assert(text_views(out@) =~= before.push(t@));
            },
            _ => {},
        }
    }
    assert(items@.take(items.len() as int) =~= items@);
    out
}

// ---------------------------------------------------------------------------
// Writes
// ---------------------------------------------------------------------------

/// Appends a member.
pub fn push_member(out: &mut Vec<(String, Json)>, key: &str, v: Json)
    ensures
        view_members(final(out)@) == view_members(old(out)@).push((key@, v.view())),
{
    let ghost before = out@;
    out.push((string_from_str(key), v));
    assert(out@.drop_last() =~= before);
}

/// Appends an item.
pub fn push_item(out: &mut Vec<Json>, v: Json)
    ensures
        view_items(final(out)@) == view_items(old(out)@).push(v.view()),
{
    let ghost before = out@;
    out.push(v);
    assert(out@.drop_last() =~= before);
}

/// The members other than those named `key`.
pub open spec fn members_without(ms: Seq<(Seq<char>, JsonV)>, key: Seq<char>) -> Seq<(Seq<char>, JsonV)>
    decreases ms.len(),
{
    if ms.len() == 0 {
        Seq::empty()
    } else {
        let rest = members_without(ms.drop_last(), key);
        if ms.last().0 == key { rest } else { rest.push(ms.last()) }
    }
}

/// A copy of `j` without its member `key` when it is an object (`Map::remove`).
pub open spec fn without_key(j: JsonV, key: Seq<char>) -> JsonV {
    match j {
        JsonV::Object(ms) => JsonV::Object(members_without(ms, key)),
        _ => j,
    }
}

/// A copy of `j` without its member `key`.
pub fn copy_without(j: &Json, key: &str) -> (r: Json)
    ensures
        r.view() == without_key(j.view(), key@),
{
    match j {
        Json::Object(ms) => {
            let mut out: Vec<(String, Json)> = Vec::new();
            for i in 0..ms.len()
                invariant
                    view_members(out@) == members_without(view_members(ms@.take(i as int)), key@),
            {
                assert(ms@.take(i + 1).drop_last() =~= ms@.take(i as int));
                assert(ms@.take(i + 1).last() == ms@[i as int]);
                assert(view_members(ms@.take(i + 1)).drop_last() =~= view_members(ms@.take(i as int)));
                if !str_eq(ms[i].0.as_str(), key) {
                    let v = ms[i].1.duplicate();
                    let ghost before = out@;
                    out.push((clone_string(&ms[i].0), v));
                    assert(out@.drop_last() =~= before);
                }
            }
            assert(ms@.take(ms.len() as int) =~= ms@);
            Json::Object(out)
        },
        _ => j.duplicate(),
    }
}

/// The JSON text value of `t`.
pub fn text(t: &str) -> (r: Json)
    ensures
        r.view() == JsonV::Str(t@),
{
    Json::Str(string_from_str(t))
}

/// A copy of an optional value, `null` when absent (`cloned().unwrap_or(Value::Null)`).
pub fn copy_or_null(o: Option<&Json>) -> (r: Json)
    ensures
        r.view() == (match opt_json_view(o) {
            Some(v) => v,
            None => JsonV::Null,
        }),
{
    match o {
        Some(j) => j.duplicate(),
        None => Json::Null,
    }
}

/// The view of an array's items has one entry per item.
pub proof fn lemma_view_items_index(s: Seq<Json>, i: int)
    requires
        0 <= i < s.len(),
    ensures
        view_items(s).len() == s.len(),
        view_items(s)[i] == s[i].view(),
    decreases s.len(),
{
    lemma_view_items_len(s);
    if i < s.len() - 1 {
        lemma_view_items_index(s.drop_last(), i);
    }
}

/// The view of an object's members has one entry per member.
pub proof fn lemma_view_members_index(s: Seq<(String, Json)>, i: int)
    requires
        0 <= i < s.len(),
    ensures
        view_members(s).len() == s.len(),
        view_members(s)[i] == (s[i].0@, s[i].1.view()),
    decreases s.len(),
{
    lemma_view_members_len(s);
    if i < s.len() - 1 {
        lemma_view_members_index(s.drop_last(), i);
    }
}

pub proof fn lemma_view_members_len(s: Seq<(String, Json)>)
    ensures
        view_members(s).len() == s.len(),
    decreases s.len(),
{
    if s.len() > 0 {
        lemma_view_members_len(s.drop_last());
    }
}

pub proof fn lemma_view_items_len(s: Seq<Json>)
    ensures
        view_items(s).len() == s.len(),
    decreases s.len(),
{
    if s.len() > 0 {
        lemma_view_items_len(s.drop_last());
    }
}


proof fn lemma_members_without(ms: Seq<(Seq<char>, JsonV)>, key: Seq<char>, other: Seq<char>)
    ensures
        member_get(members_without(ms, key), key) is None,
        other != key ==> member_get(members_without(ms, key), other) == member_get(ms, other),
    decreases ms.len(),
{
    if ms.len() > 0 {
        lemma_members_without(ms.drop_last(), key, other);
        let rest = members_without(ms.drop_last(), key);
        if ms.last().0 != key {
            assert(rest.push(ms.last()).drop_last() =~= rest);
        }
    }
}

/// Taking a member out of an object: afterwards nothing is read under that
/// key, and every other key reads what it read before.
pub proof fn law_without_key_removes(j: JsonV, key: Seq<char>, other: Seq<char>)
    ensures
        json_get(without_key(j, key), key) is None,
        other != key ==> json_get(without_key(j, key), other) == json_get(j, other),
{
    if let JsonV::Object(ms) = j {
        lemma_members_without(ms, key, other);
    }
}


/// The member found under `key` is the first one with that key.
pub proof fn lemma_member_get_at(ms: Seq<(Seq<char>, JsonV)>, key: Seq<char>, i: int)
    requires
        0 <= i < ms.len(),
        ms[i].0 == key,
        forall|j: int| 0 <= j < i ==> (#[trigger] ms[j]).0 != key,
    ensures
        member_get(ms, key) == Some(ms[i].1),
    decreases ms.len(),
{
    if i < ms.len() - 1 {
        let d = ms.drop_last();
        assert forall|j: int| 0 <= j < i implies (#[trigger] d[j]).0 != key by {
            assert(d[j] == ms[j]);
        }
        lemma_member_get_at(d, key, i);
    } else {
        lemma_member_get_none(ms.drop_last(), key);
    }
}

/// No member has `key`: nothing is found.
pub proof fn lemma_member_get_none(ms: Seq<(Seq<char>, JsonV)>, key: Seq<char>)
    requires
        forall|j: int| 0 <= j < ms.len() ==> (#[trigger] ms[j]).0 != key,
    ensures
        member_get(ms, key) is None,
    decreases ms.len(),
{
    if ms.len() > 0 {
        let d = ms.drop_last();
        assert forall|j: int| 0 <= j < d.len() implies (#[trigger] d[j]).0 != key by {
            assert(d[j] == ms[j]);
        }
        lemma_member_get_none(d, key);
        assert(ms.last() == ms[ms.len() - 1]);
    }
}

}
