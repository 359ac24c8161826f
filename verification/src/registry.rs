//! The registry: addons, assets, system data and window data, and the JSON
//! document the IPC server and the registry file serve from it.
use vstd::prelude::*;
use crate::json::{
    Json, JsonV, NumberV, view_items, view_members, json_get, opt_get, as_str_spec, as_bool_spec,
    as_u64_spec, as_array_spec, opt_json_view, opt_text_view, get_member, get_opt, text_of, bool_of,
    u64_of, items_of, push_member, push_item, without_key, copy_without, text, copy_or_null,
    lemma_view_items_len, lemma_view_items_index,
};
use crate::text::{clone_string, str_eq, str_eq_ignore_case, eq_ignore_case, string_from_str, text_views};
use crate::tracking::{
    Section, TrackingState, section_at, section_name, is_collected, trackable_sections, section_name_string,
    section_enabled, demand_tracking_active,
};

verus! {

/// One registry entry: an addon, an asset or a piece of system or window data.
#[derive(Debug)]
pub struct RegistryEntry {
    pub id: String,
    pub category: String,
    pub subtype: String,
    pub metadata: Json,
    pub path: String,
    pub exe_path: String,
}

pub struct EntryV {
    pub id: Seq<char>,
    pub category: Seq<char>,
    pub subtype: Seq<char>,
    pub metadata: JsonV,
    pub path: Seq<char>,
    pub exe_path: Seq<char>,
}

impl RegistryEntry {
    pub open spec fn view(&self) -> EntryV {
        EntryV {
            id: self.id@,
            category: self.category@,
            subtype: self.subtype@,
            metadata: self.metadata.view(),
            path: self.path@,
            exe_path: self.exe_path@,
        }
    }

    /// A deep copy.
    pub fn duplicate(&self) -> (r: RegistryEntry)
        ensures
            r.view() == self.view(),
    {
        RegistryEntry {
            id: clone_string(&self.id),
            category: clone_string(&self.category),
            subtype: clone_string(&self.subtype),
            metadata: self.metadata.duplicate(),
            path: clone_string(&self.path),
            exe_path: clone_string(&self.exe_path),
        }
    }
}

pub open spec fn entry_views(s: Seq<RegistryEntry>) -> Seq<EntryV> {
    s.map_values(|e: RegistryEntry| e.view())
}

/// The whole registry.
#[derive(Debug)]
pub struct Registry {
    pub addons: Vec<RegistryEntry>,
    pub assets: Vec<RegistryEntry>,
    pub sysdata: Vec<RegistryEntry>,
    pub appdata: Vec<RegistryEntry>,
}

impl Registry {
    /// An empty registry.
    pub fn new() -> (r: Registry)
        ensures
            r.addons@.len() == 0,
            r.assets@.len() == 0,
            r.sysdata@.len() == 0,
            r.appdata@.len() == 0,
    {
        Registry { addons: Vec::new(), assets: Vec::new(), sysdata: Vec::new(), appdata: Vec::new() }
    }
}

// ---------------------------------------------------------------------------
// Tier merges
// ---------------------------------------------------------------------------

/// The category is one of `cats`, ignoring ASCII case.
pub open spec fn in_categories(cat: Seq<char>, cats: Seq<Seq<char>>) -> bool {
    exists|i: int| 0 <= i < cats.len() && eq_ignore_case(cat, #[trigger] cats[i])
}

/// The entries whose category is none of `cats`, in order.
pub open spec fn entries_outside(es: Seq<EntryV>, cats: Seq<Seq<char>>) -> Seq<EntryV>
    decreases es.len(),
{
    if es.len() == 0 {
        Seq::empty()
    } else {
        let rest = entries_outside(es.drop_last(), cats);
        if in_categories(es.last().category, cats) { rest } else { rest.push(es.last()) }
    }
}

fn in_category_list(cat: &str, cats: &Vec<String>) -> (r: bool)
    ensures
        r == in_categories(cat@, text_views(cats@)),
{
    for i in 0..cats.len()
        invariant
            forall|k: int| 0 <= k < i ==> !eq_ignore_case(cat@, #[trigger] text_views(cats@)[k]),
    {
        if str_eq_ignore_case(cat, cats[i].as_str()) {
            assert(eq_ignore_case(cat@, text_views(cats@)[i as int]));
            return true;
        }
    }
    false
}

/// Replaces one tier's sysdata: the existing entries of the other
/// categories, in order, then the fresh entries.
pub fn merge_sysdata_tier(
    existing: &Vec<RegistryEntry>,
    fresh: Vec<RegistryEntry>,
    tier_categories: &Vec<String>,
) -> (r: Vec<RegistryEntry>)
    ensures
        entry_views(r@) == entries_outside(entry_views(existing@), text_views(tier_categories@)) + entry_views(
            fresh@,
        ),
{
    let ghost cats = text_views(tier_categories@);
    let ghost ev = entry_views(existing@);
    let mut merged: Vec<RegistryEntry> = Vec::new();
    for i in 0..existing.len()
        invariant
            cats == text_views(tier_categories@),
            ev == entry_views(existing@),
            entry_views(merged@) == entries_outside(ev.take(i as int), cats),
    {
        assert(ev.take(i + 1).drop_last() =~= ev.take(i as int));
        assert(ev.take(i + 1).last() == existing@[i as int].view());
        if !in_category_list(existing[i].category.as_str(), tier_categories) {
            let ghost before = entry_views(merged@);
            merged.push(existing[i].duplicate());
            assert(entry_views(merged@) =~= before.push(existing@[i as int].view()));
        }
    }
    assert(ev.take(existing.len() as int) =~= ev);
    let ghost kept = entry_views(merged@);
    let mut rest = fresh;
    let n = rest.len();
    let ghost fv = entry_views(rest@);
    let mut k: usize = 0;
    while k < n
        invariant
            k <= n,
            rest.len() == n - k,
            entry_views(rest@) == fv.skip(k as int),
            fv.len() == n,
            entry_views(merged@) == kept + fv.take(k as int),
        decreases n - k,
    {
        let ghost rest_before = entry_views(rest@);
        assert(rest_before[0] == fv[k as int]);
        let e = rest.remove(0);
        assert(entry_views(rest@) =~= fv.skip(k + 1)) by {
            assert forall|j: int| 0 <= j < rest.len() implies #[trigger] entry_views(rest@)[j] == fv.skip(k + 1)[j] by {
                assert(rest_before[j + 1] == fv.skip(k as int)[j + 1]);
            }
        }
        assert(e.view() == fv[k as int]);
        let ghost before = entry_views(merged@);
        merged.push(e);
        assert(entry_views(merged@) =~= before.push(e.view()));
        assert(fv.take(k + 1) =~= fv.take(k as int).push(fv[k as int]));
        assert(entry_views(merged@) =~= kept + fv.take(k + 1));
        k += 1;
    }
    assert(fv.take(n as int) =~= fv);
    merged
}

// ---------------------------------------------------------------------------
// Discovered entries
// ---------------------------------------------------------------------------

/// A manifest with its `exe_path` member set to the resolved executable,
/// when there is one and the manifest is an object.
pub open spec fn with_exe_path(meta: JsonV, exe_abs: Option<Seq<char>>) -> JsonV {
    match (meta, exe_abs) {
        (JsonV::Object(ms), Some(a)) => JsonV::Object(crate::dispatch::member_insert(ms, "exe_path"@, JsonV::Str(a))),
        _ => meta,
    }
}

/// The entry of an addon found in folder `folder` (at `dir`): its id from
/// the manifest (empty without one), its folder name as subtype, and its
/// executable resolved (else the manifest's text `exe_path`, else empty).
pub open spec fn addon_entry_spec(meta: JsonV, folder: Seq<char>, dir: Seq<char>, exe_abs: Option<Seq<char>>) -> EntryV {
    EntryV {
        id: text_or(as_str_spec(json_get(meta, "id"@)), Seq::empty()),
        category: "addon"@,
        subtype: folder,
        metadata: with_exe_path(meta, exe_abs),
        path: dir,
        exe_path: match exe_abs {
            Some(a) => a,
            None => text_or(as_str_spec(json_get(meta, "exe_path"@)), Seq::empty()),
        },
    }
}

/// The entry of an asset of `category` found in folder `subtype` (at
/// `dir`): its executable resolved when its manifest names one, else `NULL`.
pub open spec fn asset_entry_spec(
    meta: JsonV,
    category: Seq<char>,
    subtype: Seq<char>,
    dir: Seq<char>,
    exe_abs: Option<Seq<char>>,
) -> EntryV {
    EntryV {
        id: text_or(as_str_spec(json_get(meta, "id"@)), Seq::empty()),
        category,
        subtype,
        metadata: with_exe_path(meta, exe_abs),
        path: dir,
        exe_path: match exe_abs {
            Some(a) => a,
            None => "NULL"@,
        },
    }
}

fn set_exe_path(meta: Json, exe_abs: &Option<String>) -> (r: Json)
    ensures
        r.view() == with_exe_path(meta.view(), opt_text_view(*exe_abs)),
{
    match (meta, exe_abs) {
        (Json::Object(ms), Some(a)) => {
            let mut ms = ms;
            crate::dispatch::insert_member(&mut ms, string_from_str("exe_path"), Json::Str(clone_string(a)));
            Json::Object(ms)
        },
        (m, _) => m,
    }
}

/// The registry entry of a discovered addon.
pub fn addon_entry_from_manifest(meta: Json, folder: &str, dir: &str, exe_abs: Option<String>) -> (r: RegistryEntry)
    ensures
        r.view() == addon_entry_spec(meta.view(), folder@, dir@, opt_text_view(exe_abs)),
{
    let id = text_or_default(text_of(get_member(&meta, "id")), "");
    let exe_path = match &exe_abs {
        Some(a) => clone_string(a),
        None => text_or_default(text_of(get_member(&meta, "exe_path")), ""),
    };
    let metadata = set_exe_path(meta, &exe_abs);
    proof {
        reveal_strlit("");
        assert(""@ =~= Seq::<char>::empty());
    }
    RegistryEntry {
        id,
        category: string_from_str("addon"),
        subtype: string_from_str(folder),
        metadata,
        path: string_from_str(dir),
        exe_path,
    }
}

/// The registry entry of a discovered asset.
pub fn asset_entry_from_manifest(
    meta: Json,
    category: &str,
    subtype: &str,
    dir: &str,
    exe_abs: Option<String>,
) -> (r: RegistryEntry)
    ensures
        r.view() == asset_entry_spec(meta.view(), category@, subtype@, dir@, opt_text_view(exe_abs)),
{
    let id = text_or_default(text_of(get_member(&meta, "id")), "");
    let exe_path = match &exe_abs {
        Some(a) => clone_string(a),
        None => string_from_str("NULL"),
    };
    let metadata = set_exe_path(meta, &exe_abs);
    proof {
        reveal_strlit("");
        assert(""@ =~= Seq::<char>::empty());
    }
    RegistryEntry {
        id,
        category: string_from_str(category),
        subtype: string_from_str(subtype),
        metadata,
        path: string_from_str(dir),
        exe_path,
    }
}

// ---------------------------------------------------------------------------
// Category lookups
// ---------------------------------------------------------------------------

/// The position of the first entry of a category.
pub open spec fn first_of_category(es: Seq<EntryV>, name: Seq<char>) -> Option<int>
    decreases es.len(),
{
    if es.len() == 0 {
        None
    } else {
        match first_of_category(es.drop_last(), name) {
            Some(i) => Some(i),
            None => if eq_ignore_case(es.last().category, name) { Some(es.len() - 1) } else { None },
        }
    }
}

/// The metadata of the first entry of a category, or `null`.
pub open spec fn metadata_of(es: Seq<EntryV>, name: Seq<char>) -> JsonV {
    match first_of_category(es, name) {
        Some(i) => es[i].metadata,
        None => JsonV::Null,
    }
}

proof fn lemma_first_of_category_prefix(es: Seq<EntryV>, name: Seq<char>, k: int)
    requires
        0 <= k <= es.len(),
        first_of_category(es.take(k), name) is Some,
    ensures
        first_of_category(es, name) == first_of_category(es.take(k), name),
    decreases es.len() - k,
{
    if k < es.len() {
        assert(es.drop_last().take(k) =~= es.take(k));
        lemma_first_of_category_prefix(es.drop_last(), name, k);
    } else {
        assert(es.take(k) =~= es);
    }
}

proof fn lemma_first_of_category_range(es: Seq<EntryV>, name: Seq<char>)
    ensures
        first_of_category(es, name) matches Some(i) ==> 0 <= i < es.len(),
    decreases es.len(),
{
    if es.len() > 0 {
        lemma_first_of_category_range(es.drop_last(), name);
    }
}

/// The metadata of the first sysdata entry of a category, or `null`.
pub fn metadata_for_category(entries: &Vec<RegistryEntry>, category: &str) -> (r: Json)
    ensures
        r.view() == metadata_of(entry_views(entries@), category@),
{
    let ghost es = entry_views(entries@);
    let n = entries.len();
    let mut i: usize = 0;
    while i < n
        invariant
            n == entries.len(),
            es == entry_views(entries@),
            i <= n,
            first_of_category(es.take(i as int), category@) is None,
        decreases n - i,
    {
        assert(es.take(i + 1).drop_last() =~= es.take(i as int));
        assert(es.take(i + 1).last() == entries@[i as int].view());
        if str_eq_ignore_case(entries[i].category.as_str(), category) {
            assert(first_of_category(es.take(i + 1), category@) == Some(i as int));
            proof { lemma_first_of_category_prefix(es, category@, i as int + 1); }
            return entries[i].metadata.duplicate();
        }
        i += 1;
    }
    assert(es.take(n as int) =~= es);
    Json::Null
}

// ---------------------------------------------------------------------------
// Addons and assets
// ---------------------------------------------------------------------------

/// How an addon is listed: its id, its manifest without `exe_path`, its
/// directory and its executable.
pub open spec fn addon_out(e: EntryV) -> JsonV {
    JsonV::Object(
        seq![
            ("id"@, JsonV::Str(e.id)),
            ("metadata"@, without_key(e.metadata, "exe_path"@)),
            ("path"@, JsonV::Str(e.path)),
            ("entry_path"@, JsonV::Str(e.exe_path)),
        ],
    )
}

fn addon_json(e: &RegistryEntry) -> (r: Json)
    ensures
        r.view() == addon_out(e.view()),
{
    let mut ms: Vec<(String, Json)> = Vec::new();
    push_member(&mut ms, "id", Json::Str(clone_string(&e.id)));
    push_member(&mut ms, "metadata", copy_without(&e.metadata, "exe_path"));
    push_member(&mut ms, "path", Json::Str(clone_string(&e.path)));
    push_member(&mut ms, "entry_path", Json::Str(clone_string(&e.exe_path)));
    let r = Json::Object(ms);
    assert(view_members(ms@) =~= seq![
        ("id"@, JsonV::Str(e.id@)),
        ("metadata"@, without_key(e.metadata.view(), "exe_path"@)),
        ("path"@, JsonV::Str(e.path@)),
        ("entry_path"@, JsonV::Str(e.exe_path@)),
    ]);
    r
}

/// The addons as listed.
pub fn output_addons(addons: &Vec<RegistryEntry>) -> (r: Vec<Json>)
    ensures
        view_items(r@) == entry_views(addons@).map_values(|e: EntryV| addon_out(e)),
{
    let ghost es = entry_views(addons@);
    let mut out: Vec<Json> = Vec::new();
    for i in 0..addons.len()
        invariant
            es == entry_views(addons@),
            view_items(out@) == es.take(i as int).map_values(|e: EntryV| addon_out(e)),
    {
        push_item(&mut out, addon_json(&addons[i]));
        assert(view_items(out@) =~= es.take(i + 1).map_values(|e: EntryV| addon_out(e)));
    }
    assert(es.take(addons.len() as int) =~= es);
    out
}

/// Where an asset starts: `files.entry`, else `entry`, else its executable
/// unless that is `NULL`, else nothing.
pub open spec fn asset_entry_path(e: EntryV) -> Seq<char> {
    match as_str_spec(opt_get(json_get(e.metadata, "files"@), "entry"@)) {
        Some(v) => v,
        None => match as_str_spec(json_get(e.metadata, "entry"@)) {
            Some(v) => v,
            None => if e.exe_path != "NULL"@ { e.exe_path } else { Seq::empty() },
        },
    }
}

/// How an asset is listed.
pub open spec fn asset_out(e: EntryV) -> JsonV {
    JsonV::Object(
        seq![
            ("id"@, JsonV::Str(e.id)),
            ("category"@, JsonV::Str(e.category)),
            ("subtype"@, JsonV::Str(e.subtype)),
            ("metadata"@, without_key(e.metadata, "exe_path"@)),
            ("path"@, JsonV::Str(e.path)),
            ("entry_path"@, JsonV::Str(asset_entry_path(e))),
        ],
    )
}

fn asset_entry_path_of(e: &RegistryEntry) -> (r: String)
    ensures
        r@ == asset_entry_path(e.view()),
{
    match text_of(get_opt(get_member(&e.metadata, "files"), "entry")) {
        Some(v) => v,
        None => match text_of(get_member(&e.metadata, "entry")) {
            Some(v) => v,
            None => if !str_eq(e.exe_path.as_str(), "NULL") {
                clone_string(&e.exe_path)
            } else {
                String::new()
            },
        },
    }
}

fn asset_json(e: &RegistryEntry) -> (r: Json)
    ensures
        r.view() == asset_out(e.view()),
{
    let mut ms: Vec<(String, Json)> = Vec::new();
    push_member(&mut ms, "id", Json::Str(clone_string(&e.id)));
    push_member(&mut ms, "category", Json::Str(clone_string(&e.category)));
    push_member(&mut ms, "subtype", Json::Str(clone_string(&e.subtype)));
    push_member(&mut ms, "metadata", copy_without(&e.metadata, "exe_path"));
    push_member(&mut ms, "path", Json::Str(clone_string(&e.path)));
    push_member(&mut ms, "entry_path", Json::Str(asset_entry_path_of(e)));
    assert(view_members(ms@) =~= seq![
        ("id"@, JsonV::Str(e.id@)),
        ("category"@, JsonV::Str(e.category@)),
        ("subtype"@, JsonV::Str(e.subtype@)),
        ("metadata"@, without_key(e.metadata.view(), "exe_path"@)),
        ("path"@, JsonV::Str(e.path@)),
        ("entry_path"@, JsonV::Str(asset_entry_path(e.view()))),
    ]);
    Json::Object(ms)
}

/// The position of the group named `key`.
pub open spec fn group_index(g: Seq<(Seq<char>, Seq<JsonV>)>, key: Seq<char>) -> Option<int>
    decreases g.len(),
{
    if g.len() == 0 {
        None
    } else {
        match group_index(g.drop_last(), key) {
            Some(i) => Some(i),
            None => if g.last().0 == key { Some(g.len() - 1) } else { None },
        }
    }
}

/// Adds `v` to the group `key`, opening the group after the others when it
/// is new.
pub open spec fn add_to_group(g: Seq<(Seq<char>, Seq<JsonV>)>, key: Seq<char>, v: JsonV) -> Seq<
    (Seq<char>, Seq<JsonV>),
> {
    match group_index(g, key) {
        Some(i) => g.update(i, (g[i].0, g[i].1.push(v))),
        None => g.push((key, seq![v])),
    }
}

/// The assets grouped by category: one group per category, in the order
/// the categories first occur, each holding its assets in order.
pub open spec fn asset_groups(es: Seq<EntryV>) -> Seq<(Seq<char>, Seq<JsonV>)>
    decreases es.len(),
{
    if es.len() == 0 {
        Seq::empty()
    } else {
        add_to_group(asset_groups(es.drop_last()), es.last().category, asset_out(es.last()))
    }
}

/// A group's items as a JSON value: the array itself, or, for window
/// groups, an object whose `windows` member is the array.
pub open spec fn group_value(items: Seq<JsonV>, windows: bool) -> JsonV {
    if windows {
        JsonV::Object(seq![("windows"@, JsonV::Array(items))])
    } else {
        JsonV::Array(items)
    }
}

pub open spec fn groups_as(g: Seq<(Seq<char>, Seq<JsonV>)>, windows: bool) -> JsonV {
    JsonV::Object(g.map_values(|p: (Seq<char>, Seq<JsonV>)| (p.0, group_value(p.1, windows))))
}

/// Groups as a JSON object of arrays.
pub open spec fn groups_object(g: Seq<(Seq<char>, Seq<JsonV>)>) -> JsonV {
    groups_as(g, false)
}

pub open spec fn group_views(names: Seq<String>, lists: Seq<Vec<Json>>) -> Seq<(Seq<char>, Seq<JsonV>)> {
    Seq::new(names.len(), |i: int| (names[i]@, view_items(lists[i]@)))
}

proof fn lemma_group_index_range(g: Seq<(Seq<char>, Seq<JsonV>)>, key: Seq<char>)
    ensures
        group_index(g, key) matches Some(i) ==> 0 <= i < g.len() && g[i].0 == key,
        group_index(g, key) is None ==> forall|i: int| 0 <= i < g.len() ==> (#[trigger] g[i]).0 != key,
    decreases g.len(),
{
    if g.len() > 0 {
        lemma_group_index_range(g.drop_last(), key);
        assert forall|i: int| 0 <= i < g.len() - 1 implies (#[trigger] g[i]) == g.drop_last()[i] by {}
    }
}

proof fn lemma_group_index_first(g: Seq<(Seq<char>, Seq<JsonV>)>, key: Seq<char>, i: int)
    requires
        0 <= i < g.len(),
        g[i].0 == key,
        forall|k: int| 0 <= k < i ==> (#[trigger] g[k]).0 != key,
    ensures
        group_index(g, key) == Some(i),
    decreases g.len(),
{
    if i < g.len() - 1 {
        assert(g.drop_last()[i] == g[i]);
        assert forall|k: int| 0 <= k < i implies (#[trigger] g.drop_last()[k]).0 != key by {
            assert(g.drop_last()[k] == g[k]);
        }
        lemma_group_index_first(g.drop_last(), key, i);
    } else {
        lemma_group_index_range(g.drop_last(), key);
        if group_index(g.drop_last(), key) is Some {
            let j = group_index(g.drop_last(), key)->0;
            assert(g.drop_last()[j] == g[j]);
        }
    }
}

fn find_group(names: &Vec<String>, key: &str) -> (r: Option<usize>)
    ensures
        match r {
            Some(i) => i < names.len() && names@[i as int]@ == key@ && forall|k: int| 0 <= k < i ==> (#[trigger] names@[k])@ != key@,
            None => forall|k: int| 0 <= k < names.len() ==> (#[trigger] names@[k])@ != key@,
        },
{
    for i in 0..names.len()
        invariant
            forall|k: int| 0 <= k < i ==> (#[trigger] names@[k])@ != key@,
    {
        if str_eq(names[i].as_str(), key) {
            return Some(i);
        }
    }
    None
}

/// Adds `v` to the group `key` of the parallel `names` / `lists`.
fn add_to_groups(names: &mut Vec<String>, lists: &mut Vec<Vec<Json>>, key: &str, v: Json)
    requires
        old(names).len() == old(lists).len(),
    ensures
        final(names).len() == final(lists).len(),
        group_views(final(names)@, final(lists)@) == add_to_group(group_views(old(names)@, old(lists)@), key@, v.view()),
{
    let ghost g = group_views(names@, lists@);
    match find_group(names, key) {
        Some(i) => {
            proof {
                lemma_group_index_first(g, key@, i as int);
            }
            let mut l = lists.remove(i);
            push_item(&mut l, v);
            lists.insert(i, l);
            assert(group_views(names@, lists@) =~= g.update(i as int, (g[i as int].0, g[i as int].1.push(v.view()))));
        },
        None => {
            proof {
                lemma_group_index_range(g, key@);
                if group_index(g, key@) is Some {
                    let j = group_index(g, key@)->0;
                    assert(names@[j]@ == key@);
                }
            }
            names.push(string_from_str(key));
            let mut l: Vec<Json> = Vec::new();
            push_item(&mut l, v);
            lists.push(l);
            assert(group_views(names@, lists@) =~= g.push((key@, seq![v.view()])));
        },
    }
}

fn groups_json(names: Vec<String>, lists: Vec<Vec<Json>>, windows: bool) -> (r: Json)
    requires
        names.len() == lists.len(),
    ensures
        r.view() == groups_as(group_views(names@, lists@), windows),
{
    let ghost g = group_views(names@, lists@);
    let n = names.len();
    let mut ns = names;
    let mut ls = lists;
    let mut ms: Vec<(String, Json)> = Vec::new();
    let mut i: usize = 0;
    while i < n
        invariant
            i <= n,
            ns.len() == n - i,
            ls.len() == n - i,
            g.len() == n,
            group_views(ns@, ls@) == g.skip(i as int),
            view_members(ms@) == g.take(i as int).map_values(|p: (Seq<char>, Seq<JsonV>)| (p.0, group_value(p.1, windows))),
        decreases n - i,
    {
        let ghost before_g = group_views(ns@, ls@);
        assert(before_g[0] == g[i as int]);
        let name = ns.remove(0);
        let list = ls.remove(0);
        assert(name@ == g[i as int].0 && view_items(list@) == g[i as int].1);
        assert(group_views(ns@, ls@) =~= g.skip(i + 1)) by {
            assert forall|k: int| 0 <= k < ns.len() implies #[trigger] group_views(ns@, ls@)[k] == g.skip(i + 1)[k] by {
                assert(before_g[k + 1] == g.skip(i as int)[k + 1]);
            }
        }
        let ghost before_ms = ms@;
        let ghost item_view = view_items(list@);
        let ghost name_view = name@;
        let arr = Json::Array(list);
        assert(arr.view() == JsonV::Array(item_view));
        let value = if windows {
            let mut w: Vec<(String, Json)> = Vec::new();
            push_member(&mut w, "windows", arr);
            assert(view_members(w@) =~= seq![("windows"@, JsonV::Array(item_view))]);
            Json::Object(w)
        } else {
            arr
        };
        assert(value.view() == group_value(item_view, windows));
        ms.push((name, value));
        assert(ms@.drop_last() =~= before_ms);
        assert(view_members(ms@) == view_members(before_ms).push((name_view, group_value(item_view, windows))));
        assert(g.take(i + 1) =~= g.take(i as int).push(g[i as int]));
        assert(view_members(ms@) =~= g.take(i + 1).map_values(|p: (Seq<char>, Seq<JsonV>)| (p.0, group_value(p.1, windows))));
        i += 1;
    }
    assert(g.take(n as int) =~= g);
    Json::Object(ms)
}

/// The assets grouped by category.
pub fn output_assets(assets: &Vec<RegistryEntry>) -> (r: Json)
    ensures
        r.view() == groups_object(asset_groups(entry_views(assets@))),
{
    let ghost es = entry_views(assets@);
    let mut names: Vec<String> = Vec::new();
    let mut lists: Vec<Vec<Json>> = Vec::new();
    assert(group_views(names@, lists@) =~= asset_groups(es.take(0)));
    for i in 0..assets.len()
        invariant
            es == entry_views(assets@),
            names.len() == lists.len(),
            group_views(names@, lists@) == asset_groups(es.take(i as int)),
    {
        assert(es.take(i + 1).drop_last() =~= es.take(i as int));
        assert(es.take(i + 1).last() == assets@[i as int].view());
        add_to_groups(&mut names, &mut lists, assets[i].category.as_str(), asset_json(&assets[i]));
    }
    assert(es.take(assets.len() as int) =~= es);
    groups_json(names, lists, false)
}

// ---------------------------------------------------------------------------
// System data
// ---------------------------------------------------------------------------

/// How a display is listed.
pub open spec fn display_out(id: Seq<char>, e: EntryV, m: JsonV) -> JsonV {
    JsonV::Object(
        seq![
            ("id"@, JsonV::Str(id)),
            ("category"@, JsonV::Str(e.category)),
            ("subtype"@, JsonV::Str(e.subtype)),
            ("metadata"@, m),
        ],
    )
}

/// A text or a default.
pub open spec fn text_or(o: Option<Seq<char>>, d: Seq<char>) -> Seq<char> {
    match o {
        Some(t) => t,
        None => d,
    }
}

/// The displays an entry stands for: one per item of its `monitors` array
/// (id from the item, `unknown` without one), or the entry itself (id from
/// its metadata, else its own id).
pub open spec fn display_items(e: EntryV) -> Seq<JsonV> {
    match as_array_spec(json_get(e.metadata, "monitors"@)) {
        Some(ms) => ms.map_values(|m: JsonV| display_out(text_or(as_str_spec(json_get(m, "id"@)), "unknown"@), e, m)),
        None => seq![display_out(text_or(as_str_spec(json_get(e.metadata, "id"@)), e.id), e, e.metadata)],
    }
}

/// The displays of all `display` entries, in order.
pub open spec fn displays_out(es: Seq<EntryV>) -> Seq<JsonV>
    decreases es.len(),
{
    if es.len() == 0 {
        Seq::empty()
    } else {
        let rest = displays_out(es.drop_last());
        if eq_ignore_case(es.last().category, "display"@) { rest + display_items(es.last()) } else { rest }
    }
}

/// The `sysdata` section: the displays, then each category's metadata.
pub open spec fn sysdata_out(es: Seq<EntryV>) -> JsonV {
    JsonV::Object(sysdata_members(es))
}

pub open spec fn sysdata_members(es: Seq<EntryV>) -> Seq<(Seq<char>, JsonV)> {
        seq![
            ("displays"@, JsonV::Array(displays_out(es))),
            ("cpu"@, metadata_of(es, "cpu"@)),
            ("ram"@, metadata_of(es, "ram"@)),
            ("gpu"@, metadata_of(es, "gpu"@)),
            ("storage"@, metadata_of(es, "storage"@)),
            ("network"@, metadata_of(es, "network"@)),
            ("audio"@, metadata_of(es, "audio"@)),
            ("time"@, metadata_of(es, "time"@)),
            ("keyboard"@, metadata_of(es, "keyboard"@)),
            ("mouse"@, metadata_of(es, "mouse"@)),
            ("power"@, metadata_of(es, "power"@)),
            ("bluetooth"@, metadata_of(es, "bluetooth"@)),
            ("wifi"@, metadata_of(es, "wifi"@)),
            ("system"@, metadata_of(es, "system"@)),
            ("processes"@, metadata_of(es, "processes"@)),
            ("idle"@, metadata_of(es, "idle"@)),
        ]
}

fn display_json(id: String, e: &RegistryEntry, m: Json) -> (r: Json)
    ensures
        r.view() == display_out(id@, e.view(), m.view()),
{
    let mut ms: Vec<(String, Json)> = Vec::new();
    let ghost idv = id@;
    let ghost mv = m.view();
    push_member(&mut ms, "id", Json::Str(id));
    push_member(&mut ms, "category", Json::Str(clone_string(&e.category)));
    push_member(&mut ms, "subtype", Json::Str(clone_string(&e.subtype)));
    push_member(&mut ms, "metadata", m);
    assert(view_members(ms@) =~= seq![
        ("id"@, JsonV::Str(idv)),
        ("category"@, JsonV::Str(e.category@)),
        ("subtype"@, JsonV::Str(e.subtype@)),
        ("metadata"@, mv),
    ]);
    Json::Object(ms)
}

fn text_or_default(o: Option<String>, d: &str) -> (r: String)
    ensures
        r@ == text_or(opt_text_view(o), d@),
{
    match o {
        Some(t) => t,
        None => string_from_str(d),
    }
}

fn push_display_items(out: &mut Vec<Json>, e: &RegistryEntry)
    ensures
        view_items(final(out)@) == view_items(old(out)@) + display_items(e.view()),
{
    let ghost ev = e.view();
    match items_of(get_member(&e.metadata, "monitors")) {
        Some(ms) => {
            let ghost start = view_items(out@);
            let ghost mvs = view_items(ms@);
            proof { lemma_view_items_len(ms@); }
            for i in 0..ms.len()
                invariant
                    mvs == view_items(ms@),
                    ev == e.view(),
                    mvs.len() == ms.len(),
                    view_items(out@) == start + mvs.take(i as int).map_values(
                        |m: JsonV| display_out(text_or(as_str_spec(json_get(m, "id"@)), "unknown"@), ev, m),
                    ),
            {
                proof { lemma_view_items_index(ms@, i as int); }
                let id = text_or_default(text_of(get_member(&ms[i], "id")), "unknown");
                push_item(out, display_json(id, e, ms[i].duplicate()));
                assert(mvs.take(i + 1) =~= mvs.take(i as int).push(mvs[i as int]));
                assert(view_items(out@) =~= start + mvs.take(i + 1).map_values(
                    |m: JsonV| display_out(text_or(as_str_spec(json_get(m, "id"@)), "unknown"@), ev, m),
                ));
            }
            assert(mvs.take(ms.len() as int) =~= mvs);
        },
        None => {
            let id = text_or_default(text_of(get_member(&e.metadata, "id")), e.id.as_str());
            let ghost before = view_items(out@);
            push_item(out, display_json(id, e, e.metadata.duplicate()));
            assert(view_items(out@) =~= before + display_items(ev));
        },
    }
}

fn displays_json(sysdata: &Vec<RegistryEntry>) -> (r: Vec<Json>)
    ensures
        view_items(r@) == displays_out(entry_views(sysdata@)),
{
    let ghost es = entry_views(sysdata@);
    let mut out: Vec<Json> = Vec::new();
    for i in 0..sysdata.len()
        invariant
            es == entry_views(sysdata@),
            view_items(out@) == displays_out(es.take(i as int)),
    {
        assert(es.take(i + 1).drop_last() =~= es.take(i as int));
        assert(es.take(i + 1).last() == sysdata@[i as int].view());
        if str_eq_ignore_case(sysdata[i].category.as_str(), "display") {
            push_display_items(&mut out, &sysdata[i]);
        }
    }
    assert(es.take(sysdata.len() as int) =~= es);
    out
}

/// The `sysdata` section.
pub fn output_sysdata(sysdata: &Vec<RegistryEntry>) -> (r: Json)
    ensures
        r.view() == sysdata_out(entry_views(sysdata@)),
{
    let ghost es = entry_views(sysdata@);
    let mut ms: Vec<(String, Json)> = Vec::new();
    push_member(&mut ms, "displays", Json::Array(displays_json(sysdata)));
    push_member(&mut ms, "cpu", metadata_for_category(sysdata, "cpu"));
    push_member(&mut ms, "ram", metadata_for_category(sysdata, "ram"));
    push_member(&mut ms, "gpu", metadata_for_category(sysdata, "gpu"));
    push_member(&mut ms, "storage", metadata_for_category(sysdata, "storage"));
    push_member(&mut ms, "network", metadata_for_category(sysdata, "network"));
    push_member(&mut ms, "audio", metadata_for_category(sysdata, "audio"));
    push_member(&mut ms, "time", metadata_for_category(sysdata, "time"));
    push_member(&mut ms, "keyboard", metadata_for_category(sysdata, "keyboard"));
    push_member(&mut ms, "mouse", metadata_for_category(sysdata, "mouse"));
    push_member(&mut ms, "power", metadata_for_category(sysdata, "power"));
    push_member(&mut ms, "bluetooth", metadata_for_category(sysdata, "bluetooth"));
    push_member(&mut ms, "wifi", metadata_for_category(sysdata, "wifi"));
    push_member(&mut ms, "system", metadata_for_category(sysdata, "system"));
    push_member(&mut ms, "processes", metadata_for_category(sysdata, "processes"));
    push_member(&mut ms, "idle", metadata_for_category(sysdata, "idle"));
    assert(view_members(ms@) =~= sysdata_members(es));
    Json::Object(ms)
}

// ---------------------------------------------------------------------------
// Window data
// ---------------------------------------------------------------------------

/// How a window is listed, with a default for each missing field.
pub open spec fn window_out(meta: JsonV) -> JsonV {
    JsonV::Object(window_members(meta))
}

pub open spec fn window_members(meta: JsonV) -> Seq<(Seq<char>, JsonV)> {
        seq![
            ("focused"@, JsonV::Bool(match as_bool_spec(json_get(meta, "focused"@)) { Some(b) => b, None => false })),
            ("app_name"@, JsonV::Str(text_or(as_str_spec(json_get(meta, "app_name"@)), "unknown"@))),
            ("app_icon"@, JsonV::Str(text_or(as_str_spec(json_get(meta, "app_icon"@)), Seq::empty()))),
            ("exe_path"@, JsonV::Str(text_or(as_str_spec(json_get(meta, "exe_path"@)), Seq::empty()))),
            ("window_title"@, JsonV::Str(text_or(as_str_spec(json_get(meta, "window_title"@)), Seq::empty()))),
            ("pid"@, JsonV::Number(NumberV::Unsigned(match as_u64_spec(json_get(meta, "pid"@)) { Some(p) => p, None => 0 }))),
            ("window_state"@, JsonV::Str(text_or(as_str_spec(json_get(meta, "window_state"@)), "normal"@))),
            ("size"@, match json_get(meta, "size"@) {
                Some(v) => v,
                None => zero_pair("width"@, "height"@),
            }),
            ("position"@, match json_get(meta, "position"@) {
                Some(v) => v,
                None => zero_pair("x"@, "y"@),
            }),
        ]
}

/// `{a: 0, b: 0}`.
pub open spec fn zero_pair(a: Seq<char>, b: Seq<char>) -> JsonV {
    JsonV::Object(seq![(a, JsonV::Number(NumberV::Unsigned(0))), (b, JsonV::Number(NumberV::Unsigned(0)))])
}

fn zero_pair_json(a: &str, b: &str) -> (r: Json)
    ensures
        r.view() == zero_pair(a@, b@),
{
    let mut ms: Vec<(String, Json)> = Vec::new();
    push_member(&mut ms, a, Json::Number(crate::json::JsonNumber::Unsigned(0)));
    push_member(&mut ms, b, Json::Number(crate::json::JsonNumber::Unsigned(0)));
    assert(view_members(ms@) =~= seq![(a@, JsonV::Number(NumberV::Unsigned(0))), (b@, JsonV::Number(NumberV::Unsigned(0)))]);
    Json::Object(ms)
}

fn window_json(meta: &Json) -> (r: Json)
    ensures
        r.view() == window_out(meta.view()),
{
    let mut ms: Vec<(String, Json)> = Vec::new();
    let focused = match bool_of(get_member(meta, "focused")) { Some(b) => b, None => false };
    push_member(&mut ms, "focused", Json::Bool(focused));
    push_member(&mut ms, "app_name", Json::Str(text_or_default(text_of(get_member(meta, "app_name")), "unknown")));
    push_member(&mut ms, "app_icon", Json::Str(text_or_default(text_of(get_member(meta, "app_icon")), "")));
    push_member(&mut ms, "exe_path", Json::Str(text_or_default(text_of(get_member(meta, "exe_path")), "")));
    push_member(&mut ms, "window_title", Json::Str(text_or_default(text_of(get_member(meta, "window_title")), "")));
    let pid = match u64_of(get_member(meta, "pid")) { Some(p) => p, None => 0 };
    push_member(&mut ms, "pid", Json::Number(crate::json::JsonNumber::Unsigned(pid)));
    push_member(&mut ms, "window_state", Json::Str(text_or_default(text_of(get_member(meta, "window_state")), "normal")));
    let size = match get_member(meta, "size") { Some(v) => v.duplicate(), None => zero_pair_json("width", "height") };
    push_member(&mut ms, "size", size);
    let position = match get_member(meta, "position") { Some(v) => v.duplicate(), None => zero_pair_json("x", "y") };
    push_member(&mut ms, "position", position);
    proof {
        reveal_strlit("");
        assert(""@ =~= Seq::<char>::empty());
    }
    assert(view_members(ms@) =~= window_members(meta.view()));
    Json::Object(ms)
}

/// Adds a group `key` with no items unless it exists.
pub open spec fn ensure_group(g: Seq<(Seq<char>, Seq<JsonV>)>, key: Seq<char>) -> Seq<(Seq<char>, Seq<JsonV>)> {
    match group_index(g, key) {
        Some(_) => g,
        None => g.push((key, Seq::empty())),
    }
}

/// One window group per monitor id that a `display` entry's metadata names.
pub open spec fn display_groups(sys: Seq<EntryV>) -> Seq<(Seq<char>, Seq<JsonV>)>
    decreases sys.len(),
{
    if sys.len() == 0 {
        Seq::empty()
    } else {
        let rest = display_groups(sys.drop_last());
        let e = sys.last();
        if eq_ignore_case(e.category, "display"@) {
            match as_str_spec(json_get(e.metadata, "id"@)) {
                Some(id) => ensure_group(rest, id),
                None => rest,
            }
        } else {
            rest
        }
    }
}

/// Each `active_window` entry with a monitor id adds its window to that
/// monitor's group.
pub open spec fn window_groups(app: Seq<EntryV>, g0: Seq<(Seq<char>, Seq<JsonV>)>) -> Seq<(Seq<char>, Seq<JsonV>)>
    decreases app.len(),
{
    if app.len() == 0 {
        g0
    } else {
        let rest = window_groups(app.drop_last(), g0);
        let e = app.last();
        if eq_ignore_case(e.category, "active_window"@) {
            match as_str_spec(json_get(e.metadata, "monitor_id"@)) {
                Some(mid) => add_to_group(rest, mid, window_out(e.metadata)),
                None => rest,
            }
        } else {
            rest
        }
    }
}

/// The `appdata` section: per monitor id, its windows.
pub open spec fn appdata_out(app: Seq<EntryV>, sys: Seq<EntryV>) -> JsonV {
    groups_as(window_groups(app, display_groups(sys)), true)
}

fn ensure_in_groups(names: &mut Vec<String>, lists: &mut Vec<Vec<Json>>, key: String)
    requires
        old(names).len() == old(lists).len(),
    ensures
        final(names).len() == final(lists).len(),
        group_views(final(names)@, final(lists)@) == ensure_group(group_views(old(names)@, old(lists)@), key@),
{
    let ghost g = group_views(names@, lists@);
    match find_group(names, key.as_str()) {
        Some(i) => {
            proof {
                lemma_group_index_first(g, key@, i as int);
            }
        },
        None => {
            proof {
                lemma_group_index_range(g, key@);
                if group_index(g, key@) is Some {
                    let j = group_index(g, key@)->0;
                    assert(names@[j]@ == key@);
                }
            }
            let ghost kv = key@;
            names.push(key);
            lists.push(Vec::new());
            assert(group_views(names@, lists@) =~= g.push((kv, Seq::empty())));
        },
    }
}

/// The `appdata` section.
pub fn output_appdata(appdata: &Vec<RegistryEntry>, sysdata: &Vec<RegistryEntry>) -> (r: Json)
    ensures
        r.view() == appdata_out(entry_views(appdata@), entry_views(sysdata@)),
{
    let ghost sys = entry_views(sysdata@);
    let ghost app = entry_views(appdata@);
    let mut names: Vec<String> = Vec::new();
    let mut lists: Vec<Vec<Json>> = Vec::new();
    assert(group_views(names@, lists@) =~= display_groups(sys.take(0)));
    for i in 0..sysdata.len()
        invariant
            sys == entry_views(sysdata@),
            names.len() == lists.len(),
            group_views(names@, lists@) == display_groups(sys.take(i as int)),
    {
        assert(sys.take(i + 1).drop_last() =~= sys.take(i as int));
        assert(sys.take(i + 1).last() == sysdata@[i as int].view());
        if str_eq_ignore_case(sysdata[i].category.as_str(), "display") {
            match text_of(get_member(&sysdata[i].metadata, "id")) {
                Some(id) => ensure_in_groups(&mut names, &mut lists, id),
                None => {},
            }
        }
    }
    assert(sys.take(sysdata.len() as int) =~= sys);
    let ghost g0 = group_views(names@, lists@);
    for i in 0..appdata.len()
        invariant
            app == entry_views(appdata@),
            names.len() == lists.len(),
            group_views(names@, lists@) == window_groups(app.take(i as int), g0),
    {
        assert(app.take(i + 1).drop_last() =~= app.take(i as int));
        assert(app.take(i + 1).last() == appdata@[i as int].view());
        let e = &appdata[i];
        if str_eq_ignore_case(e.category.as_str(), "active_window") {
            match text_of(get_member(&e.metadata, "monitor_id")) {
                Some(mid) => {
                    let w = window_json(&e.metadata);
                    add_to_groups(&mut names, &mut lists, mid.as_str(), w);
                },
                None => {},
            }
        }
    }
    assert(app.take(appdata.len() as int) =~= app);
    groups_json(names, lists, true)
}

// ---------------------------------------------------------------------------
// The whole document
// ---------------------------------------------------------------------------

/// For every trackable section, whether it is collected.
pub open spec fn sections_meta(state: TrackingState, ui_exception: bool, now_ms: u64) -> JsonV {
    JsonV::Object(
        Seq::new(
            17,
            |k: int|
                (
                    section_name(section_at(k)),
                    JsonV::Object(seq![("tracked"@, JsonV::Bool(is_collected(state, ui_exception, now_ms, section_at(k))))]),
                ),
        ),
    )
}

/// The registry document: the addons, the assets by category, the system
/// and window data, and `__meta` (when it was written, whether any tracking
/// is active, and which sections are).
pub open spec fn registry_out(
    addons: Seq<EntryV>,
    assets: Seq<EntryV>,
    sysdata: Seq<EntryV>,
    appdata: Seq<EntryV>,
    state: TrackingState,
    paused: bool,
    ui_exception: bool,
    now_ms: u64,
) -> JsonV {
    JsonV::Object(registry_members(addons, assets, sysdata, appdata, state, paused, ui_exception, now_ms))
}

pub open spec fn meta_members(state: TrackingState, paused: bool, ui_exception: bool, now_ms: u64) -> Seq<(Seq<char>, JsonV)> {
    seq![
        ("written_ms"@, JsonV::Number(NumberV::Unsigned(now_ms))),
        ("tracking_active"@, JsonV::Bool(!paused && exists|s: Section| is_collected(state, ui_exception, now_ms, s))),
        ("sections"@, sections_meta(state, ui_exception, now_ms)),
    ]
}

pub open spec fn registry_members(
    addons: Seq<EntryV>,
    assets: Seq<EntryV>,
    sysdata: Seq<EntryV>,
    appdata: Seq<EntryV>,
    state: TrackingState,
    paused: bool,
    ui_exception: bool,
    now_ms: u64,
) -> Seq<(Seq<char>, JsonV)> {
        seq![
            ("addons"@, JsonV::Array(addons.map_values(|e: EntryV| addon_out(e)))),
            ("assets"@, groups_object(asset_groups(assets))),
            ("sysdata"@, sysdata_out(sysdata)),
            ("appdata"@, appdata_out(appdata, sysdata)),
            ("__meta"@, JsonV::Object(meta_members(state, paused, ui_exception, now_ms))),
        ]
}

fn sections_meta_json(state: &TrackingState, ui_exception: bool, now_ms: u64) -> (r: Json)
    ensures
        r.view() == sections_meta(*state, ui_exception, now_ms),
{
    let all = trackable_sections();
    let mut ms: Vec<(String, Json)> = Vec::new();
    for i in 0..all.len()
        invariant
            all@.len() == 17,
            forall|k: int| 0 <= k < 17 ==> #[trigger] all@[k] == section_at(k),
            view_members(ms@) == Seq::new(
                i as nat,
                |k: int|
                    (
                        section_name(section_at(k)),
                        JsonV::Object(seq![("tracked"@, JsonV::Bool(is_collected(*state, ui_exception, now_ms, section_at(k))))]),
                    ),
            ),
    {
        let s = all[i];
        let mut inner: Vec<(String, Json)> = Vec::new();
        push_member(&mut inner, "tracked", Json::Bool(section_enabled(state, ui_exception, now_ms, s)));
        assert(view_members(inner@) =~= seq![("tracked"@, JsonV::Bool(is_collected(*state, ui_exception, now_ms, s)))]);
        let name = section_name_string(s);
        let ghost before_ms = ms@;
        let ghost nv = name@;
        let v = Json::Object(inner);
        let ghost vv = v.view();
        ms.push((name, v));
        assert(ms@.drop_last() =~= before_ms);
        assert(view_members(ms@) == view_members(before_ms).push((nv, vv)));
        assert(view_members(ms@) =~= Seq::new(
            (i + 1) as nat,
            |k: int|
                (
                    section_name(section_at(k)),
                    JsonV::Object(seq![("tracked"@, JsonV::Bool(is_collected(*state, ui_exception, now_ms, section_at(k))))]),
                ),
        ));
    }
    Json::Object(ms)
}

/// The registry document, as served and written to `registry.json`.
pub fn registry_to_output_json(
    reg: &Registry,
    state: &TrackingState,
    paused: bool,
    ui_exception: bool,
    now_ms: u64,
) -> (r: Json)
    ensures
        r.view() == registry_out(
            entry_views(reg.addons@),
            entry_views(reg.assets@),
            entry_views(reg.sysdata@),
            entry_views(reg.appdata@),
            *state,
            paused,
            ui_exception,
            now_ms,
        ),
{
    let mut meta: Vec<(String, Json)> = Vec::new();
    push_member(&mut meta, "written_ms", Json::Number(crate::json::JsonNumber::Unsigned(now_ms)));
    push_member(&mut meta, "tracking_active", Json::Bool(demand_tracking_active(state, paused, ui_exception, now_ms)));
    push_member(&mut meta, "sections", sections_meta_json(state, ui_exception, now_ms));
    assert(view_members(meta@) =~= meta_members(*state, paused, ui_exception, now_ms));
    let mut ms: Vec<(String, Json)> = Vec::new();
    push_member(&mut ms, "addons", Json::Array(output_addons(&reg.addons)));
    push_member(&mut ms, "assets", output_assets(&reg.assets));
    push_member(&mut ms, "sysdata", output_sysdata(&reg.sysdata));
    push_member(&mut ms, "appdata", output_appdata(&reg.appdata, &reg.sysdata));
    push_member(&mut ms, "__meta", Json::Object(meta));
    assert(view_members(ms@) =~= registry_members(
        entry_views(reg.addons@),
        entry_views(reg.assets@),
        entry_views(reg.sysdata@),
        entry_views(reg.appdata@),
        *state,
        paused,
        ui_exception,
        now_ms,
    ));
    Json::Object(ms)
}

// ---------------------------------------------------------------------------
// System data entries
// ---------------------------------------------------------------------------

/// The sysdata entry a collection makes: id and category are the
/// category's name (the display group's id is `display_group`), subtype
/// `system`, no path or executable.
pub open spec fn system_entry_spec(category: Seq<char>, metadata: JsonV) -> EntryV {
    EntryV {
        id: if category == "display"@ { "display_group"@ } else { category },
        category,
        subtype: "system"@,
        metadata,
        path: Seq::empty(),
        exe_path: Seq::empty(),
    }
}

/// The sysdata entry for freshly collected metadata of a category.
pub fn system_entry(category: &str, metadata: Json) -> (r: RegistryEntry)
    ensures
        r.view() == system_entry_spec(category@, metadata.view()),
{
    let id = if str_eq(category, "display") { string_from_str("display_group") } else { string_from_str(category) };
    RegistryEntry {
        id,
        category: string_from_str(category),
        subtype: string_from_str("system"),
        metadata,
        path: String::new(),
        exe_path: String::new(),
    }
}

/// The metadata of the display group: `{"monitors": [...]}`.
pub fn display_group_metadata(monitors: Vec<Json>) -> (r: Json)
    ensures
        r.view() == JsonV::Object(seq![("monitors"@, JsonV::Array(view_items(monitors@)))]),
{
    let ghost mv = view_items(monitors@);
    let mut ms: Vec<(String, Json)> = Vec::new();
    push_member(&mut ms, "monitors", Json::Array(monitors));
    assert(view_members(ms@) =~= seq![("monitors"@, JsonV::Array(mv))]);
    Json::Object(ms)
}

// ---------------------------------------------------------------------------
// Laws
// ---------------------------------------------------------------------------

proof fn lemma_outside_concat(a: Seq<EntryV>, b: Seq<EntryV>, cats: Seq<Seq<char>>)
    ensures
        entries_outside(a + b, cats) == entries_outside(a, cats) + entries_outside(b, cats),
    decreases b.len(),
{
    if b.len() == 0 {
        assert(a + b =~= a);
        assert(entries_outside(a, cats) + Seq::<EntryV>::empty() =~= entries_outside(a, cats));
    } else {
        lemma_outside_concat(a, b.drop_last(), cats);
        assert((a + b).drop_last() =~= a + b.drop_last());
        assert((a + b).last() == b.last());
        if !in_categories(b.last().category, cats) {
            assert(entries_outside(a, cats) + entries_outside(b.drop_last(), cats).push(b.last()) =~= (entries_outside(
                a,
                cats,
            ) + entries_outside(b.drop_last(), cats)).push(b.last()));
        }
    }
}

proof fn lemma_outside_all_inside(b: Seq<EntryV>, cats: Seq<Seq<char>>)
    requires
        forall|i: int| 0 <= i < b.len() ==> in_categories((#[trigger] b[i]).category, cats),
    ensures
        entries_outside(b, cats) == Seq::<EntryV>::empty(),
    decreases b.len(),
{
    if b.len() > 0 {
        assert forall|i: int| 0 <= i < b.len() - 1 implies in_categories((#[trigger] b.drop_last()[i]).category, cats) by {
            assert(b.drop_last()[i] == b[i]);
        }
        lemma_outside_all_inside(b.drop_last(), cats);
        assert(in_categories(b[b.len() - 1].category, cats));
    }
}

proof fn lemma_outside_twice(a: Seq<EntryV>, cats: Seq<Seq<char>>)
    ensures
        entries_outside(entries_outside(a, cats), cats) == entries_outside(a, cats),
        forall|i: int| 0 <= i < entries_outside(a, cats).len() ==> !in_categories((#[trigger] entries_outside(a, cats)[i]).category, cats),
    decreases a.len(),
{
    if a.len() > 0 {
        lemma_outside_twice(a.drop_last(), cats);
        let r = entries_outside(a.drop_last(), cats);
        if !in_categories(a.last().category, cats) {
            assert(r.push(a.last()).drop_last() =~= r);
            assert forall|i: int| 0 <= i < r.push(a.last()).len() implies !in_categories((#[trigger] r.push(a.last())[i]).category, cats) by {
                if i < r.len() {
                    assert(r.push(a.last())[i] == r[i]);
                }
            }
        }
    }
}

/// Merging a tier's fresh entries keeps no old entry of the tier's
/// categories and every old entry of the other categories, in order; doing
/// it again with the same fresh entries (all of the tier's categories)
/// changes nothing.
pub proof fn law_merge_tier_replaces(existing: Seq<EntryV>, fresh: Seq<EntryV>, cats: Seq<Seq<char>>)
    requires
        forall|i: int| 0 <= i < fresh.len() ==> in_categories((#[trigger] fresh[i]).category, cats),
    ensures
        forall|i: int| 0 <= i < entries_outside(existing, cats).len() ==> !in_categories(
            (#[trigger] entries_outside(existing, cats)[i]).category,
            cats,
        ),
        entries_outside(entries_outside(existing, cats) + fresh, cats) + fresh == entries_outside(existing, cats)
            + fresh,
{
    lemma_outside_twice(existing, cats);
    lemma_outside_concat(entries_outside(existing, cats), fresh, cats);
    lemma_outside_all_inside(fresh, cats);
    assert(entries_outside(existing, cats) + Seq::<EntryV>::empty() =~= entries_outside(existing, cats));
}


/// Merging a tier's fresh entries into what an earlier merge of the same
/// fresh entries gave changes nothing (the fresh entries all of the tier's
/// categories).
pub proof fn law_merge_tier_idempotent(existing: Seq<EntryV>, fresh: Seq<EntryV>, cats: Seq<Seq<char>>)
    requires
        forall|i: int| 0 <= i < fresh.len() ==> in_categories((#[trigger] fresh[i]).category, cats),
    ensures
        ({
            let merged = entries_outside(existing, cats) + fresh;
            entries_outside(merged, cats) + fresh == merged
        }),
{
    law_merge_tier_replaces(existing, fresh, cats);
}


/// The text member `key` of a window's metadata, or `d` where it is missing
/// or not a string.
pub open spec fn meta_text(meta: JsonV, key: Seq<char>, d: Seq<char>) -> Seq<char> {
    match json_get(meta, key) {
        Some(JsonV::Str(t)) => t,
        _ => d,
    }
}

/// A listed window takes each field from the same-named member of its
/// metadata: `focused` (false when missing), `app_name` ("unknown"),
/// `app_icon`, `exe_path` and `window_title` (empty), `pid` (0),
/// `window_state` ("normal"), and `size` and `position` where present.
pub proof fn law_window_fields_from_metadata(meta: JsonV)
    ensures
        json_get(window_out(meta), "focused"@) == Some(JsonV::Bool(match json_get(meta, "focused"@) {
            Some(JsonV::Bool(b)) => b,
            _ => false,
        })),
        json_get(window_out(meta), "app_name"@) == Some(JsonV::Str(meta_text(meta, "app_name"@, "unknown"@))),
        json_get(window_out(meta), "app_icon"@) == Some(JsonV::Str(meta_text(meta, "app_icon"@, Seq::empty()))),
        json_get(window_out(meta), "exe_path"@) == Some(JsonV::Str(meta_text(meta, "exe_path"@, Seq::empty()))),
        json_get(window_out(meta), "window_title"@) == Some(JsonV::Str(meta_text(meta, "window_title"@, Seq::empty()))),
        json_get(window_out(meta), "window_state"@) == Some(JsonV::Str(meta_text(meta, "window_state"@, "normal"@))),
        json_get(meta, "pid"@) matches Some(JsonV::Number(NumberV::Unsigned(p))) ==> json_get(window_out(meta), "pid"@)
            == Some(JsonV::Number(NumberV::Unsigned(p))),
        json_get(meta, "pid"@) is None ==> json_get(window_out(meta), "pid"@) == Some(JsonV::Number(NumberV::Unsigned(0))),
        json_get(meta, "size"@) matches Some(v) ==> json_get(window_out(meta), "size"@) == Some(v),
        json_get(meta, "position"@) matches Some(v) ==> json_get(window_out(meta), "position"@) == Some(v),
{
    reveal_strlit("focused");
    reveal_strlit("app_name");
    reveal_strlit("app_icon");
    reveal_strlit("exe_path");
    reveal_strlit("window_title");
    reveal_strlit("pid");
    reveal_strlit("window_state");
    reveal_strlit("size");
    reveal_strlit("position");
    let ms = window_members(meta);
    let keys = seq!["focused"@, "app_name"@, "app_icon"@, "exe_path"@, "window_title"@, "pid"@, "window_state"@,
        "size"@, "position"@];
    assert forall|i: int| 0 <= i < 9 implies (#[trigger] ms[i]).0 == keys[i] by {}
    assert forall|i: int, j: int| #![trigger keys[i], keys[j]] 0 <= i < j < 9 implies keys[i] != keys[j] by {
        if keys[i].len() == keys[j].len() {
            if i == 1 && j == 2 {
                assert(keys[i][4] != keys[j][4]);
            } else if i == 4 && j == 6 {
                assert(keys[i][7] != keys[j][7]);
            } else {
                assert(keys[i][0] != keys[j][0]);
            }
        }
    }
    assert forall|k: int, j: int| #![trigger ms[k], ms[j]] 0 <= j < k < 9 implies ms[j].0 != ms[k].0 by {
        assert(ms[j].0 == keys[j] && ms[k].0 == keys[k]);
    }
    crate::json::lemma_member_get_at(ms, "focused"@, 0);
    crate::json::lemma_member_get_at(ms, "app_name"@, 1);
    crate::json::lemma_member_get_at(ms, "app_icon"@, 2);
    crate::json::lemma_member_get_at(ms, "exe_path"@, 3);
    crate::json::lemma_member_get_at(ms, "window_title"@, 4);
    crate::json::lemma_member_get_at(ms, "pid"@, 5);
    crate::json::lemma_member_get_at(ms, "window_state"@, 6);
    crate::json::lemma_member_get_at(ms, "size"@, 7);
    crate::json::lemma_member_get_at(ms, "position"@, 8);
}

} // verus!
