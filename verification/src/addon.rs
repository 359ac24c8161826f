//! Addons: resolving them from the registry, what starting and stopping
//! them answers, autostart settings, and the tray's click handling.
use vstd::prelude::*;
use crate::json::{
    Json, JsonV, view_members, json_get, opt_get, as_str_spec, opt_json_view, opt_text_view,
    get_member, get_opt, text_of, push_member, view_items, as_array_spec, items_of,
};
use crate::registry::{RegistryEntry, EntryV, entry_views};
use crate::text::{
    clone_string, str_eq, str_eq_ignore_case, eq_ignore_case, string_from_str, join_text, starts_with,
};

verus! {

/// An addon as the daemon runs it.
#[derive(Debug)]
pub struct Addon {
    pub name: String,
    pub exe_path: String,
    pub dir: String,
    pub package: String,
}

pub struct AddonV {
    pub name: Seq<char>,
    pub exe_path: Seq<char>,
    pub dir: Seq<char>,
    pub package: Seq<char>,
}

impl Addon {
    pub open spec fn view(&self) -> AddonV {
        AddonV { name: self.name@, exe_path: self.exe_path@, dir: self.dir@, package: self.package@ }
    }
}

/// The addon an entry describes, given the directory its executable is in:
/// no directory is an invalid path; the manifest must name a `package`.
pub open spec fn addon_spec(e: EntryV, dir: Option<Seq<char>>) -> Result<AddonV, Seq<char>> {
    match dir {
        None => Err("Invalid exe path"@),
        Some(d) => match as_str_spec(json_get(e.metadata, "package"@)) {
            None => Err("Missing package in metadata"@),
            Some(p) => Ok(AddonV { name: e.id, exe_path: e.exe_path, dir: d, package: p }),
        },
    }
}

pub open spec fn addon_result_view(r: Result<Addon, String>) -> Result<AddonV, Seq<char>> {
    match r {
        Ok(a) => Ok(a.view()),
        Err(e) => Err(e@),
    }
}

/// The addon an entry describes, given the directory of its executable.
pub fn addon_from_entry(entry: &RegistryEntry, dir: Option<String>) -> (r: Result<Addon, String>)
    ensures
        addon_result_view(r) == addon_spec(entry.view(), opt_text_view(dir)),
{
    let d = match dir {
        Some(d) => d,
        None => {
            return Err(string_from_str("Invalid exe path"));
        },
    };
    let package = match text_of(get_member(&entry.metadata, "package")) {
        Some(p) => p,
        None => {
            return Err(string_from_str("Missing package in metadata"));
        },
    };
    Ok(Addon { name: clone_string(&entry.id), exe_path: clone_string(&entry.exe_path), dir: d, package })
}

/// The addon a registry entry describes; its directory is the parent of its
/// executable's path.
pub fn registry_entry_to_addon(entry: &RegistryEntry) -> (r: Result<Addon, String>)
    ensures
        entry.exe_path@.len() == 0 ==> addon_result_view(r) == Err::<AddonV, Seq<char>>("Invalid exe path"@),
        exists|d: Option<Seq<char>>| addon_result_view(r) == addon_spec(entry.view(), d) && (d matches Some(
            dd,
        ) ==> dd.len() < entry.exe_path@.len() && starts_with(entry.exe_path@, dd)),
        crate::paths::simple_parent(entry.exe_path@) matches Some(d) ==> addon_result_view(r) == addon_spec(
            entry.view(),
            Some(d),
        ),
{
    let dir = crate::paths::path_parent(entry.exe_path.as_str());
    let r = addon_from_entry(entry, dir);
    assert(addon_result_view(r) == addon_spec(entry.view(), opt_text_view(dir)));
    r
}

// ---------------------------------------------------------------------------
// Finding an addon
// ---------------------------------------------------------------------------

/// The entry is the addon `name`: its id is `name`, or its manifest's `name`
/// is `name` in any ASCII case.
pub open spec fn names_addon(e: EntryV, name: Seq<char>) -> bool {
    e.id == name || match as_str_spec(json_get(e.metadata, "name"@)) {
        Some(n) => eq_ignore_case(n, name),
        None => false,
    }
}

/// The first entry that is the addon `name`.
pub open spec fn addon_position(es: Seq<EntryV>, name: Seq<char>) -> Option<int>
    decreases es.len(),
{
    if es.len() == 0 {
        None
    } else {
        match addon_position(es.drop_last(), name) {
            Some(i) => Some(i),
            None => if names_addon(es.last(), name) { Some(es.len() - 1) } else { None },
        }
    }
}

proof fn lemma_addon_position_prefix(es: Seq<EntryV>, name: Seq<char>, k: int)
    requires
        0 <= k <= es.len(),
        addon_position(es.take(k), name) is Some,
    ensures
        addon_position(es, name) == addon_position(es.take(k), name),
    decreases es.len() - k,
{
    if k < es.len() {
        assert(es.drop_last().take(k) =~= es.take(k));
        lemma_addon_position_prefix(es.drop_last(), name, k);
    } else {
        assert(es.take(k) =~= es);
    }
}

fn entry_names_addon(e: &RegistryEntry, name: &str) -> (r: bool)
    ensures
        r == names_addon(e.view(), name@),
{
    if str_eq(e.id.as_str(), name) {
        return true;
    }
    match text_of(get_member(&e.metadata, "name")) {
        Some(n) => str_eq_ignore_case(n.as_str(), name),
        None => false,
    }
}

/// The position of the addon `name` among the registry's addons.
pub fn find_addon(addons: &Vec<RegistryEntry>, name: &str) -> (r: Option<usize>)
    ensures
        match r {
            Some(i) => addon_position(entry_views(addons@), name@) == Some(i as int) && i < addons.len(),
            None => addon_position(entry_views(addons@), name@) is None,
        },
{
    let ghost es = entry_views(addons@);
    let n = addons.len();
    let mut i: usize = 0;
    while i < n
        invariant
            n == addons.len(),
            es == entry_views(addons@),
            i <= n,
            addon_position(es.take(i as int), name@) is None,
        decreases n - i,
    {
        assert(es.take(i + 1).drop_last() =~= es.take(i as int));
        assert(es.take(i + 1).last() == addons@[i as int].view());
        if entry_names_addon(&addons[i], name) {
            assert(addon_position(es.take(i + 1), name@) == Some(i as int));
            proof { lemma_addon_position_prefix(es, name@, i as int + 1); }
            return Some(i);
        }
        i += 1;
    }
    assert(es.take(n as int) =~= es);
    None
}

/// The addon an addon command names: its `name` argument, or, where that is
/// not a string, its `addon_name` argument.
pub open spec fn addon_name_of(args: Option<JsonV>) -> Option<Seq<char>> {
    match as_str_spec(opt_get(args, "name"@)) {
        Some(n) => Some(n),
        None => as_str_spec(opt_get(args, "addon_name"@)),
    }
}

/// The `name` argument of an addon command (`addon_name` is accepted too).
pub fn addon_name_arg(args: Option<&Json>) -> (r: Result<String, String>)
    ensures
        match addon_name_of(opt_json_view(args)) {
            Some(n) => (r matches Ok(s) && s@ == n),
            None => (r matches Err(e) && e@ == "Missing addon_name in args"@),
        },
{
    match text_of(get_opt(args, "name")) {
        Some(n) => Ok(n),
        None => match text_of(get_opt(args, "addon_name")) {
            Some(n) => Ok(n),
            None => Err(string_from_str("Missing addon_name in args")),
        },
    }
}

/// The registry entry an addon command targets: the error for a missing
/// name, or for a name no addon has.
pub fn resolve_addon_entry(addons: &Vec<RegistryEntry>, args: Option<&Json>) -> (r: Result<(String, usize), String>)
    ensures
        match addon_name_of(opt_json_view(args)) {
            None => (r matches Err(e) && e@ == "Missing addon_name in args"@),
            Some(n) => match addon_position(entry_views(addons@), n) {
                Some(i) => (r matches Ok(p) && p.0@ == n && p.1 == i && i < addons.len()),
                None => (r matches Err(e) && e@ == "Addon not found: "@ + n),
            },
        },
{
    let name = addon_name_arg(args)?;
    match find_addon(addons, name.as_str()) {
        Some(i) => Ok((name, i)),
        None => Err(join_text("Addon not found: ", name.as_str())),
    }
}

/// `{"status": status, "addon": name}`.
pub open spec fn status_json(status: Seq<char>, name: Seq<char>) -> JsonV {
    JsonV::Object(seq![("status"@, JsonV::Str(status)), ("addon"@, JsonV::Str(name))])
}

pub fn addon_status(status: &str, name: &str) -> (r: Json)
    ensures
        r.view() == status_json(status@, name@),
{
    let mut ms: Vec<(String, Json)> = Vec::new();
    push_member(&mut ms, "status", Json::Str(string_from_str(status)));
    push_member(&mut ms, "addon", Json::Str(string_from_str(name)));
    assert(view_members(ms@) =~= seq![("status"@, JsonV::Str(status@)), ("addon"@, JsonV::Str(name@))]);
    Json::Object(ms)
}

/// A process is the addon's when its executable is the addon's, or its name
/// is the package's `.exe` in any ASCII case.
pub fn process_matches_addon(exe_matches: bool, process_name: &str, package: &str) -> (r: bool)
    ensures
        r == (exe_matches || eq_ignore_case(process_name@, package@ + ".exe"@)),
{
    if exe_matches {
        return true;
    }
    let exe_name = join_text(package, ".exe");
    str_eq_ignore_case(process_name, exe_name.as_str())
}

/// What `stop` answers, given whether any process was stopped.
pub fn stop_outcome(name: &str, stopped: bool) -> (r: Result<Json, String>)
    ensures
        stopped ==> (r matches Ok(j) && j.view() == status_json("stopped"@, name@)),
        !stopped ==> (r matches Err(e) && e@ == "Failed to stop addon: "@ + name@),
{
    if stopped {
        Ok(addon_status("stopped", name))
    } else {
        Err(join_text("Failed to stop addon: ", name))
    }
}

/// The next step of `start`, given whether a process of the addon runs and
/// whether its executable exists: answer that it already runs, answer that
/// the executable is missing, or start it.
pub enum StartStep {
    Answer(Result<Json, String>),
    Spawn,
}

pub open spec fn reply_view(r: Result<Json, String>) -> Result<JsonV, Seq<char>> {
    match r {
        Ok(j) => Ok(j.view()),
        Err(e) => Err(e@),
    }
}

/// Decides how `start` goes on for a resolved addon.
pub fn start_step(name: &str, exe_path: &str, running: bool, exe_exists: bool) -> (r: StartStep)
    ensures
        running ==> (r matches StartStep::Answer(a) && reply_view(a) == Ok::<JsonV, Seq<char>>(
            status_json("already_running"@, name@),
        )),
        !running && !exe_exists ==> (r matches StartStep::Answer(a) && reply_view(a) == Err::<JsonV, Seq<char>>(
            "Addon executable not found: "@ + exe_path@,
        )),
        !running && exe_exists ==> r is Spawn,
{
    if running {
        StartStep::Answer(Ok(addon_status("already_running", name)))
    } else if !exe_exists {
        StartStep::Answer(Err(join_text("Addon executable not found: ", exe_path)))
    } else {
        StartStep::Spawn
    }
}

/// What `start` answers once it tried to spawn the addon: started, or the
/// spawn's error.
pub fn start_outcome(name: &str, spawn_error: Option<String>) -> (r: Result<Json, String>)
    ensures
        match spawn_error {
            None => reply_view(r) == Ok::<JsonV, Seq<char>>(status_json("started"@, name@)),
            Some(e) => reply_view(r) == Err::<JsonV, Seq<char>>("Failed to start addon: "@ + e@),
        },
{
    match spawn_error {
        None => Ok(addon_status("started", name)),
        Some(e) => Err(join_text("Failed to start addon: ", e.as_str())),
    }
}

// ---------------------------------------------------------------------------
// The addon list the tray shows
// ---------------------------------------------------------------------------

/// How the tray reads one listed addon (each field empty when missing, the
/// name `unknown`).
pub open spec fn listed_addon(entry: JsonV) -> AddonV {
    AddonV {
        name: match as_str_spec(opt_get(json_get(entry, "metadata"@), "name"@)) { Some(n) => n, None => "unknown"@ },
        exe_path: match as_str_spec(json_get(entry, "exe_path"@)) { Some(n) => n, None => Seq::empty() },
        dir: match as_str_spec(json_get(entry, "path"@)) { Some(n) => n, None => Seq::empty() },
        package: match as_str_spec(json_get(entry, "id"@)) { Some(n) => n, None => Seq::empty() },
    }
}

pub open spec fn addon_views(v: Seq<Addon>) -> Seq<AddonV> {
    v.map_values(|a: Addon| a.view())
}

fn text_or_empty(o: Option<String>) -> (r: String)
    ensures
        r@ == match opt_text_view(o) { Some(t) => t, None => Seq::empty() },
{
    match o {
        Some(t) => t,
        None => String::new(),
    }
}

/// The addons of a `registry`/`list_addons` reply: none unless the data is
/// an array.
pub fn discover_addons(data: Option<&Json>) -> (r: Vec<Addon>)
    ensures
        match as_array_spec(opt_json_view(data)) {
            Some(items) => addon_views(r@) == items.map_values(|e: JsonV| listed_addon(e)),
            None => r.len() == 0,
        },
{
    let items = match items_of(data) {
        Some(items) => items,
        None => {
            return Vec::new();
        },
    };
    let ghost iv = view_items(items@);
    proof { crate::json::lemma_view_items_len(items@); }
    let mut out: Vec<Addon> = Vec::new();
    for i in 0..items.len()
        invariant
            iv == view_items(items@),
            iv.len() == items.len(),
            addon_views(out@) == iv.take(i as int).map_values(|e: JsonV| listed_addon(e)),
    {
        proof { crate::json::lemma_view_items_index(items@, i as int); }
        let e = &items[i];
        let name = match text_of(get_opt(get_member(e, "metadata"), "name")) {
            Some(n) => n,
            None => string_from_str("unknown"),
        };
        let exe_path = text_or_empty(text_of(get_member(e, "exe_path")));
        let dir = text_or_empty(text_of(get_member(e, "path")));
        let package = text_or_empty(text_of(get_member(e, "id")));
        let a = Addon { name, exe_path, dir, package };
        assert(a.view() == listed_addon(iv[i as int]));
        let ghost before = addon_views(out@);
        let ghost av = a.view();
        out.push(a);
        assert(addon_views(out@) =~= before.push(av));
        assert(iv.take(i + 1) =~= iv.take(i as int).push(iv[i as int]));
        assert(addon_views(out@) =~= iv.take(i + 1).map_values(|e: JsonV| listed_addon(e)));
    }
    assert(iv.take(items.len() as int) =~= iv);
    out
}

} // verus!
