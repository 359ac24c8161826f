//! Request handling: what each IPC namespace and command answers, and what
//! it changes in the backend's state.
use vstd::prelude::*;
use crate::config::{
    ConfigStore, ConfigStoreView, BackendConfig, min_u64, FAST_RATE_MAX_MS, SLOW_RATE_MAX_MS,
    set_fast_pull_rate_ms, set_slow_pull_rate_ms, set_pull_paused, set_refresh_on_request,
    set_ui_data_exception_enabled, current_config, pull_paused, ui_data_exception_enabled,
};
use crate::json::{
    lemma_view_members_len,
    Json, JsonV, JsonNumber, NumberV, view_items, view_members, json_get, opt_get, as_str_spec,
    as_bool_spec, as_u64_spec, as_array_spec, opt_json_view, opt_text_view, get_member, get_opt,
    text_of, bool_of, u64_of, items_of, push_member, push_item, copy_or_null, text_items,
    strings_in, member_get,
};
use crate::registry::{Registry, registry_out, registry_to_output_json, entry_views, metadata_of, metadata_for_category};
use crate::text::{
    clone_string, str_eq, str_eq_ignore_case, eq_ignore_case, lower_seq, string_from_str, join_text,
    chars_of, chars_contains, chars_contains_seq, contains_seq, debug_text, debug_quoted, text_views,
};
use crate::tracking::{
    Section, TrackingState, normalize_spec, normalize_section, section_name, section_name_string,
    normalized_set, set_explicit_tracking_demands, touch_ui_heartbeat,
};

verus! {

/// The backend's mutable state: its configuration and the tracking demands.
pub struct Backend {
    pub config: ConfigStore,
    pub tracking: TrackingState,
}

/// A handled request: the reply, and what the daemon must do besides
/// answering (wake the updater threads, write `config.yaml`).
pub struct Handled {
    pub reply: Result<Json, String>,
    pub wake_updaters: bool,
    pub save_config: bool,
}

pub open spec fn reply_view(r: Result<Json, String>) -> Result<JsonV, Seq<char>> {
    match r {
        Ok(j) => Ok(j.view()),
        Err(e) => Err(e@),
    }
}

/// The tracking demands are the same.
pub open spec fn same_tracking(a: TrackingState, b: TrackingState) -> bool {
    a.explicit.view() == b.explicit.view() && a.last_ui_heartbeat_ms == b.last_ui_heartbeat_ms
}

/// The state is untouched.
pub open spec fn unchanged(a: Backend, b: Backend) -> bool {
    a.config@ == b.config@ && same_tracking(a.tracking, b.tracking)
}

/// A one-member object.
pub open spec fn single(k: Seq<char>, v: JsonV) -> JsonV {
    JsonV::Object(seq![(k, v)])
}

pub open spec fn unsigned(n: u64) -> JsonV {
    JsonV::Number(NumberV::Unsigned(n))
}

fn single_json(k: &str, v: Json) -> (r: Json)
    ensures
        r.view() == single(k@, v.view()),
{
    let mut ms: Vec<(String, Json)> = Vec::new();
    push_member(&mut ms, k, v);
    assert(view_members(ms@) =~= seq![(k@, v.view())]);
    Json::Object(ms)
}

/// The sections a list of names denotes.
pub open spec fn names_set(names: Seq<Seq<char>>) -> Set<Section> {
    Set::new(|s: Section| exists|i: int| 0 <= i < names.len() && normalize_spec(#[trigger] names[i]) == Some(s))
}

proof fn lemma_names_set(v: Seq<String>)
    ensures
        normalized_set(v) == names_set(text_views(v)),
{
    assert forall|s: Section| normalized_set(v).contains(s) == names_set(text_views(v)).contains(s) by {
        if normalized_set(v).contains(s) {
            let i = choose|i: int| 0 <= i < v.len() && normalize_spec(#[trigger] v[i]@) == Some(s);
            assert(text_views(v)[i] == v[i]@);
        }
        if names_set(text_views(v)).contains(s) {
            let i = choose|i: int| 0 <= i < text_views(v).len() && normalize_spec(#[trigger] text_views(v)[i]) == Some(s);
            assert(text_views(v)[i] == v[i]@);
        }
    }
    assert(normalized_set(v) =~= names_set(text_views(v)));
}

// ---------------------------------------------------------------------------
// `backend`
// ---------------------------------------------------------------------------

/// The configuration as `get_config` reports it.
pub open spec fn config_json(c: BackendConfig) -> JsonV {
    JsonV::Object(
        seq![
            ("fast_pull_rate_ms"@, unsigned(c.fast_pull_rate_ms)),
            ("slow_pull_rate_ms"@, unsigned(c.slow_pull_rate_ms)),
            ("data_pull_paused"@, JsonV::Bool(c.data_pull_paused)),
            ("refresh_on_request"@, JsonV::Bool(c.refresh_on_request)),
            ("ui_data_exception_enabled"@, JsonV::Bool(c.ui_data_exception_enabled)),
        ],
    )
}

/// The store after `set_fast_pull_rate`.
pub open spec fn with_fast_rate(v: ConfigStoreView, ms: u64) -> ConfigStoreView {
    ConfigStoreView {
        fast_rate: min_u64(ms, FAST_RATE_MAX_MS),
        persisted: BackendConfig { fast_pull_rate_ms: min_u64(ms, FAST_RATE_MAX_MS), ..v.persisted },
        ..v
    }
}

/// The store after `set_slow_pull_rate`.
pub open spec fn with_slow_rate(v: ConfigStoreView, ms: u64) -> ConfigStoreView {
    ConfigStoreView {
        slow_rate: min_u64(ms, SLOW_RATE_MAX_MS),
        persisted: BackendConfig { slow_pull_rate_ms: min_u64(ms, SLOW_RATE_MAX_MS), ..v.persisted },
        ..v
    }
}

/// The store after `set_pull_paused`.
pub open spec fn with_paused(v: ConfigStoreView, b: bool) -> ConfigStoreView {
    ConfigStoreView { paused: b, persisted: BackendConfig { data_pull_paused: b, ..v.persisted }, ..v }
}

/// The store after `set_refresh_on_request`.
pub open spec fn with_refresh(v: ConfigStoreView, b: bool) -> ConfigStoreView {
    ConfigStoreView { refresh: b, persisted: BackendConfig { refresh_on_request: b, ..v.persisted }, ..v }
}

/// The store after `set_ui_data_exception_enabled`.
pub open spec fn with_ui_exception(v: ConfigStoreView, b: bool) -> ConfigStoreView {
    ConfigStoreView { ui_exception: b, persisted: BackendConfig { ui_data_exception_enabled: b, ..v.persisted }, ..v }
}

/// The commands of the `backend` namespace.
pub enum BackendCommand {
    GetConfig,
    SetFastPullRate,
    SetSlowPullRate,
    SetPullPaused,
    SetRefreshOnRequest,
    SetUiDataExceptionEnabled,
    UiHeartbeat,
    SetTrackingDemands,
}

/// The `backend` command a name denotes.
pub open spec fn backend_command(cmd: Seq<char>) -> Option<BackendCommand> {
    if cmd == "get_config"@ {
        Some(BackendCommand::GetConfig)
    } else if cmd == "set_fast_pull_rate"@ {
        Some(BackendCommand::SetFastPullRate)
    } else if cmd == "set_slow_pull_rate"@ {
        Some(BackendCommand::SetSlowPullRate)
    } else if cmd == "set_pull_paused"@ {
        Some(BackendCommand::SetPullPaused)
    } else if cmd == "set_refresh_on_request"@ {
        Some(BackendCommand::SetRefreshOnRequest)
    } else if cmd == "set_ui_data_exception_enabled"@ {
        Some(BackendCommand::SetUiDataExceptionEnabled)
    } else if cmd == "ui_heartbeat"@ {
        Some(BackendCommand::UiHeartbeat)
    } else if cmd == "set_tracking_demands"@ {
        Some(BackendCommand::SetTrackingDemands)
    } else {
        None
    }
}

/// A reply that only sets one flag or rate: the state changes as `next`
/// says, the reply reports `(key, value)`, and the configuration is saved;
/// without the argument, the error `missing` and nothing changes.
pub open spec fn setting_outcome<T>(
    h: Handled,
    before: Backend,
    after: Backend,
    arg: Option<T>,
    next: ConfigStoreView,
    key: Seq<char>,
    value: JsonV,
    missing: Seq<char>,
) -> bool {
    match arg {
        Some(_) => {
            &&& after.config@ == next
            &&& same_tracking(after.tracking, before.tracking)
            &&& reply_view(h.reply) == Ok::<JsonV, Seq<char>>(single(key, value))
            &&& h.save_config
            &&& !h.wake_updaters
        },
        None => {
            &&& unchanged(after, before)
            &&& reply_view(h.reply) == Err::<JsonV, Seq<char>>(missing)
            &&& !h.save_config
            &&& !h.wake_updaters
        },
    }
}

fn copy_texts_json(v: &Vec<String>) -> (r: Vec<Json>)
    ensures
        view_items(r@) == text_views(v@).map_values(|t: Seq<char>| JsonV::Str(t)),
{
    let mut out: Vec<Json> = Vec::new();
    for i in 0..v.len()
        invariant
            view_items(out@) == text_views(v@.take(i as int)).map_values(|t: Seq<char>| JsonV::Str(t)),
    {
        push_item(&mut out, Json::Str(clone_string(&v[i])));
        assert(view_items(out@) =~= text_views(v@.take(i + 1)).map_values(|t: Seq<char>| JsonV::Str(t)));
    }
    assert(v@.take(v.len() as int) =~= v@);
    out
}

fn config_to_json(c: BackendConfig) -> (r: Json)
    ensures
        r.view() == config_json(c),
{
    let mut ms: Vec<(String, Json)> = Vec::new();
    push_member(&mut ms, "fast_pull_rate_ms", Json::Number(JsonNumber::Unsigned(c.fast_pull_rate_ms)));
    push_member(&mut ms, "slow_pull_rate_ms", Json::Number(JsonNumber::Unsigned(c.slow_pull_rate_ms)));
    push_member(&mut ms, "data_pull_paused", Json::Bool(c.data_pull_paused));
    push_member(&mut ms, "refresh_on_request", Json::Bool(c.refresh_on_request));
    push_member(&mut ms, "ui_data_exception_enabled", Json::Bool(c.ui_data_exception_enabled));
    assert(view_members(ms@) =~= seq![
        ("fast_pull_rate_ms"@, unsigned(c.fast_pull_rate_ms)),
        ("slow_pull_rate_ms"@, unsigned(c.slow_pull_rate_ms)),
        ("data_pull_paused"@, JsonV::Bool(c.data_pull_paused)),
        ("refresh_on_request"@, JsonV::Bool(c.refresh_on_request)),
        ("ui_data_exception_enabled"@, JsonV::Bool(c.ui_data_exception_enabled)),
    ]);
    Json::Object(ms)
}

fn missing(msg: &str) -> (h: Handled)
    ensures
        reply_view(h.reply) == Err::<JsonV, Seq<char>>(msg@),
        !h.wake_updaters,
        !h.save_config,
{
    Handled { reply: Err(string_from_str(msg)), wake_updaters: false, save_config: false }
}

fn saved(k: &str, v: Json) -> (h: Handled)
    ensures
        reply_view(h.reply) == Ok::<JsonV, Seq<char>>(single(k@, v.view())),
        !h.wake_updaters,
        h.save_config,
{
    Handled { reply: Ok(single_json(k, v)), wake_updaters: false, save_config: true }
}

/// The `backend` namespace: configuration reads and writes, the UI
/// heartbeat and explicit tracking demands.
pub fn dispatch_backend(backend: &mut Backend, cmd: &str, args: Option<&Json>, now_ms: u64) -> (h: Handled)
    ensures
        match backend_command(cmd@) {
            Some(BackendCommand::GetConfig) => {
                &&& unchanged(*final(backend), *old(backend))
                &&& reply_view(h.reply) == Ok::<JsonV, Seq<char>>(config_json(old(backend).config@.persisted))
                &&& !h.wake_updaters && !h.save_config
            },
            Some(BackendCommand::SetFastPullRate) => {
                let a = as_u64_spec(opt_get(opt_json_view(args), "rate_ms"@));
                setting_outcome(h, *old(backend), *final(backend), a,
                    with_fast_rate(old(backend).config@, a->0), "fast_pull_rate_ms"@,
                    unsigned(min_u64(a->0, FAST_RATE_MAX_MS)), "Missing 'rate_ms' in args"@)
            },
            Some(BackendCommand::SetSlowPullRate) => {
                let a = as_u64_spec(opt_get(opt_json_view(args), "rate_ms"@));
                setting_outcome(h, *old(backend), *final(backend), a,
                    with_slow_rate(old(backend).config@, a->0), "slow_pull_rate_ms"@,
                    unsigned(min_u64(a->0, SLOW_RATE_MAX_MS)), "Missing 'rate_ms' in args"@)
            },
            Some(BackendCommand::SetPullPaused) => {
                let a = as_bool_spec(opt_get(opt_json_view(args), "paused"@));
                setting_outcome(h, *old(backend), *final(backend), a,
                    with_paused(old(backend).config@, a->0), "data_pull_paused"@,
                    JsonV::Bool(a->0), "Missing 'paused' in args"@)
            },
            Some(BackendCommand::SetRefreshOnRequest) => {
                let a = as_bool_spec(opt_get(opt_json_view(args), "enabled"@));
                setting_outcome(h, *old(backend), *final(backend), a,
                    with_refresh(old(backend).config@, a->0), "refresh_on_request"@,
                    JsonV::Bool(a->0), "Missing 'enabled' in args"@)
            },
            Some(BackendCommand::SetUiDataExceptionEnabled) => {
                let a = as_bool_spec(opt_get(opt_json_view(args), "enabled"@));
                setting_outcome(h, *old(backend), *final(backend), a,
                    with_ui_exception(old(backend).config@, a->0), "ui_data_exception_enabled"@,
                    JsonV::Bool(a->0), "Missing 'enabled' in args"@)
            },
            Some(BackendCommand::UiHeartbeat) => {
                &&& final(backend).config@ == old(backend).config@
                &&& final(backend).tracking.explicit.view() == old(backend).tracking.explicit.view()
                &&& final(backend).tracking.last_ui_heartbeat_ms == now_ms
                &&& reply_view(h.reply) == Ok::<JsonV, Seq<char>>(single("ok"@, JsonV::Bool(true)))
                &&& h.wake_updaters && !h.save_config
            },
            Some(BackendCommand::SetTrackingDemands) => match as_array_spec(opt_get(opt_json_view(args), "sections"@)) {
                Some(items) => {
                    let names = text_items(items);
                    &&& final(backend).config@ == old(backend).config@
                    &&& final(backend).tracking.explicit.view() == names_set(names)
                    &&& final(backend).tracking.last_ui_heartbeat_ms == old(backend).tracking.last_ui_heartbeat_ms
                    &&& reply_view(h.reply) == Ok::<JsonV, Seq<char>>(single("sections"@, JsonV::Array(
                        names.map_values(|t: Seq<char>| JsonV::Str(t)),
                    )))
                    &&& h.wake_updaters == (old(backend).tracking.explicit.view() != names_set(names))
                    &&& !h.save_config
                },
                None => {
                    &&& unchanged(*final(backend), *old(backend))
                    &&& reply_view(h.reply) == Err::<JsonV, Seq<char>>("Missing 'sections' in args"@)
                    &&& !h.wake_updaters && !h.save_config
                },
            },
            None => {
                &&& unchanged(*final(backend), *old(backend))
                &&& reply_view(h.reply) == Err::<JsonV, Seq<char>>("Unknown backend command: "@ + cmd@)
                &&& !h.wake_updaters && !h.save_config
            },
        },
{
    if str_eq(cmd, "get_config") {
        let cfg = current_config(&backend.config);
        return Handled { reply: Ok(config_to_json(cfg)), wake_updaters: false, save_config: false };
    }
    if str_eq(cmd, "set_fast_pull_rate") {
        return match u64_of(get_opt(args, "rate_ms")) {
            Some(ms) => {
                let r = set_fast_pull_rate_ms(&mut backend.config, ms);
                assert(backend.config@ == with_fast_rate(old(backend).config@, ms));
                saved("fast_pull_rate_ms", Json::Number(JsonNumber::Unsigned(r)))
            },
            None => missing("Missing 'rate_ms' in args"),
        };
    }
    if str_eq(cmd, "set_slow_pull_rate") {
        return match u64_of(get_opt(args, "rate_ms")) {
            Some(ms) => {
                let r = set_slow_pull_rate_ms(&mut backend.config, ms);
                assert(backend.config@ == with_slow_rate(old(backend).config@, ms));
                saved("slow_pull_rate_ms", Json::Number(JsonNumber::Unsigned(r)))
            },
            None => missing("Missing 'rate_ms' in args"),
        };
    }
    if str_eq(cmd, "set_pull_paused") {
        return match bool_of(get_opt(args, "paused")) {
            Some(b) => {
                set_pull_paused(&mut backend.config, b);
                assert(backend.config@ == with_paused(old(backend).config@, b));
                saved("data_pull_paused", Json::Bool(pull_paused(&backend.config)))
            },
            None => missing("Missing 'paused' in args"),
        };
    }
    if str_eq(cmd, "set_refresh_on_request") {
        return match bool_of(get_opt(args, "enabled")) {
            Some(b) => {
                set_refresh_on_request(&mut backend.config, b);
                assert(backend.config@ == with_refresh(old(backend).config@, b));
                saved("refresh_on_request", Json::Bool(crate::config::refresh_on_request(&backend.config)))
            },
            None => missing("Missing 'enabled' in args"),
        };
    }
    if str_eq(cmd, "set_ui_data_exception_enabled") {
        return match bool_of(get_opt(args, "enabled")) {
            Some(b) => {
                set_ui_data_exception_enabled(&mut backend.config, b);
                assert(backend.config@ == with_ui_exception(old(backend).config@, b));
                saved("ui_data_exception_enabled", Json::Bool(ui_data_exception_enabled(&backend.config)))
            },
            None => missing("Missing 'enabled' in args"),
        };
    }
    if str_eq(cmd, "ui_heartbeat") {
        touch_ui_heartbeat(&mut backend.tracking, now_ms);
        return Handled { reply: Ok(single_json("ok", Json::Bool(true))), wake_updaters: true, save_config: false };
    }
    if str_eq(cmd, "set_tracking_demands") {
        return match items_of(get_opt(args, "sections")) {
            Some(items) => {
                let names = strings_in(items);
                proof { lemma_names_set(names@); }
                let changed = set_explicit_tracking_demands(&mut backend.tracking, &names);
                let arr = copy_texts_json(&names);
                Handled { reply: Ok(single_json("sections", Json::Array(arr))), wake_updaters: changed, save_config: false }
            },
            None => missing("Missing 'sections' in args"),
        };
    }
    Handled { reply: Err(join_text("Unknown backend command: ", cmd)), wake_updaters: false, save_config: false }
}

// ---------------------------------------------------------------------------
// `tracking`
// ---------------------------------------------------------------------------

/// The section names in `args.sections` (none when it is not an array).
pub open spec fn section_names_arg(args: Option<JsonV>) -> Seq<Seq<char>> {
    match as_array_spec(opt_get(args, "sections"@)) {
        Some(items) => text_items(items),
        None => Seq::empty(),
    }
}

/// The `tracking` namespace: `set_demands` replaces the explicit demands.
pub fn dispatch_tracking(backend: &mut Backend, cmd: &str, args: Option<&Json>) -> (h: Handled)
    ensures
        cmd@ == "set_demands"@ ==> {
            let names = section_names_arg(opt_json_view(args));
            &&& final(backend).config@ == old(backend).config@
            &&& final(backend).tracking.explicit.view() == names_set(names)
            &&& final(backend).tracking.last_ui_heartbeat_ms == old(backend).tracking.last_ui_heartbeat_ms
            &&& reply_view(h.reply) == Ok::<JsonV, Seq<char>>(single("ok"@, JsonV::Bool(true)))
            &&& h.wake_updaters == (old(backend).tracking.explicit.view() != names_set(names))
            &&& !h.save_config
        },
        cmd@ != "set_demands"@ ==> {
            &&& unchanged(*final(backend), *old(backend))
            &&& reply_view(h.reply) == Err::<JsonV, Seq<char>>("Unknown tracking command: "@ + cmd@)
            &&& !h.wake_updaters && !h.save_config
        },
{
    if str_eq(cmd, "set_demands") {
        let names = match items_of(get_opt(args, "sections")) {
            Some(items) => strings_in(items),
            None => Vec::new(),
        };
        assert(text_views(names@) =~= section_names_arg(opt_json_view(args)));
        proof { lemma_names_set(names@); }
        let changed = set_explicit_tracking_demands(&mut backend.tracking, &names);
        return Handled { reply: Ok(single_json("ok", Json::Bool(true))), wake_updaters: changed, save_config: false };
    }
    Handled { reply: Err(join_text("Unknown tracking command: ", cmd)), wake_updaters: false, save_config: false }
}

// ---------------------------------------------------------------------------
// `registry`
// ---------------------------------------------------------------------------

/// The sections a snapshot may name: the trackable sections and `media`.
pub open spec fn snapshot_name(name: Seq<char>) -> Option<Seq<char>> {
    if lower_seq(name) == "media"@ {
        Some("media"@)
    } else {
        match normalize_spec(name) {
            Some(s) => Some(section_name(s)),
            None => None,
        }
    }
}

fn snapshot_section(name: &str) -> (r: Option<String>)
    ensures
        opt_text_view(r) == snapshot_name(name@),
{
    let n = chars_of(name);
    let lowered = crate::text::lower_chars(&n);
    let media = chars_of("media");
    if crate::text::chars_eq(&lowered, &media) {
        return Some(string_from_str("media"));
    }
    match normalize_section(name) {
        Some(sec) => Some(section_name_string(sec)),
        None => None,
    }
}

/// The position of the first member named `key`.
pub open spec fn member_index(ms: Seq<(Seq<char>, JsonV)>, key: Seq<char>) -> Option<int>
    decreases ms.len(),
{
    if ms.len() == 0 {
        None
    } else {
        match member_index(ms.drop_last(), key) {
            Some(i) => Some(i),
            None => if ms.last().0 == key { Some(ms.len() - 1) } else { None },
        }
    }
}

/// `Map::insert`: the member's value is replaced, or the member is added.
pub open spec fn member_insert(ms: Seq<(Seq<char>, JsonV)>, key: Seq<char>, v: JsonV) -> Seq<(Seq<char>, JsonV)> {
    match member_index(ms, key) {
        Some(i) => ms.update(i, (key, v)),
        None => ms.push((key, v)),
    }
}

/// The requested sysdata sections, each with its value when the snapshot has one.
pub open spec fn snapshot_members(names: Seq<Seq<char>>, sys: Option<JsonV>) -> Seq<(Seq<char>, JsonV)>
    decreases names.len(),
{
    if names.len() == 0 {
        Seq::empty()
    } else {
        let rest = snapshot_members(names.drop_last(), sys);
        match snapshot_name(names.last()) {
            Some(n) => if n == "appdata"@ {
                rest
            } else {
                match opt_get(sys, n) {
                    Some(v) => member_insert(rest, n, v),
                    None => rest,
                }
            },
            None => rest,
        }
    }
}

/// Some requested name denotes `appdata`.
pub open spec fn wants_appdata(names: Seq<Seq<char>>) -> bool {
    exists|i: int| 0 <= i < names.len() && snapshot_name(#[trigger] names[i]) == Some("appdata"@)
}

pub open spec fn or_null(o: Option<JsonV>) -> JsonV {
    match o {
        Some(v) => v,
        None => JsonV::Null,
    }
}

/// A snapshot: with no sections, all sysdata and appdata; otherwise only the
/// named sysdata sections, and appdata only when it is named.
pub open spec fn snapshot_spec(out: JsonV, names: Seq<Seq<char>>) -> JsonV {
    if names.len() == 0 {
        JsonV::Object(seq![("sysdata"@, or_null(json_get(out, "sysdata"@))), ("appdata"@, or_null(json_get(out, "appdata"@)))])
    } else {
        JsonV::Object(seq![
            ("sysdata"@, JsonV::Object(snapshot_members(names, json_get(out, "sysdata"@)))),
            ("appdata"@, if wants_appdata(names) { or_null(json_get(out, "appdata"@)) } else { JsonV::Null }),
        ])
    }
}

/// The position of the first member named `key`.
pub fn find_member(ms: &Vec<(String, Json)>, key: &str) -> (r: Option<usize>)
    ensures
        match r {
            Some(i) => member_index(view_members(ms@), key@) == Some(i as int) && i < ms.len(),
            None => member_index(view_members(ms@), key@) is None,
        },
{
    let ghost vm = view_members(ms@);
    let mut i: usize = 0;
    while i < ms.len()
        invariant
            i <= ms.len(),
            vm == view_members(ms@),
            member_index(view_members(ms@.take(i as int)), key@) is None,
        decreases ms.len() - i,
    {
        assert(ms@.take(i + 1).drop_last() =~= ms@.take(i as int));
        assert(ms@.take(i + 1).last() == ms@[i as int]);
        assert(view_members(ms@.take(i + 1)).drop_last() =~= view_members(ms@.take(i as int)));
        if str_eq(ms[i].0.as_str(), key) {
            proof { lemma_view_members_len(ms@.take(i + 1)); }
            assert(member_index(view_members(ms@.take(i + 1)), key@) == Some(i as int));
            proof { lemma_member_index_prefix(ms@, key@, i as int + 1); }
            return Some(i);
        }
        i += 1;
    }
    assert(ms@.take(ms.len() as int) =~= ms@);
    None
}

proof fn lemma_member_index_prefix(ms: Seq<(String, Json)>, key: Seq<char>, k: int)
    requires
        0 <= k <= ms.len(),
        member_index(view_members(ms.take(k)), key) is Some,
    ensures
        member_index(view_members(ms), key) == member_index(view_members(ms.take(k)), key),
    decreases ms.len() - k,
{
    if k < ms.len() {
        assert(ms.drop_last().take(k) =~= ms.take(k));
        assert(view_members(ms).drop_last() =~= view_members(ms.drop_last()));
        lemma_member_index_prefix(ms.drop_last(), key, k);
    } else {
        assert(ms.take(k) =~= ms);
    }
}

proof fn lemma_view_members_update(ms: Seq<(String, Json)>, i: int, p: (String, Json))
    requires
        0 <= i < ms.len(),
    ensures
        view_members(ms.update(i, p)) == view_members(ms).update(i, (p.0@, p.1.view())),
    decreases ms.len(),
{
    lemma_view_members_len(ms);
    lemma_view_members_len(ms.update(i, p));
    if i < ms.len() - 1 {
        assert(ms.update(i, p).drop_last() =~= ms.drop_last().update(i, p));
        lemma_view_members_update(ms.drop_last(), i, p);
        assert(view_members(ms.update(i, p)) =~= view_members(ms).update(i, (p.0@, p.1.view())));
    } else {
        assert(ms.update(i, p).drop_last() =~= ms.drop_last());
        assert(view_members(ms.update(i, p)) =~= view_members(ms).update(i, (p.0@, p.1.view())));
    }
}

pub fn insert_member(ms: &mut Vec<(String, Json)>, key: String, v: Json)
    ensures
        view_members(final(ms)@) == member_insert(view_members(old(ms)@), key@, v.view()),
{
    let ghost kv = key@;
    let ghost vv = v.view();
    match find_member(ms, key.as_str()) {
        Some(i) => {
            let ghost before = ms@;
            ms.set(i, (key, v));
            proof { lemma_view_members_update(before, i as int, ms@[i as int]); }
            assert(ms@ =~= before.update(i as int, ms@[i as int]));
        },
        None => {
            let ghost before = ms@;
            ms.push((key, v));
            assert(ms@.drop_last() =~= before);
        },
    }
}

/// The part of the registry document a snapshot asks for.
pub fn filter_snapshot_by_sections(output: &Json, sections: &Vec<String>) -> (r: Json)
    ensures
        r.view() == snapshot_spec(output.view(), text_views(sections@)),
{
    let ghost names = text_views(sections@);
    let mut ms: Vec<(String, Json)> = Vec::new();
    if sections.len() == 0 {
        push_member(&mut ms, "sysdata", copy_or_null(get_member(output, "sysdata")));
        push_member(&mut ms, "appdata", copy_or_null(get_member(output, "appdata")));
        assert(view_members(ms@) =~= seq![
            ("sysdata"@, or_null(json_get(output.view(), "sysdata"@))),
            ("appdata"@, or_null(json_get(output.view(), "appdata"@))),
        ]);
        return Json::Object(ms);
    }
    let sys = get_member(output, "sysdata");
    let mut sys_members: Vec<(String, Json)> = Vec::new();
    let mut include_appdata = false;
    for i in 0..sections.len()
        invariant
            names == text_views(sections@),
            opt_json_view(sys) == json_get(output.view(), "sysdata"@),
            view_members(sys_members@) == snapshot_members(names.take(i as int), opt_json_view(sys)),
            include_appdata == wants_appdata(names.take(i as int)),
    {
        assert(names.take(i + 1).drop_last() =~= names.take(i as int));
        assert(names.take(i + 1).last() == sections@[i as int]@);
        match snapshot_section(sections[i].as_str()) {
            Some(n) => {
                if str_eq(n.as_str(), "appdata") {
                    include_appdata = true;
                } else {
                    match get_opt(sys, n.as_str()) {
                        Some(src) => {
                            let v = src.duplicate();
                            insert_member(&mut sys_members, n, v);
                        },
                        None => {},
                    }
                }
            },
            None => {},
        }
        proof {
            let t = names.take(i + 1);
            if wants_appdata(t) {
                let k = choose|k: int| 0 <= k < t.len() && snapshot_name(#[trigger] t[k]) == Some("appdata"@);
                if k < i {
                    assert(names.take(i as int)[k] == t[k]);
                }
            }
            if wants_appdata(names.take(i as int)) {
                let k = choose|k: int| 0 <= k < i && snapshot_name(#[trigger] names.take(i as int)[k]) == Some("appdata"@);
                assert(t[k] == names.take(i as int)[k]);
            }
        }
    }
    assert(names.take(sections.len() as int) =~= names);
    let ghost sysv = view_members(sys_members@);
    push_member(&mut ms, "sysdata", Json::Object(sys_members));
    let appdata = if include_appdata { copy_or_null(get_member(output, "appdata")) } else { Json::Null };
    push_member(&mut ms, "appdata", appdata);
    assert(view_members(ms@) =~= seq![
        ("sysdata"@, JsonV::Object(sysv)),
        ("appdata"@, if wants_appdata(names) { or_null(json_get(output.view(), "appdata"@)) } else { JsonV::Null }),
    ]);
    Json::Object(ms)
}

/// The commands of the `registry` namespace.
pub enum RegistryCommand {
    ListAddons,
    ListAssets,
    ListSysdata,
    ListAppdata,
    Snapshot,
    Full,
}

/// The `registry` command a name denotes (`get_data` is `snapshot`).
pub open spec fn registry_command(cmd: Seq<char>) -> Option<RegistryCommand> {
    if cmd == "snapshot"@ || cmd == "get_data"@ {
        Some(RegistryCommand::Snapshot)
    } else if cmd == "list_addons"@ {
        Some(RegistryCommand::ListAddons)
    } else if cmd == "list_assets"@ {
        Some(RegistryCommand::ListAssets)
    } else if cmd == "list_sysdata"@ {
        Some(RegistryCommand::ListSysdata)
    } else if cmd == "list_appdata"@ {
        Some(RegistryCommand::ListAppdata)
    } else if cmd == "full"@ {
        Some(RegistryCommand::Full)
    } else {
        None
    }
}

/// `args.sections` when it is an array: its strings.
pub open spec fn sections_arg(args: Option<JsonV>) -> Option<Seq<Seq<char>>> {
    match as_array_spec(opt_get(args, "sections"@)) {
        Some(items) => Some(text_items(items)),
        None => None,
    }
}

/// The registry document as the registry namespace sees it, after the
/// request's demands were taken.
pub open spec fn registry_view_out(reg: Registry, t: TrackingState, c: ConfigStoreView, now_ms: u64) -> JsonV {
    registry_out(
        entry_views(reg.addons@),
        entry_views(reg.assets@),
        entry_views(reg.sysdata@),
        entry_views(reg.appdata@),
        t,
        c.paused,
        c.ui_exception,
        now_ms,
    )
}

/// The `registry` namespace.  A snapshot that names sections also makes
/// them the explicit demands; every command reads the registry document.
pub fn dispatch_registry(backend: &mut Backend, reg: &Registry, cmd: &str, args: Option<&Json>, now_ms: u64) -> (h: Handled)
    ensures
        final(backend).config@ == old(backend).config@,
        final(backend).tracking.last_ui_heartbeat_ms == old(backend).tracking.last_ui_heartbeat_ms,
        !h.save_config,
        ({
            let demanded = registry_command(cmd@) == Some(RegistryCommand::Snapshot) && sections_arg(opt_json_view(args)) is Some;
            let names = match sections_arg(opt_json_view(args)) { Some(n) => n, None => Seq::empty() };
            &&& demanded ==> final(backend).tracking.explicit.view() == names_set(names)
            &&& !demanded ==> final(backend).tracking.explicit.view() == old(backend).tracking.explicit.view()
            &&& h.wake_updaters == (demanded && old(backend).tracking.explicit.view() != names_set(names))
        }),
        ({
            let out = registry_view_out(*reg, final(backend).tracking, old(backend).config@, now_ms);
            let names = match sections_arg(opt_json_view(args)) { Some(n) => n, None => Seq::empty() };
            reply_view(h.reply) == match registry_command(cmd@) {
                Some(RegistryCommand::ListAddons) => Ok::<JsonV, Seq<char>>(or_null(json_get(out, "addons"@))),
                Some(RegistryCommand::ListAssets) => Ok(or_null(json_get(out, "assets"@))),
                Some(RegistryCommand::ListSysdata) => Ok(or_null(json_get(out, "sysdata"@))),
                Some(RegistryCommand::ListAppdata) => Ok(or_null(json_get(out, "appdata"@))),
                Some(RegistryCommand::Snapshot) => Ok(snapshot_spec(out, names)),
                Some(RegistryCommand::Full) => Ok(out),
                None => Err("Unknown registry command: "@ + cmd@),
            }
        }),
{
    let sections: Option<Vec<String>> = match items_of(get_opt(args, "sections")) {
        Some(items) => Some(strings_in(items)),
        None => None,
    };
    let is_snapshot = str_eq(cmd, "snapshot") || str_eq(cmd, "get_data");
    let mut wake = false;
    if is_snapshot {
        match &sections {
            Some(names) => {
                proof { lemma_names_set(names@); }
                wake = set_explicit_tracking_demands(&mut backend.tracking, names);
            },
            None => {},
        }
    }
    let paused = pull_paused(&backend.config);
    let ui = ui_data_exception_enabled(&backend.config);
    let output = registry_to_output_json(reg, &backend.tracking, paused, ui, now_ms);
    let reply = if is_snapshot {
        let names = match sections {
            Some(n) => n,
            None => Vec::new(),
        };
        Ok(filter_snapshot_by_sections(&output, &names))
    } else if str_eq(cmd, "list_addons") {
        Ok(copy_or_null(get_member(&output, "addons")))
    } else if str_eq(cmd, "list_assets") {
        Ok(copy_or_null(get_member(&output, "assets")))
    } else if str_eq(cmd, "list_sysdata") {
        Ok(copy_or_null(get_member(&output, "sysdata")))
    } else if str_eq(cmd, "list_appdata") {
        Ok(copy_or_null(get_member(&output, "appdata")))
    } else if str_eq(cmd, "full") {
        Ok(output)
    } else {
        Err(join_text("Unknown registry command: ", cmd))
    };
    Handled { reply, wake_updaters: wake, save_config: false }
}

// ---------------------------------------------------------------------------
// `sysdata`
// ---------------------------------------------------------------------------

/// What a `sysdata` command reads.
#[derive(Debug)]
pub enum SysdataQuery {
    /// The monitors, enumerated live.
    Displays,
    /// The clock, read live.
    Time,
    /// The CPU and GPU temperatures from the registry.
    Temperatures,
    /// The registry metadata of one category.
    Category(String),
    /// The media session the audio reading holds.
    Media,
    /// The metadata of one application-data category (tray icons,
    /// notifications).
    AppCategory(String),
}

pub enum SysdataQueryV {
    Displays,
    Time,
    Temperatures,
    Category(Seq<char>),
    Media,
    AppCategory(Seq<char>),
}

impl SysdataQuery {
    pub open spec fn view(&self) -> SysdataQueryV {
        match self {
            SysdataQuery::Displays => SysdataQueryV::Displays,
            SysdataQuery::Time => SysdataQueryV::Time,
            SysdataQuery::Temperatures => SysdataQueryV::Temperatures,
            SysdataQuery::Category(c) => SysdataQueryV::Category(c@),
            SysdataQuery::Media => SysdataQueryV::Media,
            SysdataQuery::AppCategory(c) => SysdataQueryV::AppCategory(c@),
        }
    }
}

/// What a `sysdata` command name reads.
pub open spec fn sysdata_spec(cmd: Seq<char>) -> Option<SysdataQueryV> {
    if cmd == "get_displays"@ {
        Some(SysdataQueryV::Displays)
    } else if cmd == "get_temp"@ {
        Some(SysdataQueryV::Temperatures)
    } else if cmd == "get_cpu"@ {
        Some(SysdataQueryV::Category("cpu"@))
    } else if cmd == "get_gpu"@ {
        Some(SysdataQueryV::Category("gpu"@))
    } else if cmd == "get_ram"@ {
        Some(SysdataQueryV::Category("ram"@))
    } else if cmd == "get_storage"@ {
        Some(SysdataQueryV::Category("storage"@))
    } else if cmd == "get_network"@ {
        Some(SysdataQueryV::Category("network"@))
    } else if cmd == "get_audio"@ {
        Some(SysdataQueryV::Category("audio"@))
    } else if cmd == "get_time"@ {
        Some(SysdataQueryV::Time)
    } else if cmd == "get_keyboard"@ {
        Some(SysdataQueryV::Category("keyboard"@))
    } else if cmd == "get_mouse"@ {
        Some(SysdataQueryV::Category("mouse"@))
    } else if cmd == "get_power"@ {
        Some(SysdataQueryV::Category("power"@))
    } else if cmd == "get_media"@ {
        Some(SysdataQueryV::Media)
    } else if cmd == "get_bluetooth"@ {
        Some(SysdataQueryV::Category("bluetooth"@))
    } else if cmd == "get_wifi"@ {
        Some(SysdataQueryV::Category("wifi"@))
    } else if cmd == "get_system"@ {
        Some(SysdataQueryV::Category("system"@))
    } else if cmd == "get_processes"@ {
        Some(SysdataQueryV::Category("processes"@))
    } else if cmd == "get_idle"@ {
        Some(SysdataQueryV::Category("idle"@))
    } else if cmd == "get_tray_icons"@ {
        Some(SysdataQueryV::AppCategory("tray_icons"@))
    } else if cmd == "get_notifications"@ {
        Some(SysdataQueryV::AppCategory("notifications"@))
    } else {
        None
    }
}

/// What a `sysdata` command reads, or the error for an unknown command.
pub fn sysdata_query(cmd: &str) -> (r: Result<SysdataQuery, String>)
    ensures
        match r {
            Ok(q) => sysdata_spec(cmd@) == Some(q.view()),
            Err(e) => sysdata_spec(cmd@) is None && e@ == "Unknown sysdata command: "@ + cmd@,
        },
{
    if str_eq(cmd, "get_displays") {
        Ok(SysdataQuery::Displays)
    } else if str_eq(cmd, "get_temp") {
        Ok(SysdataQuery::Temperatures)
    } else if str_eq(cmd, "get_cpu") {
        Ok(SysdataQuery::Category(string_from_str("cpu")))
    } else if str_eq(cmd, "get_gpu") {
        Ok(SysdataQuery::Category(string_from_str("gpu")))
    } else if str_eq(cmd, "get_ram") {
        Ok(SysdataQuery::Category(string_from_str("ram")))
    } else if str_eq(cmd, "get_storage") {
        Ok(SysdataQuery::Category(string_from_str("storage")))
    } else if str_eq(cmd, "get_network") {
        Ok(SysdataQuery::Category(string_from_str("network")))
    } else if str_eq(cmd, "get_audio") {
        Ok(SysdataQuery::Category(string_from_str("audio")))
    } else if str_eq(cmd, "get_time") {
        Ok(SysdataQuery::Time)
    } else if str_eq(cmd, "get_keyboard") {
        Ok(SysdataQuery::Category(string_from_str("keyboard")))
    } else if str_eq(cmd, "get_mouse") {
        Ok(SysdataQuery::Category(string_from_str("mouse")))
    } else if str_eq(cmd, "get_power") {
        Ok(SysdataQuery::Category(string_from_str("power")))
    } else if str_eq(cmd, "get_media") {
        Ok(SysdataQuery::Media)
    } else if str_eq(cmd, "get_bluetooth") {
        Ok(SysdataQuery::Category(string_from_str("bluetooth")))
    } else if str_eq(cmd, "get_wifi") {
        Ok(SysdataQuery::Category(string_from_str("wifi")))
    } else if str_eq(cmd, "get_system") {
        Ok(SysdataQuery::Category(string_from_str("system")))
    } else if str_eq(cmd, "get_processes") {
        Ok(SysdataQuery::Category(string_from_str("processes")))
    } else if str_eq(cmd, "get_idle") {
        Ok(SysdataQuery::Category(string_from_str("idle")))
    } else if str_eq(cmd, "get_tray_icons") {
        Ok(SysdataQuery::AppCategory(string_from_str("tray_icons")))
    } else if str_eq(cmd, "get_notifications") {
        Ok(SysdataQuery::AppCategory(string_from_str("notifications")))
    } else {
        Err(join_text("Unknown sysdata command: ", cmd))
    }
}

/// The CPU and GPU temperatures as `get_temp` reports them.
pub open spec fn temperatures(sys: Seq<crate::registry::EntryV>) -> JsonV {
    JsonV::Object(seq![
        ("cpu"@, or_null(json_get(metadata_of(sys, "cpu"@), "temperature"@))),
        ("gpu"@, or_null(json_get(metadata_of(sys, "gpu"@), "temperature"@))),
    ])
}

/// The answer to a `sysdata` query that the registry holds; `None` for the
/// live queries (displays, time).  The media session is the one the audio
/// reading holds; tray icons and notifications are application data.
pub fn answer_sysdata(reg: &Registry, q: &SysdataQuery) -> (r: Option<Json>)
    ensures
        match q {
            SysdataQuery::Displays => r is None,
            SysdataQuery::Time => r is None,
            SysdataQuery::Temperatures => (r matches Some(j) && j.view() == temperatures(entry_views(reg.sysdata@))),
            SysdataQuery::Category(c) => (r matches Some(j) && j.view() == metadata_of(entry_views(reg.sysdata@), c@)),
            SysdataQuery::Media => (r matches Some(j) && j.view() == or_null(
                json_get(metadata_of(entry_views(reg.sysdata@), "audio"@), "media_session"@),
            )),
            SysdataQuery::AppCategory(c) => (r matches Some(j) && j.view() == metadata_of(entry_views(reg.appdata@), c@)),
        },
{
    match q {
        SysdataQuery::Displays => None,
        SysdataQuery::Time => None,
        SysdataQuery::Temperatures => {
            let cpu = metadata_for_category(&reg.sysdata, "cpu");
            let gpu = metadata_for_category(&reg.sysdata, "gpu");
            let mut ms: Vec<(String, Json)> = Vec::new();
            push_member(&mut ms, "cpu", copy_or_null(get_member(&cpu, "temperature")));
            push_member(&mut ms, "gpu", copy_or_null(get_member(&gpu, "temperature")));
            assert(view_members(ms@) =~= seq![
                ("cpu"@, or_null(json_get(metadata_of(entry_views(reg.sysdata@), "cpu"@), "temperature"@))),
                ("gpu"@, or_null(json_get(metadata_of(entry_views(reg.sysdata@), "gpu"@), "temperature"@))),
            ]);
            Some(Json::Object(ms))
        },
        SysdataQuery::Category(c) => Some(metadata_for_category(&reg.sysdata, c.as_str())),
        SysdataQuery::Media => {
            let audio = metadata_for_category(&reg.sysdata, "audio");
            Some(copy_or_null(get_member(&audio, "media_session")))
        },
        SysdataQuery::AppCategory(c) => Some(metadata_for_category(&reg.appdata, c.as_str())),
    }
}

// ---------------------------------------------------------------------------
// Namespaces, `control`, replies
// ---------------------------------------------------------------------------

/// The IPC namespaces.
#[derive(Debug)]
pub enum Namespace {
    Registry,
    Sysdata,
    Addon,
    Backend,
    Tracking,
}

pub open spec fn namespace_spec(ns: Seq<char>) -> Option<Namespace> {
    if ns == "registry"@ {
        Some(Namespace::Registry)
    } else if ns == "sysdata"@ {
        Some(Namespace::Sysdata)
    } else if ns == "addon"@ {
        Some(Namespace::Addon)
    } else if ns == "backend"@ {
        Some(Namespace::Backend)
    } else if ns == "tracking"@ {
        Some(Namespace::Tracking)
    } else {
        None
    }
}

/// The namespace a request names, or the error for an unknown one.
pub fn namespace_of(ns: &str) -> (r: Result<Namespace, String>)
    ensures
        match namespace_spec(ns@) {
            Some(n) => r == Ok::<Namespace, String>(n),
            None => (r matches Err(e) && e@ == "Unknown namespace: "@ + ns@),
        },
{
    if str_eq(ns, "registry") {
        Ok(Namespace::Registry)
    } else if str_eq(ns, "sysdata") {
        Ok(Namespace::Sysdata)
    } else if str_eq(ns, "addon") {
        Ok(Namespace::Addon)
    } else if str_eq(ns, "backend") {
        Ok(Namespace::Backend)
    } else if str_eq(ns, "tracking") {
        Ok(Namespace::Tracking)
    } else {
        Err(join_text("Unknown namespace: ", ns))
    }
}

/// A log file name is accepted when it is not empty and holds no `/`, no
/// `\` and no `..`.
pub open spec fn valid_log_name(name: Seq<char>) -> bool {
    name.len() > 0 && !name.contains('/') && !name.contains('\\') && !contains_seq(name, ".."@)
}

/// The file name and text a `control` `write_log` request asks to write.
pub fn write_log_request(cmd: &str, args: Option<&Json>) -> (r: Result<(String, String), String>)
    ensures
        cmd@ != "write_log"@ ==> (r matches Err(e) && e@ == "Unknown control command: "@ + cmd@),
        cmd@ == "write_log"@ ==> match opt_json_view(args) {
            None => (r matches Err(e) && e@ == "write_log requires args { name, content }"@),
            Some(a) => match as_str_spec(json_get(a, "name"@)) {
                None => (r matches Err(e) && e@ == "Missing string field 'name'"@),
                Some(name) => match as_str_spec(json_get(a, "content"@)) {
                    None => (r matches Err(e) && e@ == "Missing string field 'content'"@),
                    Some(content) => if valid_log_name(name) {
                        (r matches Ok(p) && p.0@ == name && p.1@ == content)
                    } else {
                        (r matches Err(e) && e@ == "Invalid log filename: "@ + debug_text(name))
                    },
                },
            },
        },
{
    if !str_eq(cmd, "write_log") {
        return Err(join_text("Unknown control command: ", cmd));
    }
    let a = match args {
        Some(a) => a,
        None => {
            return Err(string_from_str("write_log requires args { name, content }"));
        },
    };
    let name = match text_of(get_member(a, "name")) {
        Some(n) => n,
        None => {
            return Err(string_from_str("Missing string field 'name'"));
        },
    };
    let content = match text_of(get_member(a, "content")) {
        Some(c) => c,
        None => {
            return Err(string_from_str("Missing string field 'content'"));
        },
    };
    let cs = chars_of(name.as_str());
    let dots = chars_of("..");
    if chars_contains(&cs, '/') || chars_contains(&cs, '\\') || chars_contains_seq(&cs, &dots) || cs.len() == 0 {
        let q = debug_quoted(name.as_str());
        return Err(join_text("Invalid log filename: ", q.as_str()));
    }
    Ok((name, content))
}

/// A reply on the named pipe.
#[derive(Debug)]
pub struct IpcResponse {
    pub ok: bool,
    pub data: Option<Json>,
    pub error: Option<String>,
}

impl IpcResponse {
    /// A successful reply carrying `data`.
    pub fn ok(data: Json) -> (r: IpcResponse)
        ensures
            r.ok,
            (r.data matches Some(d) && d.view() == data.view()),
            r.error is None,
    {
        IpcResponse { ok: true, data: Some(data), error: None }
    }

    /// A failed reply carrying `msg`.
    pub fn err(msg: String) -> (r: IpcResponse)
        ensures
            !r.ok,
            r.data is None,
            (r.error matches Some(e) && e@ == msg@),
    {
        IpcResponse { ok: false, data: None, error: Some(msg) }
    }
}

/// The body the HTTP bridge sends for a dispatched request.
pub open spec fn http_body_spec(r: Result<JsonV, Seq<char>>) -> JsonV {
    match r {
        Ok(d) => JsonV::Object(seq![("ok"@, JsonV::Bool(true)), ("data"@, d)]),
        Err(e) => JsonV::Object(seq![("ok"@, JsonV::Bool(false)), ("error"@, JsonV::Str(e))]),
    }
}

/// `{"ok": true, "data": ...}` or `{"ok": false, "error": ...}`.
pub fn http_body(reply: Result<Json, String>) -> (r: Json)
    ensures
        r.view() == http_body_spec(reply_view(reply)),
{
    let mut ms: Vec<(String, Json)> = Vec::new();
    match reply {
        Ok(d) => {
            let ghost dv = d.view();
            push_member(&mut ms, "ok", Json::Bool(true));
            push_member(&mut ms, "data", d);
            assert(view_members(ms@) =~= seq![("ok"@, JsonV::Bool(true)), ("data"@, dv)]);
        },
        Err(e) => {
            let ghost ev = e@;
            push_member(&mut ms, "ok", Json::Bool(false));
            push_member(&mut ms, "error", Json::Str(e));
            assert(view_members(ms@) =~= seq![("ok"@, JsonV::Bool(false)), ("error"@, JsonV::Str(ev))]);
        },
    }
    Json::Object(ms)
}


pub proof fn lemma_member_index_get(ms: Seq<(Seq<char>, JsonV)>, k: Seq<char>)
    ensures
        match member_index(ms, k) {
            Some(i) => 0 <= i < ms.len() && ms[i].0 == k && member_get(ms, k) == Some(ms[i].1),
            None => member_get(ms, k) is None,
        },
    decreases ms.len(),
{
    if ms.len() > 0 {
        lemma_member_index_get(ms.drop_last(), k);
    }
}

pub proof fn lemma_member_insert_get(ms: Seq<(Seq<char>, JsonV)>, k: Seq<char>, v: JsonV, k2: Seq<char>)
    ensures
        member_get(member_insert(ms, k, v), k2) == (if k2 == k { Some(v) } else { member_get(ms, k2) }),
    decreases ms.len(),
{
    lemma_member_index_get(ms, k);
    match member_index(ms, k) {
        None => {
            assert(ms.push((k, v)).drop_last() =~= ms);
        },
        Some(i) => {
            let d = ms.drop_last();
            let u = ms.update(i, (k, v));
            if i < ms.len() - 1 {
                assert(member_index(d, k) == Some(i));
                assert(u.drop_last() =~= d.update(i, (k, v)));
                lemma_member_insert_get(d, k, v, k2);
            } else {
                lemma_member_index_get(d, k);
                assert(member_index(d, k) is None);
                assert(u.drop_last() =~= d);
            }
        },
    }
}

/// Some requested name denotes the sysdata section `k`.
pub open spec fn requested(names: Seq<Seq<char>>, k: Seq<char>) -> bool {
    exists|i: int| 0 <= i < names.len() && snapshot_name(#[trigger] names[i]) == Some(k)
}

proof fn lemma_snapshot_members(names: Seq<Seq<char>>, sys: Option<JsonV>, k: Seq<char>)
    ensures
        member_get(snapshot_members(names, sys), k) == (if requested(names, k) && k != "appdata"@ {
            opt_get(sys, k)
        } else {
            None
        }),
    decreases names.len(),
{
    if names.len() > 0 {
        let d = names.drop_last();
        lemma_snapshot_members(d, sys, k);
        let rest = snapshot_members(d, sys);
        assert forall|i: int| 0 <= i < d.len() implies #[trigger] d[i] == names[i] by {}
        if requested(d, k) {
            let i = choose|i: int| 0 <= i < d.len() && snapshot_name(#[trigger] d[i]) == Some(k);
            assert(snapshot_name(names[i]) == Some(k));
        }
        if requested(names, k) && snapshot_name(names.last()) != Some(k) {
            let i = choose|i: int| 0 <= i < names.len() && snapshot_name(#[trigger] names[i]) == Some(k);
            assert(i < d.len());
            assert(snapshot_name(d[i]) == Some(k));
        }
        match snapshot_name(names.last()) {
            Some(n) => {
                if n != "appdata"@ {
                    match opt_get(sys, n) {
                        Some(v) => {
                            lemma_member_insert_get(rest, n, v, k);
                        },
                        None => {},
                    }
                }
            },
            None => {},
        }
    }
}

/// A snapshot that names sections holds, under `sysdata`, exactly the
/// requested sections that the registry's sysdata has, each with the
/// registry's value; nothing that was not asked for.
pub proof fn law_snapshot_holds_only_requested(out: JsonV, names: Seq<Seq<char>>, k: Seq<char>)
    requires
        names.len() > 0,
    ensures
        opt_get(json_get(snapshot_spec(out, names), "sysdata"@), k) == (if requested(names, k) && k != "appdata"@ {
            opt_get(json_get(out, "sysdata"@), k)
        } else {
            None
        }),
{
    let sys = json_get(out, "sysdata"@);
    let ms = seq![
        ("sysdata"@, JsonV::Object(snapshot_members(names, sys))),
        ("appdata"@, if wants_appdata(names) { or_null(json_get(out, "appdata"@)) } else { JsonV::Null }),
    ];
    assert(ms.drop_last().drop_last() =~= Seq::<(Seq<char>, JsonV)>::empty());
    assert(ms.drop_last().len() == 1 && ms.drop_last().last() == ms[0]);
    assert(member_get(ms.drop_last().drop_last(), "sysdata"@) is None);
    assert(member_get(ms.drop_last(), "sysdata"@) == Some(JsonV::Object(snapshot_members(names, sys))));
    lemma_snapshot_members(names, sys, k);
}


/// The names of the registry categories that a `get_<name>` command reads
/// whole.
pub open spec fn is_sysdata_category(c: Seq<char>) -> bool {
    c == "cpu"@
        || c == "gpu"@
        || c == "ram"@
        || c == "storage"@
        || c == "network"@
        || c == "audio"@
        || c == "keyboard"@
        || c == "mouse"@
        || c == "power"@
        || c == "bluetooth"@
        || c == "wifi"@
        || c == "system"@
        || c == "processes"@
        || c == "idle"@
}

/// A category command reads the category that its suffix names: for every
/// category `c`, `get_` followed by `c` answers with the metadata of `c`,
/// and `get_tray_icons` / `get_notifications` read the application
/// category named by their suffix.
pub proof fn law_category_command_names_its_category(c: Seq<char>)
    ensures
        is_sysdata_category(c) ==> sysdata_spec("get_"@ + c) == Some(SysdataQueryV::Category(c)),
        (c == "tray_icons"@ || c == "notifications"@) ==> sysdata_spec("get_"@ + c)
            == Some(SysdataQueryV::AppCategory(c)),
{
    reveal_strlit("get_");
    reveal_strlit("get_displays");
    reveal_strlit("get_temp");
    reveal_strlit("get_cpu");
    reveal_strlit("get_gpu");
    reveal_strlit("get_ram");
    reveal_strlit("get_storage");
    reveal_strlit("get_network");
    reveal_strlit("get_audio");
    reveal_strlit("get_time");
    reveal_strlit("get_keyboard");
    reveal_strlit("get_mouse");
    reveal_strlit("get_power");
    reveal_strlit("get_media");
    reveal_strlit("get_bluetooth");
    reveal_strlit("get_wifi");
    reveal_strlit("get_system");
    reveal_strlit("get_processes");
    reveal_strlit("get_idle");
    reveal_strlit("get_tray_icons");
    reveal_strlit("get_notifications");
    reveal_strlit("cpu");
    reveal_strlit("gpu");
    reveal_strlit("ram");
    reveal_strlit("storage");
    reveal_strlit("network");
    reveal_strlit("audio");
    reveal_strlit("keyboard");
    reveal_strlit("mouse");
    reveal_strlit("power");
    reveal_strlit("bluetooth");
    reveal_strlit("wifi");
    reveal_strlit("system");
    reveal_strlit("processes");
    reveal_strlit("idle");
    reveal_strlit("tray_icons");
    reveal_strlit("notifications");
    assert("get_displays"@[4] == 'd' && "get_displays"@[5] == 'i');
    assert("get_temp"@[4] == 't' && "get_temp"@[5] == 'e');
    assert("get_cpu"@[4] == 'c' && "get_cpu"@[5] == 'p');
    assert("get_gpu"@[4] == 'g' && "get_gpu"@[5] == 'p');
    assert("get_ram"@[4] == 'r' && "get_ram"@[5] == 'a');
    assert("get_storage"@[4] == 's' && "get_storage"@[5] == 't');
    assert("get_network"@[4] == 'n' && "get_network"@[5] == 'e');
    assert("get_audio"@[4] == 'a' && "get_audio"@[5] == 'u');
    assert("get_time"@[4] == 't' && "get_time"@[5] == 'i');
    assert("get_keyboard"@[4] == 'k' && "get_keyboard"@[5] == 'e');
    assert("get_mouse"@[4] == 'm' && "get_mouse"@[5] == 'o');
    assert("get_power"@[4] == 'p' && "get_power"@[5] == 'o');
    assert("get_media"@[4] == 'm' && "get_media"@[5] == 'e');
    assert("get_bluetooth"@[4] == 'b' && "get_bluetooth"@[5] == 'l');
    assert("get_wifi"@[4] == 'w' && "get_wifi"@[5] == 'i');
    assert("get_system"@[4] == 's' && "get_system"@[5] == 'y');
    assert("get_processes"@[4] == 'p' && "get_processes"@[5] == 'r');
    assert("get_idle"@[4] == 'i' && "get_idle"@[5] == 'd');
    assert("get_tray_icons"@[4] == 't' && "get_tray_icons"@[5] == 'r');
    assert("get_notifications"@[4] == 'n' && "get_notifications"@[5] == 'o');
    let cmd = "get_"@ + c;
    if c == "cpu"@ {
        assert(cmd =~= "get_cpu"@);
        assert(cmd[4] == 'c' && cmd[5] == 'p');
    } else if c == "gpu"@ {
        assert(cmd =~= "get_gpu"@);
        assert(cmd[4] == 'g' && cmd[5] == 'p');
    } else if c == "ram"@ {
        assert(cmd =~= "get_ram"@);
        assert(cmd[4] == 'r' && cmd[5] == 'a');
    } else if c == "storage"@ {
        assert(cmd =~= "get_storage"@);
        assert(cmd[4] == 's' && cmd[5] == 't');
    } else if c == "network"@ {
        assert(cmd =~= "get_network"@);
        assert(cmd[4] == 'n' && cmd[5] == 'e');
    } else if c == "audio"@ {
        assert(cmd =~= "get_audio"@);
        assert(cmd[4] == 'a' && cmd[5] == 'u');
    } else if c == "keyboard"@ {
        assert(cmd =~= "get_keyboard"@);
        assert(cmd[4] == 'k' && cmd[5] == 'e');
    } else if c == "mouse"@ {
        assert(cmd =~= "get_mouse"@);
        assert(cmd[4] == 'm' && cmd[5] == 'o');
    } else if c == "power"@ {
        assert(cmd =~= "get_power"@);
        assert(cmd[4] == 'p' && cmd[5] == 'o');
    } else if c == "bluetooth"@ {
        assert(cmd =~= "get_bluetooth"@);
        assert(cmd[4] == 'b' && cmd[5] == 'l');
    } else if c == "wifi"@ {
        assert(cmd =~= "get_wifi"@);
        assert(cmd[4] == 'w' && cmd[5] == 'i');
    } else if c == "system"@ {
        assert(cmd =~= "get_system"@);
        assert(cmd[4] == 's' && cmd[5] == 'y');
    } else if c == "processes"@ {
        assert(cmd =~= "get_processes"@);
        assert(cmd[4] == 'p' && cmd[5] == 'r');
    } else if c == "idle"@ {
        assert(cmd =~= "get_idle"@);
        assert(cmd[4] == 'i' && cmd[5] == 'd');
    } else if c == "tray_icons"@ {
        assert(cmd =~= "get_tray_icons"@);
        assert(cmd[4] == 't' && cmd[5] == 'r');
    } else if c == "notifications"@ {
        assert(cmd =~= "get_notifications"@);
        assert(cmd[4] == 'n' && cmd[5] == 'o');
    }
}
} // verus!
