//! The tray: its persisted settings (autostart flags, run at startup), the
//! actions of its menus, and how its clicks are told apart.
use vstd::prelude::*;
use crate::addon::{Addon, AddonV, addon_views};
use crate::json::{Json, JsonV, view_members, push_member};
use crate::text::{clone_string, str_eq, string_from_str};

verus! {

/// Whether the backend runs at login, and which addons start with it.
#[derive(Debug)]
pub struct TraySettings {
    pub run_backend_at_startup: bool,
    pub addon_autostart: Vec<(String, bool)>,
}

pub open spec fn flag_views(v: Seq<(String, bool)>) -> Seq<(Seq<char>, bool)> {
    v.map_values(|p: (String, bool)| (p.0@, p.1))
}

impl TraySettings {
    /// No autostarts, not run at startup.
    pub fn new() -> (r: TraySettings)
        ensures
            !r.run_backend_at_startup,
            r.addon_autostart@.len() == 0,
    {
        TraySettings { run_backend_at_startup: false, addon_autostart: Vec::new() }
    }
}

/// Where the tray settings live: `tray_settings.json` in the VEIL root.
pub fn tray_settings_path(root: &str) -> (r: Option<String>)
    ensures
        r matches Some(p) && (!crate::paths::starts_with_two_seps(root@) ==> crate::paths::joined(
            root@,
            "tray_settings.json"@,
            p@,
        )),
{
    proof {
        reveal_strlit("tray_settings.json");
        crate::paths::lemma_plain_literal("tray_settings.json"@);
    }
    Some(crate::paths::path_join(root, "tray_settings.json"))
}

/// The position of the first entry for `name`.
pub open spec fn flag_position(flags: Seq<(Seq<char>, bool)>, name: Seq<char>) -> Option<int>
    decreases flags.len(),
{
    if flags.len() == 0 {
        None
    } else {
        match flag_position(flags.drop_last(), name) {
            Some(i) => Some(i),
            None => if flags.last().0 == name { Some(flags.len() - 1) } else { None },
        }
    }
}

/// The autostart flag of `name`: that of its first entry, or off.
pub open spec fn autostart_flag(flags: Seq<(Seq<char>, bool)>, name: Seq<char>) -> bool {
    match flag_position(flags, name) {
        Some(i) => flags[i].1,
        None => false,
    }
}

/// `i` is the first entry for `name`.
pub open spec fn first_entry(flags: Seq<(Seq<char>, bool)>, name: Seq<char>, i: int) -> bool {
    0 <= i < flags.len() && flags[i].0 == name && forall|k: int| 0 <= k < i ==> (#[trigger] flags[k]).0 != name
}

/// No entry is for `name`.
pub open spec fn no_entry(flags: Seq<(Seq<char>, bool)>, name: Seq<char>) -> bool {
    forall|k: int| 0 <= k < flags.len() ==> (#[trigger] flags[k]).0 != name
}

proof fn lemma_flag_position(flags: Seq<(Seq<char>, bool)>, name: Seq<char>)
    ensures
        match flag_position(flags, name) {
            Some(i) => first_entry(flags, name, i),
            None => no_entry(flags, name),
        },
    decreases flags.len(),
{
    if flags.len() > 0 {
        lemma_flag_position(flags.drop_last(), name);
        match flag_position(flags.drop_last(), name) {
            Some(i) => {
                assert forall|k: int| 0 <= k < i implies (#[trigger] flags[k]).0 != name by {
                    assert(flags.drop_last()[k] == flags[k]);
                }
                assert(flags.drop_last()[i] == flags[i]);
            },
            None => {
                assert forall|k: int| 0 <= k < flags.len() - 1 implies (#[trigger] flags[k]).0 != name by {
                    assert(flags.drop_last()[k] == flags[k]);
                }
            },
        }
    }
}

proof fn lemma_first_entry_position(flags: Seq<(Seq<char>, bool)>, name: Seq<char>, i: int)
    requires
        first_entry(flags, name, i),
    ensures
        flag_position(flags, name) == Some(i),
{
    lemma_flag_position(flags, name);
    match flag_position(flags, name) {
        Some(j) => {
            if j < i {
                assert(flags[j].0 != name);
            } else if j > i {
                assert(flags[i].0 != name);
            }
        },
        None => {
            assert(flags[i].0 != name);
        },
    }
}

proof fn lemma_no_entry_position(flags: Seq<(Seq<char>, bool)>, name: Seq<char>)
    requires
        no_entry(flags, name),
    ensures
        flag_position(flags, name) is None,
{
    lemma_flag_position(flags, name);
    if flag_position(flags, name) is Some {
        let j = flag_position(flags, name)->0;
        assert(flags[j].0 != name);
    }
}

fn find_flag(flags: &Vec<(String, bool)>, name: &str) -> (r: Option<usize>)
    ensures
        match r {
            Some(i) => i < flags.len() && flags@[i as int].0@ == name@ && forall|k: int| 0 <= k < i ==> (#[trigger] flags@[k]).0@ != name@,
            None => forall|k: int| 0 <= k < flags.len() ==> (#[trigger] flags@[k]).0@ != name@,
        },
{
    for i in 0..flags.len()
        invariant
            forall|k: int| 0 <= k < i ==> (#[trigger] flags@[k]).0@ != name@,
    {
        if str_eq(flags[i].0.as_str(), name) {
            return Some(i);
        }
    }
    None
}

/// Whether `name` starts with the backend.
pub fn autostart_enabled(flags: &Vec<(String, bool)>, name: &str) -> (r: bool)
    ensures
        r == autostart_flag(flag_views(flags@), name@),
{
    let ghost fv = flag_views(flags@);
    match find_flag(flags, name) {
        Some(i) => {
            assert forall|k: int| 0 <= k < i implies (#[trigger] fv[k]).0 != name@ by {
                assert(fv[k].0 == flags@[k].0@);
            }
            proof { lemma_first_entry_position(fv, name@, i as int); }
            flags[i].1
        },
        None => {
            assert forall|k: int| 0 <= k < fv.len() implies (#[trigger] fv[k]).0 != name@ by {
                assert(fv[k].0 == flags@[k].0@);
            }
            proof { lemma_no_entry_position(fv, name@); }
            false
        },
    }
}

proof fn lemma_same_other(before: Seq<(Seq<char>, bool)>, after: Seq<(Seq<char>, bool)>, name: Seq<char>, other: Seq<char>)
    requires
        other != name,
        before.len() <= after.len(),
        forall|k: int| 0 <= k < before.len() && (#[trigger] before[k]).0 != name ==> after[k] == before[k],
        forall|k: int| 0 <= k < before.len() && (#[trigger] before[k]).0 == name ==> after[k].0 == name,
        forall|k: int| before.len() <= k < after.len() ==> (#[trigger] after[k]).0 == name,
    ensures
        autostart_flag(after, other) == autostart_flag(before, other),
{
    lemma_flag_position(before, other);
    match flag_position(before, other) {
        Some(i) => {
            assert(after[i] == before[i]);
            assert forall|k: int| 0 <= k < i implies (#[trigger] after[k]).0 != other by {
                if before[k].0 != name {
                    assert(after[k] == before[k]);
                }
            }
            lemma_first_entry_position(after, other, i);
        },
        None => {
            assert forall|k: int| 0 <= k < after.len() implies (#[trigger] after[k]).0 != other by {
                if k < before.len() && before[k].0 != name {
                    assert(after[k] == before[k]);
                }
            }
            lemma_no_entry_position(after, other);
        },
    }
}

/// `after` is `before` with the autostart flag of `name` flipped and every
/// other flag kept.
pub open spec fn toggled(before: Seq<(Seq<char>, bool)>, after: Seq<(Seq<char>, bool)>, name: Seq<char>) -> bool {
    &&& autostart_flag(after, name) == !autostart_flag(before, name)
    &&& forall|other: Seq<char>| other != name ==> #[trigger] autostart_flag(after, other) == autostart_flag(before, other)
}

/// Toggling the same addon twice gives every addon back the autostart flag
/// it had.
pub proof fn law_toggle_twice_restores(
    a: Seq<(Seq<char>, bool)>,
    b: Seq<(Seq<char>, bool)>,
    c: Seq<(Seq<char>, bool)>,
    name: Seq<char>,
)
    requires
        toggled(a, b, name),
        toggled(b, c, name),
    ensures
        forall|x: Seq<char>| #[trigger] autostart_flag(c, x) == autostart_flag(a, x),
{
    assert forall|x: Seq<char>| #[trigger] autostart_flag(c, x) == autostart_flag(a, x) by {
        if x != name {
            assert(autostart_flag(c, x) == autostart_flag(b, x));
            assert(autostart_flag(b, x) == autostart_flag(a, x));
        }
    }
}

/// Flips the autostart flag of `name` (a missing flag counts as off, and is
/// added); returns the new value.  Every other name keeps its flag.
pub fn toggle_autostart(flags: &mut Vec<(String, bool)>, name: &str) -> (r: bool)
    ensures
        r == !autostart_flag(flag_views(old(flags)@), name@),
        autostart_flag(flag_views(final(flags)@), name@) == r,
        forall|other: Seq<char>| other != name@ ==> autostart_flag(flag_views(final(flags)@), other) == autostart_flag(
            flag_views(old(flags)@),
            other,
        ),
        toggled(flag_views(old(flags)@), flag_views(final(flags)@), name@),
{
    let ghost before = flag_views(flags@);
    match find_flag(flags, name) {
        Some(i) => {
            assert forall|k: int| 0 <= k < i implies (#[trigger] before[k]).0 != name@ by {
                assert(before[k].0 == old(flags)@[k].0@);
            }
            proof { lemma_first_entry_position(before, name@, i as int); }
            let next = !flags[i].1;
            let key = clone_string(&flags[i].0);
            flags.set(i, (key, next));
            let ghost after = flag_views(flags@);
            assert(after =~= before.update(i as int, (name@, next)));
            proof {
                assert forall|k: int| 0 <= k < i implies (#[trigger] after[k]).0 != name@ by {
                    assert(after[k] == before[k]);
                }
                lemma_first_entry_position(after, name@, i as int);
                assert forall|other: Seq<char>| other != name@ implies autostart_flag(after, other) == autostart_flag(before, other) by {
                    lemma_same_other(before, after, name@, other);
                }
            }
            next
        },
        None => {
            assert forall|k: int| 0 <= k < before.len() implies (#[trigger] before[k]).0 != name@ by {
                assert(before[k].0 == old(flags)@[k].0@);
            }
            proof { lemma_no_entry_position(before, name@); }
            flags.push((string_from_str(name), true));
            let ghost after = flag_views(flags@);
            assert(after =~= before.push((name@, true)));
            proof {
                assert forall|k: int| 0 <= k < before.len() implies (#[trigger] after[k]).0 != name@ by {
                    assert(after[k] == before[k]);
                }
                lemma_first_entry_position(after, name@, before.len() as int);
                assert forall|other: Seq<char>| other != name@ implies autostart_flag(after, other) == autostart_flag(before, other) by {
                    lemma_same_other(before, after, name@, other);
                }
            }
            true
        },
    }
}

/// The names whose autostart flag is on, in order.
pub open spec fn enabled_names(flags: Seq<(Seq<char>, bool)>) -> Seq<Seq<char>>
    decreases flags.len(),
{
    if flags.len() == 0 {
        Seq::empty()
    } else {
        let rest = enabled_names(flags.drop_last());
        if flags.last().1 { rest.push(flags.last().0) } else { rest }
    }
}

pub open spec fn text_seq(v: Seq<String>) -> Seq<Seq<char>> {
    v.map_values(|t: String| t@)
}

/// The addons to start with the backend.
pub fn autostart_addon_names(settings: &TraySettings) -> (r: Vec<String>)
    ensures
        text_seq(r@) == enabled_names(flag_views(settings.addon_autostart@)),
{
    let flags = &settings.addon_autostart;
    let ghost fv = flag_views(flags@);
    let mut out: Vec<String> = Vec::new();
    for i in 0..flags.len()
        invariant
            fv == flag_views(flags@),
            text_seq(out@) == enabled_names(fv.take(i as int)),
    {
        assert(fv.take(i + 1).drop_last() =~= fv.take(i as int));
        assert(fv.take(i + 1).last() == (flags@[i as int].0@, flags@[i as int].1));
        if flags[i].1 {
            let ghost before = text_seq(out@);
            out.push(clone_string(&flags[i].0));
            assert(text_seq(out@) =~= before.push(flags@[i as int].0@));
        }
    }
    assert(fv.take(flags.len() as int) =~= fv);
    out
}

/// The flags after a rescan: one per discovered addon (first occurrence of
/// a name), keeping its old value, off for a new addon.
pub open spec fn reconciled(names: Seq<Seq<char>>, old: Seq<(Seq<char>, bool)>) -> Seq<(Seq<char>, bool)>
    decreases names.len(),
{
    if names.len() == 0 {
        Seq::empty()
    } else {
        let rest = reconciled(names.drop_last(), old);
        let n = names.last();
        if flag_position(rest, n) is Some { rest } else { rest.push((n, autostart_flag(old, n))) }
    }
}

/// The autostart flags for the addons a rescan found.
pub fn reconcile_autostart(addons: &Vec<Addon>, old: &Vec<(String, bool)>) -> (r: Vec<(String, bool)>)
    ensures
        flag_views(r@) == reconciled(addon_views(addons@).map_values(|a: AddonV| a.name), flag_views(old@)),
{
    let ghost names = addon_views(addons@).map_values(|a: AddonV| a.name);
    let ghost ov = flag_views(old@);
    let mut out: Vec<(String, bool)> = Vec::new();
    for i in 0..addons.len()
        invariant
            names == addon_views(addons@).map_values(|a: AddonV| a.name),
            ov == flag_views(old@),
            flag_views(out@) == reconciled(names.take(i as int), ov),
    {
        assert(names.take(i + 1).drop_last() =~= names.take(i as int));
        assert(names.take(i + 1).last() == addons@[i as int].name@);
        let name = addons[i].name.as_str();
        let ghost rest = flag_views(out@);
        match find_flag(&out, name) {
            Some(k) => {
                assert forall|j: int| 0 <= j < k implies (#[trigger] rest[j]).0 != name@ by {
                    assert(rest[j].0 == out@[j].0@);
                }
                proof { lemma_first_entry_position(rest, name@, k as int); }
            },
            None => {
                assert forall|j: int| 0 <= j < rest.len() implies (#[trigger] rest[j]).0 != name@ by {
                    assert(rest[j].0 == out@[j].0@);
                }
                proof { lemma_no_entry_position(rest, name@); }
                let v = autostart_enabled(old, name);
                out.push((clone_string(&addons[i].name), v));
                assert(flag_views(out@) =~= rest.push((name@, autostart_flag(ov, name@))));
            },
        }
    }
    assert(names.take(addons.len() as int) =~= names);
    out
}

/// Whether the backend is registered to run at login; only Windows keeps
/// such a registration, so elsewhere it never is.
pub fn is_backend_startup_enabled() -> (r: Result<bool, String>)
    ensures
        r == Ok::<bool, String>(false),
{
    Ok(false)
}

/// Registering the backend to run at login is only supported on Windows.
pub fn set_backend_startup_enabled(enabled: bool) -> (r: Result<(), String>)
    ensures
        r matches Err(e) && e@ == "Run at startup toggle is only supported on Windows"@,
{
    Err(string_from_str("Run at startup toggle is only supported on Windows"))
}

// ---------------------------------------------------------------------------
// Menus and clicks
// ---------------------------------------------------------------------------

/// What a tray menu item does.
#[derive(Debug)]
pub enum MenuAction {
    Start(String),
    Stop(String),
    Reload(String),
    OpenConfigUi(String),
    ToggleAutostart(String),
    ToggleBackendStartup,
    Rescan,
    Exit,
}

/// The IPC `addon` command an item sends, with its arguments
/// `{"name": name}`; `None` for the items handled in the tray.
pub fn addon_request(action: &MenuAction) -> (r: Option<(String, Json)>)
    ensures
        match action {
            MenuAction::Start(n) => (r matches Some(p) && p.0@ == "start"@ && p.1.view() == addon_name_args(n@)),
            MenuAction::Stop(n) => (r matches Some(p) && p.0@ == "stop"@ && p.1.view() == addon_name_args(n@)),
            MenuAction::Reload(n) => (r matches Some(p) && p.0@ == "reload"@ && p.1.view() == addon_name_args(n@)),
            _ => r is None,
        },
{
    match action {
        MenuAction::Start(n) => Some((string_from_str("start"), name_args(n.as_str()))),
        MenuAction::Stop(n) => Some((string_from_str("stop"), name_args(n.as_str()))),
        MenuAction::Reload(n) => Some((string_from_str("reload"), name_args(n.as_str()))),
        _ => None,
    }
}

/// `{"name": name}`.
pub open spec fn addon_name_args(name: Seq<char>) -> JsonV {
    JsonV::Object(seq![("name"@, JsonV::Str(name))])
}

fn name_args(name: &str) -> (r: Json)
    ensures
        r.view() == addon_name_args(name@),
{
    let mut ms: Vec<(String, Json)> = Vec::new();
    push_member(&mut ms, "name", Json::Str(string_from_str(name)));
    assert(view_members(ms@) =~= seq![("name"@, JsonV::Str(name@))]);
    Json::Object(ms)
}

/// The actions of one addon's submenu: start, stop, reload, configure (by
/// package), toggle autostart.
pub fn addon_menu_actions(a: &Addon) -> (r: Vec<MenuAction>)
    ensures
        r@.len() == 5,
        r@[0] matches MenuAction::Start(n) && n@ == a.name@,
        r@[1] matches MenuAction::Stop(n) && n@ == a.name@,
        r@[2] matches MenuAction::Reload(n) && n@ == a.name@,
        r@[3] matches MenuAction::OpenConfigUi(p) && p@ == a.package@,
        r@[4] matches MenuAction::ToggleAutostart(n) && n@ == a.name@,
{
    let mut v: Vec<MenuAction> = Vec::new();
    v.push(MenuAction::Start(clone_string(&a.name)));
    v.push(MenuAction::Stop(clone_string(&a.name)));
    v.push(MenuAction::Reload(clone_string(&a.name)));
    v.push(MenuAction::OpenConfigUi(clone_string(&a.package)));
    v.push(MenuAction::ToggleAutostart(clone_string(&a.name)));
    v
}

/// The label of an addon's autostart item.
pub fn autostart_label(enabled: bool) -> (r: &'static str)
    ensures
        enabled ==> r@ == "Autostart: On"@,
        !enabled ==> r@ == "Autostart: Off"@,
{
    if enabled { "Autostart: On" } else { "Autostart: Off" }
}

/// How long a right click waits to see whether a second one follows, in ms.
pub const RIGHT_CLICK_DEBOUNCE_MS: u64 = 400;

/// How long after a double right click its trailing button-up is ignored, in ms.
pub const DOUBLE_CLICK_COOLDOWN_MS: u64 = 600;

/// The tray's click state: when a single right click is pending, and when
/// the last double right click was.
#[derive(Debug)]
pub struct ClickState {
    pub pending_right_click: Option<u64>,
    pub double_click_cooldown: Option<u64>,
}

/// What the tray icon reports.
#[derive(Debug)]
pub enum TrayInput {
    RightClickUp,
    DoubleLeftClick,
    DoubleRightClick,
    DebounceElapsed,
}

/// What the tray does in answer.
#[derive(Debug)]
pub enum TrayOutput {
    Nothing,
    ShowAddonMenu,
    ShowBackendMenu,
    OpenUi,
}

/// Time since `then` (none when the clock reads earlier).
pub open spec fn elapsed(then: u64, now: u64) -> int {
    if now >= then { now - then } else { 0 }
}

/// One click event at `now_ms`: a right click waits for the debounce unless
/// it ends a double right click; a double right click opens the backend
/// menu; a double left click opens the UI; the debounce ending opens the
/// addon menu when a right click is pending.
pub fn on_tray_input(state: &mut ClickState, input: TrayInput, now_ms: u64) -> (r: TrayOutput)
    ensures
        match input {
            TrayInput::RightClickUp => match old(state).double_click_cooldown {
                Some(cd) => if elapsed(cd, now_ms) < DOUBLE_CLICK_COOLDOWN_MS {
                    r is Nothing && final(state).double_click_cooldown is None
                        && final(state).pending_right_click == old(state).pending_right_click
                } else {
                    r is Nothing && final(state).pending_right_click == Some(now_ms)
                        && final(state).double_click_cooldown == old(state).double_click_cooldown
                },
                None => r is Nothing && final(state).pending_right_click == Some(now_ms)
                    && final(state).double_click_cooldown is None,
            },
            TrayInput::DoubleLeftClick => r is OpenUi && *final(state) == *old(state),
            TrayInput::DoubleRightClick => r is ShowBackendMenu && final(state).pending_right_click is None
                && final(state).double_click_cooldown == Some(now_ms),
            TrayInput::DebounceElapsed => final(state).pending_right_click is None
                && final(state).double_click_cooldown == old(state).double_click_cooldown
                && (if old(state).pending_right_click is Some { r is ShowAddonMenu } else { r is Nothing }),
        },
{
    match input {
        TrayInput::RightClickUp => {
            match state.double_click_cooldown {
                Some(cd) => {
                    let waited = if now_ms >= cd { now_ms - cd } else { 0 };
                    if waited < DOUBLE_CLICK_COOLDOWN_MS {
                        state.double_click_cooldown = None;
                        return TrayOutput::Nothing;
                    }
                },
                None => {},
            }
            state.pending_right_click = Some(now_ms);
            TrayOutput::Nothing
        },
        TrayInput::DoubleLeftClick => TrayOutput::OpenUi,
        TrayInput::DoubleRightClick => {
            state.pending_right_click = None;
            state.double_click_cooldown = Some(now_ms);
            TrayOutput::ShowBackendMenu
        },
        TrayInput::DebounceElapsed => {
            let pending = state.pending_right_click.is_some();
            state.pending_right_click = None;
            if pending {
                TrayOutput::ShowAddonMenu
            } else {
                TrayOutput::Nothing
            }
        },
    }
}

/// When the event loop must wake again: the end of a pending right click's
/// debounce (never past the clock's end), or not at all.
pub fn wake_deadline(state: &ClickState) -> (r: Option<u64>)
    ensures
        match state.pending_right_click {
            Some(t) => r == Some(if t <= u64::MAX - RIGHT_CLICK_DEBOUNCE_MS { (t + RIGHT_CLICK_DEBOUNCE_MS) as u64 } else { u64::MAX }),
            None => r is None,
        },
{
    match state.pending_right_click {
        Some(t) => Some(if t <= u64::MAX - RIGHT_CLICK_DEBOUNCE_MS { t + RIGHT_CLICK_DEBOUNCE_MS } else { u64::MAX }),
        None => None,
    }
}

} // verus!
