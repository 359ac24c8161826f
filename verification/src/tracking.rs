//! Demand tracking: which registry sections are collected, and what each
//! updater tier does next.
use vstd::prelude::*;
use crate::text::{chars_of, lower_chars, chars_eq, lower_seq, string_from_str};

verus! {

/// A section of system data that callers can ask to have collected.
#[derive(Debug, Clone, Copy, PartialEq, Eq, Structural)]
pub enum Section {
    Time,
    Cpu,
    Gpu,
    Ram,
    Storage,
    Displays,
    Network,
    Wifi,
    Bluetooth,
    Audio,
    Keyboard,
    Mouse,
    Power,
    Idle,
    System,
    Processes,
    Appdata,
}

/// How long the UI heartbeat keeps every section tracked, in milliseconds.
pub const UI_HEARTBEAT_TTL_MS: u64 = 2500;

/// How long an updater tier sleeps when nothing it collects is demanded.
pub const IDLE_SLEEP_MS: u64 = 250;

/// Position of a section in the trackable list.
pub open spec fn section_index(s: Section) -> int {
    match s {
        Section::Time => 0,
        Section::Cpu => 1,
        Section::Gpu => 2,
        Section::Ram => 3,
        Section::Storage => 4,
        Section::Displays => 5,
        Section::Network => 6,
        Section::Wifi => 7,
        Section::Bluetooth => 8,
        Section::Audio => 9,
        Section::Keyboard => 10,
        Section::Mouse => 11,
        Section::Power => 12,
        Section::Idle => 13,
        Section::System => 14,
        Section::Processes => 15,
        Section::Appdata => 16,
    }
}

/// The canonical name of a section.
pub open spec fn section_name(s: Section) -> Seq<char> {
    match s {
        Section::Time => "time"@,
        Section::Cpu => "cpu"@,
        Section::Gpu => "gpu"@,
        Section::Ram => "ram"@,
        Section::Storage => "storage"@,
        Section::Displays => "displays"@,
        Section::Network => "network"@,
        Section::Wifi => "wifi"@,
        Section::Bluetooth => "bluetooth"@,
        Section::Audio => "audio"@,
        Section::Keyboard => "keyboard"@,
        Section::Mouse => "mouse"@,
        Section::Power => "power"@,
        Section::Idle => "idle"@,
        Section::System => "system"@,
        Section::Processes => "processes"@,
        Section::Appdata => "appdata"@,
    }
}

/// The registry category a section is stored under.
pub open spec fn category_name(s: Section) -> Seq<char> {
    match s {
        Section::Displays => "display"@,
        _ => section_name(s),
    }
}

/// The section a (case-insensitive) name denotes; `display` is accepted for
/// `displays`.
pub open spec fn normalize_spec(name: Seq<char>) -> Option<Section> {
    let l = lower_seq(name);
    if l == "display"@ || l == "displays"@ {
        Some(Section::Displays)
    } else if l == "time"@ {
        Some(Section::Time)
    } else if l == "cpu"@ {
        Some(Section::Cpu)
    } else if l == "gpu"@ {
        Some(Section::Gpu)
    } else if l == "ram"@ {
        Some(Section::Ram)
    } else if l == "storage"@ {
        Some(Section::Storage)
    } else if l == "network"@ {
        Some(Section::Network)
    } else if l == "wifi"@ {
        Some(Section::Wifi)
    } else if l == "bluetooth"@ {
        Some(Section::Bluetooth)
    } else if l == "audio"@ {
        Some(Section::Audio)
    } else if l == "keyboard"@ {
        Some(Section::Keyboard)
    } else if l == "mouse"@ {
        Some(Section::Mouse)
    } else if l == "power"@ {
        Some(Section::Power)
    } else if l == "idle"@ {
        Some(Section::Idle)
    } else if l == "system"@ {
        Some(Section::System)
    } else if l == "processes"@ {
        Some(Section::Processes)
    } else if l == "appdata"@ {
        Some(Section::Appdata)
    } else {
        None
    }
}

fn is_name(l: &Vec<char>, lit: &str) -> (r: bool)
    ensures
        r == (l@ == lit@),
{
    let c = chars_of(lit);
    chars_eq(l, &c)
}

/// Maps a requested section name to its section; unknown names give `None`.
pub fn normalize_section(name: &str) -> (r: Option<Section>)
    ensures
        r == normalize_spec(name@),
{
    let raw = chars_of(name);
    let l = lower_chars(&raw);
    if is_name(&l, "display") || is_name(&l, "displays") {
        Some(Section::Displays)
    } else if is_name(&l, "time") {
        Some(Section::Time)
    } else if is_name(&l, "cpu") {
        Some(Section::Cpu)
    } else if is_name(&l, "gpu") {
        Some(Section::Gpu)
    } else if is_name(&l, "ram") {
        Some(Section::Ram)
    } else if is_name(&l, "storage") {
        Some(Section::Storage)
    } else if is_name(&l, "network") {
        Some(Section::Network)
    } else if is_name(&l, "wifi") {
        Some(Section::Wifi)
    } else if is_name(&l, "bluetooth") {
        Some(Section::Bluetooth)
    } else if is_name(&l, "audio") {
        Some(Section::Audio)
    } else if is_name(&l, "keyboard") {
        Some(Section::Keyboard)
    } else if is_name(&l, "mouse") {
        Some(Section::Mouse)
    } else if is_name(&l, "power") {
        Some(Section::Power)
    } else if is_name(&l, "idle") {
        Some(Section::Idle)
    } else if is_name(&l, "system") {
        Some(Section::System)
    } else if is_name(&l, "processes") {
        Some(Section::Processes)
    } else if is_name(&l, "appdata") {
        Some(Section::Appdata)
    } else {
        None
    }
}

/// The canonical name of a section.
pub fn section_name_string(s: Section) -> (r: String)
    ensures
        r@ == section_name(s),
{
    match s {
        Section::Time => string_from_str("time"),
        Section::Cpu => string_from_str("cpu"),
        Section::Gpu => string_from_str("gpu"),
        Section::Ram => string_from_str("ram"),
        Section::Storage => string_from_str("storage"),
        Section::Displays => string_from_str("displays"),
        Section::Network => string_from_str("network"),
        Section::Wifi => string_from_str("wifi"),
        Section::Bluetooth => string_from_str("bluetooth"),
        Section::Audio => string_from_str("audio"),
        Section::Keyboard => string_from_str("keyboard"),
        Section::Mouse => string_from_str("mouse"),
        Section::Power => string_from_str("power"),
        Section::Idle => string_from_str("idle"),
        Section::System => string_from_str("system"),
        Section::Processes => string_from_str("processes"),
        Section::Appdata => string_from_str("appdata"),
    }
}

/// The registry category a section is stored under (`display` for `displays`).
pub fn category_name_string(s: Section) -> (r: String)
    ensures
        r@ == category_name(s),
{
    match s {
        Section::Displays => string_from_str("display"),
        _ => section_name_string(s),
    }
}

/// Maps a requested section name to the registry category it is stored under.
pub fn section_to_internal_category(name: &str) -> (r: Option<String>)
    ensures
        match r {
            Some(c) => normalize_spec(name@) is Some && c@ == category_name(normalize_spec(name@)->0),
            None => normalize_spec(name@) is None,
        },
{
    match normalize_section(name) {
        Some(s) => Some(category_name_string(s)),
        None => None,
    }
}


/// Every section's canonical name maps back to that section.
pub proof fn lemma_normalize_canonical_name(s: Section)
    ensures
        normalize_spec(section_name(s)) == Some(s),
{
    reveal_strlit("display");
    reveal_strlit("displays");
    reveal_strlit("time");
    reveal_strlit("cpu");
    reveal_strlit("gpu");
    reveal_strlit("ram");
    reveal_strlit("storage");
    reveal_strlit("network");
    reveal_strlit("wifi");
    reveal_strlit("bluetooth");
    reveal_strlit("audio");
    reveal_strlit("keyboard");
    reveal_strlit("mouse");
    reveal_strlit("power");
    reveal_strlit("idle");
    reveal_strlit("system");
    reveal_strlit("processes");
    reveal_strlit("appdata");
    let n = section_name(s);
    assert(lower_seq(n) =~= n);
    assert(("display"@).len() == 7 && ("display"@)[0] == 'd');
    assert(("displays"@).len() == 8 && ("displays"@)[0] == 'd');
    assert(("time"@).len() == 4 && ("time"@)[0] == 't');
    assert(("cpu"@).len() == 3 && ("cpu"@)[0] == 'c');
    assert(("gpu"@).len() == 3 && ("gpu"@)[0] == 'g');
    assert(("ram"@).len() == 3 && ("ram"@)[0] == 'r');
    assert(("storage"@).len() == 7 && ("storage"@)[0] == 's');
    assert(("network"@).len() == 7 && ("network"@)[0] == 'n');
    assert(("wifi"@).len() == 4 && ("wifi"@)[0] == 'w');
    assert(("bluetooth"@).len() == 9 && ("bluetooth"@)[0] == 'b');
    assert(("audio"@).len() == 5 && ("audio"@)[0] == 'a');
    assert(("keyboard"@).len() == 8 && ("keyboard"@)[0] == 'k');
    assert(("mouse"@).len() == 5 && ("mouse"@)[0] == 'm');
    assert(("power"@).len() == 5 && ("power"@)[0] == 'p');
    assert(("idle"@).len() == 4 && ("idle"@)[0] == 'i');
    assert(("system"@).len() == 6 && ("system"@)[0] == 's');
    assert(("processes"@).len() == 9 && ("processes"@)[0] == 'p');
    assert(("appdata"@).len() == 7 && ("appdata"@)[0] == 'a');
}

/// The number of trackable sections.
pub const SECTION_COUNT: usize = 17;

/// The section at a position of the trackable list.
pub open spec fn section_at(i: int) -> Section {
    if i == 0 {
        Section::Time
    } else if i == 1 {
        Section::Cpu
    } else if i == 2 {
        Section::Gpu
    } else if i == 3 {
        Section::Ram
    } else if i == 4 {
        Section::Storage
    } else if i == 5 {
        Section::Displays
    } else if i == 6 {
        Section::Network
    } else if i == 7 {
        Section::Wifi
    } else if i == 8 {
        Section::Bluetooth
    } else if i == 9 {
        Section::Audio
    } else if i == 10 {
        Section::Keyboard
    } else if i == 11 {
        Section::Mouse
    } else if i == 12 {
        Section::Power
    } else if i == 13 {
        Section::Idle
    } else if i == 14 {
        Section::System
    } else if i == 15 {
        Section::Processes
    } else {
        Section::Appdata
    }
}

proof fn lemma_section_index(s: Section)
    ensures
        0 <= section_index(s) < 17,
        section_at(section_index(s)) == s,
{
}

fn index_of(s: Section) -> (r: usize)
    ensures
        r as int == section_index(s),
        r < 17,
{
    match s {
        Section::Time => 0,
        Section::Cpu => 1,
        Section::Gpu => 2,
        Section::Ram => 3,
        Section::Storage => 4,
        Section::Displays => 5,
        Section::Network => 6,
        Section::Wifi => 7,
        Section::Bluetooth => 8,
        Section::Audio => 9,
        Section::Keyboard => 10,
        Section::Mouse => 11,
        Section::Power => 12,
        Section::Idle => 13,
        Section::System => 14,
        Section::Processes => 15,
        Section::Appdata => 16,
    }
}

/// The trackable sections, in their canonical order.
pub fn trackable_sections() -> (r: Vec<Section>)
    ensures
        r@.len() == 17,
        forall|i: int| 0 <= i < 17 ==> #[trigger] r@[i] == section_at(i),
{
    vec![
        Section::Time,
        Section::Cpu,
        Section::Gpu,
        Section::Ram,
        Section::Storage,
        Section::Displays,
        Section::Network,
        Section::Wifi,
        Section::Bluetooth,
        Section::Audio,
        Section::Keyboard,
        Section::Mouse,
        Section::Power,
        Section::Idle,
        Section::System,
        Section::Processes,
        Section::Appdata,
    ]
}

/// A set of sections.
pub struct SectionSet {
    flags: Vec<bool>,
}

impl SectionSet {
    #[verifier::type_invariant]
    spec fn inv(self) -> bool {
        self.flags@.len() == 17
    }

    pub closed spec fn contains(self, s: Section) -> bool {
        self.flags@[section_index(s)]
    }

    pub closed spec fn view(self) -> Set<Section> {
        Set::new(|s: Section| self.contains(s))
    }

    /// The empty set.
    pub fn empty() -> (r: SectionSet)
        ensures
            r.view() == Set::<Section>::empty(),
    {
        let mut flags: Vec<bool> = Vec::new();
        for i in 0..17usize
            invariant
                flags@.len() == i,
                forall|j: int| 0 <= j < i ==> !flags@[j],
        {
            flags.push(false);
        }
        let r = SectionSet { flags };
        assert(r.view() =~= Set::<Section>::empty()) by {
            assert forall|s: Section| !r.view().contains(s) by {
                lemma_section_index(s);
            }
        }
        r
    }

    /// Whether `s` is in the set.
    pub fn has(&self, s: Section) -> (r: bool)
        ensures
            r == self.view().contains(s),
    {
        proof {
            use_type_invariant(self);
        }
        let i = index_of(s);
        self.flags[i]
    }

    /// Adds `s`.
    pub fn insert(&mut self, s: Section)
        ensures
            final(self).view() == old(self).view().insert(s),
    {
        proof {
            use_type_invariant(&*self);
        }
        let i = index_of(s);
        let ghost before = self.view();
        let mut flags: Vec<bool> = Vec::new();
        for k in 0..17usize
            invariant
                self.flags@.len() == 17,
                flags@.len() == k,
                forall|j: int| 0 <= j < k ==> flags@[j] == (j == i || self.flags@[j]),
        {
            flags.push(k == i || self.flags[k]);
        }
        self.flags = flags;
        assert(self.view() =~= before.insert(s)) by {
            assert forall|t: Section| self.view().contains(t) == before.insert(s).contains(t) by {
                lemma_section_index(t);
                lemma_section_index(s);
            }
        }
    }

    /// Whether both sets hold the same sections.
    pub fn same_as(&self, other: &SectionSet) -> (r: bool)
        ensures
            r == (self.view() == other.view()),
    {
        proof {
            use_type_invariant(self);
            use_type_invariant(other);
        }
        for i in 0..17usize
            invariant
                self.flags@.len() == 17,
                other.flags@.len() == 17,
                forall|j: int| 0 <= j < i ==> self.flags@[j] == other.flags@[j],
        {
            if self.flags[i] != other.flags[i] {
                proof {
                    let s = section_at(i as int);
                    assert(section_index(s) == i);
                    assert(self.view().contains(s) != other.view().contains(s));
                }
                return false;
            }
        }
        assert(self.view() =~= other.view()) by {
            assert forall|t: Section| self.view().contains(t) == other.view().contains(t) by {
                lemma_section_index(t);
            }
        }
        true
    }
}

/// Demand-tracking state: the explicitly demanded sections and the time of
/// the last UI heartbeat.
pub struct TrackingState {
    pub explicit: SectionSet,
    pub last_ui_heartbeat_ms: u64,
}

/// The sections that a list of requested names denotes.
pub open spec fn normalized_set(names: Seq<String>) -> Set<Section> {
    Set::new(|s: Section| exists|i: int| 0 <= i < names.len() && normalize_spec(#[trigger] names[i]@) == Some(s))
}

impl TrackingState {
    /// Nothing demanded, no heartbeat yet.
    pub fn new() -> (r: TrackingState)
        ensures
            r.explicit.view() == Set::<Section>::empty(),
            r.last_ui_heartbeat_ms == 0,
    {
        TrackingState { explicit: SectionSet::empty(), last_ui_heartbeat_ms: 0 }
    }
}

/// Replaces the explicitly demanded sections by those the names denote
/// (unknown names are ignored).  Returns whether the set changed, which is
/// when the updater threads must be woken.
pub fn set_explicit_tracking_demands(state: &mut TrackingState, sections: &Vec<String>) -> (changed: bool)
    ensures
        final(state).explicit.view() == normalized_set(sections@),
        final(state).last_ui_heartbeat_ms == old(state).last_ui_heartbeat_ms,
        changed == (old(state).explicit.view() != normalized_set(sections@)),
{
    let mut next = SectionSet::empty();
    for i in 0..sections.len()
        invariant
            next.view() == Set::new(
                |s: Section|
                    exists|k: int| 0 <= k < i && normalize_spec(#[trigger] sections@[k]@) == Some(s),
            ),
    {
        let ghost before = next.view();
        match normalize_section(sections[i].as_str()) {
            Some(sec) => {
                next.insert(sec);
            },
            None => {},
        }
        assert(next.view() =~= Set::new(
            |s: Section| exists|k: int| 0 <= k < i + 1 && normalize_spec(#[trigger] sections@[k]@) == Some(s),
        )) by {
            assert forall|s: Section|
                next.view().contains(s) == (exists|k: int|
                    0 <= k < i + 1 && normalize_spec(#[trigger] sections@[k]@) == Some(s)) by {
                if next.view().contains(s) && !before.contains(s) {
                    assert(normalize_spec(sections@[i as int]@) == Some(s));
                }
                if exists|k: int| 0 <= k < i + 1 && normalize_spec(#[trigger] sections@[k]@) == Some(s) {
                    let k = choose|k: int| 0 <= k < i + 1 && normalize_spec(#[trigger] sections@[k]@) == Some(s);
                    if k < i {
                        assert(before.contains(s));
                    }
                }
            }
        }
    }
    assert(next.view() =~= normalized_set(sections@));
    let same = state.explicit.same_as(&next);
    if !same {
        state.explicit = next;
    }
    !same
}

/// Whether the UI heartbeat is fresh: at most 2500 ms old (a heartbeat in
/// the future counts as fresh).
pub open spec fn heartbeat_fresh(last_ms: u64, now_ms: u64) -> bool {
    now_ms <= last_ms || now_ms - last_ms <= UI_HEARTBEAT_TTL_MS
}

/// Whether a section is collected: it is explicitly demanded, or the UI
/// exception is on and the UI heartbeat is fresh.
pub open spec fn is_collected(state: TrackingState, ui_exception: bool, now_ms: u64, s: Section) -> bool {
    state.explicit.view().contains(s) || (ui_exception && heartbeat_fresh(state.last_ui_heartbeat_ms, now_ms))
}

/// Whether the section a name denotes is collected; unknown names never are.
pub fn section_tracking_enabled(state: &TrackingState, ui_exception: bool, now_ms: u64, section: &str) -> (r: bool)
    ensures
        r == match normalize_spec(section@) {
            Some(s) => is_collected(*state, ui_exception, now_ms, s),
            None => false,
        },
{
    match normalize_section(section) {
        Some(s) => section_enabled(state, ui_exception, now_ms, s),
        None => false,
    }
}

/// Whether a section is collected.
pub fn section_enabled(state: &TrackingState, ui_exception: bool, now_ms: u64, s: Section) -> (r: bool)
    ensures
        r == is_collected(*state, ui_exception, now_ms, s),
{
    if state.explicit.has(s) {
        return true;
    }
    if !ui_exception {
        return false;
    }
    let elapsed = if now_ms <= state.last_ui_heartbeat_ms { 0 } else { now_ms - state.last_ui_heartbeat_ms };
    elapsed <= UI_HEARTBEAT_TTL_MS
}

/// Records a UI heartbeat at `now_ms`.
pub fn touch_ui_heartbeat(state: &mut TrackingState, now_ms: u64)
    ensures
        final(state).last_ui_heartbeat_ms == now_ms,
        final(state).explicit == old(state).explicit,
{
    state.last_ui_heartbeat_ms = now_ms;
}

/// Whether any collection is wanted at all: pulling is not paused and some
/// trackable section is collected.
pub fn demand_tracking_active(state: &TrackingState, paused: bool, ui_exception: bool, now_ms: u64) -> (r: bool)
    ensures
        r == (!paused && exists|s: Section| is_collected(*state, ui_exception, now_ms, s)),
{
    if paused {
        return false;
    }
    let all = trackable_sections();
    for i in 0..all.len()
        invariant
            all@.len() == 17,
            forall|k: int| 0 <= k < 17 ==> #[trigger] all@[k] == section_at(k),
            !paused,
            forall|k: int| 0 <= k < i ==> !is_collected(*state, ui_exception, now_ms, #[trigger] section_at(k)),
    {
        if section_enabled(state, ui_exception, now_ms, all[i]) {
            assert(is_collected(*state, ui_exception, now_ms, all@[i as int]));
            return true;
        }
    }
    proof {
        assert forall|s: Section| !is_collected(*state, ui_exception, now_ms, s) by {
            lemma_section_index(s);
            let k = section_index(s);
            assert(!is_collected(*state, ui_exception, now_ms, section_at(k)));
        }
    }
    false
}


// ---------------------------------------------------------------------------
// Updater tiers
// ---------------------------------------------------------------------------

/// The updater threads.
#[derive(Debug, Clone, Copy, PartialEq, Eq, Structural)]
pub enum Tier {
    /// Time, keyboard, mouse, audio, idle, power.
    Fast,
    /// Active windows.
    Appdata,
    /// The CPU, on its own thread.
    Cpu,
    /// GPU, RAM, storage, network, bluetooth, wifi, system, processes, displays.
    Slow,
}

/// What an updater thread does next.
#[derive(Debug)]
pub enum TierAction {
    /// Collect nothing; sleep for the given milliseconds (or until woken).
    Sleep(u64),
    /// Collect the given sections, then sleep for the given milliseconds.
    Collect(Vec<Section>, u64),
}

/// The sections a tier may collect, in collection order.
pub open spec fn tier_sections(t: Tier) -> Seq<Section> {
    match t {
        Tier::Fast => seq![
            Section::Time,
            Section::Keyboard,
            Section::Mouse,
            Section::Audio,
            Section::Idle,
            Section::Power,
        ],
        Tier::Appdata => seq![Section::Appdata],
        Tier::Cpu => seq![Section::Cpu],
        Tier::Slow => seq![
            Section::Gpu,
            Section::Ram,
            Section::Storage,
            Section::Network,
            Section::Bluetooth,
            Section::Wifi,
            Section::System,
            Section::Processes,
            Section::Displays,
        ],
    }
}

fn tier_section_list(t: Tier) -> (r: Vec<Section>)
    ensures
        r@ == tier_sections(t),
{
    match t {
        Tier::Fast => vec![
            Section::Time,
            Section::Keyboard,
            Section::Mouse,
            Section::Audio,
            Section::Idle,
            Section::Power,
        ],
        Tier::Appdata => vec![Section::Appdata],
        Tier::Cpu => vec![Section::Cpu],
        Tier::Slow => vec![
            Section::Gpu,
            Section::Ram,
            Section::Storage,
            Section::Network,
            Section::Bluetooth,
            Section::Wifi,
            Section::System,
            Section::Processes,
            Section::Displays,
        ],
    }
}

/// The sections of `list` that are collected, in list order.
pub open spec fn keep_collected(
    state: TrackingState,
    ui_exception: bool,
    now_ms: u64,
    list: Seq<Section>,
) -> Seq<Section>
    decreases list.len(),
{
    if list.len() == 0 {
        Seq::empty()
    } else {
        let rest = keep_collected(state, ui_exception, now_ms, list.drop_last());
        if is_collected(state, ui_exception, now_ms, list.last()) {
            rest.push(list.last())
        } else {
            rest
        }
    }
}

/// How long a tier sleeps while pulling is paused.
pub open spec fn paused_sleep_ms(t: Tier) -> u64 {
    match t {
        Tier::Fast => 50,
        _ => 100,
    }
}

pub open spec fn max_u64(a: u64, b: u64) -> u64 {
    if a >= b {
        a
    } else {
        b
    }
}

/// How long a tier sleeps after collecting: the configured rate, with a floor.
pub open spec fn collect_sleep_ms(t: Tier, fast_rate: u64, slow_rate: u64) -> u64 {
    match t {
        Tier::Fast => max_u64(fast_rate, 1),
        Tier::Appdata => max_u64(fast_rate, 25),
        Tier::Cpu => max_u64(slow_rate, 50),
        Tier::Slow => max_u64(slow_rate, 50),
    }
}

/// The sections a tier collects and how long it then sleeps.
pub open spec fn expected_action(
    t: Tier,
    state: TrackingState,
    paused: bool,
    ui_exception: bool,
    fast_rate: u64,
    slow_rate: u64,
    now_ms: u64,
) -> (Seq<Section>, u64) {
    if paused {
        (Seq::empty(), paused_sleep_ms(t))
    } else {
        let k = keep_collected(state, ui_exception, now_ms, tier_sections(t));
        if k.len() == 0 {
            (Seq::empty(), IDLE_SLEEP_MS)
        } else {
            (k, collect_sleep_ms(t, fast_rate, slow_rate))
        }
    }
}

pub open spec fn action_view(a: TierAction) -> (Seq<Section>, u64) {
    match a {
        TierAction::Sleep(ms) => (Seq::empty(), ms),
        TierAction::Collect(v, ms) => (v@, ms),
    }
}

fn max_of(a: u64, b: u64) -> (r: u64)
    ensures
        r == max_u64(a, b),
{
    if a >= b {
        a
    } else {
        b
    }
}

/// One decision of an updater thread: from the demand state, the pause flag
/// and the configured rates, what it collects and how long it then sleeps.
pub fn next_tier_action(
    t: Tier,
    state: &TrackingState,
    paused: bool,
    ui_exception: bool,
    fast_rate: u64,
    slow_rate: u64,
    now_ms: u64,
) -> (r: TierAction)
    ensures
        action_view(r) == expected_action(t, *state, paused, ui_exception, fast_rate, slow_rate, now_ms),
        r is Collect <==> expected_action(t, *state, paused, ui_exception, fast_rate, slow_rate, now_ms).0.len() > 0,
{
    if paused {
        return TierAction::Sleep(if t == Tier::Fast { 50 } else { 100 });
    }
    let list = tier_section_list(t);
    let mut requested: Vec<Section> = Vec::new();
    for i in 0..list.len()
        invariant
            list@ == tier_sections(t),
            requested@ == keep_collected(*state, ui_exception, now_ms, list@.take(i as int)),
    {
        assert(list@.take(i + 1).drop_last() =~= list@.take(i as int));
        if section_enabled(state, ui_exception, now_ms, list[i]) {
            requested.push(list[i]);
        }
    }
    assert(list@.take(list.len() as int) =~= list@);
    if requested.len() == 0 {
        return TierAction::Sleep(IDLE_SLEEP_MS);
    }
    let rate = match t {
        Tier::Fast => max_of(fast_rate, 1),
        Tier::Appdata => max_of(fast_rate, 25),
        Tier::Cpu => max_of(slow_rate, 50),
        Tier::Slow => max_of(slow_rate, 50),
    };
    TierAction::Collect(requested, rate)
}

proof fn lemma_keep_collected_members(state: TrackingState, ui_exception: bool, now_ms: u64, list: Seq<Section>)
    ensures
        forall|i: int| 0 <= i < keep_collected(state, ui_exception, now_ms, list).len() ==> {
            let s = #[trigger] keep_collected(state, ui_exception, now_ms, list)[i];
            list.contains(s) && is_collected(state, ui_exception, now_ms, s)
        },
        forall|s: Section| list.contains(s) && is_collected(state, ui_exception, now_ms, s)
            ==> #[trigger] keep_collected(state, ui_exception, now_ms, list).contains(s),
    decreases list.len(),
{
    if list.len() > 0 {
        lemma_keep_collected_members(state, ui_exception, now_ms, list.drop_last());
        let rest = keep_collected(state, ui_exception, now_ms, list.drop_last());
        let k = keep_collected(state, ui_exception, now_ms, list);
        assert forall|i: int| 0 <= i < k.len() implies {
            let s = #[trigger] k[i];
            list.contains(s) && is_collected(state, ui_exception, now_ms, s)
        } by {
            if i < rest.len() {
                assert(k[i] == rest[i]);
                let s = rest[i];
                let j = choose|j: int| 0 <= j < list.drop_last().len() && list.drop_last()[j] == s;
                assert(list[j] == s);
            } else {
                assert(list[list.len() - 1] == list.last());
            }
        }
        assert forall|s: Section| list.contains(s) && is_collected(state, ui_exception, now_ms, s) implies #[trigger] k.contains(
            s,
        ) by {
            let j = choose|j: int| 0 <= j < list.len() && list[j] == s;
            if j < list.len() - 1 {
                assert(list.drop_last()[j] == s);
                assert(rest.contains(s));
                let m = choose|m: int| 0 <= m < rest.len() && rest[m] == s;
                assert(k[m] == s);
            } else {
                assert(k[k.len() - 1] == s);
            }
        }
    }
}

/// Law: while pulling is paused no tier collects anything; it only sleeps
/// (50 ms for the fast tier, 100 ms for the others).
pub proof fn law_paused_tiers_only_sleep(
    t: Tier,
    state: TrackingState,
    ui_exception: bool,
    fast_rate: u64,
    slow_rate: u64,
    now_ms: u64,
)
    ensures
        expected_action(t, state, true, ui_exception, fast_rate, slow_rate, now_ms) == (
        Seq::<Section>::empty(),
        paused_sleep_ms(t),
    ),
{
}

/// Law: a tier never busy-loops: whatever it does, it then sleeps at least 1 ms.
pub proof fn law_tiers_always_sleep(
    t: Tier,
    state: TrackingState,
    paused: bool,
    ui_exception: bool,
    fast_rate: u64,
    slow_rate: u64,
    now_ms: u64,
)
    ensures
        expected_action(t, state, paused, ui_exception, fast_rate, slow_rate, now_ms).1 >= 1,
{
}

/// Law: when not paused, a tier collects exactly the sections of its list
/// that are demanded (explicitly or through a fresh UI heartbeat).
pub proof fn law_tier_collects_demanded_sections(
    t: Tier,
    state: TrackingState,
    ui_exception: bool,
    fast_rate: u64,
    slow_rate: u64,
    now_ms: u64,
    s: Section,
)
    ensures
        expected_action(t, state, false, ui_exception, fast_rate, slow_rate, now_ms).0.contains(s) <==> (
        tier_sections(t).contains(s) && is_collected(state, ui_exception, now_ms, s)),
{
    lemma_keep_collected_members(state, ui_exception, now_ms, tier_sections(t));
    let k = keep_collected(state, ui_exception, now_ms, tier_sections(t));
    if k.contains(s) {
        let i = choose|i: int| 0 <= i < k.len() && k[i] == s;
        assert(k[i] == s);
    }
}

/// Law: every trackable section belongs to exactly one tier.
pub proof fn law_each_section_in_one_tier(s: Section)
    ensures
        tier_sections(Tier::Fast).contains(s) || tier_sections(Tier::Appdata).contains(s)
            || tier_sections(Tier::Cpu).contains(s) || tier_sections(Tier::Slow).contains(s),
        !(tier_sections(Tier::Fast).contains(s) && tier_sections(Tier::Slow).contains(s)),
        !(tier_sections(Tier::Fast).contains(s) && tier_sections(Tier::Cpu).contains(s)),
        !(tier_sections(Tier::Fast).contains(s) && tier_sections(Tier::Appdata).contains(s)),
        !(tier_sections(Tier::Slow).contains(s) && tier_sections(Tier::Cpu).contains(s)),
        !(tier_sections(Tier::Slow).contains(s) && tier_sections(Tier::Appdata).contains(s)),
        !(tier_sections(Tier::Cpu).contains(s) && tier_sections(Tier::Appdata).contains(s)),
{
    let f = tier_sections(Tier::Fast);
    let a = tier_sections(Tier::Appdata);
    let c = tier_sections(Tier::Cpu);
    let w = tier_sections(Tier::Slow);
    match s {
        Section::Time => assert(f[0] == s),
        Section::Keyboard => assert(f[1] == s),
        Section::Mouse => assert(f[2] == s),
        Section::Audio => assert(f[3] == s),
        Section::Idle => assert(f[4] == s),
        Section::Power => assert(f[5] == s),
        Section::Appdata => assert(a[0] == s),
        Section::Cpu => assert(c[0] == s),
        Section::Gpu => assert(w[0] == s),
        Section::Ram => assert(w[1] == s),
        Section::Storage => assert(w[2] == s),
        Section::Network => assert(w[3] == s),
        Section::Bluetooth => assert(w[4] == s),
        Section::Wifi => assert(w[5] == s),
        Section::System => assert(w[6] == s),
        Section::Processes => assert(w[7] == s),
        Section::Displays => assert(w[8] == s),
    }
}

/// Law: a UI heartbeat at time `t`, with the UI exception on, makes every
/// section collected at any time up to `t + 2500` ms.
pub proof fn law_heartbeat_tracks_everything(state: TrackingState, t: u64, now_ms: u64, s: Section)
    requires
        state.last_ui_heartbeat_ms == t,
        now_ms <= t + UI_HEARTBEAT_TTL_MS,
    ensures
        is_collected(state, true, now_ms, s),
{
}

/// Law: once the heartbeat is older than 2500 ms (or the exception is off),
/// only the explicitly demanded sections are collected.
pub proof fn law_stale_heartbeat_tracks_only_demands(
    state: TrackingState,
    ui_exception: bool,
    now_ms: u64,
    s: Section,
)
    requires
        !ui_exception || now_ms > state.last_ui_heartbeat_ms + UI_HEARTBEAT_TTL_MS,
    ensures
        is_collected(state, ui_exception, now_ms, s) == state.explicit.view().contains(s),
{
}


/// After collecting, a tier sleeps its configured rate with a floor: the
/// fast tier the fast rate (at least 1 ms), the application-data tier the
/// fast rate (at least 25 ms), and the CPU and slow tiers the slow rate (at
/// least 50 ms); the CPU and slow tiers' action does not depend on the fast
/// rate, nor the fast and application-data tiers' on the slow rate.
pub proof fn law_collect_sleep_is_tier_rate(
    t: Tier,
    state: TrackingState,
    ui_exception: bool,
    fast_rate: u64,
    slow_rate: u64,
    other_rate: u64,
    now_ms: u64,
)
    ensures
        ({
            let a = expected_action(t, state, false, ui_exception, fast_rate, slow_rate, now_ms);
            a.0.len() > 0 ==> a.1 == match t {
                Tier::Fast => if fast_rate >= 1 { fast_rate } else { 1 },
                Tier::Appdata => if fast_rate >= 25 { fast_rate } else { 25 },
                Tier::Cpu => if slow_rate >= 50 { slow_rate } else { 50 },
                Tier::Slow => if slow_rate >= 50 { slow_rate } else { 50 },
            }
        }),
        (t == Tier::Cpu || t == Tier::Slow) ==> expected_action(t, state, false, ui_exception, fast_rate, slow_rate, now_ms)
            == expected_action(t, state, false, ui_exception, other_rate, slow_rate, now_ms),
        (t == Tier::Fast || t == Tier::Appdata) ==> expected_action(t, state, false, ui_exception, fast_rate, slow_rate, now_ms)
            == expected_action(t, state, false, ui_exception, fast_rate, other_rate, now_ms),
{
}

}
