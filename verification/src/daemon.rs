//! The daemon's own small state: its managers, the media poller's start,
//! and the updater threads' wake signal.
use vstd::prelude::*;
use crate::json::{Json, JsonV, view_members, push_member};

verus! {

/// The backend daemon.
pub struct ODDaemon {}

impl ODDaemon {
    /// A daemon that has not started anything yet.
    pub fn new() -> (r: ODDaemon) {
        ODDaemon {}
    }
}

/// The theme manager.
pub struct Theme;

impl Theme {
    pub fn new() -> (r: Theme) {
        Theme
    }
}

/// The transparency manager.
pub struct Transparency;

impl Transparency {
    pub fn new() -> (r: Transparency) {
        Transparency
    }
}

/// Whether the media-session poller has been started.
pub struct MediaPoller {
    pub started: bool,
}

/// What a media refresh asks of the caller: to start the background poller
/// (the first refresh only), and to query the session now, so that the
/// cache is fresh on return (every refresh).
#[derive(Debug)]
pub struct MediaRefresh {
    pub start_poller: bool,
    pub query_now: bool,
}

/// Starts the media-session poller once and refreshes the cache
/// synchronously: the caller starts the poller when asked and stores what
/// the query it makes now returns (through `media_cache_value`).
pub fn refresh_media_session_cache_if_due(poller: &mut MediaPoller) -> (r: MediaRefresh)
    ensures
        r.start_poller == !old(poller).started,
        r.query_now,
        final(poller).started,
{
    if poller.started {
        MediaRefresh { start_poller: false, query_now: true }
    } else {
        poller.started = true;
        MediaRefresh { start_poller: true, query_now: true }
    }
}

/// `{"playing": false}`, what is reported while no media session is known.
pub open spec fn not_playing() -> JsonV {
    JsonV::Object(seq![("playing"@, JsonV::Bool(false))])
}

/// What the media cache keeps after a query: the session, or
/// `{"playing": false}` when the query found none (`null`).
pub fn media_cache_value(media: Json) -> (r: Json)
    ensures
        media.view() == JsonV::Null ==> r.view() == not_playing(),
        media.view() != JsonV::Null ==> r.view() == media.view(),
{
    match media {
        Json::Null => {
            let mut ms: Vec<(String, Json)> = Vec::new();
            push_member(&mut ms, "playing", Json::Bool(false));
            assert(view_members(ms@) =~= seq![("playing"@, JsonV::Bool(false))]);
            Json::Object(ms)
        },
        other => other,
    }
}

/// The signal that wakes the updater threads early.
pub struct WakeSignal {
    pub signaled: bool,
}

/// The signal after a wake: raised.
pub open spec fn woken(signaled: bool) -> bool {
    true
}

/// The signal once a thread begins to sleep: cleared.
pub open spec fn sleep_begun(signaled: bool) -> bool {
    false
}

/// Whether a sleeping thread stops: when the signal it was woken with is
/// raised, or its time is up.
pub open spec fn sleep_ends(signaled: bool, timed_out: bool) -> bool {
    signaled || timed_out
}

/// Raises the signal (the caller then notifies the waiting threads).
pub fn wake_updaters(signal: &mut WakeSignal)
    ensures
        final(signal).signaled == woken(old(signal).signaled),
{
    signal.signaled = true;
}

/// Clears a stale signal before a thread waits on it.
pub fn begin_interruptible_sleep(signal: &mut WakeSignal)
    ensures
        final(signal).signaled == sleep_begun(old(signal).signaled),
{
    signal.signaled = false;
}

/// Waking the updaters ends a sleep early: a wake made after a thread began
/// to sleep leaves the signal raised, so the thread, notified, stops before
/// its time is up; and a wake made while no thread sleeps has no lasting
/// effect, since the next sleep begins with the signal cleared either way.
pub proof fn law_wake_ends_sleep(signaled: bool)
    ensures
        sleep_ends(woken(sleep_begun(signaled)), false),
        !sleep_ends(sleep_begun(signaled), false),
        sleep_begun(woken(signaled)) == sleep_begun(signaled),
{
}

} // verus!
