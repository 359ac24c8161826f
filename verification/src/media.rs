//! The media session the daemon reports: which of the system's sessions is
//! chosen (scored by playback status, by being the current session's app,
//! and by the length of what plays and how far it is), and the names of
//! the status, repeat and playback-type codes.
use vstd::prelude::*;
use crate::text::str_eq;

verus! {

/// What a session reports, each part absent where it could not be read:
/// its playback status code (closed 0, opened 1, changing 2, stopped 3,
/// playing 4, paused 5), its app, and its timeline in milliseconds.
pub struct SessionFacts {
    pub status: Option<i32>,
    pub app_id: Option<String>,
    pub position_ms: Option<i64>,
    pub start_ms: Option<i64>,
    pub end_ms: Option<i64>,
}

pub struct SessionFactsV {
    pub status: Option<i32>,
    pub app_id: Option<Seq<char>>,
    pub position_ms: Option<i64>,
    pub start_ms: Option<i64>,
    pub end_ms: Option<i64>,
}

impl SessionFacts {
    pub open spec fn view(&self) -> SessionFactsV {
        SessionFactsV {
            status: self.status,
            app_id: match self.app_id {
                Some(a) => Some(a@),
                None => None,
            },
            position_ms: self.position_ms,
            start_ms: self.start_ms,
            end_ms: self.end_ms,
        }
    }
}

pub open spec fn facts_views(s: Seq<SessionFacts>) -> Seq<SessionFactsV> {
    s.map_values(|f: SessionFacts| f.view())
}

/// What a session's playback status is worth: playing most, then paused,
/// opened, changing, stopped, and an unknown status least.
pub open spec fn status_points(status: Option<i32>) -> int {
    match status {
        Some(4) => 300,
        Some(5) => 200,
        Some(1) => 160,
        Some(2) => 120,
        Some(3) => 60,
        _ => 20,
    }
}

/// The timeline start, 0 where it is unknown.
pub open spec fn start_of(f: SessionFactsV) -> int {
    match f.start_ms {
        Some(s) => s as int,
        None => 0,
    }
}

pub open spec fn duration_of(f: SessionFactsV) -> Option<int> {
    match f.end_ms {
        Some(e) => Some(if e - start_of(f) > 0 { e - start_of(f) } else { 0 }),
        None => None,
    }
}

pub open spec fn offset_of(f: SessionFactsV) -> Option<int> {
    match f.position_ms {
        Some(p) => Some(if p - start_of(f) > 0 { p - start_of(f) } else { 0 }),
        None => None,
    }
}

/// The timeline's arithmetic stays within `i64` (as the readings do).
pub open spec fn facts_in_range(f: SessionFactsV) -> bool {
    &&& (f.end_ms matches Some(e) ==> i64::MIN <= e - start_of(f) <= i64::MAX)
    &&& (f.position_ms matches Some(p) ==> i64::MIN <= p - start_of(f) <= i64::MAX)
    &&& (offset_of(f) matches Some(o) ==> o + 1000 <= i64::MAX)
}

/// A candidate session's score: its status, 25 for the current session's
/// app, 20 for a known length, then by length (a quarter hour or more most,
/// under a minute least) and 40 while more than a second is left (20 off
/// otherwise).
pub open spec fn session_score_spec(f: SessionFactsV, same_app_as_current: bool) -> int {
    let d = duration_of(f);
    status_points(f.status) + (if same_app_as_current { 25int } else { 0int }) + (match d {
        Some(x) => if x > 0 { 20int } else { 0int },
        None => 0int,
    }) + (match d {
        Some(x) => if x >= 900_000 {
            220int
        } else if x >= 300_000 {
            140int
        } else if x >= 120_000 {
            90int
        } else if x >= 60_000 {
            30int
        } else {
            -50int
        },
        None => 0int,
    }) + (match (offset_of(f), d) {
        (Some(p), Some(x)) => if x > 0 {
            if p + 1000 < x { 40int } else { -20int }
        } else {
            0int
        },
        _ => 0int,
    })
}

/// The current session's own score: its status, 20 above a candidate's.
pub open spec fn current_score_spec(f: SessionFactsV) -> int {
    status_points(f.status) + 20
}

fn status_points_of(status: Option<i32>) -> (r: i32)
    ensures
        r == status_points(status),
{
    match status {
        Some(4) => 300,
        Some(5) => 200,
        Some(1) => 160,
        Some(2) => 120,
        Some(3) => 60,
        _ => 20,
    }
}

/// Scores a candidate session.
pub fn media_session_score(f: &SessionFacts, same_app_as_current: bool) -> (r: i32)
    requires
        facts_in_range(f.view()),
    ensures
        r == session_score_spec(f.view(), same_app_as_current),
{
    let mut score = status_points_of(f.status);
    if same_app_as_current {
        score = score + 25;
    }
    let start: i64 = match f.start_ms {
        Some(s) => s,
        None => 0,
    };
    let duration: Option<i64> = match f.end_ms {
        Some(e) => {
            let d = e - start;
            Some(if d > 0 { d } else { 0 })
        },
        None => None,
    };
    let offset: Option<i64> = match f.position_ms {
        Some(p) => {
            let o = p - start;
            Some(if o > 0 { o } else { 0 })
        },
        None => None,
    };
    match duration {
        Some(d) => {
            if d > 0 {
                score = score + 20;
            }
            if d >= 900_000 {
                score = score + 220;
            } else if d >= 300_000 {
                score = score + 140;
            } else if d >= 120_000 {
                score = score + 90;
            } else if d >= 60_000 {
                score = score + 30;
            } else {
                score = score - 50;
            }
            match offset {
                Some(p) => {
                    if d > 0 {
                        if p + 1000 < d {
                            score = score + 40;
                        } else {
                            score = score - 20;
                        }
                    }
                },
                None => {},
            }
        },
        None => {},
    }
    score
}

/// Two sessions are of the same app when both apps are known and equal.
pub open spec fn same_app(current: Option<SessionFactsV>, f: SessionFactsV) -> bool {
    match current {
        Some(c) => c.app_id is Some && f.app_id is Some && c.app_id == f.app_id,
        None => false,
    }
}

/// The choice so far over the first candidates: the candidate chosen
/// (`None` for the current session) and the best score.
pub open spec fn choice_spec(current: Option<SessionFactsV>, cs: Seq<SessionFactsV>) -> (Option<int>, int)
    decreases cs.len(),
{
    if cs.len() == 0 {
        (None, match current {
            Some(c) => current_score_spec(c),
            None => i32::MIN as int,
        })
    } else {
        let (chosen, best) = choice_spec(current, cs.drop_last());
        let s = session_score_spec(cs.last(), same_app(current, cs.last()));
        if s > best {
            (Some(cs.len() - 1), s)
        } else {
            (chosen, best)
        }
    }
}

fn same_app_of(current: Option<&SessionFacts>, f: &SessionFacts) -> (r: bool)
    ensures
        r == same_app(
            match current {
                Some(c) => Some(c.view()),
                None => None,
            },
            f.view(),
        ),
{
    match current {
        Some(c) => match (&c.app_id, &f.app_id) {
            (Some(a), Some(b)) => str_eq(a.as_str(), b.as_str()),
            _ => false,
        },
        None => false,
    }
}

/// Chooses the session to report: the candidate with the best score, the
/// earliest among equals, unless the current session scores at least as
/// well (`None`: the current session, or none where there is none).
pub fn choose_media_session(current: Option<&SessionFacts>, candidates: &Vec<SessionFacts>) -> (r: Option<usize>)
    requires
        forall|i: int| 0 <= i < candidates.len() ==> facts_in_range(#[trigger] candidates@[i].view()),
    ensures
        ({
            let cur = match current {
                Some(c) => Some(c.view()),
                None => None,
            };
            match r {
                Some(i) => choice_spec(cur, facts_views(candidates@)).0 == Some(i as int),
                None => choice_spec(cur, facts_views(candidates@)).0 is None,
            }
        }),
{
    let ghost cur = match current {
        Some(c) => Some(c.view()),
        None => None::<SessionFactsV>,
    };
    let ghost fv = facts_views(candidates@);
    let mut best: i32 = match current {
        Some(c) => status_points_of(c.status) + 20,
        None => i32::MIN,
    };
    let mut chosen: Option<usize> = None;
    assert(fv.take(0) =~= Seq::<SessionFactsV>::empty());
    for i in 0..candidates.len()
        invariant
            fv == facts_views(candidates@),
            forall|i: int| 0 <= i < candidates.len() ==> facts_in_range(#[trigger] candidates@[i].view()),
            choice_spec(cur, fv.take(i as int)).1 == best as int,
            match chosen {
                Some(k) => choice_spec(cur, fv.take(i as int)).0 == Some(k as int),
                None => choice_spec(cur, fv.take(i as int)).0 is None,
            },
            cur == (match current {
                Some(c) => Some(c.view()),
                None => None::<SessionFactsV>,
            }),
    {
        assert(fv.take(i + 1).drop_last() =~= fv.take(i as int));
        assert(fv.take(i + 1).last() == candidates@[i as int].view());
        let same = same_app_of(current, &candidates[i]);
        let s = media_session_score(&candidates[i], same);
        if s > best {
            best = s;
            chosen = Some(i);
        }
    }
    assert(fv.take(candidates.len() as int) =~= fv);
    chosen
}

/// The name of a playback status code.
pub fn media_status_name(code: i32) -> (r: &'static str)
    ensures
        code == 4 ==> r@ == "playing"@,
        code == 5 ==> r@ == "paused"@,
        code == 3 ==> r@ == "stopped"@,
        code == 1 ==> r@ == "opened"@,
        code == 0 ==> r@ == "closed"@,
        code == 2 ==> r@ == "changing"@,
        (code < 0 || code > 5) ==> r@ == "unknown"@,
{
    if code == 4 {
        "playing"
    } else if code == 5 {
        "paused"
    } else if code == 3 {
        "stopped"
    } else if code == 1 {
        "opened"
    } else if code == 0 {
        "closed"
    } else if code == 2 {
        "changing"
    } else {
        "unknown"
    }
}

/// The name of an auto-repeat mode code.
pub fn repeat_mode_name(code: i32) -> (r: &'static str)
    ensures
        code == 0 ==> r@ == "none"@,
        code == 1 ==> r@ == "track"@,
        code == 2 ==> r@ == "list"@,
        (code < 0 || code > 2) ==> r@ == "unknown"@,
{
    if code == 0 {
        "none"
    } else if code == 1 {
        "track"
    } else if code == 2 {
        "list"
    } else {
        "unknown"
    }
}

/// The name of a playback-type code.
pub fn playback_type_name(code: i32) -> (r: &'static str)
    ensures
        code == 0 ==> r@ == "unknown"@,
        code == 1 ==> r@ == "music"@,
        code == 2 ==> r@ == "video"@,
        code == 3 ==> r@ == "image"@,
        (code < 0 || code > 3) ==> r@ == "other"@,
{
    if code == 0 {
        "unknown"
    } else if code == 1 {
        "music"
    } else if code == 2 {
        "video"
    } else if code == 3 {
        "image"
    } else {
        "other"
    }
}


/// The timeline fields of the media reading: the position from the start
/// (from 0 where the start is unknown), never below 0; the length only
/// where both ends are known, never below 0.
pub open spec fn media_timeline_spec(position_ms: Option<i64>, start_ms: Option<i64>, end_ms: Option<i64>) -> (Option<int>, Option<int>) {
    (
        match position_ms {
            Some(p) => Some(match start_ms {
                Some(s) => if p - s > 0 { p - s } else { 0 },
                None => if p > 0 { p as int } else { 0 },
            }),
            None => None,
        },
        match (end_ms, start_ms) {
            (Some(e), Some(s)) => Some(if e - s > 0 { e - s } else { 0 }),
            _ => None,
        },
    )
}

/// The position and length the media reading reports, in milliseconds.
pub fn media_timeline(position_ms: Option<i64>, start_ms: Option<i64>, end_ms: Option<i64>) -> (r: (Option<i64>, Option<i64>))
    requires
        match (position_ms, start_ms) {
            (Some(p), Some(s)) => i64::MIN <= p - s <= i64::MAX,
            _ => true,
        },
        match (end_ms, start_ms) {
            (Some(e), Some(s)) => i64::MIN <= e - s <= i64::MAX,
            _ => true,
        },
    ensures
        (match r.0 {
            Some(p) => Some(p as int),
            None => None,
        }) == media_timeline_spec(position_ms, start_ms, end_ms).0,
        (match r.1 {
            Some(d) => Some(d as int),
            None => None,
        }) == media_timeline_spec(position_ms, start_ms, end_ms).1,
{
    let position = match position_ms {
        Some(p) => Some(match start_ms {
            Some(s) => {
                let d = p - s;
                if d > 0 { d } else { 0 }
            },
            None => if p > 0 { p } else { 0 },
        }),
        None => None,
    };
    let duration = match (end_ms, start_ms) {
        (Some(e), Some(s)) => {
            let d = e - s;
            Some(if d > 0 { d } else { 0 })
        },
        _ => None,
    };
    (position, duration)
}

} // verus!
