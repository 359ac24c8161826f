//! Reading the line-oriented reports that the notification, tray-icon and
//! Bluetooth probes print.
use vstd::prelude::*;
use crate::json::{Json, JsonV, NumberV, JsonNumber, view_members, view_items, push_member, push_item};
use crate::text::{
    chars_of, clone_string, string_from_chars, string_from_str, trim, chars_trim, str_trim, lines_of,
    split_lines, views, starts_with, chars_starts_with, strip_prefix, chars_strip_prefix, parse_u32_spec,
    parse_u32, eq_ignore_case, chars_eq_ignore_case, to_lowercase, unicode_lower, contains_seq,
    chars_contains_seq, push_str_chars, push_all,
};

verus! {

pub open spec fn unsigned(n: nat) -> JsonV {
    JsonV::Number(NumberV::Unsigned(n as u64))
}

/// The text after `prefix` on a line, trimmed.
pub open spec fn after(line: Seq<char>, prefix: Seq<char>) -> Option<Seq<char>> {
    match strip_prefix(line, prefix) {
        Some(v) => Some(trim(v)),
        None => None,
    }
}

pub fn after_prefix(line: &Vec<char>, prefix: &str) -> (r: Option<Vec<char>>)
    ensures
        match r {
            Some(v) => after(line@, prefix@) == Some(v@),
            None => after(line@, prefix@) is None,
        },
{
    match chars_strip_prefix(line, prefix) {
        Some(v) => Some(chars_trim(&v)),
        None => None,
    }
}

// ---------------------------------------------------------------------------
// Notifications
// ---------------------------------------------------------------------------

/// A notification being read: id, app, title, body, time.
pub struct Notification {
    pub id: String,
    pub app: String,
    pub title: String,
    pub body: String,
    pub time: String,
}

pub type NotifV = (Seq<char>, Seq<char>, Seq<char>, Seq<char>, Seq<char>);

impl Notification {
    pub open spec fn view(&self) -> NotifV {
        (self.id@, self.app@, self.title@, self.body@, self.time@)
    }
}

pub open spec fn empty_notif() -> NotifV {
    (Seq::empty(), Seq::empty(), Seq::empty(), Seq::empty(), Seq::empty())
}

/// A field line of a notification sets the field it names.
pub open spec fn notif_set(n: NotifV, l: Seq<char>) -> NotifV {
    match after(l, "NOTIF_ID="@) {
        Some(v) => (v, n.1, n.2, n.3, n.4),
        None => match after(l, "NOTIF_APP="@) {
            Some(v) => (n.0, v, n.2, n.3, n.4),
            None => match after(l, "NOTIF_TITLE="@) {
                Some(v) => (n.0, n.1, v, n.3, n.4),
                None => match after(l, "NOTIF_BODY="@) {
                    Some(v) => (n.0, n.1, n.2, v, n.4),
                    None => match after(l, "NOTIF_TIME="@) {
                        Some(v) => (n.0, n.1, n.2, n.3, v),
                        None => n,
                    },
                },
            },
        },
    }
}

/// `NOTIF_START=` opens a notification, `NOTIF_END=` closes the open one;
/// lines between set its fields; other lines are ignored.
pub open spec fn notif_fold(lines: Seq<Seq<char>>) -> (Seq<NotifV>, Option<NotifV>)
    decreases lines.len(),
{
    if lines.len() == 0 {
        (Seq::empty(), None)
    } else {
        let (done, cur) = notif_fold(lines.drop_last());
        let l = lines.last();
        if starts_with(l, "NOTIF_START="@) {
            (done, Some(empty_notif()))
        } else if starts_with(l, "NOTIF_END="@) {
            match cur {
                Some(n) => (done.push(n), None),
                None => (done, None),
            }
        } else {
            match cur {
                Some(n) => (done, Some(notif_set(n, l))),
                None => (done, None),
            }
        }
    }
}

/// The error object a line reports, if any.
pub open spec fn line_error(l: Seq<char>) -> Option<JsonV> {
    match strip_prefix(l, "ERROR="@) {
        Some(e) => Some(JsonV::Object(seq![
            ("error"@, JsonV::Str(trim(e))),
            ("count"@, unsigned(0)),
            ("notifications"@, JsonV::Array(Seq::empty())),
        ])),
        None => match strip_prefix(l, "ACCESS_DENIED="@) {
            Some(s) => Some(JsonV::Object(seq![
                ("error"@, JsonV::Str("Notification access denied: "@ + trim(s))),
                ("access"@, JsonV::Str("denied"@)),
                ("count"@, unsigned(0)),
                ("notifications"@, JsonV::Array(Seq::empty())),
            ])),
            None => None,
        },
    }
}

/// The error of the first line that reports one.
pub open spec fn first_error(lines: Seq<Seq<char>>) -> Option<JsonV>
    decreases lines.len(),
{
    if lines.len() == 0 {
        None
    } else {
        match first_error(lines.drop_last()) {
            Some(e) => Some(e),
            None => line_error(lines.last()),
        }
    }
}

/// The value of the first `COUNT=` line.
pub open spec fn first_count(lines: Seq<Seq<char>>) -> Option<Seq<char>>
    decreases lines.len(),
{
    if lines.len() == 0 {
        None
    } else {
        match first_count(lines.drop_last()) {
            Some(c) => Some(c),
            None => strip_prefix(lines.last(), "COUNT="@),
        }
    }
}

pub open spec fn notif_json(n: NotifV) -> JsonV {
    JsonV::Object(seq![
        ("id"@, JsonV::Str(n.0)),
        ("app_name"@, JsonV::Str(n.1)),
        ("title"@, JsonV::Str(n.2)),
        ("body"@, JsonV::Str(n.3)),
        ("created_at"@, JsonV::Str(n.4)),
    ])
}

/// The notifications report: the first error line's error, or the reported
/// total, how many were read, and each one read.
pub open spec fn notifications_spec(lines: Seq<Seq<char>>) -> JsonV {
    match first_error(lines) {
        Some(e) => e,
        None => {
            let total = match first_count(lines) {
                Some(c) => match parse_u32_spec(trim(c)) {
                    Some(n) => n as nat,
                    None => 0,
                },
                None => 0,
            };
            let done = notif_fold(lines).0;
            JsonV::Object(seq![
                ("count"@, unsigned(total)),
                ("returned"@, unsigned(done.len())),
                ("notifications"@, JsonV::Array(done.map_values(|n: NotifV| notif_json(n)))),
            ])
        },
    }
}

fn error_json(l: &Vec<char>) -> (r: Option<Json>)
    ensures
        match r {
            Some(j) => line_error(l@) == Some(j.view()),
            None => line_error(l@) is None,
        },
{
    match chars_strip_prefix(l, "ERROR=") {
        Some(e) => {
            let mut ms: Vec<(String, Json)> = Vec::new();
            let t = chars_trim(&e);
            push_member(&mut ms, "error", Json::Str(string_from_chars(&t)));
            push_member(&mut ms, "count", Json::Number(JsonNumber::Unsigned(0)));
            push_member(&mut ms, "notifications", Json::Array(Vec::new()));
            assert(view_items(Seq::<Json>::empty()) =~= Seq::<JsonV>::empty());
            assert(view_members(ms@) =~= seq![
                ("error"@, JsonV::Str(trim(e@))),
                ("count"@, unsigned(0)),
                ("notifications"@, JsonV::Array(Seq::empty())),
            ]);
            Some(Json::Object(ms))
        },
        None => match chars_strip_prefix(l, "ACCESS_DENIED=") {
            Some(s) => {
                let mut ms: Vec<(String, Json)> = Vec::new();
                let mut msg = chars_of("Notification access denied: ");
                let t = chars_trim(&s);
                push_all(&mut msg, &t);
                push_member(&mut ms, "error", Json::Str(string_from_chars(&msg)));
                push_member(&mut ms, "access", Json::Str(string_from_str("denied")));
                push_member(&mut ms, "count", Json::Number(JsonNumber::Unsigned(0)));
                push_member(&mut ms, "notifications", Json::Array(Vec::new()));
                assert(view_items(Seq::<Json>::empty()) =~= Seq::<JsonV>::empty());
                assert(view_members(ms@) =~= seq![
                    ("error"@, JsonV::Str("Notification access denied: "@ + trim(s@))),
                    ("access"@, JsonV::Str("denied"@)),
                    ("count"@, unsigned(0)),
                    ("notifications"@, JsonV::Array(Seq::empty())),
                ]);
                Some(Json::Object(ms))
            },
            None => None,
        },
    }
}

fn notif_to_json(n: &Notification) -> (r: Json)
    ensures
        r.view() == notif_json(n.view()),
{
    let mut ms: Vec<(String, Json)> = Vec::new();
    push_member(&mut ms, "id", Json::Str(clone_string(&n.id)));
    push_member(&mut ms, "app_name", Json::Str(clone_string(&n.app)));
    push_member(&mut ms, "title", Json::Str(clone_string(&n.title)));
    push_member(&mut ms, "body", Json::Str(clone_string(&n.body)));
    push_member(&mut ms, "created_at", Json::Str(clone_string(&n.time)));
    assert(view_members(ms@) =~= seq![
        ("id"@, JsonV::Str(n.id@)),
        ("app_name"@, JsonV::Str(n.app@)),
        ("title"@, JsonV::Str(n.title@)),
        ("body"@, JsonV::Str(n.body@)),
        ("created_at"@, JsonV::Str(n.time@)),
    ]);
    Json::Object(ms)
}

fn set_notif_field(n: &mut Notification, l: &Vec<char>)
    ensures
        final(n).view() == notif_set(old(n).view(), l@),
{
    match after_prefix(l, "NOTIF_ID=") {
        Some(v) => {
            n.id = string_from_chars(&v);
            return;
        },
        None => {},
    }
    match after_prefix(l, "NOTIF_APP=") {
        Some(v) => {
            n.app = string_from_chars(&v);
            return;
        },
        None => {},
    }
    match after_prefix(l, "NOTIF_TITLE=") {
        Some(v) => {
            n.title = string_from_chars(&v);
            return;
        },
        None => {},
    }
    match after_prefix(l, "NOTIF_BODY=") {
        Some(v) => {
            n.body = string_from_chars(&v);
            return;
        },
        None => {},
    }
    match after_prefix(l, "NOTIF_TIME=") {
        Some(v) => {
            n.time = string_from_chars(&v);
        },
        None => {},
    }
}

pub open spec fn notif_views(v: Seq<Notification>) -> Seq<NotifV> {
    v.map_values(|n: Notification| n.view())
}

pub open spec fn opt_notif(o: Option<Notification>) -> Option<NotifV> {
    match o {
        Some(n) => Some(n.view()),
        None => None,
    }
}

/// Reads the notifications report.
pub fn parse_notifications_output(output: &str) -> (r: Json)
    ensures
        r.view() == notifications_spec(lines_of(output@)),
{
    let cs = chars_of(output);
    let lines = split_lines(&cs);
    let ghost lv = views(lines@);
    assert(lv == lines_of(output@));
    for i in 0..lines.len()
        invariant
            lv == views(lines@),
            lv == lines_of(output@),
            first_error(lv.take(i as int)) is None,
    {
        assert(lv.take(i + 1).drop_last() =~= lv.take(i as int));
        assert(lv.take(i + 1).last() == lines@[i as int]@);
        match error_json(&lines[i]) {
            Some(e) => {
                proof { lemma_first_error_prefix(lv, i as int + 1); }
                return e;
            },
            None => {},
        }
    }
    assert(lv.take(lines.len() as int) =~= lv);
    let mut count_line: Option<usize> = None;
    let mut k: usize = 0;
    while k < lines.len() && count_line.is_none()
        invariant
            lv == views(lines@),
            k <= lines.len(),
            match count_line {
                Some(c) => c < lines.len() && first_count(lv) == strip_prefix(lv[c as int], "COUNT="@)
                    && first_count(lv) is Some,
                None => first_count(lv.take(k as int)) is None,
            },
        decreases lines.len() - k,
    {
        assert(lv.take(k + 1).drop_last() =~= lv.take(k as int));
        assert(lv.take(k + 1).last() == lines@[k as int]@);
        if chars_strip_prefix(&lines[k], "COUNT=").is_some() {
            proof { lemma_first_count_prefix(lv, k as int + 1); }
            count_line = Some(k);
        }
        k += 1;
    }
    let total: u32 = match count_line {
        Some(c) => match chars_strip_prefix(&lines[c], "COUNT=") {
            Some(v) => match parse_u32(&chars_trim(&v)) {
                Some(n) => n,
                None => 0,
            },
            None => 0,
        },
        None => {
            assert(lv.take(k as int) =~= lv);
            0
        },
    };
    let mut done: Vec<Notification> = Vec::new();
    let mut current: Option<Notification> = None;
    for i in 0..lines.len()
        invariant
            lv == views(lines@),
            lv == lines_of(output@),
            (notif_views(done@), opt_notif(current)) == notif_fold(lv.take(i as int)),
    {
        assert(lv.take(i + 1).drop_last() =~= lv.take(i as int));
        assert(lv.take(i + 1).last() == lines@[i as int]@);
        let l = &lines[i];
        if chars_starts_with(l, &chars_of("NOTIF_START=")) {
            current = Some(Notification {
                id: String::new(),
                app: String::new(),
                title: String::new(),
                body: String::new(),
                time: String::new(),
            });
        } else if chars_starts_with(l, &chars_of("NOTIF_END=")) {
            match current {
                Some(n) => {
                    let ghost before = notif_views(done@);
                    let ghost nv = n.view();
                    done.push(n);
                    assert(notif_views(done@) =~= before.push(nv));
                },
                None => {},
            }
            current = None;
        } else {
            match current {
                Some(mut n) => {
                    set_notif_field(&mut n, l);
                    current = Some(n);
                },
                None => {},
            }
        }
    }
    assert(lv.take(lines.len() as int) =~= lv);
    let mut items: Vec<Json> = Vec::new();
    for j in 0..done.len()
        invariant
            view_items(items@) == notif_views(done@).take(j as int).map_values(|n: NotifV| notif_json(n)),
    {
        push_item(&mut items, notif_to_json(&done[j]));
        assert(view_items(items@) =~= notif_views(done@).take(j + 1).map_values(|n: NotifV| notif_json(n)));
    }
    assert(notif_views(done@).take(done.len() as int) =~= notif_views(done@));
    let mut ms: Vec<(String, Json)> = Vec::new();
    push_member(&mut ms, "count", Json::Number(JsonNumber::Unsigned(total as u64)));
    push_member(&mut ms, "returned", Json::Number(JsonNumber::Unsigned(done.len() as u64)));
    let ghost iv = view_items(items@);
    push_member(&mut ms, "notifications", Json::Array(items));
    assert(view_members(ms@) =~= seq![
        ("count"@, unsigned(total as nat)),
        ("returned"@, unsigned(notif_views(done@).len())),
        ("notifications"@, JsonV::Array(iv)),
    ]);
    Json::Object(ms)
}

proof fn lemma_first_error_prefix(lines: Seq<Seq<char>>, k: int)
    requires
        0 <= k <= lines.len(),
        first_error(lines.take(k)) is Some,
    ensures
        first_error(lines) == first_error(lines.take(k)),
    decreases lines.len() - k,
{
    if k < lines.len() {
        assert(lines.drop_last().take(k) =~= lines.take(k));
        lemma_first_error_prefix(lines.drop_last(), k);
    } else {
        assert(lines.take(k) =~= lines);
    }
}

proof fn lemma_first_count_prefix(lines: Seq<Seq<char>>, k: int)
    requires
        0 <= k <= lines.len(),
        first_count(lines.take(k)) is Some,
    ensures
        first_count(lines) == first_count(lines.take(k)),
    decreases lines.len() - k,
{
    if k < lines.len() {
        assert(lines.drop_last().take(k) =~= lines.take(k));
        lemma_first_count_prefix(lines.drop_last(), k);
    } else {
        assert(lines.take(k) =~= lines);
    }
}

// ---------------------------------------------------------------------------
// Tray icons
// ---------------------------------------------------------------------------

/// A tray icon being read.
pub struct TrayIcon {
    pub area: String,
    pub pid: u32,
    pub proc_name: String,
    pub exe_path: String,
    pub tooltip: String,
    pub visible: bool,
}

pub type IconV = (Seq<char>, u32, Seq<char>, Seq<char>, Seq<char>, bool);

impl TrayIcon {
    pub open spec fn view(&self) -> IconV {
        (self.area@, self.pid, self.proc_name@, self.exe_path@, self.tooltip@, self.visible)
    }
}

pub open spec fn empty_icon() -> IconV {
    (Seq::empty(), 0, Seq::empty(), Seq::empty(), Seq::empty(), false)
}

/// A field line of an icon sets the field it names (an unreadable pid is 0;
/// visible when the value is `true` in any ASCII case).
pub open spec fn icon_set(n: IconV, l: Seq<char>) -> IconV {
    match after(l, "ICON_AREA="@) {
        Some(v) => (v, n.1, n.2, n.3, n.4, n.5),
        None => match after(l, "ICON_PID="@) {
            Some(v) => (n.0, match parse_u32_spec(v) { Some(p) => p, None => 0 }, n.2, n.3, n.4, n.5),
            None => match after(l, "ICON_PROCNAME="@) {
                Some(v) => (n.0, n.1, v, n.3, n.4, n.5),
                None => match after(l, "ICON_EXEPATH="@) {
                    Some(v) => (n.0, n.1, n.2, v, n.4, n.5),
                    None => match after(l, "ICON_TOOLTIP="@) {
                        Some(v) => (n.0, n.1, n.2, n.3, v, n.5),
                        None => match after(l, "ICON_VISIBLE="@) {
                            Some(v) => (n.0, n.1, n.2, n.3, n.4, eq_ignore_case(v, "true"@)),
                            None => n,
                        },
                    },
                },
            },
        },
    }
}

/// `ICON_START=` opens an icon, `ICON_END=` closes the open one; lines
/// between set its fields.
pub open spec fn icon_fold(lines: Seq<Seq<char>>) -> (Seq<IconV>, Option<IconV>)
    decreases lines.len(),
{
    if lines.len() == 0 {
        (Seq::empty(), None)
    } else {
        let (done, cur) = icon_fold(lines.drop_last());
        let l = lines.last();
        if starts_with(l, "ICON_START="@) {
            (done, Some(empty_icon()))
        } else if starts_with(l, "ICON_END="@) {
            match cur {
                Some(n) => (done.push(n), None),
                None => (done, None),
            }
        } else {
            match cur {
                Some(n) => (done, Some(icon_set(n, l))),
                None => (done, None),
            }
        }
    }
}

pub open spec fn icon_json(n: IconV) -> JsonV {
    JsonV::Object(seq![
        ("area"@, JsonV::Str(n.0)),
        ("pid"@, unsigned(n.1 as nat)),
        ("process_name"@, JsonV::Str(n.2)),
        ("exe_path"@, JsonV::Str(n.3)),
        ("tooltip"@, JsonV::Str(n.4)),
        ("visible"@, JsonV::Bool(n.5)),
    ])
}

/// How many icons are visible.
pub open spec fn visible_count(icons: Seq<IconV>) -> nat
    decreases icons.len(),
{
    if icons.len() == 0 {
        0
    } else {
        visible_count(icons.drop_last()) + if icons.last().5 { 1nat } else { 0nat }
    }
}

/// How many icons sit in the overflow area.
pub open spec fn overflow_count(icons: Seq<IconV>) -> nat
    decreases icons.len(),
{
    if icons.len() == 0 {
        0
    } else {
        overflow_count(icons.drop_last()) + if icons.last().0 == "Overflow"@ { 1nat } else { 0nat }
    }
}

/// The tray-icon report: the icons with their counts, and the trimmed error
/// output as a warning when there is any.
pub open spec fn tray_report_spec(lines: Seq<Seq<char>>, stderr: Seq<char>) -> JsonV {
    let icons = icon_fold(lines).0;
    let base = seq![
        ("count"@, unsigned(icons.len())),
        ("visible_count"@, unsigned(visible_count(icons))),
        ("overflow_count"@, unsigned(overflow_count(icons))),
        ("icons"@, JsonV::Array(icons.map_values(|n: IconV| icon_json(n)))),
    ];
    if trim(stderr).len() > 0 {
        JsonV::Object(base.push(("warning"@, JsonV::Str(trim(stderr)))))
    } else {
        JsonV::Object(base)
    }
}

fn set_icon_field(n: &mut TrayIcon, l: &Vec<char>)
    ensures
        final(n).view() == icon_set(old(n).view(), l@),
{
    match after_prefix(l, "ICON_AREA=") {
        Some(v) => {
            n.area = string_from_chars(&v);
            return;
        },
        None => {},
    }
    match after_prefix(l, "ICON_PID=") {
        Some(v) => {
            n.pid = match parse_u32(&v) {
                Some(p) => p,
                None => 0,
            };
            return;
        },
        None => {},
    }
    match after_prefix(l, "ICON_PROCNAME=") {
        Some(v) => {
            n.proc_name = string_from_chars(&v);
            return;
        },
        None => {},
    }
    match after_prefix(l, "ICON_EXEPATH=") {
        Some(v) => {
            n.exe_path = string_from_chars(&v);
            return;
        },
        None => {},
    }
    match after_prefix(l, "ICON_TOOLTIP=") {
        Some(v) => {
            n.tooltip = string_from_chars(&v);
            return;
        },
        None => {},
    }
    match after_prefix(l, "ICON_VISIBLE=") {
        Some(v) => {
            n.visible = chars_eq_ignore_case(&v, &chars_of("true"));
        },
        None => {},
    }
}

fn icon_to_json(n: &TrayIcon) -> (r: Json)
    ensures
        r.view() == icon_json(n.view()),
{
    let mut ms: Vec<(String, Json)> = Vec::new();
    push_member(&mut ms, "area", Json::Str(clone_string(&n.area)));
    push_member(&mut ms, "pid", Json::Number(JsonNumber::Unsigned(n.pid as u64)));
    push_member(&mut ms, "process_name", Json::Str(clone_string(&n.proc_name)));
    push_member(&mut ms, "exe_path", Json::Str(clone_string(&n.exe_path)));
    push_member(&mut ms, "tooltip", Json::Str(clone_string(&n.tooltip)));
    push_member(&mut ms, "visible", Json::Bool(n.visible));
    assert(view_members(ms@) =~= seq![
        ("area"@, JsonV::Str(n.area@)),
        ("pid"@, unsigned(n.pid as nat)),
        ("process_name"@, JsonV::Str(n.proc_name@)),
        ("exe_path"@, JsonV::Str(n.exe_path@)),
        ("tooltip"@, JsonV::Str(n.tooltip@)),
        ("visible"@, JsonV::Bool(n.visible)),
    ]);
    Json::Object(ms)
}

pub open spec fn icon_views(v: Seq<TrayIcon>) -> Seq<IconV> {
    v.map_values(|n: TrayIcon| n.view())
}

pub open spec fn opt_icon(o: Option<TrayIcon>) -> Option<IconV> {
    match o {
        Some(n) => Some(n.view()),
        None => None,
    }
}

/// Reads the tray-icon report.
pub fn parse_tray_output(stdout: &str, stderr: &str) -> (r: Json)
    ensures
        r.view() == tray_report_spec(lines_of(stdout@), stderr@),
{
    let cs = chars_of(stdout);
    let lines = split_lines(&cs);
    let ghost lv = views(lines@);
    let mut done: Vec<TrayIcon> = Vec::new();
    let mut current: Option<TrayIcon> = None;
    for i in 0..lines.len()
        invariant
            lv == views(lines@),
            (icon_views(done@), opt_icon(current)) == icon_fold(lv.take(i as int)),
    {
        assert(lv.take(i + 1).drop_last() =~= lv.take(i as int));
        assert(lv.take(i + 1).last() == lines@[i as int]@);
        let l = &lines[i];
        if chars_starts_with(l, &chars_of("ICON_START=")) {
            current = Some(TrayIcon {
                area: String::new(),
                pid: 0,
                proc_name: String::new(),
                exe_path: String::new(),
                tooltip: String::new(),
                visible: false,
            });
        } else if chars_starts_with(l, &chars_of("ICON_END=")) {
            match current {
                Some(n) => {
                    let ghost before = icon_views(done@);
                    let ghost nv = n.view();
                    done.push(n);
                    assert(icon_views(done@) =~= before.push(nv));
                },
                None => {},
            }
            current = None;
        } else {
            match current {
                Some(mut n) => {
                    set_icon_field(&mut n, l);
                    current = Some(n);
                },
                None => {},
            }
        }
    }
    assert(lv.take(lines.len() as int) =~= lv);
    let ghost iv = icon_views(done@);
    let mut items: Vec<Json> = Vec::new();
    let mut visible: u64 = 0;
    let mut overflow: u64 = 0;
    for j in 0..done.len()
        invariant
            iv == icon_views(done@),
            view_items(items@) == iv.take(j as int).map_values(|n: IconV| icon_json(n)),
            visible as nat == visible_count(iv.take(j as int)),
            overflow as nat == overflow_count(iv.take(j as int)),
            visible <= j,
            overflow <= j,
    {
        assert(iv.take(j + 1).drop_last() =~= iv.take(j as int));
        assert(iv.take(j + 1).last() == done@[j as int].view());
        push_item(&mut items, icon_to_json(&done[j]));
        assert(view_items(items@) =~= iv.take(j + 1).map_values(|n: IconV| icon_json(n)));
        if done[j].visible {
            visible += 1;
        }
        if crate::text::str_eq(done[j].area.as_str(), "Overflow") {
            overflow += 1;
        }
    }
    assert(iv.take(done.len() as int) =~= iv);
    let mut ms: Vec<(String, Json)> = Vec::new();
    push_member(&mut ms, "count", Json::Number(JsonNumber::Unsigned(done.len() as u64)));
    push_member(&mut ms, "visible_count", Json::Number(JsonNumber::Unsigned(visible)));
    push_member(&mut ms, "overflow_count", Json::Number(JsonNumber::Unsigned(overflow)));
    let ghost items_v = view_items(items@);
    push_member(&mut ms, "icons", Json::Array(items));
    let ghost base = seq![
        ("count"@, unsigned(iv.len())),
        ("visible_count"@, unsigned(visible_count(iv))),
        ("overflow_count"@, unsigned(overflow_count(iv))),
        ("icons"@, JsonV::Array(items_v)),
    ];
    assert(view_members(ms@) =~= base);
    let warn = str_trim(stderr);
    if warn.len() > 0 {
        push_member(&mut ms, "warning", Json::Str(string_from_chars(&warn)));
    }
    assert(lv =~= lines_of(stdout@));
    Json::Object(ms)
}

// ---------------------------------------------------------------------------
// Bluetooth devices
// ---------------------------------------------------------------------------

/// The Bluetooth reader's state: the devices so far, the open device's name,
/// connection, address, class and type, and whether a device is open.
pub type BtState = (Seq<JsonV>, Seq<char>, bool, Seq<char>, Seq<char>, Seq<char>, bool);

/// A text, or `null` when it is empty.
pub open spec fn text_or_null(t: Seq<char>) -> JsonV {
    if t.len() == 0 { JsonV::Null } else { JsonV::Str(t) }
}

pub open spec fn device_json(name: Seq<char>, connected: bool, address: Seq<char>, class: Seq<char>, kind: Seq<char>) -> JsonV {
    JsonV::Object(seq![
        ("name"@, JsonV::Str(name)),
        ("connected"@, JsonV::Bool(connected)),
        ("address"@, text_or_null(address)),
        ("class"@, text_or_null(class)),
        ("type"@, text_or_null(kind)),
    ])
}

/// One trimmed line: `BEGIN_DEVICE` opens a device with empty fields;
/// `END_DEVICE` closes it and keeps it when it has a name that is not an
/// AVRCP transport; inside a device, `Name=`, `Connected=`, `Address=`,
/// `Class=` and `Type=` set its fields.
pub open spec fn bt_step(st: BtState, line: Seq<char>) -> BtState {
    let l = trim(line);
    if l == "BEGIN_DEVICE"@ {
        (st.0, Seq::empty(), false, Seq::empty(), Seq::empty(), Seq::empty(), true)
    } else if l == "END_DEVICE"@ {
        if st.6 && st.1.len() > 0 && !contains_seq(unicode_lower(st.1), "avrcp transport"@) {
            (st.0.push(device_json(st.1, st.2, st.3, st.4, st.5)), st.1, st.2, st.3, st.4, st.5, false)
        } else {
            (st.0, st.1, st.2, st.3, st.4, st.5, false)
        }
    } else if !st.6 {
        st
    } else {
        match after(l, "Name="@) {
            Some(v) => (st.0, v, st.2, st.3, st.4, st.5, st.6),
            None => match after(l, "Connected="@) {
                Some(v) => (st.0, st.1, eq_ignore_case(v, "True"@), st.3, st.4, st.5, st.6),
                None => match after(l, "Address="@) {
                    Some(v) => (st.0, st.1, st.2, v, st.4, st.5, st.6),
                    None => match after(l, "Class="@) {
                        Some(v) => (st.0, st.1, st.2, st.3, v, st.5, st.6),
                        None => match after(l, "Type="@) {
                            Some(v) => (st.0, st.1, st.2, st.3, st.4, v, st.6),
                            None => st,
                        },
                    },
                },
            },
        }
    }
}

pub open spec fn bt_fold(lines: Seq<Seq<char>>) -> BtState
    decreases lines.len(),
{
    if lines.len() == 0 {
        (Seq::empty(), Seq::empty(), false, Seq::empty(), Seq::empty(), Seq::empty(), false)
    } else {
        bt_step(bt_fold(lines.drop_last()), lines.last())
    }
}

fn text_or_null_json(t: &Vec<char>) -> (r: Json)
    ensures
        r.view() == text_or_null(t@),
{
    if t.len() == 0 {
        Json::Null
    } else {
        Json::Str(string_from_chars(t))
    }
}

fn device_to_json(name: &Vec<char>, connected: bool, address: &Vec<char>, class: &Vec<char>, kind: &Vec<char>) -> (r: Json)
    ensures
        r.view() == device_json(name@, connected, address@, class@, kind@),
{
    let mut ms: Vec<(String, Json)> = Vec::new();
    push_member(&mut ms, "name", Json::Str(string_from_chars(name)));
    push_member(&mut ms, "connected", Json::Bool(connected));
    push_member(&mut ms, "address", text_or_null_json(address));
    push_member(&mut ms, "class", text_or_null_json(class));
    push_member(&mut ms, "type", text_or_null_json(kind));
    assert(view_members(ms@) =~= seq![
        ("name"@, JsonV::Str(name@)),
        ("connected"@, JsonV::Bool(connected)),
        ("address"@, text_or_null(address@)),
        ("class"@, text_or_null(class@)),
        ("type"@, text_or_null(kind@)),
    ]);
    Json::Object(ms)
}

/// Reads the Bluetooth report into device objects.
pub fn parse_bluetooth_output(text: &str) -> (r: Vec<Json>)
    ensures
        view_items(r@) == bt_fold(lines_of(text@)).0,
{
    let cs = chars_of(text);
    let lines = split_lines(&cs);
    let ghost lv = views(lines@);
    let mut devices: Vec<Json> = Vec::new();
    let mut name: Vec<char> = Vec::new();
    let mut connected = false;
    let mut address: Vec<char> = Vec::new();
    let mut class: Vec<char> = Vec::new();
    let mut kind: Vec<char> = Vec::new();
    let mut in_device = false;
    let begin = chars_of("BEGIN_DEVICE");
    let end = chars_of("END_DEVICE");
    let avrcp = chars_of("avrcp transport");
    for i in 0..lines.len()
        invariant
            lv == views(lines@),
            lv == lines_of(text@),
            begin@ == "BEGIN_DEVICE"@,
            end@ == "END_DEVICE"@,
            avrcp@ == "avrcp transport"@,
            (view_items(devices@), name@, connected, address@, class@, kind@, in_device) == bt_fold(lv.take(i as int)),
    {
        assert(lv.take(i + 1).drop_last() =~= lv.take(i as int));
        assert(lv.take(i + 1).last() == lines@[i as int]@);
        let l = chars_trim(&lines[i]);
        if crate::text::chars_eq(&l, &begin) {
            in_device = true;
            name = Vec::new();
            connected = false;
            address = Vec::new();
            class = Vec::new();
            kind = Vec::new();
        } else if crate::text::chars_eq(&l, &end) {
            if in_device && name.len() > 0 {
                let ns = string_from_chars(&name);
                let lower = to_lowercase(ns.as_str());
                let lc = chars_of(lower.as_str());
                if !chars_contains_seq(&lc, &avrcp) {
                    push_item(&mut devices, device_to_json(&name, connected, &address, &class, &kind));
                }
            }
            in_device = false;
        } else if in_device {
            match after_prefix(&l, "Name=") {
                Some(v) => {
                    name = v;
                },
                None => match after_prefix(&l, "Connected=") {
                    Some(v) => {
                        connected = chars_eq_ignore_case(&v, &chars_of("True"));
                    },
                    None => match after_prefix(&l, "Address=") {
                        Some(v) => {
                            address = v;
                        },
                        None => match after_prefix(&l, "Class=") {
                            Some(v) => {
                                class = v;
                            },
                            None => match after_prefix(&l, "Type=") {
                                Some(v) => {
                                    kind = v;
                                },
                                None => {},
                            },
                        },
                    },
                },
            }
        }
    }
    assert(lv.take(lines.len() as int) =~= lv);
    devices
}

} // verus!
