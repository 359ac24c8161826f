//! Windows on the desktop: how a window is named, which system windows are
//! left out, its state, and the registry entry that describes it.
use vstd::prelude::*;
use crate::json::{Json, JsonV, NumberV, JsonNumber, view_members, push_member};
use crate::registry::{RegistryEntry, EntryV};
use crate::text::{
    chars_of, clone_string, str_eq, lower_seq, string_from_chars, string_from_str, push_str_chars, push_all,
    decimal, u64_decimal, chars_eq, lower_chars,
};

verus! {

/// A window's size.
#[derive(Debug)]
pub struct WindowSize {
    pub width: i32,
    pub height: i32,
}

/// A window's position.
#[derive(Debug)]
pub struct WindowPosition {
    pub x: i32,
    pub y: i32,
}

/// What the registry records of a window.
#[derive(Debug)]
pub struct ActiveWindowInfo {
    pub monitor_id: String,
    pub focused: bool,
    pub app_icon: String,
    pub app_name: String,
    pub exe_path: String,
    pub window_title: String,
    pub pid: u32,
    pub window_state: String,
    pub size: WindowSize,
    pub position: WindowPosition,
}

/// Lists the windows on the desktop (through the operating system).
pub struct ActiveWindowManager;

/// The last piece of a path split at `\` and `/`.
pub open spec fn last_piece(path: Seq<char>) -> Seq<char>
    decreases path.len(),
{
    if path.len() == 0 {
        Seq::empty()
    } else if path.last() == '\\' || path.last() == '/' {
        Seq::empty()
    } else {
        last_piece(path.drop_last()).push(path.last())
    }
}

/// A window's application name: the process's friendly name unless it is
/// empty or `unknown`, else the executable's file name, else `unknown`.
pub open spec fn app_name_spec(friendly: Seq<char>, exe_path: Seq<char>) -> Seq<char> {
    if friendly.len() > 0 && friendly != "unknown"@ {
        friendly
    } else if exe_path.len() > 0 {
        last_piece(exe_path)
    } else {
        "unknown"@
    }
}

fn file_part(path: &Vec<char>) -> (r: Vec<char>)
    ensures
        r@ == last_piece(path@),
{
    let mut out: Vec<char> = Vec::new();
    for i in 0..path.len()
        invariant
            out@ == last_piece(path@.take(i as int)),
    {
        assert(path@.take(i + 1).drop_last() =~= path@.take(i as int));
        assert(path@.take(i + 1).last() == path@[i as int]);
        if path[i] == '\\' || path[i] == '/' {
            out = Vec::new();
        } else {
            out.push(path[i]);
        }
    }
    assert(path@.take(path.len() as int) =~= path@);
    out
}

/// A window's application name.
pub fn app_name_for(friendly: &str, exe_path: &str) -> (r: String)
    ensures
        r@ == app_name_spec(friendly@, exe_path@),
{
    let f = chars_of(friendly);
    if f.len() > 0 && !str_eq(friendly, "unknown") {
        return string_from_chars(&f);
    }
    let e = chars_of(exe_path);
    if e.len() > 0 {
        return string_from_chars(&file_part(&e));
    }
    string_from_str("unknown")
}

/// System windows that are never listed (by application name, ASCII case ignored).
pub open spec fn is_excluded_app(name: Seq<char>) -> bool {
    let n = lower_seq(name);
    ||| n == "textinputhost.exe"@
    ||| n == "searchhost.exe"@
    ||| n == "shellexperiencehost.exe"@
    ||| n == "startmenuexperiencehost.exe"@
    ||| n == "applicationframehost.exe"@
    ||| n == "systemsettings.exe"@
}

pub fn excluded_app(name: &str) -> (r: bool)
    ensures
        r == is_excluded_app(name@),
{
    let n = lower_chars(&chars_of(name));
    chars_eq(&n, &chars_of("textinputhost.exe")) || chars_eq(&n, &chars_of("searchhost.exe")) || chars_eq(
        &n,
        &chars_of("shellexperiencehost.exe"),
    ) || chars_eq(&n, &chars_of("startmenuexperiencehost.exe")) || chars_eq(
        &n,
        &chars_of("applicationframehost.exe"),
    ) || chars_eq(&n, &chars_of("systemsettings.exe"))
}

/// A window's icon: `icon.ico` under its executable's path, or nothing.
pub fn app_icon_for(exe_path: &str) -> (r: String)
    ensures
        r@ == if exe_path@.len() > 0 { exe_path@ + "\\icon.ico"@ } else { Seq::empty() },
{
    let e = chars_of(exe_path);
    if e.len() == 0 {
        return String::new();
    }
    let mut out = e;
    push_str_chars(&mut out, "\\icon.ico");
    string_from_chars(&out)
}

/// A rectangle: left, top, right, bottom.
#[derive(Debug)]
pub struct Rect {
    pub left: i32,
    pub top: i32,
    pub right: i32,
    pub bottom: i32,
}

pub open spec fn abs_int(v: int) -> int {
    if v < 0 { -v } else { v }
}

/// The window's rectangle is the monitor's, each edge within one pixel.
pub open spec fn covers(w: Rect, m: Rect) -> bool {
    abs_int(w.left - m.left) <= 1 && abs_int(w.top - m.top) <= 1 && abs_int(w.right - m.right) <= 1
        && abs_int(w.bottom - m.bottom) <= 1
}

/// `fullscreen` when the window covers its monitor, is not maximized and
/// has no frame; else `maximized` or `normal`.
pub open spec fn window_state_spec(rect_ok: bool, w: Rect, m: Rect, maximized: bool, has_frame: bool) -> Seq<char> {
    if rect_ok && covers(w, m) && !maximized && !has_frame {
        "fullscreen"@
    } else if maximized {
        "maximized"@
    } else {
        "normal"@
    }
}

fn within_one(a: i32, b: i32) -> (r: bool)
    ensures
        r == (abs_int(a - b) <= 1),
{
    let d = a as i64 - b as i64;
    -1 <= d && d <= 1
}

pub fn window_state(rect_ok: bool, w: &Rect, m: &Rect, maximized: bool, has_frame: bool) -> (r: &'static str)
    ensures
        r@ == window_state_spec(rect_ok, *w, *m, maximized, has_frame),
{
    let covers_monitor = rect_ok && within_one(w.left, m.left) && within_one(w.top, m.top) && within_one(
        w.right,
        m.right,
    ) && within_one(w.bottom, m.bottom);
    if covers_monitor && !maximized && !has_frame {
        "fullscreen"
    } else if maximized {
        "maximized"
    } else {
        "normal"
    }
}

/// A size that is never negative.
pub open spec fn clamp0(v: int) -> int {
    if v < 0 { 0 } else { v }
}

/// What the registry records of a window, as values.
pub struct WindowV {
    pub monitor_id: Seq<char>,
    pub focused: bool,
    pub app_icon: Seq<char>,
    pub app_name: Seq<char>,
    pub exe_path: Seq<char>,
    pub window_title: Seq<char>,
    pub pid: u32,
    pub window_state: Seq<char>,
    pub width: i32,
    pub height: i32,
    pub x: i32,
    pub y: i32,
}

impl ActiveWindowInfo {
    pub open spec fn view(&self) -> WindowV {
        WindowV {
            monitor_id: self.monitor_id@,
            focused: self.focused,
            app_icon: self.app_icon@,
            app_name: self.app_name@,
            exe_path: self.exe_path@,
            window_title: self.window_title@,
            pid: self.pid,
            window_state: self.window_state@,
            width: self.size.width,
            height: self.size.height,
            x: self.position.x,
            y: self.position.y,
        }
    }
}

/// What a window's metadata holds.
pub open spec fn window_json_spec(v: WindowV) -> JsonV {
    JsonV::Object(window_members(v))
}

pub open spec fn window_members(v: WindowV) -> Seq<(Seq<char>, JsonV)> {
    seq![
        ("monitor_id"@, JsonV::Str(v.monitor_id)),
        ("focused"@, JsonV::Bool(v.focused)),
        ("app_icon"@, JsonV::Str(v.app_icon)),
        ("app_name"@, JsonV::Str(v.app_name)),
        ("exe_path"@, JsonV::Str(v.exe_path)),
        ("window_title"@, JsonV::Str(v.window_title)),
        ("pid"@, JsonV::Number(NumberV::Unsigned(v.pid as u64))),
        ("window_state"@, JsonV::Str(v.window_state)),
        ("size"@, JsonV::Object(seq![
            ("width"@, JsonV::Number(NumberV::Signed(v.width as i64))),
            ("height"@, JsonV::Number(NumberV::Signed(v.height as i64))),
        ])),
        ("position"@, JsonV::Object(seq![
            ("x"@, JsonV::Number(NumberV::Signed(v.x as i64))),
            ("y"@, JsonV::Number(NumberV::Signed(v.y as i64))),
        ])),
    ]
}

fn pair_json(a: &str, av: i32, b: &str, bv: i32) -> (r: Json)
    ensures
        r.view() == JsonV::Object(seq![
            (a@, JsonV::Number(NumberV::Signed(av as i64))),
            (b@, JsonV::Number(NumberV::Signed(bv as i64))),
        ]),
{
    let mut ms: Vec<(String, Json)> = Vec::new();
    push_member(&mut ms, a, Json::Number(JsonNumber::Signed(av as i64)));
    push_member(&mut ms, b, Json::Number(JsonNumber::Signed(bv as i64)));
    assert(view_members(ms@) =~= seq![
        (a@, JsonV::Number(NumberV::Signed(av as i64))),
        (b@, JsonV::Number(NumberV::Signed(bv as i64))),
    ]);
    Json::Object(ms)
}

/// A window's metadata.
pub fn window_json(info: &ActiveWindowInfo) -> (r: Json)
    ensures
        r.view() == window_json_spec(info.view()),
{
    let mut ms: Vec<(String, Json)> = Vec::new();
    push_member(&mut ms, "monitor_id", Json::Str(clone_string(&info.monitor_id)));
    push_member(&mut ms, "focused", Json::Bool(info.focused));
    push_member(&mut ms, "app_icon", Json::Str(clone_string(&info.app_icon)));
    push_member(&mut ms, "app_name", Json::Str(clone_string(&info.app_name)));
    push_member(&mut ms, "exe_path", Json::Str(clone_string(&info.exe_path)));
    push_member(&mut ms, "window_title", Json::Str(clone_string(&info.window_title)));
    push_member(&mut ms, "pid", Json::Number(JsonNumber::Unsigned(info.pid as u64)));
    push_member(&mut ms, "window_state", Json::Str(clone_string(&info.window_state)));
    push_member(&mut ms, "size", pair_json("width", info.size.width, "height", info.size.height));
    push_member(&mut ms, "position", pair_json("x", info.position.x, "y", info.position.y));
    assert(view_members(ms@) =~= window_members(info.view()));
    Json::Object(ms)
}

/// What the probe reads of a window and its monitor.
#[derive(Debug)]
pub struct WindowFacts {
    pub handle: u64,
    pub monitor_id: String,
    pub focused: bool,
    pub friendly_name: String,
    pub exe_path: String,
    pub window_title: String,
    pub pid: u32,
    pub rect_ok: bool,
    pub rect: Rect,
    pub monitor_rect: Rect,
    pub maximized: bool,
    pub has_frame: bool,
}

/// The window's width and height fit an `i32`.
pub open spec fn sizes_fit(r: Rect) -> bool {
    i32::MIN <= r.right - r.left <= i32::MAX && i32::MIN <= r.bottom - r.top <= i32::MAX
}

pub open spec fn icon_spec(exe_path: Seq<char>) -> Seq<char> {
    if exe_path.len() > 0 { exe_path + "\\icon.ico"@ } else { Seq::empty() }
}

/// The details the registry records of a window the probe read.
pub open spec fn window_view_of(f: WindowFacts) -> WindowV {
    WindowV {
        monitor_id: f.monitor_id@,
        focused: f.focused,
        app_icon: icon_spec(f.exe_path@),
        app_name: app_name_spec(f.friendly_name@, f.exe_path@),
        exe_path: f.exe_path@,
        window_title: f.window_title@,
        pid: f.pid,
        window_state: window_state_spec(f.rect_ok, f.rect, f.monitor_rect, f.maximized, f.has_frame),
        width: clamp0(f.rect.right - f.rect.left) as i32,
        height: clamp0(f.rect.bottom - f.rect.top) as i32,
        x: f.rect.left,
        y: f.rect.top,
    }
}

/// The registry entry of a window: `None` for the system windows left out;
/// otherwise an `active_window` entry, named after its monitor and handle,
/// whose metadata is the window's details.
pub fn window_to_monitor_info(f: &WindowFacts) -> (r: Option<RegistryEntry>)
    requires
        sizes_fit(f.rect),
    ensures
        is_excluded_app(app_name_spec(f.friendly_name@, f.exe_path@)) ==> r is None,
        !is_excluded_app(app_name_spec(f.friendly_name@, f.exe_path@)) ==> (r matches Some(e)
            && e.id@ == "active_window_"@ + f.monitor_id@ + "_"@ + decimal(f.handle as nat)
            && e.category@ == "active_window"@ && e.subtype@ == "monitor"@ && e.path@.len() == 0
            && e.exe_path@ == f.exe_path@ && e.metadata.view() == window_json_spec(window_view_of(*f))),
{
    let app_name = app_name_for(f.friendly_name.as_str(), f.exe_path.as_str());
    if excluded_app(app_name.as_str()) {
        return None;
    }
    let width = f.rect.right - f.rect.left;
    let height = f.rect.bottom - f.rect.top;
    let info = ActiveWindowInfo {
        monitor_id: clone_string(&f.monitor_id),
        focused: f.focused,
        app_icon: app_icon_for(f.exe_path.as_str()),
        app_name,
        exe_path: clone_string(&f.exe_path),
        window_title: clone_string(&f.window_title),
        pid: f.pid,
        window_state: string_from_str(window_state(f.rect_ok, &f.rect, &f.monitor_rect, f.maximized, f.has_frame)),
        size: WindowSize { width: if width < 0 { 0 } else { width }, height: if height < 0 { 0 } else { height } },
        position: WindowPosition { x: f.rect.left, y: f.rect.top },
    };
    assert(info.view() == window_view_of(*f));
    let mut id = chars_of("active_window_");
    push_str_chars(&mut id, f.monitor_id.as_str());
    push_str_chars(&mut id, "_");
    let h = u64_decimal(f.handle);
    push_all(&mut id, &h);
    Some(RegistryEntry {
        id: string_from_chars(&id),
        category: string_from_str("active_window"),
        subtype: string_from_str("monitor"),
        metadata: window_json(&info),
        path: String::new(),
        exe_path: clone_string(&f.exe_path),
    })
}

} // verus!
