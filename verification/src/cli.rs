//! The command line: which mode the process runs in, checking the
//! arguments, reading item references, and listing matching items.
use vstd::prelude::*;
use crate::json::{Json, JsonV, json_get, opt_get, as_str_spec, opt_json_view, get_member, get_opt, text_of};
use crate::text::{
    chars_of, clone_string, str_eq, str_eq_ignore_case, eq_ignore_case, string_from_str, string_from_chars,
    join_text, text_is_empty, to_lowercase, unicode_lower, split_once, chars_split_once, split_once_seq,
    chars_split_once_seq, contains_seq, chars_contains_seq, push_str_chars, push_all, decimal, u64_decimal, text_views,
};

verus! {

/// The kind of item a command is about.
#[derive(Clone, Copy, PartialEq, Eq, Structural)]
pub enum Type1 {
    Bar,
    Desktop,
    Wallpaper,
    Theme,
}

/// How `{:?}` writes a kind.
pub open spec fn type1_name(t: Type1) -> Seq<char> {
    match t {
        Type1::Bar => "Bar"@,
        Type1::Desktop => "Desktop"@,
        Type1::Wallpaper => "Wallpaper"@,
        Type1::Theme => "Theme"@,
    }
}

fn type1_text(t: Type1) -> (r: &'static str)
    ensures
        r@ == type1_name(t),
{
    match t {
        Type1::Bar => "Bar",
        Type1::Desktop => "Desktop",
        Type1::Wallpaper => "Wallpaper",
        Type1::Theme => "Theme",
    }
}

/// Bars and desktops take the sub-type `widget`; wallpapers and themes
/// `cycle` or `select`; compared after Unicode lower-casing.
pub open spec fn type2_allowed(t: Type1, type2: Seq<char>) -> bool {
    lowered_type2_allowed(t, unicode_lower(type2))
}

/// The sub-types allowed, lower-cased: `widget` for bars and desktops,
/// `cycle` or `select` for wallpapers and themes.
pub open spec fn lowered_type2_allowed(t: Type1, t2: Seq<char>) -> bool {
    match t {
        Type1::Bar | Type1::Desktop => t2 == "widget"@,
        Type1::Wallpaper | Type1::Theme => t2 == "cycle"@ || t2 == "select"@,
    }
}

/// Whether a lower-cased sub-type is allowed for a command.
pub fn lowered_type2_ok(type1: Type1, lower_type2: &str) -> (r: bool)
    ensures
        r == lowered_type2_allowed(type1, lower_type2@),
{
    match type1 {
        Type1::Bar | Type1::Desktop => str_eq(lower_type2, "widget"),
        Type1::Wallpaper | Type1::Theme => str_eq(lower_type2, "cycle") || str_eq(lower_type2, "select"),
    }
}

/// What the allowed sub-types are called in the error.
pub open spec fn allowed_text(t: Type1) -> Seq<char> {
    match t {
        Type1::Bar | Type1::Desktop => "widget"@,
        Type1::Wallpaper | Type1::Theme => "cycle/select"@,
    }
}

/// Checks the sub-type of a command.
pub fn validate_type2(type1: Type1, type2: &str) -> (r: Result<(), String>)
    ensures
        r is Ok <==> type2_allowed(type1, type2@),
        r matches Err(e) ==> e@ == "Invalid type2 '"@ + type2@ + "' for "@ + type1_name(type1) + ". Allowed: "@
            + allowed_text(type1),
{
    let t2 = to_lowercase(type2);
    if lowered_type2_ok(type1, t2.as_str()) {
        return Ok(());
    }
    let mut msg = chars_of("Invalid type2 '");
    push_str_chars(&mut msg, type2);
    push_str_chars(&mut msg, "' for ");
    push_str_chars(&mut msg, type1_text(type1));
    push_str_chars(&mut msg, ". Allowed: ");
    let allowed = match type1 {
        Type1::Bar | Type1::Desktop => "widget",
        Type1::Wallpaper | Type1::Theme => "cycle/select",
    };
    push_str_chars(&mut msg, allowed);
    Err(string_from_chars(&msg))
}

/// A reference `creator:name::id`: the creator (empty without a `:`), the
/// name, and the id after `::` when there is one.
pub open spec fn reference_parts(value: Seq<char>) -> (Seq<char>, Seq<char>, Option<Seq<char>>) {
    let (creator, rest) = match split_once(value, ':') {
        Some((c, r)) => (c, r),
        None => (Seq::empty(), value),
    };
    match split_once_seq(rest, "::"@) {
        Some((n, i)) => (creator, n, Some(i)),
        None => (creator, rest, None),
    }
}

/// Reads a reference `creator:name::id`.
pub fn parse_creator_and_id(value: &str) -> (r: (String, String, Option<String>))
    ensures
        (r.0@, r.1@, match r.2 { Some(i) => Some(i@), None => None }) == reference_parts(value@),
{
    let cs = chars_of(value);
    let (creator, rest) = match chars_split_once(&cs, ':') {
        Some((c, r)) => (c, r),
        None => (Vec::new(), cs),
    };
    match chars_split_once_seq(&rest, "::") {
        Some((n, i)) => (string_from_chars(&creator), string_from_chars(&n), Some(string_from_chars(&i))),
        None => (string_from_chars(&creator), string_from_chars(&rest), None),
    }
}

/// An item found in a content directory.
#[derive(Debug)]
pub struct FoundItem {
    pub creator: String,
    pub name: String,
    pub id: String,
    pub path: String,
}

/// A filter matches when it is empty, or when the lower-cased text contains
/// the lower-cased filter.
pub open spec fn filter_matches(text: Seq<char>, filter: Seq<char>) -> bool {
    filter.len() == 0 || contains_seq(unicode_lower(text), unicode_lower(filter))
}

pub open spec fn item_matches(it: FoundItem, creator_like: Seq<char>, name_like: Seq<char>) -> bool {
    filter_matches(it.creator@, creator_like) && filter_matches(it.name@, name_like)
}

/// The positions of the matching items, in order.
pub open spec fn matching_positions(items: Seq<FoundItem>, creator_like: Seq<char>, name_like: Seq<char>) -> Seq<usize>
    decreases items.len(),
{
    if items.len() == 0 {
        Seq::empty()
    } else {
        let rest = matching_positions(items.drop_last(), creator_like, name_like);
        if item_matches(items.last(), creator_like, name_like) { rest.push((items.len() - 1) as usize) } else { rest }
    }
}

/// At most this many matches are listed.
pub const MAX_MATCHES: usize = 5;

fn filter_ok(text: &str, filter: &str) -> (r: bool)
    ensures
        r == filter_matches(text@, filter@),
{
    if text_is_empty(filter) {
        return true;
    }
    let t = to_lowercase(text);
    let f = to_lowercase(filter);
    let tc = chars_of(t.as_str());
    let fc = chars_of(f.as_str());
    chars_contains_seq(&tc, &fc)
}

/// The first five items whose creator and name match the filters (by
/// position in `items`).
pub fn best_matches(items: &Vec<FoundItem>, creator_like: &str, name_like: &str) -> (r: Vec<usize>)
    ensures
        r@ == matching_positions(items@, creator_like@, name_like@).take(
            if matching_positions(items@, creator_like@, name_like@).len() < MAX_MATCHES {
                matching_positions(items@, creator_like@, name_like@).len() as int
            } else {
                MAX_MATCHES as int
            },
        ),
{
    let mut all: Vec<usize> = Vec::new();
    for i in 0..items.len()
        invariant
            all@ == matching_positions(items@.take(i as int), creator_like@, name_like@),
    {
        assert(items@.take(i + 1).drop_last() =~= items@.take(i as int));
        assert(items@.take(i + 1).last() == items@[i as int]);
        let it = &items[i];
        if filter_ok(it.creator.as_str(), creator_like) && filter_ok(it.name.as_str(), name_like) {
            all.push(i);
        }
    }
    assert(items@.take(items.len() as int) =~= items@);
    let keep = if all.len() < MAX_MATCHES { all.len() } else { MAX_MATCHES };
    let mut out: Vec<usize> = Vec::new();
    for k in 0..keep
        invariant
            keep <= all.len(),
            out@ == all@.take(k as int),
    {
        out.push(all[k]);
        assert(all@.take(k + 1) =~= all@.take(k as int).push(all@[k as int]));
    }
    out
}

/// The line that lists a match: ` {n}. {creator}:{name}::{id}`, numbered from 1.
pub fn list_line(index: usize, it: &FoundItem) -> (r: String)
    requires
        index < usize::MAX,
    ensures
        r@ == " "@ + decimal((index + 1) as nat) + ". "@ + it.creator@ + ":"@ + it.name@ + "::"@ + it.id@,
{
    let mut out = chars_of(" ");
    let n = u64_decimal((index + 1) as u64);
    push_all(&mut out, &n);
    push_str_chars(&mut out, ". ");
    push_str_chars(&mut out, it.creator.as_str());
    push_str_chars(&mut out, ":");
    push_str_chars(&mut out, it.name.as_str());
    push_str_chars(&mut out, "::");
    push_str_chars(&mut out, it.id.as_str());
    string_from_chars(&out)
}

// ---------------------------------------------------------------------------
// Reading manifests
// ---------------------------------------------------------------------------

/// Where a kind's items live under a content directory.
pub fn discovery_subfolder(t: Type1) -> (r: &'static str)
    ensures
        r@ == match t {
            Type1::Bar | Type1::Desktop => "Widget"@,
            Type1::Wallpaper => "Wallpaper"@,
            Type1::Theme => "Theme"@,
        },
{
    match t {
        Type1::Bar | Type1::Desktop => "Widget",
        Type1::Wallpaper => "Wallpaper",
        Type1::Theme => "Theme",
    }
}

/// The manifest `type` that a kind's items carry.
pub fn manifest_type(t: Type1) -> (r: &'static str)
    ensures
        r@ == match t {
            Type1::Bar | Type1::Desktop => "widget"@,
            Type1::Wallpaper => "wallpaper"@,
            Type1::Theme => "theme"@,
        },
{
    match t {
        Type1::Bar | Type1::Desktop => "widget",
        Type1::Wallpaper => "wallpaper",
        Type1::Theme => "theme",
    }
}

pub open spec fn text_or_empty(o: Option<Seq<char>>) -> Seq<char> {
    match o {
        Some(t) => t,
        None => Seq::empty(),
    }
}

fn text_value(o: Option<&Json>) -> (r: String)
    ensures
        r@ == text_or_empty(as_str_spec(opt_json_view(o))),
{
    match text_of(o) {
        Some(t) => t,
        None => String::new(),
    }
}

/// The item a manifest in a creator's folder describes: its `name` and `id`
/// must both be non-empty.
pub fn item_from_manifest(creator: &str, manifest: &Json, path: &str) -> (r: Option<FoundItem>)
    ensures
        ({
            let name = text_or_empty(as_str_spec(json_get(manifest.view(), "name"@)));
            let id = text_or_empty(as_str_spec(json_get(manifest.view(), "id"@)));
            if name.len() > 0 && id.len() > 0 {
                r matches Some(it) && it.creator@ == creator@ && it.name@ == name && it.id@ == id && it.path@ == path@
            } else {
                r is None
            }
        }),
{
    let name = text_value(get_member(manifest, "name"));
    let id = text_value(get_member(manifest, "id"));
    if !text_is_empty(name.as_str()) && !text_is_empty(id.as_str()) {
        Some(FoundItem { creator: string_from_str(creator), name, id, path: string_from_str(path) })
    } else {
        None
    }
}

/// The item a manifest found by the recursive walk describes: its `type`
/// must be the kind's (ASCII case ignored), `name` and `id` non-empty; the
/// creator is `author.name`, else the manifest's folder name, else `Unknown`.
pub fn item_from_typed_manifest(manifest: &Json, t: Type1, folder: Option<&str>, path: &str) -> (r: Option<FoundItem>)
    ensures
        ({
            let m = manifest.view();
            let name = text_or_empty(as_str_spec(json_get(m, "name"@)));
            let id = text_or_empty(as_str_spec(json_get(m, "id"@)));
            let author = text_or_empty(as_str_spec(opt_get(json_get(m, "author"@), "name"@)));
            let creator = if author.len() > 0 {
                author
            } else {
                match folder {
                    Some(f) => f@,
                    None => "Unknown"@,
                }
            };
            let typed = eq_ignore_case(text_or_empty(as_str_spec(json_get(m, "type"@))), match t {
                Type1::Bar | Type1::Desktop => "widget"@,
                Type1::Wallpaper => "wallpaper"@,
                Type1::Theme => "theme"@,
            });
            if typed && name.len() > 0 && id.len() > 0 {
                r matches Some(it) && it.creator@ == creator && it.name@ == name && it.id@ == id && it.path@ == path@
            } else {
                r is None
            }
        }),
{
    let mtype = text_value(get_member(manifest, "type"));
    if !str_eq_ignore_case(mtype.as_str(), manifest_type(t)) {
        return None;
    }
    let name = text_value(get_member(manifest, "name"));
    let id = text_value(get_member(manifest, "id"));
    if text_is_empty(name.as_str()) || text_is_empty(id.as_str()) {
        return None;
    }
    let author = text_value(get_opt(get_member(manifest, "author"), "name"));
    let creator = if !text_is_empty(author.as_str()) {
        author
    } else {
        match folder {
            Some(f) => string_from_str(f),
            None => string_from_str("Unknown"),
        }
    };
    Some(FoundItem { creator, name, id, path: string_from_str(path) })
}

// ---------------------------------------------------------------------------
// Modes and routing
// ---------------------------------------------------------------------------

/// What the process does, from its arguments.
#[derive(Debug)]
pub enum CliMode {
    /// `--sentinel-ui` anywhere: the UI shell.
    SentinelUi,
    /// `--addon-config-ui <addon>`.
    AddonConfigUi(String),
    /// `--addon-webview <page> [--addon-webview-title <title>]`.
    AddonWebview { page: String, title: Option<String> },
    /// Only the program name: nothing to do.
    NoArguments,
    /// An addon command or a CLI command.
    Command,
}

/// The first position of `flag`.
pub open spec fn flag_index(args: Seq<Seq<char>>, flag: Seq<char>) -> Option<int>
    decreases args.len(),
{
    if args.len() == 0 {
        None
    } else {
        match flag_index(args.drop_last(), flag) {
            Some(i) => Some(i),
            None => if args.last() == flag { Some(args.len() - 1) } else { None },
        }
    }
}

/// The argument after the first `flag`.
pub open spec fn flag_value(args: Seq<Seq<char>>, flag: Seq<char>) -> Option<Seq<char>> {
    match flag_index(args, flag) {
        Some(i) => if i + 1 < args.len() { Some(args[i + 1]) } else { None },
        None => None,
    }
}

proof fn lemma_flag_index_prefix(args: Seq<Seq<char>>, flag: Seq<char>, k: int)
    requires
        0 <= k <= args.len(),
        flag_index(args.take(k), flag) is Some,
    ensures
        flag_index(args, flag) == flag_index(args.take(k), flag),
    decreases args.len() - k,
{
    if k < args.len() {
        assert(args.drop_last().take(k) =~= args.take(k));
        lemma_flag_index_prefix(args.drop_last(), flag, k);
    } else {
        assert(args.take(k) =~= args);
    }
}

fn find_flag(args: &Vec<String>, flag: &str) -> (r: Option<usize>)
    ensures
        match r {
            Some(i) => flag_index(text_views(args@), flag@) == Some(i as int) && i < args.len(),
            None => flag_index(text_views(args@), flag@) is None,
        },
{
    let ghost av = text_views(args@);
    let n = args.len();
    let mut i: usize = 0;
    while i < n
        invariant
            n == args.len(),
            av == text_views(args@),
            i <= n,
            flag_index(av.take(i as int), flag@) is None,
        decreases n - i,
    {
        assert(av.take(i + 1).drop_last() =~= av.take(i as int));
        assert(av.take(i + 1).last() == args@[i as int]@);
        if str_eq(args[i].as_str(), flag) {
            assert(flag_index(av.take(i + 1), flag@) == Some(i as int));
            proof { lemma_flag_index_prefix(av, flag@, i as int + 1); }
            return Some(i);
        }
        i += 1;
    }
    assert(av.take(n as int) =~= av);
    None
}

fn value_after(args: &Vec<String>, flag: &str) -> (r: Option<String>)
    ensures
        match r {
            Some(v) => flag_value(text_views(args@), flag@) == Some(v@),
            None => flag_value(text_views(args@), flag@) is None,
        },
{
    match find_flag(args, flag) {
        Some(i) => if i + 1 < args.len() {
            Some(clone_string(&args[i + 1]))
        } else {
            None
        },
        None => None,
    }
}

/// The mode of a process started with `args` (the program name first).
pub fn cli_mode(args: &Vec<String>) -> (r: Result<CliMode, String>)
    ensures
        ({
            let a = text_views(args@);
            if flag_index(a, "--sentinel-ui"@) is Some {
                r matches Ok(CliMode::SentinelUi)
            } else if flag_index(a, "--addon-config-ui"@) is Some {
                match flag_value(a, "--addon-config-ui"@) {
                    Some(v) => r matches Ok(CliMode::AddonConfigUi(x)) && x@ == v,
                    None => r matches Err(e) && e@ == "Missing addon id/name after --addon-config-ui"@,
                }
            } else if flag_index(a, "--addon-webview"@) is Some {
                match flag_value(a, "--addon-webview"@) {
                    Some(v) => r matches Ok(CliMode::AddonWebview { page, title }) && page@ == v && match title {
                        Some(t) => flag_value(a, "--addon-webview-title"@) == Some(t@),
                        None => flag_value(a, "--addon-webview-title"@) is None,
                    },
                    None => r matches Err(e) && e@ == "Missing page path after --addon-webview"@,
                }
            } else if args.len() == 1 {
                r matches Ok(CliMode::NoArguments)
            } else {
                r matches Ok(CliMode::Command)
            }
        }),
{
    if find_flag(args, "--sentinel-ui").is_some() {
        return Ok(CliMode::SentinelUi);
    }
    if find_flag(args, "--addon-config-ui").is_some() {
        return match value_after(args, "--addon-config-ui") {
            Some(v) => Ok(CliMode::AddonConfigUi(v)),
            None => Err(string_from_str("Missing addon id/name after --addon-config-ui")),
        };
    }
    if find_flag(args, "--addon-webview").is_some() {
        return match value_after(args, "--addon-webview") {
            Some(page) => Ok(CliMode::AddonWebview { page, title: value_after(args, "--addon-webview-title") }),
            None => Err(string_from_str("Missing page path after --addon-webview")),
        };
    }
    if args.len() == 1 {
        return Ok(CliMode::NoArguments);
    }
    Ok(CliMode::Command)
}

/// The first addon command (by folder name, ASCII case ignored) that the
/// first argument names.
pub open spec fn command_position(commands: Seq<Seq<char>>, first: Seq<char>) -> Option<int>
    decreases commands.len(),
{
    if commands.len() == 0 {
        None
    } else {
        match command_position(commands.drop_last(), first) {
            Some(i) => Some(i),
            None => if eq_ignore_case(first, commands.last()) { Some(commands.len() - 1) } else { None },
        }
    }
}

proof fn lemma_command_position_prefix(cs: Seq<Seq<char>>, first: Seq<char>, k: int)
    requires
        0 <= k <= cs.len(),
        command_position(cs.take(k), first) is Some,
    ensures
        command_position(cs, first) == command_position(cs.take(k), first),
    decreases cs.len() - k,
{
    if k < cs.len() {
        assert(cs.drop_last().take(k) =~= cs.take(k));
        lemma_command_position_prefix(cs.drop_last(), first, k);
    } else {
        assert(cs.take(k) =~= cs);
    }
}

/// Which addon executable a first argument routes to, among the addons'
/// folder names.
pub fn route_to_addon_command(commands: &Vec<String>, first_arg: &str) -> (r: Option<usize>)
    ensures
        match r {
            Some(i) => command_position(text_views(commands@), first_arg@) == Some(i as int) && i < commands.len(),
            None => command_position(text_views(commands@), first_arg@) is None,
        },
{
    let ghost cv = text_views(commands@);
    let n = commands.len();
    let mut i: usize = 0;
    while i < n
        invariant
            n == commands.len(),
            cv == text_views(commands@),
            i <= n,
            command_position(cv.take(i as int), first_arg@) is None,
        decreases n - i,
    {
        assert(cv.take(i + 1).drop_last() =~= cv.take(i as int));
        assert(cv.take(i + 1).last() == commands@[i as int]@);
        if str_eq_ignore_case(first_arg, commands[i].as_str()) {
            assert(command_position(cv.take(i + 1), first_arg@) == Some(i as int));
            proof { lemma_command_position_prefix(cv, first_arg@, i as int + 1); }
            return Some(i);
        }
        i += 1;
    }
    assert(cv.take(n as int) =~= cv);
    None
}

/// Whether an addon's `entry` asks for any executable in its `bin` folder.
pub fn entry_is_wildcard(entry: &str) -> (r: bool)
    ensures
        r == entry@.contains('*'),
{
    let cs = chars_of(entry);
    crate::text::chars_contains(&cs, '*')
}

/// The fallback executable of an addon folder: `bin/<folder>.exe`
/// (relative to the folder).
pub fn fallback_executable(folder: &str) -> (r: String)
    ensures
        r@ == "bin/"@ + folder@ + ".exe"@,
{
    let mut out = chars_of("bin/");
    push_str_chars(&mut out, folder);
    push_str_chars(&mut out, ".exe");
    string_from_chars(&out)
}

/// The directories searched for content: each non-empty `--content-dir`,
/// then the default root when there is one.
pub fn resolve_content_dirs(content_dirs: &Vec<String>, default_root: Option<String>) -> (r: Vec<String>)
    ensures
        text_views(r@) == non_empty(text_views(content_dirs@)) + match default_root {
            Some(d) => seq![d@],
            None => Seq::empty(),
        },
{
    let ghost cv = text_views(content_dirs@);
    let mut out: Vec<String> = Vec::new();
    for i in 0..content_dirs.len()
        invariant
            cv == text_views(content_dirs@),
            text_views(out@) == non_empty(cv.take(i as int)),
    {
        assert(cv.take(i + 1).drop_last() =~= cv.take(i as int));
        assert(cv.take(i + 1).last() == content_dirs@[i as int]@);
        if !text_is_empty(content_dirs[i].as_str()) {
            let ghost before = text_views(out@);
            out.push(clone_string(&content_dirs[i]));
            assert(text_views(out@) =~= before.push(content_dirs@[i as int]@));
        }
    }
    assert(cv.take(content_dirs.len() as int) =~= cv);
    let ghost before = text_views(out@);
    match default_root {
        Some(d) => {
            let ghost dv = d@;
            out.push(d);
            assert(text_views(out@) =~= before + seq![dv]);
        },
        None => {
            assert(before + Seq::<Seq<char>>::empty() =~= before);
        },
    }
    out
}

/// The non-empty texts, in order.
pub open spec fn non_empty(v: Seq<Seq<char>>) -> Seq<Seq<char>>
    decreases v.len(),
{
    if v.len() == 0 {
        Seq::empty()
    } else {
        let rest = non_empty(v.drop_last());
        if v.last().len() > 0 { rest.push(v.last()) } else { rest }
    }
}


proof fn lemma_first_colon(c: Seq<char>, rest: Seq<char>)
    requires
        !c.contains(':'),
    ensures
        crate::text::first_index_of(c + seq![':'] + rest, ':') == Some(c.len() as int),
{
    let s = c + seq![':'] + rest;
    assert(s[c.len() as int] == ':');
    assert(s.contains(':'));
    let k = choose|k: int| 0 <= k < s.len() && s[k] == ':' && forall|j: int| 0 <= j < k ==> s[j] != ':';
    if k < c.len() {
        assert(s[k] == c[k]);
        assert(c.contains(':'));
    }
    if k > c.len() {
        assert(s[c.len() as int] != ':');
    }
}

proof fn lemma_colon_pair_at(rest: Seq<char>, k: int)
    requires
        0 <= k,
        k + 2 <= rest.len(),
        rest.subrange(k, k + 2) == seq![':', ':'],
    ensures
        rest[k] == ':',
{
    assert(rest.subrange(k, k + 2)[0] == rest[k]);
}

proof fn lemma_first_double_colon(n: Seq<char>, i: Seq<char>)
    requires
        !n.contains(':'),
    ensures
        crate::text::first_occurrence(n + seq![':', ':'] + i, seq![':', ':']) == Some(n.len() as int),
{
    let sep = seq![':', ':'];
    let rest = n + sep + i;
    let at = n.len() as int;
    assert(rest.subrange(at, at + sep.len()) =~= sep);
    assert(contains_seq(rest, sep));
    let k2 = crate::text::first_occurrence(rest, sep)->0;
    assert(0 <= k2 <= rest.len() - sep.len() && rest.subrange(k2, k2 + sep.len()) == sep);
    if k2 < at {
        lemma_colon_pair_at(rest, k2);
        assert(rest[k2] == n[k2]);
        assert(n[k2] == ':');
        assert(n.contains(':'));
    }
    if k2 > at {
        assert(rest.subrange(at, at + sep.len()) != sep);
    }
}

proof fn lemma_no_double_colon(n: Seq<char>)
    requires
        !n.contains(':'),
    ensures
        !contains_seq(n, seq![':', ':']),
{
    let sep = seq![':', ':'];
    if contains_seq(n, sep) {
        let m = choose|m: int| 0 <= m <= n.len() - sep.len() && #[trigger] n.subrange(m, m + sep.len()) == sep;
        assert(n.subrange(m, m + 2)[0] == n[m]);
        assert(n.contains(':'));
    }
}

#[verifier::spinoff_prover]
proof fn lemma_parts_of_full(c: Seq<char>, n: Seq<char>, i: Seq<char>)
    requires
        !c.contains(':'),
        !n.contains(':'),
    ensures
        reference_parts(c + seq![':'] + (n + seq![':', ':'] + i)) == (c, n, Some(i)),
{
    let rest = n + seq![':', ':'] + i;
    let s = c + seq![':'] + rest;
    assert(split_once(s, ':') == Some((c, rest))) by {
        lemma_first_colon(c, rest);
        assert(s.take(c.len() as int) =~= c);
        assert(s.skip(c.len() as int + 1) =~= rest);
    }
    assert(split_once_seq(rest, "::"@) == Some((n, i))) by {
        reveal_strlit("::");
        assert("::"@ =~= seq![':', ':']);
        lemma_first_double_colon(n, i);
        assert(rest.take(n.len() as int) =~= n);
        assert(rest.skip(n.len() as int + 2) =~= i);
    }
}

#[verifier::spinoff_prover]
proof fn lemma_parts_of_bare(n: Seq<char>)
    requires
        !n.contains(':'),
    ensures
        reference_parts(n) == (Seq::<char>::empty(), n, None::<Seq<char>>),
{
    assert(crate::text::first_index_of(n, ':') is None);
    lemma_no_double_colon(n);
    assert(split_once_seq(n, "::"@) is None) by {
        reveal_strlit("::");
        assert("::"@ =~= seq![':', ':']);
    }
}

/// A reference written `creator:name::id` reads back as its three parts when
/// neither the creator nor the name holds a `:`; a bare name without `:`
/// reads back as that name, with no creator and no id.
/// A reference written `creator:name::id` reads back as its three parts when
/// neither the creator nor the name holds a `:`; a bare name without `:`
/// reads back as that name, with no creator and no id.
pub proof fn law_reference_round_trip(c: Seq<char>, n: Seq<char>, i: Seq<char>)
    requires
        !c.contains(':'),
        !n.contains(':'),
    ensures
        reference_parts(c + seq![':'] + n + "::"@ + i) == (c, n, Some(i)),
        reference_parts(n) == (Seq::<char>::empty(), n, None::<Seq<char>>),
{
    reveal_strlit("::");
    assert(c + seq![':'] + n + "::"@ + i =~= c + seq![':'] + (n + seq![':', ':'] + i));
    lemma_parts_of_full(c, n, i);
    lemma_parts_of_bare(n);
}

} // verus!
