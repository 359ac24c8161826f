//! The settings shell: custom addon tabs, the URLs it loads them from,
//! content types, and labels.
use vstd::prelude::*;
use crate::display::{utf8, utf8_char};
use crate::paths::{plain_name, starts_with_two_seps, join_base, joined, lemma_joined_start, lemma_plain_literal};
use crate::order::{sort_by, lemma_insert_by_splice};
use crate::text::{
    chars_of, clone_string, str_eq, eq_ignore_case, str_eq_ignore_case, string_from_chars, string_from_str,
    to_lowercase, unicode_lower, trim, chars_trim, split_on, split_chars, views, strip_prefix,
    chars_strip_prefix, starts_with, chars_starts_with, chars_lt, str_less, is_ws, char_is_ws, push_all,
    push_str_chars, join_text, text_is_empty, words_from, split_words, text_views, first_index_of, find_char,
    slice_chars,
};

verus! {

// ---------------------------------------------------------------------------
// Content types
// ---------------------------------------------------------------------------

/// The content type served for a (lower-cased) file extension.
pub open spec fn mime_spec(ext: Seq<char>) -> Seq<char> {
    if ext == "html"@ || ext == "htm"@ {
        "text/html"@
    } else if ext == "css"@ {
        "text/css"@
    } else if ext == "js"@ || ext == "mjs"@ {
        "application/javascript"@
    } else if ext == "json"@ {
        "application/json"@
    } else if ext == "png"@ {
        "image/png"@
    } else if ext == "jpg"@ || ext == "jpeg"@ {
        "image/jpeg"@
    } else if ext == "gif"@ {
        "image/gif"@
    } else if ext == "svg"@ {
        "image/svg+xml"@
    } else if ext == "ico"@ {
        "image/x-icon"@
    } else if ext == "webp"@ {
        "image/webp"@
    } else if ext == "woff"@ {
        "font/woff"@
    } else if ext == "woff2"@ {
        "font/woff2"@
    } else if ext == "ttf"@ {
        "font/ttf"@
    } else if ext == "otf"@ {
        "font/otf"@
    } else if ext == "mp4"@ {
        "video/mp4"@
    } else if ext == "webm"@ {
        "video/webm"@
    } else if ext == "mp3"@ {
        "audio/mpeg"@
    } else if ext == "ogg"@ {
        "audio/ogg"@
    } else if ext == "wav"@ {
        "audio/wav"@
    } else if ext == "xml"@ {
        "application/xml"@
    } else if ext == "txt"@ {
        "text/plain"@
    } else if ext == "yaml"@ || ext == "yml"@ {
        "text/yaml"@
    } else {
        "application/octet-stream"@
    }
}

fn mime_for(ext: &str) -> (r: &'static str)
    ensures
        r@ == mime_spec(ext@),
{
    if str_eq(ext, "html") || str_eq(ext, "htm") {
        "text/html"
    } else if str_eq(ext, "css") {
        "text/css"
    } else if str_eq(ext, "js") || str_eq(ext, "mjs") {
        "application/javascript"
    } else if str_eq(ext, "json") {
        "application/json"
    } else if str_eq(ext, "png") {
        "image/png"
    } else if str_eq(ext, "jpg") || str_eq(ext, "jpeg") {
        "image/jpeg"
    } else if str_eq(ext, "gif") {
        "image/gif"
    } else if str_eq(ext, "svg") {
        "image/svg+xml"
    } else if str_eq(ext, "ico") {
        "image/x-icon"
    } else if str_eq(ext, "webp") {
        "image/webp"
    } else if str_eq(ext, "woff") {
        "font/woff"
    } else if str_eq(ext, "woff2") {
        "font/woff2"
    } else if str_eq(ext, "ttf") {
        "font/ttf"
    } else if str_eq(ext, "otf") {
        "font/otf"
    } else if str_eq(ext, "mp4") {
        "video/mp4"
    } else if str_eq(ext, "webm") {
        "video/webm"
    } else if str_eq(ext, "mp3") {
        "audio/mpeg"
    } else if str_eq(ext, "ogg") {
        "audio/ogg"
    } else if str_eq(ext, "wav") {
        "audio/wav"
    } else if str_eq(ext, "xml") {
        "application/xml"
    } else if str_eq(ext, "txt") {
        "text/plain"
    } else if str_eq(ext, "yaml") || str_eq(ext, "yml") {
        "text/yaml"
    } else {
        "application/octet-stream"
    }
}

/// The position of the last `.` of a text.
pub open spec fn last_dot(s: Seq<char>) -> Option<int>
    decreases s.len(),
{
    if s.len() == 0 {
        None
    } else if s.last() == '.' {
        Some(s.len() - 1)
    } else {
        last_dot(s.drop_last())
    }
}

/// The extension of a file name that is the whole path: what follows its
/// last `.`, none when it has no `.` or its only `.` starts it.
pub open spec fn name_extension(name: Seq<char>) -> Option<Seq<char>> {
    match last_dot(name) {
        Some(i) => if i == 0 { None } else { Some(name.skip(i + 1)) },
        None => None,
    }
}

/// The position of the last `/` of a text.
pub open spec fn last_slash(s: Seq<char>) -> Option<int>
    decreases s.len(),
{
    if s.len() == 0 {
        None
    } else if s.last() == '/' {
        Some(s.len() - 1)
    } else {
        last_slash(s.drop_last())
    }
}

/// The file name of a path whose last part, after its last `/`, is a plain,
/// non-empty name other than `.` and `..`, and which does not start with
/// two separators: then that part is the file name on every platform.
pub open spec fn simple_file_name(path: Seq<char>) -> Option<Seq<char>> {
    let f = match last_slash(path) {
        Some(i) => path.skip(i + 1),
        None => path,
    };
    if !starts_with_two_seps(path) && plain_name(f) && f.len() > 0 && f != "."@ && f != ".."@ {
        Some(f)
    } else {
        None
    }
}

/// Calls `Path::extension`: the documentation promises that an extension is
/// the part of the file name after its final `.`, so it holds no `.` and the
/// path holds `.` followed by it, and that there is none without a `.`, or
/// when the file name starts with its only `.`.  A path with no separator
/// and no `:` is one file name on every platform (`..` has none), so there
/// the extension is stated.  Likewise the last part of a path after a `/`,
/// where it is a plain name other than `.` and `..` and the path does not
/// start with two separators, is the file name on every platform
/// (`simple_file_name`).  Elsewhere which part of the path is the file name
/// depends on the platform's separators, and is left unsaid.
#[verifier::external_body]
fn path_extension(path: &str) -> (r: Option<String>)
    ensures
        r matches Some(e) ==> !e@.contains('.') && crate::text::contains_seq(path@, seq!['.'] + e@),
        !path@.contains('.') ==> r is None,
        plain_name(path@) && path@ != ".."@ ==> match name_extension(path@) {
            Some(e) => r matches Some(x) && x@ == e,
            None => r is None,
        },
        simple_file_name(path@) matches Some(f) ==> match name_extension(f) {
            Some(e) => r matches Some(x) && x@ == e,
            None => r is None,
        },
{
    std::path::Path::new(path).extension().and_then(|e| e.to_str()).map(|e| e.to_string())
}

/// The extension a content type is chosen by: lower-cased, empty for none.
pub open spec fn ext_key(ext: Option<Seq<char>>) -> Seq<char> {
    match ext {
        Some(e) => unicode_lower(e),
        None => Seq::empty(),
    }
}

fn lower_ext(ext: Option<&str>) -> (r: String)
    ensures
        r@ == ext_key(match ext {
            Some(e) => Some(e@),
            None => None,
        }),
{
    match ext {
        Some(e) => to_lowercase(e),
        None => String::new(),
    }
}

/// The content type for a path's extension (any case; `None` for a path
/// without one).
pub fn mime_type_for_extension(ext: Option<&str>) -> (r: &'static str)
    ensures
        r@ == mime_spec(ext_key(match ext {
            Some(e) => Some(e@),
            None => None,
        })),
{
    let key = lower_ext(ext);
    mime_for(key.as_str())
}

/// The content type of a path, by its extension; which part of the path is
/// the extension is the platform's `Path::extension`.
pub fn guess_mime_type(path: &str) -> (r: &'static str)
    ensures
        !path@.contains('.') ==> r@ == mime_spec(ext_key(None)),
        plain_name(path@) && path@ != ".."@ ==> r@ == mime_spec(ext_key(name_extension(path@))),
        simple_file_name(path@) matches Some(f) ==> r@ == mime_spec(ext_key(name_extension(f))),
        path@.contains('.') ==> r@ == mime_spec(ext_key(None)) || exists|ext: Seq<char>|
            crate::text::contains_seq(path@, seq!['.'] + ext) && #[trigger] mime_spec(ext_key(Some(ext))) == r@,
{
    let e = path_extension(path);
    let r = match &e {
        Some(x) => mime_type_for_extension(Some(x.as_str())),
        None => mime_type_for_extension(None),
    };
    assert(mime_spec(ext_key(match e {
        Some(x) => Some(x@),
        None => None,
    })) == r@);
    r
}

/// Images a preview can show, by (lower-cased) extension.
pub open spec fn preview_ext(ext: Seq<char>) -> bool {
    ext == "png"@ || ext == "jpg"@ || ext == "jpeg"@ || ext == "bmp"@ || ext == "gif"@ || ext == "webp"@
}

/// Whether a path's extension (any case) is one a preview can show.
pub fn is_preview_extension(ext: Option<&str>) -> (r: bool)
    ensures
        r == preview_ext(ext_key(match ext {
            Some(e) => Some(e@),
            None => None,
        })),
{
    let key = lower_ext(ext);
    let s = key.as_str();
    str_eq(s, "png") || str_eq(s, "jpg") || str_eq(s, "jpeg") || str_eq(s, "bmp") || str_eq(s, "gif") || str_eq(s, "webp")
}

/// Whether a path is an image a preview can show, by the extension
/// `Path::extension` finds.
pub fn is_preview_media(path: &str) -> (r: bool)
    ensures
        !path@.contains('.') ==> !r,
        r ==> exists|ext: Seq<char>| crate::text::contains_seq(path@, seq!['.'] + ext) && #[trigger] preview_ext(ext_key(Some(ext))),
        plain_name(path@) && path@ != ".."@ ==> r == match name_extension(path@) {
            Some(e) => preview_ext(ext_key(Some(e))),
            None => false,
        },
        simple_file_name(path@) matches Some(f) ==> r == match name_extension(f) {
            Some(e) => preview_ext(ext_key(Some(e))),
            None => false,
        },
{
    match path_extension(path) {
        Some(x) => {
            let r = is_preview_extension(Some(x.as_str()));
            assert(r == preview_ext(ext_key(Some(x@))));
            r
        },
        None => {
            let r = is_preview_extension(None);
            proof {
                reveal_strlit("png");
                reveal_strlit("jpg");
                reveal_strlit("jpeg");
                reveal_strlit("bmp");
                reveal_strlit("gif");
                reveal_strlit("webp");
                assert(ext_key(None) =~= Seq::<char>::empty());
                assert("png"@.len() == 3 && "jpg"@.len() == 3 && "jpeg"@.len() == 4);
                assert("bmp"@.len() == 3 && "gif"@.len() == 3 && "webp"@.len() == 4);
            }
            r
        },
    }
}

// ---------------------------------------------------------------------------
// Labels and paths
// ---------------------------------------------------------------------------

/// The segments of a dotted path, trimmed, without empty ones.
pub open spec fn path_segments(parts: Seq<Seq<char>>) -> Seq<Seq<char>>
    decreases parts.len(),
{
    if parts.len() == 0 {
        Seq::empty()
    } else {
        let rest = path_segments(parts.drop_last());
        let t = trim(parts.last());
        if t.len() > 0 { rest.push(t) } else { rest }
    }
}

/// Splits a dotted configuration path (`a.b.c`).
pub fn split_path(path: &str) -> (r: Vec<String>)
    ensures
        text_views(r@) == path_segments(split_on(path@, '.')),
{
    let cs = chars_of(path);
    let parts = split_chars(&cs, '.');
    let ghost pv = views(parts@);
    let mut out: Vec<String> = Vec::new();
    for i in 0..parts.len()
        invariant
            pv == views(parts@),
            text_views(out@) == path_segments(pv.take(i as int)),
    {
        assert(pv.take(i + 1).drop_last() =~= pv.take(i as int));
        assert(pv.take(i + 1).last() == parts@[i as int]@);
        let t = chars_trim(&parts[i]);
        if t.len() > 0 {
            let ghost before = text_views(out@);
            out.push(string_from_chars(&t));
            assert(text_views(out@) =~= before.push(t@));
        }
    }
    assert(pv.take(parts.len() as int) =~= pv);
    out
}

/// What `char::to_uppercase` gives for a character.
pub uninterp spec fn unicode_upper_char(c: char) -> Seq<char>;

/// Calls `char::to_uppercase`; its result is named, not restated.
#[verifier::external_body]
fn char_to_uppercase(c: char) -> (r: String)
    ensures
        r@ == unicode_upper_char(c),
{
    c.to_uppercase().collect::<String>()
}

/// `-` and `_` read as spaces.
pub open spec fn dashes_to_spaces(s: Seq<char>) -> Seq<char> {
    s.map_values(|c: char| if c == '-' || c == '_' { ' ' } else { c })
}

/// A word with its first character upper-cased.
pub open spec fn capitalized(w: Seq<char>) -> Seq<char> {
    if w.len() == 0 { Seq::empty() } else { unicode_upper_char(w[0]) + w.drop_first() }
}

/// Words joined by single spaces.
pub open spec fn join_words(ws: Seq<Seq<char>>) -> Seq<char>
    decreases ws.len(),
{
    if ws.len() == 0 {
        Seq::empty()
    } else if ws.len() == 1 {
        ws[0]
    } else {
        join_words(ws.drop_last()) + seq![' '] + ws.last()
    }
}

/// A label from a raw name: `-` and `_` become spaces, each word starts
/// with a capital, words are joined by single spaces.
pub open spec fn pretty_label_spec(raw: Seq<char>) -> Seq<char> {
    join_words(words_from(Seq::empty(), dashes_to_spaces(raw)).map_values(|w: Seq<char>| capitalized(w)))
}

/// A label from a raw name, as tabs and sections show it.
pub fn pretty_label(raw: &str) -> (r: String)
    ensures
        r@ == pretty_label_spec(raw@),
{
    let cs = chars_of(raw);
    let mut spaced: Vec<char> = Vec::new();
    for i in 0..cs.len()
        invariant
            spaced@ == dashes_to_spaces(cs@.take(i as int)),
    {
        let c = cs[i];
        spaced.push(if c == '-' || c == '_' { ' ' } else { c });
        assert(spaced@ =~= dashes_to_spaces(cs@.take(i + 1)));
    }
    assert(cs@.take(cs.len() as int) =~= cs@);
    let words = split_words(&spaced);
    let ghost wv = views(words@).map_values(|w: Seq<char>| capitalized(w));
    let mut out: Vec<char> = Vec::new();
    for i in 0..words.len()
        invariant
            wv == views(words@).map_values(|w: Seq<char>| capitalized(w)),
            out@ == join_words(wv.take(i as int)),
    {
        let w = &words[i];
        let ghost cap = capitalized(w@);
        if i > 0 {
            out.push(' ');
        }
        if w.len() > 0 {
            let up = char_to_uppercase(w[0]);
            let upc = chars_of(up.as_str());
            push_all(&mut out, &upc);
            let tail = crate::text::slice_chars(w, 1, w.len());
            assert(tail@ =~= w@.drop_first());
            push_all(&mut out, &tail);
        }
        assert(wv[i as int] == cap);
        proof {
            let t = wv.take(i + 1);
            assert(t.drop_last() =~= wv.take(i as int));
            if i == 0 {
                assert(t.len() == 1);
                assert(out@ =~= cap);
            } else {
                assert(out@ =~= join_words(wv.take(i as int)) + seq![' '] + cap);
            }
        }
    }
    assert(wv.take(words.len() as int) =~= wv);
    string_from_chars(&out)
}

/// The file name of a custom tab page: the tab's name in lower case, `.html`.
pub open spec fn tab_file_name(tab_name: Seq<char>) -> Seq<char> {
    unicode_lower(tab_name) + ".html"@
}

/// An addon's custom tab page: `options/<tab in lower case>.html` under its
/// root, where the file name is a plain name and the root is a base for
/// joins (the separators are the platform's).
pub open spec fn custom_tab_path_spec(addon_root: Seq<char>, tab_name: Seq<char>, r: Seq<char>) -> bool {
    plain_name(tab_file_name(tab_name)) && join_base(addon_root) ==> exists|options: Seq<char>|
        joined(addon_root, "options"@, options) && #[trigger] joined(options, tab_file_name(tab_name), r)
}

/// An addon's custom tab page: `options/<tab in lower case>.html` under its root.
pub fn addon_custom_tab_path(addon_root: &str, tab_name: &str) -> (r: String)
    ensures
        custom_tab_path_spec(addon_root@, tab_name@, r@),
{
    let options = crate::paths::path_join(addon_root, "options");
    let file = join_text(to_lowercase(tab_name).as_str(), ".html");
    proof {
        reveal_strlit("options");
        lemma_plain_literal("options"@);
        if plain_name(file@) && join_base(addon_root@) {
            lemma_joined_start(addon_root@, "options"@, options@);
        }
    }
    crate::paths::path_join(options.as_str(), file.as_str())
}

/// Where the generated shell page is written: `cache/sentinel_custom_tabs_shell.html`
/// under the home directory's `.Sentinel`, for a home that is a base for
/// joins (the separators are the platform's).
pub open spec fn shell_html_path_spec(home: Seq<char>, r: Seq<char>) -> bool {
    join_base(home) ==> exists|root: Seq<char>, cache: Seq<char>|
        #[trigger] joined(home, ".Sentinel"@, root) && #[trigger] joined(root, "cache"@, cache) && joined(
            cache,
            "sentinel_custom_tabs_shell.html"@,
            r,
        )
}

/// Where the generated shell page is written.
pub fn sentinel_shell_html_path(home: &str) -> (r: String)
    ensures
        shell_html_path_spec(home@, r@),
{
    let root = crate::paths::path_join(home, ".Sentinel");
    let cache = crate::paths::path_join(root.as_str(), "cache");
    proof {
        reveal_strlit(".Sentinel");
        reveal_strlit("cache");
        reveal_strlit("sentinel_custom_tabs_shell.html");
        lemma_plain_literal(".Sentinel"@);
        lemma_plain_literal("cache"@);
        lemma_plain_literal("sentinel_custom_tabs_shell.html"@);
        if join_base(home@) {
            lemma_joined_start(home@, ".Sentinel"@, root@);
            lemma_joined_start(root@, "cache"@, cache@);
        }
    }
    crate::paths::path_join(cache.as_str(), "sentinel_custom_tabs_shell.html")
}

// ---------------------------------------------------------------------------
// Custom tabs
// ---------------------------------------------------------------------------

/// A custom tab page of an addon.
#[derive(Debug)]
pub struct CustomTabPage {
    pub id: String,
    pub title: String,
    pub path: String,
}

pub type TabV = (Seq<char>, Seq<char>, Seq<char>);

impl CustomTabPage {
    pub open spec fn view(&self) -> TabV {
        (self.id@, self.title@, self.path@)
    }
}

pub open spec fn tab_views(v: Seq<CustomTabPage>) -> Seq<TabV> {
    v.map_values(|t: CustomTabPage| t.view())
}

/// The tab a file of an addon's `options` folder makes: an `.html` file
/// (extension in any ASCII case) with a non-empty stem; its id is the stem
/// lower-cased, its title the id as a label.
pub fn custom_tab_for(stem: Option<&str>, extension: Option<&str>, path: &str) -> (r: Option<CustomTabPage>)
    ensures
        ({
            let is_html = match extension {
                Some(e) => eq_ignore_case(e@, "html"@),
                None => false,
            };
            match stem {
                Some(s) => if is_html && s@.len() > 0 {
                    r matches Some(t) && t.id@ == unicode_lower(s@) && t.title@ == pretty_label_spec(unicode_lower(s@))
                        && t.path@ == path@
                } else {
                    r is None
                },
                None => r is None,
            }
        }),
{
    let is_html = match extension {
        Some(e) => str_eq_ignore_case(e, "html"),
        None => false,
    };
    if !is_html {
        return None;
    }
    let s = match stem {
        Some(s) => s,
        None => {
            return None;
        },
    };
    if text_is_empty(s) {
        return None;
    }
    let id = to_lowercase(s);
    let title = pretty_label(id.as_str());
    Some(CustomTabPage { id, title, path: string_from_str(path) })
}

/// Where a tab goes: the library, editor, discover and settings pages first,
/// in that order, then the others.
pub open spec fn tab_rank(id: Seq<char>) -> int {
    if id == "library"@ {
        0
    } else if id == "editor"@ {
        1
    } else if id == "discover"@ {
        2
    } else if id == "settings"@ {
        3
    } else {
        100
    }
}

fn rank_of(id: &str) -> (r: u8)
    ensures
        r as int == tab_rank(id@),
{
    if str_eq(id, "library") {
        0
    } else if str_eq(id, "editor") {
        1
    } else if str_eq(id, "discover") {
        2
    } else if str_eq(id, "settings") {
        3
    } else {
        100
    }
}

/// Tabs by rank, then by lower-cased title.
pub open spec fn tab_lt() -> spec_fn(TabV, TabV) -> bool {
    |a: TabV, b: TabV|
        tab_rank(a.0) < tab_rank(b.0) || (tab_rank(a.0) == tab_rank(b.0) && chars_lt(unicode_lower(a.1), unicode_lower(b.1)))
}

fn tab_before(a: &CustomTabPage, b: &CustomTabPage) -> (r: bool)
    ensures
        r == (tab_lt())(a.view(), b.view()),
{
    let ra = rank_of(a.id.as_str());
    let rb = rank_of(b.id.as_str());
    if ra != rb {
        return ra < rb;
    }
    let ta = to_lowercase(a.title.as_str());
    let tb = to_lowercase(b.title.as_str());
    str_less(ta.as_str(), tb.as_str())
}

/// The tabs in the order the shell shows them (stable).
pub fn sort_custom_tabs(tabs: Vec<CustomTabPage>) -> (r: Vec<CustomTabPage>)
    ensures
        tab_views(r@) == sort_by(tab_views(tabs@), tab_lt()),
{
    let ghost input = tab_views(tabs@);
    let ghost lt = tab_lt();
    let n = tabs.len();
    let mut rest = tabs;
    let mut out: Vec<CustomTabPage> = Vec::new();
    let mut i: usize = 0;
    while i < n
        invariant
            i <= n,
            n == input.len(),
            lt == tab_lt(),
            rest.len() == n - i,
            tab_views(rest@) == input.skip(i as int),
            tab_views(out@) == sort_by(input.take(i as int), lt),
        decreases n - i,
    {
        assert(tab_views(rest@)[0] == input[i as int]);
        let ghost rest_before = rest@;
        let x = rest.remove(0);
        assert(tab_views(rest@) =~= input.skip(i + 1)) by {
            assert forall|k: int| 0 <= k < rest.len() implies #[trigger] tab_views(rest@)[k] == input.skip(i + 1)[k] by {
                assert(tab_views(rest_before)[k + 1] == input.skip(i as int)[k + 1]);
            }
        }
        let mut j = out.len();
        while j > 0 && tab_before(&x, &out[j - 1])
            invariant
                0 <= j <= out.len(),
                lt == tab_lt(),
                forall|k: int| j <= k < out.len() ==> lt(x.view(), #[trigger] tab_views(out@)[k]),
            decreases j,
        {
            j -= 1;
        }
        proof {
            lemma_insert_by_splice(tab_views(out@), x.view(), lt, j as int);
            assert(input.take(i + 1).drop_last() =~= input.take(i as int));
            assert(input.take(i + 1).last() == x.view());
        }
        let ghost before = tab_views(out@);
        out.insert(j, x);
        assert(tab_views(out@) =~= before.insert(j as int, input[i as int]));
        i += 1;
    }
    assert(input.take(n as int) =~= input);
    out
}

// ---------------------------------------------------------------------------
// URLs
// ---------------------------------------------------------------------------

/// The text without a leading `\\?\` (the long-path prefix).
pub open spec fn without_unc(s: Seq<char>) -> Seq<char> {
    match strip_prefix(s, "\\\\?\\"@) {
        Some(t) => t,
        None => s,
    }
}

/// The text after its leading run of `\`.
pub open spec fn trim_backslashes(s: Seq<char>) -> Seq<char>
    decreases s.len(),
{
    if s.len() > 0 && s[0] == '\\' { trim_backslashes(s.drop_first()) } else { s }
}

/// `\` becomes `/` and a space `%20`.
pub open spec fn url_path(s: Seq<char>) -> Seq<char>
    decreases s.len(),
{
    if s.len() == 0 {
        Seq::empty()
    } else {
        url_path(s.drop_last()) + if s.last() == '\\' {
            seq!['/']
        } else if s.last() == ' ' {
            "%20"@
        } else {
            seq![s.last()]
        }
    }
}

/// The shell URL of a file under the home directory (both paths already
/// resolved): the path below the home, with `/` separators and spaces
/// escaped, under `sentinel://localhost/`; an error for a file
/// outside the home.
pub open spec fn sentinel_url_spec(canonical: Seq<char>, home: Seq<char>) -> Result<Seq<char>, Seq<char>> {
    let c = without_unc(canonical);
    let h = without_unc(home);
    match strip_prefix(c, h) {
        Some(rel) => Ok("sentinel://localhost/"@ + url_path(trim_backslashes(rel))),
        None => Err("Path '"@ + c + "' is not under sentinel home '"@ + h + "'"@),
    }
}

fn strip_unc(s: &str) -> (r: Vec<char>)
    ensures
        r@ == without_unc(s@),
{
    let cs = chars_of(s);
    match chars_strip_prefix(&cs, "\\\\?\\") {
        Some(t) => t,
        None => cs,
    }
}

/// The shell URL of a resolved path under the resolved home directory.
pub fn file_path_to_sentinel_url(canonical: &str, home: &str) -> (r: Result<String, String>)
    ensures
        match r {
            Ok(u) => sentinel_url_spec(canonical@, home@) == Ok::<Seq<char>, Seq<char>>(u@),
            Err(e) => sentinel_url_spec(canonical@, home@) == Err::<Seq<char>, Seq<char>>(e@),
        },
{
    let c = strip_unc(canonical);
    let h = strip_unc(home);
    let hs = string_from_chars(&h);
    let rel = match chars_strip_prefix(&c, hs.as_str()) {
        Some(rel) => rel,
        None => {
            let mut msg = chars_of("Path '");
            push_all(&mut msg, &c);
            push_str_chars(&mut msg, "' is not under sentinel home '");
            push_all(&mut msg, &h);
            push_str_chars(&mut msg, "'");
            return Err(string_from_chars(&msg));
        },
    };
    let mut k: usize = 0;
    assert(rel@.skip(0) =~= rel@);
    while k < rel.len() && rel[k] == '\\'
        invariant
            k <= rel.len(),
            trim_backslashes(rel@.skip(k as int)) == trim_backslashes(rel@),
        decreases rel.len() - k,
    {
        assert(rel@.skip(k as int).drop_first() =~= rel@.skip(k + 1));
        k += 1;
    }
    let tail = crate::text::slice_chars(&rel, k, rel.len());
    assert(tail@ =~= rel@.skip(k as int));
    let mut out = chars_of("sentinel://localhost/");
    let ghost start = out@;
    for i in 0..tail.len()
        invariant
            out@ == start + url_path(tail@.take(i as int)),
    {
        assert(tail@.take(i + 1).drop_last() =~= tail@.take(i as int));
        let c = tail[i];
        if c == '\\' {
            out.push('/');
        } else if c == ' ' {
            push_str_chars(&mut out, "%20");
        } else {
            out.push(c);
        }
        assert(out@ =~= start + url_path(tail@.take(i + 1)));
    }
    assert(tail@.take(tail.len() as int) =~= tail@);
    Ok(string_from_chars(&out))
}

/// Bytes `urlencoding` leaves as they are: ASCII letters and digits, `-`,
/// `.`, `_` and `~`.
pub open spec fn unreserved(b: u8) -> bool {
    (48 <= b <= 57) || (65 <= b <= 90) || (97 <= b <= 122) || b == 45 || b == 46 || b == 95 || b == 126
}

/// An upper-case hexadecimal digit.
pub open spec fn hex_upper(d: u8) -> char {
    if d < 10 { (('0' as u8) + d) as char } else { (('A' as u8) + d - 10) as char }
}

/// Percent-encoding of bytes: unreserved bytes as they are, every other
/// byte as `%` and two upper-case hexadecimal digits.
pub open spec fn percent_encoded(bytes: Seq<u8>) -> Seq<char>
    decreases bytes.len(),
{
    if bytes.len() == 0 {
        Seq::empty()
    } else {
        let b = bytes.last();
        percent_encoded(bytes.drop_last()) + if unreserved(b) {
            seq![b as char]
        } else {
            seq!['%', hex_upper(b / 16), hex_upper(b % 16)]
        }
    }
}

/// Calls `urlencoding::encode`, which percent-encodes every byte of the
/// UTF-8 text except ASCII letters, digits, `-`, `_`, `.` and `~`, with
/// upper-case hexadecimal digits.
#[verifier::external_body]
fn url_encode(s: &str) -> (r: String)
    ensures
        r@ == percent_encoded(utf8(s@)),
{
    urlencoding::encode(s).into_owned()
}

/// A URL with the shell data (a JSON text) appended, percent-encoded, as
/// the `sentinelData` query parameter.
pub open spec fn data_url_spec(base_url: Seq<char>, payload_json: Seq<char>) -> Seq<char> {
    base_url + (if base_url.contains('?') { "&"@ } else { "?"@ }) + "sentinelData="@ + percent_encoded(utf8(payload_json))
}

/// A shell URL with the shell data (a JSON text) appended as the
/// `sentinelData` query parameter.
pub fn append_sentinel_data_query(base_url: &str, payload_json: &str) -> (r: String)
    ensures
        r@ == base_url@ + (if base_url@.contains('?') { "&"@ } else { "?"@ }) + "sentinelData="@ + percent_encoded(
            utf8(payload_json@),
        ),
        r@ == data_url_spec(base_url@, payload_json@),
{
    let base = chars_of(base_url);
    let mut out = crate::text::copy_chars(&base);
    if crate::text::chars_contains(&base, '?') {
        out.push('&');
    } else {
        out.push('?');
    }
    push_str_chars(&mut out, "sentinelData=");
    let enc = url_encode(payload_json);
    push_str_chars(&mut out, enc.as_str());
    proof {
        reveal_strlit("&");
        reveal_strlit("?");
    }
    assert(out@ =~= base_url@ + (if base_url@.contains('?') { "&"@ } else { "?"@ }) + "sentinelData="@ + percent_encoded(
        utf8(payload_json@),
    ));
    string_from_chars(&out)
}

/// The shell pages of an addon's custom tabs: each tab whose file lies
/// under the home directory, with its id, its title and its URL carrying the
/// shell data; tabs outside the home directory are left out.
pub open spec fn shell_tabs_spec(tabs: Seq<TabV>, home: Seq<char>, payload_json: Seq<char>) -> Seq<TabV>
    decreases tabs.len(),
{
    if tabs.len() == 0 {
        Seq::empty()
    } else {
        let rest = shell_tabs_spec(tabs.drop_last(), home, payload_json);
        let t = tabs.last();
        match sentinel_url_spec(t.2, home) {
            Ok(u) => rest.push((t.0, t.1, data_url_spec(u, payload_json))),
            Err(_) => rest,
        }
    }
}

/// The shell pages of an addon's custom tabs (the `path` of each page is
/// its URL).
pub fn shell_tab_urls(tabs: &Vec<CustomTabPage>, home: &str, payload_json: &str) -> (r: Vec<CustomTabPage>)
    ensures
        tab_views(r@) == shell_tabs_spec(tab_views(tabs@), home@, payload_json@),
{
    let ghost tv = tab_views(tabs@);
    let mut out: Vec<CustomTabPage> = Vec::new();
    for i in 0..tabs.len()
        invariant
            tv == tab_views(tabs@),
            tab_views(out@) == shell_tabs_spec(tv.take(i as int), home@, payload_json@),
    {
        assert(tv.take(i + 1).drop_last() =~= tv.take(i as int));
        assert(tv.take(i + 1).last() == tabs@[i as int].view());
        match file_path_to_sentinel_url(tabs[i].path.as_str(), home) {
            Ok(base) => {
                let url = append_sentinel_data_query(base.as_str(), payload_json);
                let page = CustomTabPage { id: clone_string(&tabs[i].id), title: clone_string(&tabs[i].title), path: url };
                let ghost before = tab_views(out@);
                out.push(page);
                assert(tab_views(out@) =~= before.push(page.view()));
            },
            Err(_) => {},
        }
    }
    assert(tv.take(tabs.len() as int) =~= tv);
    out
}

/// The wallpaper addon: its package is `wallpaper` (ASCII case ignored),
/// or its id or name, lower-cased, holds `wallpaper`.
pub open spec fn wallpaper_addon_spec(package: Seq<char>, id: Seq<char>, name: Seq<char>) -> bool {
    eq_ignore_case(package, "wallpaper"@) || crate::text::contains_seq(unicode_lower(id), "wallpaper"@)
        || crate::text::contains_seq(unicode_lower(name), "wallpaper"@)
}

/// The wallpaper test on lower-cased names: the package is `wallpaper` in
/// any ASCII case, or one of the lower-cased id and name holds `wallpaper`.
pub fn wallpaper_named(package: &str, lower_id: &str, lower_name: &str) -> (r: bool)
    ensures
        r == (eq_ignore_case(package@, "wallpaper"@) || crate::text::contains_seq(lower_id@, "wallpaper"@)
            || crate::text::contains_seq(lower_name@, "wallpaper"@)),
{
    if str_eq_ignore_case(package, "wallpaper") {
        return true;
    }
    let needle = chars_of("wallpaper");
    crate::text::chars_contains_seq(&chars_of(lower_id), &needle) || crate::text::chars_contains_seq(
        &chars_of(lower_name),
        &needle,
    )
}

/// Whether an addon is the wallpaper addon, whose shell pages carry the
/// wallpaper data.
pub fn is_wallpaper_addon(package: &str, id: &str, name: &str) -> (r: bool)
    ensures
        r == wallpaper_addon_spec(package@, id@, name@),
{
    let lid = to_lowercase(id);
    let lname = to_lowercase(name);
    wallpaper_named(package, lid.as_str(), lname.as_str())
}

/// The first addon whose id or name is `focus` (ASCII case ignored).
pub open spec fn focus_position(ids: Seq<Seq<char>>, names: Seq<Seq<char>>, focus: Seq<char>) -> Option<int>
    decreases ids.len(),
{
    if ids.len() == 0 {
        None
    } else {
        match focus_position(ids.drop_last(), names.drop_last(), focus) {
            Some(i) => Some(i),
            None => {
                let k = ids.len() - 1;
                if eq_ignore_case(ids[k], focus) || eq_ignore_case(names[k], focus) { Some(k) } else { None }
            },
        }
    }
}

proof fn lemma_focus_prefix(ids: Seq<Seq<char>>, names: Seq<Seq<char>>, focus: Seq<char>, k: int)
    requires
        0 <= k <= ids.len(),
        ids.len() == names.len(),
        focus_position(ids.take(k), names.take(k), focus) is Some,
    ensures
        focus_position(ids, names, focus) == focus_position(ids.take(k), names.take(k), focus),
    decreases ids.len() - k,
{
    if k < ids.len() {
        assert(ids.drop_last().take(k) =~= ids.take(k));
        assert(names.drop_last().take(k) =~= names.take(k));
        lemma_focus_prefix(ids.drop_last(), names.drop_last(), focus, k);
    } else {
        assert(ids.take(k) =~= ids);
        assert(names.take(k) =~= names);
    }
}

/// The addon the UI opens on: the first whose id or name is `focus` (ASCII
/// case ignored), else the first.
pub fn focused_addon_index(ids: &Vec<String>, names: &Vec<String>, focus: Option<&str>) -> (r: usize)
    requires
        ids.len() == names.len(),
    ensures
        match focus {
            Some(f) => match focus_position(text_views(ids@), text_views(names@), f@) {
                Some(i) => r == i,
                None => r == 0,
            },
            None => r == 0,
        },
{
    let f = match focus {
        Some(f) => f,
        None => {
            return 0;
        },
    };
    let ghost iv = text_views(ids@);
    let ghost nv = text_views(names@);
    let n = ids.len();
    let mut i: usize = 0;
    while i < n
        invariant
            n == ids.len(),
            ids.len() == names.len(),
            iv == text_views(ids@),
            nv == text_views(names@),
            iv.len() == n,
            nv.len() == n,
            focus == Some(f),
            i <= n,
            focus_position(iv.take(i as int), nv.take(i as int), f@) is None,
        decreases n - i,
    {
        assert(iv.take(i + 1).drop_last() =~= iv.take(i as int));
        assert(nv.take(i + 1).drop_last() =~= nv.take(i as int));
        assert(iv.take(i + 1)[i as int] == ids@[i as int]@);
        assert(nv.take(i + 1)[i as int] == names@[i as int]@);
        if str_eq_ignore_case(ids[i].as_str(), f) || str_eq_ignore_case(names[i].as_str(), f) {
            assert(focus_position(iv.take(i + 1), nv.take(i + 1), f@) == Some(i as int));
            proof { lemma_focus_prefix(iv, nv, f@, i as int + 1); }
            assert(focus_position(text_views(ids@), text_views(names@), f@) == Some(i as int));
            return i;
        }
        i += 1;
    }
    assert(iv.take(n as int) =~= iv);
    assert(nv.take(n as int) =~= nv);
    0
}


// ---------------------------------------------------------------------------
// Requests to the shell's `sentinel` protocol
// ---------------------------------------------------------------------------

/// A URI without the shell's origin: `sentinel://localhost`, `sentinel://`,
/// or (as WebView2 rewrites it) `http://` or `https://sentinel.localhost`;
/// any other URI as it is.
pub open spec fn without_shell_origin(uri: Seq<char>) -> Seq<char> {
    match strip_prefix(uri, "sentinel://localhost"@) {
        Some(r) => r,
        None => match strip_prefix(uri, "sentinel://"@) {
            Some(r) => r,
            None => match strip_prefix(uri, "http://sentinel.localhost"@) {
                Some(r) => r,
                None => match strip_prefix(uri, "https://sentinel.localhost"@) {
                    Some(r) => r,
                    None => uri,
                },
            },
        },
    }
}

/// The text before the first `?`.
pub open spec fn before_query(s: Seq<char>) -> Seq<char> {
    match first_index_of(s, '?') {
        Some(i) => s.take(i),
        None => s,
    }
}

/// The text without its leading `/`s.
pub open spec fn without_leading_slashes(s: Seq<char>) -> Seq<char>
    decreases s.len(),
{
    if s.len() > 0 && s[0] == '/' {
        without_leading_slashes(s.drop_first())
    } else {
        s
    }
}

/// The path a shell request names, still percent-encoded.
pub open spec fn request_clean_path_spec(uri: Seq<char>) -> Seq<char> {
    without_leading_slashes(before_query(without_shell_origin(uri)))
}

/// Each `/` turned into `\`.
pub open spec fn backslashed(s: Seq<char>) -> Seq<char> {
    s.map_values(|c: char| if c == '/' { '\\' } else { c })
}

/// The value of a hexadecimal digit byte.
pub open spec fn hex_byte(b: u8) -> Option<nat> {
    if 48 <= b <= 57 {
        Some((b - 48) as nat)
    } else if 65 <= b <= 70 {
        Some((b - 55) as nat)
    } else if 97 <= b <= 102 {
        Some((b - 87) as nat)
    } else {
        None
    }
}

/// Percent-decoding of bytes: `%` and two hexadecimal digits give the byte
/// they spell; any other byte, a `%` without two digits after it among
/// them, is kept.
pub open spec fn percent_decoded(b: Seq<u8>) -> Seq<u8>
    decreases b.len(),
{
    if b.len() == 0 {
        Seq::empty()
    } else if b[0] == 37 && b.len() >= 3 && hex_byte(b[1]) is Some && hex_byte(b[2]) is Some {
        seq![(hex_byte(b[1])->0 * 16 + hex_byte(b[2])->0) as u8] + percent_decoded(b.skip(3))
    } else {
        seq![b[0]] + percent_decoded(b.skip(1))
    }
}

/// What `urlencoding::decode` gives for a text: the text whose UTF-8 bytes
/// are the percent-decoded bytes, where those bytes are UTF-8.
pub uninterp spec fn url_decoded_utf8(s: Seq<char>) -> Option<Seq<char>>;

/// Calls `urlencoding::decode`: it percent-decodes the UTF-8 bytes of the
/// text and reads the result as UTF-8, failing where it is not; a text
/// without `%` comes back as it is.
#[verifier::external_body]
fn url_decode_utf8(s: &str) -> (r: Option<String>)
    ensures
        match r {
            Some(t) => url_decoded_utf8(s@) == Some(t@) && utf8(t@) == percent_decoded(utf8(s@)) && (!s@.contains(
                '%',
            ) ==> t@ == s@),
            None => url_decoded_utf8(s@) is None && s@.contains('%') && forall|t: Seq<char>|
                #[trigger] utf8(t) != percent_decoded(utf8(s@)),
        },
{
    urlencoding::decode(s).ok().map(|c| c.into_owned())
}

/// The path a shell request names, still percent-encoded: the URI without
/// the shell's origin, its query and its leading `/`s.
pub fn request_clean_path(uri: &str) -> (r: String)
    ensures
        r@ == request_clean_path_spec(uri@),
{
    let cs = chars_of(uri);
    let rest = match chars_strip_prefix(&cs, "sentinel://localhost") {
        Some(r) => r,
        None => match chars_strip_prefix(&cs, "sentinel://") {
            Some(r) => r,
            None => match chars_strip_prefix(&cs, "http://sentinel.localhost") {
                Some(r) => r,
                None => match chars_strip_prefix(&cs, "https://sentinel.localhost") {
                    Some(r) => r,
                    None => cs,
                },
            },
        },
    };
    let path = match find_char(&rest, '?') {
        Some(i) => slice_chars(&rest, 0, i),
        None => rest,
    };
    assert(path@ == before_query(without_shell_origin(uri@))) by {
        if let Some(i) = first_index_of(rest@, '?') {
            assert(path@ =~= rest@.take(i));
        }
    }
    let mut k: usize = 0;
    assert(path@.skip(0) =~= path@);
    while k < path.len() && path[k] == '/'
        invariant
            k <= path.len(),
            without_leading_slashes(path@.skip(k as int)) == without_leading_slashes(path@),
        decreases path.len() - k,
    {
        assert(path@.skip(k as int).drop_first() =~= path@.skip(k + 1));
        k += 1;
    }
    let tail = slice_chars(&path, k, path.len());
    assert(tail@ =~= path@.skip(k as int));
    string_from_chars(&tail)
}

/// The file a shell request names, below the home folder: the decoded path
/// (the clean path where it did not decode), with `\` for each `/`.
pub fn request_file_path(clean: &str, decoded: Option<String>) -> (r: String)
    ensures
        r@ == backslashed(match decoded {
            Some(d) => d@,
            None => clean@,
        }),
{
    let cs = match decoded {
        Some(d) => chars_of(d.as_str()),
        None => chars_of(clean),
    };
    let mut out: Vec<char> = Vec::new();
    for i in 0..cs.len()
        invariant
            out@ == backslashed(cs@.take(i as int)),
    {
        out.push(if cs[i] == '/' { '\\' } else { cs[i] });
        assert(out@ =~= backslashed(cs@.take(i + 1)));
    }
    assert(cs@.take(cs.len() as int) =~= cs@);
    string_from_chars(&out)
}

/// The file a request URI names.
pub open spec fn sentinel_request_spec(uri: Seq<char>) -> Seq<char> {
    let clean = request_clean_path_spec(uri);
    backslashed(match url_decoded_utf8(clean) {
        Some(d) => d,
        None => clean,
    })
}

/// The file a request to the shell's `sentinel` protocol names, below the
/// home folder.
pub fn sentinel_request_path(uri: &str) -> (r: String)
    ensures
        r@ == sentinel_request_spec(uri@),
{
    let clean = request_clean_path(uri);
    let decoded = url_decode_utf8(clean.as_str());
    request_file_path(clean.as_str(), decoded)
}


/// Content types go by the extension in any case: an extension whose
/// lower-cased form is one of the known ones is served with that one's type
/// (`svg`, `SVG` or `Svg` alike as `image/svg+xml`, `JPG` as `image/jpeg`),
/// and any other with `application/octet-stream`.
pub proof fn law_content_type_by_extension(e: Seq<char>)
    ensures
        unicode_lower(e) == "html"@ ==> mime_spec(ext_key(Some(e))) == "text/html"@,
        unicode_lower(e) == "htm"@ ==> mime_spec(ext_key(Some(e))) == "text/html"@,
        unicode_lower(e) == "css"@ ==> mime_spec(ext_key(Some(e))) == "text/css"@,
        unicode_lower(e) == "js"@ ==> mime_spec(ext_key(Some(e))) == "application/javascript"@,
        unicode_lower(e) == "mjs"@ ==> mime_spec(ext_key(Some(e))) == "application/javascript"@,
        unicode_lower(e) == "json"@ ==> mime_spec(ext_key(Some(e))) == "application/json"@,
        unicode_lower(e) == "png"@ ==> mime_spec(ext_key(Some(e))) == "image/png"@,
        unicode_lower(e) == "jpg"@ ==> mime_spec(ext_key(Some(e))) == "image/jpeg"@,
        unicode_lower(e) == "jpeg"@ ==> mime_spec(ext_key(Some(e))) == "image/jpeg"@,
        unicode_lower(e) == "gif"@ ==> mime_spec(ext_key(Some(e))) == "image/gif"@,
        unicode_lower(e) == "svg"@ ==> mime_spec(ext_key(Some(e))) == "image/svg+xml"@,
        unicode_lower(e) == "ico"@ ==> mime_spec(ext_key(Some(e))) == "image/x-icon"@,
        unicode_lower(e) == "webp"@ ==> mime_spec(ext_key(Some(e))) == "image/webp"@,
        unicode_lower(e) == "woff"@ ==> mime_spec(ext_key(Some(e))) == "font/woff"@,
        unicode_lower(e) == "woff2"@ ==> mime_spec(ext_key(Some(e))) == "font/woff2"@,
        unicode_lower(e) == "ttf"@ ==> mime_spec(ext_key(Some(e))) == "font/ttf"@,
        unicode_lower(e) == "otf"@ ==> mime_spec(ext_key(Some(e))) == "font/otf"@,
        unicode_lower(e) == "mp4"@ ==> mime_spec(ext_key(Some(e))) == "video/mp4"@,
        unicode_lower(e) == "webm"@ ==> mime_spec(ext_key(Some(e))) == "video/webm"@,
        unicode_lower(e) == "mp3"@ ==> mime_spec(ext_key(Some(e))) == "audio/mpeg"@,
        unicode_lower(e) == "ogg"@ ==> mime_spec(ext_key(Some(e))) == "audio/ogg"@,
        unicode_lower(e) == "wav"@ ==> mime_spec(ext_key(Some(e))) == "audio/wav"@,
        unicode_lower(e) == "xml"@ ==> mime_spec(ext_key(Some(e))) == "application/xml"@,
        unicode_lower(e) == "txt"@ ==> mime_spec(ext_key(Some(e))) == "text/plain"@,
        unicode_lower(e) == "yaml"@ ==> mime_spec(ext_key(Some(e))) == "text/yaml"@,
        unicode_lower(e) == "yml"@ ==> mime_spec(ext_key(Some(e))) == "text/yaml"@,
        !(unicode_lower(e) == "html"@ || unicode_lower(e) == "htm"@ || unicode_lower(e) == "css"@ || unicode_lower(e) == "js"@ || unicode_lower(e) == "mjs"@ || unicode_lower(e) == "json"@ || unicode_lower(e) == "png"@ || unicode_lower(e) == "jpg"@ || unicode_lower(e) == "jpeg"@ || unicode_lower(e) == "gif"@ || unicode_lower(e) == "svg"@ || unicode_lower(e) == "ico"@ || unicode_lower(e) == "webp"@ || unicode_lower(e) == "woff"@ || unicode_lower(e) == "woff2"@ || unicode_lower(e) == "ttf"@ || unicode_lower(e) == "otf"@ || unicode_lower(e) == "mp4"@ || unicode_lower(e) == "webm"@ || unicode_lower(e) == "mp3"@ || unicode_lower(e) == "ogg"@ || unicode_lower(e) == "wav"@ || unicode_lower(e) == "xml"@ || unicode_lower(e) == "txt"@ || unicode_lower(e) == "yaml"@ || unicode_lower(e) == "yml"@)
            ==> mime_spec(ext_key(Some(e))) == "application/octet-stream"@,
{
    reveal_strlit("html");
    reveal_strlit("htm");
    reveal_strlit("css");
    reveal_strlit("js");
    reveal_strlit("mjs");
    reveal_strlit("json");
    reveal_strlit("png");
    reveal_strlit("jpg");
    reveal_strlit("jpeg");
    reveal_strlit("gif");
    reveal_strlit("svg");
    reveal_strlit("ico");
    reveal_strlit("webp");
    reveal_strlit("woff");
    reveal_strlit("woff2");
    reveal_strlit("ttf");
    reveal_strlit("otf");
    reveal_strlit("mp4");
    reveal_strlit("webm");
    reveal_strlit("mp3");
    reveal_strlit("ogg");
    reveal_strlit("wav");
    reveal_strlit("xml");
    reveal_strlit("txt");
    reveal_strlit("yaml");
    reveal_strlit("yml");
    assert("html"@[0] == 'h' && "html"@[1] == 't' && "html"@[2] == 'm' && "html"@[3] == 'l');
    assert("htm"@[0] == 'h' && "htm"@[1] == 't' && "htm"@[2] == 'm');
    assert("css"@[0] == 'c' && "css"@[1] == 's' && "css"@[2] == 's');
    assert("js"@[0] == 'j' && "js"@[1] == 's');
    assert("mjs"@[0] == 'm' && "mjs"@[1] == 'j' && "mjs"@[2] == 's');
    assert("json"@[0] == 'j' && "json"@[1] == 's' && "json"@[2] == 'o' && "json"@[3] == 'n');
    assert("png"@[0] == 'p' && "png"@[1] == 'n' && "png"@[2] == 'g');
    assert("jpg"@[0] == 'j' && "jpg"@[1] == 'p' && "jpg"@[2] == 'g');
    assert("jpeg"@[0] == 'j' && "jpeg"@[1] == 'p' && "jpeg"@[2] == 'e' && "jpeg"@[3] == 'g');
    assert("gif"@[0] == 'g' && "gif"@[1] == 'i' && "gif"@[2] == 'f');
    assert("svg"@[0] == 's' && "svg"@[1] == 'v' && "svg"@[2] == 'g');
    assert("ico"@[0] == 'i' && "ico"@[1] == 'c' && "ico"@[2] == 'o');
    assert("webp"@[0] == 'w' && "webp"@[1] == 'e' && "webp"@[2] == 'b' && "webp"@[3] == 'p');
    assert("woff"@[0] == 'w' && "woff"@[1] == 'o' && "woff"@[2] == 'f' && "woff"@[3] == 'f');
    assert("woff2"@[0] == 'w' && "woff2"@[1] == 'o' && "woff2"@[2] == 'f' && "woff2"@[3] == 'f');
    assert("ttf"@[0] == 't' && "ttf"@[1] == 't' && "ttf"@[2] == 'f');
    assert("otf"@[0] == 'o' && "otf"@[1] == 't' && "otf"@[2] == 'f');
    assert("mp4"@[0] == 'm' && "mp4"@[1] == 'p' && "mp4"@[2] == '4');
    assert("webm"@[0] == 'w' && "webm"@[1] == 'e' && "webm"@[2] == 'b' && "webm"@[3] == 'm');
    assert("mp3"@[0] == 'm' && "mp3"@[1] == 'p' && "mp3"@[2] == '3');
    assert("ogg"@[0] == 'o' && "ogg"@[1] == 'g' && "ogg"@[2] == 'g');
    assert("wav"@[0] == 'w' && "wav"@[1] == 'a' && "wav"@[2] == 'v');
    assert("xml"@[0] == 'x' && "xml"@[1] == 'm' && "xml"@[2] == 'l');
    assert("txt"@[0] == 't' && "txt"@[1] == 'x' && "txt"@[2] == 't');
    assert("yaml"@[0] == 'y' && "yaml"@[1] == 'a' && "yaml"@[2] == 'm' && "yaml"@[3] == 'l');
    assert("yml"@[0] == 'y' && "yml"@[1] == 'm' && "yml"@[2] == 'l');
    let key = unicode_lower(e);
    if key == "html"@ {
        assert(key.len() == 4);
        assert(key[0] == 'h' && key[1] == 't' && key[2] == 'm' && key[3] == 'l');
    } else if key == "htm"@ {
        assert(key.len() == 3);
        assert(key[0] == 'h' && key[1] == 't' && key[2] == 'm');
    } else if key == "css"@ {
        assert(key.len() == 3);
        assert(key[0] == 'c' && key[1] == 's' && key[2] == 's');
    } else if key == "js"@ {
        assert(key.len() == 2);
        assert(key[0] == 'j' && key[1] == 's');
    } else if key == "mjs"@ {
        assert(key.len() == 3);
        assert(key[0] == 'm' && key[1] == 'j' && key[2] == 's');
    } else if key == "json"@ {
        assert(key.len() == 4);
        assert(key[0] == 'j' && key[1] == 's' && key[2] == 'o' && key[3] == 'n');
    } else if key == "png"@ {
        assert(key.len() == 3);
        assert(key[0] == 'p' && key[1] == 'n' && key[2] == 'g');
    } else if key == "jpg"@ {
        assert(key.len() == 3);
        assert(key[0] == 'j' && key[1] == 'p' && key[2] == 'g');
    } else if key == "jpeg"@ {
        assert(key.len() == 4);
        assert(key[0] == 'j' && key[1] == 'p' && key[2] == 'e' && key[3] == 'g');
    } else if key == "gif"@ {
        assert(key.len() == 3);
        assert(key[0] == 'g' && key[1] == 'i' && key[2] == 'f');
    } else if key == "svg"@ {
        assert(key.len() == 3);
        assert(key[0] == 's' && key[1] == 'v' && key[2] == 'g');
    } else if key == "ico"@ {
        assert(key.len() == 3);
        assert(key[0] == 'i' && key[1] == 'c' && key[2] == 'o');
    } else if key == "webp"@ {
        assert(key.len() == 4);
        assert(key[0] == 'w' && key[1] == 'e' && key[2] == 'b' && key[3] == 'p');
    } else if key == "woff"@ {
        assert(key.len() == 4);
        assert(key[0] == 'w' && key[1] == 'o' && key[2] == 'f' && key[3] == 'f');
    } else if key == "woff2"@ {
        assert(key.len() == 5);
        assert(key[0] == 'w' && key[1] == 'o' && key[2] == 'f' && key[3] == 'f');
    } else if key == "ttf"@ {
        assert(key.len() == 3);
        assert(key[0] == 't' && key[1] == 't' && key[2] == 'f');
    } else if key == "otf"@ {
        assert(key.len() == 3);
        assert(key[0] == 'o' && key[1] == 't' && key[2] == 'f');
    } else if key == "mp4"@ {
        assert(key.len() == 3);
        assert(key[0] == 'm' && key[1] == 'p' && key[2] == '4');
    } else if key == "webm"@ {
        assert(key.len() == 4);
        assert(key[0] == 'w' && key[1] == 'e' && key[2] == 'b' && key[3] == 'm');
    } else if key == "mp3"@ {
        assert(key.len() == 3);
        assert(key[0] == 'm' && key[1] == 'p' && key[2] == '3');
    } else if key == "ogg"@ {
        assert(key.len() == 3);
        assert(key[0] == 'o' && key[1] == 'g' && key[2] == 'g');
    } else if key == "wav"@ {
        assert(key.len() == 3);
        assert(key[0] == 'w' && key[1] == 'a' && key[2] == 'v');
    } else if key == "xml"@ {
        assert(key.len() == 3);
        assert(key[0] == 'x' && key[1] == 'm' && key[2] == 'l');
    } else if key == "txt"@ {
        assert(key.len() == 3);
        assert(key[0] == 't' && key[1] == 'x' && key[2] == 't');
    } else if key == "yaml"@ {
        assert(key.len() == 4);
        assert(key[0] == 'y' && key[1] == 'a' && key[2] == 'm' && key[3] == 'l');
    } else if key == "yml"@ {
        assert(key.len() == 3);
        assert(key[0] == 'y' && key[1] == 'm' && key[2] == 'l');
    }
}

/// A file served from the settings shell whose name ends in an `svg`
/// extension, in any case, is sent as `image/svg+xml`, so that it is drawn.
pub proof fn law_svg_file_is_served_as_svg(path: Seq<char>, f: Seq<char>, e: Seq<char>)
    requires
        simple_file_name(path) == Some(f),
        name_extension(f) == Some(e),
        unicode_lower(e) == "svg"@,
    ensures
        mime_spec(ext_key(name_extension(f))) == "image/svg+xml"@,
{
    law_content_type_by_extension(e);
}
} // verus!
