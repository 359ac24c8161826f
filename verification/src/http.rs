//! The HTTP bridge's request handling: routing a request line, reading the
//! query string into request arguments, and the response head.
use vstd::prelude::*;
use crate::json::{Json, JsonV, view_items, view_members, push_member, push_item};
use crate::dispatch::{member_insert, insert_member};
use crate::text::{
    chars_of, is_ws, char_is_ws, trim, chars_trim, split_on, split_chars, views, split_once,
    chars_split_once, string_from_chars, string_from_str, str_eq, chars_eq, decimal, u64_decimal,
    push_all, push_str_chars, words, split_words,
};

verus! {

// ---------------------------------------------------------------------------
// Percent-decoding
// ---------------------------------------------------------------------------

/// The value of a hexadecimal digit.
pub open spec fn hex_digit(c: char) -> Option<nat> {
    if '0' <= c && c <= '9' {
        Some((c as nat - '0' as nat) as nat)
    } else if 'a' <= c && c <= 'f' {
        Some((c as nat - 'a' as nat + 10) as nat)
    } else if 'A' <= c && c <= 'F' {
        Some((c as nat - 'A' as nat + 10) as nat)
    } else {
        None
    }
}

/// `u8::from_str_radix` on two characters in base 16 (a leading `+` is a sign).
pub open spec fn hex_pair(a: char, b: char) -> Option<nat> {
    if a == '+' {
        hex_digit(b)
    } else {
        match (hex_digit(a), hex_digit(b)) {
            (Some(x), Some(y)) => Some(x * 16 + y),
            _ => None,
        }
    }
}

/// Percent-decoding of a query value: `%XX` becomes the character with that
/// code (0 to 255), `+` a space; a `%` without two hexadecimal digits after
/// it is kept, with what follows it, as it is.
pub open spec fn url_decoded(t: Seq<char>) -> Seq<char>
    decreases t.len(),
{
    if t.len() == 0 {
        Seq::empty()
    } else if t[0] == '%' {
        if t.len() >= 3 && hex_pair(t[1], t[2]) is Some {
            seq![(hex_pair(t[1], t[2])->0) as char] + url_decoded(t.skip(3))
        } else {
            let h = t.subrange(1, if t.len() >= 3 { 3 } else { t.len() as int });
            seq!['%'] + h + url_decoded(t.skip(1 + h.len() as int))
        }
    } else if t[0] == '+' {
        seq![' '] + url_decoded(t.skip(1))
    } else {
        seq![t[0]] + url_decoded(t.skip(1))
    }
}

/// Text with no `%` and no `+` in it is its own percent-decoding.
pub proof fn law_plain_text_decodes_to_itself(t: Seq<char>)
    requires
        !t.contains('%'),
        !t.contains('+'),
    ensures
        url_decoded(t) == t,
    decreases t.len(),
{
    if t.len() > 0 {
        assert(t[0] != '%' && t[0] != '+') by {
            assert(t.contains(t[0]));
        }
        let rest = t.skip(1);
        assert forall|c: char| (c == '%' || c == '+') implies !rest.contains(c) by {
            if rest.contains(c) {
                let k = choose|k: int| 0 <= k < rest.len() && rest[k] == c;
                assert(t[k + 1] == c);
            }
        }
        law_plain_text_decodes_to_itself(rest);
        assert(seq![t[0]] + rest =~= t);
    }
}

fn hex_digit_of(c: char) -> (r: Option<u8>)
    ensures
        match hex_digit(c) {
            Some(v) => r == Some(v as u8) && v < 16,
            None => r is None,
        },
{
    if '0' <= c && c <= '9' {
        Some((c as u32 - '0' as u32) as u8)
    } else if 'a' <= c && c <= 'f' {
        Some((c as u32 - 'a' as u32 + 10) as u8)
    } else if 'A' <= c && c <= 'F' {
        Some((c as u32 - 'A' as u32 + 10) as u8)
    } else {
        None
    }
}

fn hex_pair_of(a: char, b: char) -> (r: Option<u8>)
    ensures
        match hex_pair(a, b) {
            Some(v) => r == Some(v as u8) && v < 256,
            None => r is None,
        },
{
    if a == '+' {
        hex_digit_of(b)
    } else {
        match (hex_digit_of(a), hex_digit_of(b)) {
            (Some(x), Some(y)) => Some(x * 16 + y),
            _ => None,
        }
    }
}

/// Percent-decodes a query value.
pub fn url_decode(s: &str) -> (r: String)
    ensures
        r@ == url_decoded(s@),
{
    let cs = chars_of(s);
    let n = cs.len();
    let mut out: Vec<char> = Vec::new();
    let mut i: usize = 0;
    assert(cs@.skip(0) =~= cs@);
    while i < n
        invariant
            cs@ == s@,
            n == cs.len(),
            i <= n,
            out@ + url_decoded(cs@.skip(i as int)) == url_decoded(s@),
        decreases n - i,
    {
        let ghost t = cs@.skip(i as int);
        let c = cs[i];
        assert(t[0] == c);
        if c == '%' {
            let pair = if n - i > 2 { hex_pair_of(cs[i + 1], cs[i + 2]) } else { None };
            match pair {
                Some(byte) => {
                    assert(t[1] == cs@[i + 1] && t[2] == cs@[i + 2]);
                    assert(t.skip(3) =~= cs@.skip(i + 3));
                    let ghost before = out@;
                    out.push(byte as char);
                    assert(out@ + url_decoded(cs@.skip(i + 3)) =~= before + url_decoded(t));
                    i = i + 3;
                },
                None => {
                    let end = if n - i > 2 { i + 3 } else { n };
                    proof {
                        if n - i > 2 {
                            assert(t[1] == cs@[i + 1] && t[2] == cs@[i + 2]);
                        }
                    }
                    let ghost before = out@;
                    out.push('%');
                    let mut k = i + 1;
                    while k < end
                        invariant
                            i + 1 <= k <= end <= n,
                            n == cs.len(),
                            out@ == before.push('%') + cs@.subrange(i + 1, k as int),
                        decreases end - k,
                    {
                        out.push(cs[k]);
                        assert(cs@.subrange(i + 1, k + 1) =~= cs@.subrange(i + 1, k as int).push(cs@[k as int]));
                        k += 1;
                    }
                    let ghost h = t.subrange(1, if t.len() >= 3 { 3 } else { t.len() as int });
                    assert(h =~= cs@.subrange(i + 1, end as int));
                    assert(t.skip(1 + h.len() as int) =~= cs@.skip(end as int));
                    assert(out@ + url_decoded(cs@.skip(end as int)) =~= before + url_decoded(t));
                    i = end;
                },
            }
        } else {
            let ghost before = out@;
            if c == '+' {
                out.push(' ');
            } else {
                out.push(c);
            }
            assert(t.skip(1) =~= cs@.skip(i + 1));
            assert(out@ + url_decoded(cs@.skip(i + 1)) =~= before + url_decoded(t));
            i = i + 1;
        }
    }
    assert(cs@.skip(n as int) =~= Seq::<char>::empty());
    assert(out@ =~= url_decoded(s@));
    string_from_chars(&out)
}

// ---------------------------------------------------------------------------
// Query strings
// ---------------------------------------------------------------------------

/// The argument one `key=value` pair sets: `sections` becomes an array of
/// its trimmed comma-separated parts, any other key a string.
pub open spec fn query_value(key: Seq<char>, val: Seq<char>) -> JsonV {
    let decoded = url_decoded(val);
    if key == "sections"@ {
        JsonV::Array(split_on(decoded, ',').map_values(|p: Seq<char>| JsonV::Str(trim(p))))
    } else {
        JsonV::Str(decoded)
    }
}

/// The members the `&`-separated pairs set, later pairs overriding earlier
/// ones; a pair without `=` sets nothing.
pub open spec fn query_members(pairs: Seq<Seq<char>>) -> Seq<(Seq<char>, JsonV)>
    decreases pairs.len(),
{
    if pairs.len() == 0 {
        Seq::empty()
    } else {
        let rest = query_members(pairs.drop_last());
        match split_once(pairs.last(), '=') {
            Some((k, v)) => member_insert(rest, k, query_value(k, v)),
            None => rest,
        }
    }
}

/// The request arguments a query string gives: none without a query, for an
/// empty one, or when no pair sets anything.
pub open spec fn query_args(query: Option<Seq<char>>) -> Option<JsonV> {
    match query {
        None => None,
        Some(q) => if q.len() == 0 {
            None
        } else {
            let ms = query_members(split_on(q, '&'));
            if ms.len() == 0 { None } else { Some(JsonV::Object(ms)) }
        },
    }
}

fn section_parts(decoded: &Vec<char>) -> (r: Vec<Json>)
    ensures
        view_items(r@) == split_on(decoded@, ',').map_values(|p: Seq<char>| JsonV::Str(trim(p))),
{
    let parts = split_chars(decoded, ',');
    let mut out: Vec<Json> = Vec::new();
    for i in 0..parts.len()
        invariant
            views(parts@) == split_on(decoded@, ','),
            view_items(out@) == views(parts@).take(i as int).map_values(|p: Seq<char>| JsonV::Str(trim(p))),
    {
        let t = chars_trim(&parts[i]);
        assert(views(parts@)[i as int] == parts@[i as int]@);
        push_item(&mut out, Json::Str(string_from_chars(&t)));
        assert(view_items(out@) =~= views(parts@).take(i + 1).map_values(|p: Seq<char>| JsonV::Str(trim(p))));
    }
    assert(views(parts@).take(parts.len() as int) =~= views(parts@));
    out
}

/// Reads a query string into request arguments.
pub fn parse_query_to_args(query: Option<&str>) -> (r: Option<Json>)
    ensures
        match r {
            Some(j) => query_args(match query { Some(q) => Some(q@), None => None }) == Some(j.view()),
            None => query_args(match query { Some(q) => Some(q@), None => None }) is None,
        },
{
    let q = match query {
        Some(q) => q,
        None => {
            return None;
        },
    };
    let cs = chars_of(q);
    if cs.len() == 0 {
        return None;
    }
    let pairs = split_chars(&cs, '&');
    let ghost ps = views(pairs@);
    let mut ms: Vec<(String, Json)> = Vec::new();
    let sections = chars_of("sections");
    for i in 0..pairs.len()
        invariant
            ps == views(pairs@),
            ps == split_on(q@, '&'),
            sections@ == "sections"@,
            view_members(ms@) == query_members(ps.take(i as int)),
    {
        assert(ps.take(i + 1).drop_last() =~= ps.take(i as int));
        assert(ps.take(i + 1).last() == pairs@[i as int]@);
        match chars_split_once(&pairs[i], '=') {
            Some((key, val)) => {
                let vs = string_from_chars(&val);
                let decoded = url_decode(vs.as_str());
                let dcs = chars_of(decoded.as_str());
                let v = if chars_eq(&key, &sections) {
                    Json::Array(section_parts(&dcs))
                } else {
                    Json::Str(decoded)
                };
                assert(v.view() == query_value(key@, val@));
                insert_member(&mut ms, string_from_chars(&key), v);
            },
            None => {},
        }
    }
    assert(ps.take(pairs.len() as int) =~= ps);
    proof {
        crate::json::lemma_view_members_len(ms@);
    }
    if ms.len() == 0 {
        None
    } else {
        Some(Json::Object(ms))
    }
}

// ---------------------------------------------------------------------------
// Request lines
// ---------------------------------------------------------------------------

/// `trim_start_matches(c)`: the text after the leading run of `c`.
pub open spec fn trim_leading(s: Seq<char>, c: char) -> Seq<char>
    decreases s.len(),
{
    if s.len() > 0 && s[0] == c {
        trim_leading(s.drop_first(), c)
    } else {
        s
    }
}

fn chars_trim_leading(s: &Vec<char>, c: char) -> (r: Vec<char>)
    ensures
        r@ == trim_leading(s@, c),
{
    let mut i: usize = 0;
    assert(s@.skip(0) =~= s@);
    while i < s.len() && s[i] == c
        invariant
            i <= s.len(),
            trim_leading(s@.skip(i as int), c) == trim_leading(s@, c),
        decreases s.len() - i,
    {
        assert(s@.skip(i as int).drop_first() =~= s@.skip(i + 1));
        i += 1;
    }
    let r = crate::text::slice_chars(s, i, s.len());
    assert(r@ =~= s@.skip(i as int));
    r
}

/// Where an HTTP request goes.
#[derive(Debug)]
pub enum HttpRoute {
    /// A request line with fewer than two words: nothing is answered.
    Ignore,
    /// `OPTIONS`: the CORS preflight, answered with 204.
    Preflight,
    /// `/api/{ns}/{cmd}`, with its query string; `post` for a `POST`.
    Api { post: bool, ns: String, cmd: String, query: Option<String> },
    /// Anything else: 404.
    NotFound,
}

/// The route of a request line.
pub open spec fn route_spec(line: Seq<char>) -> (bool, bool, Option<(bool, Seq<char>, Seq<char>, Option<Seq<char>>)>) {
    let parts = words(line);
    if parts.len() < 2 {
        (true, false, None)
    } else if parts[0] == "OPTIONS"@ {
        (false, true, None)
    } else {
        let raw = parts[1];
        let (path, query) = match split_once(raw, '?') {
            Some((p, q)) => (p, Some(q)),
            None => (raw, None),
        };
        let segs = split_on(trim_leading(path, '/'), '/');
        if segs.len() >= 3 && segs[0] == "api"@ {
            (false, false, Some((parts[0] == "POST"@, segs[1], segs[2], query)))
        } else {
            (false, false, None)
        }
    }
}

pub open spec fn route_view(r: HttpRoute) -> (bool, bool, Option<(bool, Seq<char>, Seq<char>, Option<Seq<char>>)>) {
    match r {
        HttpRoute::Ignore => (true, false, None),
        HttpRoute::Preflight => (false, true, None),
        HttpRoute::Api { post, ns, cmd, query } => (false, false, Some((post, ns@, cmd@, match query {
            Some(q) => Some(q@),
            None => None,
        }))),
        HttpRoute::NotFound => (false, false, None),
    }
}

/// Routes a request line such as `GET /api/registry/get_data?sections=cpu HTTP/1.1`.
pub fn route_request(line: &str) -> (r: HttpRoute)
    ensures
        route_view(r) == route_spec(line@),
{
    let cs = chars_of(line);
    let parts = split_words(&cs);
    if parts.len() < 2 {
        return HttpRoute::Ignore;
    }
    assert(views(parts@)[0] == parts@[0]@ && views(parts@)[1] == parts@[1]@);
    let options = chars_of("OPTIONS");
    if chars_eq(&parts[0], &options) {
        return HttpRoute::Preflight;
    }
    let raw = &parts[1];
    let (path, query) = match chars_split_once(raw, '?') {
        Some((p, q)) => (p, Some(q)),
        None => (crate::text::copy_chars(raw), None),
    };
    let trimmed = chars_trim_leading(&path, '/');
    let segs = split_chars(&trimmed, '/');
    let api = chars_of("api");
    if segs.len() >= 3 && chars_eq(&segs[0], &api) {
        assert(views(segs@)[0] == segs@[0]@ && views(segs@)[1] == segs@[1]@ && views(segs@)[2] == segs@[2]@);
        let post_text = chars_of("POST");
        let post = chars_eq(&parts[0], &post_text);
        let q = match query {
            Some(q) => Some(string_from_chars(&q)),
            None => None,
        };
        HttpRoute::Api { post, ns: string_from_chars(&segs[1]), cmd: string_from_chars(&segs[2]), query: q }
    } else {
        HttpRoute::NotFound
    }
}

/// The largest POST body read, in bytes.
pub const MAX_BODY_BYTES: usize = 1048576;

/// How many body bytes to read: for a POST with a body, its length capped
/// at 1 MiB; otherwise none (the arguments come from the query string).
pub fn body_bytes_to_read(post: bool, content_length: usize) -> (r: Option<usize>)
    ensures
        post && content_length > 0 ==> r == Some(if content_length < MAX_BODY_BYTES { content_length } else { MAX_BODY_BYTES }),
        !(post && content_length > 0) ==> r is None,
{
    if post && content_length > 0 {
        Some(if content_length < MAX_BODY_BYTES { content_length } else { MAX_BODY_BYTES })
    } else {
        None
    }
}

/// The `Content-Length` a header line gives: the trimmed line must start
/// with `Content-Length:` or `content-length:`; a value that is not a number
/// counts as 0.  `None` for any other line.
pub open spec fn content_length_of(line: Seq<char>) -> Option<usize> {
    let t = trim(line);
    match crate::text::strip_prefix(t, "Content-Length:"@) {
        Some(v) => Some(match crate::text::parse_usize_spec(trim(v)) { Some(n) => n, None => 0 }),
        None => match crate::text::strip_prefix(t, "content-length:"@) {
            Some(v) => Some(match crate::text::parse_usize_spec(trim(v)) { Some(n) => n, None => 0 }),
            None => None,
        },
    }
}

/// Reads a header line's `Content-Length`.
pub fn header_content_length(line: &str) -> (r: Option<usize>)
    ensures
        r == content_length_of(line@),
{
    let t = crate::text::str_trim(line);
    let v = match crate::text::chars_strip_prefix(&t, "Content-Length:") {
        Some(v) => Some(v),
        None => crate::text::chars_strip_prefix(&t, "content-length:"),
    };
    match v {
        Some(v) => {
            let vt = chars_trim(&v);
            Some(match crate::text::parse_usize(&vt) {
                Some(n) => n,
                None => 0,
            })
        },
        None => None,
    }
}

/// The headers end at the first line that is blank once trimmed.
pub fn is_header_end(line: &str) -> (r: bool)
    ensures
        r == (trim(line@).len() == 0),
{
    crate::text::str_trim(line).len() == 0
}

/// The reason phrase sent with a status code.
pub open spec fn status_text_spec(status: u16) -> Seq<char> {
    if status == 204 {
        "No Content"@
    } else if status == 404 {
        "Not Found"@
    } else {
        "OK"@
    }
}

pub fn status_text(status: u16) -> (r: &'static str)
    ensures
        r@ == status_text_spec(status),
{
    if status == 204 {
        "No Content"
    } else if status == 404 {
        "Not Found"
    } else {
        "OK"
    }
}

/// The fixed CORS and connection headers.
pub open spec fn cors_lines() -> Seq<char> {
    "Access-Control-Allow-Origin: *\r\n"@ + "Access-Control-Allow-Methods: GET, POST, OPTIONS\r\n"@
        + "Access-Control-Allow-Headers: Content-Type\r\n"@ + "Access-Control-Max-Age: 86400\r\n"@
        + "Connection: close\r\n"@
}

/// The head of a response: status line, CORS headers, the content type and
/// length when there is a content type, and the blank line.
pub open spec fn response_head_spec(status: u16, content_type: Option<Seq<char>>, body_len: usize) -> Seq<char> {
    "HTTP/1.1 "@ + decimal(status as nat) + " "@ + status_text_spec(status) + "\r\n"@ + cors_lines() + match content_type {
        Some(ct) => "Content-Type: "@ + ct + "\r\n"@ + "Content-Length: "@ + decimal(body_len as nat) + "\r\n"@,
        None => Seq::empty(),
    } + "\r\n"@
}

/// Builds the head of a response.
pub fn response_head(status: u16, content_type: Option<&str>, body_len: usize) -> (r: String)
    ensures
        r@ == response_head_spec(status, match content_type { Some(c) => Some(c@), None => None }, body_len),
{
    let mut out = chars_of("HTTP/1.1 ");
    let code = u64_decimal(status as u64);
    push_all(&mut out, &code);
    push_str_chars(&mut out, " ");
    push_str_chars(&mut out, status_text(status));
    push_str_chars(&mut out, "\r\n");
    push_str_chars(&mut out, "Access-Control-Allow-Origin: *\r\n");
    push_str_chars(&mut out, "Access-Control-Allow-Methods: GET, POST, OPTIONS\r\n");
    push_str_chars(&mut out, "Access-Control-Allow-Headers: Content-Type\r\n");
    push_str_chars(&mut out, "Access-Control-Max-Age: 86400\r\n");
    push_str_chars(&mut out, "Connection: close\r\n");
    let ghost mid = out@;
    match content_type {
        Some(ct) => {
            push_str_chars(&mut out, "Content-Type: ");
            push_str_chars(&mut out, ct);
            push_str_chars(&mut out, "\r\n");
            push_str_chars(&mut out, "Content-Length: ");
            let len = u64_decimal(body_len as u64);
            push_all(&mut out, &len);
            push_str_chars(&mut out, "\r\n");
        },
        None => {},
    }
    push_str_chars(&mut out, "\r\n");
    assert(out@ =~= response_head_spec(status, match content_type { Some(c) => Some(c@), None => None }, body_len));
    string_from_chars(&out)
}

/// The body sent for a path outside `/api/`.
pub fn not_found_body() -> (r: Json)
    ensures
        r.view() == JsonV::Object(seq![
            ("ok"@, JsonV::Bool(false)),
            ("error"@, JsonV::Str("Unknown endpoint. Use /api/{ns}/{cmd}"@)),
        ]),
{
    let mut ms: Vec<(String, Json)> = Vec::new();
    push_member(&mut ms, "ok", Json::Bool(false));
    push_member(&mut ms, "error", Json::Str(string_from_str("Unknown endpoint. Use /api/{ns}/{cmd}")));
    assert(view_members(ms@) =~= seq![
        ("ok"@, JsonV::Bool(false)),
        ("error"@, JsonV::Str("Unknown endpoint. Use /api/{ns}/{cmd}"@)),
    ]);
    Json::Object(ms)
}

} // verus!
