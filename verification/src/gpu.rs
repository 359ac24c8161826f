//! The GPU reading: the adapters `nvidia-smi` lists in its CSV report, merged
//! with the video controllers Windows reports, the adapters only a
//! temperature sensor names, and the summary taken from the first adapter.
use vstd::prelude::*;
use crate::json::{
    Json, JsonV, JsonNumber, NumberV, view_members, view_items, push_member, push_item, json_get, get_member,
    as_str_spec, opt_json_view, copy_or_null, text_of, opt_text_view, lemma_view_items_len,
    lemma_view_items_index,
};
use crate::dispatch::{member_insert, member_index, insert_member, find_member, or_null};
use crate::text::{
    chars_of, chars_trim, trim, split_chars, split_on, split_lines, lines_of, views, parse_u64, parse_u64_spec,
    string_from_chars, string_from_str, chars_eq, contains_seq, chars_contains_seq, to_lowercase, unicode_lower,
    lower_seq, lower_chars, chars_lt, str_less, clone_string, text_views, text_is_empty,
};
use crate::order::{insert_by, lemma_insert_by_splice};

verus! {

// ---------------------------------------------------------------------------
// The `nvidia-smi` report
// ---------------------------------------------------------------------------

pub open spec fn is_digit(c: char) -> bool {
    '0' <= c && c <= '9'
}

/// How many characters of a text are digits, dots, and neither.
pub open spec fn char_counts(t: Seq<char>) -> (nat, nat, nat)
    decreases t.len(),
{
    if t.len() == 0 {
        (0, 0, 0)
    } else {
        let (d, p, o) = char_counts(t.drop_last());
        let c = t.last();
        if is_digit(c) {
            (d + 1, p, o)
        } else if c == '.' {
            (d, p + 1, o)
        } else {
            (d, p, o + 1)
        }
    }
}

/// A text without its leading `+` or `-`.
pub open spec fn without_sign(s: Seq<char>) -> Seq<char> {
    if s.len() > 0 && (s[0] == '+' || s[0] == '-') { s.skip(1) } else { s }
}

/// The position of the first `e` or `E`.
pub open spec fn first_exp(t: Seq<char>) -> Option<int>
    decreases t.len(),
{
    if t.len() == 0 {
        None
    } else {
        match first_exp(t.drop_last()) {
            Some(i) => Some(i),
            None => if t.last() == 'e' || t.last() == 'E' { Some(t.len() - 1) } else { None },
        }
    }
}

/// Digits and at most one `.`, with at least one digit.
pub open spec fn mantissa_ok(t: Seq<char>) -> bool {
    let (d, p, o) = char_counts(t);
    d >= 1 && p <= 1 && o == 0
}

/// Digits only, at least one.
pub open spec fn digits_only(t: Seq<char>) -> bool {
    let (d, p, o) = char_counts(t);
    d >= 1 && p == 0 && o == 0
}

/// A finite decimal number as `f64::from_str` reads one: an optional sign,
/// digits with at most one `.` (at least one digit), and an optional
/// exponent: `e` or `E`, an optional sign, and digits.
pub open spec fn decimal_text(s: Seq<char>) -> bool {
    let t = without_sign(s);
    match first_exp(t) {
        Some(i) => mantissa_ok(t.take(i)) && digits_only(without_sign(t.skip(i + 1))),
        None => mantissa_ok(t),
    }
}

/// A reading `nvidia-smi` gives as a decimal: the number, or `null` for a
/// marker such as `[Not Supported]` or `N/A` (or any other text).
pub open spec fn float_field(s: Seq<char>) -> JsonV {
    if decimal_text(s) {
        JsonV::Number(NumberV::Decimal(s))
    } else {
        JsonV::Null
    }
}

/// A reading `nvidia-smi` gives as a whole number, `null` for a marker.
pub open spec fn unsigned_field(s: Seq<char>) -> JsonV {
    match parse_u64_spec(s) {
        Some(n) => JsonV::Number(NumberV::Unsigned(n)),
        None => JsonV::Null,
    }
}

/// The driver version, `null` where it is not supported or `N/A`.
pub open spec fn driver_field(s: Seq<char>) -> JsonV {
    if contains_seq(s, "Not Supported"@) || s == "N/A"@ {
        JsonV::Null
    } else {
        JsonV::Str(s)
    }
}

/// The comma-separated fields of a CSV line, each trimmed.
pub open spec fn csv_fields(line: Seq<char>) -> Seq<Seq<char>> {
    split_on(line, ',').map_values(|f: Seq<char>| trim(f))
}

/// An adapter of the report, from the fields of its line.
pub open spec fn nvidia_row(p: Seq<Seq<char>>) -> JsonV {
    JsonV::Object(seq![
        ("name"@, JsonV::Str(p[0])),
        ("driver_version"@, driver_field(p[1])),
        ("usage_percent"@, float_field(p[2])),
        ("memory_usage_percent"@, float_field(p[3])),
        ("encoder_usage_percent"@, float_field(p[4])),
        ("decoder_usage_percent"@, float_field(p[5])),
        ("vram_total_mb"@, unsigned_field(p[6])),
        ("vram_used_mb"@, unsigned_field(p[7])),
        ("vram_free_mb"@, unsigned_field(p[8])),
        ("temperature_c"@, float_field(p[9])),
        ("power_draw_w"@, float_field(p[10])),
        ("fan_speed_percent"@, float_field(p[11])),
        ("clock_graphics_mhz"@, unsigned_field(p[12])),
        ("clock_memory_mhz"@, unsigned_field(p[13])),
        ("source"@, JsonV::Str("nvidia-smi"@)),
    ])
}

/// The adapters of the report: one for each line with at least 14 fields.
pub open spec fn nvidia_rows_spec(lines: Seq<Seq<char>>) -> Seq<JsonV>
    decreases lines.len(),
{
    if lines.len() == 0 {
        Seq::empty()
    } else {
        let rest = nvidia_rows_spec(lines.drop_last());
        let p = csv_fields(lines.last());
        if p.len() < 14 {
            rest
        } else {
            rest.push(nvidia_row(p))
        }
    }
}

fn counts_of(t: &Vec<char>) -> (r: (usize, usize, usize))
    ensures
        char_counts(t@) == (r.0 as nat, r.1 as nat, r.2 as nat),
{
    let mut d: usize = 0;
    let mut p: usize = 0;
    let mut o: usize = 0;
    for i in 0..t.len()
        invariant
            char_counts(t@.take(i as int)) == (d as nat, p as nat, o as nat),
            d + p + o == i,
    {
        assert(t@.take(i + 1).drop_last() =~= t@.take(i as int));
        let c = t[i];
        if '0' <= c && c <= '9' {
            d += 1;
        } else if c == '.' {
            p += 1;
        } else {
            o += 1;
        }
    }
    assert(t@.take(t.len() as int) =~= t@);
    (d, p, o)
}

fn unsigned_part(s: &Vec<char>) -> (r: Vec<char>)
    ensures
        r@ == without_sign(s@),
{
    if s.len() > 0 && (s[0] == '+' || s[0] == '-') {
        let r = crate::text::slice_chars(s, 1, s.len());
        assert(r@ =~= s@.skip(1));
        r
    } else {
        crate::text::copy_chars(s)
    }
}

fn find_exp(t: &Vec<char>) -> (r: Option<usize>)
    ensures
        match r {
            Some(i) => first_exp(t@) == Some(i as int) && i < t.len(),
            None => first_exp(t@) is None,
        },
{
    for i in 0..t.len()
        invariant
            first_exp(t@.take(i as int)) is None,
    {
        assert(t@.take(i + 1).drop_last() =~= t@.take(i as int));
        if t[i] == 'e' || t[i] == 'E' {
            proof { lemma_first_exp_prefix(t@, i as int + 1); }
            return Some(i);
        }
    }
    assert(t@.take(t.len() as int) =~= t@);
    None
}

proof fn lemma_first_exp_prefix(t: Seq<char>, k: int)
    requires
        0 <= k <= t.len(),
        first_exp(t.take(k)) is Some,
    ensures
        first_exp(t) == first_exp(t.take(k)),
    decreases t.len() - k,
{
    if k < t.len() {
        assert(t.take(k + 1).drop_last() =~= t.take(k));
        lemma_first_exp_prefix(t, k + 1);
    } else {
        assert(t.take(k) =~= t);
    }
}

fn is_decimal_text(s: &Vec<char>) -> (r: bool)
    ensures
        r == decimal_text(s@),
{
    let t = unsigned_part(s);
    match find_exp(&t) {
        Some(i) => {
            let m = crate::text::slice_chars(&t, 0, i);
            assert(m@ =~= t@.take(i as int));
            let rest = crate::text::slice_chars(&t, i + 1, t.len());
            assert(rest@ =~= t@.skip(i + 1));
            let e = unsigned_part(&rest);
            let (d, p, o) = counts_of(&m);
            let (d2, p2, o2) = counts_of(&e);
            d >= 1 && p <= 1 && o == 0 && d2 >= 1 && p2 == 0 && o2 == 0
        },
        None => {
            let (d, p, o) = counts_of(&t);
            d >= 1 && p <= 1 && o == 0
        },
    }
}

fn float_json(s: &Vec<char>) -> (r: Json)
    ensures
        r.view() == float_field(s@),
{
    if is_decimal_text(s) {
        Json::Number(JsonNumber::Decimal(string_from_chars(s)))
    } else {
        Json::Null
    }
}

fn unsigned_json(s: &Vec<char>) -> (r: Json)
    ensures
        r.view() == unsigned_field(s@),
{
    match parse_u64(s) {
        Some(n) => Json::Number(JsonNumber::Unsigned(n)),
        None => Json::Null,
    }
}

fn driver_json(s: &Vec<char>) -> (r: Json)
    ensures
        r.view() == driver_field(s@),
{
    let na = chars_of("N/A");
    if chars_contains_seq(s, &chars_of("Not Supported")) || chars_eq(s, &na) {
        Json::Null
    } else {
        Json::Str(string_from_chars(s))
    }
}

fn csv_fields_of(line: &Vec<char>) -> (r: Vec<Vec<char>>)
    ensures
        views(r@) == csv_fields(line@),
{
    let raw = split_chars(line, ',');
    let ghost rv = views(raw@);
    let mut out: Vec<Vec<char>> = Vec::new();
    for i in 0..raw.len()
        invariant
            rv == views(raw@),
            rv == split_on(line@, ','),
            views(out@) == rv.take(i as int).map_values(|f: Seq<char>| trim(f)),
    {
        let t = chars_trim(&raw[i]);
        let ghost before = views(out@);
        out.push(t);
        assert(views(out@) =~= before.push(trim(rv[i as int])));
        assert(rv.take(i + 1).map_values(|f: Seq<char>| trim(f)) =~= rv.take(i as int).map_values(
            |f: Seq<char>| trim(f),
        ).push(trim(rv[i as int])));
    }
    assert(rv.take(raw.len() as int) =~= rv);
    out
}

fn nvidia_row_of(p: &Vec<Vec<char>>) -> (r: Json)
    requires
        p.len() >= 14,
    ensures
        r.view() == nvidia_row(views(p@)),
{
    let ghost pv = views(p@);
    let mut ms: Vec<(String, Json)> = Vec::new();
    push_member(&mut ms, "name", Json::Str(string_from_chars(&p[0])));
    push_member(&mut ms, "driver_version", driver_json(&p[1]));
    push_member(&mut ms, "usage_percent", float_json(&p[2]));
    push_member(&mut ms, "memory_usage_percent", float_json(&p[3]));
    push_member(&mut ms, "encoder_usage_percent", float_json(&p[4]));
    push_member(&mut ms, "decoder_usage_percent", float_json(&p[5]));
    push_member(&mut ms, "vram_total_mb", unsigned_json(&p[6]));
    push_member(&mut ms, "vram_used_mb", unsigned_json(&p[7]));
    push_member(&mut ms, "vram_free_mb", unsigned_json(&p[8]));
    push_member(&mut ms, "temperature_c", float_json(&p[9]));
    push_member(&mut ms, "power_draw_w", float_json(&p[10]));
    push_member(&mut ms, "fan_speed_percent", float_json(&p[11]));
    push_member(&mut ms, "clock_graphics_mhz", unsigned_json(&p[12]));
    push_member(&mut ms, "clock_memory_mhz", unsigned_json(&p[13]));
    push_member(&mut ms, "source", Json::Str(string_from_str("nvidia-smi")));
    assert(view_members(ms@) =~= nvidia_row(pv)->Object_0);
    Json::Object(ms)
}

/// Reads the adapters of the `nvidia-smi` CSV report (no header, no units).
pub fn parse_nvidia_smi_csv(text: &str) -> (r: Vec<Json>)
    ensures
        view_items(r@) == nvidia_rows_spec(lines_of(text@)),
{
    let lines = split_lines(&chars_of(text));
    let ghost lv = views(lines@);
    let mut out: Vec<Json> = Vec::new();
    for i in 0..lines.len()
        invariant
            lv == views(lines@),
            lv == lines_of(text@),
            view_items(out@) == nvidia_rows_spec(lv.take(i as int)),
    {
        assert(lv.take(i + 1).drop_last() =~= lv.take(i as int));
        assert(lv.take(i + 1).last() == lines@[i as int]@);
        let p = csv_fields_of(&lines[i]);
        proof {
            assert(views(p@).len() == p@.len());
        }
        if p.len() >= 14 {
            push_item(&mut out, nvidia_row_of(&p));
        }
    }
    assert(lv.take(lines.len() as int) =~= lv);
    out
}

/// A sensor is the GPU's when its label, lower-cased, names a GPU, graphics,
/// or a GPU maker (NVIDIA, Radeon, AMD, Intel).
pub open spec fn is_gpu_sensor_spec(label: Seq<char>) -> bool {
    let l = lower_seq(label);
    ||| contains_seq(l, "gpu"@)
    ||| contains_seq(l, "graphics"@)
    ||| contains_seq(l, "nvidia"@)
    ||| contains_seq(l, "radeon"@)
    ||| contains_seq(l, "amd"@)
    ||| contains_seq(l, "intel"@)
}

/// Whether a temperature sensor, by its label, is the GPU's.
pub fn is_gpu_sensor(label: &str) -> (r: bool)
    ensures
        r == is_gpu_sensor_spec(label@),
{
    let l = lower_chars(&chars_of(label));
    chars_contains_seq(&l, &chars_of("gpu"))
        || chars_contains_seq(&l, &chars_of("graphics"))
        || chars_contains_seq(&l, &chars_of("nvidia"))
        || chars_contains_seq(&l, &chars_of("radeon"))
        || chars_contains_seq(&l, &chars_of("amd"))
        || chars_contains_seq(&l, &chars_of("intel"))
}


// ---------------------------------------------------------------------------
// Merging the adapters
// ---------------------------------------------------------------------------

pub open spec fn members_of(j: JsonV) -> Seq<(Seq<char>, JsonV)> {
    match j {
        JsonV::Object(ms) => ms,
        _ => Seq::empty(),
    }
}

/// An adapter's `name`, empty where it has none.
pub open spec fn name_of(j: JsonV) -> Seq<char> {
    match as_str_spec(json_get(j, "name"@)) {
        Some(n) => n,
        None => Seq::empty(),
    }
}

/// Two adapter names are the same adapter when neither is empty and one,
/// lower-cased, holds the other.
pub open spec fn names_match(a: Seq<char>, b: Seq<char>) -> bool {
    a.len() > 0 && b.len() > 0 && (contains_seq(unicode_lower(a), unicode_lower(b)) || contains_seq(
        unicode_lower(b),
        unicode_lower(a),
    ))
}

/// The first video controller that is the adapter `name`.
pub open spec fn first_match(name: Seq<char>, ws: Seq<JsonV>) -> Option<int>
    decreases ws.len(),
{
    if ws.len() == 0 {
        None
    } else {
        match first_match(name, ws.drop_last()) {
            Some(i) => Some(i),
            None => if names_match(name_of(ws.last()), name) { Some(ws.len() - 1) } else { None },
        }
    }
}

/// A member of the controller `w` added where the adapter lacks it and the
/// controller's value is not `null`.
pub open spec fn copy_missing(ms: Seq<(Seq<char>, JsonV)>, w: JsonV, key: Seq<char>) -> Seq<(Seq<char>, JsonV)> {
    match json_get(w, key) {
        Some(v) => if !(v is Null) && member_index(ms, key) is None { ms.push((key, v)) } else { ms },
        None => ms,
    }
}

/// The controller's current resolution, where it is not `null`, replacing
/// the adapter's.
pub open spec fn set_resolution(ms: Seq<(Seq<char>, JsonV)>, w: JsonV) -> Seq<(Seq<char>, JsonV)> {
    match json_get(w, "current_resolution"@) {
        Some(v) => if !(v is Null) { member_insert(ms, "current_resolution"@, v) } else { ms },
        None => ms,
    }
}

/// What a matching video controller adds to an `nvidia-smi` adapter.
pub open spec fn wmi_details(ms: Seq<(Seq<char>, JsonV)>, w: JsonV) -> Seq<(Seq<char>, JsonV)> {
    set_resolution(
        copy_missing(
            copy_missing(
                copy_missing(
                    copy_missing(
                        copy_missing(
                            copy_missing(copy_missing(ms, w, "adapter_ram_bytes"@), w, "driver_version"@),
                            w,
                            "driver_date"@,
                        ),
                        w,
                        "manufacturer"@,
                    ),
                    w,
                    "physical_location"@,
                ),
                w,
                "pnp_device_id"@,
            ),
            w,
            "video_processor"@,
        ),
        w,
    )
}

/// An adapter with the shared GPU memory set.
pub open spec fn with_shared(ms: Seq<(Seq<char>, JsonV)>, shared: u64) -> JsonV {
    JsonV::Object(member_insert(ms, "shared_gpu_memory_bytes"@, JsonV::Number(NumberV::Unsigned(shared))))
}

/// An `nvidia-smi` adapter with what the first matching controller adds.
pub open spec fn enriched(nv: JsonV, ws: Seq<JsonV>, shared: u64) -> JsonV {
    let ms = match first_match(name_of(nv), ws) {
        Some(i) => wmi_details(members_of(nv), ws[i]),
        None => members_of(nv),
    };
    with_shared(ms, shared)
}

/// Some adapter of `acc` is the adapter `name`.
pub open spec fn any_match(acc: Seq<JsonV>, name: Seq<char>) -> bool {
    exists|i: int| 0 <= i < acc.len() && names_match(name_of(#[trigger] acc[i]), name)
}

/// The controllers no adapter so far is, added in order (a controller
/// added counts for the later ones).
pub open spec fn add_wmi_only(acc: Seq<JsonV>, ws: Seq<JsonV>, shared: u64) -> Seq<JsonV>
    decreases ws.len(),
{
    if ws.len() == 0 {
        acc
    } else {
        let r = add_wmi_only(acc, ws.drop_last(), shared);
        let w = ws.last();
        if name_of(w).len() > 0 && !any_match(r, name_of(w)) {
            r.push(with_shared(members_of(w), shared))
        } else {
            r
        }
    }
}

pub open spec fn text_lt() -> spec_fn(Seq<char>, Seq<char>) -> bool {
    |a: Seq<char>, b: Seq<char>| chars_lt(a, b)
}

/// The sensor labels, trimmed, without the empty ones, each once, in order.
pub open spec fn label_set(labels: Seq<Seq<char>>) -> Seq<Seq<char>>
    decreases labels.len(),
{
    if labels.len() == 0 {
        Seq::empty()
    } else {
        let r = label_set(labels.drop_last());
        let t = trim(labels.last());
        if t.len() == 0 || r.contains(t) {
            r
        } else {
            insert_by(r, t, text_lt())
        }
    }
}

/// An adapter only a temperature sensor names.
pub open spec fn fallback_adapter(name: Seq<char>, shared: u64) -> JsonV {
    JsonV::Object(seq![
        ("name"@, JsonV::Str(name)),
        ("adapter_ram_bytes"@, JsonV::Null),
        ("shared_gpu_memory_bytes"@, JsonV::Number(NumberV::Unsigned(shared))),
        ("source"@, JsonV::Str("sensor-fallback"@)),
    ])
}

/// The adapters: the `nvidia-smi` ones, each with what its video controller
/// adds, then the controllers no such adapter is; without `nvidia-smi`
/// adapters, the controllers; without either, one adapter for each GPU
/// sensor label.  Each carries the shared GPU memory.
pub open spec fn merged_adapters_spec(
    nvs: Seq<JsonV>,
    ws: Seq<JsonV>,
    labels: Seq<Seq<char>>,
    shared: u64,
) -> Seq<JsonV> {
    if nvs.len() > 0 {
        add_wmi_only(nvs.map_values(|n: JsonV| enriched(n, ws, shared)), ws, shared)
    } else if ws.len() > 0 {
        ws.map_values(|w: JsonV| with_shared(members_of(w), shared))
    } else {
        label_set(labels).map_values(|n: Seq<char>| fallback_adapter(n, shared))
    }
}

fn name_text(j: &Json) -> (r: String)
    ensures
        r@ == name_of(j.view()),
{
    match text_of(get_member(j, "name")) {
        Some(n) => n,
        None => String::new(),
    }
}

fn names_match_of(a: &str, b: &str) -> (r: bool)
    ensures
        r == names_match(a@, b@),
{
    if text_is_empty(a) || text_is_empty(b) {
        return false;
    }
    let la = chars_of(to_lowercase(a).as_str());
    let lb = chars_of(to_lowercase(b).as_str());
    chars_contains_seq(&la, &lb) || chars_contains_seq(&lb, &la)
}

fn find_controller(name: &str, wmi: &Vec<Json>) -> (r: Option<usize>)
    ensures
        match r {
            Some(i) => first_match(name@, view_items(wmi@)) == Some(i as int) && i < wmi.len(),
            None => first_match(name@, view_items(wmi@)) is None,
        },
{
    let ghost wv = view_items(wmi@);
    proof { lemma_view_items_len(wmi@); }
    for i in 0..wmi.len()
        invariant
            wv == view_items(wmi@),
            wv.len() == wmi.len(),
            first_match(name@, wv.take(i as int)) is None,
    {
        proof {
            lemma_view_items_index(wmi@, i as int);
            assert(wv.take(i + 1).drop_last() =~= wv.take(i as int));
        }
        let wn = name_text(&wmi[i]);
        if names_match_of(wn.as_str(), name) {
            proof { lemma_first_match_prefix(name@, wv, i as int + 1); }
            return Some(i);
        }
    }
    assert(wv.take(wmi.len() as int) =~= wv);
    None
}

proof fn lemma_first_match_prefix(name: Seq<char>, ws: Seq<JsonV>, k: int)
    requires
        0 <= k <= ws.len(),
        first_match(name, ws.take(k)) is Some,
    ensures
        first_match(name, ws) == first_match(name, ws.take(k)),
    decreases ws.len() - k,
{
    if k < ws.len() {
        assert(ws.take(k + 1).drop_last() =~= ws.take(k));
        lemma_first_match_prefix(name, ws, k + 1);
    } else {
        assert(ws.take(k) =~= ws);
    }
}

fn copy_if_missing(ms: &mut Vec<(String, Json)>, w: &Json, key: &str)
    ensures
        view_members(final(ms)@) == copy_missing(view_members(old(ms)@), w.view(), key@),
{
    match get_member(w, key) {
        Some(v) => {
            let is_null = match v {
                Json::Null => true,
                _ => false,
            };
            if !is_null {
                if find_member(ms, key).is_none() {
                    push_member(ms, key, v.duplicate());
                }
            }
        },
        None => {},
    }
}

fn add_wmi_details(ms: &mut Vec<(String, Json)>, w: &Json)
    ensures
        view_members(final(ms)@) == wmi_details(view_members(old(ms)@), w.view()),
{
    copy_if_missing(ms, w, "adapter_ram_bytes");
    copy_if_missing(ms, w, "driver_version");
    copy_if_missing(ms, w, "driver_date");
    copy_if_missing(ms, w, "manufacturer");
    copy_if_missing(ms, w, "physical_location");
    copy_if_missing(ms, w, "pnp_device_id");
    copy_if_missing(ms, w, "video_processor");
    match get_member(w, "current_resolution") {
        Some(v) => {
            let is_null = match v {
                Json::Null => true,
                _ => false,
            };
            if !is_null {
                insert_member(ms, string_from_str("current_resolution"), v.duplicate());
            }
        },
        None => {},
    }
}

fn object_members(j: &Json) -> (r: Vec<(String, Json)>)
    ensures
        view_members(r@) == members_of(j.view()),
{
    match j {
        Json::Object(ms) => crate::json::duplicate_members(ms),
        _ => {
            let v: Vec<(String, Json)> = Vec::new();
            assert(view_members(v@) =~= Seq::<(Seq<char>, JsonV)>::empty());
            v
        },
    }
}

fn shared_adapter(ms: Vec<(String, Json)>, shared: u64) -> (r: Json)
    ensures
        r.view() == with_shared(view_members(ms@), shared),
{
    let mut ms = ms;
    insert_member(&mut ms, string_from_str("shared_gpu_memory_bytes"), Json::Number(JsonNumber::Unsigned(shared)));
    Json::Object(ms)
}

fn any_match_of(acc: &Vec<Json>, name: &str) -> (r: bool)
    ensures
        r == any_match(view_items(acc@), name@),
{
    let ghost av = view_items(acc@);
    proof { lemma_view_items_len(acc@); }
    for i in 0..acc.len()
        invariant
            av == view_items(acc@),
            av.len() == acc.len(),
            forall|k: int| 0 <= k < i ==> !names_match(name_of(#[trigger] av[k]), name@),
    {
        proof { lemma_view_items_index(acc@, i as int); }
        let n = name_text(&acc[i]);
        if names_match_of(n.as_str(), name) {
            assert(names_match(name_of(av[i as int]), name@));
            return true;
        }
    }
    false
}

fn contains_text(v: &Vec<String>, t: &Vec<char>) -> (r: bool)
    ensures
        r == text_views(v@).contains(t@),
{
    let ghost tv = text_views(v@);
    for i in 0..v.len()
        invariant
            tv == text_views(v@),
            forall|k: int| 0 <= k < i ==> tv[k] != t@,
    {
        let c = chars_of(v[i].as_str());
        if chars_eq(&c, t) {
            assert(tv[i as int] == t@);
            return true;
        }
    }
    false
}

fn label_set_of(labels: &Vec<String>) -> (r: Vec<String>)
    ensures
        text_views(r@) == label_set(text_views(labels@)),
{
    let ghost lv = text_views(labels@);
    let mut out: Vec<String> = Vec::new();
    for i in 0..labels.len()
        invariant
            lv == text_views(labels@),
            text_views(out@) == label_set(lv.take(i as int)),
    {
        assert(lv.take(i + 1).drop_last() =~= lv.take(i as int));
        assert(lv.take(i + 1).last() == labels@[i as int]@);
        let t = chars_trim(&chars_of(labels[i].as_str()));
        if t.len() > 0 && !contains_text(&out, &t) {
            let ts = string_from_chars(&t);
            let ghost ov = text_views(out@);
            let mut j = out.len();
            while j > 0 && str_less(ts.as_str(), out[j - 1].as_str())
                invariant
                    0 <= j <= out.len(),
                    ov == text_views(out@),
                    ts@ == t@,
                    forall|k: int| j <= k < ov.len() ==> (text_lt())(t@, #[trigger] ov[k]),
                decreases j,
            {
                j -= 1;
            }
            proof {
                lemma_insert_by_splice(ov, t@, text_lt(), j as int);
            }
            out.insert(j, ts);
            assert(text_views(out@) =~= ov.insert(j as int, t@));
        }
    }
    assert(lv.take(labels.len() as int) =~= lv);
    out
}

fn fallback_adapter_of(name: String, shared: u64) -> (r: Json)
    ensures
        r.view() == fallback_adapter(name@, shared),
{
    let ghost n = name@;
    let mut ms: Vec<(String, Json)> = Vec::new();
    push_member(&mut ms, "name", Json::Str(name));
    push_member(&mut ms, "adapter_ram_bytes", Json::Null);
    push_member(&mut ms, "shared_gpu_memory_bytes", Json::Number(JsonNumber::Unsigned(shared)));
    push_member(&mut ms, "source", Json::Str(string_from_str("sensor-fallback")));
    assert(view_members(ms@) =~= fallback_adapter(n, shared)->Object_0);
    Json::Object(ms)
}

/// Merges the `nvidia-smi` adapters with the video controllers (each an
/// object), or falls back to the controllers or the sensor labels.
pub fn merge_gpu_adapters(nvidia: &Vec<Json>, wmi: &Vec<Json>, sensor_labels: &Vec<String>, shared: u64) -> (r: Vec<Json>)
    ensures
        view_items(r@) == merged_adapters_spec(view_items(nvidia@), view_items(wmi@), text_views(sensor_labels@), shared),
{
    let ghost nv = view_items(nvidia@);
    let ghost wv = view_items(wmi@);
    proof {
        lemma_view_items_len(nvidia@);
        lemma_view_items_len(wmi@);
    }
    let mut out: Vec<Json> = Vec::new();
    if nvidia.len() > 0 {
        for i in 0..nvidia.len()
            invariant
                nv == view_items(nvidia@),
                wv == view_items(wmi@),
                nv.len() == nvidia.len(),
                view_items(out@) == nv.take(i as int).map_values(|n: JsonV| enriched(n, wv, shared)),
        {
            proof { lemma_view_items_index(nvidia@, i as int); }
            let mut ms = object_members(&nvidia[i]);
            let name = name_text(&nvidia[i]);
            match find_controller(name.as_str(), wmi) {
                Some(k) => {
                    proof { lemma_view_items_index(wmi@, k as int); }
                    add_wmi_details(&mut ms, &wmi[k]);
                },
                None => {},
            }
            push_item(&mut out, shared_adapter(ms, shared));
            assert(nv.take(i + 1).map_values(|n: JsonV| enriched(n, wv, shared)) =~= nv.take(i as int).map_values(
                |n: JsonV| enriched(n, wv, shared),
            ).push(enriched(nv[i as int], wv, shared)));
        }
        assert(nv.take(nvidia.len() as int) =~= nv);
        let ghost acc = view_items(out@);
        for i in 0..wmi.len()
            invariant
                wv == view_items(wmi@),
                wv.len() == wmi.len(),
                view_items(out@) == add_wmi_only(acc, wv.take(i as int), shared),
        {
            proof {
                lemma_view_items_index(wmi@, i as int);
                assert(wv.take(i + 1).drop_last() =~= wv.take(i as int));
            }
            let wn = name_text(&wmi[i]);
            if !text_is_empty(wn.as_str()) && !any_match_of(&out, wn.as_str()) {
                let ms = object_members(&wmi[i]);
                push_item(&mut out, shared_adapter(ms, shared));
            }
        }
        assert(wv.take(wmi.len() as int) =~= wv);
    } else if wmi.len() > 0 {
        for i in 0..wmi.len()
            invariant
                wv == view_items(wmi@),
                wv.len() == wmi.len(),
                view_items(out@) == wv.take(i as int).map_values(|w: JsonV| with_shared(members_of(w), shared)),
        {
            proof { lemma_view_items_index(wmi@, i as int); }
            let ms = object_members(&wmi[i]);
            push_item(&mut out, shared_adapter(ms, shared));
            assert(wv.take(i + 1).map_values(|w: JsonV| with_shared(members_of(w), shared)) =~= wv.take(
                i as int,
            ).map_values(|w: JsonV| with_shared(members_of(w), shared)).push(with_shared(members_of(wv[i as int]), shared)));
        }
        assert(wv.take(wmi.len() as int) =~= wv);
    } else {
        let names = label_set_of(sensor_labels);
        let ghost nm = text_views(names@);
        let n = names.len();
        let mut names = names;
        let mut taken: Vec<String> = Vec::new();
        let mut k: usize = 0;
        while k < n
            invariant
                k <= n,
                n == nm.len(),
                names@.len() == n,
                forall|j: int| k <= j < n ==> (#[trigger] names@[j])@ == nm[j],
                view_items(out@) == nm.take(k as int).map_values(|x: Seq<char>| fallback_adapter(x, shared)),
            decreases n - k,
        {
            let name = clone_string(&names[k]);
            push_item(&mut out, fallback_adapter_of(name, shared));
            assert(nm.take(k + 1).map_values(|x: Seq<char>| fallback_adapter(x, shared)) =~= nm.take(
                k as int,
            ).map_values(|x: Seq<char>| fallback_adapter(x, shared)).push(fallback_adapter(nm[k as int], shared)));
            k += 1;
        }
        assert(nm.take(n as int) =~= nm);
    }
    out
}


// ---------------------------------------------------------------------------
// The summary
// ---------------------------------------------------------------------------

/// A member of the first adapter, `null` where there is none.
pub open spec fn primary_field(adapters: Seq<JsonV>, key: Seq<char>) -> JsonV {
    if adapters.len() > 0 {
        or_null(json_get(adapters[0], key))
    } else {
        JsonV::Null
    }
}

/// The GPU reading: the first adapter's figures, the shared GPU memory, the
/// average temperature given, the adapters and the sensors; a GPU is
/// detected when there is an adapter or a sensor.
pub open spec fn gpu_summary_spec(adapters: Seq<JsonV>, sensors: Seq<JsonV>, average_c: JsonV, shared: u64) -> JsonV {
    JsonV::Object(seq![
        ("detected"@, JsonV::Bool(adapters.len() > 0 || sensors.len() > 0)),
        ("name"@, primary_field(adapters, "name"@)),
        ("usage_percent"@, primary_field(adapters, "usage_percent"@)),
        ("vram_total_mb"@, primary_field(adapters, "vram_total_mb"@)),
        ("vram_used_mb"@, primary_field(adapters, "vram_used_mb"@)),
        ("vram_free_mb"@, primary_field(adapters, "vram_free_mb"@)),
        ("memory_usage_percent"@, primary_field(adapters, "memory_usage_percent"@)),
        ("shared_gpu_memory_bytes"@, JsonV::Number(NumberV::Unsigned(shared))),
        ("driver_version"@, primary_field(adapters, "driver_version"@)),
        ("driver_date"@, primary_field(adapters, "driver_date"@)),
        ("manufacturer"@, primary_field(adapters, "manufacturer"@)),
        ("physical_location"@, primary_field(adapters, "physical_location"@)),
        ("temperature_c"@, average_c),
        ("power_draw_w"@, primary_field(adapters, "power_draw_w"@)),
        ("fan_speed_percent"@, primary_field(adapters, "fan_speed_percent"@)),
        ("encoder_usage_percent"@, primary_field(adapters, "encoder_usage_percent"@)),
        ("decoder_usage_percent"@, primary_field(adapters, "decoder_usage_percent"@)),
        ("clock_graphics_mhz"@, primary_field(adapters, "clock_graphics_mhz"@)),
        ("clock_memory_mhz"@, primary_field(adapters, "clock_memory_mhz"@)),
        ("adapters"@, JsonV::Array(adapters)),
        ("temperature"@, JsonV::Object(seq![("average_c"@, average_c), ("sensors"@, JsonV::Array(sensors))])),
        ("sensors"@, JsonV::Array(sensors)),
    ])
}

fn primary_of(adapters: &Vec<Json>, key: &str) -> (r: Json)
    ensures
        r.view() == primary_field(view_items(adapters@), key@),
{
    proof { lemma_view_items_len(adapters@); }
    if adapters.len() > 0 {
        proof { lemma_view_items_index(adapters@, 0); }
        copy_or_null(get_member(&adapters[0], key))
    } else {
        Json::Null
    }
}

/// The GPU reading of the merged adapters, the GPU sensors and their
/// average temperature.
pub fn gpu_summary_json(adapters: &Vec<Json>, sensors: &Vec<Json>, average_c: Json, shared: u64) -> (r: Json)
    ensures
        r.view() == gpu_summary_spec(view_items(adapters@), view_items(sensors@), average_c.view(), shared),
{
    let ghost av = view_items(adapters@);
    let ghost sv = view_items(sensors@);
    let ghost avg = average_c.view();
    proof {
        lemma_view_items_len(adapters@);
        lemma_view_items_len(sensors@);
    }
    let mut t: Vec<(String, Json)> = Vec::new();
    push_member(&mut t, "average_c", average_c.duplicate());
    push_member(&mut t, "sensors", Json::Array(crate::json::duplicate_items(sensors)));
    assert(view_members(t@) =~= seq![("average_c"@, avg), ("sensors"@, JsonV::Array(sv))]);
    let mut ms: Vec<(String, Json)> = Vec::new();
    push_member(&mut ms, "detected", Json::Bool(adapters.len() > 0 || sensors.len() > 0));
    push_member(&mut ms, "name", primary_of(adapters, "name"));
    push_member(&mut ms, "usage_percent", primary_of(adapters, "usage_percent"));
    push_member(&mut ms, "vram_total_mb", primary_of(adapters, "vram_total_mb"));
    push_member(&mut ms, "vram_used_mb", primary_of(adapters, "vram_used_mb"));
    push_member(&mut ms, "vram_free_mb", primary_of(adapters, "vram_free_mb"));
    push_member(&mut ms, "memory_usage_percent", primary_of(adapters, "memory_usage_percent"));
    push_member(&mut ms, "shared_gpu_memory_bytes", Json::Number(JsonNumber::Unsigned(shared)));
    push_member(&mut ms, "driver_version", primary_of(adapters, "driver_version"));
    push_member(&mut ms, "driver_date", primary_of(adapters, "driver_date"));
    push_member(&mut ms, "manufacturer", primary_of(adapters, "manufacturer"));
    push_member(&mut ms, "physical_location", primary_of(adapters, "physical_location"));
    push_member(&mut ms, "temperature_c", average_c);
    push_member(&mut ms, "power_draw_w", primary_of(adapters, "power_draw_w"));
    push_member(&mut ms, "fan_speed_percent", primary_of(adapters, "fan_speed_percent"));
    push_member(&mut ms, "encoder_usage_percent", primary_of(adapters, "encoder_usage_percent"));
    push_member(&mut ms, "decoder_usage_percent", primary_of(adapters, "decoder_usage_percent"));
    push_member(&mut ms, "clock_graphics_mhz", primary_of(adapters, "clock_graphics_mhz"));
    push_member(&mut ms, "clock_memory_mhz", primary_of(adapters, "clock_memory_mhz"));
    push_member(&mut ms, "adapters", Json::Array(crate::json::duplicate_items(adapters)));
    push_member(&mut ms, "temperature", Json::Object(t));
    push_member(&mut ms, "sensors", Json::Array(crate::json::duplicate_items(sensors)));
    assert(view_members(ms@) =~= gpu_summary_spec(av, sv, avg, shared)->Object_0);
    Json::Object(ms)
}


/// A whole-number reading as `u64::from_str` reads it, `null` otherwise.
pub open spec fn whole_reading(s: Seq<char>) -> JsonV {
    match parse_u64_spec(s) {
        Some(n) => JsonV::Number(NumberV::Unsigned(n)),
        None => JsonV::Null,
    }
}

/// A decimal reading kept as its text, `null` where it is not a finite
/// decimal number.
pub open spec fn decimal_reading(s: Seq<char>) -> JsonV {
    if decimal_text(s) {
        JsonV::Number(NumberV::Decimal(s))
    } else {
        JsonV::Null
    }
}

/// Each member of an adapter read from a report line is the reading of the
/// field the query names in that place: name, driver version, GPU, memory,
/// encoder and decoder use, total, used and free memory, temperature, power
/// draw, fan speed, graphics and memory clocks, in that order.
pub proof fn law_nvidia_fields_in_query_order(p: Seq<Seq<char>>)
    requires
        p.len() >= 14,
    ensures
        json_get(nvidia_row(p), "name"@) == Some(JsonV::Str(p[0])),
        json_get(nvidia_row(p), "driver_version"@) == Some(
            if contains_seq(p[1], "Not Supported"@) || p[1] == "N/A"@ { JsonV::Null } else { JsonV::Str(p[1]) },
        ),
        json_get(nvidia_row(p), "usage_percent"@) == Some(decimal_reading(p[2])),
        json_get(nvidia_row(p), "memory_usage_percent"@) == Some(decimal_reading(p[3])),
        json_get(nvidia_row(p), "encoder_usage_percent"@) == Some(decimal_reading(p[4])),
        json_get(nvidia_row(p), "decoder_usage_percent"@) == Some(decimal_reading(p[5])),
        json_get(nvidia_row(p), "vram_total_mb"@) == Some(whole_reading(p[6])),
        json_get(nvidia_row(p), "vram_used_mb"@) == Some(whole_reading(p[7])),
        json_get(nvidia_row(p), "vram_free_mb"@) == Some(whole_reading(p[8])),
        json_get(nvidia_row(p), "temperature_c"@) == Some(decimal_reading(p[9])),
        json_get(nvidia_row(p), "power_draw_w"@) == Some(decimal_reading(p[10])),
        json_get(nvidia_row(p), "fan_speed_percent"@) == Some(decimal_reading(p[11])),
        json_get(nvidia_row(p), "clock_graphics_mhz"@) == Some(whole_reading(p[12])),
        json_get(nvidia_row(p), "clock_memory_mhz"@) == Some(whole_reading(p[13])),
        json_get(nvidia_row(p), "source"@) == Some(JsonV::Str("nvidia-smi"@)),
{
    reveal_strlit("name");
    reveal_strlit("driver_version");
    reveal_strlit("usage_percent");
    reveal_strlit("memory_usage_percent");
    reveal_strlit("encoder_usage_percent");
    reveal_strlit("decoder_usage_percent");
    reveal_strlit("vram_total_mb");
    reveal_strlit("vram_used_mb");
    reveal_strlit("vram_free_mb");
    reveal_strlit("temperature_c");
    reveal_strlit("power_draw_w");
    reveal_strlit("fan_speed_percent");
    reveal_strlit("clock_graphics_mhz");
    reveal_strlit("clock_memory_mhz");
    reveal_strlit("source");
    let ms = nvidia_row(p)->Object_0;
    let keys = seq!["name"@, "driver_version"@, "usage_percent"@, "memory_usage_percent"@, "encoder_usage_percent"@,
        "decoder_usage_percent"@, "vram_total_mb"@, "vram_used_mb"@, "vram_free_mb"@, "temperature_c"@,
        "power_draw_w"@, "fan_speed_percent"@, "clock_graphics_mhz"@, "clock_memory_mhz"@, "source"@];
    assert forall|i: int| 0 <= i < 15 implies (#[trigger] ms[i]).0 == keys[i] by {}
    assert forall|i: int, j: int| #![trigger keys[i], keys[j]] 0 <= i < j < 15 implies keys[i] != keys[j] by {
        if keys[i].len() == keys[j].len() {
            if i == 7 && j == 8 {
                assert(keys[i][5] != keys[j][5]);
            } else {
                assert(keys[i][0] != keys[j][0]);
            }
        }
    }
    assert forall|k: int, j: int| #![trigger ms[k], ms[j]] 0 <= j < k < 15 implies ms[j].0 != ms[k].0 by {
        assert(ms[j].0 == keys[j] && ms[k].0 == keys[k]);
    }
    crate::json::lemma_member_get_at(ms, "name"@, 0);
    crate::json::lemma_member_get_at(ms, "driver_version"@, 1);
    crate::json::lemma_member_get_at(ms, "usage_percent"@, 2);
    crate::json::lemma_member_get_at(ms, "memory_usage_percent"@, 3);
    crate::json::lemma_member_get_at(ms, "encoder_usage_percent"@, 4);
    crate::json::lemma_member_get_at(ms, "decoder_usage_percent"@, 5);
    crate::json::lemma_member_get_at(ms, "vram_total_mb"@, 6);
    crate::json::lemma_member_get_at(ms, "vram_used_mb"@, 7);
    crate::json::lemma_member_get_at(ms, "vram_free_mb"@, 8);
    crate::json::lemma_member_get_at(ms, "temperature_c"@, 9);
    crate::json::lemma_member_get_at(ms, "power_draw_w"@, 10);
    crate::json::lemma_member_get_at(ms, "fan_speed_percent"@, 11);
    crate::json::lemma_member_get_at(ms, "clock_graphics_mhz"@, 12);
    crate::json::lemma_member_get_at(ms, "clock_memory_mhz"@, 13);
    crate::json::lemma_member_get_at(ms, "source"@, 14);
}

/// Each line of the report with at least 14 fields gives one adapter, read
/// from its fields; shorter lines give none.
pub proof fn law_nvidia_line_gives_adapter(lines: Seq<Seq<char>>, line: Seq<char>)
    ensures
        nvidia_rows_spec(lines.push(line)) == if csv_fields(line).len() >= 14 {
            nvidia_rows_spec(lines).push(nvidia_row(csv_fields(line)))
        } else {
            nvidia_rows_spec(lines)
        },
{
    assert(lines.push(line).drop_last() =~= lines);
}

} // verus!
