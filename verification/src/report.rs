//! The reports the hardware and settings probes print, `Key=value` lines and
//! blocks between markers, and the JSON the daemon makes of them.
use vstd::prelude::*;
use crate::json::{Json, JsonV, NumberV, JsonNumber, view_members, view_items, push_member, push_item};
use crate::text::{
    chars_of, string_from_chars, string_from_str, trim, chars_trim, lines_of, split_lines, views, join_text,
    parse_u32_spec, parse_u32, parse_u64_spec, parse_u64, first_index_of, find_char, slice_chars, str_eq,
    lower_seq, lower_chars, contains_seq, chars_contains_seq, split_on, split_chars, eq_ignore_case,
    chars_eq_ignore_case, split_once, chars_split_once, copy_chars, to_lowercase, unicode_lower, words,
    split_words, decimal, u64_decimal, ends_with, chars_ends_with,
};
use crate::json::{opt_text_view, get_member, json_get, lemma_view_items_len, lemma_view_items_index};
use crate::dispatch::{member_insert, insert_member};
use crate::appdata::{after, after_prefix};

verus! {

/// A report's lines, each trimmed.
pub open spec fn report_lines(text: Seq<char>) -> Seq<Seq<char>> {
    lines_of(text).map_values(|l: Seq<char>| trim(l))
}

/// The value of the last `key=` line, trimmed.
pub open spec fn last_value(lines: Seq<Seq<char>>, key: Seq<char>) -> Option<Seq<char>>
    decreases lines.len(),
{
    if lines.len() == 0 {
        None
    } else {
        match after(lines.last(), key + "="@) {
            Some(v) => Some(v),
            None => last_value(lines.drop_last(), key),
        }
    }
}

/// The trimmed lines of a report.
pub fn report_lines_of(text: &str) -> (r: Vec<Vec<char>>)
    ensures
        views(r@) == report_lines(text@),
{
    let cs = chars_of(text);
    let raw = split_lines(&cs);
    let ghost rv = views(raw@);
    let mut out: Vec<Vec<char>> = Vec::new();
    for i in 0..raw.len()
        invariant
            rv == views(raw@),
            rv == lines_of(text@),
            views(out@) == rv.take(i as int).map_values(|l: Seq<char>| trim(l)),
    {
        let t = chars_trim(&raw[i]);
        let ghost before = views(out@);
        out.push(t);
        assert(views(out@) =~= before.push(trim(rv[i as int])));
        assert(rv.take(i + 1).map_values(|l: Seq<char>| trim(l)) =~= rv.take(i as int).map_values(
            |l: Seq<char>| trim(l),
        ).push(trim(rv[i as int])));
    }
    assert(rv.take(raw.len() as int) =~= rv);
    out
}

pub open spec fn opt_chars(o: Option<Vec<char>>) -> Option<Seq<char>> {
    match o {
        Some(v) => Some(v@),
        None => None,
    }
}

/// The value of the last `key=` line.
pub fn last_value_of(lines: &Vec<Vec<char>>, key: &str) -> (r: Option<Vec<char>>)
    ensures
        opt_chars(r) == last_value(views(lines@), key@),
{
    let prefix = join_text(key, "=");
    let ghost lv = views(lines@);
    let mut i = lines.len();
    assert(lv.take(i as int) =~= lv);
    while i > 0
        invariant
            i <= lines.len(),
            lv == views(lines@),
            prefix@ == key@ + "="@,
            last_value(lv, key@) == last_value(lv.take(i as int), key@),
        decreases i,
    {
        assert(lv.take(i as int).drop_last() =~= lv.take(i - 1));
        assert(lv.take(i as int).last() == lines@[i - 1]@);
        match after_prefix(&lines[i - 1], prefix.as_str()) {
            Some(v) => {
                return Some(v);
            },
            None => {},
        }
        i -= 1;
    }
    assert(lv.take(0) =~= Seq::<Seq<char>>::empty());
    None
}

/// A text member: `null` when missing or empty.
pub open spec fn text_or_null(o: Option<Seq<char>>) -> JsonV {
    match o {
        Some(t) => if t.len() > 0 { JsonV::Str(t) } else { JsonV::Null },
        None => JsonV::Null,
    }
}

pub open spec fn number_or_null(o: Option<nat>) -> JsonV {
    match o {
        Some(n) => JsonV::Number(NumberV::Unsigned(n as u64)),
        None => JsonV::Null,
    }
}

pub open spec fn u32_or_null(o: Option<u32>) -> JsonV {
    match o {
        Some(n) => JsonV::Number(NumberV::Unsigned(n as u64)),
        None => JsonV::Null,
    }
}

pub open spec fn u64_or_null(o: Option<u64>) -> JsonV {
    match o {
        Some(n) => JsonV::Number(NumberV::Unsigned(n)),
        None => JsonV::Null,
    }
}

pub open spec fn bool_or_null(o: Option<bool>) -> JsonV {
    match o {
        Some(b) => JsonV::Bool(b),
        None => JsonV::Null,
    }
}

pub fn text_json(o: Option<Vec<char>>) -> (r: Json)
    ensures
        r.view() == text_or_null(opt_chars(o)),
{
    match o {
        Some(t) => if t.len() > 0 { Json::Str(string_from_chars(&t)) } else { Json::Null },
        None => Json::Null,
    }
}

pub fn u32_json(o: Option<u32>) -> (r: Json)
    ensures
        r.view() == u32_or_null(o),
{
    match o {
        Some(n) => Json::Number(JsonNumber::Unsigned(n as u64)),
        None => Json::Null,
    }
}

pub fn u64_json(o: Option<u64>) -> (r: Json)
    ensures
        r.view() == u64_or_null(o),
{
    match o {
        Some(n) => Json::Number(JsonNumber::Unsigned(n)),
        None => Json::Null,
    }
}

pub fn bool_json(o: Option<bool>) -> (r: Json)
    ensures
        r.view() == bool_or_null(o),
{
    match o {
        Some(b) => Json::Bool(b),
        None => Json::Null,
    }
}

/// The text member for the last `key=` line.
fn text_member(lines: &Vec<Vec<char>>, key: &str) -> (r: Json)
    ensures
        r.view() == text_or_null(last_value(views(lines@), key@)),
{
    text_json(last_value_of(lines, key))
}

pub open spec fn u32_value(lines: Seq<Seq<char>>, key: Seq<char>) -> Option<u32> {
    match last_value(lines, key) {
        Some(v) => parse_u32_spec(v),
        None => None,
    }
}

pub open spec fn u64_value(lines: Seq<Seq<char>>, key: Seq<char>) -> Option<u64> {
    match last_value(lines, key) {
        Some(v) => parse_u64_spec(v),
        None => None,
    }
}

fn u32_value_of(lines: &Vec<Vec<char>>, key: &str) -> (r: Option<u32>)
    ensures
        r == u32_value(views(lines@), key@),
{
    match last_value_of(lines, key) {
        Some(v) => parse_u32(&v),
        None => None,
    }
}

fn u64_value_of(lines: &Vec<Vec<char>>, key: &str) -> (r: Option<u64>)
    ensures
        r == u64_value(views(lines@), key@),
{
    match last_value_of(lines, key) {
        Some(v) => parse_u64(&v),
        None => None,
    }
}

// ---------------------------------------------------------------------------
// BIOS and motherboard
// ---------------------------------------------------------------------------

pub open spec fn bios_spec(lines: Seq<Seq<char>>) -> JsonV {
    JsonV::Object(seq![
        ("manufacturer"@, text_or_null(last_value(lines, "Manufacturer"@))),
        ("name"@, text_or_null(last_value(lines, "Name"@))),
        ("version"@, text_or_null(last_value(lines, "Version"@))),
        ("release_date"@, text_or_null(last_value(lines, "ReleaseDate"@))),
        ("serial_number"@, text_or_null(last_value(lines, "SerialNumber"@))),
    ])
}

/// The BIOS report: maker, name, version, release date and serial number,
/// each `null` when missing or empty.
pub fn bios_json(report: &str) -> (r: Json)
    ensures
        r.view() == bios_spec(report_lines(report@)),
{
    let lines = report_lines_of(report);
    let mut ms: Vec<(String, Json)> = Vec::new();
    push_member(&mut ms, "manufacturer", text_member(&lines, "Manufacturer"));
    push_member(&mut ms, "name", text_member(&lines, "Name"));
    push_member(&mut ms, "version", text_member(&lines, "Version"));
    push_member(&mut ms, "release_date", text_member(&lines, "ReleaseDate"));
    push_member(&mut ms, "serial_number", text_member(&lines, "SerialNumber"));
    assert(view_members(ms@) =~= bios_spec(views(lines@))->Object_0);
    Json::Object(ms)
}

pub open spec fn motherboard_spec(lines: Seq<Seq<char>>) -> JsonV {
    JsonV::Object(seq![
        ("manufacturer"@, text_or_null(last_value(lines, "Manufacturer"@))),
        ("product"@, text_or_null(last_value(lines, "Product"@))),
        ("version"@, text_or_null(last_value(lines, "Version"@))),
        ("serial_number"@, text_or_null(last_value(lines, "SerialNumber"@))),
    ])
}

/// The motherboard report: maker, product, version and serial number.
pub fn motherboard_json(report: &str) -> (r: Json)
    ensures
        r.view() == motherboard_spec(report_lines(report@)),
{
    let lines = report_lines_of(report);
    let mut ms: Vec<(String, Json)> = Vec::new();
    push_member(&mut ms, "manufacturer", text_member(&lines, "Manufacturer"));
    push_member(&mut ms, "product", text_member(&lines, "Product"));
    push_member(&mut ms, "version", text_member(&lines, "Version"));
    push_member(&mut ms, "serial_number", text_member(&lines, "SerialNumber"));
    assert(view_members(ms@) =~= motherboard_spec(views(lines@))->Object_0);
    Json::Object(ms)
}

// ---------------------------------------------------------------------------
// Theme
// ---------------------------------------------------------------------------

/// A `0`/`1` setting: whether its last value is `1`.
pub open spec fn flag_value(lines: Seq<Seq<char>>, key: Seq<char>) -> Option<bool> {
    match last_value(lines, key) {
        Some(v) => Some(v == "1"@),
        None => None,
    }
}

fn flag_value_of(lines: &Vec<Vec<char>>, key: &str) -> (r: Option<bool>)
    ensures
        r == flag_value(views(lines@), key@),
{
    match last_value_of(lines, key) {
        Some(v) => {
            let t = string_from_chars(&v);
            Some(str_eq(t.as_str(), "1"))
        },
        None => None,
    }
}

/// A lower-case hexadecimal digit.
pub open spec fn hex_digit(d: nat) -> char {
    if d < 10 {
        (('0' as nat) + d) as char
    } else {
        (('a' as nat) + d - 10) as char
    }
}

/// A byte as two lower-case hexadecimal digits (`{:02x}`).
pub open spec fn hex_byte(n: nat) -> Seq<char> {
    seq![hex_digit(n / 16), hex_digit(n % 16)]
}

/// An accent colour stored as `0xAABBGGRR`, written `#rrggbb`.
pub open spec fn accent_hex(c: u32) -> Seq<char> {
    "#"@ + hex_byte((c % 256) as nat) + hex_byte(((c / 256) % 256) as nat) + hex_byte(((c / 65536) % 256) as nat)
}

fn hex_digit_of(d: u32) -> (r: char)
    requires
        d < 16,
    ensures
        r == hex_digit(d as nat),
{
    if d < 10 {
        ((('0' as u32) + d) as u8) as char
    } else {
        ((('a' as u32) + d - 10) as u8) as char
    }
}

fn push_hex_byte(out: &mut Vec<char>, n: u32)
    requires
        n < 256,
    ensures
        final(out)@ == old(out)@ + hex_byte(n as nat),
{
    out.push(hex_digit_of(n / 16));
    out.push(hex_digit_of(n % 16));
    assert(final(out)@ =~= old(out)@ + hex_byte(n as nat));
}

/// `#rrggbb` for an accent colour.
pub fn accent_hex_of(c: u32) -> (r: String)
    ensures
        r@ == accent_hex(c),
{
    let mut out: Vec<char> = Vec::new();
    out.push('#');
    proof {
        reveal_strlit("#");
        assert(out@ =~= "#"@);
    }
    push_hex_byte(&mut out, c % 256);
    push_hex_byte(&mut out, (c / 256) % 256);
    push_hex_byte(&mut out, (c / 65536) % 256);
    string_from_chars(&out)
}

pub open spec fn light_or_dark(o: Option<bool>) -> JsonV {
    match o {
        Some(l) => JsonV::Str(if l { "light"@ } else { "dark"@ }),
        None => JsonV::Null,
    }
}

pub open spec fn theme_spec(lines: Seq<Seq<char>>) -> JsonV {
    let accent = u32_value(lines, "AccentColor"@);
    JsonV::Object(seq![
        ("app_theme"@, light_or_dark(flag_value(lines, "AppsUseLightTheme"@))),
        ("system_theme"@, light_or_dark(flag_value(lines, "SystemUsesLightTheme"@))),
        ("transparency_enabled"@, bool_or_null(flag_value(lines, "EnableTransparency"@))),
        ("accent_color_hex"@, match accent {
            Some(c) => JsonV::Str(accent_hex(c)),
            None => JsonV::Null,
        }),
        ("accent_color_raw"@, u32_or_null(accent)),
        ("color_on_title_bars"@, bool_or_null(flag_value(lines, "ColorPrevalence"@))),
    ])
}

fn light_or_dark_json(o: Option<bool>) -> (r: Json)
    ensures
        r.view() == light_or_dark(o),
{
    match o {
        Some(l) => Json::Str(string_from_str(if l { "light" } else { "dark" })),
        None => Json::Null,
    }
}

/// The theme report: light or dark apps and system, transparency, the
/// accent colour (raw and as `#rrggbb`) and coloured title bars.
pub fn theme_json(report: &str) -> (r: Json)
    ensures
        r.view() == theme_spec(report_lines(report@)),
{
    let lines = report_lines_of(report);
    let accent = u32_value_of(&lines, "AccentColor");
    let mut ms: Vec<(String, Json)> = Vec::new();
    push_member(&mut ms, "app_theme", light_or_dark_json(flag_value_of(&lines, "AppsUseLightTheme")));
    push_member(&mut ms, "system_theme", light_or_dark_json(flag_value_of(&lines, "SystemUsesLightTheme")));
    push_member(&mut ms, "transparency_enabled", bool_json(flag_value_of(&lines, "EnableTransparency")));
    let hex = match accent {
        Some(c) => Json::Str(accent_hex_of(c)),
        None => Json::Null,
    };
    push_member(&mut ms, "accent_color_hex", hex);
    push_member(&mut ms, "accent_color_raw", u32_json(accent));
    push_member(&mut ms, "color_on_title_bars", bool_json(flag_value_of(&lines, "ColorPrevalence")));
    assert(view_members(ms@) =~= theme_spec(views(lines@))->Object_0);
    Json::Object(ms)
}

// ---------------------------------------------------------------------------
// Power plan
// ---------------------------------------------------------------------------

/// Position of the last `c` in `s`.
pub open spec fn last_index_of(s: Seq<char>, c: char) -> Option<int>
    decreases s.len(),
{
    if s.len() == 0 {
        None
    } else if s.last() == c {
        Some(s.len() - 1)
    } else {
        last_index_of(s.drop_last(), c)
    }
}

fn rfind_char(s: &Vec<char>, c: char) -> (r: Option<usize>)
    ensures
        match r {
            Some(i) => last_index_of(s@, c) == Some(i as int) && i < s.len(),
            None => last_index_of(s@, c) is None,
        },
{
    let mut i = s.len();
    assert(s@.take(i as int) =~= s@);
    while i > 0
        invariant
            i <= s.len(),
            last_index_of(s@, c) == last_index_of(s@.take(i as int), c),
        decreases i,
    {
        assert(s@.take(i as int).drop_last() =~= s@.take(i - 1));
        if s[i - 1] == c {
            return Some(i - 1);
        }
        i -= 1;
    }
    None
}

/// The active power plan's name: what `powercfg /getactivescheme` prints
/// between the first `(` and the last `)`, trimmed; `null` when there is
/// no such pair.
pub open spec fn power_plan_spec(output: Seq<char>) -> JsonV {
    match (first_index_of(output, '('), last_index_of(output, ')')) {
        (Some(a), Some(b)) => if a < b { JsonV::Str(trim(output.subrange(a + 1, b))) } else { JsonV::Null },
        _ => JsonV::Null,
    }
}

/// The name of the active power plan.
pub fn power_plan_json(output: &str) -> (r: Json)
    ensures
        r.view() == power_plan_spec(output@),
{
    let cs = chars_of(output);
    match (find_char(&cs, '('), rfind_char(&cs, ')')) {
        (Some(a), Some(b)) => if a < b {
            let inner = slice_chars(&cs, a + 1, b);
            let t = chars_trim(&inner);
            Json::Str(string_from_chars(&t))
        } else {
            Json::Null
        },
        _ => Json::Null,
    }
}

// ---------------------------------------------------------------------------
// Locale
// ---------------------------------------------------------------------------

/// A setting's text, empty when missing.
pub open spec fn text_value(lines: Seq<Seq<char>>, key: Seq<char>) -> Seq<char> {
    match last_value(lines, key) {
        Some(v) => v,
        None => Seq::empty(),
    }
}

fn text_value_of(lines: &Vec<Vec<char>>, key: &str) -> (r: String)
    ensures
        r@ == text_value(views(lines@), key@),
{
    match last_value_of(lines, key) {
        Some(v) => string_from_chars(&v),
        None => String::new(),
    }
}

pub open spec fn locale_spec(lines: Seq<Seq<char>>, utc_offset_hours: JsonV) -> JsonV {
    JsonV::Object(seq![
        ("language"@, JsonV::Object(seq![
            ("name"@, JsonV::Str(text_value(lines, "Name"@))),
            ("display_name"@, JsonV::Str(text_value(lines, "DisplayName"@))),
            ("iso_two_letter"@, JsonV::Str(text_value(lines, "TwoLetterISO"@))),
            ("iso_three_letter"@, JsonV::Str(text_value(lines, "ThreeLetterISO"@))),
        ])),
        ("timezone"@, JsonV::Object(seq![
            ("id"@, JsonV::Str(text_value(lines, "TimeZoneId"@))),
            ("display_name"@, JsonV::Str(text_value(lines, "TimeZoneName"@))),
            ("utc_offset_hours"@, utc_offset_hours),
            ("daylight_saving"@, JsonV::Bool(lower_seq(text_value(lines, "DaylightSaving"@)) == "true"@)),
        ])),
        ("region"@, JsonV::Object(seq![
            ("country"@, JsonV::Str(text_value(lines, "Country"@))),
            ("country_code"@, JsonV::Str(text_value(lines, "CountryCode"@))),
            ("currency_symbol"@, JsonV::Str(text_value(lines, "CurrencySymbol"@))),
            ("currency_name"@, JsonV::Str(text_value(lines, "CurrencyName"@))),
        ])),
    ])
}

fn str_member(ms: &mut Vec<(String, Json)>, name: &str, lines: &Vec<Vec<char>>, key: &str)
    ensures
        view_members(final(ms)@) == view_members(old(ms)@).push((name@, JsonV::Str(text_value(views(lines@), key@)))),
{
    push_member(ms, name, Json::Str(text_value_of(lines, key)));
}

/// The text of the locale report's UTC offset, in hours (a fraction the
/// caller reads as a number).
pub fn locale_utc_offset_text(report: &str) -> (r: String)
    ensures
        r@ == text_value(report_lines(report@), "TimeZoneUtcOffset"@),
{
    let lines = report_lines_of(report);
    text_value_of(&lines, "TimeZoneUtcOffset")
}

/// The locale report: language, time zone (with the UTC offset given, as
/// read from `locale_utc_offset_text`) and region.
pub fn locale_json(report: &str, utc_offset_hours: Json) -> (r: Json)
    ensures
        r.view() == locale_spec(report_lines(report@), utc_offset_hours.view()),
{
    let lines = report_lines_of(report);
    let ghost lv = views(lines@);
    let mut language: Vec<(String, Json)> = Vec::new();
    str_member(&mut language, "name", &lines, "Name");
    str_member(&mut language, "display_name", &lines, "DisplayName");
    str_member(&mut language, "iso_two_letter", &lines, "TwoLetterISO");
    str_member(&mut language, "iso_three_letter", &lines, "ThreeLetterISO");
    let mut timezone: Vec<(String, Json)> = Vec::new();
    str_member(&mut timezone, "id", &lines, "TimeZoneId");
    str_member(&mut timezone, "display_name", &lines, "TimeZoneName");
    let ghost off = utc_offset_hours.view();
    push_member(&mut timezone, "utc_offset_hours", utc_offset_hours);
    let dst = chars_of(text_value_of(&lines, "DaylightSaving").as_str());
    let lowered = lower_chars(&dst);
    let is_true = str_eq(string_from_chars(&lowered).as_str(), "true");
    push_member(&mut timezone, "daylight_saving", Json::Bool(is_true));
    let mut region: Vec<(String, Json)> = Vec::new();
    str_member(&mut region, "country", &lines, "Country");
    str_member(&mut region, "country_code", &lines, "CountryCode");
    str_member(&mut region, "currency_symbol", &lines, "CurrencySymbol");
    str_member(&mut region, "currency_name", &lines, "CurrencyName");
    let mut ms: Vec<(String, Json)> = Vec::new();
    let ghost lang_v = view_members(language@);
    let ghost tz_v = view_members(timezone@);
    let ghost reg_v = view_members(region@);
    push_member(&mut ms, "language", Json::Object(language));
    push_member(&mut ms, "timezone", Json::Object(timezone));
    push_member(&mut ms, "region", Json::Object(region));
    let ghost spec = locale_spec(lv, off);
    assert(lang_v =~= spec->Object_0[0].1->Object_0);
    assert(tz_v =~= spec->Object_0[1].1->Object_0);
    assert(reg_v =~= spec->Object_0[2].1->Object_0);
    assert(view_members(ms@) =~= spec->Object_0);
    Json::Object(ms)
}

// ---------------------------------------------------------------------------
// Battery
// ---------------------------------------------------------------------------

/// `str::parse::<u16>`.
pub open spec fn parse_u16_spec(s: Seq<char>) -> Option<u16> {
    match parse_u32_spec(s) {
        Some(v) => if v <= 0xffff { Some(v as u16) } else { None },
        None => None,
    }
}

pub open spec fn u16_value(lines: Seq<Seq<char>>, key: Seq<char>) -> Option<u16> {
    match last_value(lines, key) {
        Some(v) => parse_u16_spec(v),
        None => None,
    }
}

fn u16_value_of(lines: &Vec<Vec<char>>, key: &str) -> (r: Option<u16>)
    ensures
        r == u16_value(views(lines@), key@),
{
    match u32_value_of(lines, key) {
        Some(v) => if v <= 0xffff { Some(v as u16) } else { None },
        None => None,
    }
}

pub open spec fn u16_or_null(o: Option<u16>) -> JsonV {
    match o {
        Some(n) => JsonV::Number(NumberV::Unsigned(n as u64)),
        None => JsonV::Null,
    }
}

/// The battery chemistry a WMI code stands for.
pub open spec fn chemistry_spec(code: u16) -> Seq<char> {
    if code == 1 {
        "Other"@
    } else if code == 3 {
        "Lead Acid"@
    } else if code == 4 {
        "Nickel Cadmium"@
    } else if code == 5 {
        "Nickel Metal Hydride"@
    } else if code == 6 {
        "Lithium-ion"@
    } else if code == 7 {
        "Zinc Air"@
    } else if code == 8 {
        "Lithium Polymer"@
    } else {
        "Unknown"@
    }
}

fn chemistry_name(code: u16) -> (r: &'static str)
    ensures
        r@ == chemistry_spec(code),
{
    if code == 1 {
        "Other"
    } else if code == 3 {
        "Lead Acid"
    } else if code == 4 {
        "Nickel Cadmium"
    } else if code == 5 {
        "Nickel Metal Hydride"
    } else if code == 6 {
        "Lithium-ion"
    } else if code == 7 {
        "Zinc Air"
    } else if code == 8 {
        "Lithium Polymer"
    } else {
        "Unknown"
    }
}

/// The battery report says there is no battery.
pub open spec fn no_battery(report: Seq<char>) -> bool {
    contains_seq(report, "NoBattery=true"@)
}

pub open spec fn battery_spec(report: Seq<char>, health_percent: JsonV) -> JsonV {
    let lines = report_lines(report);
    if no_battery(report) {
        JsonV::Null
    } else {
        JsonV::Object(seq![
            ("name"@, text_or_null(last_value(lines, "Name"@))),
            ("device_id"@, text_or_null(last_value(lines, "DeviceID"@))),
            ("design_capacity_mwh"@, u64_or_null(u64_value(lines, "DesignCapacity"@))),
            ("full_charge_capacity_mwh"@, u64_or_null(u64_value(lines, "FullChargeCapacity"@))),
            ("health_percent"@, health_percent),
            ("design_voltage_mv"@, u64_or_null(u64_value(lines, "DesignVoltage"@))),
            ("chemistry"@, match u16_value(lines, "Chemistry"@) {
                Some(c) => JsonV::Str(chemistry_spec(c)),
                None => JsonV::Null,
            }),
            ("status"@, text_or_null(last_value(lines, "Status"@))),
            ("estimated_charge_percent"@, u16_or_null(u16_value(lines, "EstimatedChargeRemaining"@))),
            ("estimated_runtime_minutes"@, u32_or_null(u32_value(lines, "EstimatedRunTime"@))),
            ("battery_status_code"@, u16_or_null(u16_value(lines, "BatteryStatus"@))),
        ])
    }
}

/// The design and full-charge capacities a battery report gives, from which
/// the caller works out the battery's health (a fraction).
pub fn battery_capacities(report: &str) -> (r: (Option<u64>, Option<u64>))
    ensures
        r.0 == u64_value(report_lines(report@), "DesignCapacity"@),
        r.1 == u64_value(report_lines(report@), "FullChargeCapacity"@),
{
    let lines = report_lines_of(report);
    (u64_value_of(&lines, "DesignCapacity"), u64_value_of(&lines, "FullChargeCapacity"))
}

fn u16_json(o: Option<u16>) -> (r: Json)
    ensures
        r.view() == u16_or_null(o),
{
    match o {
        Some(n) => Json::Number(JsonNumber::Unsigned(n as u64)),
        None => Json::Null,
    }
}

/// The battery report, with the health percentage given; `null` when the
/// report says there is no battery.
pub fn battery_json(report: &str, health_percent: Json) -> (r: Json)
    ensures
        r.view() == battery_spec(report@, health_percent.view()),
{
    let cs = chars_of(report);
    let marker = chars_of("NoBattery=true");
    if chars_contains_seq(&cs, &marker) {
        return Json::Null;
    }
    let lines = report_lines_of(report);
    let ghost hv = health_percent.view();
    let mut ms: Vec<(String, Json)> = Vec::new();
    push_member(&mut ms, "name", text_member(&lines, "Name"));
    push_member(&mut ms, "device_id", text_member(&lines, "DeviceID"));
    push_member(&mut ms, "design_capacity_mwh", u64_json(u64_value_of(&lines, "DesignCapacity")));
    push_member(&mut ms, "full_charge_capacity_mwh", u64_json(u64_value_of(&lines, "FullChargeCapacity")));
    push_member(&mut ms, "health_percent", health_percent);
    push_member(&mut ms, "design_voltage_mv", u64_json(u64_value_of(&lines, "DesignVoltage")));
    let chemistry = match u16_value_of(&lines, "Chemistry") {
        Some(c) => Json::Str(string_from_str(chemistry_name(c))),
        None => Json::Null,
    };
    push_member(&mut ms, "chemistry", chemistry);
    push_member(&mut ms, "status", text_member(&lines, "Status"));
    push_member(&mut ms, "estimated_charge_percent", u16_json(u16_value_of(&lines, "EstimatedChargeRemaining")));
    push_member(&mut ms, "estimated_runtime_minutes", u32_json(u32_value_of(&lines, "EstimatedRunTime")));
    push_member(&mut ms, "battery_status_code", u16_json(u16_value_of(&lines, "BatteryStatus")));
    assert(view_members(ms@) =~= battery_spec(report@, hv)->Object_0);
    Json::Object(ms)
}

// ---------------------------------------------------------------------------
// Memory modules
// ---------------------------------------------------------------------------

/// A memory module being read.
pub struct Stick {
    pub capacity: Option<u64>,
    pub speed: Option<u32>,
    pub configured_speed: Option<u32>,
    pub form_factor: Option<u32>,
    pub memory_type: Option<u32>,
    pub manufacturer: Vec<char>,
    pub part_number: Vec<char>,
    pub serial: Vec<char>,
    pub bank: Vec<char>,
    pub locator: Vec<char>,
    pub data_width: Option<u32>,
    pub total_width: Option<u32>,
}

pub struct StickV {
    pub capacity: Option<u64>,
    pub speed: Option<u32>,
    pub configured_speed: Option<u32>,
    pub form_factor: Option<u32>,
    pub memory_type: Option<u32>,
    pub manufacturer: Seq<char>,
    pub part_number: Seq<char>,
    pub serial: Seq<char>,
    pub bank: Seq<char>,
    pub locator: Seq<char>,
    pub data_width: Option<u32>,
    pub total_width: Option<u32>,
}

impl Stick {
    pub open spec fn view(&self) -> StickV {
        StickV {
            capacity: self.capacity,
            speed: self.speed,
            configured_speed: self.configured_speed,
            form_factor: self.form_factor,
            memory_type: self.memory_type,
            manufacturer: self.manufacturer@,
            part_number: self.part_number@,
            serial: self.serial@,
            bank: self.bank@,
            locator: self.locator@,
            data_width: self.data_width,
            total_width: self.total_width,
        }
    }
}

pub open spec fn empty_stick() -> StickV {
    StickV {
        capacity: None,
        speed: None,
        configured_speed: None,
        form_factor: None,
        memory_type: None,
        manufacturer: Seq::empty(),
        part_number: Seq::empty(),
        serial: Seq::empty(),
        bank: Seq::empty(),
        locator: Seq::empty(),
        data_width: None,
        total_width: None,
    }
}

/// A line inside a module's block sets the field it names.
pub open spec fn stick_set(st: StickV, l: Seq<char>) -> StickV {
    if let Some(v) = after(l, "Capacity="@) {
        StickV { capacity: parse_u64_spec(v), ..st }
    } else if let Some(v) = after(l, "Speed="@) {
        StickV { speed: parse_u32_spec(v), ..st }
    } else if let Some(v) = after(l, "ConfiguredClockSpeed="@) {
        StickV { configured_speed: parse_u32_spec(v), ..st }
    } else if let Some(v) = after(l, "FormFactor="@) {
        StickV { form_factor: parse_u32_spec(v), ..st }
    } else if let Some(v) = after(l, "MemoryType="@) {
        StickV { memory_type: parse_u32_spec(v), ..st }
    } else if let Some(v) = after(l, "Manufacturer="@) {
        StickV { manufacturer: v, ..st }
    } else if let Some(v) = after(l, "PartNumber="@) {
        StickV { part_number: v, ..st }
    } else if let Some(v) = after(l, "SerialNumber="@) {
        StickV { serial: v, ..st }
    } else if let Some(v) = after(l, "BankLabel="@) {
        StickV { bank: v, ..st }
    } else if let Some(v) = after(l, "DeviceLocator="@) {
        StickV { locator: v, ..st }
    } else if let Some(v) = after(l, "DataWidth="@) {
        StickV { data_width: parse_u32_spec(v), ..st }
    } else if let Some(v) = after(l, "TotalWidth="@) {
        StickV { total_width: parse_u32_spec(v), ..st }
    } else {
        st
    }
}

/// What reading the memory report gives: the slot counts, the modules
/// read, and the module being read.
pub struct RamRead {
    pub slots_total: Option<u32>,
    pub slots_used: Option<u32>,
    pub sticks: Seq<StickV>,
    pub current: Option<StickV>,
}

/// `SlotsTotal=` and `SlotsUsed=` lines give the slot counts wherever they
/// stand; `BEGIN_STICK` opens a module and `END_STICK` closes it; lines in
/// between set its fields.
pub open spec fn ram_fold(lines: Seq<Seq<char>>) -> RamRead
    decreases lines.len(),
{
    if lines.len() == 0 {
        RamRead { slots_total: None, slots_used: None, sticks: Seq::empty(), current: None }
    } else {
        let r = ram_fold(lines.drop_last());
        let l = lines.last();
        if let Some(v) = after(l, "SlotsTotal="@) {
            RamRead { slots_total: parse_u32_spec(v), ..r }
        } else if let Some(v) = after(l, "SlotsUsed="@) {
            RamRead { slots_used: parse_u32_spec(v), ..r }
        } else if l == "BEGIN_STICK"@ {
            RamRead { current: Some(empty_stick()), ..r }
        } else if l == "END_STICK"@ {
            match r.current {
                Some(st) => RamRead { sticks: r.sticks.push(st), current: None, ..r },
                None => r,
            }
        } else {
            match r.current {
                Some(st) => RamRead { current: Some(stick_set(st, l)), ..r },
                None => r,
            }
        }
    }
}

pub open spec fn form_factor_spec(code: Option<u32>) -> Seq<char> {
    match code {
        Some(8) => "DIMM"@,
        Some(12) => "SODIMM"@,
        Some(9) => "RIMM"@,
        Some(13) => "SRIMM"@,
        _ => "Unknown"@,
    }
}

pub open spec fn memory_type_spec(code: Option<u32>) -> Seq<char> {
    match code {
        Some(20) => "DDR"@,
        Some(21) => "DDR2"@,
        Some(24) => "DDR3"@,
        Some(26) => "DDR4"@,
        Some(34) => "DDR5"@,
        _ => "Unknown"@,
    }
}

/// A text field: `null` when empty, else trimmed.
pub open spec fn field_json(t: Seq<char>) -> JsonV {
    if t.len() == 0 { JsonV::Null } else { JsonV::Str(trim(t)) }
}

pub open spec fn stick_json(st: StickV) -> JsonV {
    JsonV::Object(seq![
        ("capacity_bytes"@, u64_or_null(st.capacity)),
        ("speed_mhz"@, u32_or_null(st.speed)),
        ("configured_speed_mhz"@, u32_or_null(st.configured_speed)),
        ("form_factor"@, JsonV::Str(form_factor_spec(st.form_factor))),
        ("memory_type"@, JsonV::Str(memory_type_spec(st.memory_type))),
        ("manufacturer"@, field_json(st.manufacturer)),
        ("part_number"@, field_json(st.part_number)),
        ("serial_number"@, field_json(st.serial)),
        ("bank_label"@, field_json(st.bank)),
        ("device_locator"@, field_json(st.locator)),
        ("data_width_bits"@, u32_or_null(st.data_width)),
        ("total_width_bits"@, u32_or_null(st.total_width)),
    ])
}

/// The memory report: the first module's configured speed, form factor and
/// type, the slot counts, and every module.
pub open spec fn ram_spec(lines: Seq<Seq<char>>) -> JsonV {
    let r = ram_fold(lines);
    let first = if r.sticks.len() > 0 { Some(r.sticks[0]) } else { None };
    JsonV::Object(seq![
        ("speed_mhz"@, match first {
            Some(st) => u32_or_null(st.configured_speed),
            None => JsonV::Null,
        }),
        ("form_factor"@, match first {
            Some(st) => JsonV::Str(form_factor_spec(st.form_factor)),
            None => JsonV::Null,
        }),
        ("memory_type"@, match first {
            Some(st) => JsonV::Str(memory_type_spec(st.memory_type)),
            None => JsonV::Null,
        }),
        ("slots_used"@, u32_or_null(r.slots_used)),
        ("slots_total"@, u32_or_null(r.slots_total)),
        ("sticks"@, JsonV::Array(r.sticks.map_values(|st: StickV| stick_json(st)))),
    ])
}

fn new_stick() -> (r: Stick)
    ensures
        r.view() == empty_stick(),
{
    Stick {
        capacity: None,
        speed: None,
        configured_speed: None,
        form_factor: None,
        memory_type: None,
        manufacturer: Vec::new(),
        part_number: Vec::new(),
        serial: Vec::new(),
        bank: Vec::new(),
        locator: Vec::new(),
        data_width: None,
        total_width: None,
    }
}

fn set_stick_field(st: &mut Stick, l: &Vec<char>)
    ensures
        final(st).view() == stick_set(old(st).view(), l@),
{
    if let Some(v) = after_prefix(l, "Capacity=") {
        st.capacity = parse_u64(&v);
    } else if let Some(v) = after_prefix(l, "Speed=") {
        st.speed = parse_u32(&v);
    } else if let Some(v) = after_prefix(l, "ConfiguredClockSpeed=") {
        st.configured_speed = parse_u32(&v);
    } else if let Some(v) = after_prefix(l, "FormFactor=") {
        st.form_factor = parse_u32(&v);
    } else if let Some(v) = after_prefix(l, "MemoryType=") {
        st.memory_type = parse_u32(&v);
    } else if let Some(v) = after_prefix(l, "Manufacturer=") {
        st.manufacturer = v;
    } else if let Some(v) = after_prefix(l, "PartNumber=") {
        st.part_number = v;
    } else if let Some(v) = after_prefix(l, "SerialNumber=") {
        st.serial = v;
    } else if let Some(v) = after_prefix(l, "BankLabel=") {
        st.bank = v;
    } else if let Some(v) = after_prefix(l, "DeviceLocator=") {
        st.locator = v;
    } else if let Some(v) = after_prefix(l, "DataWidth=") {
        st.data_width = parse_u32(&v);
    } else if let Some(v) = after_prefix(l, "TotalWidth=") {
        st.total_width = parse_u32(&v);
    }
}

fn form_factor_name(code: Option<u32>) -> (r: &'static str)
    ensures
        r@ == form_factor_spec(code),
{
    match code {
        Some(8) => "DIMM",
        Some(12) => "SODIMM",
        Some(9) => "RIMM",
        Some(13) => "SRIMM",
        _ => "Unknown",
    }
}

fn memory_type_name(code: Option<u32>) -> (r: &'static str)
    ensures
        r@ == memory_type_spec(code),
{
    match code {
        Some(20) => "DDR",
        Some(21) => "DDR2",
        Some(24) => "DDR3",
        Some(26) => "DDR4",
        Some(34) => "DDR5",
        _ => "Unknown",
    }
}

fn field_to_json(t: &Vec<char>) -> (r: Json)
    ensures
        r.view() == field_json(t@),
{
    if t.len() == 0 {
        Json::Null
    } else {
        Json::Str(string_from_chars(&chars_trim(t)))
    }
}

fn stick_to_json(st: &Stick) -> (r: Json)
    ensures
        r.view() == stick_json(st.view()),
{
    let mut ms: Vec<(String, Json)> = Vec::new();
    push_member(&mut ms, "capacity_bytes", u64_json(st.capacity));
    push_member(&mut ms, "speed_mhz", u32_json(st.speed));
    push_member(&mut ms, "configured_speed_mhz", u32_json(st.configured_speed));
    push_member(&mut ms, "form_factor", Json::Str(string_from_str(form_factor_name(st.form_factor))));
    push_member(&mut ms, "memory_type", Json::Str(string_from_str(memory_type_name(st.memory_type))));
    push_member(&mut ms, "manufacturer", field_to_json(&st.manufacturer));
    push_member(&mut ms, "part_number", field_to_json(&st.part_number));
    push_member(&mut ms, "serial_number", field_to_json(&st.serial));
    push_member(&mut ms, "bank_label", field_to_json(&st.bank));
    push_member(&mut ms, "device_locator", field_to_json(&st.locator));
    push_member(&mut ms, "data_width_bits", u32_json(st.data_width));
    push_member(&mut ms, "total_width_bits", u32_json(st.total_width));
    assert(view_members(ms@) =~= stick_json(st.view())->Object_0);
    Json::Object(ms)
}

pub open spec fn stick_views(v: Seq<Stick>) -> Seq<StickV> {
    v.map_values(|st: Stick| st.view())
}

pub open spec fn opt_stick(o: Option<Stick>) -> Option<StickV> {
    match o {
        Some(st) => Some(st.view()),
        None => None,
    }
}

fn chars_are(l: &Vec<char>, word: &str) -> (r: bool)
    ensures
        r == (l@ == word@),
{
    str_eq(string_from_chars(l).as_str(), word)
}

/// The memory modules report.
pub fn ram_hardware_json(report: &str) -> (r: Json)
    ensures
        r.view() == ram_spec(report_lines(report@)),
{
    let lines = report_lines_of(report);
    let ghost lv = views(lines@);
    let mut slots_total: Option<u32> = None;
    let mut slots_used: Option<u32> = None;
    let mut sticks: Vec<Stick> = Vec::new();
    let mut current: Option<Stick> = None;
    for i in 0..lines.len()
        invariant
            lv == views(lines@),
            ({
                let f = ram_fold(lv.take(i as int));
                &&& f.slots_total == slots_total
                &&& f.slots_used == slots_used
                &&& f.sticks == stick_views(sticks@)
                &&& f.current == opt_stick(current)
            }),
    {
        assert(lv.take(i + 1).drop_last() =~= lv.take(i as int));
        assert(lv.take(i + 1).last() == lines@[i as int]@);
        let l = &lines[i];
        if let Some(v) = after_prefix(l, "SlotsTotal=") {
            slots_total = parse_u32(&v);
        } else if let Some(v) = after_prefix(l, "SlotsUsed=") {
            slots_used = parse_u32(&v);
        } else if chars_are(l, "BEGIN_STICK") {
            current = Some(new_stick());
        } else if chars_are(l, "END_STICK") {
            let taken = current;
            current = None;
            match taken {
                Some(st) => {
                    let ghost before = stick_views(sticks@);
                    sticks.push(st);
                    assert(stick_views(sticks@) =~= before.push(st.view()));
                },
                None => {},
            }
        } else {
            match current {
                Some(ref mut st) => set_stick_field(st, l),
                None => {},
            }
        }
    }
    assert(lv.take(lines.len() as int) =~= lv);
    let ghost f = ram_fold(lv);
    let mut items: Vec<Json> = Vec::new();
    for k in 0..sticks.len()
        invariant
            f.sticks == stick_views(sticks@),
            view_items(items@) == f.sticks.take(k as int).map_values(|st: StickV| stick_json(st)),
    {
        let ghost before = view_items(items@);
        push_item(&mut items, stick_to_json(&sticks[k]));
        assert(view_items(items@) =~= f.sticks.take(k + 1).map_values(|st: StickV| stick_json(st)));
    }
    assert(f.sticks.take(sticks.len() as int) =~= f.sticks);
    let (speed, form, kind) = if sticks.len() > 0 {
        (
            u32_json(sticks[0].configured_speed),
            Json::Str(string_from_str(form_factor_name(sticks[0].form_factor))),
            Json::Str(string_from_str(memory_type_name(sticks[0].memory_type))),
        )
    } else {
        (Json::Null, Json::Null, Json::Null)
    };
    let mut ms: Vec<(String, Json)> = Vec::new();
    push_member(&mut ms, "speed_mhz", speed);
    push_member(&mut ms, "form_factor", form);
    push_member(&mut ms, "memory_type", kind);
    push_member(&mut ms, "slots_used", u32_json(slots_used));
    push_member(&mut ms, "slots_total", u32_json(slots_total));
    push_member(&mut ms, "sticks", Json::Array(items));
    assert(view_members(ms@) =~= ram_spec(lv)->Object_0);
    Json::Object(ms)
}

// ---------------------------------------------------------------------------
// Physical disks
// ---------------------------------------------------------------------------

/// A disk being read.
pub struct Disk {
    pub model: Vec<char>,
    pub media_type: Vec<char>,
    pub bus_type: Vec<char>,
    pub serial: Vec<char>,
    pub firmware: Vec<char>,
    pub size: Option<u64>,
    pub health: Vec<char>,
    pub disk_number: Option<u32>,
    pub letters: Vec<Vec<char>>,
    pub system_disk: bool,
    pub page_file_disk: bool,
}

pub struct DiskV {
    pub model: Seq<char>,
    pub media_type: Seq<char>,
    pub bus_type: Seq<char>,
    pub serial: Seq<char>,
    pub firmware: Seq<char>,
    pub size: Option<u64>,
    pub health: Seq<char>,
    pub disk_number: Option<u32>,
    pub letters: Seq<Seq<char>>,
    pub system_disk: bool,
    pub page_file_disk: bool,
}

impl Disk {
    pub open spec fn view(&self) -> DiskV {
        DiskV {
            model: self.model@,
            media_type: self.media_type@,
            bus_type: self.bus_type@,
            serial: self.serial@,
            firmware: self.firmware@,
            size: self.size,
            health: self.health@,
            disk_number: self.disk_number,
            letters: views(self.letters@),
            system_disk: self.system_disk,
            page_file_disk: self.page_file_disk,
        }
    }
}

pub open spec fn empty_disk() -> DiskV {
    DiskV {
        model: Seq::empty(),
        media_type: Seq::empty(),
        bus_type: Seq::empty(),
        serial: Seq::empty(),
        firmware: Seq::empty(),
        size: None,
        health: Seq::empty(),
        disk_number: None,
        letters: Seq::empty(),
        system_disk: false,
        page_file_disk: false,
    }
}

/// The drive letters of a `DriveLetters=` value: its comma-separated pieces
/// that are not empty, trimmed.
pub open spec fn letters_of(pieces: Seq<Seq<char>>) -> Seq<Seq<char>>
    decreases pieces.len(),
{
    if pieces.len() == 0 {
        Seq::empty()
    } else {
        let rest = letters_of(pieces.drop_last());
        if pieces.last().len() > 0 { rest.push(trim(pieces.last())) } else { rest }
    }
}

/// A line inside a disk's block sets the field it names; `SystemDisk=true`
/// (any case) marks the system disk, other values leave the mark.
pub open spec fn disk_set(d: DiskV, l: Seq<char>) -> DiskV {
    if let Some(v) = after(l, "Model="@) {
        DiskV { model: v, ..d }
    } else if let Some(v) = after(l, "MediaType="@) {
        DiskV { media_type: v, ..d }
    } else if let Some(v) = after(l, "BusType="@) {
        DiskV { bus_type: v, ..d }
    } else if let Some(v) = after(l, "SerialNumber="@) {
        DiskV { serial: v, ..d }
    } else if let Some(v) = after(l, "FirmwareVersion="@) {
        DiskV { firmware: v, ..d }
    } else if let Some(v) = after(l, "Size="@) {
        DiskV { size: parse_u64_spec(v), ..d }
    } else if let Some(v) = after(l, "HealthStatus="@) {
        DiskV { health: v, ..d }
    } else if let Some(v) = after(l, "DiskNumber="@) {
        DiskV { disk_number: parse_u32_spec(v), ..d }
    } else if let Some(v) = after(l, "DriveLetters="@) {
        DiskV { letters: letters_of(split_on(v, ',')), ..d }
    } else if let Some(v) = after(l, "SystemDisk="@) {
        if eq_ignore_case(v, "true"@) { DiskV { system_disk: true, ..d } } else { d }
    } else if let Some(v) = after(l, "PageFileDisk="@) {
        DiskV { page_file_disk: eq_ignore_case(v, "true"@), ..d }
    } else {
        d
    }
}

/// `BEGIN_DISK` opens a disk, `END_DISK` closes it (keeping it when it has
/// a model); lines in between set its fields.
pub open spec fn disk_fold(lines: Seq<Seq<char>>) -> (Seq<DiskV>, Option<DiskV>)
    decreases lines.len(),
{
    if lines.len() == 0 {
        (Seq::empty(), None)
    } else {
        let (done, cur) = disk_fold(lines.drop_last());
        let l = lines.last();
        if l == "BEGIN_DISK"@ {
            (done, Some(empty_disk()))
        } else if l == "END_DISK"@ {
            match cur {
                Some(d) => if d.model.len() > 0 { (done.push(d), None) } else { (done, None) },
                None => (done, None),
            }
        } else {
            match cur {
                Some(d) => (done, Some(disk_set(d, l))),
                None => (done, None),
            }
        }
    }
}

/// A text member: `null` when empty.
pub open spec fn nonempty_or_null(t: Seq<char>) -> JsonV {
    if t.len() == 0 { JsonV::Null } else { JsonV::Str(t) }
}

pub open spec fn disk_json(d: DiskV) -> JsonV {
    JsonV::Object(seq![
        ("model"@, JsonV::Str(d.model)),
        ("media_type"@, nonempty_or_null(d.media_type)),
        ("bus_type"@, nonempty_or_null(d.bus_type)),
        ("serial_number"@, field_json(d.serial)),
        ("firmware_version"@, field_json(d.firmware)),
        ("capacity_bytes"@, u64_or_null(d.size)),
        ("health_status"@, nonempty_or_null(d.health)),
        ("disk_number"@, u32_or_null(d.disk_number)),
        ("drive_letters"@, JsonV::Array(d.letters.map_values(|t: Seq<char>| JsonV::Str(t)))),
        ("system_disk"@, JsonV::Bool(d.system_disk)),
        ("page_file_disk"@, JsonV::Bool(d.page_file_disk)),
    ])
}

/// The physical disks report: every disk with a model.
pub open spec fn disks_spec(lines: Seq<Seq<char>>) -> Seq<JsonV> {
    disk_fold(lines).0.map_values(|d: DiskV| disk_json(d))
}

fn new_disk() -> (r: Disk)
    ensures
        r.view() == empty_disk(),
{
    let r = Disk {
        model: Vec::new(),
        media_type: Vec::new(),
        bus_type: Vec::new(),
        serial: Vec::new(),
        firmware: Vec::new(),
        size: None,
        health: Vec::new(),
        disk_number: None,
        letters: Vec::new(),
        system_disk: false,
        page_file_disk: false,
    };
    assert(views(r.letters@) =~= Seq::<Seq<char>>::empty());
    r
}

fn drive_letters(v: &Vec<char>) -> (r: Vec<Vec<char>>)
    ensures
        views(r@) == letters_of(split_on(v@, ',')),
{
    let pieces = split_chars(v, ',');
    let ghost pv = views(pieces@);
    let mut out: Vec<Vec<char>> = Vec::new();
    for i in 0..pieces.len()
        invariant
            pv == views(pieces@),
            pv == split_on(v@, ','),
            views(out@) == letters_of(pv.take(i as int)),
    {
        assert(pv.take(i + 1).drop_last() =~= pv.take(i as int));
        assert(pv.take(i + 1).last() == pieces@[i as int]@);
        if pieces[i].len() > 0 {
            let t = chars_trim(&pieces[i]);
            let ghost before = views(out@);
            out.push(t);
            assert(views(out@) =~= before.push(t@));
        }
    }
    assert(pv.take(pieces.len() as int) =~= pv);
    out
}

fn is_true_text(v: &Vec<char>) -> (r: bool)
    ensures
        r == eq_ignore_case(v@, "true"@),
{
    let t = chars_of("true");
    chars_eq_ignore_case(v, &t)
}

fn set_disk_field(d: &mut Disk, l: &Vec<char>)
    ensures
        final(d).view() == disk_set(old(d).view(), l@),
{
    if let Some(v) = after_prefix(l, "Model=") {
        d.model = v;
    } else if let Some(v) = after_prefix(l, "MediaType=") {
        d.media_type = v;
    } else if let Some(v) = after_prefix(l, "BusType=") {
        d.bus_type = v;
    } else if let Some(v) = after_prefix(l, "SerialNumber=") {
        d.serial = v;
    } else if let Some(v) = after_prefix(l, "FirmwareVersion=") {
        d.firmware = v;
    } else if let Some(v) = after_prefix(l, "Size=") {
        d.size = parse_u64(&v);
    } else if let Some(v) = after_prefix(l, "HealthStatus=") {
        d.health = v;
    } else if let Some(v) = after_prefix(l, "DiskNumber=") {
        d.disk_number = parse_u32(&v);
    } else if let Some(v) = after_prefix(l, "DriveLetters=") {
        d.letters = drive_letters(&v);
    } else if let Some(v) = after_prefix(l, "SystemDisk=") {
        if is_true_text(&v) {
            d.system_disk = true;
        }
    } else if let Some(v) = after_prefix(l, "PageFileDisk=") {
        d.page_file_disk = is_true_text(&v);
    }
}

fn plain_to_json(t: &Vec<char>) -> (r: Json)
    ensures
        r.view() == nonempty_or_null(t@),
{
    if t.len() == 0 { Json::Null } else { Json::Str(string_from_chars(t)) }
}

fn disk_to_json(d: &Disk) -> (r: Json)
    ensures
        r.view() == disk_json(d.view()),
{
    let mut letters: Vec<Json> = Vec::new();
    for k in 0..d.letters.len()
        invariant
            view_items(letters@) == views(d.letters@).take(k as int).map_values(|t: Seq<char>| JsonV::Str(t)),
    {
        push_item(&mut letters, Json::Str(string_from_chars(&d.letters[k])));
        assert(view_items(letters@) =~= views(d.letters@).take(k + 1).map_values(|t: Seq<char>| JsonV::Str(t)));
    }
    assert(views(d.letters@).take(d.letters.len() as int) =~= views(d.letters@));
    let mut ms: Vec<(String, Json)> = Vec::new();
    push_member(&mut ms, "model", Json::Str(string_from_chars(&d.model)));
    push_member(&mut ms, "media_type", plain_to_json(&d.media_type));
    push_member(&mut ms, "bus_type", plain_to_json(&d.bus_type));
    push_member(&mut ms, "serial_number", field_to_json(&d.serial));
    push_member(&mut ms, "firmware_version", field_to_json(&d.firmware));
    push_member(&mut ms, "capacity_bytes", u64_json(d.size));
    push_member(&mut ms, "health_status", plain_to_json(&d.health));
    push_member(&mut ms, "disk_number", u32_json(d.disk_number));
    push_member(&mut ms, "drive_letters", Json::Array(letters));
    push_member(&mut ms, "system_disk", Json::Bool(d.system_disk));
    push_member(&mut ms, "page_file_disk", Json::Bool(d.page_file_disk));
    assert(view_members(ms@) =~= disk_json(d.view())->Object_0);
    Json::Object(ms)
}

pub open spec fn disk_views(v: Seq<Disk>) -> Seq<DiskV> {
    v.map_values(|d: Disk| d.view())
}

pub open spec fn opt_disk(o: Option<Disk>) -> Option<DiskV> {
    match o {
        Some(d) => Some(d.view()),
        None => None,
    }
}

/// The physical disks report.
pub fn physical_disks_json(report: &str) -> (r: Vec<Json>)
    ensures
        view_items(r@) == disks_spec(report_lines(report@)),
{
    let lines = report_lines_of(report);
    let ghost lv = views(lines@);
    let mut done: Vec<Disk> = Vec::new();
    let mut current: Option<Disk> = None;
    for i in 0..lines.len()
        invariant
            lv == views(lines@),
            disk_fold(lv.take(i as int)).0 == disk_views(done@),
            disk_fold(lv.take(i as int)).1 == opt_disk(current),
    {
        assert(lv.take(i + 1).drop_last() =~= lv.take(i as int));
        assert(lv.take(i + 1).last() == lines@[i as int]@);
        let l = &lines[i];
        if chars_are(l, "BEGIN_DISK") {
            current = Some(new_disk());
        } else if chars_are(l, "END_DISK") {
            let taken = current;
            current = None;
            match taken {
                Some(d) => {
                    if d.model.len() > 0 {
                        let ghost before = disk_views(done@);
                        done.push(d);
                        assert(disk_views(done@) =~= before.push(d.view()));
                    }
                },
                None => {},
            }
        } else {
            match current {
                Some(ref mut d) => set_disk_field(d, l),
                None => {},
            }
        }
    }
    assert(lv.take(lines.len() as int) =~= lv);
    let ghost ds = disk_fold(lv).0;
    let mut out: Vec<Json> = Vec::new();
    for k in 0..done.len()
        invariant
            ds == disk_views(done@),
            view_items(out@) == ds.take(k as int).map_values(|d: DiskV| disk_json(d)),
    {
        push_item(&mut out, disk_to_json(&done[k]));
        assert(view_items(out@) =~= ds.take(k + 1).map_values(|d: DiskV| disk_json(d)));
    }
    assert(ds.take(done.len() as int) =~= ds);
    out
}

// ---------------------------------------------------------------------------
// Wi-Fi adapters
// ---------------------------------------------------------------------------

/// An adapter: name, description, status, MAC address, link speed, media type.
pub type IfaceV = (Seq<char>, Seq<char>, Seq<char>, Seq<char>, Seq<char>, Seq<char>);

pub open spec fn empty_iface() -> IfaceV {
    (Seq::empty(), Seq::empty(), Seq::empty(), Seq::empty(), Seq::empty(), Seq::empty())
}

pub open spec fn iface_set(f: IfaceV, l: Seq<char>) -> IfaceV {
    if let Some(v) = after(l, "Name="@) {
        (v, f.1, f.2, f.3, f.4, f.5)
    } else if let Some(v) = after(l, "Description="@) {
        (f.0, v, f.2, f.3, f.4, f.5)
    } else if let Some(v) = after(l, "Status="@) {
        (f.0, f.1, v, f.3, f.4, f.5)
    } else if let Some(v) = after(l, "MacAddress="@) {
        (f.0, f.1, f.2, v, f.4, f.5)
    } else if let Some(v) = after(l, "LinkSpeed="@) {
        (f.0, f.1, f.2, f.3, v, f.5)
    } else if let Some(v) = after(l, "MediaType="@) {
        (f.0, f.1, f.2, f.3, f.4, v)
    } else {
        f
    }
}

/// `BEGIN_IFACE` opens an adapter, `END_IFACE` closes it (keeping it when it
/// has a name); lines in between set its fields.
pub open spec fn iface_fold(lines: Seq<Seq<char>>) -> (Seq<IfaceV>, Option<IfaceV>)
    decreases lines.len(),
{
    if lines.len() == 0 {
        (Seq::empty(), None)
    } else {
        let (done, cur) = iface_fold(lines.drop_last());
        let l = lines.last();
        if l == "BEGIN_IFACE"@ {
            (done, Some(empty_iface()))
        } else if l == "END_IFACE"@ {
            match cur {
                Some(f) => if f.0.len() > 0 { (done.push(f), None) } else { (done, None) },
                None => (done, None),
            }
        } else {
            match cur {
                Some(f) => (done, Some(iface_set(f, l))),
                None => (done, None),
            }
        }
    }
}

pub open spec fn iface_json(f: IfaceV) -> JsonV {
    JsonV::Object(seq![
        ("name"@, JsonV::Str(f.0)),
        ("description"@, JsonV::Str(f.1)),
        ("status"@, JsonV::Str(f.2)),
        ("mac_address"@, JsonV::Str(f.3)),
        ("link_speed"@, JsonV::Str(f.4)),
        ("media_type"@, JsonV::Str(f.5)),
    ])
}

/// The Wi-Fi adapters report: every adapter with a name.
pub open spec fn ifaces_spec(lines: Seq<Seq<char>>) -> Seq<JsonV> {
    iface_fold(lines).0.map_values(|f: IfaceV| iface_json(f))
}

fn iface_field(f: &mut (Vec<char>, Vec<char>, Vec<char>, Vec<char>, Vec<char>, Vec<char>), l: &Vec<char>)
    ensures
        iface_view(*final(f)) == iface_set(iface_view(*old(f)), l@),
{
    if let Some(v) = after_prefix(l, "Name=") {
        f.0 = v;
    } else if let Some(v) = after_prefix(l, "Description=") {
        f.1 = v;
    } else if let Some(v) = after_prefix(l, "Status=") {
        f.2 = v;
    } else if let Some(v) = after_prefix(l, "MacAddress=") {
        f.3 = v;
    } else if let Some(v) = after_prefix(l, "LinkSpeed=") {
        f.4 = v;
    } else if let Some(v) = after_prefix(l, "MediaType=") {
        f.5 = v;
    }
}

pub open spec fn iface_view(f: (Vec<char>, Vec<char>, Vec<char>, Vec<char>, Vec<char>, Vec<char>)) -> IfaceV {
    (f.0@, f.1@, f.2@, f.3@, f.4@, f.5@)
}

/// The Wi-Fi adapters report.
pub fn wifi_interfaces_json(report: &str) -> (r: Vec<Json>)
    ensures
        view_items(r@) == ifaces_spec(report_lines(report@)),
{
    let lines = report_lines_of(report);
    let ghost lv = views(lines@);
    let mut out: Vec<Json> = Vec::new();
    let mut current: Option<(Vec<char>, Vec<char>, Vec<char>, Vec<char>, Vec<char>, Vec<char>)> = None;
    for i in 0..lines.len()
        invariant
            lv == views(lines@),
            view_items(out@) == iface_fold(lv.take(i as int)).0.map_values(|f: IfaceV| iface_json(f)),
            iface_fold(lv.take(i as int)).1 == match current {
                Some(f) => Some(iface_view(f)),
                None => None::<IfaceV>,
            },
    {
        assert(lv.take(i + 1).drop_last() =~= lv.take(i as int));
        assert(lv.take(i + 1).last() == lines@[i as int]@);
        let ghost prev = iface_fold(lv.take(i as int)).0;
        let l = &lines[i];
        if chars_are(l, "BEGIN_IFACE") {
            current = Some((Vec::new(), Vec::new(), Vec::new(), Vec::new(), Vec::new(), Vec::new()));
            assert(iface_view(current->0) =~= empty_iface());
        } else if chars_are(l, "END_IFACE") {
            let taken = current;
            current = None;
            match taken {
                Some(f) => {
                    if f.0.len() > 0 {
                        let mut ms: Vec<(String, Json)> = Vec::new();
                        push_member(&mut ms, "name", Json::Str(string_from_chars(&f.0)));
                        push_member(&mut ms, "description", Json::Str(string_from_chars(&f.1)));
                        push_member(&mut ms, "status", Json::Str(string_from_chars(&f.2)));
                        push_member(&mut ms, "mac_address", Json::Str(string_from_chars(&f.3)));
                        push_member(&mut ms, "link_speed", Json::Str(string_from_chars(&f.4)));
                        push_member(&mut ms, "media_type", Json::Str(string_from_chars(&f.5)));
                        assert(view_members(ms@) =~= iface_json(iface_view(f))->Object_0);
                        push_item(&mut out, Json::Object(ms));
                        assert(prev.push(iface_view(f)).map_values(|g: IfaceV| iface_json(g)) =~= prev.map_values(
                            |g: IfaceV| iface_json(g),
                        ).push(iface_json(iface_view(f))));
                    }
                },
                None => {},
            }
        } else {
            match current {
                Some(ref mut f) => iface_field(f, l),
                None => {},
            }
        }
    }
    assert(lv.take(lines.len() as int) =~= lv);
    out
}

// ---------------------------------------------------------------------------
// Video controllers
// ---------------------------------------------------------------------------

/// `key=value` pairs read so far, later values winning.
pub open spec fn pairs_map(v: Seq<(Seq<char>, Seq<char>)>) -> Map<Seq<char>, Seq<char>>
    decreases v.len(),
{
    if v.len() == 0 {
        Map::empty()
    } else {
        pairs_map(v.drop_last()).insert(v.last().0, v.last().1)
    }
}

pub open spec fn pair_views(v: Seq<(Vec<char>, Vec<char>)>) -> Seq<(Seq<char>, Seq<char>)> {
    v.map_values(|p: (Vec<char>, Vec<char>)| (p.0@, p.1@))
}

pub open spec fn field_get(f: Map<Seq<char>, Seq<char>>, k: Seq<char>) -> Option<Seq<char>> {
    if f.contains_key(k) { Some(f[k]) } else { None }
}

fn pairs_get(v: &Vec<(Vec<char>, Vec<char>)>, key: &str) -> (r: Option<Vec<char>>)
    ensures
        opt_chars(r) == field_get(pairs_map(pair_views(v@)), key@),
{
    let ghost pv = pair_views(v@);
    let mut i = v.len();
    assert(pv.take(i as int) =~= pv);
    while i > 0
        invariant
            i <= v.len(),
            pv == pair_views(v@),
            field_get(pairs_map(pv), key@) == field_get(pairs_map(pv.take(i as int)), key@),
        decreases i,
    {
        assert(pv.take(i as int).drop_last() =~= pv.take(i - 1));
        assert(pv.take(i as int).last() == (v@[i - 1].0@, v@[i - 1].1@));
        if str_eq(string_from_chars(&v[i - 1].0).as_str(), key) {
            return Some(copy_chars(&v[i - 1].1));
        }
        i -= 1;
    }
    assert(pv.take(0) =~= Seq::<(Seq<char>, Seq<char>)>::empty());
    None
}

/// A field's value, trimmed, when it is not empty.
pub open spec fn trimmed_field(f: Map<Seq<char>, Seq<char>>, k: Seq<char>) -> Option<Seq<char>> {
    match field_get(f, k) {
        Some(v) => if trim(v).len() > 0 { Some(trim(v)) } else { None },
        None => None,
    }
}

pub open spec fn u32_field(f: Map<Seq<char>, Seq<char>>, k: Seq<char>) -> Option<u32> {
    match field_get(f, k) {
        Some(v) => parse_u32_spec(trim(v)),
        None => None,
    }
}

/// The first word that is a `u32`.
pub open spec fn first_number(ws: Seq<Seq<char>>) -> Option<u32>
    decreases ws.len(),
{
    if ws.len() == 0 {
        None
    } else {
        match parse_u32_spec(ws[0]) {
            Some(n) => Some(n),
            None => first_number(ws.drop_first()),
        }
    }
}

/// Bus, device and function of a `PCI bus X, device Y, function Z` location:
/// each comma-separated part, lower-cased, names the first of the three it
/// mentions and gives its first number; a later part overrides an earlier.
pub open spec fn location_fold(parts: Seq<Seq<char>>) -> (JsonV, JsonV, JsonV)
    decreases parts.len(),
{
    if parts.len() == 0 {
        (JsonV::Null, JsonV::Null, JsonV::Null)
    } else {
        let (bus, device, function) = location_fold(parts.drop_last());
        let p = unicode_lower(trim(parts.last()));
        let n = first_number(words(p));
        if contains_seq(p, "bus"@) {
            match n {
                Some(v) => (JsonV::Number(NumberV::Unsigned(v as u64)), device, function),
                None => (bus, device, function),
            }
        } else if contains_seq(p, "device"@) {
            match n {
                Some(v) => (bus, JsonV::Number(NumberV::Unsigned(v as u64)), function),
                None => (bus, device, function),
            }
        } else if contains_seq(p, "function"@) {
            match n {
                Some(v) => (bus, device, JsonV::Number(NumberV::Unsigned(v as u64))),
                None => (bus, device, function),
            }
        } else {
            (bus, device, function)
        }
    }
}

pub open spec fn opt_text_json(o: Option<Seq<char>>) -> JsonV {
    match o {
        Some(t) => JsonV::Str(t),
        None => JsonV::Null,
    }
}

/// A controller's location object, `null` without a location.
pub open spec fn location_spec(f: Map<Seq<char>, Seq<char>>) -> JsonV {
    match trimmed_field(f, "LocationInformation"@) {
        Some(loc) => {
            let (bus, device, function) = location_fold(split_on(loc, ','));
            JsonV::Object(seq![
                ("bus"@, bus),
                ("device"@, device),
                ("function"@, function),
                ("description"@, JsonV::Str(loc)),
            ])
        },
        None => JsonV::Null,
    }
}

/// `WIDTHxHEIGHT` when both are known.
pub open spec fn resolution_spec(f: Map<Seq<char>, Seq<char>>) -> JsonV {
    match (u32_field(f, "CurrentHorizontalResolution"@), u32_field(f, "CurrentVerticalResolution"@)) {
        (Some(a), Some(b)) => JsonV::Str(decimal(a as nat) + "x"@ + decimal(b as nat)),
        _ => JsonV::Null,
    }
}

pub open spec fn adapter_name(f: Map<Seq<char>, Seq<char>>) -> Seq<char> {
    match field_get(f, "Name"@) {
        Some(v) => trim(v),
        None => Seq::empty(),
    }
}

pub open spec fn adapter_members(f: Map<Seq<char>, Seq<char>>) -> Seq<(Seq<char>, JsonV)> {
    seq![
        ("name"@, JsonV::Str(adapter_name(f))),
        ("adapter_ram_bytes"@, u64_or_null(match field_get(f, "AdapterRAM"@) {
            Some(r) => parse_u64_spec(trim(r)),
            None => None,
        })),
        ("driver_version"@, opt_text_json(trimmed_field(f, "DriverVersion"@))),
        ("driver_date"@, opt_text_json(trimmed_field(f, "DriverDate"@))),
        ("manufacturer"@, opt_text_json(trimmed_field(f, "AdapterCompatibility"@))),
        ("video_processor"@, opt_text_json(trimmed_field(f, "VideoProcessor"@))),
        ("current_resolution"@, resolution_spec(f)),
        ("current_refresh_rate_hz"@, u32_or_null(u32_field(f, "CurrentRefreshRate"@))),
        ("status"@, opt_text_json(trimmed_field(f, "Status"@))),
        ("physical_location"@, location_spec(f)),
        ("source"@, JsonV::Str("cim"@)),
    ]
}

/// A video controller's object, none when it has no name; its PnP device
/// id comes last when it has one.
pub open spec fn adapter_json(f: Map<Seq<char>, Seq<char>>) -> Option<JsonV> {
    if adapter_name(f).len() == 0 {
        None
    } else {
        Some(JsonV::Object(match trimmed_field(f, "PNPDeviceID"@) {
            Some(p) => adapter_members(f).push(("pnp_device_id"@, JsonV::Str(p))),
            None => adapter_members(f),
        }))
    }
}

pub open spec fn flushed(ads: Seq<JsonV>, f: Map<Seq<char>, Seq<char>>) -> Seq<JsonV> {
    match adapter_json(f) {
        Some(j) => ads.push(j),
        None => ads,
    }
}

/// Blank lines end a controller; `key=value` lines give its fields.
pub open spec fn adapters_fold(lines: Seq<Seq<char>>) -> (Seq<JsonV>, Seq<(Seq<char>, Seq<char>)>)
    decreases lines.len(),
{
    if lines.len() == 0 {
        (Seq::empty(), Seq::empty())
    } else {
        let (ads, fields) = adapters_fold(lines.drop_last());
        let l = lines.last();
        if l.len() == 0 {
            (flushed(ads, pairs_map(fields)), Seq::empty())
        } else {
            match split_once(l, '=') {
                Some((k, v)) => (ads, fields.push((trim(k), v))),
                None => (ads, fields),
            }
        }
    }
}

/// The video controllers report: every controller with a name.
pub open spec fn adapters_spec(lines: Seq<Seq<char>>) -> Seq<JsonV> {
    let (ads, fields) = adapters_fold(lines);
    flushed(ads, pairs_map(fields))
}

fn trimmed_field_of(f: &Vec<(Vec<char>, Vec<char>)>, key: &str) -> (r: Option<Vec<char>>)
    ensures
        opt_chars(r) == trimmed_field(pairs_map(pair_views(f@)), key@),
{
    match pairs_get(f, key) {
        Some(v) => {
            let t = chars_trim(&v);
            if t.len() > 0 { Some(t) } else { None }
        },
        None => None,
    }
}

fn u32_field_of(f: &Vec<(Vec<char>, Vec<char>)>, key: &str) -> (r: Option<u32>)
    ensures
        r == u32_field(pairs_map(pair_views(f@)), key@),
{
    match pairs_get(f, key) {
        Some(v) => parse_u32(&chars_trim(&v)),
        None => None,
    }
}

fn first_number_of(ws: &Vec<Vec<char>>) -> (r: Option<u32>)
    ensures
        r == first_number(views(ws@)),
{
    let ghost wv = views(ws@);
    assert(wv.skip(0) =~= wv);
    for i in 0..ws.len()
        invariant
            wv == views(ws@),
            first_number(wv) == first_number(wv.skip(i as int)),
    {
        assert(wv.skip(i as int)[0] == ws@[i as int]@);
        assert(wv.skip(i as int).drop_first() =~= wv.skip(i + 1));
        match parse_u32(&ws[i]) {
            Some(n) => {
                return Some(n);
            },
            None => {},
        }
    }
    assert(wv.skip(ws.len() as int) =~= Seq::<Seq<char>>::empty());
    None
}

fn number_json(n: u32) -> (r: Json)
    ensures
        r.view() == JsonV::Number(NumberV::Unsigned(n as u64)),
{
    Json::Number(JsonNumber::Unsigned(n as u64))
}

fn location_json(loc: &Vec<char>) -> (r: Json)
    ensures
        ({
            let (bus, device, function) = location_fold(split_on(loc@, ','));
            r.view() == JsonV::Object(seq![
                ("bus"@, bus),
                ("device"@, device),
                ("function"@, function),
                ("description"@, JsonV::Str(loc@)),
            ])
        }),
{
    let parts = split_chars(loc, ',');
    let ghost pv = views(parts@);
    let mut bus = Json::Null;
    let mut device = Json::Null;
    let mut function = Json::Null;
    for i in 0..parts.len()
        invariant
            pv == views(parts@),
            pv == split_on(loc@, ','),
            location_fold(pv.take(i as int)) == (bus.view(), device.view(), function.view()),
    {
        assert(pv.take(i + 1).drop_last() =~= pv.take(i as int));
        assert(pv.take(i + 1).last() == parts@[i as int]@);
        let t = chars_trim(&parts[i]);
        let lowered = to_lowercase(string_from_chars(&t).as_str());
        let p = chars_of(lowered.as_str());
        let n = first_number_of(&split_words(&p));
        if chars_contains_seq(&p, &chars_of("bus")) {
            if let Some(v) = n {
                bus = number_json(v);
            }
        } else if chars_contains_seq(&p, &chars_of("device")) {
            if let Some(v) = n {
                device = number_json(v);
            }
        } else if chars_contains_seq(&p, &chars_of("function")) {
            if let Some(v) = n {
                function = number_json(v);
            }
        }
    }
    assert(pv.take(parts.len() as int) =~= pv);
    let ghost spec = location_fold(pv);
    let mut ms: Vec<(String, Json)> = Vec::new();
    push_member(&mut ms, "bus", bus);
    push_member(&mut ms, "device", device);
    push_member(&mut ms, "function", function);
    push_member(&mut ms, "description", Json::Str(string_from_chars(loc)));
    assert(view_members(ms@) =~= seq![
        ("bus"@, spec.0),
        ("device"@, spec.1),
        ("function"@, spec.2),
        ("description"@, JsonV::Str(loc@)),
    ]);
    Json::Object(ms)
}

fn opt_text_to_json(o: Option<Vec<char>>) -> (r: Json)
    ensures
        r.view() == opt_text_json(opt_chars(o)),
{
    match o {
        Some(t) => Json::Str(string_from_chars(&t)),
        None => Json::Null,
    }
}

fn flush_adapter(out: &mut Vec<Json>, fields: &Vec<(Vec<char>, Vec<char>)>)
    ensures
        view_items(final(out)@) == flushed(view_items(old(out)@), pairs_map(pair_views(fields@))),
{
    let ghost f = pairs_map(pair_views(fields@));
    let name = match pairs_get(fields, "Name") {
        Some(v) => chars_trim(&v),
        None => Vec::new(),
    };
    if name.len() == 0 {
        return;
    }
    let ram = match pairs_get(fields, "AdapterRAM") {
        Some(v) => parse_u64(&chars_trim(&v)),
        None => None,
    };
    let h = u32_field_of(fields, "CurrentHorizontalResolution");
    let v = u32_field_of(fields, "CurrentVerticalResolution");
    let resolution = match (h, v) {
        (Some(a), Some(b)) => {
            let mut t = u64_decimal(a as u64);
            t.push('x');
            let bd = u64_decimal(b as u64);
            crate::text::push_all(&mut t, &bd);
            proof {
                reveal_strlit("x");
            }
            assert(t@ =~= decimal(a as nat) + "x"@ + decimal(b as nat));
            Json::Str(string_from_chars(&t))
        },
        _ => Json::Null,
    };
    let location = match trimmed_field_of(fields, "LocationInformation") {
        Some(loc) => location_json(&loc),
        None => Json::Null,
    };
    let mut ms: Vec<(String, Json)> = Vec::new();
    push_member(&mut ms, "name", Json::Str(string_from_chars(&name)));
    push_member(&mut ms, "adapter_ram_bytes", u64_json(ram));
    push_member(&mut ms, "driver_version", opt_text_to_json(trimmed_field_of(fields, "DriverVersion")));
    push_member(&mut ms, "driver_date", opt_text_to_json(trimmed_field_of(fields, "DriverDate")));
    push_member(&mut ms, "manufacturer", opt_text_to_json(trimmed_field_of(fields, "AdapterCompatibility")));
    push_member(&mut ms, "video_processor", opt_text_to_json(trimmed_field_of(fields, "VideoProcessor")));
    push_member(&mut ms, "current_resolution", resolution);
    push_member(&mut ms, "current_refresh_rate_hz", u32_json(u32_field_of(fields, "CurrentRefreshRate")));
    push_member(&mut ms, "status", opt_text_to_json(trimmed_field_of(fields, "Status")));
    push_member(&mut ms, "physical_location", location);
    push_member(&mut ms, "source", Json::Str(string_from_str("cim")));
    assert(location.view() == location_spec(f));
    assert(view_members(ms@) =~= adapter_members(f));
    match trimmed_field_of(fields, "PNPDeviceID") {
        Some(p) => push_member(&mut ms, "pnp_device_id", Json::Str(string_from_chars(&p))),
        None => {},
    }
    push_item(out, Json::Object(ms));
}

/// The video controllers report.
pub fn gpu_adapters_json(report: &str) -> (r: Vec<Json>)
    ensures
        view_items(r@) == adapters_spec(report_lines(report@)),
{
    let lines = report_lines_of(report);
    let ghost lv = views(lines@);
    let mut out: Vec<Json> = Vec::new();
    let mut fields: Vec<(Vec<char>, Vec<char>)> = Vec::new();
    for i in 0..lines.len()
        invariant
            lv == views(lines@),
            adapters_fold(lv.take(i as int)) == (view_items(out@), pair_views(fields@)),
    {
        assert(lv.take(i + 1).drop_last() =~= lv.take(i as int));
        assert(lv.take(i + 1).last() == lines@[i as int]@);
        if lines[i].len() == 0 {
            flush_adapter(&mut out, &fields);
            fields = Vec::new();
            assert(pair_views(fields@) =~= Seq::<(Seq<char>, Seq<char>)>::empty());
        } else {
            match chars_split_once(&lines[i], '=') {
                Some((k, v)) => {
                    let ghost before = pair_views(fields@);
                    let kt = chars_trim(&k);
                    fields.push((kt, v));
                    assert(pair_views(fields@) =~= before.push((trim(k@), v@)));
                },
                None => {},
            }
        }
    }
    assert(lv.take(lines.len() as int) =~= lv);
    flush_adapter(&mut out, &fields);
    out
}

// ---------------------------------------------------------------------------
// The connected Wi-Fi network
// ---------------------------------------------------------------------------

/// A `key : value` line, both sides trimmed (split at the first `:`).
pub open spec fn colon_entry(l: Seq<char>) -> Option<(Seq<char>, Seq<char>)> {
    match split_once(l, ':') {
        Some((k, v)) => Some((trim(k), trim(v))),
        None => None,
    }
}

/// The value of the last line whose key is one of `a`, `b`, `c`.
pub open spec fn last_colon(lines: Seq<Seq<char>>, a: Seq<char>, b: Seq<char>, c: Seq<char>) -> Option<Seq<char>>
    decreases lines.len(),
{
    if lines.len() == 0 {
        None
    } else {
        match colon_entry(lines.last()) {
            Some((k, v)) => if k == a || k == b || k == c {
                Some(v)
            } else {
                last_colon(lines.drop_last(), a, b, c)
            },
            None => last_colon(lines.drop_last(), a, b, c),
        }
    }
}

/// The first non-empty value of a line whose key is `a` or `b`.
pub open spec fn first_nonempty_colon(lines: Seq<Seq<char>>, a: Seq<char>, b: Seq<char>) -> Option<Seq<char>>
    decreases lines.len(),
{
    if lines.len() == 0 {
        None
    } else {
        match colon_entry(lines[0]) {
            Some((k, v)) => if (k == a || k == b) && v.len() > 0 {
                Some(v)
            } else {
                first_nonempty_colon(lines.drop_first(), a, b)
            },
            None => first_nonempty_colon(lines.drop_first(), a, b),
        }
    }
}

/// The text without its trailing run of `c`.
pub open spec fn trim_trailing(s: Seq<char>, c: char) -> Seq<char>
    decreases s.len(),
{
    if s.len() > 0 && s.last() == c { trim_trailing(s.drop_last(), c) } else { s }
}

/// The text without every trailing ` Mbps`.
pub open spec fn trim_mbps(s: Seq<char>) -> Seq<char>
    decreases s.len(),
{
    if s.len() >= 5 && ends_with(s, " Mbps"@) { trim_mbps(s.take(s.len() - 5)) } else { s }
}

pub open spec fn or_empty(o: Option<Seq<char>>) -> Seq<char> {
    match o {
        Some(t) => t,
        None => Seq::empty(),
    }
}

/// The band a radio type suggests, when none is given.
pub open spec fn band_for(radio: Seq<char>) -> Seq<char> {
    let r = lower_seq(radio);
    if contains_seq(r, "ac"@) || contains_seq(r, "ax"@) || contains_seq(r, "5"@) {
        "5 GHz"@
    } else if contains_seq(r, "n"@) {
        "2.4 GHz or 5 GHz"@
    } else if contains_seq(r, "g"@) || contains_seq(r, "b"@) {
        "2.4 GHz"@
    } else {
        Seq::empty()
    }
}

pub open spec fn quality_spec(pct: u32) -> Seq<char> {
    if pct >= 80 {
        "excellent"@
    } else if pct >= 60 {
        "good"@
    } else if pct >= 40 {
        "fair"@
    } else if pct >= 20 {
        "weak"@
    } else {
        "very_weak"@
    }
}

/// The text of the last receive-rate line (in Mbps), for the caller to read
/// as a number.
pub open spec fn receive_rate_text(lines: Seq<Seq<char>>) -> Option<Seq<char>> {
    match last_colon(lines, "Receive rate (Mbps)"@, "receive rate (Mbps)"@, "Receive rate"@) {
        Some(v) => Some(trim(trim_mbps(v))),
        None => None,
    }
}

pub open spec fn transmit_rate_text(lines: Seq<Seq<char>>) -> Option<Seq<char>> {
    match last_colon(lines, "Transmit rate (Mbps)"@, "transmit rate (Mbps)"@, "Transmit rate"@) {
        Some(v) => Some(trim(trim_mbps(v))),
        None => None,
    }
}

/// What `netsh wlan show interfaces` says of the connected network: the
/// SSID (the first one given), the last value of every other field, whether
/// the state says connected, the band (guessed from the radio type when not
/// given) and the signal's quality; the two rates are given.
pub open spec fn wifi_connected_spec(lines: Seq<Seq<char>>, receive: JsonV, transmit: JsonV) -> JsonV {
    let state = or_empty(last_colon(lines, "State"@, "state"@, "state"@));
    let sl = lower_seq(state);
    let radio = or_empty(last_colon(lines, "Radio type"@, "radio type"@, "Radio Type"@));
    let band0 = or_empty(last_colon(lines, "Band"@, "band"@, "band"@));
    let band = if band0.len() == 0 && radio.len() > 0 { band_for(radio) } else { band0 };
    let signal = match last_colon(lines, "Signal"@, "signal"@, "signal"@) {
        Some(v) => parse_u32_spec(trim(trim_trailing(v, '%'))),
        None => None,
    };
    let channel = match last_colon(lines, "Channel"@, "channel"@, "channel"@) {
        Some(v) => parse_u32_spec(v),
        None => None,
    };
    JsonV::Object(seq![
        ("is_connected"@, JsonV::Bool(contains_seq(sl, "connected"@) && !contains_seq(sl, "disconnected"@))),
        ("ssid"@, nonempty_or_null(or_empty(first_nonempty_colon(lines, "SSID"@, "ssid"@)))),
        ("bssid"@, nonempty_or_null(or_empty(last_colon(lines, "BSSID"@, "bssid"@, "bssid"@)))),
        ("signal_percent"@, u32_or_null(signal)),
        ("signal_quality"@, match signal {
            Some(p) => JsonV::Str(quality_spec(p)),
            None => JsonV::Null,
        }),
        ("radio_type"@, nonempty_or_null(radio)),
        ("band"@, nonempty_or_null(band)),
        ("channel"@, u32_or_null(channel)),
        ("authentication"@, nonempty_or_null(or_empty(last_colon(lines, "Authentication"@, "authentication"@, "authentication"@)))),
        ("cipher"@, nonempty_or_null(or_empty(last_colon(lines, "Cipher"@, "cipher"@, "cipher"@)))),
        ("receive_rate_mbps"@, receive),
        ("transmit_rate_mbps"@, transmit),
        ("profile"@, nonempty_or_null(or_empty(last_colon(lines, "Profile"@, "profile"@, "profile"@)))),
        ("interface_name"@, nonempty_or_null(or_empty(last_colon(lines, "Name"@, "name"@, "name"@)))),
        ("interface_type"@, nonempty_or_null(or_empty(last_colon(lines, "Type"@, "type"@, "type"@)))),
        ("state"@, nonempty_or_null(state)),
    ])
}

fn colon_entry_of(l: &Vec<char>) -> (r: Option<(Vec<char>, Vec<char>)>)
    ensures
        match colon_entry(l@) {
            Some(e) => r matches Some(p) && p.0@ == e.0 && p.1@ == e.1,
            None => r is None,
        },
{
    match chars_split_once(l, ':') {
        Some((k, v)) => Some((chars_trim(&k), chars_trim(&v))),
        None => None,
    }
}

fn last_colon_of(lines: &Vec<Vec<char>>, a: &str, b: &str, c: &str) -> (r: Option<Vec<char>>)
    ensures
        opt_chars(r) == last_colon(views(lines@), a@, b@, c@),
{
    let ghost lv = views(lines@);
    let mut i = lines.len();
    assert(lv.take(i as int) =~= lv);
    while i > 0
        invariant
            i <= lines.len(),
            lv == views(lines@),
            last_colon(lv, a@, b@, c@) == last_colon(lv.take(i as int), a@, b@, c@),
        decreases i,
    {
        assert(lv.take(i as int).drop_last() =~= lv.take(i - 1));
        assert(lv.take(i as int).last() == lines@[i - 1]@);
        match colon_entry_of(&lines[i - 1]) {
            Some((k, v)) => {
                let ks = string_from_chars(&k);
                if str_eq(ks.as_str(), a) || str_eq(ks.as_str(), b) || str_eq(ks.as_str(), c) {
                    return Some(v);
                }
            },
            None => {},
        }
        i -= 1;
    }
    assert(lv.take(0) =~= Seq::<Seq<char>>::empty());
    None
}

fn first_nonempty_colon_of(lines: &Vec<Vec<char>>, a: &str, b: &str) -> (r: Option<Vec<char>>)
    ensures
        opt_chars(r) == first_nonempty_colon(views(lines@), a@, b@),
{
    let ghost lv = views(lines@);
    assert(lv.skip(0) =~= lv);
    for i in 0..lines.len()
        invariant
            lv == views(lines@),
            first_nonempty_colon(lv, a@, b@) == first_nonempty_colon(lv.skip(i as int), a@, b@),
    {
        assert(lv.skip(i as int)[0] == lines@[i as int]@);
        assert(lv.skip(i as int).drop_first() =~= lv.skip(i + 1));
        match colon_entry_of(&lines[i]) {
            Some((k, v)) => {
                let ks = string_from_chars(&k);
                if (str_eq(ks.as_str(), a) || str_eq(ks.as_str(), b)) && v.len() > 0 {
                    return Some(v);
                }
            },
            None => {},
        }
    }
    assert(lv.skip(lines.len() as int) =~= Seq::<Seq<char>>::empty());
    None
}

fn trim_trailing_of(s: &Vec<char>, c: char) -> (r: Vec<char>)
    ensures
        r@ == trim_trailing(s@, c),
{
    let mut n = s.len();
    assert(s@.take(n as int) =~= s@);
    while n > 0 && s[n - 1] == c
        invariant
            n <= s.len(),
            trim_trailing(s@, c) == trim_trailing(s@.take(n as int), c),
        decreases n,
    {
        assert(s@.take(n as int).drop_last() =~= s@.take(n - 1));
        n -= 1;
    }
    let r = slice_chars(s, 0, n);
    assert(r@ =~= s@.take(n as int));
    r
}

fn trim_mbps_of(s: &Vec<char>) -> (r: Vec<char>)
    ensures
        r@ == trim_mbps(s@),
{
    let suffix = chars_of(" Mbps");
    let mut cs = copy_chars(s);
    while cs.len() >= 5 && chars_ends_with(&cs, &suffix)
        invariant
            suffix@ == " Mbps"@,
            trim_mbps(cs@) == trim_mbps(s@),
        decreases cs.len(),
    {
        let ghost before = cs@;
        let n = cs.len() - 5;
        cs = slice_chars(&cs, 0, n);
        assert(cs@ =~= before.take(n as int));
    }
    cs
}

fn rate_text(lines: &Vec<Vec<char>>, a: &str, b: &str, c: &str) -> (r: Option<String>)
    ensures
        opt_text_view(r) == match last_colon(views(lines@), a@, b@, c@) {
            Some(v) => Some(trim(trim_mbps(v))),
            None => None,
        },
{
    match last_colon_of(lines, a, b, c) {
        Some(v) => Some(string_from_chars(&chars_trim(&trim_mbps_of(&v)))),
        None => None,
    }
}

/// The receive and transmit rate texts of the connected network's report.
pub fn wifi_rate_texts(output: &str) -> (r: (Option<String>, Option<String>))
    ensures
        opt_text_view(r.0) == receive_rate_text(report_lines(output@)),
        opt_text_view(r.1) == transmit_rate_text(report_lines(output@)),
{
    let lines = report_lines_of(output);
    (
        rate_text(&lines, "Receive rate (Mbps)", "receive rate (Mbps)", "Receive rate"),
        rate_text(&lines, "Transmit rate (Mbps)", "transmit rate (Mbps)", "Transmit rate"),
    )
}

fn contains_text(hay: &Vec<char>, needle: &str) -> (r: bool)
    ensures
        r == contains_seq(hay@, needle@),
{
    chars_contains_seq(hay, &chars_of(needle))
}

fn band_for_of(radio: &Vec<char>) -> (r: Vec<char>)
    ensures
        r@ == band_for(radio@),
{
    let r = lower_chars(radio);
    if contains_text(&r, "ac") || contains_text(&r, "ax") || contains_text(&r, "5") {
        chars_of("5 GHz")
    } else if contains_text(&r, "n") {
        chars_of("2.4 GHz or 5 GHz")
    } else if contains_text(&r, "g") || contains_text(&r, "b") {
        chars_of("2.4 GHz")
    } else {
        Vec::new()
    }
}

fn quality_name(pct: u32) -> (r: &'static str)
    ensures
        r@ == quality_spec(pct),
{
    if pct >= 80 {
        "excellent"
    } else if pct >= 60 {
        "good"
    } else if pct >= 40 {
        "fair"
    } else if pct >= 20 {
        "weak"
    } else {
        "very_weak"
    }
}

fn colon_text(lines: &Vec<Vec<char>>, a: &str, b: &str, c: &str) -> (r: Vec<char>)
    ensures
        r@ == or_empty(last_colon(views(lines@), a@, b@, c@)),
{
    match last_colon_of(lines, a, b, c) {
        Some(v) => v,
        None => Vec::new(),
    }
}

/// The connected network's report, with the receive and transmit rates given
/// (read by the caller from `wifi_rate_texts`).
pub fn wifi_connected_json(output: &str, receive: Json, transmit: Json) -> (r: Json)
    ensures
        r.view() == wifi_connected_spec(report_lines(output@), receive.view(), transmit.view()),
{
    let lines = report_lines_of(output);
    let ghost lv = views(lines@);
    let ghost rv = receive.view();
    let ghost tv = transmit.view();
    let state = colon_text(&lines, "State", "state", "state");
    let sl = lower_chars(&state);
    let connected = contains_text(&sl, "connected") && !contains_text(&sl, "disconnected");
    let radio = colon_text(&lines, "Radio type", "radio type", "Radio Type");
    let band0 = colon_text(&lines, "Band", "band", "band");
    let band = if band0.len() == 0 && radio.len() > 0 { band_for_of(&radio) } else { band0 };
    let signal = match last_colon_of(&lines, "Signal", "signal", "signal") {
        Some(v) => parse_u32(&chars_trim(&trim_trailing_of(&v, '%'))),
        None => None,
    };
    let channel = match last_colon_of(&lines, "Channel", "channel", "channel") {
        Some(v) => parse_u32(&v),
        None => None,
    };
    let ssid = match first_nonempty_colon_of(&lines, "SSID", "ssid") {
        Some(v) => v,
        None => Vec::new(),
    };
    let quality = match signal {
        Some(p) => Json::Str(string_from_str(quality_name(p))),
        None => Json::Null,
    };
    let mut ms: Vec<(String, Json)> = Vec::new();
    push_member(&mut ms, "is_connected", Json::Bool(connected));
    push_member(&mut ms, "ssid", plain_to_json(&ssid));
    push_member(&mut ms, "bssid", plain_to_json(&colon_text(&lines, "BSSID", "bssid", "bssid")));
    push_member(&mut ms, "signal_percent", u32_json(signal));
    push_member(&mut ms, "signal_quality", quality);
    push_member(&mut ms, "radio_type", plain_to_json(&radio));
    push_member(&mut ms, "band", plain_to_json(&band));
    push_member(&mut ms, "channel", u32_json(channel));
    push_member(&mut ms, "authentication", plain_to_json(&colon_text(&lines, "Authentication", "authentication", "authentication")));
    push_member(&mut ms, "cipher", plain_to_json(&colon_text(&lines, "Cipher", "cipher", "cipher")));
    push_member(&mut ms, "receive_rate_mbps", receive);
    push_member(&mut ms, "transmit_rate_mbps", transmit);
    push_member(&mut ms, "profile", plain_to_json(&colon_text(&lines, "Profile", "profile", "profile")));
    push_member(&mut ms, "interface_name", plain_to_json(&colon_text(&lines, "Name", "name", "name")));
    push_member(&mut ms, "interface_type", plain_to_json(&colon_text(&lines, "Type", "type", "type")));
    push_member(&mut ms, "state", plain_to_json(&state));
    assert(view_members(ms@) =~= wifi_connected_spec(lv, rv, tv)->Object_0);
    Json::Object(ms)
}

// ---------------------------------------------------------------------------
// Memory counters
// ---------------------------------------------------------------------------

/// Memory the hardware keeps: installed memory beyond what the system sees
/// (its visible kilobytes, or `total_physical` when it does not say).
pub open spec fn hardware_reserved(lines: Seq<Seq<char>>, total_physical: u64) -> Option<nat> {
    match u64_value(lines, "TotalPhysicalMemory"@) {
        Some(installed) => {
            let visible: int = match u64_value(lines, "TotalVisibleMemorySize"@) {
                Some(kb) => kb * 1024,
                None => total_physical as int,
            };
            if installed > visible { Some((installed - visible) as nat) } else { None }
        },
        None => None,
    }
}

pub open spec fn counters_spec(lines: Seq<Seq<char>>, total_physical: u64, compressed_bytes: JsonV) -> JsonV {
    JsonV::Object(seq![
        ("hardware_reserved_bytes"@, number_or_null(hardware_reserved(lines, total_physical))),
        ("committed_bytes"@, u64_or_null(u64_value(lines, "CommittedBytes"@))),
        ("commit_limit_bytes"@, u64_or_null(u64_value(lines, "CommitLimit"@))),
        ("cached_bytes"@, u64_or_null(u64_value(lines, "CacheBytes"@))),
        ("paged_pool_bytes"@, u64_or_null(u64_value(lines, "PoolPagedBytes"@))),
        ("non_paged_pool_bytes"@, u64_or_null(u64_value(lines, "PoolNonpagedBytes"@))),
        ("compressed_bytes"@, compressed_bytes),
    ])
}

/// The text of the compressed-pages counter (a number the caller reads).
pub fn compressed_pages_text(report: &str) -> (r: Option<String>)
    ensures
        opt_text_view(r) == last_value(report_lines(report@), "CompressedPages"@),
{
    let lines = report_lines_of(report);
    match last_value_of(&lines, "CompressedPages") {
        Some(v) => Some(string_from_chars(&v)),
        None => None,
    }
}

/// The system's visible memory, in kilobytes, as the counters report gives it.
pub fn visible_memory_kb(report: &str) -> (r: Option<u64>)
    ensures
        r == u64_value(report_lines(report@), "TotalVisibleMemorySize"@),
{
    let lines = report_lines_of(report);
    u64_value_of(&lines, "TotalVisibleMemorySize")
}

/// The memory counters report, with the machine's physical memory and the
/// compressed memory (worked out by the caller) given.
pub fn memory_counters_json(report: &str, total_physical: u64, compressed_bytes: Json) -> (r: Json)
    requires
        u64_value(report_lines(report@), "TotalVisibleMemorySize"@) matches Some(kb) ==> kb * 1024 <= u64::MAX,
    ensures
        r.view() == counters_spec(report_lines(report@), total_physical, compressed_bytes.view()),
{
    let lines = report_lines_of(report);
    let ghost lv = views(lines@);
    let ghost cv = compressed_bytes.view();
    let reserved = match u64_value_of(&lines, "TotalPhysicalMemory") {
        Some(installed) => {
            let visible = match u64_value_of(&lines, "TotalVisibleMemorySize") {
                Some(kb) => kb * 1024,
                None => total_physical,
            };
            if installed > visible { Some(installed - visible) } else { None }
        },
        None => None,
    };
    let mut ms: Vec<(String, Json)> = Vec::new();
    push_member(&mut ms, "hardware_reserved_bytes", u64_json(reserved));
    push_member(&mut ms, "committed_bytes", u64_json(u64_value_of(&lines, "CommittedBytes")));
    push_member(&mut ms, "commit_limit_bytes", u64_json(u64_value_of(&lines, "CommitLimit")));
    push_member(&mut ms, "cached_bytes", u64_json(u64_value_of(&lines, "CacheBytes")));
    push_member(&mut ms, "paged_pool_bytes", u64_json(u64_value_of(&lines, "PoolPagedBytes")));
    push_member(&mut ms, "non_paged_pool_bytes", u64_json(u64_value_of(&lines, "PoolNonpagedBytes")));
    push_member(&mut ms, "compressed_bytes", compressed_bytes);
    assert(view_members(ms@) =~= counters_spec(lv, total_physical, cv)->Object_0);
    Json::Object(ms)
}

// ---------------------------------------------------------------------------
// Processor details
// ---------------------------------------------------------------------------

/// A `true`/`false` setting (ASCII case ignored).
pub open spec fn true_value(lines: Seq<Seq<char>>, key: Seq<char>) -> Option<bool> {
    match last_value(lines, key) {
        Some(v) => Some(eq_ignore_case(v, "true"@)),
        None => None,
    }
}

fn true_value_of(lines: &Vec<Vec<char>>, key: &str) -> (r: Option<bool>)
    ensures
        r == true_value(views(lines@), key@),
{
    match last_value_of(lines, key) {
        Some(v) => Some(is_true_text(&v)),
        None => None,
    }
}

/// Virtualization: enabled when the firmware or the monitor-mode
/// extensions say so, disabled when the firmware says not.
pub open spec fn virtualization_spec(firmware: Option<bool>, extensions: Option<bool>) -> JsonV {
    if firmware == Some(true) || extensions == Some(true) {
        JsonV::Str("Enabled"@)
    } else if firmware == Some(false) {
        JsonV::Str("Disabled"@)
    } else {
        JsonV::Null
    }
}

pub open spec fn cpu_details_spec(lines: Seq<Seq<char>>) -> JsonV {
    let clock = u64_or_null(u64_value(lines, "MaxClockSpeed"@));
    JsonV::Object(seq![
        ("base_frequency_mhz"@, clock),
        ("max_frequency_mhz"@, clock),
        ("sockets"@, JsonV::Number(NumberV::Unsigned(match u64_value(lines, "Sockets"@) {
            Some(n) => n,
            None => 1,
        }))),
        ("socket_designation"@, opt_text_json(last_value(lines, "SocketDesignation"@))),
        ("l1_cache_kb"@, u64_or_null(u64_value(lines, "L1Total"@))),
        ("l2_cache_kb"@, u64_or_null(u64_value(lines, "L2CacheSize"@))),
        ("l3_cache_kb"@, u64_or_null(u64_value(lines, "L3CacheSize"@))),
        ("virtualization"@, virtualization_spec(
            true_value(lines, "VirtualizationFirmwareEnabled"@),
            true_value(lines, "VMMonitorModeExtensions"@),
        )),
        ("handle_count"@, u64_or_null(u64_value(lines, "TotalHandles"@))),
        ("thread_count"@, u64_or_null(u64_value(lines, "TotalThreads"@))),
        ("manufacturer"@, opt_text_json(last_value(lines, "Manufacturer"@))),
        ("stepping"@, opt_text_json(last_value(lines, "Stepping"@))),
    ])
}

/// The processor details report: clock, sockets (1 when not given), caches,
/// virtualization, handle and thread counts, maker and stepping.
pub fn cpu_details_json(report: &str) -> (r: Json)
    ensures
        r.view() == cpu_details_spec(report_lines(report@)),
{
    let lines = report_lines_of(report);
    let ghost lv = views(lines@);
    let clock = u64_value_of(&lines, "MaxClockSpeed");
    let sockets = match u64_value_of(&lines, "Sockets") {
        Some(n) => n,
        None => 1,
    };
    let firmware = true_value_of(&lines, "VirtualizationFirmwareEnabled");
    let extensions = true_value_of(&lines, "VMMonitorModeExtensions");
    let virtualization = if firmware == Some(true) || extensions == Some(true) {
        Json::Str(string_from_str("Enabled"))
    } else if firmware == Some(false) {
        Json::Str(string_from_str("Disabled"))
    } else {
        Json::Null
    };
    let mut ms: Vec<(String, Json)> = Vec::new();
    push_member(&mut ms, "base_frequency_mhz", u64_json(clock));
    push_member(&mut ms, "max_frequency_mhz", u64_json(clock));
    push_member(&mut ms, "sockets", Json::Number(JsonNumber::Unsigned(sockets)));
    push_member(&mut ms, "socket_designation", opt_text_to_json(last_value_of(&lines, "SocketDesignation")));
    push_member(&mut ms, "l1_cache_kb", u64_json(u64_value_of(&lines, "L1Total")));
    push_member(&mut ms, "l2_cache_kb", u64_json(u64_value_of(&lines, "L2CacheSize")));
    push_member(&mut ms, "l3_cache_kb", u64_json(u64_value_of(&lines, "L3CacheSize")));
    push_member(&mut ms, "virtualization", virtualization);
    push_member(&mut ms, "handle_count", u64_json(u64_value_of(&lines, "TotalHandles")));
    push_member(&mut ms, "thread_count", u64_json(u64_value_of(&lines, "TotalThreads")));
    push_member(&mut ms, "manufacturer", opt_text_to_json(last_value_of(&lines, "Manufacturer")));
    push_member(&mut ms, "stepping", opt_text_to_json(last_value_of(&lines, "Stepping")));
    assert(view_members(ms@) =~= cpu_details_spec(lv)->Object_0);
    Json::Object(ms)
}

// ---------------------------------------------------------------------------
// Bluetooth adapter
// ---------------------------------------------------------------------------

pub open spec fn bluetooth_adapter_spec(lines: Seq<Seq<char>>) -> JsonV {
    JsonV::Object(seq![
        ("present"@, JsonV::Bool(last_value(lines, "Present"@) == Some("true"@))),
        ("name"@, text_or_null(last_value(lines, "Name"@))),
        ("status"@, text_or_null(last_value(lines, "Status"@))),
        ("instance_id"@, text_or_null(last_value(lines, "InstanceId"@))),
    ])
}

/// The Bluetooth adapter report: whether one is present, its name, status
/// and instance id.
pub fn bluetooth_adapter_json(report: &str) -> (r: Json)
    ensures
        r.view() == bluetooth_adapter_spec(report_lines(report@)),
{
    let lines = report_lines_of(report);
    let present = match last_value_of(&lines, "Present") {
        Some(v) => {
            let t = string_from_chars(&v);
            str_eq(t.as_str(), "true")
        },
        None => false,
    };
    let mut ms: Vec<(String, Json)> = Vec::new();
    push_member(&mut ms, "present", Json::Bool(present));
    push_member(&mut ms, "name", text_member(&lines, "Name"));
    push_member(&mut ms, "status", text_member(&lines, "Status"));
    push_member(&mut ms, "instance_id", text_member(&lines, "InstanceId"));
    assert(view_members(ms@) =~= bluetooth_adapter_spec(views(lines@))->Object_0);
    Json::Object(ms)
}

// ---------------------------------------------------------------------------
// Volumes and the disks they are on
// ---------------------------------------------------------------------------

/// A mount point's drive letter: the mount without its trailing `\`, then
/// without its trailing `/`.
pub open spec fn mount_letter(mount: Seq<char>) -> Seq<char> {
    trim_trailing(trim_trailing(mount, '\\'), '/')
}

/// An item is the text `letter` (ASCII case ignored).
pub open spec fn is_letter(item: JsonV, letter: Seq<char>) -> bool {
    match item {
        JsonV::Str(t) => eq_ignore_case(t, letter),
        _ => false,
    }
}

/// Some item is the text `letter`.
pub open spec fn has_letter(ls: Seq<JsonV>, letter: Seq<char>) -> bool {
    exists|k: int| 0 <= k < ls.len() && is_letter(#[trigger] ls[k], letter)
}

/// A disk object lists `letter` among its drive letters.
pub open spec fn lists_letter(pd: JsonV, letter: Seq<char>) -> bool {
    match json_get(pd, "drive_letters"@) {
        Some(JsonV::Array(ls)) => has_letter(ls, letter),
        _ => false,
    }
}

/// The first physical disk that lists the mount's drive letter.
pub open spec fn disk_for_mount(pds: Seq<JsonV>, letter: Seq<char>) -> Option<int>
    decreases pds.len(),
{
    if pds.len() == 0 {
        None
    } else {
        match disk_for_mount(pds.drop_last(), letter) {
            Some(i) => Some(i),
            None => if lists_letter(pds.last(), letter) { Some(pds.len() - 1) } else { None },
        }
    }
}

fn lists_letter_of(pd: &Json, letter: &Vec<char>) -> (r: bool)
    ensures
        r == lists_letter(pd.view(), letter@),
{
    match get_member(pd, "drive_letters") {
        Some(Json::Array(ls)) => {
            let ghost lv = view_items(ls@);
            proof { lemma_view_items_len(ls@); }
            assert(json_get(pd.view(), "drive_letters"@) == Some(JsonV::Array(lv)));
            for k in 0..ls.len()
                invariant
                    lv == view_items(ls@),
                    lv.len() == ls.len(),
                    json_get(pd.view(), "drive_letters"@) == Some(JsonV::Array(lv)),
                    forall|j: int| 0 <= j < k ==> !is_letter(#[trigger] lv[j], letter@),
            {
                proof { lemma_view_items_index(ls@, k as int); }
                if let Json::Str(t) = &ls[k] {
                    if chars_eq_ignore_case(&chars_of(t.as_str()), letter) {
                        assert(is_letter(lv[k as int], letter@));
                        assert(has_letter(lv, letter@));
                        return true;
                    }
                }
            }
            false
        },
        _ => false,
    }
}

/// The position of the physical disk a mount point is on, if any.
pub fn physical_disk_for(physical: &Vec<Json>, mount: &str) -> (r: Option<usize>)
    ensures
        match disk_for_mount(view_items(physical@), mount_letter(mount@)) {
            Some(i) => r == Some(i as usize),
            None => r is None,
        },
{
    let letter = trim_trailing_of(&trim_trailing_of(&chars_of(mount), '\\'), '/');
    let ghost pv = view_items(physical@);
    proof { lemma_view_items_len(physical@); }
    let mut i: usize = 0;
    while i < physical.len()
        invariant
            i <= physical.len(),
            pv == view_items(physical@),
            pv.len() == physical.len(),
            letter@ == mount_letter(mount@),
            disk_for_mount(pv.take(i as int), letter@) is None,
        decreases physical.len() - i,
    {
        proof { lemma_view_items_index(physical@, i as int); }
        assert(pv.take(i + 1).drop_last() =~= pv.take(i as int));
        assert(pv.take(i + 1).last() == pv[i as int]);
        if lists_letter_of(&physical[i], &letter) {
            proof { lemma_disk_for_mount_prefix(pv, letter@, i + 1); }
            return Some(i);
        }
        i += 1;
    }
    assert(pv.take(physical.len() as int) =~= pv);
    None
}

proof fn lemma_disk_for_mount_prefix(pds: Seq<JsonV>, letter: Seq<char>, k: int)
    requires
        0 <= k <= pds.len(),
        disk_for_mount(pds.take(k), letter) is Some,
    ensures
        disk_for_mount(pds, letter) == disk_for_mount(pds.take(k), letter),
    decreases pds.len() - k,
{
    if k < pds.len() {
        assert(pds.drop_last().take(k) =~= pds.take(k));
        lemma_disk_for_mount_prefix(pds.drop_last(), letter, k);
    } else {
        assert(pds.take(k) =~= pds);
    }
}

/// One field copied from the disk, when it has it.
pub open spec fn copy_field(ms: Seq<(Seq<char>, JsonV)>, pd: JsonV, from: Seq<char>, to: Seq<char>) -> Seq<(Seq<char>, JsonV)> {
    match json_get(pd, from) {
        Some(v) => member_insert(ms, to, v),
        None => ms,
    }
}

/// A volume's entry with the disk's model, media and bus types, serial
/// number, firmware, number, capacity (as `physical_capacity_bytes`),
/// system and page-file marks and health, those the disk has.
pub open spec fn with_disk_fields(ms: Seq<(Seq<char>, JsonV)>, pd: JsonV) -> Seq<(Seq<char>, JsonV)> {
    let m1 = copy_field(ms, pd, "model"@, "model"@);
    let m2 = copy_field(m1, pd, "media_type"@, "media_type"@);
    let m3 = copy_field(m2, pd, "bus_type"@, "bus_type"@);
    let m4 = copy_field(m3, pd, "serial_number"@, "serial_number"@);
    let m5 = copy_field(m4, pd, "firmware_version"@, "firmware_version"@);
    let m6 = copy_field(m5, pd, "disk_number"@, "disk_number"@);
    let m7 = copy_field(m6, pd, "capacity_bytes"@, "physical_capacity_bytes"@);
    let m8 = copy_field(m7, pd, "system_disk"@, "system_disk"@);
    let m9 = copy_field(m8, pd, "page_file_disk"@, "page_file_disk"@);
    copy_field(m9, pd, "health_status"@, "health_status"@)
}

fn copy_field_of(ms: &mut Vec<(String, Json)>, pd: &Json, from: &str, to: &str)
    ensures
        view_members(final(ms)@) == copy_field(view_members(old(ms)@), pd.view(), from@, to@),
{
    match get_member(pd, from) {
        Some(v) => insert_member(ms, string_from_str(to), v.duplicate()),
        None => {},
    }
}

/// Adds the physical disk's fields to a volume's entry.
pub fn attach_disk_fields(entry: &mut Vec<(String, Json)>, pd: &Json)
    ensures
        view_members(final(entry)@) == with_disk_fields(view_members(old(entry)@), pd.view()),
{
    copy_field_of(entry, pd, "model", "model");
    copy_field_of(entry, pd, "media_type", "media_type");
    copy_field_of(entry, pd, "bus_type", "bus_type");
    copy_field_of(entry, pd, "serial_number", "serial_number");
    copy_field_of(entry, pd, "firmware_version", "firmware_version");
    copy_field_of(entry, pd, "disk_number", "disk_number");
    copy_field_of(entry, pd, "capacity_bytes", "physical_capacity_bytes");
    copy_field_of(entry, pd, "system_disk", "system_disk");
    copy_field_of(entry, pd, "page_file_disk", "page_file_disk");
    copy_field_of(entry, pd, "health_status", "health_status");
}


/// The power status the system reports: the AC line status (0 offline,
/// 1 online), the battery flags, the charge percent (255 unknown), the
/// seconds of charge left and at full charge (`u32::MAX` unknown), and the
/// battery-saver flag.
pub struct PowerStatus {
    pub ac_line: u8,
    pub battery_flag: u8,
    pub life_percent: u8,
    pub life_seconds: u32,
    pub full_life_seconds: u32,
    pub saver: u8,
}

pub open spec fn ac_name(ac_line: u8) -> Seq<char> {
    if ac_line == 0 {
        "offline"@
    } else if ac_line == 1 {
        "online"@
    } else {
        "unknown"@
    }
}

pub open spec fn seconds_or_null(s: u32) -> JsonV {
    if s == u32::MAX { JsonV::Null } else { JsonV::Number(NumberV::Unsigned(s as u64)) }
}

/// The power reading of a status, with the battery details and the plan
/// read separately: the battery is present unless flag 128 is set, and
/// charging, critical, low and high by flags 8, 4, 2 and 1.
pub open spec fn power_status_spec(st: PowerStatus, details: JsonV, plan: JsonV) -> JsonV {
    JsonV::Object(seq![
        ("ac_status"@, JsonV::Str(ac_name(st.ac_line))),
        ("battery"@, JsonV::Object(seq![
            ("present"@, JsonV::Bool(st.battery_flag & 128 == 0)),
            ("percent"@, if st.life_percent == 255 { JsonV::Null } else { JsonV::Number(NumberV::Unsigned(st.life_percent as u64)) }),
            ("charging"@, JsonV::Bool(st.battery_flag & 8 != 0)),
            ("critical"@, JsonV::Bool(st.battery_flag & 4 != 0)),
            ("low"@, JsonV::Bool(st.battery_flag & 2 != 0)),
            ("high"@, JsonV::Bool(st.battery_flag & 1 != 0)),
            ("lifetime_seconds"@, seconds_or_null(st.life_seconds)),
            ("fulllife_seconds"@, seconds_or_null(st.full_life_seconds)),
            ("saver_active"@, JsonV::Bool(st.saver != 0)),
            ("details"@, details),
        ])),
        ("power_plan"@, plan),
    ])
}

fn seconds_json(s: u32) -> (r: Json)
    ensures
        r.view() == seconds_or_null(s),
{
    if s == u32::MAX { Json::Null } else { Json::Number(JsonNumber::Unsigned(s as u64)) }
}

/// The power reading of a status the system reported.
pub fn power_status_json(st: &PowerStatus, details: Json, plan: Json) -> (r: Json)
    ensures
        r.view() == power_status_spec(*st, details.view(), plan.view()),
{
    let ghost dv = details.view();
    let ghost pv = plan.view();
    let ac = if st.ac_line == 0 {
        "offline"
    } else if st.ac_line == 1 {
        "online"
    } else {
        "unknown"
    };
    let mut b: Vec<(String, Json)> = Vec::new();
    push_member(&mut b, "present", Json::Bool(st.battery_flag & 128 == 0));
    push_member(&mut b, "percent", if st.life_percent == 255 {
        Json::Null
    } else {
        Json::Number(JsonNumber::Unsigned(st.life_percent as u64))
    });
    push_member(&mut b, "charging", Json::Bool(st.battery_flag & 8 != 0));
    push_member(&mut b, "critical", Json::Bool(st.battery_flag & 4 != 0));
    push_member(&mut b, "low", Json::Bool(st.battery_flag & 2 != 0));
    push_member(&mut b, "high", Json::Bool(st.battery_flag & 1 != 0));
    push_member(&mut b, "lifetime_seconds", seconds_json(st.life_seconds));
    push_member(&mut b, "fulllife_seconds", seconds_json(st.full_life_seconds));
    push_member(&mut b, "saver_active", Json::Bool(st.saver != 0));
    push_member(&mut b, "details", details);
    assert(view_members(b@) =~= power_status_spec(*st, dv, pv)->Object_0[1].1->Object_0);
    assert(ac@ == ac_name(st.ac_line));
    let mut ms: Vec<(String, Json)> = Vec::new();
    push_member(&mut ms, "ac_status", Json::Str(string_from_str(ac)));
    push_member(&mut ms, "battery", Json::Object(b));
    push_member(&mut ms, "power_plan", plan);
    assert(view_members(ms@) =~= power_status_spec(*st, dv, pv)->Object_0);
    Json::Object(ms)
}

} // verus!
