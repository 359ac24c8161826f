//! Monitors: aspect ratios, orientation and connection names, the EDID
//! details read from WMI and how they are matched to monitors, and the
//! stable monitor id.
use vstd::prelude::*;
use crate::text::{
    chars_of, clone_string, str_eq, eq_ignore_case, chars_eq_ignore_case, string_from_chars, string_from_str,
    split_on, split_chars, views, trim, chars_trim, str_trim, lines_of, split_lines, split_once, chars_split_once,
    strip_prefix, chars_strip_prefix, parse_u32_spec, parse_i32_spec, parse_u32, parse_i32, decimal, signed_decimal,
    u64_decimal, i64_decimal, push_all, push_str_chars, text_views,
};

verus! {

// ---------------------------------------------------------------------------
// Aspect ratio
// ---------------------------------------------------------------------------

/// Euclid's greatest common divisor.
pub open spec fn gcd_spec(a: nat, b: nat) -> nat
    decreases b,
{
    if b == 0 {
        a
    } else {
        gcd_spec(b, a % b)
    }
}

/// The greatest common divisor of `a` and `b` (`a` when `b` is 0).
pub fn gcd(a: u32, b: u32) -> (r: u32)
    ensures
        r == gcd_spec(a as nat, b as nat),
{
    let mut x = a;
    let mut y = b;
    while y != 0
        invariant
            gcd_spec(x as nat, y as nat) == gcd_spec(a as nat, b as nat),
        decreases y,
    {
        let t = y;
        y = x % y;
        x = t;
    }
    x
}

/// The gcd divides both numbers and is positive when one of them is.
pub proof fn law_gcd_divides(a: nat, b: nat)
    ensures
        gcd_spec(a, b) > 0 <==> (a > 0 || b > 0),
        gcd_spec(a, b) > 0 ==> a % gcd_spec(a, b) == 0 && b % gcd_spec(a, b) == 0,
    decreases b,
{
    if b > 0 {
        law_gcd_divides(b, a % b);
        let g = gcd_spec(b, a % b);
        assert(g > 0);
        lemma_divides_mod(a, b, g);
    }
}

proof fn lemma_divides_mod(a: nat, b: nat, g: nat)
    requires
        b > 0,
        g > 0,
        b % g == 0,
        (a % b) % g == 0,
    ensures
        a % g == 0,
{
    let q = a / b;
    let r = a % b;
    vstd::arithmetic::div_mod::lemma_fundamental_div_mod(a as int, b as int);
    let kb = b / g;
    let kr = r / g;
    vstd::arithmetic::div_mod::lemma_fundamental_div_mod(b as int, g as int);
    vstd::arithmetic::div_mod::lemma_fundamental_div_mod(r as int, g as int);
    assert(a == g * (q * kb + kr)) by (nonlinear_arith)
        requires
            a == b * q + r,
            b == g * kb,
            r == g * kr,
    ;
    vstd::arithmetic::div_mod::lemma_mod_multiples_basic((q * kb + kr) as int, g as int);
    assert((q * kb + kr) * g == g * (q * kb + kr)) by (nonlinear_arith);
}

/// `w:h` in lowest terms; empty unless both sides are positive.
pub open spec fn aspect_ratio_spec(w: i32, h: i32) -> Seq<char> {
    if w <= 0 || h <= 0 {
        Seq::empty()
    } else {
        let g = gcd_spec(w as nat, h as nat);
        decimal(w as nat / g) + seq![':'] + decimal(h as nat / g)
    }
}

/// A monitor's aspect ratio, such as `16:9`.
pub fn compute_aspect_ratio(w: i32, h: i32) -> (r: String)
    ensures
        r@ == aspect_ratio_spec(w, h),
{
    if w <= 0 || h <= 0 {
        return String::new();
    }
    let g = gcd(w as u32, h as u32);
    proof {
        law_gcd_divides(w as nat, h as nat);
    }
    let rw = w as u32 / g;
    let rh = h as u32 / g;
    let mut out = u64_decimal(rw as u64);
    out.push(':');
    let d = u64_decimal(rh as u64);
    push_all(&mut out, &d);
    string_from_chars(&out)
}

// ---------------------------------------------------------------------------
// Names
// ---------------------------------------------------------------------------

/// The name of a display orientation code.
pub fn orientation_name(code: u32) -> (r: &'static str)
    ensures
        r@ == if code == 0 {
            "landscape"@
        } else if code == 1 {
            "portrait"@
        } else if code == 2 {
            "landscape_flipped"@
        } else if code == 3 {
            "portrait_flipped"@
        } else {
            "unknown"@
        },
{
    if code == 0 {
        "landscape"
    } else if code == 1 {
        "portrait"
    } else if code == 2 {
        "landscape_flipped"
    } else if code == 3 {
        "portrait_flipped"
    } else {
        "unknown"
    }
}

/// The name of a video output technology code.
pub open spec fn connection_name(v: i32) -> Seq<char> {
    if v == 0 {
        "VGA"@
    } else if v == 1 {
        "S-Video"@
    } else if v == 2 {
        "Composite"@
    } else if v == 3 {
        "Component"@
    } else if v == 4 {
        "DVI"@
    } else if v == 5 {
        "HDMI"@
    } else if v == 6 {
        "LVDS"@
    } else if v == 8 {
        "D-Jpn"@
    } else if v == 9 {
        "SDI"@
    } else if v == 10 {
        "DisplayPort (ext)"@
    } else if v == 11 {
        "DisplayPort (int)"@
    } else if v == 12 {
        "UDI (ext)"@
    } else if v == 13 {
        "UDI (int)"@
    } else if v == 14 {
        "SDTV Dongle"@
    } else if v == 15 {
        "Miracast"@
    } else if v == i32::MIN {
        "Internal"@
    } else {
        "Other ("@ + signed_decimal(v as int) + ")"@
    }
}

pub fn connection_type_name(v: i32) -> (r: String)
    ensures
        r@ == connection_name(v),
{
    let fixed = if v == 0 {
        "VGA"
    } else if v == 1 {
        "S-Video"
    } else if v == 2 {
        "Composite"
    } else if v == 3 {
        "Component"
    } else if v == 4 {
        "DVI"
    } else if v == 5 {
        "HDMI"
    } else if v == 6 {
        "LVDS"
    } else if v == 8 {
        "D-Jpn"
    } else if v == 9 {
        "SDI"
    } else if v == 10 {
        "DisplayPort (ext)"
    } else if v == 11 {
        "DisplayPort (int)"
    } else if v == 12 {
        "UDI (ext)"
    } else if v == 13 {
        "UDI (int)"
    } else if v == 14 {
        "SDTV Dongle"
    } else if v == 15 {
        "Miracast"
    } else if v == i32::MIN {
        "Internal"
    } else {
        let mut out = chars_of("Other (");
        let d = i64_decimal(v as i64);
        push_all(&mut out, &d);
        push_str_chars(&mut out, ")");
        return string_from_chars(&out);
    };
    string_from_str(fixed)
}

/// The hardware part of a device path: what follows the first `\`, up to
/// the next (`MONITOR\GSM5BBF\{guid}` gives `GSM5BBF`); empty without a `\`.
pub open spec fn hw_id(path: Seq<char>) -> Seq<char> {
    let parts = split_on(path, '\\');
    if parts.len() >= 2 { parts[1] } else { Seq::empty() }
}

pub fn extract_hw_id(path: &str) -> (r: String)
    ensures
        r@ == hw_id(path@),
{
    let cs = chars_of(path);
    let parts = split_chars(&cs, '\\');
    if parts.len() >= 2 {
        assert(views(parts@)[1] == parts@[1]@);
        string_from_chars(&parts[1])
    } else {
        String::new()
    }
}

// ---------------------------------------------------------------------------
// EDID details
// ---------------------------------------------------------------------------

/// What WMI reports of one monitor.
#[derive(Debug)]
pub struct EdidInfo {
    pub monitor_name: String,
    pub manufacturer: String,
    pub product_code: String,
    pub serial_number: String,
    pub year_of_manufacture: u32,
    pub connection_type: String,
    pub physical_width_mm: u32,
    pub physical_height_mm: u32,
}

pub struct EdidV {
    pub monitor_name: Seq<char>,
    pub manufacturer: Seq<char>,
    pub product_code: Seq<char>,
    pub serial_number: Seq<char>,
    pub year_of_manufacture: u32,
    pub connection_type: Seq<char>,
    pub physical_width_mm: u32,
    pub physical_height_mm: u32,
}

impl EdidInfo {
    pub open spec fn view(&self) -> EdidV {
        EdidV {
            monitor_name: self.monitor_name@,
            manufacturer: self.manufacturer@,
            product_code: self.product_code@,
            serial_number: self.serial_number@,
            year_of_manufacture: self.year_of_manufacture,
            connection_type: self.connection_type@,
            physical_width_mm: self.physical_width_mm,
            physical_height_mm: self.physical_height_mm,
        }
    }
}

/// The value last given to `key` in a block (a later line overrides).
pub open spec fn field_get(fields: Seq<(Seq<char>, Seq<char>)>, key: Seq<char>) -> Option<Seq<char>>
    decreases fields.len(),
{
    if fields.len() == 0 {
        None
    } else if fields.last().0 == key {
        Some(fields.last().1)
    } else {
        field_get(fields.drop_last(), key)
    }
}

pub open spec fn trimmed_field(fields: Seq<(Seq<char>, Seq<char>)>, key: Seq<char>) -> Seq<char> {
    match field_get(fields, key) {
        Some(v) => trim(v),
        None => Seq::empty(),
    }
}

/// Centimetres (as WMI gives them) in millimetres; the product wraps as
/// `u32` arithmetic does in a release build.
pub open spec fn cm_to_mm(fields: Seq<(Seq<char>, Seq<char>)>, key: Seq<char>) -> u32 {
    match field_get(fields, key) {
        Some(v) => match parse_u32_spec(trim(v)) {
            Some(n) => ((n * 10) % 0x1_0000_0000) as u32,
            None => 0,
        },
        None => 0,
    }
}

/// The details a block of `key=value` lines describes.
pub open spec fn edid_from(fields: Seq<(Seq<char>, Seq<char>)>) -> EdidV {
    EdidV {
        monitor_name: trimmed_field(fields, "MonitorName"@),
        manufacturer: trimmed_field(fields, "Manufacturer"@),
        product_code: trimmed_field(fields, "ProductCode"@),
        serial_number: trimmed_field(fields, "SerialNumber"@),
        year_of_manufacture: match field_get(fields, "YearOfManufacture"@) {
            Some(v) => match parse_u32_spec(trim(v)) {
                Some(n) => n,
                None => 0,
            },
            None => 0,
        },
        connection_type: match field_get(fields, "VideoOutputTechnology"@) {
            Some(v) => match parse_i32_spec(trim(v)) {
                Some(n) => connection_name(n),
                None => Seq::empty(),
            },
            None => Seq::empty(),
        },
        physical_width_mm: cm_to_mm(fields, "HorizontalSizeCm"@),
        physical_height_mm: cm_to_mm(fields, "VerticalSizeCm"@),
    }
}

/// Reads the lines in order: a non-blank line `key=value` sets a field
/// (key trimmed); a blank line ends a block, which becomes a monitor when its
/// trimmed `InstanceName` is not empty.  A block not ended by a blank line
/// is dropped.  Gives the monitors so far and the open block's fields.
pub open spec fn edid_fold(lines: Seq<Seq<char>>) -> (Seq<(Seq<char>, EdidV)>, Seq<(Seq<char>, Seq<char>)>)
    decreases lines.len(),
{
    if lines.len() == 0 {
        (Seq::empty(), Seq::empty())
    } else {
        let (found, fields) = edid_fold(lines.drop_last());
        let line = trim(lines.last());
        if line.len() == 0 {
            let inst = trimmed_field(fields, "InstanceName"@);
            if inst.len() > 0 {
                (found.push((inst, edid_from(fields))), Seq::empty())
            } else {
                (found, Seq::empty())
            }
        } else {
            match split_once(line, '=') {
                Some((k, v)) => (found, fields.push((trim(k), v))),
                None => (found, fields),
            }
        }
    }
}

pub open spec fn field_views(fs: Seq<(Vec<char>, Vec<char>)>) -> Seq<(Seq<char>, Seq<char>)> {
    fs.map_values(|p: (Vec<char>, Vec<char>)| (p.0@, p.1@))
}

pub open spec fn edid_views(v: Seq<(String, EdidInfo)>) -> Seq<(Seq<char>, EdidV)> {
    v.map_values(|p: (String, EdidInfo)| (p.0@, p.1.view()))
}

fn get_field(fields: &Vec<(Vec<char>, Vec<char>)>, key: &str) -> (r: Option<Vec<char>>)
    ensures
        match r {
            Some(v) => field_get(field_views(fields@), key@) == Some(v@),
            None => field_get(field_views(fields@), key@) is None,
        },
{
    let k = chars_of(key);
    let mut i = fields.len();
    let ghost fv = field_views(fields@);
    assert(fv.take(i as int) =~= fv);
    while i > 0
        invariant
            i <= fields.len(),
            k@ == key@,
            fv == field_views(fields@),
            field_get(fv, key@) == field_get(fv.take(i as int), key@),
        decreases i,
    {
        assert(fv.take(i as int).drop_last() =~= fv.take(i - 1));
        assert(fv.take(i as int).last() == (fields@[i - 1].0@, fields@[i - 1].1@));
        if crate::text::chars_eq(&fields[i - 1].0, &k) {
            return Some(crate::text::copy_chars(&fields[i - 1].1));
        }
        i -= 1;
    }
    None
}

fn trimmed(fields: &Vec<(Vec<char>, Vec<char>)>, key: &str) -> (r: String)
    ensures
        r@ == trimmed_field(field_views(fields@), key@),
{
    match get_field(fields, key) {
        Some(v) => string_from_chars(&chars_trim(&v)),
        None => String::new(),
    }
}

fn number_field(fields: &Vec<(Vec<char>, Vec<char>)>, key: &str) -> (r: Option<u32>)
    ensures
        r == match field_get(field_views(fields@), key@) {
            Some(v) => parse_u32_spec(trim(v)),
            None => None,
        },
{
    match get_field(fields, key) {
        Some(v) => parse_u32(&chars_trim(&v)),
        None => None,
    }
}

fn millimetres(fields: &Vec<(Vec<char>, Vec<char>)>, key: &str) -> (r: u32)
    ensures
        r == cm_to_mm(field_views(fields@), key@),
{
    match number_field(fields, key) {
        Some(n) => {
            let mm = (n as u64) * 10;
            (mm % 0x1_0000_0000) as u32
        },
        None => 0,
    }
}

fn edid_info(fields: &Vec<(Vec<char>, Vec<char>)>) -> (r: EdidInfo)
    ensures
        r.view() == edid_from(field_views(fields@)),
{
    let connection_type = match get_field(fields, "VideoOutputTechnology") {
        Some(v) => match parse_i32(&chars_trim(&v)) {
            Some(n) => connection_type_name(n),
            None => String::new(),
        },
        None => String::new(),
    };
    let year = match number_field(fields, "YearOfManufacture") {
        Some(n) => n,
        None => 0,
    };
    EdidInfo {
        monitor_name: trimmed(fields, "MonitorName"),
        manufacturer: trimmed(fields, "Manufacturer"),
        product_code: trimmed(fields, "ProductCode"),
        serial_number: trimmed(fields, "SerialNumber"),
        year_of_manufacture: year,
        connection_type,
        physical_width_mm: millimetres(fields, "HorizontalSizeCm"),
        physical_height_mm: millimetres(fields, "VerticalSizeCm"),
    }
}

/// Reads the WMI monitor report into (instance name, details) pairs.
pub fn parse_edid_output(text: &str) -> (r: Vec<(String, EdidInfo)>)
    ensures
        edid_views(r@) == edid_fold(lines_of(text@)).0,
{
    let cs = chars_of(text);
    let lines = split_lines(&cs);
    let ghost lv = views(lines@);
    let mut found: Vec<(String, EdidInfo)> = Vec::new();
    let mut fields: Vec<(Vec<char>, Vec<char>)> = Vec::new();
    for i in 0..lines.len()
        invariant
            lv == views(lines@),
            lv == lines_of(text@),
            (edid_views(found@), field_views(fields@)) == edid_fold(lv.take(i as int)),
    {
        assert(lv.take(i + 1).drop_last() =~= lv.take(i as int));
        assert(lv.take(i + 1).last() == lines@[i as int]@);
        let line = chars_trim(&lines[i]);
        if line.len() == 0 {
            let inst = trimmed(&fields, "InstanceName");
            let ghost before = edid_views(found@);
            if !crate::text::text_is_empty(inst.as_str()) {
                let info = edid_info(&fields);
                let ghost p = (inst@, info.view());
                found.push((inst, info));
                assert(edid_views(found@) =~= before.push(p));
            }
            fields = Vec::new();
            assert(field_views(fields@) =~= Seq::<(Seq<char>, Seq<char>)>::empty());
        } else {
            match chars_split_once(&line, '=') {
                Some((k, v)) => {
                    let key = chars_trim(&k);
                    let ghost before = field_views(fields@);
                    let ghost p = (key@, v@);
                    fields.push((key, v));
                    assert(field_views(fields@) =~= before.push(p));
                },
                None => {},
            }
        }
    }
    assert(lv.take(lines.len() as int) =~= lv);
    found
}

/// The monitors WMI reports as HDR-capable: the rest of each trimmed line
/// that starts with `HDR=`.
pub open spec fn hdr_names(lines: Seq<Seq<char>>) -> Seq<Seq<char>>
    decreases lines.len(),
{
    if lines.len() == 0 {
        Seq::empty()
    } else {
        let rest = hdr_names(lines.drop_last());
        match strip_prefix(trim(lines.last()), "HDR="@) {
            Some(n) => rest.push(n),
            None => rest,
        }
    }
}

/// Reads the HDR report.
pub fn parse_hdr_output(text: &str) -> (r: Vec<String>)
    ensures
        text_views(r@) == hdr_names(lines_of(text@)),
{
    let cs = chars_of(text);
    let lines = split_lines(&cs);
    let ghost lv = views(lines@);
    let mut out: Vec<String> = Vec::new();
    for i in 0..lines.len()
        invariant
            lv == views(lines@),
            lv == lines_of(text@),
            text_views(out@) == hdr_names(lv.take(i as int)),
    {
        assert(lv.take(i + 1).drop_last() =~= lv.take(i as int));
        assert(lv.take(i + 1).last() == lines@[i as int]@);
        let line = chars_trim(&lines[i]);
        match chars_strip_prefix(&line, "HDR=") {
            Some(n) => {
                let ghost before = text_views(out@);
                out.push(string_from_chars(&n));
                assert(text_views(out@) =~= before.push(n@));
            },
            None => {},
        }
    }
    assert(lv.take(lines.len() as int) =~= lv);
    out
}

// ---------------------------------------------------------------------------
// Matching EDID details to monitors
// ---------------------------------------------------------------------------

/// The first unused report whose instance has the monitor's hardware id
/// (ASCII case ignored).
pub open spec fn first_hw_match(insts: Seq<Seq<char>>, used: Seq<bool>, hw: Seq<char>) -> Option<int>
    decreases insts.len(),
{
    if insts.len() == 0 {
        None
    } else {
        match first_hw_match(insts.drop_last(), used, hw) {
            Some(i) => Some(i),
            None => {
                let i = insts.len() - 1;
                let h = hw_id(insts.last());
                if !used[i] && h.len() > 0 && eq_ignore_case(h, hw) { Some(i) } else { None }
            },
        }
    }
}

/// The first unused report.
pub open spec fn first_unused(used: Seq<bool>, n: int) -> Option<int>
    decreases n,
{
    if n <= 0 {
        None
    } else {
        match first_unused(used, n - 1) {
            Some(i) => Some(i),
            None => if !used[n - 1] { Some(n - 1) } else { None },
        }
    }
}

/// The report a monitor takes: the first unused one with its hardware id
/// (when it has one), else the first unused one.
pub open spec fn edid_match(insts: Seq<Seq<char>>, used: Seq<bool>, hw: Seq<char>) -> Option<int> {
    let by_id = if hw.len() > 0 { first_hw_match(insts, used, hw) } else { None };
    match by_id {
        Some(i) => Some(i),
        None => first_unused(used, insts.len() as int),
    }
}

/// The report a monitor with hardware id `hw` takes, among the reports'
/// instance names; `used` marks the reports already taken.
pub fn match_edid(hw: &str, instances: &Vec<String>, used: &Vec<bool>) -> (r: Option<usize>)
    requires
        used.len() == instances.len(),
    ensures
        match r {
            Some(i) => edid_match(text_views(instances@), used@, hw@) == Some(i as int),
            None => edid_match(text_views(instances@), used@, hw@) is None,
        },
{
    let ghost iv = text_views(instances@);
    let hwc = chars_of(hw);
    if hwc.len() > 0 {
        let mut i: usize = 0;
        while i < instances.len()
            invariant
                i <= instances.len(),
                used.len() == instances.len(),
                iv == text_views(instances@),
                hwc@ == hw@,
                hw@.len() > 0,
                first_hw_match(iv.take(i as int), used@, hw@) is None,
            decreases instances.len() - i,
        {
            assert(iv.take(i + 1).drop_last() =~= iv.take(i as int));
            assert(iv.take(i + 1).last() == instances@[i as int]@);
            if !used[i] {
                let h = extract_hw_id(instances[i].as_str());
                let hc = chars_of(h.as_str());
                if hc.len() > 0 && chars_eq_ignore_case(&hc, &hwc) {
                    assert(first_hw_match(iv.take(i + 1), used@, hw@) == Some(i as int));
                    proof { lemma_first_hw_match_prefix(iv, used@, hw@, i as int + 1); }
                    return Some(i);
                }
            }
            i += 1;
        }
        assert(iv.take(instances.len() as int) =~= iv);
    }
    assert(hw@.len() > 0 ==> first_hw_match(iv, used@, hw@) is None);
    let mut k: usize = 0;
    while k < used.len()
        invariant
            k <= used.len(),
            used.len() == instances.len(),
            iv == text_views(instances@),
            iv.len() == instances.len(),
            hw@.len() > 0 ==> first_hw_match(iv, used@, hw@) is None,
            first_unused(used@, k as int) is None,
        decreases used.len() - k,
    {
        if !used[k] {
            assert(first_unused(used@, k + 1) == Some(k as int));
            proof { lemma_first_unused_prefix(used@, k as int + 1, used.len() as int); }
            return Some(k);
        }
        k += 1;
    }
    None
}

proof fn lemma_first_hw_match_prefix(insts: Seq<Seq<char>>, used: Seq<bool>, hw: Seq<char>, k: int)
    requires
        0 <= k <= insts.len(),
        first_hw_match(insts.take(k), used, hw) is Some,
    ensures
        first_hw_match(insts, used, hw) == first_hw_match(insts.take(k), used, hw),
    decreases insts.len() - k,
{
    if k < insts.len() {
        assert(insts.drop_last().take(k) =~= insts.take(k));
        lemma_first_hw_match_prefix(insts.drop_last(), used, hw, k);
    } else {
        assert(insts.take(k) =~= insts);
    }
}

proof fn lemma_first_unused_prefix(used: Seq<bool>, k: int, n: int)
    requires
        0 <= k <= n,
        first_unused(used, k) is Some,
    ensures
        first_unused(used, n) == first_unused(used, k),
    decreases n - k,
{
    if k < n {
        lemma_first_unused_prefix(used, k, n - 1);
    }
}

// ---------------------------------------------------------------------------
// Monitor ids
// ---------------------------------------------------------------------------

/// The UTF-8 encoding of one character.
pub open spec fn utf8_char(c: char) -> Seq<u8> {
    let v = c as u32;
    if v < 0x80 {
        seq![v as u8]
    } else if v < 0x800 {
        seq![(0xC0 + v / 64) as u8, (0x80 + v % 64) as u8]
    } else if v < 0x10000 {
        seq![(0xE0 + v / 4096) as u8, (0x80 + (v / 64) % 64) as u8, (0x80 + v % 64) as u8]
    } else {
        seq![(0xF0 + v / 262144) as u8, (0x80 + (v / 4096) % 64) as u8, (0x80 + (v / 64) % 64) as u8, (0x80 + v % 64) as u8]
    }
}

/// The UTF-8 encoding of a text (`str::as_bytes`).
pub open spec fn utf8(s: Seq<char>) -> Seq<u8>
    decreases s.len(),
{
    if s.len() == 0 {
        Seq::empty()
    } else {
        utf8(s.drop_last()) + utf8_char(s.last())
    }
}

/// The little-endian bytes of a 32-bit value (`to_le_bytes`).
pub open spec fn le_bytes(u: u32) -> Seq<u8> {
    seq![(u % 256) as u8, ((u / 256) % 256) as u8, ((u / 65536) % 256) as u8, (u / 16777216) as u8]
}

/// A hexadecimal digit in lower case.
pub open spec fn hex_digit_char(d: u8) -> char {
    if d < 10 {
        (('0' as u8) + d) as char
    } else {
        (('a' as u8) + d - 10) as char
    }
}

/// Lower-case hexadecimal, two digits per byte (`{:x}` on a digest).
pub open spec fn hex_lower(bytes: Seq<u8>) -> Seq<char>
    decreases bytes.len(),
{
    if bytes.len() == 0 {
        Seq::empty()
    } else {
        hex_lower(bytes.drop_last()) + seq![hex_digit_char(bytes.last() / 16), hex_digit_char(bytes.last() % 16)]
    }
}

/// The SHA-256 digest of some bytes.
pub uninterp spec fn sha256(bytes: Seq<u8>) -> Seq<u8>;

/// Calls `Sha256::digest` (`sha2`); the digest is named, and is 32 bytes
/// long, as its output type says.
#[verifier::external_body]
fn sha256_digest(bytes: &Vec<u8>) -> (r: Vec<u8>)
    ensures
        r@ == sha256(bytes@),
        r@.len() == 32,
{
    <sha2::Sha256 as sha2::Digest>::digest(bytes.as_slice()).to_vec()
}

fn push_utf8(out: &mut Vec<u8>, c: char)
    ensures
        final(out)@ == old(out)@ + utf8_char(c),
{
    let v = c as u32;
    let ghost before = out@;
    if v < 0x80 {
        out.push(v as u8);
        assert(out@ =~= before + utf8_char(c));
    } else if v < 0x800 {
        out.push((0xC0 + v / 64) as u8);
        out.push((0x80 + v % 64) as u8);
        assert(out@ =~= before + utf8_char(c));
    } else if v < 0x10000 {
        out.push((0xE0 + v / 4096) as u8);
        out.push((0x80 + (v / 64) % 64) as u8);
        out.push((0x80 + v % 64) as u8);
        assert(out@ =~= before + utf8_char(c));
    } else {
        out.push((0xF0 + v / 262144) as u8);
        out.push((0x80 + (v / 4096) % 64) as u8);
        out.push((0x80 + (v / 64) % 64) as u8);
        out.push((0x80 + v % 64) as u8);
        assert(out@ =~= before + utf8_char(c));
    }
}

fn push_le(out: &mut Vec<u8>, v: i32)
    ensures
        final(out)@ == old(out)@ + le_bytes(v as u32),
{
    let u = v as u32;
    let ghost before = out@;
    out.push((u % 256) as u8);
    out.push(((u / 256) % 256) as u8);
    out.push(((u / 65536) % 256) as u8);
    out.push((u / 16777216) as u8);
    assert(out@ =~= before + le_bytes(v as u32));
}

fn hex_char(d: u8) -> (r: char)
    requires
        d < 16,
    ensures
        r == hex_digit_char(d),
{
    if d < 10 {
        (48u8 + d) as char
    } else {
        (97u8 + d - 10) as char
    }
}

/// The bytes a monitor's id is the hash of: its device name (UTF-8) and its
/// rectangle's left, top, right and bottom (little-endian).
pub open spec fn monitor_id_bytes_spec(device_name: Seq<char>, left: i32, top: i32, right: i32, bottom: i32) -> Seq<u8> {
    utf8(device_name) + le_bytes(left as u32) + le_bytes(top as u32) + le_bytes(right as u32) + le_bytes(bottom as u32)
}

/// The bytes a monitor's id is the hash of.
pub fn monitor_id_bytes(device_name: &str, left: i32, top: i32, right: i32, bottom: i32) -> (r: Vec<u8>)
    ensures
        r@ == monitor_id_bytes_spec(device_name@, left, top, right, bottom),
{
    let cs = chars_of(device_name);
    let mut bytes: Vec<u8> = Vec::new();
    for i in 0..cs.len()
        invariant
            bytes@ == utf8(cs@.take(i as int)),
    {
        push_utf8(&mut bytes, cs[i]);
        assert(cs@.take(i + 1).drop_last() =~= cs@.take(i as int));
    }
    assert(cs@.take(cs.len() as int) =~= cs@);
    push_le(&mut bytes, left);
    push_le(&mut bytes, top);
    push_le(&mut bytes, right);
    push_le(&mut bytes, bottom);
    bytes
}

/// A digest in lower-case hexadecimal, two digits a byte.
pub fn hex_digest_text(digest: &Vec<u8>) -> (r: String)
    ensures
        r@ == hex_lower(digest@),
{
    let mut out: Vec<char> = Vec::new();
    for i in 0..digest.len()
        invariant
            out@ == hex_lower(digest@.take(i as int)),
    {
        let b = digest[i];
        out.push(hex_char(b / 16));
        out.push(hex_char(b % 16));
        assert(digest@.take(i + 1).drop_last() =~= digest@.take(i as int));
        assert(out@ =~= hex_lower(digest@.take(i + 1)));
    }
    assert(digest@.take(digest.len() as int) =~= digest@);
    string_from_chars(&out)
}

/// A monitor's stable id: the SHA-256 of its device name (UTF-8) and its
/// rectangle's left, top, right and bottom (little-endian), in lower-case hex.
pub fn monitor_id(device_name: &str, left: i32, top: i32, right: i32, bottom: i32) -> (r: String)
    ensures
        r@ == hex_lower(sha256(monitor_id_bytes_spec(device_name@, left, top, right, bottom))),
{
    let bytes = monitor_id_bytes(device_name, left, top, right, bottom);
    let digest = sha256_digest(&bytes);
    hex_digest_text(&digest)
}

/// Colour bits per channel, as approximated from the bits per pixel.
pub fn bits_per_channel(color_depth_bits: u32) -> (r: u32)
    ensures
        r == color_depth_bits / 3,
{
    color_depth_bits / 3
}

/// Enumerates the monitors (through the operating system).
pub struct MonitorManager;


/// Takes the report a monitor matches and marks it used, so that no other
/// monitor takes it.
pub fn take_edid(hw: &str, instances: &Vec<String>, used: &mut Vec<bool>) -> (r: Option<usize>)
    requires
        old(used).len() == instances.len(),
    ensures
        match r {
            Some(i) => edid_match(text_views(instances@), old(used)@, hw@) == Some(i as int) && i < instances.len()
                && !old(used)@[i as int] && final(used)@ == old(used)@.update(i as int, true),
            None => edid_match(text_views(instances@), old(used)@, hw@) is None && final(used)@ == old(used)@,
        },
{
    let r = match_edid(hw, instances, used);
    match r {
        Some(i) => {
            proof { lemma_edid_match_range(text_views(instances@), used@, hw@); }
            used.set(i, true);
        },
        None => {},
    }
    r
}

/// The monitor's size: its rectangle's width and height, at least 1 each
/// (logical), and the display mode's width and height where it reports
/// one above 0 (physical; the logical size otherwise).
pub open spec fn monitor_size_spec(left: i32, top: i32, right: i32, bottom: i32, mode_width: u32, mode_height: u32) -> (int, int, int, int) {
    let lw = if right - left > 1 { right - left } else { 1 };
    let lh = if bottom - top > 1 { bottom - top } else { 1 };
    (
        lw,
        lh,
        if mode_width > 0 { (mode_width as i32) as int } else { lw },
        if mode_height > 0 { (mode_height as i32) as int } else { lh },
    )
}

/// A monitor's logical and physical width and height.
pub fn monitor_size(left: i32, top: i32, right: i32, bottom: i32, mode_width: u32, mode_height: u32) -> (r: (i32, i32, i32, i32))
    requires
        i32::MIN <= right - left <= i32::MAX,
        i32::MIN <= bottom - top <= i32::MAX,
    ensures
        (r.0 as int, r.1 as int, r.2 as int, r.3 as int) == monitor_size_spec(left, top, right, bottom, mode_width, mode_height),
{
    let w = right - left;
    let h = bottom - top;
    let lw = if w > 1 { w } else { 1 };
    let lh = if h > 1 { h } else { 1 };
    let pw = if mode_width > 0 { mode_width as i32 } else { lw };
    let ph = if mode_height > 0 { mode_height as i32 } else { lh };
    (lw, lh, pw, ph)
}


proof fn lemma_first_hw_match_range(insts: Seq<Seq<char>>, used: Seq<bool>, hw: Seq<char>)
    ensures
        first_hw_match(insts, used, hw) matches Some(i) ==> 0 <= i < insts.len() && !used[i],
    decreases insts.len(),
{
    if insts.len() > 0 {
        lemma_first_hw_match_range(insts.drop_last(), used, hw);
    }
}

proof fn lemma_first_unused_range(used: Seq<bool>, n: int)
    ensures
        first_unused(used, n) matches Some(i) ==> 0 <= i < n && !used[i],
    decreases n,
{
    if n > 0 {
        lemma_first_unused_range(used, n - 1);
    }
}

/// The report a monitor takes is one not taken yet.
pub proof fn lemma_edid_match_range(insts: Seq<Seq<char>>, used: Seq<bool>, hw: Seq<char>)
    ensures
        edid_match(insts, used, hw) matches Some(i) ==> 0 <= i < insts.len() && !used[i],
{
    lemma_first_hw_match_range(insts, used, hw);
    lemma_first_unused_range(used, insts.len() as int);
}


/// A report a monitor took is taken by no later monitor.
pub proof fn law_edid_taken_once(insts: Seq<Seq<char>>, used: Seq<bool>, i: int, hw: Seq<char>)
    requires
        0 <= i < used.len(),
    ensures
        edid_match(insts, used.update(i, true), hw) != Some(i),
{
    lemma_edid_match_range(insts, used.update(i, true), hw);
}

} // verus!
