//! Wallpaper profiles: monitor ordering, profile priorities and the
//! assignment of wallpapers to monitors.
use vstd::prelude::*;
use crate::order::{
    sort_by, key_asc, key_desc, key_order, sort_indices_by_key, lemma_sort_by_multiset, lemma_insert_by_splice,
    index_seq, index_vec,
};
use crate::text::{
    clone_string, chars_of, str_eq, str_eq_ignore_case, parse_usize, eq_ignore_case, parse_usize_spec,
    parse_u32, parse_u32_spec, strip_prefix, chars_strip_prefix, chars_lt, str_less, string_from_chars,
    trim, str_trim, starts_with, chars_starts_with, to_lowercase, unicode_lower, decimal, u64_decimal,
    string_from_str, text_is_empty, clone_strings,
};
use crate::text::text_views;
use crate::yaml::{
    Yaml, YamlV, yaml_pairs, yaml_items, lemma_yaml_pairs_len, lemma_yaml_pairs_index, lemma_yaml_pairs_update,
    key_index, map_get, map_set, find_key, map_insert, str_items, text_items_of, untagged, as_text, as_flag,
    as_entries, untag, text_value, entries_or_empty, duplicate_pairs, yaml_view, lemma_yaml_items_len,
    lemma_yaml_items_index, text_at_dotted, flag_at_dotted, int_at_dotted, yaml_string, yaml_bool, yaml_i64,
    yaml_string_list, yaml_string_map, string_list_of, node_at_dotted, str_pairs, text_pair_views,
};

verus! {

/// A monitor as the wallpaper pages see it.
#[derive(Debug)]
pub struct WallpaperShellMonitor {
    pub id: String,
    pub x: i32,
    pub y: i32,
    pub width: i32,
    pub height: i32,
    pub primary: bool,
}

pub struct MonitorV {
    pub id: Seq<char>,
    pub x: i32,
    pub y: i32,
    pub width: i32,
    pub height: i32,
    pub primary: bool,
}

impl WallpaperShellMonitor {
    pub open spec fn view(&self) -> MonitorV {
        MonitorV {
            id: self.id@,
            x: self.x,
            y: self.y,
            width: self.width,
            height: self.height,
            primary: self.primary,
        }
    }

    /// A copy with the same fields.
    pub fn duplicate(&self) -> (r: WallpaperShellMonitor)
        ensures
            r.view() == self.view(),
    {
        WallpaperShellMonitor {
            id: clone_string(&self.id),
            x: self.x,
            y: self.y,
            width: self.width,
            height: self.height,
            primary: self.primary,
        }
    }
}

pub open spec fn monitor_views(ms: Seq<WallpaperShellMonitor>) -> Seq<MonitorV> {
    ms.map_values(|m: WallpaperShellMonitor| m.view())
}

// ---------------------------------------------------------------------------
// Monitor ordering
// ---------------------------------------------------------------------------

/// The smallest monitor height, each height counted as at least 1.
pub open spec fn min_height(ms: Seq<MonitorV>) -> int
    decreases ms.len(),
{
    if ms.len() == 0 {
        1
    } else if ms.len() == 1 {
        if ms[0].height >= 1 { ms[0].height as int } else { 1 }
    } else {
        let h = if ms.last().height >= 1 { ms.last().height as int } else { 1 };
        let m = min_height(ms.drop_last());
        if h < m { h } else { m }
    }
}

/// How far apart (vertically) two monitors may be and still share a row.
pub open spec fn row_tolerance(ms: Seq<MonitorV>) -> int {
    let q = min_height(ms) / 4;
    if q >= 80 { q } else { 80 }
}

pub open spec fn ys_of(ms: Seq<MonitorV>) -> Seq<i64> {
    ms.map_values(|m: MonitorV| m.y as i64)
}

pub open spec fn xs_of(ms: Seq<MonitorV>) -> Seq<i64> {
    ms.map_values(|m: MonitorV| m.x as i64)
}

pub open spec fn abs_diff(a: int, b: int) -> int {
    if a >= b { a - b } else { b - a }
}

/// The first row whose anchor is within `tol` of `y`; `anchors.len()` when none is.
pub open spec fn first_row(anchors: Seq<i64>, y: int, tol: int) -> int
    decreases anchors.len(),
{
    if anchors.len() == 0 {
        0
    } else {
        let f = first_row(anchors.drop_last(), y, tol);
        if f < anchors.len() - 1 {
            f
        } else if abs_diff(y, anchors.last() as int) <= tol {
            anchors.len() - 1
        } else {
            anchors.len() as int
        }
    }
}

/// Groups monitors (taken in `order`) into rows: each joins the first row
/// whose anchor is within `tol` of its `y`, or opens a new row anchored at its
/// `y`.  Gives the row anchors and, for each position of `order`, its row.
pub open spec fn assign_rows(order: Seq<usize>, ys: Seq<i64>, tol: int) -> (Seq<i64>, Seq<usize>)
    decreases order.len(),
{
    if order.len() == 0 {
        (Seq::empty(), Seq::empty())
    } else {
        let (anchors, rows) = assign_rows(order.drop_last(), ys, tol);
        let y = ys[order.last() as int];
        let r = first_row(anchors, y as int, tol);
        if r < anchors.len() {
            (anchors, rows.push(r as usize))
        } else {
            (anchors.push(y), rows.push(anchors.len() as usize))
        }
    }
}

/// The monitors of `order` placed in row `r`, in order.
pub open spec fn row_members(order: Seq<usize>, rows: Seq<usize>, r: usize) -> Seq<usize>
    decreases order.len(),
{
    if order.len() == 0 || rows.len() == 0 {
        Seq::empty()
    } else {
        let rest = row_members(order.drop_last(), rows.drop_last(), r);
        if rows.last() == r {
            rest.push(order.last())
        } else {
            rest
        }
    }
}

/// Rows in `row_order`, each sorted left to right, one after the other.
pub open spec fn flatten_rows(order: Seq<usize>, rows: Seq<usize>, row_order: Seq<usize>, xs: Seq<i64>) -> Seq<usize>
    decreases row_order.len(),
{
    if row_order.len() == 0 {
        Seq::empty()
    } else {
        flatten_rows(order, rows, row_order.drop_last(), xs) + sort_by(
            row_members(order, rows, row_order.last()),
            key_asc(xs),
        )
    }
}

/// The order monitors are numbered in: rows from the largest `y` down (a
/// monitor joins a row when its `y` is within the row tolerance of the row's
/// first monitor), each row from left to right.
pub open spec fn wallpaper_monitor_order(ms: Seq<MonitorV>) -> Seq<usize> {
    if ms.len() <= 1 {
        index_seq(ms.len())
    } else {
        let ys = ys_of(ms);
        let by_y = sort_by(index_seq(ms.len()), key_desc(ys));
        let (anchors, rows) = assign_rows(by_y, ys, row_tolerance(ms));
        let row_order = sort_by(index_seq(anchors.len()), key_desc(anchors));
        flatten_rows(by_y, rows, row_order, xs_of(ms))
    }
}

fn min_height_of(ms: &Vec<WallpaperShellMonitor>) -> (r: i32)
    requires
        ms.len() >= 1,
    ensures
        r as int == min_height(monitor_views(ms@)),
        r >= 1,
{
    let ghost vs = monitor_views(ms@);
    let mut m: i32 = if ms[0].height >= 1 { ms[0].height } else { 1 };
    assert(vs.take(1).len() == 1);
    assert(vs.take(1)[0] == vs[0]);
    for i in 1..ms.len()
        invariant
            vs == monitor_views(ms@),
            ms.len() >= 1,
            m as int == min_height(vs.take(i as int)),
            m >= 1,
    {
        let h: i32 = if ms[i].height >= 1 { ms[i].height } else { 1 };
        assert(vs.take(i + 1).drop_last() =~= vs.take(i as int));
        assert(vs.take(i + 1).last() == vs[i as int]);
        if h < m {
            m = h;
        }
    }
    assert(vs.take(ms.len() as int) =~= vs);
    m
}

/// Puts the monitors in the order their wallpaper indexes count them: rows
/// from top to bottom as `y` decreases, each row from left to right.
pub fn sort_monitors_for_wallpaper_indexes(monitors: &mut Vec<WallpaperShellMonitor>)
    ensures
        monitor_views(final(monitors)@) == wallpaper_monitor_order(monitor_views(old(monitors)@)).map_values(
            |i: usize| monitor_views(old(monitors)@)[i as int],
        ),
{
    let ghost vs = monitor_views(monitors@);
    let n = monitors.len();
    if n <= 1 {
        assert(monitor_views(monitors@) =~= wallpaper_monitor_order(vs).map_values(|i: usize| vs[i as int]));
        return;
    }
    let min_h = min_height_of(monitors);
    let q = min_h / 4;
    let tol: i64 = if q >= 80 { q as i64 } else { 80 };
    let mut ys: Vec<i64> = Vec::new();
    let mut xs: Vec<i64> = Vec::new();
    for i in 0..n
        invariant
            n == monitors.len(),
            vs == monitor_views(monitors@),
            ys@ == ys_of(vs).take(i as int),
            xs@ == xs_of(vs).take(i as int),
    {
        ys.push(monitors[i].y as i64);
        xs.push(monitors[i].x as i64);
        assert(ys@ =~= ys_of(vs).take(i + 1));
        assert(xs@ =~= xs_of(vs).take(i + 1));
    }
    assert(ys@ =~= ys_of(vs));
    assert(xs@ =~= xs_of(vs));
    let all = index_vec(n);
    let by_y = sort_indices_by_key(&all, &ys, true);
    proof {
        lemma_sort_by_multiset(all@, key_order(ys@, true));
        lemma_sorted_indices_in_range(all@, key_order(ys@, true), n as int);
    }
    // Group into rows.
    let mut anchors: Vec<i64> = Vec::new();
    let mut rows: Vec<usize> = Vec::new();
    for k in 0..by_y.len()
        invariant
            by_y@.len() == n,
            ys@.len() == n,
            forall|j: int| 0 <= j < n ==> #[trigger] by_y@[j] < n,
            (anchors@, rows@) == assign_rows(by_y@.take(k as int), ys@, tol as int),
            anchors@.len() <= k,
            rows@.len() == k,
            tol == row_tolerance(vs),
            -0x1_0000_0000 <= tol <= 0x1_0000_0000,
            forall|j: int| 0 <= j < anchors@.len() ==> -0x8000_0000 <= #[trigger] anchors@[j] < 0x8000_0000,
            forall|j: int| 0 <= j < ys@.len() ==> -0x8000_0000 <= #[trigger] ys@[j] < 0x8000_0000,
    {
        let idx = by_y[k];
        let y = ys[idx];
        let mut r: usize = 0;
        while r < anchors.len() && !within(y, anchors[r], tol)
            invariant
                r <= anchors@.len(),
                forall|j: int| 0 <= j < anchors@.len() ==> -0x8000_0000 <= #[trigger] anchors@[j] < 0x8000_0000,
                -0x8000_0000 <= y < 0x8000_0000,
                -0x1_0000_0000 <= tol <= 0x1_0000_0000,
                forall|j: int| 0 <= j < r ==> abs_diff(y as int, #[trigger] anchors@[j] as int) > tol,
            decreases anchors.len() - r,
        {
            r += 1;
        }
        proof {
            lemma_first_row(anchors@, y as int, tol as int, r as int);
            assert(by_y@.take(k + 1).drop_last() =~= by_y@.take(k as int));
        }
        if r < anchors.len() {
            rows.push(r);
        } else {
            rows.push(anchors.len());
            anchors.push(y);
        }
    }
    assert(by_y@.take(n as int) =~= by_y@);
    let row_all = index_vec(anchors.len());
    let row_order = sort_indices_by_key(&row_all, &anchors, true);
    proof {
        lemma_sort_by_multiset(row_all@, key_order(anchors@, true));
        lemma_sorted_indices_in_range(row_all@, key_order(anchors@, true), anchors.len() as int);
    }
    let mut order: Vec<usize> = Vec::new();
    for t in 0..row_order.len()
        invariant
            row_order@.len() == anchors@.len(),
            by_y@.len() == n,
            rows@.len() == n,
            xs@.len() == n,
            forall|j: int| 0 <= j < n ==> #[trigger] by_y@[j] < n,
            order@ == flatten_rows(by_y@, rows@, row_order@.take(t as int), xs@),
    {
        let r = row_order[t];
        let mut members: Vec<usize> = Vec::new();
        for k in 0..by_y.len()
            invariant
                by_y@.len() == n,
                rows@.len() == n,
                forall|j: int| 0 <= j < n ==> #[trigger] by_y@[j] < n,
                members@ == row_members(by_y@.take(k as int), rows@.take(k as int), r),
                forall|j: int| 0 <= j < members@.len() ==> #[trigger] members@[j] < n,
        {
            assert(by_y@.take(k + 1).drop_last() =~= by_y@.take(k as int));
            assert(rows@.take(k + 1).drop_last() =~= rows@.take(k as int));
            if rows[k] == r {
                members.push(by_y[k]);
            }
        }
        assert(by_y@.take(n as int) =~= by_y@);
        assert(rows@.take(n as int) =~= rows@);
        let sorted_row = sort_indices_by_key(&members, &xs, false);
        let ghost before = order@;
        push_all_usize(&mut order, &sorted_row);
        assert(row_order@.take(t + 1).drop_last() =~= row_order@.take(t as int));
    }
    assert(row_order@.take(row_order.len() as int) =~= row_order@);
    proof {
        lemma_flatten_in_range(by_y@, rows@, row_order@, xs@, n as int);
    }
    let mut out: Vec<WallpaperShellMonitor> = Vec::new();
    for k in 0..order.len()
        invariant
            n == monitors.len(),
            vs == monitor_views(monitors@),
            forall|j: int| 0 <= j < order@.len() ==> #[trigger] order@[j] < n,
            monitor_views(out@) == order@.take(k as int).map_values(|i: usize| vs[i as int]),
    {
        let m = monitors[order[k]].duplicate();
        let ghost before = out@;
        assert(m.view() == vs[order@[k as int] as int]);
        out.push(m);
        assert(monitor_views(out@) =~= monitor_views(before).push(m.view()));
        assert(monitor_views(out@) =~= order@.take(k + 1).map_values(|i: usize| vs[i as int]));
    }
    assert(order@.take(order.len() as int) =~= order@);
    assert(tol as int == row_tolerance(vs));
    *monitors = out;
}

fn within(y: i64, anchor: i64, tol: i64) -> (r: bool)
    requires
        -0x8000_0000 <= y < 0x8000_0000,
        -0x8000_0000 <= anchor < 0x8000_0000,
    ensures
        r == (abs_diff(y as int, anchor as int) <= tol),
{
    let d = if y >= anchor { y - anchor } else { anchor - y };
    d <= tol
}

fn push_all_usize(out: &mut Vec<usize>, t: &Vec<usize>)
    ensures
        final(out)@ == old(out)@ + t@,
{
    let ghost start = out@;
    for i in 0..t.len()
        invariant
            out@ == start + t@.take(i as int),
    {
        out.push(t[i]);
        assert(t@.take(i + 1) == t@.take(i as int).push(t@[i as int]));
    }
    assert(t@.take(t.len() as int) =~= t@);
}

proof fn lemma_first_row(anchors: Seq<i64>, y: int, tol: int, r: int)
    requires
        0 <= r <= anchors.len(),
        forall|j: int| 0 <= j < r ==> abs_diff(y, #[trigger] anchors[j] as int) > tol,
        r < anchors.len() ==> abs_diff(y, anchors[r] as int) <= tol,
    ensures
        first_row(anchors, y, tol) == r,
    decreases anchors.len(),
{
    if anchors.len() > 0 {
        if r < anchors.len() - 1 {
            lemma_first_row(anchors.drop_last(), y, tol, r);
        } else {
            let d = anchors.drop_last();
            assert forall|j: int| 0 <= j < d.len() implies abs_diff(y, #[trigger] d[j] as int) > tol by {
                assert(d[j] == anchors[j]);
            }
            lemma_first_row(d, y, tol, d.len() as int);
        }
    }
}

proof fn lemma_sorted_indices_in_range(all: Seq<usize>, lt: spec_fn(usize, usize) -> bool, n: int)
    requires
        forall|j: int| 0 <= j < all.len() ==> #[trigger] all[j] < n,
        sort_by(all, lt).to_multiset() == all.to_multiset(),
    ensures
        forall|j: int| 0 <= j < sort_by(all, lt).len() ==> #[trigger] sort_by(all, lt)[j] < n,
{
    broadcast use vstd::seq_lib::group_to_multiset_ensures;
    let s = sort_by(all, lt);
    assert forall|j: int| 0 <= j < s.len() implies #[trigger] s[j] < n by {
        assert(s.to_multiset().count(s[j]) > 0);
        assert(all.to_multiset().count(s[j]) > 0);
        assert(all.contains(s[j]));
    }
}

proof fn lemma_row_members_in_range(order: Seq<usize>, rows: Seq<usize>, r: usize, n: int)
    requires
        forall|j: int| 0 <= j < order.len() ==> #[trigger] order[j] < n,
    ensures
        forall|j: int| 0 <= j < row_members(order, rows, r).len() ==> #[trigger] row_members(order, rows, r)[j] < n,
    decreases order.len(),
{
    if order.len() > 0 && rows.len() > 0 {
        lemma_row_members_in_range(order.drop_last(), rows.drop_last(), r, n);
        let rest = row_members(order.drop_last(), rows.drop_last(), r);
        let m = row_members(order, rows, r);
        assert forall|j: int| 0 <= j < m.len() implies #[trigger] m[j] < n by {
            if j < rest.len() {
                assert(m[j] == rest[j]);
            }
        }
    }
}

proof fn lemma_flatten_in_range(order: Seq<usize>, rows: Seq<usize>, row_order: Seq<usize>, xs: Seq<i64>, n: int)
    requires
        forall|j: int| 0 <= j < order.len() ==> #[trigger] order[j] < n,
    ensures
        forall|j: int| 0 <= j < flatten_rows(order, rows, row_order, xs).len() ==> #[trigger] flatten_rows(
            order,
            rows,
            row_order,
            xs,
        )[j] < n,
    decreases row_order.len(),
{
    if row_order.len() > 0 {
        lemma_flatten_in_range(order, rows, row_order.drop_last(), xs, n);
        let m = row_members(order, rows, row_order.last());
        lemma_row_members_in_range(order, rows, row_order.last(), n);
        lemma_sort_by_multiset(m, key_asc(xs));
        lemma_sorted_indices_in_range(m, key_asc(xs), n);
        let a = flatten_rows(order, rows, row_order.drop_last(), xs);
        let b = sort_by(m, key_asc(xs));
        let f = flatten_rows(order, rows, row_order, xs);
        assert forall|j: int| 0 <= j < f.len() implies #[trigger] f[j] < n by {
            if j < a.len() {
                assert(f[j] == a[j]);
            } else {
                assert(f[j] == b[j - a.len()]);
            }
        }
    }
}


proof fn lemma_first_row_range(anchors: Seq<i64>, y: int, tol: int)
    ensures
        0 <= first_row(anchors, y, tol) <= anchors.len(),
    decreases anchors.len(),
{
    if anchors.len() > 0 {
        lemma_first_row_range(anchors.drop_last(), y, tol);
    }
}

proof fn lemma_assign_rows_shape(order: Seq<usize>, ys: Seq<i64>, tol: int)
    ensures
        assign_rows(order, ys, tol).1.len() == order.len(),
        assign_rows(order, ys, tol).0.len() <= order.len(),
        forall|j: int|
            0 <= j < order.len() ==> #[trigger] assign_rows(order, ys, tol).1[j] < assign_rows(order, ys, tol).0.len(),
    decreases order.len(),
{
    if order.len() > 0 {
        let d = order.drop_last();
        lemma_assign_rows_shape(d, ys, tol);
        let (anchors, rows) = assign_rows(d, ys, tol);
        let y = ys[order.last() as int];
        lemma_first_row_range(anchors, y as int, tol);
        let res = assign_rows(order, ys, tol);
        assert forall|j: int| 0 <= j < order.len() implies #[trigger] res.1[j] < res.0.len() by {
            if j < d.len() {
                assert(res.1[j] == rows[j]);
            }
        }
    }
}

/// How many positions of `order` hold `x` and are placed in row `r`.
spec fn hits(order: Seq<usize>, rows: Seq<usize>, r: usize, x: usize) -> nat
    decreases order.len(),
{
    if order.len() == 0 || rows.len() == 0 {
        0
    } else {
        hits(order.drop_last(), rows.drop_last(), r, x) + if order.last() == x && rows.last() == r { 1nat } else { 0nat }
    }
}

/// `hits` summed over the rows of `row_order`.
spec fn row_hits(order: Seq<usize>, rows: Seq<usize>, row_order: Seq<usize>, x: usize) -> nat
    decreases row_order.len(),
{
    if row_order.len() == 0 {
        0
    } else {
        row_hits(order, rows, row_order.drop_last(), x) + hits(order, rows, row_order.last(), x)
    }
}

proof fn lemma_row_members_count(order: Seq<usize>, rows: Seq<usize>, r: usize, x: usize)
    ensures
        row_members(order, rows, r).to_multiset().count(x) == hits(order, rows, r, x),
    decreases order.len(),
{
    broadcast use vstd::seq_lib::group_to_multiset_ensures;
    broadcast use vstd::multiset::group_multiset_axioms;
    if order.len() > 0 && rows.len() > 0 {
        lemma_row_members_count(order.drop_last(), rows.drop_last(), r, x);
    }
}

proof fn lemma_flatten_count(order: Seq<usize>, rows: Seq<usize>, row_order: Seq<usize>, xs: Seq<i64>, x: usize)
    ensures
        flatten_rows(order, rows, row_order, xs).to_multiset().count(x) == row_hits(order, rows, row_order, x),
    decreases row_order.len(),
{
    broadcast use vstd::multiset::group_multiset_axioms;
    broadcast use vstd::seq_lib::group_to_multiset_ensures;
    if row_order.len() > 0 {
        lemma_flatten_count(order, rows, row_order.drop_last(), xs, x);
        let m = row_members(order, rows, row_order.last());
        lemma_sort_by_multiset(m, key_asc(xs));
        lemma_row_members_count(order, rows, row_order.last(), x);
        let a = flatten_rows(order, rows, row_order.drop_last(), xs);
        let b = sort_by(m, key_asc(xs));
        vstd::seq_lib::lemma_multiset_commutative(a, b);
        assert(flatten_rows(order, rows, row_order, xs) == a + b);
        assert((a + b).to_multiset().count(x) == a.to_multiset().count(x) + b.to_multiset().count(x));
    } else {
        assert(!flatten_rows(order, rows, row_order, xs).contains(x));
    }
}

proof fn lemma_hits_absent(order: Seq<usize>, rows: Seq<usize>, r: usize, x: usize)
    requires
        order.to_multiset().count(x) == 0,
    ensures
        hits(order, rows, r, x) == 0,
    decreases order.len(),
{
    broadcast use vstd::seq_lib::group_to_multiset_ensures;
    broadcast use vstd::multiset::group_multiset_axioms;
    if order.len() > 0 && rows.len() > 0 {
        assert(order.drop_last().push(order.last()) =~= order);
        lemma_hits_absent(order.drop_last(), rows.drop_last(), r, x);
    }
}

proof fn lemma_hits_once(order: Seq<usize>, rows: Seq<usize>, r: usize, x: usize, j0: int)
    requires
        0 <= j0 < order.len(),
        rows.len() == order.len(),
        order[j0] == x,
        order.to_multiset().count(x) == 1,
    ensures
        hits(order, rows, r, x) == (if rows[j0] == r { 1nat } else { 0nat }),
    decreases order.len(),
{
    broadcast use vstd::seq_lib::group_to_multiset_ensures;
    broadcast use vstd::multiset::group_multiset_axioms;
    let d = order.drop_last();
    assert(d.push(order.last()) =~= order);
    if j0 == order.len() - 1 {
        assert(d.to_multiset().count(x) == 0);
        lemma_hits_absent(d, rows.drop_last(), r, x);
    } else {
        assert(d[j0] == x);
        assert(d.to_multiset().count(x) > 0);
        assert(order.last() != x);
        lemma_hits_once(d, rows.drop_last(), r, x, j0);
    }
}

proof fn lemma_row_hits_pick(order: Seq<usize>, rows: Seq<usize>, row_order: Seq<usize>, x: usize, r0: usize, one: bool)
    requires
        forall|r: usize| #[trigger] hits(order, rows, r, x) == (if one && r == r0 { 1nat } else { 0nat }),
    ensures
        row_hits(order, rows, row_order, x) == (if one { row_order.to_multiset().count(r0) } else { 0nat }),
    decreases row_order.len(),
{
    broadcast use vstd::seq_lib::group_to_multiset_ensures;
    broadcast use vstd::multiset::group_multiset_axioms;
    if row_order.len() > 0 {
        assert(row_order.drop_last().push(row_order.last()) =~= row_order);
        lemma_row_hits_pick(order, rows, row_order.drop_last(), x, r0, one);
        assert(hits(order, rows, row_order.last(), x) == (if one && row_order.last() == r0 { 1nat } else { 0nat }));
    }
}

proof fn lemma_index_seq_count(n: nat, x: usize)
    requires
        n <= usize::MAX + 1,
    ensures
        index_seq(n).to_multiset().count(x) == (if x < n { 1nat } else { 0nat }),
    decreases n,
{
    broadcast use vstd::seq_lib::group_to_multiset_ensures;
    broadcast use vstd::multiset::group_multiset_axioms;
    if n > 0 {
        lemma_index_seq_count((n - 1) as nat, x);
        assert(index_seq((n - 1) as nat).push((n - 1) as usize) =~= index_seq(n));
    } else {
        assert(!index_seq(n).contains(x));
    }
}

/// Putting monitors in wallpaper order only reorders them: every monitor
/// appears exactly once.
pub proof fn law_monitor_order_is_permutation(ms: Seq<MonitorV>)
    requires
        ms.len() <= usize::MAX,
    ensures
        wallpaper_monitor_order(ms).to_multiset() == index_seq(ms.len()).to_multiset(),
{
    if ms.len() > 1 {
        let n = ms.len();
        let ys = ys_of(ms);
        let tol = row_tolerance(ms);
        let by_y = sort_by(index_seq(n), key_desc(ys));
        lemma_sort_by_multiset(index_seq(n), key_desc(ys));
        lemma_assign_rows_shape(by_y, ys, tol);
        let anchors = assign_rows(by_y, ys, tol).0;
        let rows = assign_rows(by_y, ys, tol).1;
        let row_order = sort_by(index_seq(anchors.len()), key_desc(anchors));
        lemma_sort_by_multiset(index_seq(anchors.len()), key_desc(anchors));
        let f = flatten_rows(by_y, rows, row_order, xs_of(ms));
        assert(wallpaper_monitor_order(ms) == f);
        assert forall|x: usize| f.to_multiset().count(x) == index_seq(n).to_multiset().count(x) by {
            broadcast use vstd::seq_lib::group_to_multiset_ensures;
            lemma_flatten_count(by_y, rows, row_order, xs_of(ms), x);
            lemma_index_seq_count(n, x);
            if x < n {
                assert(by_y.to_multiset().count(x) == 1);
                assert(by_y.contains(x));
                let j0 = choose|j: int| 0 <= j < by_y.len() && by_y[j] == x;
                let r0 = rows[j0];
                assert forall|r: usize| #[trigger] hits(by_y, rows, r, x) == (if true && r == r0 { 1nat } else { 0nat }) by {
                    lemma_hits_once(by_y, rows, r, x, j0);
                }
                lemma_row_hits_pick(by_y, rows, row_order, x, r0, true);
                lemma_index_seq_count(anchors.len(), r0);
            } else {
                assert forall|r: usize| #[trigger] hits(by_y, rows, r, x) == (if false && r == 0 { 1nat } else { 0nat }) by {
                    lemma_hits_absent(by_y, rows, r, x);
                }
                lemma_row_hits_pick(by_y, rows, row_order, x, 0, false);
            }
        }
        assert(f.to_multiset() =~= index_seq(n).to_multiset());
    }
}

/// Sorting profiles by section only reorders them.
pub proof fn law_profile_sort_keeps_profiles(ps: Seq<ProfileV>)
    ensures
        sort_by(ps, profile_lt()).to_multiset() == ps.to_multiset(),
        sort_by(ps, profile_lt()).len() == ps.len(),
{
    lemma_sort_by_multiset(ps, profile_lt());
}

// ---------------------------------------------------------------------------
// Profiles and assignments
// ---------------------------------------------------------------------------

/// One `wallpaper*` section of the wallpaper addon's configuration.
#[derive(Debug)]
pub struct WallpaperProfileEntry {
    pub section: String,
    pub enabled: bool,
    pub monitor_index: Vec<String>,
    pub wallpaper_id: String,
    pub mode: Option<String>,
    pub z_index: Option<String>,
}

pub open spec fn opt_view(o: Option<String>) -> Option<Seq<char>> {
    match o {
        Some(s) => Some(s@),
        None => None,
    }
}

pub struct ProfileV {
    pub section: Seq<char>,
    pub enabled: bool,
    pub monitor_index: Seq<Seq<char>>,
    pub wallpaper_id: Seq<char>,
    pub mode: Option<Seq<char>>,
    pub z_index: Option<Seq<char>>,
}

impl WallpaperProfileEntry {
    pub open spec fn view(&self) -> ProfileV {
        ProfileV {
            section: self.section@,
            enabled: self.enabled,
            monitor_index: text_views(self.monitor_index@),
            wallpaper_id: self.wallpaper_id@,
            mode: opt_view(self.mode),
            z_index: opt_view(self.z_index),
        }
    }
}

pub open spec fn profile_views(ps: Seq<WallpaperProfileEntry>) -> Seq<ProfileV> {
    ps.map_values(|p: WallpaperProfileEntry| p.view())
}

/// Some key is `p`/`P`: the profile targets the primary monitor.
pub open spec fn has_primary_key(keys: Seq<Seq<char>>) -> bool {
    exists|i: int| 0 <= i < keys.len() && eq_ignore_case(#[trigger] keys[i], "p"@)
}

/// Some key is `*`: the profile targets every monitor left.
pub open spec fn has_star_key(keys: Seq<Seq<char>>) -> bool {
    exists|i: int| 0 <= i < keys.len() && #[trigger] keys[i] == "*"@
}

/// Profiles for the primary monitor come first (0), explicit indexes next
/// (1), catch-all profiles last (2).
pub open spec fn priority_spec(keys: Seq<Seq<char>>) -> u8 {
    if has_primary_key(keys) {
        0
    } else if has_star_key(keys) {
        2
    } else {
        1
    }
}

fn any_primary_key(keys: &Vec<String>) -> (r: bool)
    ensures
        r == has_primary_key(text_views(keys@)),
{
    for i in 0..keys.len()
        invariant
            forall|j: int| 0 <= j < i ==> !eq_ignore_case(#[trigger] text_views(keys@)[j], "p"@),
    {
        if str_eq_ignore_case(keys[i].as_str(), "p") {
            assert(eq_ignore_case(text_views(keys@)[i as int], "p"@));
            return true;
        }
    }
    false
}

fn any_star_key(keys: &Vec<String>) -> (r: bool)
    ensures
        r == has_star_key(text_views(keys@)),
{
    for i in 0..keys.len()
        invariant
            forall|j: int| 0 <= j < i ==> #[trigger] text_views(keys@)[j] != "*"@,
    {
        if str_eq(keys[i].as_str(), "*") {
            assert(text_views(keys@)[i as int] == "*"@);
            return true;
        }
    }
    false
}

/// The pass in which a profile is applied.
pub fn profile_priority(profile: &WallpaperProfileEntry) -> (r: u8)
    ensures
        r == priority_spec(profile.view().monitor_index),
{
    if any_primary_key(&profile.monitor_index) {
        return 0;
    }
    if any_star_key(&profile.monitor_index) {
        return 2;
    }
    1
}

/// The first primary monitor.
pub open spec fn first_primary(ms: Seq<MonitorV>) -> Option<int>
    decreases ms.len(),
{
    if ms.len() == 0 {
        None
    } else {
        match first_primary(ms.drop_last()) {
            Some(i) => Some(i),
            None => if ms.last().primary { Some(ms.len() - 1) } else { None },
        }
    }
}

/// Adds the monitor a numeric key names, when it is a valid, unassigned index
/// not already chosen; `*` and `p` keys add nothing here.
pub open spec fn key_step(out: Seq<usize>, key: Seq<char>, n: nat, assigned: Seq<bool>) -> Seq<usize> {
    if key == "*"@ || eq_ignore_case(key, "p"@) {
        out
    } else {
        match parse_usize_spec(key) {
            Some(idx) => if idx < n && !assigned[idx as int] && !out.contains(idx) {
                out.push(idx)
            } else {
                out
            },
            None => out,
        }
    }
}

pub open spec fn resolve_keys(out: Seq<usize>, keys: Seq<Seq<char>>, n: nat, assigned: Seq<bool>) -> Seq<usize>
    decreases keys.len(),
{
    if keys.len() == 0 {
        out
    } else {
        key_step(resolve_keys(out, keys.drop_last(), n, assigned), keys.last(), n, assigned)
    }
}

/// Adds, in index order, every monitor below `upto` that is neither assigned nor chosen.
pub open spec fn star_fill(out: Seq<usize>, upto: nat, assigned: Seq<bool>) -> Seq<usize>
    decreases upto,
{
    if upto == 0 {
        out
    } else {
        let o = star_fill(out, (upto - 1) as nat, assigned);
        let idx = (upto - 1) as usize;
        if !assigned[idx as int] && !o.contains(idx) {
            o.push(idx)
        } else {
            o
        }
    }
}

/// The monitors (by index) a profile's keys select: the primary monitor for
/// `p` (assigned or not), then each listed index in key order, then for `*`
/// every monitor still free.
pub open spec fn resolve_spec(ms: Seq<MonitorV>, keys: Seq<Seq<char>>, assigned: Seq<bool>) -> Seq<usize> {
    let o0 = if has_primary_key(keys) {
        match first_primary(ms) {
            Some(i) => seq![i as usize],
            None => Seq::empty(),
        }
    } else {
        Seq::empty()
    };
    let o1 = resolve_keys(o0, keys, ms.len(), assigned);
    if has_star_key(keys) {
        star_fill(o1, ms.len(), assigned)
    } else {
        o1
    }
}

fn contains_index(v: &Vec<usize>, x: usize) -> (r: bool)
    ensures
        r == v@.contains(x),
{
    for i in 0..v.len()
        invariant
            forall|j: int| 0 <= j < i ==> v@[j] != x,
    {
        if v[i] == x {
            return true;
        }
    }
    false
}

/// The index of the first primary monitor.
fn find_primary(monitors: &Vec<WallpaperShellMonitor>) -> (r: Option<usize>)
    ensures
        match first_primary(monitor_views(monitors@)) {
            Some(i) => r == Some(i as usize),
            None => r is None,
        },
{
    let ghost ms = monitor_views(monitors@);
    let n = monitors.len();
    let mut i: usize = 0;
    while i < n
        invariant
            n == monitors.len(),
            ms == monitor_views(monitors@),
            i <= n,
            first_primary(ms.take(i as int)) is None,
        decreases n - i,
    {
        assert(ms.take(i + 1).drop_last() =~= ms.take(i as int));
        assert(ms.take(i + 1).last() == monitors@[i as int].view());
        if monitors[i].primary {
            assert(first_primary(ms.take(i + 1)) == Some(i as int));
            proof { lemma_first_primary_prefix(ms, i as int + 1); }
            return Some(i);
        }
        i += 1;
    }
    assert(ms.take(n as int) =~= ms);
    None
}

/// The monitors a profile's keys select, given the monitors already assigned.
pub fn resolve_profile_monitor_indexes(
    monitors: &Vec<WallpaperShellMonitor>,
    keys: &Vec<String>,
    assigned: &Vec<bool>,
) -> (r: Vec<usize>)
    requires
        assigned.len() == monitors.len(),
    ensures
        r@ == resolve_spec(monitor_views(monitors@), text_views(keys@), assigned@),
{
    let ghost ms = monitor_views(monitors@);
    let ghost ks = text_views(keys@);
    let n = monitors.len();
    let mut out: Vec<usize> = Vec::new();
    if any_primary_key(keys) {
        match find_primary(monitors) {
            Some(i) => out.push(i),
            None => {},
        }
        assert(out@ =~= (match first_primary(ms) {
            Some(i) => seq![i as usize],
            None => Seq::<usize>::empty(),
        }));
    }
    let ghost o0 = out@;
    for k in 0..keys.len()
        invariant
            n == monitors.len(),
            assigned.len() == n,
            ks == text_views(keys@),
            out@ == resolve_keys(o0, ks.take(k as int), n as nat, assigned@),
    {
        assert(ks.take(k + 1).drop_last() =~= ks.take(k as int));
        assert(ks.take(k + 1).last() == keys@[k as int]@);
        let key = &keys[k];
        if str_eq(key.as_str(), "*") || str_eq_ignore_case(key.as_str(), "p") {
        } else {
            let cs = chars_of(key.as_str());
            match parse_usize(&cs) {
                Some(idx) => {
                    if idx < n && !assigned[idx] && !contains_index(&out, idx) {
                        out.push(idx);
                    }
                },
                None => {},
            }
        }
    }
    assert(ks.take(keys.len() as int) =~= ks);
    if any_star_key(keys) {
        let ghost o1 = out@;
        for idx in 0..n
            invariant
                n == monitors.len(),
                assigned.len() == n,
                out@ == star_fill(o1, idx as nat, assigned@),
        {
            if !assigned[idx] && !contains_index(&out, idx) {
                out.push(idx);
            }
        }
    }
    out
}

proof fn lemma_first_primary_prefix(ms: Seq<MonitorV>, k: int)
    requires
        0 <= k <= ms.len(),
        first_primary(ms.take(k)) is Some,
    ensures
        first_primary(ms) == first_primary(ms.take(k)),
    decreases ms.len() - k,
{
    if k < ms.len() {
        assert(ms.drop_last().take(k) =~= ms.take(k));
        lemma_first_primary_prefix(ms.drop_last(), k);
    } else {
        assert(ms.take(k) =~= ms);
    }
}

/// Monitor-id → wallpaper-id entries; a later entry for the same monitor
/// overrides an earlier one.
pub open spec fn assignment_map(entries: Seq<(String, String)>) -> Map<Seq<char>, Seq<char>>
    decreases entries.len(),
{
    if entries.len() == 0 {
        Map::empty()
    } else {
        assignment_map(entries.drop_last()).insert(entries.last().0@, entries.last().1@)
    }
}

/// The state of the assignment passes: the assignments so far and which monitors are taken.
pub struct AssignState {
    pub map: Map<Seq<char>, Seq<char>>,
    pub assigned: Seq<bool>,
}

pub open spec fn insert_targets(
    m: Map<Seq<char>, Seq<char>>,
    targets: Seq<usize>,
    ms: Seq<MonitorV>,
    wid: Seq<char>,
) -> Map<Seq<char>, Seq<char>>
    decreases targets.len(),
{
    if targets.len() == 0 {
        m
    } else {
        insert_targets(m, targets.drop_last(), ms, wid).insert(ms[targets.last() as int].id, wid)
    }
}

/// Applies one profile: its selected monitors get its wallpaper and become
/// taken; a catch-all profile also becomes the `*` fallback unless one exists.
pub open spec fn assign_profile(st: AssignState, p: ProfileV, ms: Seq<MonitorV>) -> AssignState {
    let targets = resolve_spec(ms, p.monitor_index, st.assigned);
    if targets.len() == 0 {
        st
    } else {
        let assigned = Seq::new(st.assigned.len(), |i: int| st.assigned[i] || targets.contains(i as usize));
        let m = insert_targets(st.map, targets, ms, p.wallpaper_id);
        let m2 = if has_star_key(p.monitor_index) && !m.contains_key("*"@) {
            m.insert("*"@, p.wallpaper_id)
        } else {
            m
        };
        AssignState { map: m2, assigned }
    }
}

/// Applies, in order, the profiles of one priority.
pub open spec fn assign_pass(st: AssignState, ps: Seq<ProfileV>, prio: u8, ms: Seq<MonitorV>) -> AssignState
    decreases ps.len(),
{
    if ps.len() == 0 {
        st
    } else {
        let s = assign_pass(st, ps.drop_last(), prio, ms);
        if priority_spec(ps.last().monitor_index) == prio {
            assign_profile(s, ps.last(), ms)
        } else {
            s
        }
    }
}

/// The wallpaper each monitor gets from the enabled profiles: primary-monitor
/// profiles first, then explicit indexes, then catch-alls, each pass in
/// profile order.
pub open spec fn assignments_spec(ms: Seq<MonitorV>, ps: Seq<ProfileV>) -> Map<Seq<char>, Seq<char>> {
    let init = AssignState { map: Map::empty(), assigned: Seq::new(ms.len(), |i: int| false) };
    assign_pass(assign_pass(assign_pass(init, ps, 0, ms), ps, 1, ms), ps, 2, ms).map
}

fn has_key(entries: &Vec<(String, String)>, key: &str) -> (r: bool)
    ensures
        r == assignment_map(entries@).contains_key(key@),
{
    let mut i = entries.len();
    assert(entries@.take(i as int) =~= entries@);
    while i > 0
        invariant
            i <= entries.len(),
            assignment_map(entries@).contains_key(key@) == assignment_map(entries@.take(i as int)).contains_key(key@),
        decreases i,
    {
        assert(entries@.take(i as int).drop_last() =~= entries@.take(i - 1));
        if str_eq(entries[i - 1].0.as_str(), key) {
            return true;
        }
        i -= 1;
    }
    assert(entries@.take(0) =~= Seq::<(String, String)>::empty());
    false
}

/// Which monitor shows which wallpaper, from the enabled profiles.  Entries
/// are monitor id → wallpaper id, plus `*` for the catch-all fallback; a
/// later entry for the same key overrides an earlier one.
pub fn build_monitor_assignments(
    monitors: &Vec<WallpaperShellMonitor>,
    profiles: &Vec<WallpaperProfileEntry>,
) -> (r: Vec<(String, String)>)
    ensures
        assignment_map(r@) == assignments_spec(monitor_views(monitors@), profile_views(profiles@)),
{
    broadcast use vstd::seq_lib::lemma_seq_contains_after_push;
    let ghost ms = monitor_views(monitors@);
    let ghost ps = profile_views(profiles@);
    let n = monitors.len();
    let mut entries: Vec<(String, String)> = Vec::new();
    let mut assigned: Vec<bool> = Vec::new();
    for i in 0..n
        invariant
            assigned@ == Seq::new(i as nat, |k: int| false),
    {
        assigned.push(false);
        assert(assigned@ =~= Seq::new((i + 1) as nat, |k: int| false));
    }
    let ghost init = AssignState { map: Map::empty(), assigned: assigned@ };
    assert(assignment_map(entries@) =~= Map::<Seq<char>, Seq<char>>::empty());
    let mut priority: u8 = 0;
    let ghost mut st = init;
    while priority < 3
        invariant
            n == monitors.len(),
            ms == monitor_views(monitors@),
            ps == profile_views(profiles@),
            priority <= 3,
            assigned@.len() == n,
            st.map == assignment_map(entries@),
            st.assigned == assigned@,
            priority == 0 ==> st == init,
            priority == 1 ==> st == assign_pass(init, ps, 0, ms),
            priority == 2 ==> st == assign_pass(assign_pass(init, ps, 0, ms), ps, 1, ms),
            priority == 3 ==> st == assign_pass(assign_pass(assign_pass(init, ps, 0, ms), ps, 1, ms), ps, 2, ms),
            init == (AssignState { map: Map::empty(), assigned: Seq::new(n as nat, |i: int| false) }),
        decreases 3 - priority,
    {
        let ghost start = st;
        for j in 0..profiles.len()
            invariant
                n == monitors.len(),
                ms == monitor_views(monitors@),
                ps == profile_views(profiles@),
                assigned@.len() == n,
                st.map == assignment_map(entries@),
                st.assigned == assigned@,
                st == assign_pass(start, ps.take(j as int), priority, ms),
        {
            assert(ps.take(j + 1).drop_last() =~= ps.take(j as int));
            assert(ps.take(j + 1).last() == profiles@[j as int].view());
            let profile = &profiles[j];
            if profile_priority(profile) == priority {
                let targets = resolve_profile_monitor_indexes(monitors, &profile.monitor_index, &assigned);
                if targets.len() > 0 {
                    proof { lemma_resolve_in_range(ms, profile.view().monitor_index, assigned@); }
                    let ghost before_assigned = assigned@;
                    let ghost before_map = st.map;
                    let mut t: usize = 0;
                    while t < targets.len()
                        invariant
                            n == monitors.len(),
                            ms == monitor_views(monitors@),
                            assigned@.len() == n,
                            forall|k: int| 0 <= k < targets@.len() ==> #[trigger] targets@[k] < n,
                            before_assigned.len() == n,
                            0 <= t <= targets.len(),
                            assignment_map(entries@) == insert_targets(before_map, targets@.take(t as int), ms, profile.view().wallpaper_id),
                            forall|i: int| 0 <= i < n ==> #[trigger] assigned@[i] == (before_assigned[i] || targets@.take(t as int).contains(i as usize)),
                        decreases targets.len() - t,
                    {
                        let index = targets[t];
                        let ghost old_entries = entries@;
                        let ghost old_assigned = assigned@;
                        assigned.set(index, true);
                        entries.push((clone_string(&monitors[index].id), clone_string(&profile.wallpaper_id)));
                        assert(entries@.drop_last() =~= old_entries);
                        assert(ms[index as int].id == monitors@[index as int].id@);
                        assert(targets@.take(t + 1).drop_last() =~= targets@.take(t as int));
                        assert(targets@.take(t + 1) =~= targets@.take(t as int).push(index));
                        assert forall|i: int| 0 <= i < n implies #[trigger] assigned@[i] == (before_assigned[i] || targets@.take(t + 1).contains(i as usize)) by {
                            vstd::seq_lib::lemma_seq_contains_after_push(targets@.take(t as int), index, i as usize);
                            if i != index as int {
                                assert(assigned@[i] == old_assigned[i]);
                            }
                        }
                        t += 1;
                    }
                    assert(targets@.take(targets.len() as int) =~= targets@);
                    if any_star_key(&profile.monitor_index) && !has_key(&entries, "*") {
                        let ghost old_entries = entries@;
                        entries.push((string_from_literal_star(), clone_string(&profile.wallpaper_id)));
                        assert(entries@.drop_last() =~= old_entries);
                    }
                    proof {
                        let new_assigned = Seq::new(before_assigned.len(), |i: int| before_assigned[i] || targets@.contains(i as usize));
                        assert(assigned@ =~= new_assigned);
                        st = assign_profile(st, profile.view(), ms);
                    }
                }
            }
        }
        assert(ps.take(profiles.len() as int) =~= ps);
        priority += 1;
    }
    entries
}

fn string_from_literal_star() -> (r: String)
    ensures
        r@ == "*"@,
{
    crate::text::string_from_str("*")
}

proof fn lemma_resolve_in_range(ms: Seq<MonitorV>, keys: Seq<Seq<char>>, assigned: Seq<bool>)
    requires
        assigned.len() == ms.len(),
    ensures
        forall|k: int| 0 <= k < resolve_spec(ms, keys, assigned).len() ==> #[trigger] resolve_spec(ms, keys, assigned)[k] < ms.len(),
{
    let n = ms.len();
    lemma_first_primary_range(ms);
    let o0 = if has_primary_key(keys) {
        match first_primary(ms) {
            Some(i) => seq![i as usize],
            None => Seq::empty(),
        }
    } else {
        Seq::empty()
    };
    assert(forall|k: int| 0 <= k < o0.len() ==> #[trigger] o0[k] < n);
    lemma_resolve_keys_range(o0, keys, n, assigned);
    let o1 = resolve_keys(o0, keys, n, assigned);
    lemma_star_fill_range(o1, n, assigned, n);
}

proof fn lemma_first_primary_range(ms: Seq<MonitorV>)
    ensures
        first_primary(ms) matches Some(i) ==> 0 <= i < ms.len() && ms[i].primary,
    decreases ms.len(),
{
    if ms.len() > 0 {
        lemma_first_primary_range(ms.drop_last());
    }
}

proof fn lemma_resolve_keys_range(out: Seq<usize>, keys: Seq<Seq<char>>, n: nat, assigned: Seq<bool>)
    requires
        forall|k: int| 0 <= k < out.len() ==> #[trigger] out[k] < n,
    ensures
        forall|k: int| 0 <= k < resolve_keys(out, keys, n, assigned).len() ==> #[trigger] resolve_keys(out, keys, n, assigned)[k] < n,
    decreases keys.len(),
{
    if keys.len() > 0 {
        lemma_resolve_keys_range(out, keys.drop_last(), n, assigned);
        let o = resolve_keys(out, keys.drop_last(), n, assigned);
        let r = resolve_keys(out, keys, n, assigned);
        assert forall|k: int| 0 <= k < r.len() implies #[trigger] r[k] < n by {
            if k < o.len() {
                assert(r[k] == o[k]);
            }
        }
    }
}

proof fn lemma_star_fill_range(out: Seq<usize>, upto: nat, assigned: Seq<bool>, n: nat)
    requires
        upto <= n,
        forall|k: int| 0 <= k < out.len() ==> #[trigger] out[k] < n,
    ensures
        forall|k: int| 0 <= k < star_fill(out, upto, assigned).len() ==> #[trigger] star_fill(out, upto, assigned)[k] < n,
    decreases upto,
{
    if upto > 0 {
        lemma_star_fill_range(out, (upto - 1) as nat, assigned, n);
        let o = star_fill(out, (upto - 1) as nat, assigned);
        let r = star_fill(out, upto, assigned);
        assert forall|k: int| 0 <= k < r.len() implies #[trigger] r[k] < n by {
            if k < o.len() {
                assert(r[k] == o[k]);
            }
        }
    }
}


// ---------------------------------------------------------------------------
// Profile section order
// ---------------------------------------------------------------------------

/// The sort key of a profile section: `wallpaper` first, then `wallpaperN`
/// by the number `N`, then every other name.
pub open spec fn section_key(section: Seq<char>) -> (u8, u32, Seq<char>) {
    if section == "wallpaper"@ {
        (0, 0, section)
    } else {
        match strip_prefix(section, "wallpaper"@) {
            Some(suffix) => match parse_u32_spec(suffix) {
                Some(n) => (1, n, section),
                None => (2, u32::MAX, section),
            },
            None => (2, u32::MAX, section),
        }
    }
}

/// Lexicographic order on section keys (the tuple order).
pub open spec fn key_lt(a: (u8, u32, Seq<char>), b: (u8, u32, Seq<char>)) -> bool {
    a.0 < b.0 || (a.0 == b.0 && (a.1 < b.1 || (a.1 == b.1 && chars_lt(a.2, b.2))))
}

/// Profiles ordered by their section keys.
pub open spec fn profile_lt() -> spec_fn(ProfileV, ProfileV) -> bool {
    |a: ProfileV, b: ProfileV| key_lt(section_key(a.section), section_key(b.section))
}

pub open spec fn key_view(k: (u8, u32, String)) -> (u8, u32, Seq<char>) {
    (k.0, k.1, k.2@)
}

/// The sort key of a profile section.
pub fn wallpaper_section_order_key(section: &str) -> (r: (u8, u32, String))
    ensures
        key_view(r) == section_key(section@),
{
    if str_eq(section, "wallpaper") {
        return (0, 0, crate::text::string_from_str(section));
    }
    let cs = chars_of(section);
    match chars_strip_prefix(&cs, "wallpaper") {
        Some(suffix) => match parse_u32(&suffix) {
            Some(n) => {
                return (1, n, crate::text::string_from_str(section));
            },
            None => {},
        },
        None => {},
    }
    (2, u32::MAX, crate::text::string_from_str(section))
}

fn key_less(a: &(u8, u32, String), b: &(u8, u32, String)) -> (r: bool)
    ensures
        r == key_lt(key_view(*a), key_view(*b)),
{
    if a.0 != b.0 {
        a.0 < b.0
    } else if a.1 != b.1 {
        a.1 < b.1
    } else {
        str_less(a.2.as_str(), b.2.as_str())
    }
}

/// Profiles in section order (stable: equal keys keep their order).
pub fn sort_profiles_by_section(profiles: Vec<WallpaperProfileEntry>) -> (r: Vec<WallpaperProfileEntry>)
    ensures
        profile_views(r@) == sort_by(profile_views(profiles@), profile_lt()),
{
    let ghost input = profile_views(profiles@);
    let ghost lt = profile_lt();
    let n = profiles.len();
    let mut rest = profiles;
    let mut out: Vec<WallpaperProfileEntry> = Vec::new();
    let mut keys: Vec<(u8, u32, String)> = Vec::new();
    let mut i: usize = 0;
    while i < n
        invariant
            i <= n,
            n == input.len(),
            lt == profile_lt(),
            rest.len() == n - i,
            profile_views(rest@) == input.skip(i as int),
            profile_views(out@) == sort_by(input.take(i as int), lt),
            keys.len() == out.len(),
            forall|k: int| 0 <= k < keys.len() ==> key_view(#[trigger] keys@[k]) == section_key(out@[k].section@),
        decreases n - i,
    {
        assert(profile_views(rest@)[0] == input[i as int]);
        let ghost rest_before = rest@;
        let x = rest.remove(0);
        assert(profile_views(rest@) =~= input.skip(i + 1)) by {
            assert forall|k: int| 0 <= k < rest.len() implies #[trigger] profile_views(rest@)[k] == input.skip(i + 1)[k] by {
                assert(profile_views(rest_before)[k + 1] == input.skip(i as int)[k + 1]);
            }
        }
        let kx = wallpaper_section_order_key(x.section.as_str());
        let mut j = out.len();
        while j > 0 && key_less(&kx, &keys[j - 1])
            invariant
                0 <= j <= out.len(),
                keys.len() == out.len(),
                lt == profile_lt(),
                key_view(kx) == section_key(x.section@),
                forall|k: int| 0 <= k < keys.len() ==> key_view(#[trigger] keys@[k]) == section_key(out@[k].section@),
                forall|k: int| j <= k < out.len() ==> lt(x.view(), #[trigger] profile_views(out@)[k]),
            decreases j,
        {
            assert(key_view(keys@[j - 1]) == section_key(out@[j - 1].section@));
            j -= 1;
        }
        proof {
            if j > 0 {
                assert(key_view(keys@[j - 1]) == section_key(out@[j - 1].section@));
            }
            lemma_insert_by_splice(profile_views(out@), x.view(), lt, j as int);
            assert(input.take(i + 1).drop_last() =~= input.take(i as int));
            assert(input.take(i + 1).last() == x.view());
        }
        let ghost before = profile_views(out@);
        let ghost keys_before = keys@;
        out.insert(j, x);
        keys.insert(j, kx);
        assert(profile_views(out@) =~= before.insert(j as int, input[i as int]));
        assert forall|k: int| 0 <= k < keys.len() implies key_view(#[trigger] keys@[k]) == section_key(out@[k].section@) by {
            if k < j {
            } else if k == j {
            } else {
                assert(keys@[k] == keys_before[k - 1]);
            }
        }
        i += 1;
    }
    assert(input.take(n as int) =~= input);
    out
}


// ---------------------------------------------------------------------------
// Reading profile sections
// ---------------------------------------------------------------------------

/// `as_str` on an entry that may be missing.
pub open spec fn opt_text(n: Option<YamlV>) -> Option<Seq<char>> {
    match n {
        Some(y) => as_text(y),
        None => None,
    }
}

/// `as_bool` on an entry that may be missing.
pub open spec fn opt_flag(n: Option<YamlV>) -> Option<bool> {
    match n {
        Some(y) => as_flag(y),
        None => None,
    }
}

/// The monitor keys of a profile: the texts of its `monitor_index`
/// sequence (`["*"]` when there are none), a lone text, or `["*"]`.
pub open spec fn monitor_keys(n: Option<YamlV>) -> Seq<Seq<char>> {
    match n {
        Some(YamlV::Sequence(items)) => {
            let p = str_items(items);
            if p.len() == 0 { seq!["*"@] } else { p }
        },
        Some(YamlV::Str(t)) => seq![t],
        _ => seq!["*"@],
    }
}

pub open spec fn lower_opt(o: Option<Seq<char>>) -> Option<Seq<char>> {
    match o {
        Some(t) => Some(unicode_lower(t)),
        None => None,
    }
}

/// The profile a section describes: none without a non-blank text
/// `wallpaper_id`; enabled unless `enabled` is `false`; `mode` and `z_index`
/// lower-cased.
pub open spec fn section_profile(section: Seq<char>, ms: Seq<(YamlV, YamlV)>) -> Option<ProfileV> {
    match opt_text(map_get(ms, "wallpaper_id"@)) {
        None => None,
        Some(w) => {
            let id = trim(w);
            if id.len() == 0 {
                None
            } else {
                Some(ProfileV {
                    section,
                    enabled: match opt_flag(map_get(ms, "enabled"@)) {
                        Some(b) => b,
                        None => true,
                    },
                    monitor_index: monitor_keys(map_get(ms, "monitor_index"@)),
                    wallpaper_id: id,
                    mode: lower_opt(opt_text(map_get(ms, "mode"@))),
                    z_index: lower_opt(opt_text(map_get(ms, "z_index"@))),
                })
            }
        },
    }
}

fn star_key() -> (r: Vec<String>)
    ensures
        text_views(r@) == seq!["*"@],
{
    let v = vec![string_from_str("*")];
    assert(text_views(v@) =~= seq!["*"@]);
    v
}

fn read_monitor_keys(ms: &Vec<(Yaml, Yaml)>) -> (r: Vec<String>)
    ensures
        text_views(r@) == monitor_keys(map_get(yaml_pairs(ms@), "monitor_index"@)),
{
    match find_key(ms, "monitor_index") {
        Some(j) => {
            proof { lemma_yaml_pairs_index(ms@, j as int); }
            match &ms[j].1 {
                Yaml::Sequence(items) => {
                    let p = text_items_of(items);
                    assert(text_views(p@) =~= text_views(p@));
                    if p.len() == 0 {
                        star_key()
                    } else {
                        p
                    }
                },
                Yaml::Str(t) => {
                    let r = vec![clone_string(t)];
                    assert(text_views(r@) =~= seq![t@]);
                    r
                },
                _ => star_key(),
            }
        },
        None => star_key(),
    }
}

fn field_text(ms: &Vec<(Yaml, Yaml)>, name: &str) -> (r: Option<String>)
    ensures
        opt_view(r) == opt_text(map_get(yaml_pairs(ms@), name@)),
{
    match find_key(ms, name) {
        Some(j) => {
            proof { lemma_yaml_pairs_index(ms@, j as int); }
            match text_value(&ms[j].1) {
                Some(t) => Some(clone_string(t)),
                None => None,
            }
        },
        None => None,
    }
}

fn field_flag(ms: &Vec<(Yaml, Yaml)>, name: &str) -> (r: Option<bool>)
    ensures
        r == opt_flag(map_get(yaml_pairs(ms@), name@)),
{
    match find_key(ms, name) {
        Some(j) => {
            proof { lemma_yaml_pairs_index(ms@, j as int); }
            match untag(&ms[j].1) {
                Yaml::Bool(b) => Some(*b),
                _ => None,
            }
        },
        None => None,
    }
}

fn lower_option(o: &Option<String>) -> (r: Option<String>)
    ensures
        opt_view(r) == lower_opt(opt_view(*o)),
{
    match o {
        Some(t) => Some(to_lowercase(t.as_str())),
        None => None,
    }
}

/// Reads one `wallpaper*` section (a mapping) into a profile.
pub fn parse_wallpaper_profile_section(section: &str, map: &Vec<(Yaml, Yaml)>) -> (r: Option<WallpaperProfileEntry>)
    ensures
        match r {
            Some(p) => section_profile(section@, yaml_pairs(map@)) == Some(p.view()),
            None => section_profile(section@, yaml_pairs(map@)) is None,
        },
{
    let w = match field_text(map, "wallpaper_id") {
        Some(w) => w,
        None => {
            return None;
        },
    };
    let id = str_trim(w.as_str());
    if id.len() == 0 {
        return None;
    }
    let enabled = match field_flag(map, "enabled") {
        Some(b) => b,
        None => true,
    };
    let monitor_index = read_monitor_keys(map);
    let mode = lower_option(&field_text(map, "mode"));
    let z_index = lower_option(&field_text(map, "z_index"));
    Some(WallpaperProfileEntry {
        section: string_from_str(section),
        enabled,
        monitor_index,
        wallpaper_id: string_from_chars(&id),
        mode,
        z_index,
    })
}

/// The profiles of a mapping's entries whose keys are texts starting with
/// `wallpaper` and whose values are mappings, in order.
pub open spec fn profiles_in(ms: Seq<(YamlV, YamlV)>) -> Seq<ProfileV>
    decreases ms.len(),
{
    if ms.len() == 0 {
        Seq::empty()
    } else {
        let rest = profiles_in(ms.drop_last());
        match (as_text(ms.last().0), as_entries(ms.last().1)) {
            (Some(name), Some(sec)) => if starts_with(name, "wallpaper"@) {
                match section_profile(name, sec) {
                    Some(p) => rest.push(p),
                    None => rest,
                }
            } else {
                rest
            },
            _ => rest,
        }
    }
}

/// The profiles of a wallpaper configuration, unsorted: those of its
/// top-level sections, then those under `wallpapers`.
pub open spec fn config_profiles(root: YamlV) -> Seq<ProfileV> {
    match as_entries(root) {
        None => Seq::empty(),
        Some(ms) => profiles_in(ms) + match map_get(ms, "wallpapers"@) {
            Some(YamlV::Mapping(ws)) => profiles_in(ws),
            _ => Seq::empty(),
        },
    }
}

fn collect_into(ms: &Vec<(Yaml, Yaml)>, out: &mut Vec<WallpaperProfileEntry>)
    ensures
        profile_views(final(out)@) == profile_views(old(out)@) + profiles_in(yaml_pairs(ms@)),
{
    let ghost start = profile_views(out@);
    let ghost pv = yaml_pairs(ms@);
    proof { lemma_yaml_pairs_len(ms@); }
    let prefix = chars_of("wallpaper");
    for i in 0..ms.len()
        invariant
            prefix@ == "wallpaper"@,
            pv == yaml_pairs(ms@),
            pv.len() == ms.len(),
            profile_views(out@) == start + profiles_in(pv.take(i as int)),
    {
        proof { lemma_yaml_pairs_index(ms@, i as int); }
        assert(pv.take(i + 1).drop_last() =~= pv.take(i as int));
        assert(pv.take(i + 1).last() == pv[i as int]);
        match text_value(&ms[i].0) {
            Some(name) => {
                let nc = chars_of(name.as_str());
                match untag(&ms[i].1) {
                    Yaml::Mapping(sec) => {
                        if chars_starts_with(&nc, &prefix) {
                            match parse_wallpaper_profile_section(name.as_str(), sec) {
                                Some(p) => {
                                    let ghost before = profile_views(out@);
                                    out.push(p);
                                    assert(profile_views(out@) =~= before.push(p.view()));
                                },
                                None => {},
                            }
                        }
                    },
                    _ => {},
                }
            },
            None => {},
        }
        assert(profile_views(out@) =~= start + profiles_in(pv.take(i + 1)));
    }
    assert(pv.take(ms.len() as int) =~= pv);
}

/// The profiles of a wallpaper configuration, sorted by section.
pub fn parse_wallpaper_profiles(root: &Yaml) -> (r: Vec<WallpaperProfileEntry>)
    ensures
        profile_views(r@) == sort_by(config_profiles(root.view()), profile_lt()),
{
    let mut out: Vec<WallpaperProfileEntry> = Vec::new();
    assert(profile_views(out@) =~= Seq::<ProfileV>::empty());
    match untag(root) {
        Yaml::Mapping(ms) => {
            collect_into(ms, &mut out);
            let ghost first = profile_views(out@);
            match find_key(ms, "wallpapers") {
                Some(j) => {
                    proof { lemma_yaml_pairs_index(ms@, j as int); }
                    match &ms[j].1 {
                        Yaml::Mapping(ws) => collect_into(ws, &mut out),
                        _ => {
                            assert(profile_views(out@) =~= first + Seq::<ProfileV>::empty());
                        },
                    }
                },
                None => {
                    assert(profile_views(out@) =~= first + Seq::<ProfileV>::empty());
                },
            }
        },
        _ => {},
    }
    sort_profiles_by_section(out)
}

// ---------------------------------------------------------------------------
// Writing wallpapers back into the configuration
// ---------------------------------------------------------------------------

/// The value with the mapping under its tags replaced by `ms`.
pub open spec fn with_entries(v: YamlV, ms: Seq<(YamlV, YamlV)>) -> YamlV
    decreases v,
{
    match v {
        YamlV::Tagged(t, b) => YamlV::Tagged(t, Box::new(with_entries(*b, ms))),
        YamlV::Mapping(_) => YamlV::Mapping(ms),
        _ => v,
    }
}

/// The indexes a section lists now: its `monitor_index` sequence's texts,
/// a lone text, or none.
pub open spec fn current_indexes(sec: Seq<(YamlV, YamlV)>) -> Seq<Seq<char>> {
    match map_get(sec, "monitor_index"@) {
        Some(YamlV::Sequence(items)) => str_items(items),
        Some(YamlV::Str(s)) => seq![s],
        _ => Seq::empty(),
    }
}

/// The entry's value is a section that lists exactly the one index `index`.
pub open spec fn section_targets(v: YamlV, index: Seq<char>) -> bool {
    match as_entries(v) {
        Some(sec) => current_indexes(sec) == seq![index],
        None => false,
    }
}

/// The first section that lists exactly `index`.
pub open spec fn first_target_section(ws: Seq<(YamlV, YamlV)>, index: Seq<char>) -> Option<int>
    decreases ws.len(),
{
    if ws.len() == 0 {
        None
    } else {
        match first_target_section(ws.drop_last(), index) {
            Some(i) => Some(i),
            None => if section_targets(ws.last().1, index) { Some(ws.len() - 1) } else { None },
        }
    }
}

/// One more than the largest `N` of the `wallpaperN` keys (0 when there is none).
pub open spec fn next_suffix(ws: Seq<(YamlV, YamlV)>) -> nat
    decreases ws.len(),
{
    if ws.len() == 0 {
        0
    } else {
        let m = next_suffix(ws.drop_last());
        match as_text(ws.last().0) {
            Some(k) => match strip_prefix(k, "wallpaper"@) {
                Some(suffix) => match parse_u32_spec(suffix) {
                    Some(n) => if n + 1 > m { (n + 1) as nat } else { m },
                    None => m,
                },
                None => m,
            },
            None => m,
        }
    }
}

/// A section made to show `wid`: enabled, with the default `mode` (`fill`)
/// and `z_index` (`desktop`) where they are missing.
pub open spec fn refreshed_section(sec: Seq<(YamlV, YamlV)>, wid: Seq<char>) -> Seq<(YamlV, YamlV)> {
    let s1 = map_set(sec, "wallpaper_id"@, YamlV::Str(wid));
    let s2 = map_set(s1, "enabled"@, YamlV::Bool(true));
    let s3 = if map_get(s2, "mode"@) is Some { s2 } else { map_set(s2, "mode"@, YamlV::Str("fill"@)) };
    if map_get(s3, "z_index"@) is Some { s3 } else { map_set(s3, "z_index"@, YamlV::Str("desktop"@)) }
}

/// A new section for one monitor index.
pub open spec fn new_section(index: Seq<char>, wid: Seq<char>) -> YamlV {
    YamlV::Mapping(seq![
        (YamlV::Str("enabled"@), YamlV::Bool(true)),
        (YamlV::Str("monitor_index"@), YamlV::Sequence(seq![YamlV::Str(index)])),
        (YamlV::Str("wallpaper_id"@), YamlV::Str(wid)),
        (YamlV::Str("mode"@), YamlV::Str("fill"@)),
        (YamlV::Str("z_index"@), YamlV::Str("desktop"@)),
    ])
}

/// Recording that monitor index `index` shows `wid`: the first section that
/// lists exactly that index is refreshed; otherwise a section `wallpaperN`
/// is added, `N` one past the largest number of the `wallpaperN` keys.
pub open spec fn upserted(ws: Seq<(YamlV, YamlV)>, index: Seq<char>, wid: Seq<char>) -> Seq<(YamlV, YamlV)> {
    match first_target_section(ws, index) {
        Some(i) => ws.update(
            i,
            (ws[i].0, with_entries(ws[i].1, refreshed_section(entries_or_empty(untagged(ws[i].1)), wid))),
        ),
        None => map_set(ws, "wallpaper"@ + decimal(next_suffix(ws)), new_section(index, wid)),
    }
}

fn index_texts(sec: &Vec<(Yaml, Yaml)>) -> (r: Vec<String>)
    ensures
        text_views(r@) == current_indexes(yaml_pairs(sec@)),
{
    match find_key(sec, "monitor_index") {
        Some(j) => {
            proof { lemma_yaml_pairs_index(sec@, j as int); }
            match &sec[j].1 {
                Yaml::Sequence(items) => {
                    let p = text_items_of(items);
                    assert(text_views(p@) =~= text_views(p@));
                    p
                },
                Yaml::Str(t) => {
                    let r = vec![clone_string(t)];
                    assert(text_views(r@) =~= seq![t@]);
                    r
                },
                _ => {
                    let r: Vec<String> = Vec::new();
                    assert(text_views(r@) =~= Seq::<Seq<char>>::empty());
                    r
                },
            }
        },
        None => {
            let r: Vec<String> = Vec::new();
            assert(text_views(r@) =~= Seq::<Seq<char>>::empty());
            r
        },
    }
}

fn targets_index(v: &Yaml, index: &str) -> (r: bool)
    ensures
        r == section_targets(v.view(), index@),
{
    match untag(v) {
        Yaml::Mapping(sec) => {
            let p = index_texts(sec);
            let ghost cur = current_indexes(yaml_pairs(sec@));
            if p.len() == 1 {
                let b = str_eq(p[0].as_str(), index);
                proof {
                    assert(text_views(p@)[0] == p@[0]@);
                    if cur == seq![index@] {
                        assert(cur[0] == index@);
                    }
                    if b {
                        assert(cur =~= seq![index@]);
                    }
                }
                b
            } else {
                proof {
                    if cur == seq![index@] {
                        assert(cur.len() == 1);
                    }
                }
                false
            }
        },
        _ => false,
    }
}

fn refresh_section(sec: &mut Vec<(Yaml, Yaml)>, wid: &str)
    ensures
        yaml_pairs(final(sec)@) == refreshed_section(yaml_pairs(old(sec)@), wid@),
{
    map_insert(sec, "wallpaper_id", Yaml::Str(string_from_str(wid)));
    map_insert(sec, "enabled", Yaml::Bool(true));
    match find_key(sec, "mode") {
        Some(_) => {},
        None => map_insert(sec, "mode", Yaml::Str(string_from_str("fill"))),
    }
    match find_key(sec, "z_index") {
        Some(_) => {},
        None => map_insert(sec, "z_index", Yaml::Str(string_from_str("desktop"))),
    }
}

/// The mapping under a value's tags, copied.
fn entries_of(v: &Yaml) -> (r: Option<Vec<(Yaml, Yaml)>>)
    ensures
        match as_entries(v.view()) {
            Some(ms) => r matches Some(e) && yaml_pairs(e@) == ms,
            None => r is None,
        },
{
    match untag(v) {
        Yaml::Mapping(ms) => Some(duplicate_pairs(ms)),
        _ => None,
    }
}

fn replace_entries(v: Yaml, ms: Vec<(Yaml, Yaml)>) -> (r: Yaml)
    ensures
        r.view() == with_entries(v.view(), yaml_pairs(ms@)),
    decreases v,
{
    match v {
        Yaml::Tagged(t, b) => {
            let inner = replace_entries(*b, ms);
            Yaml::Tagged(t, Box::new(inner))
        },
        Yaml::Mapping(_) => Yaml::Mapping(ms),
        other => other,
    }
}

proof fn lemma_first_target_prefix(ws: Seq<(YamlV, YamlV)>, index: Seq<char>, k: int)
    requires
        0 <= k <= ws.len(),
        first_target_section(ws.take(k), index) is Some,
    ensures
        first_target_section(ws, index) == first_target_section(ws.take(k), index),
    decreases ws.len() - k,
{
    if k < ws.len() {
        assert(ws.drop_last().take(k) =~= ws.take(k));
        lemma_first_target_prefix(ws.drop_last(), index, k);
    } else {
        assert(ws.take(k) =~= ws);
    }
}

/// Records that monitor index `monitor_index` shows `wallpaper_id`, in the
/// `wallpapers` mapping of a wallpaper configuration.
pub fn upsert_wallpaper_profile_for_index(wallpapers: &mut Vec<(Yaml, Yaml)>, monitor_index: &str, wallpaper_id: &str)
    ensures
        yaml_pairs(final(wallpapers)@) == upserted(yaml_pairs(old(wallpapers)@), monitor_index@, wallpaper_id@),
{
    let ghost ws = yaml_pairs(wallpapers@);
    proof { lemma_yaml_pairs_len(wallpapers@); }
    let n = wallpapers.len();
    let mut i: usize = 0;
    while i < n
        invariant
            n == wallpapers.len(),
            ws == yaml_pairs(wallpapers@),
            ws == yaml_pairs(old(wallpapers)@),
            ws.len() == n,
            i <= n,
            first_target_section(ws.take(i as int), monitor_index@) is None,
        decreases n - i,
    {
        proof { lemma_yaml_pairs_index(wallpapers@, i as int); }
        assert(ws.take(i + 1).drop_last() =~= ws.take(i as int));
        assert(ws.take(i + 1).last() == ws[i as int]);
        if targets_index(&wallpapers[i].1, monitor_index) {
            assert(first_target_section(ws.take(i + 1), monitor_index@) == Some(i as int));
            proof { lemma_first_target_prefix(ws, monitor_index@, i + 1); }
            let mut sec = match entries_of(&wallpapers[i].1) {
                Some(e) => e,
                None => Vec::new(),
            };
            assert(yaml_pairs(sec@) == entries_or_empty(untagged(ws[i as int].1)));
            refresh_section(&mut sec, wallpaper_id);
            let key = wallpapers[i].0.duplicate();
            let value = wallpapers[i].1.duplicate();
            let ghost refreshed = yaml_pairs(sec@);
            let updated = replace_entries(value, sec);
            let ghost before = wallpapers@;
            assert(key.view() == ws[i as int].0);
            assert(value.view() == ws[i as int].1);
            assert(refreshed == refreshed_section(entries_or_empty(untagged(ws[i as int].1)), wallpaper_id@));
            wallpapers.set(i, (key, updated));
            proof {
                lemma_yaml_pairs_update(before, i as int, wallpapers@[i as int]);
                assert(yaml_pairs(wallpapers@) == upserted(ws, monitor_index@, wallpaper_id@));
            }
            return;
        }
        i += 1;
    }
    assert(ws.take(n as int) =~= ws);
    let mut max_suffix: u64 = 0;
    for k in 0..n
        invariant
            n == wallpapers.len(),
            ws == yaml_pairs(wallpapers@),
            ws.len() == n,
            max_suffix == next_suffix(ws.take(k as int)),
            max_suffix <= u32::MAX as u64 + 1,
    {
        proof { lemma_yaml_pairs_index(wallpapers@, k as int); }
        assert(ws.take(k + 1).drop_last() =~= ws.take(k as int));
        assert(ws.take(k + 1).last() == ws[k as int]);
        match text_value(&wallpapers[k].0) {
            Some(name) => {
                let cs = chars_of(name.as_str());
                match chars_strip_prefix(&cs, "wallpaper") {
                    Some(suffix) => match parse_u32(&suffix) {
                        Some(num) => {
                            let next = num as u64 + 1;
                            if next > max_suffix {
                                max_suffix = next;
                            }
                        },
                        None => {},
                    },
                    None => {},
                }
            },
            None => {},
        }
    }
    assert(ws.take(n as int) =~= ws);
    let mut key = chars_of("wallpaper");
    let digits = u64_decimal(max_suffix);
    crate::text::push_all(&mut key, &digits);
    let key_text = string_from_chars(&key);
    let ids = vec![Yaml::Str(string_from_str(monitor_index))];
    proof {
        lemma_yaml_items_len(ids@);
        lemma_yaml_items_index(ids@, 0);
        assert(yaml_items(ids@) =~= seq![YamlV::Str(monitor_index@)]);
    }
    let section: Vec<(Yaml, Yaml)> = vec![
        (Yaml::Str(string_from_str("enabled")), Yaml::Bool(true)),
        (Yaml::Str(string_from_str("monitor_index")), Yaml::Sequence(ids)),
        (Yaml::Str(string_from_str("wallpaper_id")), Yaml::Str(string_from_str(wallpaper_id))),
        (Yaml::Str(string_from_str("mode")), Yaml::Str(string_from_str("fill"))),
        (Yaml::Str(string_from_str("z_index")), Yaml::Str(string_from_str("desktop"))),
    ];
    proof {
        lemma_yaml_pairs_len(section@);
        assert forall|j: int| 0 <= j < 5 implies #[trigger] yaml_pairs(section@)[j] == (
            yaml_view(section@[j].0),
            yaml_view(section@[j].1),
        ) by {
            lemma_yaml_pairs_index(section@, j);
        }
        let target = seq![
            (YamlV::Str("enabled"@), YamlV::Bool(true)),
            (YamlV::Str("monitor_index"@), YamlV::Sequence(seq![YamlV::Str(monitor_index@)])),
            (YamlV::Str("wallpaper_id"@), YamlV::Str(wallpaper_id@)),
            (YamlV::Str("mode"@), YamlV::Str("fill"@)),
            (YamlV::Str("z_index"@), YamlV::Str("desktop"@)),
        ];
        assert(yaml_pairs(section@)[0] == target[0]);
        assert(yaml_pairs(section@)[1] == target[1]);
        assert(yaml_pairs(section@)[2] == target[2]);
        assert(yaml_pairs(section@)[3] == target[3]);
        assert(yaml_pairs(section@)[4] == target[4]);
        assert(yaml_pairs(section@) =~= target);
    }
    let fresh = Yaml::Mapping(section);
    map_insert(wallpapers, key_text.as_str(), fresh);
}

/// Applies `upserted` for each index in turn.
pub open spec fn upsert_all(ws: Seq<(YamlV, YamlV)>, targets: Seq<Seq<char>>, wid: Seq<char>) -> Seq<(YamlV, YamlV)>
    decreases targets.len(),
{
    if targets.len() == 0 {
        ws
    } else {
        upserted(upsert_all(ws, targets.drop_last(), wid), targets.last(), wid)
    }
}

/// The entries of a configuration root that is a mapping (an empty
/// mapping replaces any other root), and its `wallpapers` mapping (empty
/// when missing or not a mapping).
pub open spec fn root_entries(root: YamlV) -> Seq<(YamlV, YamlV)> {
    match root {
        YamlV::Mapping(ms) => ms,
        _ => Seq::empty(),
    }
}

pub open spec fn wallpapers_entries(root: YamlV) -> Seq<(YamlV, YamlV)> {
    match map_get(root_entries(root), "wallpapers"@) {
        Some(YamlV::Mapping(ws)) => ws,
        _ => Seq::empty(),
    }
}

/// The configuration with monitor indexes `targets` set to show `wid`.
pub open spec fn wallpapers_assigned(root: YamlV, targets: Seq<Seq<char>>, wid: Seq<char>) -> YamlV {
    YamlV::Mapping(map_set(root_entries(root), "wallpapers"@, YamlV::Mapping(upsert_all(wallpapers_entries(root), targets, wid))))
}

fn take_wallpapers(root: Yaml) -> (r: (Vec<(Yaml, Yaml)>, Vec<(Yaml, Yaml)>))
    ensures
        yaml_pairs(r.0@) == root_entries(root.view()),
        yaml_pairs(r.1@) == wallpapers_entries(root.view()),
{
    let ms: Vec<(Yaml, Yaml)> = match root {
        Yaml::Mapping(ms) => ms,
        _ => {
            let e: Vec<(Yaml, Yaml)> = Vec::new();
            assert(yaml_pairs(e@) =~= Seq::<(YamlV, YamlV)>::empty());
            e
        },
    };
    let ws: Vec<(Yaml, Yaml)> = match find_key(&ms, "wallpapers") {
        Some(j) => {
            proof { lemma_yaml_pairs_index(ms@, j as int); }
            match &ms[j].1 {
                Yaml::Mapping(ws) => duplicate_pairs(ws),
                _ => {
                    let e: Vec<(Yaml, Yaml)> = Vec::new();
                    assert(yaml_pairs(e@) =~= Seq::<(YamlV, YamlV)>::empty());
                    e
                },
            }
        },
        None => {
            let e: Vec<(Yaml, Yaml)> = Vec::new();
            assert(yaml_pairs(e@) =~= Seq::<(YamlV, YamlV)>::empty());
            e
        },
    };
    (ms, ws)
}

/// Sets monitor indexes `targets` to show `wallpaper_id` in a wallpaper
/// configuration.
pub fn assign_wallpaper_to_indexes(root: &mut Yaml, targets: &Vec<String>, wallpaper_id: &str)
    ensures
        final(root).view() == wallpapers_assigned(old(root).view(), text_views(targets@), wallpaper_id@),
{
    let ghost tv = text_views(targets@);
    let mut taken = Yaml::Null;
    std::mem::swap(root, &mut taken);
    let (mut ms, mut ws) = take_wallpapers(taken);
    let ghost ws0 = yaml_pairs(ws@);
    for k in 0..targets.len()
        invariant
            tv == text_views(targets@),
            yaml_pairs(ws@) == upsert_all(ws0, tv.take(k as int), wallpaper_id@),
    {
        assert(tv.take(k + 1).drop_last() =~= tv.take(k as int));
        assert(tv.take(k + 1).last() == targets@[k as int]@);
        upsert_wallpaper_profile_for_index(&mut ws, targets[k].as_str(), wallpaper_id);
    }
    assert(tv.take(targets.len() as int) =~= tv);
    map_insert(&mut ms, "wallpapers", Yaml::Mapping(ws));
    *root = Yaml::Mapping(ms);
}

/// Some index of `a` is in `b`.
pub open spec fn shares_index(a: Seq<Seq<char>>, b: Seq<Seq<char>>) -> bool {
    exists|i: int| 0 <= i < a.len() && b.contains(a[i])
}

/// Each section listing one of `indexes` gets `property` set to `v`.
pub open spec fn property_set(
    ws: Seq<(YamlV, YamlV)>,
    indexes: Seq<Seq<char>>,
    property: Seq<char>,
    v: YamlV,
) -> Seq<(YamlV, YamlV)> {
    Seq::new(
        ws.len(),
        |i: int|
            match as_entries(ws[i].1) {
                Some(sec) => if shares_index(current_indexes(sec), indexes) {
                    (ws[i].0, with_entries(ws[i].1, map_set(sec, property, v)))
                } else {
                    ws[i]
                },
                None => ws[i],
            },
    )
}

/// The configuration with `property` set to `v` in every section that
/// lists one of `indexes`.
pub open spec fn property_updated(root: YamlV, indexes: Seq<Seq<char>>, property: Seq<char>, v: YamlV) -> YamlV {
    YamlV::Mapping(map_set(root_entries(root), "wallpapers"@, YamlV::Mapping(property_set(wallpapers_entries(root), indexes, property, v))))
}

fn contains_text(v: &Vec<String>, t: &String) -> (r: bool)
    ensures
        r == text_views(v@).contains(t@),
{
    for i in 0..v.len()
        invariant
            forall|k: int| 0 <= k < i ==> v@[k]@ != t@,
    {
        if str_eq(v[i].as_str(), t.as_str()) {
            assert(text_views(v@)[i as int] == t@);
            return true;
        }
    }
    proof {
        if text_views(v@).contains(t@) {
            let k = choose|k: int| 0 <= k < text_views(v@).len() && text_views(v@)[k] == t@;
            assert(v@[k]@ == t@);
        }
    }
    false
}

fn lists_any(current: &Vec<String>, indexes: &Vec<String>) -> (r: bool)
    ensures
        r == shares_index(text_views(current@), text_views(indexes@)),
{
    for i in 0..current.len()
        invariant
            forall|k: int| 0 <= k < i ==> !text_views(indexes@).contains(#[trigger] text_views(current@)[k]),
    {
        if contains_text(indexes, &current[i]) {
            assert(text_views(indexes@).contains(text_views(current@)[i as int]));
            return true;
        }
    }
    false
}

/// Sets a wallpaper property in the sections of the given monitor indexes;
/// an error, with nothing changed, when the property or the indexes are
/// missing.
pub fn set_wallpaper_property(root: &mut Yaml, monitor_indexes: &Vec<String>, property: &str, value: Yaml) -> (r: Result<(), String>)
    ensures
        (property@.len() == 0 || monitor_indexes.len() == 0) ==> (r matches Err(e) && e@ == "Missing property or monitor indexes"@
            && final(root).view() == old(root).view()),
        !(property@.len() == 0 || monitor_indexes.len() == 0) ==> (r is Ok && final(root).view() == property_updated(
            old(root).view(),
            text_views(monitor_indexes@),
            property@,
            value.view(),
        )),
{
    if crate::text::text_is_empty(property) || monitor_indexes.len() == 0 {
        return Err(string_from_str("Missing property or monitor indexes"));
    }
    let ghost iv = text_views(monitor_indexes@);
    let ghost vv = value.view();
    let mut taken = Yaml::Null;
    std::mem::swap(root, &mut taken);
    let (mut ms, ws) = take_wallpapers(taken);
    let ghost w0 = yaml_pairs(ws@);
    proof { lemma_yaml_pairs_len(ws@); }
    let mut out: Vec<(Yaml, Yaml)> = Vec::new();
    for i in 0..ws.len()
        invariant
            w0 == yaml_pairs(ws@),
            w0.len() == ws.len(),
            iv == text_views(monitor_indexes@),
            vv == value.view(),
            yaml_pairs(out@) == property_set(w0, iv, property@, vv).take(i as int),
    {
        proof { lemma_yaml_pairs_index(ws@, i as int); }
        let key = ws[i].0.duplicate();
        let entry = match entries_of(&ws[i].1) {
            Some(sec) => {
                let current = index_texts(&sec);
                if lists_any(&current, monitor_indexes) {
                    let mut sec = sec;
                    map_insert(&mut sec, property, value.duplicate());
                    replace_entries(ws[i].1.duplicate(), sec)
                } else {
                    ws[i].1.duplicate()
                }
            },
            None => ws[i].1.duplicate(),
        };
        let ghost before = out@;
        out.push((key, entry));
        assert(out@.drop_last() =~= before);
        assert(yaml_pairs(out@) =~= property_set(w0, iv, property@, vv).take(i + 1));
    }
    assert(property_set(w0, iv, property@, vv).take(ws.len() as int) =~= property_set(w0, iv, property@, vv));
    map_insert(&mut ms, "wallpapers", Yaml::Mapping(out));
    *root = Yaml::Mapping(ms);
    Ok(())
}


// ---------------------------------------------------------------------------
// Which monitor indexes an assignment from the shell targets
// ---------------------------------------------------------------------------

/// An assignment names at least one monitor, by id or by index.
pub fn monitor_targets_supplied(monitor_ids: &Vec<String>, monitor_indexes: &Vec<String>) -> (r: Result<(), String>)
    ensures
        r is Ok <==> (monitor_ids.len() > 0 || monitor_indexes.len() > 0),
        r matches Err(e) ==> e@ == "No monitor IDs supplied"@,
{
    if monitor_ids.len() == 0 && monitor_indexes.len() == 0 {
        Err(string_from_str("No monitor IDs supplied"))
    } else {
        Ok(())
    }
}

/// The index texts that are not blank, as given.
pub open spec fn explicit_indexes(idxs: Seq<Seq<char>>) -> Seq<Seq<char>>
    decreases idxs.len(),
{
    if idxs.len() == 0 {
        Seq::empty()
    } else {
        let rest = explicit_indexes(idxs.drop_last());
        if trim(idxs.last()).len() > 0 { rest.push(idxs.last()) } else { rest }
    }
}

/// The position of the first monitor with id `id`.
pub open spec fn monitor_position(ms: Seq<MonitorV>, id: Seq<char>) -> Option<int>
    decreases ms.len(),
{
    if ms.len() == 0 {
        None
    } else {
        match monitor_position(ms.drop_last(), id) {
            Some(i) => Some(i),
            None => if ms.last().id == id { Some(ms.len() - 1) } else { None },
        }
    }
}

/// The positions (as decimal text) of the monitors the ids name; unknown ids are skipped.
pub open spec fn indexes_from_ids(ids: Seq<Seq<char>>, ms: Seq<MonitorV>) -> Seq<Seq<char>>
    decreases ids.len(),
{
    if ids.len() == 0 {
        Seq::empty()
    } else {
        let rest = indexes_from_ids(ids.drop_last(), ms);
        match monitor_position(ms, ids.last()) {
            Some(p) => rest.push(decimal(p as nat)),
            None => rest,
        }
    }
}

/// Strings in `String` order.
pub open spec fn text_order() -> spec_fn(Seq<char>, Seq<char>) -> bool {
    |a: Seq<char>, b: Seq<char>| chars_lt(a, b)
}

/// `Vec::dedup`: runs of equal neighbours shrink to one.
pub open spec fn dedup_seq(s: Seq<Seq<char>>) -> Seq<Seq<char>>
    decreases s.len(),
{
    if s.len() == 0 {
        Seq::empty()
    } else {
        let d = dedup_seq(s.drop_last());
        if d.len() > 0 && d.last() == s.last() { d } else { d.push(s.last()) }
    }
}

/// The index texts an assignment writes: the non-blank given indexes, or,
/// when there are none, the positions of the named monitors in wallpaper
/// order; sorted and without repeats.
pub open spec fn assignment_targets(ids: Seq<Seq<char>>, idxs: Seq<Seq<char>>, ms: Seq<MonitorV>) -> Seq<Seq<char>> {
    let explicit = explicit_indexes(idxs);
    let t = if explicit.len() > 0 { explicit } else { indexes_from_ids(ids, ms) };
    dedup_seq(sort_by(t, text_order()))
}

fn find_monitor(monitors: &Vec<WallpaperShellMonitor>, id: &str) -> (r: Option<usize>)
    ensures
        match r {
            Some(p) => monitor_position(monitor_views(monitors@), id@) == Some(p as int),
            None => monitor_position(monitor_views(monitors@), id@) is None,
        },
{
    let ghost ms = monitor_views(monitors@);
    let n = monitors.len();
    let mut i: usize = 0;
    while i < n
        invariant
            n == monitors.len(),
            ms == monitor_views(monitors@),
            i <= n,
            monitor_position(ms.take(i as int), id@) is None,
        decreases n - i,
    {
        assert(ms.take(i + 1).drop_last() =~= ms.take(i as int));
        assert(ms.take(i + 1).last() == monitors@[i as int].view());
        if str_eq(monitors[i].id.as_str(), id) {
            assert(monitor_position(ms.take(i + 1), id@) == Some(i as int));
            proof { lemma_monitor_position_prefix(ms, id@, i as int + 1); }
            return Some(i);
        }
        i += 1;
    }
    assert(ms.take(n as int) =~= ms);
    None
}

proof fn lemma_monitor_position_prefix(ms: Seq<MonitorV>, id: Seq<char>, k: int)
    requires
        0 <= k <= ms.len(),
        monitor_position(ms.take(k), id) is Some,
    ensures
        monitor_position(ms, id) == monitor_position(ms.take(k), id),
    decreases ms.len() - k,
{
    if k < ms.len() {
        assert(ms.drop_last().take(k) =~= ms.take(k));
        lemma_monitor_position_prefix(ms.drop_last(), id, k);
    } else {
        assert(ms.take(k) =~= ms);
    }
}

fn sort_texts(v: Vec<String>) -> (r: Vec<String>)
    ensures
        text_views(r@) == sort_by(text_views(v@), text_order()),
{
    let ghost input = text_views(v@);
    let ghost lt = text_order();
    let n = v.len();
    let mut rest = v;
    let mut out: Vec<String> = Vec::new();
    let mut i: usize = 0;
    while i < n
        invariant
            i <= n,
            n == input.len(),
            lt == text_order(),
            rest.len() == n - i,
            text_views(rest@) == input.skip(i as int),
            text_views(out@) == sort_by(input.take(i as int), lt),
        decreases n - i,
    {
        assert(text_views(rest@)[0] == input[i as int]);
        let ghost rest_before = rest@;
        let x = rest.remove(0);
        assert(text_views(rest@) =~= input.skip(i + 1)) by {
            assert forall|k: int| 0 <= k < rest.len() implies #[trigger] text_views(rest@)[k] == input.skip(i + 1)[k] by {
                assert(text_views(rest_before)[k + 1] == input.skip(i as int)[k + 1]);
            }
        }
        let mut j = out.len();
        while j > 0 && str_less(x.as_str(), out[j - 1].as_str())
            invariant
                0 <= j <= out.len(),
                lt == text_order(),
                forall|k: int| j <= k < out.len() ==> lt(x@, #[trigger] text_views(out@)[k]),
            decreases j,
        {
            j -= 1;
        }
        proof {
            lemma_insert_by_splice(text_views(out@), x@, lt, j as int);
            assert(input.take(i + 1).drop_last() =~= input.take(i as int));
            assert(input.take(i + 1).last() == x@);
        }
        let ghost before = text_views(out@);
        out.insert(j, x);
        assert(text_views(out@) =~= before.insert(j as int, input[i as int]));
        i += 1;
    }
    assert(input.take(n as int) =~= input);
    out
}

fn dedup_texts(v: &Vec<String>) -> (r: Vec<String>)
    ensures
        text_views(r@) == dedup_seq(text_views(v@)),
{
    let ghost input = text_views(v@);
    let mut out: Vec<String> = Vec::new();
    for i in 0..v.len()
        invariant
            input == text_views(v@),
            text_views(out@) == dedup_seq(input.take(i as int)),
    {
        assert(input.take(i + 1).drop_last() =~= input.take(i as int));
        assert(input.take(i + 1).last() == v@[i as int]@);
        let ghost before = text_views(out@);
        if out.len() > 0 && str_eq(out[out.len() - 1].as_str(), v[i].as_str()) {
        } else {
            out.push(clone_string(&v[i]));
            assert(text_views(out@) =~= before.push(v@[i as int]@));
        }
    }
    assert(input.take(v.len() as int) =~= input);
    out
}

/// The monitor indexes an assignment from the shell is written to, given
/// the monitors in wallpaper order; an error when none can be resolved.
pub fn resolve_assignment_targets(
    monitor_ids: &Vec<String>,
    monitor_indexes: &Vec<String>,
    ordered_monitors: &Vec<WallpaperShellMonitor>,
) -> (r: Result<Vec<String>, String>)
    ensures
        match r {
            Ok(v) => text_views(v@) == assignment_targets(
                text_views(monitor_ids@),
                text_views(monitor_indexes@),
                monitor_views(ordered_monitors@),
            ) && v.len() > 0,
            Err(e) => assignment_targets(
                text_views(monitor_ids@),
                text_views(monitor_indexes@),
                monitor_views(ordered_monitors@),
            ).len() == 0 && e@ == "No monitor indexes resolved from monitor IDs"@,
        },
{
    let ghost ids = text_views(monitor_ids@);
    let ghost idxs = text_views(monitor_indexes@);
    let ghost ms = monitor_views(ordered_monitors@);
    let mut targets: Vec<String> = Vec::new();
    for i in 0..monitor_indexes.len()
        invariant
            idxs == text_views(monitor_indexes@),
            text_views(targets@) == explicit_indexes(idxs.take(i as int)),
    {
        assert(idxs.take(i + 1).drop_last() =~= idxs.take(i as int));
        assert(idxs.take(i + 1).last() == monitor_indexes@[i as int]@);
        let t = str_trim(monitor_indexes[i].as_str());
        if t.len() > 0 {
            let ghost before = text_views(targets@);
            targets.push(clone_string(&monitor_indexes[i]));
            assert(text_views(targets@) =~= before.push(monitor_indexes@[i as int]@));
        }
    }
    assert(idxs.take(monitor_indexes.len() as int) =~= idxs);
    if targets.len() == 0 {
        for i in 0..monitor_ids.len()
            invariant
                ids == text_views(monitor_ids@),
                ms == monitor_views(ordered_monitors@),
                text_views(targets@) == indexes_from_ids(ids.take(i as int), ms),
        {
            assert(ids.take(i + 1).drop_last() =~= ids.take(i as int));
            assert(ids.take(i + 1).last() == monitor_ids@[i as int]@);
            match find_monitor(ordered_monitors, monitor_ids[i].as_str()) {
                Some(p) => {
                    let d = u64_decimal(p as u64);
                    let ghost before = text_views(targets@);
                    targets.push(string_from_chars(&d));
                    assert(text_views(targets@) =~= before.push(decimal(p as nat)));
                },
                None => {},
            }
        }
        assert(ids.take(monitor_ids.len() as int) =~= ids);
    }
    let sorted = sort_texts(targets);
    let unique = dedup_texts(&sorted);
    if unique.len() == 0 {
        Err(string_from_str("No monitor indexes resolved from monitor IDs"))
    } else {
        Ok(unique)
    }
}

/// The profile whose wallpaper, mode and z-index the settings page shows:
/// the first enabled profile, else the first profile.
pub fn primary_profile_index(profiles: &Vec<WallpaperProfileEntry>) -> (r: Option<usize>)
    ensures
        match r {
            Some(i) => i < profiles.len() && (profiles@[i as int].enabled || (i == 0 && forall|k: int|
                0 <= k < profiles.len() ==> !(#[trigger] profiles@[k]).enabled)) && forall|k: int|
                0 <= k < i ==> !(#[trigger] profiles@[k]).enabled,
            None => profiles.len() == 0,
        },
{
    for i in 0..profiles.len()
        invariant
            forall|k: int| 0 <= k < i ==> !(#[trigger] profiles@[k]).enabled,
    {
        if profiles[i].enabled {
            return Some(i);
        }
    }
    if profiles.len() > 0 {
        Some(0)
    } else {
        None
    }
}


// ---------------------------------------------------------------------------
// What the wallpaper pages are shown
// ---------------------------------------------------------------------------

/// A profile as the wallpaper pages list it: its first monitor key (`*`
/// when it has none).
#[derive(Debug)]
pub struct WallpaperShellProfile {
    pub monitor_index: String,
    pub enabled: bool,
    pub wallpaper_id: String,
    pub mode: Option<String>,
    pub z_index: Option<String>,
}

pub struct ShellProfileV {
    pub monitor_index: Seq<char>,
    pub enabled: bool,
    pub wallpaper_id: Seq<char>,
    pub mode: Option<Seq<char>>,
    pub z_index: Option<Seq<char>>,
}

impl WallpaperShellProfile {
    pub open spec fn view(&self) -> ShellProfileV {
        ShellProfileV {
            monitor_index: self.monitor_index@,
            enabled: self.enabled,
            wallpaper_id: self.wallpaper_id@,
            mode: opt_view(self.mode),
            z_index: opt_view(self.z_index),
        }
    }
}

pub open spec fn shell_profile_views(v: Seq<WallpaperShellProfile>) -> Seq<ShellProfileV> {
    v.map_values(|p: WallpaperShellProfile| p.view())
}

pub open spec fn shell_profile_of(p: ProfileV) -> ShellProfileV {
    ShellProfileV {
        monitor_index: if p.monitor_index.len() > 0 { p.monitor_index[0] } else { "*"@ },
        enabled: p.enabled,
        wallpaper_id: p.wallpaper_id,
        mode: p.mode,
        z_index: p.z_index,
    }
}

fn copy_opt(o: &Option<String>) -> (r: Option<String>)
    ensures
        opt_view(r) == opt_view(*o),
{
    match o {
        Some(t) => Some(clone_string(t)),
        None => None,
    }
}

/// The profile as the pages list it.
pub fn shell_profile(p: &WallpaperProfileEntry) -> (r: WallpaperShellProfile)
    ensures
        r.view() == shell_profile_of(p.view()),
{
    let monitor_index = if p.monitor_index.len() > 0 {
        clone_string(&p.monitor_index[0])
    } else {
        string_from_str("*")
    };
    WallpaperShellProfile {
        monitor_index,
        enabled: p.enabled,
        wallpaper_id: clone_string(&p.wallpaper_id),
        mode: copy_opt(&p.mode),
        z_index: copy_opt(&p.z_index),
    }
}

/// The enabled profiles, in order.
pub open spec fn enabled_only(ps: Seq<ProfileV>) -> Seq<ProfileV>
    decreases ps.len(),
{
    if ps.len() == 0 {
        Seq::empty()
    } else if ps.last().enabled {
        enabled_only(ps.drop_last()).push(ps.last())
    } else {
        enabled_only(ps.drop_last())
    }
}

/// The profile whose settings the pages show: the first enabled one, else
/// the first.
pub open spec fn primary_of(ps: Seq<ProfileV>) -> Option<ProfileV> {
    if enabled_only(ps).len() > 0 {
        Some(enabled_only(ps)[0])
    } else if ps.len() > 0 {
        Some(ps[0])
    } else {
        None
    }
}

/// The wallpaper state the pages are shown.
#[derive(Debug)]
pub struct WallpaperShellSummary {
    pub enabled: Option<bool>,
    pub wallpaper_id: Option<String>,
    pub mode: Option<String>,
    pub z_index: Option<String>,
    pub monitor_index: Vec<String>,
    pub assignments: Vec<(String, String)>,
    pub monitors: Vec<WallpaperShellMonitor>,
    pub profiles: Vec<WallpaperShellProfile>,
}

/// A profile's field, else the configuration's text at `fallback`.
pub open spec fn or_text_at(o: Option<Seq<char>>, root: YamlV, fallback: Seq<char>) -> Option<Seq<char>> {
    match o {
        Some(t) => Some(t),
        None => text_at_dotted(root, fallback),
    }
}

fn take_enabled(profiles: Vec<WallpaperProfileEntry>) -> (r: Vec<WallpaperProfileEntry>)
    ensures
        profile_views(r@) == enabled_only(profile_views(profiles@)),
{
    let ghost input = profile_views(profiles@);
    let n = profiles.len();
    let mut rest = profiles;
    let mut out: Vec<WallpaperProfileEntry> = Vec::new();
    let mut i: usize = 0;
    while i < n
        invariant
            i <= n,
            n == input.len(),
            rest.len() == n - i,
            profile_views(rest@) == input.skip(i as int),
            profile_views(out@) == enabled_only(input.take(i as int)),
        decreases n - i,
    {
        assert(profile_views(rest@)[0] == input[i as int]);
        let ghost rest_before = rest@;
        let x = rest.remove(0);
        assert(profile_views(rest@) =~= input.skip(i + 1)) by {
            assert forall|k: int| 0 <= k < rest.len() implies #[trigger] profile_views(rest@)[k] == input.skip(i + 1)[k] by {
                assert(profile_views(rest_before)[k + 1] == input.skip(i as int)[k + 1]);
            }
        }
        assert(input.take(i + 1).drop_last() =~= input.take(i as int));
        assert(input.take(i + 1).last() == x.view());
        if x.enabled {
            let ghost before = profile_views(out@);
            out.push(x);
            assert(profile_views(out@) =~= before.push(input[i as int]));
        }
        i += 1;
    }
    assert(input.take(n as int) =~= input);
    out
}

proof fn lemma_enabled_first(ps: Seq<ProfileV>, i: int)
    requires
        0 <= i < ps.len(),
        ps[i].enabled,
        forall|k: int| 0 <= k < i ==> !(#[trigger] ps[k]).enabled,
    ensures
        enabled_only(ps).len() > 0,
        enabled_only(ps)[0] == ps[i],
    decreases ps.len(),
{
    if i < ps.len() - 1 {
        lemma_enabled_first(ps.drop_last(), i);
    } else {
        lemma_enabled_none(ps.drop_last());
    }
}

proof fn lemma_enabled_none(ps: Seq<ProfileV>)
    requires
        forall|k: int| 0 <= k < ps.len() ==> !(#[trigger] ps[k]).enabled,
    ensures
        enabled_only(ps).len() == 0,
    decreases ps.len(),
{
    if ps.len() > 0 {
        assert(!ps[ps.len() - 1].enabled);
        lemma_enabled_none(ps.drop_last());
    }
}

proof fn lemma_assignment_map_empty(entries: Seq<(String, String)>)
    ensures
        (assignment_map(entries) == Map::<Seq<char>, Seq<char>>::empty()) <==> entries.len() == 0,
{
    if entries.len() > 0 {
        assert(assignment_map(entries).contains_key(entries.last().0@));
    }
}

/// What the wallpaper pages are shown of a configuration and the monitors:
/// the monitors in index order; the profiles; whether any is enabled; the
/// wallpaper, mode, z-index and monitor keys of the primary profile (each
/// missing one read from the `wallpaper` section); and the assignments the
/// enabled profiles make, or, when they make none, the texts of
/// `wallpaper.assignments`.
pub fn wallpaper_shell_summary(root: &Yaml, monitors: Vec<WallpaperShellMonitor>) -> (r: WallpaperShellSummary)
    ensures
        ({
            let ps = sort_by(config_profiles(root.view()), profile_lt());
            let ms = wallpaper_monitor_order(monitor_views(monitors@)).map_values(
                |i: usize| monitor_views(monitors@)[i as int],
            );
            let made = assignments_spec(ms, enabled_only(ps));
            &&& monitor_views(r.monitors@) == ms
            &&& shell_profile_views(r.profiles@) == ps.map_values(|p: ProfileV| shell_profile_of(p))
            &&& r.enabled == Some(enabled_only(ps).len() > 0)
            &&& opt_view(r.wallpaper_id) == match primary_of(ps) {
                Some(p) => Some(p.wallpaper_id),
                None => text_at_dotted(root.view(), "wallpaper.wallpaper_id"@),
            }
            &&& opt_view(r.mode) == match primary_of(ps) {
                Some(p) => or_text_at(p.mode, root.view(), "wallpaper.mode"@),
                None => text_at_dotted(root.view(), "wallpaper.mode"@),
            }
            &&& opt_view(r.z_index) == match primary_of(ps) {
                Some(p) => or_text_at(p.z_index, root.view(), "wallpaper.z_index"@),
                None => text_at_dotted(root.view(), "wallpaper.z_index"@),
            }
            &&& text_views(r.monitor_index@) == match primary_of(ps) {
                Some(p) => p.monitor_index,
                None => string_list_of(node_at_dotted(root.view(), "wallpaper.monitor_index"@)),
            }
            &&& made != Map::<Seq<char>, Seq<char>>::empty() ==> assignment_map(r.assignments@) == made
            &&& made == Map::<Seq<char>, Seq<char>>::empty() ==> text_pair_views(r.assignments@) == match node_at_dotted(
                root.view(),
                "wallpaper.assignments"@,
            ) {
                Some(YamlV::Mapping(entries)) => str_pairs(entries),
                _ => Seq::empty(),
            }
        }),
{
    let ghost ms0 = monitor_views(monitors@);
    let mut monitors = monitors;
    sort_monitors_for_wallpaper_indexes(&mut monitors);
    let profiles = parse_wallpaper_profiles(root);
    let ghost ps = profile_views(profiles@);
    let mut shown: Vec<WallpaperShellProfile> = Vec::new();
    for i in 0..profiles.len()
        invariant
            ps == profile_views(profiles@),
            shell_profile_views(shown@) == ps.take(i as int).map_values(|p: ProfileV| shell_profile_of(p)),
    {
        let sp = shell_profile(&profiles[i]);
        let ghost before = shell_profile_views(shown@);
        shown.push(sp);
        assert(shell_profile_views(shown@) =~= before.push(shell_profile_of(ps[i as int])));
        assert(ps.take(i + 1).map_values(|p: ProfileV| shell_profile_of(p)) =~= ps.take(i as int).map_values(
            |p: ProfileV| shell_profile_of(p),
        ).push(shell_profile_of(ps[i as int])));
    }
    assert(ps.take(profiles.len() as int) =~= ps);
    let mut first_enabled: Option<usize> = None;
    let mut k: usize = 0;
    while k < profiles.len()
        invariant
            ps == profile_views(profiles@),
            k <= profiles.len(),
            first_enabled is None ==> forall|j: int| 0 <= j < k ==> !(#[trigger] ps[j]).enabled,
            first_enabled matches Some(i) ==> i < profiles.len() && ps[i as int].enabled && forall|j: int|
                0 <= j < i ==> !(#[trigger] ps[j]).enabled,
        decreases profiles.len() - k,
    {
        if first_enabled.is_none() && profiles[k].enabled {
            first_enabled = Some(k);
        }
        k += 1;
    }
    let primary: Option<usize> = match first_enabled {
        Some(i) => Some(i),
        None => if profiles.len() > 0 { Some(0) } else { None },
    };
    proof {
        match first_enabled {
            Some(i) => lemma_enabled_first(ps, i as int),
            None => lemma_enabled_none(ps),
        }
        assert(match primary {
            Some(i) => primary_of(ps) == Some(ps[i as int]) && i < profiles.len(),
            None => primary_of(ps) is None,
        });
    }
    let wallpaper_id = match primary {
        Some(i) => Some(clone_string(&profiles[i].wallpaper_id)),
        None => yaml_string(root, "wallpaper.wallpaper_id"),
    };
    let mode = match primary {
        Some(i) => match &profiles[i].mode {
            Some(m) => Some(clone_string(m)),
            None => yaml_string(root, "wallpaper.mode"),
        },
        None => yaml_string(root, "wallpaper.mode"),
    };
    let z_index = match primary {
        Some(i) => match &profiles[i].z_index {
            Some(z) => Some(clone_string(z)),
            None => yaml_string(root, "wallpaper.z_index"),
        },
        None => yaml_string(root, "wallpaper.z_index"),
    };
    let monitor_index = match primary {
        Some(i) => {
            let v = clone_strings(&profiles[i].monitor_index);
            assert(text_views(v@) =~= text_views(profiles@[i as int].monitor_index@));
            v
        },
        None => yaml_string_list(root, "wallpaper.monitor_index"),
    };
    let enabled = take_enabled(profiles);
    let any_enabled = enabled.len() > 0;
    let built = build_monitor_assignments(&monitors, &enabled);
    proof { lemma_assignment_map_empty(built@); }
    let assignments = if built.len() == 0 {
        yaml_string_map(root, "wallpaper.assignments")
    } else {
        built
    };
    WallpaperShellSummary {
        enabled: Some(any_enabled),
        wallpaper_id,
        mode,
        z_index,
        monitor_index,
        assignments,
        monitors,
        profiles: shown,
    }
}

/// The wallpaper addon's own settings the pages are shown (those that are
/// not fractional numbers), each read from its place in the configuration.
#[derive(Debug)]
pub struct WallpaperShellSettings {
    pub log_level: Option<String>,
    pub update_check: Option<bool>,
    pub debug: Option<bool>,
    pub tick_sleep_ms: Option<i64>,
    pub reapply_on_pause_change: Option<bool>,
    pub pause_focus: Option<String>,
    pub pause_maximized: Option<String>,
    pub pause_fullscreen: Option<String>,
    pub pause_battery: Option<String>,
    pub pause_check_interval_ms: Option<i64>,
    pub watcher_enabled: Option<bool>,
    pub watcher_interval_ms: Option<i64>,
    pub interactions_send_move: Option<bool>,
    pub interactions_send_click: Option<bool>,
    pub interactions_poll_interval_ms: Option<i64>,
    pub audio_enabled: Option<bool>,
    pub audio_sample_interval_ms: Option<i64>,
    pub audio_endpoint_refresh_ms: Option<i64>,
    pub audio_retry_interval_ms: Option<i64>,
    pub audio_quantize_decimals: Option<i64>,
    pub log_pause_state_changes: Option<bool>,
    pub log_watcher_reloads: Option<bool>,
}

/// Reads the wallpaper addon's settings from its configuration.
pub fn wallpaper_shell_settings(root: &Yaml) -> (r: WallpaperShellSettings)
    ensures
        ({
            let y = root.view();
            &&& opt_view(r.log_level) == text_at_dotted(y, "settings.development.log_level"@)
            &&& r.update_check == flag_at_dotted(y, "settings.development.update_check"@)
            &&& r.debug == flag_at_dotted(y, "settings.development.debug"@)
            &&& r.tick_sleep_ms == int_at_dotted(y, "settings.runtime.tick_sleep_ms"@)
            &&& r.reapply_on_pause_change == flag_at_dotted(y, "settings.runtime.reapply_on_pause_change"@)
            &&& opt_view(r.pause_focus) == text_at_dotted(y, "settings.performance.pausing.focus"@)
            &&& opt_view(r.pause_maximized) == text_at_dotted(y, "settings.performance.pausing.maximized"@)
            &&& opt_view(r.pause_fullscreen) == text_at_dotted(y, "settings.performance.pausing.fullscreen"@)
            &&& opt_view(r.pause_battery) == text_at_dotted(y, "settings.performance.pausing.battery"@)
            &&& r.pause_check_interval_ms == int_at_dotted(y, "settings.performance.pausing.check_interval_ms"@)
            &&& r.watcher_enabled == flag_at_dotted(y, "settings.performance.watcher.enabled"@)
            &&& r.watcher_interval_ms == int_at_dotted(y, "settings.performance.watcher.interval_ms"@)
            &&& r.interactions_send_move == flag_at_dotted(y, "settings.performance.interactions.send_move"@)
            &&& r.interactions_send_click == flag_at_dotted(y, "settings.performance.interactions.send_click"@)
            &&& r.interactions_poll_interval_ms == int_at_dotted(
                y,
                "settings.performance.interactions.poll_interval_ms"@,
            )
            &&& r.audio_enabled == flag_at_dotted(y, "settings.performance.audio.enabled"@)
            &&& r.audio_sample_interval_ms == int_at_dotted(y, "settings.performance.audio.sample_interval_ms"@)
            &&& r.audio_endpoint_refresh_ms == int_at_dotted(y, "settings.performance.audio.endpoint_refresh_ms"@)
            &&& r.audio_retry_interval_ms == int_at_dotted(y, "settings.performance.audio.retry_interval_ms"@)
            &&& r.audio_quantize_decimals == int_at_dotted(y, "settings.performance.audio.quantize_decimals"@)
            &&& r.log_pause_state_changes == flag_at_dotted(y, "settings.diagnostics.log_pause_state_changes"@)
            &&& r.log_watcher_reloads == flag_at_dotted(y, "settings.diagnostics.log_watcher_reloads"@)
        }),
{
    WallpaperShellSettings {
        log_level: yaml_string(root, "settings.development.log_level"),
        update_check: yaml_bool(root, "settings.development.update_check"),
        debug: yaml_bool(root, "settings.development.debug"),
        tick_sleep_ms: yaml_i64(root, "settings.runtime.tick_sleep_ms"),
        reapply_on_pause_change: yaml_bool(root, "settings.runtime.reapply_on_pause_change"),
        pause_focus: yaml_string(root, "settings.performance.pausing.focus"),
        pause_maximized: yaml_string(root, "settings.performance.pausing.maximized"),
        pause_fullscreen: yaml_string(root, "settings.performance.pausing.fullscreen"),
        pause_battery: yaml_string(root, "settings.performance.pausing.battery"),
        pause_check_interval_ms: yaml_i64(root, "settings.performance.pausing.check_interval_ms"),
        watcher_enabled: yaml_bool(root, "settings.performance.watcher.enabled"),
        watcher_interval_ms: yaml_i64(root, "settings.performance.watcher.interval_ms"),
        interactions_send_move: yaml_bool(root, "settings.performance.interactions.send_move"),
        interactions_send_click: yaml_bool(root, "settings.performance.interactions.send_click"),
        interactions_poll_interval_ms: yaml_i64(root, "settings.performance.interactions.poll_interval_ms"),
        audio_enabled: yaml_bool(root, "settings.performance.audio.enabled"),
        audio_sample_interval_ms: yaml_i64(root, "settings.performance.audio.sample_interval_ms"),
        audio_endpoint_refresh_ms: yaml_i64(root, "settings.performance.audio.endpoint_refresh_ms"),
        audio_retry_interval_ms: yaml_i64(root, "settings.performance.audio.retry_interval_ms"),
        audio_quantize_decimals: yaml_i64(root, "settings.performance.audio.quantize_decimals"),
        log_pause_state_changes: yaml_bool(root, "settings.diagnostics.log_pause_state_changes"),
        log_watcher_reloads: yaml_bool(root, "settings.diagnostics.log_watcher_reloads"),
    }
}

}
