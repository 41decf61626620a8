//! Zone lists kept in increasing order of their indices, and the simple
//! layouts: focus, rows and columns.

use vstd::prelude::*;
use crate::fancyzones::rect::Rect;
use crate::fancyzones::zone::{Zone, MAX_NEGATIVE_SPACING};

verus! {

/// A zone as its rectangle and index.
pub open spec fn zone_pair(z: Zone) -> (Rect, i64) {
    (z.spec_rect(), z.spec_id())
}

/// A zone list as rectangles and indices.
pub open spec fn zone_pairs(zs: Seq<Zone>) -> Seq<(Rect, i64)> {
    zs.map_values(|z: Zone| zone_pair(z))
}

/// Indices strictly increasing.
pub open spec fn ids_increasing(zs: Seq<(Rect, i64)>) -> bool {
    forall|i: int, j: int| 0 <= i < j < zs.len() ==> zs[i].1 < zs[j].1
}

/// Whether a zone with this rectangle and index is valid.
pub open spec fn pair_valid(r: Rect, id: i64) -> bool {
    &&& id >= 0
    &&& r.left >= MAX_NEGATIVE_SPACING
    &&& r.right >= MAX_NEGATIVE_SPACING
    &&& r.top >= MAX_NEGATIVE_SPACING
    &&& r.bottom >= MAX_NEGATIVE_SPACING
    &&& r.right - r.left >= 0
    &&& r.bottom - r.top >= 0
}

/// Where a new index goes in an increasing list.
pub open spec fn is_insert_pos(zs: Seq<(Rect, i64)>, id: i64, p: int) -> bool {
    0 <= p <= zs.len() && (forall|i: int| 0 <= i < p ==> zs[i].1 < id) && (forall|i: int|
        p <= i < zs.len() ==> zs[i].1 > id)
}

pub open spec fn insert_pos(zs: Seq<(Rect, i64)>, id: i64) -> int {
    choose|p: int| #[trigger] is_insert_pos(zs, id, p)
}

/// Adding a zone to an increasing list: refused when its index is taken,
/// else inserted in order.
pub open spec fn add_pair(zs: Seq<(Rect, i64)>, z: (Rect, i64)) -> Option<Seq<(Rect, i64)>> {
    if exists|i: int| 0 <= i < zs.len() && zs[i].1 == z.1 {
        None
    } else {
        Some(zs.insert(insert_pos(zs, z.1), z))
    }
}

/// Adds a zone unless its index is taken; the list stays increasing.
pub fn add_zone(zone: Zone, zones: &mut Vec<Zone>) -> (added: bool)
    requires
        ids_increasing(zone_pairs(old(zones)@)),
    ensures
        ids_increasing(zone_pairs(final(zones)@)),
        match add_pair(zone_pairs(old(zones)@), zone_pair(zone)) {
            Some(zs) => added && zone_pairs(final(zones)@) == zs,
            None => !added && final(zones)@ == old(zones)@,
        },
{
    let id = zone.id();
    let ghost before = zone_pairs(zones@);
    let mut p: usize = 0;
    while p < zones.len() && zones[p].id() < id
        invariant
            p <= zones@.len(),
            before == zone_pairs(zones@),
            ids_increasing(before),
            forall|i: int| 0 <= i < p ==> before[i].1 < id,
        decreases zones@.len() - p,
    {
        p = p + 1;
    }
    if p < zones.len() && zones[p].id() == id {
        proof {
            assert(before[p as int].1 == id);
        }
        return false;
    }
    proof {
        assert(forall|i: int| p <= i < before.len() ==> before[i].1 > id) by {
            assert forall|i: int| p <= i < before.len() implies before[i].1 > id by {
                if i > p {
                    assert(before[p as int].1 < before[i].1);
                }
            }
        }
        assert(!exists|i: int| 0 <= i < before.len() && before[i].1 == id) by {
            if exists|i: int| 0 <= i < before.len() && before[i].1 == id {
                let i = choose|i: int| 0 <= i < before.len() && before[i].1 == id;
                assert(before[i].1 != id);
            }
        }
        assert(is_insert_pos(before, id, p as int));
        let q = insert_pos(before, id);
        assert(q == p) by {
            if q < p {
                assert(before[q].1 < id);
            }
            if q > p {
                assert(before[p as int].1 < id);
            }
        }
    }
    zones.insert(p, zone);
    proof {
        assert(zone_pairs(zones@) =~= before.insert(p as int, zone_pair(zone)));
        assert forall|i: int, j: int| 0 <= i < j < zone_pairs(zones@).len() implies zone_pairs(zones@)[i].1
            < zone_pairs(zones@)[j].1 by {
            let zp = zone_pairs(zones@);
            if j < p {
            } else if i > p {
                assert(zp[i] == before[i - 1]);
                assert(zp[j] == before[j - 1]);
            } else if i == p {
                assert(zp[j] == before[j - 1]);
            } else if j == p {
            } else {
                assert(zp[j] == before[j - 1]);
            }
        }
    }
    true
}

/// Division rounding toward zero, as on machine integers.
pub open spec fn tdiv(a: int, b: int) -> int {
    if a >= 0 {
        a / b
    } else {
        -((-a) / b)
    }
}

pub open spec fn fits_i32(v: int) -> bool {
    i32::MIN <= v <= i32::MAX
}

/// Whether four coordinates fit in a rectangle.
pub open spec fn rect_fits(l: int, t: int, r: int, b: int) -> bool {
    fits_i32(l) && fits_i32(t) && fits_i32(r) && fits_i32(b)
}

pub open spec fn rect_of(l: int, t: int, r: int, b: int) -> Rect {
    Rect { left: l as i32, top: t as i32, right: r as i32, bottom: b as i32 }
}

/// The zones of a list when every zone is valid, else none.
pub open spec fn all_or_nothing(n: int, f: spec_fn(int) -> Rect) -> Seq<(Rect, i64)> {
    if forall|i: int| 0 <= i < n ==> pair_valid(#[trigger] f(i), i as i64) {
        Seq::new(n as nat, |i: int| (f(i), i as i64))
    } else {
        Seq::empty()
    }
}

/// Zone `i` of `n` stacked rows in a `w` x `h` work area with spacing `s`.
pub open spec fn row_coords(w: int, h: int, n: int, s: int, i: int) -> (int, int, int, int) {
    let total_width = w - s * 2;
    let total_height = h - s * (n + 1);
    (s, s * (i + 1) + tdiv(i * total_height, n), total_width + s, s * (i + 1) + tdiv((i + 1) * total_height, n))
}

/// Zone `i` of `n` side-by-side columns.
pub open spec fn column_coords(w: int, h: int, n: int, s: int, i: int) -> (int, int, int, int) {
    let total_width = w - s * (n + 1);
    let total_height = h - s * 2;
    (s * (i + 1) + tdiv(i * total_width, n), s, s * (i + 1) + tdiv((i + 1) * total_width, n), total_height + s)
}

/// Zone `i` of `n` cascading focus zones: 40% of the work area, 50 pixels
/// apart when there are several.
pub open spec fn focus_coords(w: int, h: int, n: int, i: int) -> (int, int, int, int) {
    let step: int = if n <= 1 { 0 } else { 50 };
    (100 + step * i, 100 + step * i, 100 + tdiv(2 * w, 5) + step * i, 100 + tdiv(2 * h, 5) + step * i)
}

pub open spec fn coords_rect(c: (int, int, int, int)) -> Rect {
    rect_of(c.0, c.1, c.2, c.3)
}

pub open spec fn coords_fit(c: (int, int, int, int)) -> bool {
    rect_fits(c.0, c.1, c.2, c.3)
}

pub open spec fn rows_layout(w: int, h: int, n: int, s: int) -> Seq<(Rect, i64)> {
    if n <= 0 {
        Seq::empty()
    } else {
        all_or_nothing(n, |i: int| coords_rect(row_coords(w, h, n, s, i)))
    }
}

pub open spec fn columns_layout(w: int, h: int, n: int, s: int) -> Seq<(Rect, i64)> {
    if n <= 0 {
        Seq::empty()
    } else {
        all_or_nothing(n, |i: int| coords_rect(column_coords(w, h, n, s, i)))
    }
}

pub open spec fn focus_layout(w: int, h: int, n: int) -> Seq<(Rect, i64)> {
    if n <= 0 {
        Seq::empty()
    } else {
        all_or_nothing(n, |i: int| coords_rect(focus_coords(w, h, n, i)))
    }
}

/// Every zone of the rows layout has coordinates that fit in an `i32`.
pub open spec fn rows_fit(w: int, h: int, n: int, s: int) -> bool {
    forall|i: int| 0 <= i < n ==> coords_fit(#[trigger] row_coords(w, h, n, s, i))
}

pub open spec fn columns_fit(w: int, h: int, n: int, s: int) -> bool {
    forall|i: int| 0 <= i < n ==> coords_fit(#[trigger] column_coords(w, h, n, s, i))
}

pub open spec fn focus_fit(w: int, h: int, n: int) -> bool {
    forall|i: int| 0 <= i < n ==> coords_fit(#[trigger] focus_coords(w, h, n, i))
}

/// The width and height of a work area fit in an `i32`.
pub open spec fn area_fits(a: Rect) -> bool {
    fits_i32(a.right - a.left) && fits_i32(a.bottom - a.top)
}

/// A list of rectangles given by `f` builds the zones `all_or_nothing` names.
pub proof fn lemma_all_or_nothing(rects: Seq<Rect>, n: int, f: spec_fn(int) -> Rect)
    requires
        n > 0,
        rects == Seq::new(n as nat, |k: int| f(k)),
    ensures
        (if forall|i: int| 0 <= i < rects.len() ==> pair_valid(#[trigger] rects[i], i as i64) {
            Seq::new(rects.len(), |i: int| (rects[i], i as i64))
        } else {
            Seq::<(Rect, i64)>::empty()
        }) == all_or_nothing(n, f),
{
    if forall|i: int| 0 <= i < rects.len() ==> pair_valid(#[trigger] rects[i], i as i64) {
        assert forall|i: int| 0 <= i < n implies pair_valid(#[trigger] f(i), i as i64) by {
            assert(rects[i] == f(i));
        }
        assert(Seq::new(rects.len(), |i: int| (rects[i], i as i64)) =~= Seq::new(n as nat, |i: int| (f(i), i as i64)));
    } else {
        let i = choose|i: int| 0 <= i < rects.len() && !pair_valid(#[trigger] rects[i], i as i64);
        assert(rects[i] == f(i));
    }
}

/// Bounds on a product from bounds on its factors.
pub proof fn lemma_mul_abs(a: int, b: int, x: int, y: int)
    by (nonlinear_arith)
    requires
        -x <= a <= x,
        -y <= b <= y,
        x >= 0,
        y >= 0,
    ensures
        -(x * y) <= a * b <= x * y,
{
}

/// Truncating division stays within the dividend's bounds.
pub proof fn lemma_tdiv_bound(a: int, b: int, x: int)
    requires
        -x <= a <= x,
        b > 0,
    ensures
        -x <= tdiv(a, b) <= x,
{
    if a >= 0 {
        assert(a / b <= a) by (nonlinear_arith)
            requires
                a >= 0,
                b > 0,
        ;
    } else {
        assert((-a) / b <= -a) by (nonlinear_arith)
            requires
                -a >= 0,
                b > 0,
        ;
    }
}

/// Truncating division of wide integers.
fn tdiv_i128(a: i128, b: i128) -> (q: i128)
    requires
        b > 0,
        a > i128::MIN,
    ensures
        q == tdiv(a as int, b as int),
{
    if a >= 0 {
        a / b
    } else {
        -((-a) / b)
    }
}

/// Builds the zones `(rect(i), i)` for `i < n`, or none if one is invalid.
fn zones_from_coords(rects: &Vec<Rect>) -> (zones: Vec<Zone>)
    requires
        rects@.len() <= i64::MAX,
    ensures
        zone_pairs(zones@) == (if forall|i: int| 0 <= i < rects@.len() ==> pair_valid(#[trigger] rects@[i], i as i64) {
            Seq::new(rects@.len(), |i: int| (rects@[i], i as i64))
        } else {
            Seq::<(Rect, i64)>::empty()
        }),
{
    let mut zones: Vec<Zone> = Vec::new();
    let mut i: usize = 0;
    while i < rects.len()
        invariant
            i <= rects@.len() <= i64::MAX,
            zone_pairs(zones@) == Seq::new(i as nat, |k: int| (rects@[k], k as i64)),
            forall|k: int| 0 <= k < i ==> pair_valid(#[trigger] rects@[k], k as i64),
        decreases rects@.len() - i,
    {
        let zone = Zone::new(rects[i], i as i64);
        if !zone.is_valid() {
            proof {
                assert(!pair_valid(rects@[i as int], i as i64));
            }
            return Vec::new();
        }
        let ghost before = zones@;
        zones.push(zone);
        proof {
            assert(zone_pairs(zones@) =~= zone_pairs(before).push(zone_pair(zone)));
        }
        i = i + 1;
        proof {
            assert(zone_pairs(zones@) =~= Seq::new(i as nat, |k: int| (rects@[k], k as i64)));
        }
    }
    zones
}

/// Zones stacked top to bottom over the full width, `spacing` apart and from
/// the edges; none if one would be invalid.
pub fn layout_rows(work_area: Rect, zone_count: i32, spacing: i32) -> (zones: Vec<Zone>)
    requires
        area_fits(work_area),
        rows_fit(work_area.right - work_area.left, work_area.bottom - work_area.top, zone_count as int, spacing as int),
    ensures
        zone_pairs(zones@) == rows_layout(
            work_area.right - work_area.left,
            work_area.bottom - work_area.top,
            zone_count as int,
            spacing as int,
        ),
        ids_increasing(zone_pairs(zones@)),
{
    if zone_count <= 0 {
        return Vec::new();
    }
    let w = work_area.width() as i128;
    let h = work_area.height() as i128;
    let n = zone_count as i128;
    let s = spacing as i128;
    let total_width = w - s * 2;
    proof {
        lemma_mul_abs(s as int, (n + 1) as int, 0x8000_0000, 0x8000_0001);
    }
    let total_height = h - s * (n + 1);
    let ghost wi = w as int;
    let ghost hi = h as int;
    let mut rects: Vec<Rect> = Vec::new();
    let mut i: i32 = 0;
    while i < zone_count
        invariant
            0 <= i <= zone_count,
            n == zone_count,
            wi == w,
            hi == h,
            s == spacing,
            total_width == w - s * 2,
            total_height == h - s * (n + 1),
            -0x1_0000_0000_0000_0000 <= total_height <= 0x1_0000_0000_0000_0000,
            rows_fit(wi, hi, n as int, s as int),
            rects@ == Seq::new(i as nat, |k: int| coords_rect(row_coords(wi, hi, n as int, s as int, k))),
        decreases zone_count - i,
    {
        let k = i as i128;
        proof {
            lemma_mul_abs((k + 1) as int, total_height as int, 0x8000_0000, 0x1_0000_0000_0000_0000);
            lemma_mul_abs(k as int, total_height as int, 0x8000_0000, 0x1_0000_0000_0000_0000);
            lemma_mul_abs(s as int, (k + 1) as int, 0x8000_0000, 0x8000_0000);
            lemma_tdiv_bound((k * total_height) as int, n as int, 0x80_0000_0000_0000_0000_0000_0000int);
            lemma_tdiv_bound(((k + 1) * total_height) as int, n as int, 0x80_0000_0000_0000_0000_0000_0000int);
        }
        let top = s * (k + 1) + tdiv_i128(k * total_height, n);
        let bottom = s * (k + 1) + tdiv_i128((k + 1) * total_height, n);
        proof {
            assert(coords_fit(row_coords(wi, hi, n as int, s as int, k as int)));
        }
        rects.push(Rect::new(s as i32, top as i32, (total_width + s) as i32, bottom as i32));
        i = i + 1;
        proof {
            assert(rects@ =~= Seq::new(i as nat, |k: int| coords_rect(row_coords(wi, hi, n as int, s as int, k))));
        }
    }
    let zones = zones_from_coords(&rects);
    proof {
        let f = |k: int| coords_rect(row_coords(wi, hi, n as int, s as int, k));
        assert(rects@ =~= Seq::new(n as nat, |k: int| f(k)));
        lemma_all_or_nothing(rects@, n as int, f);
    }
    zones
}

/// Zones side by side from left to right over the full height, `spacing`
/// apart and from the edges; none if one would be invalid.
pub fn layout_columns(work_area: Rect, zone_count: i32, spacing: i32) -> (zones: Vec<Zone>)
    requires
        area_fits(work_area),
        columns_fit(work_area.right - work_area.left, work_area.bottom - work_area.top, zone_count as int, spacing as int),
    ensures
        zone_pairs(zones@) == columns_layout(
            work_area.right - work_area.left,
            work_area.bottom - work_area.top,
            zone_count as int,
            spacing as int,
        ),
        ids_increasing(zone_pairs(zones@)),
{
    if zone_count <= 0 {
        return Vec::new();
    }
    let w = work_area.width() as i128;
    let h = work_area.height() as i128;
    let n = zone_count as i128;
    let s = spacing as i128;
    proof {
        lemma_mul_abs(s as int, (n + 1) as int, 0x8000_0000, 0x8000_0001);
    }
    let total_width = w - s * (n + 1);
    let total_height = h - s * 2;
    let ghost wi = w as int;
    let ghost hi = h as int;
    let mut rects: Vec<Rect> = Vec::new();
    let mut i: i32 = 0;
    while i < zone_count
        invariant
            0 <= i <= zone_count,
            n == zone_count,
            wi == w,
            hi == h,
            s == spacing,
            total_width == w - s * (n + 1),
            total_height == h - s * 2,
            -0x1_0000_0000_0000_0000 <= total_width <= 0x1_0000_0000_0000_0000,
            columns_fit(wi, hi, n as int, s as int),
            rects@ == Seq::new(i as nat, |k: int| coords_rect(column_coords(wi, hi, n as int, s as int, k))),
        decreases zone_count - i,
    {
        let k = i as i128;
        proof {
            lemma_mul_abs((k + 1) as int, total_width as int, 0x8000_0000, 0x1_0000_0000_0000_0000);
            lemma_mul_abs(k as int, total_width as int, 0x8000_0000, 0x1_0000_0000_0000_0000);
            lemma_mul_abs(s as int, (k + 1) as int, 0x8000_0000, 0x8000_0000);
            lemma_tdiv_bound((k * total_width) as int, n as int, 0x80_0000_0000_0000_0000_0000_0000int);
            lemma_tdiv_bound(((k + 1) * total_width) as int, n as int, 0x80_0000_0000_0000_0000_0000_0000int);
        }
        let left = s * (k + 1) + tdiv_i128(k * total_width, n);
        let right = s * (k + 1) + tdiv_i128((k + 1) * total_width, n);
        proof {
            assert(coords_fit(column_coords(wi, hi, n as int, s as int, k as int)));
        }
        rects.push(Rect::new(left as i32, s as i32, right as i32, (total_height + s) as i32));
        i = i + 1;
        proof {
            assert(rects@ =~= Seq::new(i as nat, |k: int| coords_rect(column_coords(wi, hi, n as int, s as int, k))));
        }
    }
    let zones = zones_from_coords(&rects);
    proof {
        let f = |k: int| coords_rect(column_coords(wi, hi, n as int, s as int, k));
        assert(rects@ =~= Seq::new(n as nat, |k: int| f(k)));
        lemma_all_or_nothing(rects@, n as int, f);
    }
    zones
}

/// `(v as f64 * 0.4) as i32` for an `i32` `v`: 40% of `v`, rounded toward
/// zero. The product with the double nearest 0.4 (slightly above it) stays
/// on the far side of every integer it equals and within 0.2 of the exact
/// value, so the truncation is the integer quotient `2v / 5`.
fn two_fifths(v: i32) -> (r: i32)
    ensures
        r == tdiv(2 * v, 5),
{
    let d = 2 * (v as i64);
    if d >= 0 {
        (d / 5) as i32
    } else {
        (-((-d) / 5)) as i32
    }
}

/// Cascading zones of 40% of the work area, starting at (100, 100) and
/// stepping 50 pixels when there are several; none if one would be invalid.
pub fn layout_focus(work_area: Rect, zone_count: i32) -> (zones: Vec<Zone>)
    requires
        area_fits(work_area),
        focus_fit(work_area.right - work_area.left, work_area.bottom - work_area.top, zone_count as int),
    ensures
        zone_pairs(zones@) == focus_layout(
            work_area.right - work_area.left,
            work_area.bottom - work_area.top,
            zone_count as int,
        ),
        ids_increasing(zone_pairs(zones@)),
{
    if zone_count <= 0 {
        return Vec::new();
    }
    let w = work_area.width();
    let h = work_area.height();
    let right0 = 100i64 + two_fifths(w) as i64;
    let bottom0 = 100i64 + two_fifths(h) as i64;
    let step: i64 = if zone_count <= 1 { 0 } else { 50 };
    let ghost wi = w as int;
    let ghost hi = h as int;
    let ghost n = zone_count as int;
    let mut rects: Vec<Rect> = Vec::new();
    let mut i: i32 = 0;
    while i < zone_count
        invariant
            0 <= i <= zone_count,
            n == zone_count,
            wi == w,
            hi == h,
            right0 == 100 + tdiv(2 * wi, 5),
            bottom0 == 100 + tdiv(2 * hi, 5),
            step == (if n <= 1 { 0int } else { 50int }),
            focus_fit(wi, hi, n),
            rects@ == Seq::new(i as nat, |k: int| coords_rect(focus_coords(wi, hi, n, k))),
        decreases zone_count - i,
    {
        let k = i as i64;
        let off = step * k;
        proof {
            assert(coords_fit(focus_coords(wi, hi, n, k as int)));
        }
        rects.push(Rect::new((100 + off) as i32, (100 + off) as i32, (right0 + off) as i32, (bottom0 + off) as i32));
        i = i + 1;
        proof {
            assert(rects@ =~= Seq::new(i as nat, |k: int| coords_rect(focus_coords(wi, hi, n, k))));
        }
    }
    let zones = zones_from_coords(&rects);
    proof {
        let f = |k: int| coords_rect(focus_coords(wi, hi, n, k));
        assert(rects@ =~= Seq::new(n as nat, |k: int| f(k)));
        lemma_all_or_nothing(rects@, n, f);
    }
    zones
}

} // verus!
