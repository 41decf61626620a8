//! Finding zones at a point and spanning zone ranges.

use vstd::prelude::*;
use crate::fancyzones::layout::Layout;
use crate::fancyzones::layout::zones::{tdiv, zone_pair, zone_pairs};
use crate::fancyzones::rect::{Point, Rect};
use crate::fancyzones::settings::OverlappingZonesAlgorithm;

verus! {

/// Within the sensitivity radius of a rectangle (edges included).
pub open spec fn near(r: Rect, sr: int, x: int, y: int) -> bool {
    r.left - sr <= x <= r.right + sr && r.top - sr <= y <= r.bottom + sr
}

/// The zones near a point, in order.
pub open spec fn near_zones(zs: Seq<(Rect, i64)>, sr: int, x: int, y: int) -> Seq<(Rect, i64)>
    decreases zs.len(),
{
    if zs.len() == 0 {
        Seq::empty()
    } else {
        let p = near_zones(zs.drop_last(), sr, x, y);
        if near(zs.last().0, sr, x, y) {
            p.push(zs.last())
        } else {
            p
        }
    }
}

/// Some zone holds the point itself.
pub open spec fn any_strict(zs: Seq<(Rect, i64)>, x: int, y: int) -> bool {
    exists|i: int| 0 <= i < zs.len() && (#[trigger] zs[i]).0.spec_contains(x, y)
}

pub open spec fn max_int(a: int, b: int) -> int {
    if a >= b {
        a
    } else {
        b
    }
}

pub open spec fn min_int(a: int, b: int) -> int {
    if a <= b {
        a
    } else {
        b
    }
}

/// Two rectangles overlap by more than the sensitivity radius both ways.
pub open spec fn pair_overlap(a: Rect, b: Rect, sr: int) -> bool {
    max_int(a.top as int, b.top as int) + sr < min_int(a.bottom as int, b.bottom as int)
        && max_int(a.left as int, b.left as int) + sr < min_int(a.right as int, b.right as int)
}

pub open spec fn has_overlap(c: Seq<(Rect, i64)>, sr: int) -> bool {
    exists|i: int, j: int| 0 <= i < j < c.len() && pair_overlap(#[trigger] c[i].0, #[trigger] c[j].0, sr)
}

/// The center of a rectangle, rounded toward zero.
pub open spec fn center(r: Rect) -> (int, int) {
    (tdiv(r.right + r.left, 2), tdiv(r.top + r.bottom, 2))
}

pub open spec fn sq_dist(p: (int, int), q: (int, int)) -> int {
    (p.0 - q.0) * (p.0 - q.0) + (p.1 - q.1) * (p.1 - q.1)
}

/// Centers closer than this (squared) count as the same center.
pub const OVERLAPPING_CENTERS_SENSITIVITY: i64 = 75;

/// Whether zone `a` wins over zone `b` under an algorithm.
pub open spec fn better(alg: OverlappingZonesAlgorithm, x: int, y: int, a: (Rect, i64), b: (Rect, i64)) -> bool {
    match alg {
        OverlappingZonesAlgorithm::Largest => a.0.spec_area() > b.0.spec_area(),
        OverlappingZonesAlgorithm::ClosestCenter => {
            let c1 = center(a.0);
            let c2 = center(b.0);
            if sq_dist(c1, c2) > OVERLAPPING_CENTERS_SENSITIVITY {
                sq_dist(c1, (x, y)) < sq_dist(c2, (x, y))
            } else {
                a.0.spec_area() < b.0.spec_area()
            }
        },
        _ => a.0.spec_area() < b.0.spec_area(),
    }
}

/// The position chosen among the first `k` zones: each later zone that wins
/// over the current choice replaces it.
pub open spec fn pick_by(c: Seq<(Rect, i64)>, k: int, alg: OverlappingZonesAlgorithm, x: int, y: int) -> int
    decreases k,
{
    if k <= 1 {
        0
    } else {
        let p = pick_by(c, k - 1, alg, x, y);
        if better(alg, x, y, c[k - 1], c[p]) {
            k - 1
        } else {
            p
        }
    }
}

/// The zones' rectangles grown by half the radius, intersected:
/// (left, top, right, bottom).
pub open spec fn overlap_rect(c: Seq<(Rect, i64)>, k: int, h: int) -> (int, int, int, int)
    decreases k,
{
    if k <= 1 {
        (c[0].0.left - h, c[0].0.top - h, c[0].0.right + h, c[0].0.bottom + h)
    } else {
        let o = overlap_rect(c, k - 1, h);
        let e = c[k - 1].0;
        (
            max_int(o.0, e.left - h),
            max_int(o.1, e.top - h),
            min_int(o.2, e.right + h),
            min_int(o.3, e.bottom + h),
        )
    }
}

/// The zone picked by position: the shared region is cut into equal strips
/// along its longer side, one per zone.
pub open spec fn positional_pick(c: Seq<(Rect, i64)>, x: int, y: int, sr: int) -> int {
    let o = overlap_rect(c, c.len() as int, tdiv(sr, 2));
    let width = max_int(o.2 - o.0, 1);
    let height = max_int(o.3 - o.1, 1);
    let idx = if height > width {
        tdiv((y - o.1) * c.len(), height)
    } else {
        tdiv((x - o.0) * c.len(), width)
    };
    if idx < 0 {
        0
    } else if idx > c.len() - 1 {
        c.len() - 1
    } else {
        idx
    }
}

pub open spec fn select(c: Seq<(Rect, i64)>, alg: OverlappingZonesAlgorithm, x: int, y: int, sr: int) -> int {
    match alg {
        OverlappingZonesAlgorithm::Positional => positional_pick(c, x, y, sr),
        _ => pick_by(c, c.len() as int, alg, x, y),
    }
}

/// The zones a point is in: every zone within the radius, unless a single
/// such zone does not hold the point itself; where captured zones overlap,
/// the one the algorithm picks.
pub open spec fn zones_at_point(zs: Seq<(Rect, i64)>, sr: int, x: int, y: int, alg: OverlappingZonesAlgorithm) -> Seq<i64> {
    let c = near_zones(zs, sr, x, y);
    if c.len() == 1 && !any_strict(zs, x, y) {
        Seq::empty()
    } else if has_overlap(c, sr) {
        seq![c[select(c, alg, x, y, sr)].1]
    } else {
        c.map_values(|z: (Rect, i64)| z.1)
    }
}

/// The bounding rectangle of the selected zones, in order.
pub open spec fn bbox(zs: Seq<(Rect, i64)>, sel: spec_fn(i64) -> bool) -> Option<Rect>
    decreases zs.len(),
{
    if zs.len() == 0 {
        None
    } else {
        let p = bbox(zs.drop_last(), sel);
        let z = zs.last();
        if sel(z.1) {
            match p {
                None => Some(z.0),
                Some(q) => Some(Rect {
                    left: if q.left <= z.0.left { q.left } else { z.0.left },
                    top: if q.top <= z.0.top { q.top } else { z.0.top },
                    right: if q.right >= z.0.right { q.right } else { z.0.right },
                    bottom: if q.bottom >= z.0.bottom { q.bottom } else { z.0.bottom },
                }),
            }
        } else {
            p
        }
    }
}

pub open spec fn inside(r: Rect, br: Rect) -> bool {
    br.left <= r.left && r.right <= br.right && br.top <= r.top && r.bottom <= br.bottom
}

/// The indices of the zones inside a rectangle, in order.
pub open spec fn ids_inside(zs: Seq<(Rect, i64)>, br: Rect) -> Seq<i64>
    decreases zs.len(),
{
    if zs.len() == 0 {
        Seq::empty()
    } else {
        let p = ids_inside(zs.drop_last(), br);
        if inside(zs.last().0, br) {
            p.push(zs.last().1)
        } else {
            p
        }
    }
}

/// Every zone within the bounding rectangle of the zones of both sets.
pub open spec fn combined_range(zs: Seq<(Rect, i64)>, a: Seq<i64>, b: Seq<i64>) -> Seq<i64> {
    match bbox(zs, |id: i64| a.contains(id) || b.contains(id)) {
        None => Seq::empty(),
        Some(br) => ids_inside(zs, br),
    }
}

/// The bounding rectangle of the listed zones; empty at the origin if none
/// is there.
pub open spec fn combined_rect(zs: Seq<(Rect, i64)>, a: Seq<i64>) -> Rect {
    match bbox(zs, |id: i64| a.contains(id)) {
        None => Rect { left: 0, top: 0, right: 0, bottom: 0 },
        Some(r) => r,
    }
}

fn contains_id(v: &Vec<i64>, id: i64) -> (b: bool)
    ensures
        b == v@.contains(id),
{
    let mut i: usize = 0;
    while i < v.len()
        invariant
            i <= v@.len(),
            forall|k: int| 0 <= k < i ==> v@[k] != id,
        decreases v@.len() - i,
    {
        if v[i] == id {
            return true;
        }
        i = i + 1;
    }
    false
}

fn area_wide(r: Rect) -> (a: i128)
    ensures
        a == r.spec_area(),
{
    let w: i128 = if (r.right as i128) - (r.left as i128) > 0 { (r.right as i128) - (r.left as i128) } else { 0 };
    let h: i128 = if (r.bottom as i128) - (r.top as i128) > 0 { (r.bottom as i128) - (r.top as i128) } else { 0 };
    proof {
        crate::fancyzones::layout::zones::lemma_mul_abs(w as int, h as int, 0x1_0000_0000, 0x1_0000_0000);
    }
    w * h
}

fn tdiv2(v: i128) -> (q: i128)
    requires
        v > i128::MIN,
    ensures
        q == tdiv(v as int, 2),
{
    if v >= 0 {
        v / 2
    } else {
        -((-v) / 2)
    }
}

fn sq_dist_exec(p: (i128, i128), q: (i128, i128)) -> (d: i128)
    requires
        -0x1_0000_0000 <= p.0 <= 0x1_0000_0000,
        -0x1_0000_0000 <= p.1 <= 0x1_0000_0000,
        -0x1_0000_0000 <= q.0 <= 0x1_0000_0000,
        -0x1_0000_0000 <= q.1 <= 0x1_0000_0000,
    ensures
        d == sq_dist((p.0 as int, p.1 as int), (q.0 as int, q.1 as int)),
{
    let dx = p.0 - q.0;
    let dy = p.1 - q.1;
    proof {
        crate::fancyzones::layout::zones::lemma_mul_abs(dx as int, dx as int, 0x2_0000_0000, 0x2_0000_0000);
        crate::fancyzones::layout::zones::lemma_mul_abs(dy as int, dy as int, 0x2_0000_0000, 0x2_0000_0000);
    }
    dx * dx + dy * dy
}

fn center_exec(r: Rect) -> (c: (i128, i128))
    ensures
        c.0 == center(r).0,
        c.1 == center(r).1,
        -0x1_0000_0000 <= c.0 <= 0x1_0000_0000,
        -0x1_0000_0000 <= c.1 <= 0x1_0000_0000,
{
    (tdiv2(r.right as i128 + r.left as i128), tdiv2(r.top as i128 + r.bottom as i128))
}

fn better_exec(alg: OverlappingZonesAlgorithm, x: i32, y: i32, a: (Rect, i64), b: (Rect, i64)) -> (r: bool)
    ensures
        r == better(alg, x as int, y as int, a, b),
{
    match alg {
        OverlappingZonesAlgorithm::Largest => area_wide(a.0) > area_wide(b.0),
        OverlappingZonesAlgorithm::ClosestCenter => {
            let c1 = center_exec(a.0);
            let c2 = center_exec(b.0);
            let pt = (x as i128, y as i128);
            if sq_dist_exec(c1, c2) > OVERLAPPING_CENTERS_SENSITIVITY as i128 {
                sq_dist_exec(c1, pt) < sq_dist_exec(c2, pt)
            } else {
                area_wide(a.0) < area_wide(b.0)
            }
        },
        _ => area_wide(a.0) < area_wide(b.0),
    }
}

fn max_i64(a: i64, b: i64) -> (m: i64)
    ensures
        m == max_int(a as int, b as int),
{
    if a >= b {
        a
    } else {
        b
    }
}

fn min_i64(a: i64, b: i64) -> (m: i64)
    ensures
        m == min_int(a as int, b as int),
{
    if a <= b {
        a
    } else {
        b
    }
}

fn positional_exec(c: &Vec<(Rect, i64)>, x: i32, y: i32, sr: i32) -> (k: usize)
    requires
        c@.len() >= 1,
    ensures
        k as int == positional_pick(c@, x as int, y as int, sr as int),
        k < c@.len(),
{
    let h: i64 = if sr >= 0 { (sr / 2) as i64 } else { -(((-(sr as i64)) / 2)) };
    assert(h == tdiv(sr as int, 2));
    let first = c[0].0;
    let mut o: (i64, i64, i64, i64) = (
        first.left as i64 - h,
        first.top as i64 - h,
        first.right as i64 + h,
        first.bottom as i64 + h,
    );
    let mut i: usize = 1;
    while i < c.len()
        invariant
            1 <= i <= c@.len(),
            h == tdiv(sr as int, 2),
            -0x4000_0000 <= h <= 0x4000_0000,
            (o.0 as int, o.1 as int, o.2 as int, o.3 as int) == overlap_rect(c@, i as int, h as int),
            -0x1_0000_0000 <= o.0 <= 0x1_0000_0000,
            -0x1_0000_0000 <= o.1 <= 0x1_0000_0000,
            -0x1_0000_0000 <= o.2 <= 0x1_0000_0000,
            -0x1_0000_0000 <= o.3 <= 0x1_0000_0000,
        decreases c@.len() - i,
    {
        let e = c[i].0;
        o = (
            max_i64(o.0, e.left as i64 - h),
            max_i64(o.1, e.top as i64 - h),
            min_i64(o.2, e.right as i64 + h),
            min_i64(o.3, e.bottom as i64 + h),
        );
        i = i + 1;
    }
    let width: i128 = if o.2 - o.0 >= 1 { (o.2 - o.0) as i128 } else { 1 };
    let height: i128 = if o.3 - o.1 >= 1 { (o.3 - o.1) as i128 } else { 1 };
    let len = c.len() as i128;
    proof {
        crate::fancyzones::layout::zones::lemma_mul_abs(
            (y as int - o.1 as int),
            len as int,
            0x2_0000_0000,
            0x1_0000_0000_0000_0000,
        );
        crate::fancyzones::layout::zones::lemma_mul_abs(
            (x as int - o.0 as int),
            len as int,
            0x2_0000_0000,
            0x1_0000_0000_0000_0000,
        );
    }
    let num = if height > width { (y as i128 - o.1 as i128) * len } else { (x as i128 - o.0 as i128) * len };
    let den = if height > width { height } else { width };
    let idx = if num >= 0 { num / den } else { -((-num) / den) };
    if idx < 0 {
        0
    } else if idx > len - 1 {
        c.len() - 1
    } else {
        idx as usize
    }
}

impl Layout {
    /// The zones at a point, as `zones_at_point` gives them.
    pub fn zones_from_point(&self, pt: Point, algorithm: OverlappingZonesAlgorithm) -> (ids: Vec<i64>)
        ensures
            ids@ == zones_at_point(
                self.spec_zones(),
                self.spec_data().sensitivity_radius as int,
                pt.x as int,
                pt.y as int,
                algorithm,
            ),
    {
        let sr = self.data.sensitivity_radius;
        let srw = sr as i64;
        let x = pt.x as i64;
        let y = pt.y as i64;
        let ghost zs = zone_pairs(self.zones@);
        let mut captured: Vec<(Rect, i64)> = Vec::new();
        let mut strict = false;
        let mut i: usize = 0;
        while i < self.zones.len()
            invariant
                zs == zone_pairs(self.zones@),
                srw == sr,
                x == pt.x,
                y == pt.y,
                i <= self.zones@.len(),
                captured@ == near_zones(zs.take(i as int), sr as int, x as int, y as int),
                strict == any_strict(zs.take(i as int), x as int, y as int),
            decreases self.zones@.len() - i,
        {
            let z = &self.zones[i];
            let r = z.get_zone_rect();
            proof {
                assert(zs.take(i + 1).drop_last() =~= zs.take(i as int));
                assert(zs.take(i + 1).last() == zone_pair(*z));
            }
            if r.left as i64 - srw <= x && x <= r.right as i64 + srw && r.top as i64 - srw <= y && y <= r.bottom
                as i64 + srw {
                captured.push((r, z.id()));
            }
            let inside = r.contains_point(pt.x, pt.y);
            proof {
                let t = zs.take(i + 1);
                if inside {
                    assert(t[i as int].0.spec_contains(x as int, y as int));
                }
                if any_strict(t, x as int, y as int) && !inside {
                    let k = choose|k: int| 0 <= k < t.len() && (#[trigger] t[k]).0.spec_contains(x as int, y as int);
                    assert(zs.take(i as int)[k] == t[k]);
                }
                if any_strict(zs.take(i as int), x as int, y as int) {
                    let k = choose|k: int| 0 <= k < i && (#[trigger] zs.take(i as int)[k]).0.spec_contains(
                        x as int,
                        y as int,
                    );
                    assert(t[k] == zs.take(i as int)[k]);
                }
            }
            strict = strict || inside;
            i = i + 1;
        }
        proof {
            assert(zs.take(i as int) =~= zs);
        }
        if captured.len() == 1 && !strict {
            return Vec::new();
        }
        let mut overlap = false;
        let mut a: usize = 0;
        while a < captured.len() && !overlap
            invariant
                a <= captured@.len(),
                overlap ==> has_overlap(captured@, sr as int),
                !overlap ==> forall|p: int, q: int| 0 <= p < a && p < q < captured@.len() ==> !pair_overlap(
                    #[trigger] captured@[p].0,
                    #[trigger] captured@[q].0,
                    sr as int,
                ),
            decreases captured@.len() - a, if overlap { 0int } else { 1int },
        {
            let mut b: usize = a + 1;
            while b < captured.len() && !overlap
                invariant
                    a < captured@.len(),
                    a + 1 <= b <= captured@.len(),
                    overlap ==> has_overlap(captured@, sr as int),
                    !overlap ==> forall|q: int| a < q < b ==> !pair_overlap(
                        #[trigger] captured@[a as int].0,
                        #[trigger] captured@[q].0,
                        sr as int,
                    ),
                decreases captured@.len() - b, if overlap { 0int } else { 1int },
            {
                let ri = captured[a].0;
                let rj = captured[b].0;
                let top = max_i64(ri.top as i64, rj.top as i64);
                let bottom = min_i64(ri.bottom as i64, rj.bottom as i64);
                let left = max_i64(ri.left as i64, rj.left as i64);
                let right = min_i64(ri.right as i64, rj.right as i64);
                if top + (sr as i64) < bottom && left + (sr as i64) < right {
                    overlap = true;
                    proof {
                        assert(pair_overlap(captured@[a as int].0, captured@[b as int].0, sr as int));
                    }
                }
                b = b + 1;
            }
            a = a + 1;
        }
        if !overlap {
            proof {
                assert(!has_overlap(captured@, sr as int)) by {
                    if has_overlap(captured@, sr as int) {
                        let (p, q) = choose|p: int, q: int| 0 <= p < q < captured@.len() && pair_overlap(
                            #[trigger] captured@[p].0,
                            #[trigger] captured@[q].0,
                            sr as int,
                        );
                        assert(!pair_overlap(captured@[p].0, captured@[q].0, sr as int));
                    }
                }
            }
            let mut ids: Vec<i64> = Vec::new();
            let mut k: usize = 0;
            while k < captured.len()
                invariant
                    k <= captured@.len(),
                    ids@ == captured@.map_values(|z: (Rect, i64)| z.1).take(k as int),
                decreases captured@.len() - k,
            {
                ids.push(captured[k].1);
                k = k + 1;
                proof {
                    assert(ids@ =~= captured@.map_values(|z: (Rect, i64)| z.1).take(k as int));
                }
            }
            proof {
                assert(ids@ =~= captured@.map_values(|z: (Rect, i64)| z.1));
            }
            return ids;
        }
        proof {
            let (p, q) = choose|p: int, q: int| 0 <= p < q < captured@.len() && pair_overlap(
                #[trigger] captured@[p].0,
                #[trigger] captured@[q].0,
                sr as int,
            );
            assert(captured@.len() >= 2);
        }
        let chosen: usize = match algorithm {
            OverlappingZonesAlgorithm::Positional => positional_exec(&captured, pt.x, pt.y, sr),
            _ => {
                let mut chosen: usize = 0;
                let mut k: usize = 1;
                while k < captured.len()
                    invariant
                        1 <= k <= captured@.len(),
                        chosen < k,
                        chosen as int == pick_by(captured@, k as int, algorithm, pt.x as int, pt.y as int),
                    decreases captured@.len() - k,
                {
                    if better_exec(algorithm, pt.x, pt.y, captured[k], captured[chosen]) {
                        chosen = k;
                    }
                    k = k + 1;
                }
                chosen
            },
        };
        let mut ids: Vec<i64> = Vec::new();
        ids.push(captured[chosen].1);
        proof {
            assert(ids@ =~= seq![captured@[chosen as int].1]);
        }
        ids
    }

    /// Every zone inside the bounding rectangle of the zones of both sets;
    /// none if neither set names a zone of the layout.
    pub fn get_combined_zone_range(&self, initial_zones: &Vec<i64>, final_zones: &Vec<i64>) -> (ids: Vec<i64>)
        ensures
            ids@ == combined_range(self.spec_zones(), initial_zones@, final_zones@),
    {
        let ghost zs = zone_pairs(self.zones@);
        let ghost sel = |id: i64| initial_zones@.contains(id) || final_zones@.contains(id);
        let mut found = false;
        let mut br = Rect { left: 0, top: 0, right: 0, bottom: 0 };
        let mut i: usize = 0;
        while i < self.zones.len()
            invariant
                zs == zone_pairs(self.zones@),
                sel == (|id: i64| initial_zones@.contains(id) || final_zones@.contains(id)),
                i <= self.zones@.len(),
                match bbox(zs.take(i as int), sel) {
                    None => !found,
                    Some(q) => found && br == q,
                },
            decreases self.zones@.len() - i,
        {
            let z = &self.zones[i];
            let id = z.id();
            let r = z.get_zone_rect();
            proof {
                assert(zs.take(i + 1).drop_last() =~= zs.take(i as int));
                assert(zs.take(i + 1).last() == zone_pair(*z));
            }
            if contains_id(initial_zones, id) || contains_id(final_zones, id) {
                if !found {
                    br = r;
                    found = true;
                } else {
                    br = Rect {
                        left: if br.left <= r.left { br.left } else { r.left },
                        top: if br.top <= r.top { br.top } else { r.top },
                        right: if br.right >= r.right { br.right } else { r.right },
                        bottom: if br.bottom >= r.bottom { br.bottom } else { r.bottom },
                    };
                }
            }
            i = i + 1;
        }
        proof {
            assert(zs.take(i as int) =~= zs);
        }
        if !found {
            return Vec::new();
        }
        let mut ids: Vec<i64> = Vec::new();
        let mut k: usize = 0;
        while k < self.zones.len()
            invariant
                zs == zone_pairs(self.zones@),
                k <= self.zones@.len(),
                ids@ == ids_inside(zs.take(k as int), br),
            decreases self.zones@.len() - k,
        {
            let z = &self.zones[k];
            let r = z.get_zone_rect();
            proof {
                assert(zs.take(k + 1).drop_last() =~= zs.take(k as int));
                assert(zs.take(k + 1).last() == zone_pair(*z));
            }
            if br.left <= r.left && r.right <= br.right && br.top <= r.top && r.bottom <= br.bottom {
                ids.push(z.id());
            }
            k = k + 1;
        }
        proof {
            assert(zs.take(k as int) =~= zs);
        }
        ids
    }

    /// The bounding rectangle of the listed zones; empty at the origin if
    /// none is in the layout.
    pub fn get_combined_zones_rect(&self, zones: &Vec<i64>) -> (r: Rect)
        ensures
            r == combined_rect(self.spec_zones(), zones@),
    {
        let ghost zs = zone_pairs(self.zones@);
        let ghost sel = |id: i64| zones@.contains(id);
        let mut found = false;
        let mut br = Rect { left: 0, top: 0, right: 0, bottom: 0 };
        let mut i: usize = 0;
        while i < self.zones.len()
            invariant
                zs == zone_pairs(self.zones@),
                sel == (|id: i64| zones@.contains(id)),
                i <= self.zones@.len(),
                match bbox(zs.take(i as int), sel) {
                    None => !found && br == (Rect { left: 0, top: 0, right: 0, bottom: 0 }),
                    Some(q) => found && br == q,
                },
            decreases self.zones@.len() - i,
        {
            let z = &self.zones[i];
            let id = z.id();
            let r = z.get_zone_rect();
            proof {
                assert(zs.take(i + 1).drop_last() =~= zs.take(i as int));
                assert(zs.take(i + 1).last() == zone_pair(*z));
            }
            if contains_id(zones, id) {
                if !found {
                    br = r;
                    found = true;
                } else {
                    br = Rect {
                        left: if br.left <= r.left { br.left } else { r.left },
                        top: if br.top <= r.top { br.top } else { r.top },
                        right: if br.right >= r.right { br.right } else { r.right },
                        bottom: if br.bottom >= r.bottom { br.bottom } else { r.bottom },
                    };
                }
            }
            i = i + 1;
        }
        proof {
            assert(zs.take(i as int) =~= zs);
        }
        br
    }
}

} // verus!

verus! {

/// The bounding rectangle of the selected zones, side by side: there is one
/// exactly when a zone is selected, each side is that of some selected zone,
/// and every selected zone lies within it.
proof fn lemma_bbox_sides(zs: Seq<(Rect, i64)>, sel: spec_fn(i64) -> bool)
    ensures
        bbox(zs, sel) is None <==> forall|j: int| 0 <= j < zs.len() ==> !sel(#[trigger] zs[j].1),
        bbox(zs, sel) matches Some(q) ==> {
            &&& forall|j: int|
                0 <= j < zs.len() && sel(#[trigger] zs[j].1) ==> q.left <= zs[j].0.left && q.top <= zs[j].0.top
                    && zs[j].0.right <= q.right && zs[j].0.bottom <= q.bottom
            &&& exists|j: int| 0 <= j < zs.len() && sel(#[trigger] zs[j].1) && zs[j].0.left == q.left
            &&& exists|j: int| 0 <= j < zs.len() && sel(#[trigger] zs[j].1) && zs[j].0.top == q.top
            &&& exists|j: int| 0 <= j < zs.len() && sel(#[trigger] zs[j].1) && zs[j].0.right == q.right
            &&& exists|j: int| 0 <= j < zs.len() && sel(#[trigger] zs[j].1) && zs[j].0.bottom == q.bottom
        },
    decreases zs.len(),
{
    if zs.len() > 0 {
        let t = zs.drop_last();
        let n = zs.len() - 1;
        lemma_bbox_sides(t, sel);
        assert forall|j: int| 0 <= j < t.len() implies #[trigger] t[j] == zs[j] by {}
        if let Some(q) = bbox(zs, sel) {
            if sel(zs[n].1) {
                match bbox(t, sel) {
                    None => {
                        assert(sel(zs[n].1) && zs[n].0.left == q.left);
                        assert(sel(zs[n].1) && zs[n].0.top == q.top);
                        assert(sel(zs[n].1) && zs[n].0.right == q.right);
                        assert(sel(zs[n].1) && zs[n].0.bottom == q.bottom);
                        assert forall|j: int|
                            0 <= j < zs.len() && sel(#[trigger] zs[j].1) implies q.left <= zs[j].0.left && q.top
                            <= zs[j].0.top && zs[j].0.right <= q.right && zs[j].0.bottom <= q.bottom by {
                            if j < n {
                                assert(!sel(t[j].1));
                            }
                        }
                    },
                    Some(p) => {
                        assert forall|j: int|
                            0 <= j < zs.len() && sel(#[trigger] zs[j].1) implies q.left <= zs[j].0.left && q.top
                            <= zs[j].0.top && zs[j].0.right <= q.right && zs[j].0.bottom <= q.bottom by {
                            if j < n {
                                assert(sel(t[j].1));
                            }
                        }
                        if p.left <= zs[n].0.left {
                            let j = choose|j: int| 0 <= j < t.len() && sel(#[trigger] t[j].1) && t[j].0.left == p.left;
                            assert(sel(zs[j].1) && zs[j].0.left == q.left);
                        } else {
                            assert(sel(zs[n].1) && zs[n].0.left == q.left);
                        }
                        if p.top <= zs[n].0.top {
                            let j = choose|j: int| 0 <= j < t.len() && sel(#[trigger] t[j].1) && t[j].0.top == p.top;
                            assert(sel(zs[j].1) && zs[j].0.top == q.top);
                        } else {
                            assert(sel(zs[n].1) && zs[n].0.top == q.top);
                        }
                        if p.right >= zs[n].0.right {
                            let j = choose|j: int|
                                0 <= j < t.len() && sel(#[trigger] t[j].1) && t[j].0.right == p.right;
                            assert(sel(zs[j].1) && zs[j].0.right == q.right);
                        } else {
                            assert(sel(zs[n].1) && zs[n].0.right == q.right);
                        }
                        if p.bottom >= zs[n].0.bottom {
                            let j = choose|j: int|
                                0 <= j < t.len() && sel(#[trigger] t[j].1) && t[j].0.bottom == p.bottom;
                            assert(sel(zs[j].1) && zs[j].0.bottom == q.bottom);
                        } else {
                            assert(sel(zs[n].1) && zs[n].0.bottom == q.bottom);
                        }
                    },
                }
            } else {
                assert(bbox(t, sel) == Some(q));
                assert forall|j: int|
                    0 <= j < zs.len() && sel(#[trigger] zs[j].1) implies q.left <= zs[j].0.left && q.top
                    <= zs[j].0.top && zs[j].0.right <= q.right && zs[j].0.bottom <= q.bottom by {
                    assert(j < n);
                    assert(sel(t[j].1));
                }
                let j1 = choose|j: int| 0 <= j < t.len() && sel(#[trigger] t[j].1) && t[j].0.left == q.left;
                assert(sel(zs[j1].1) && zs[j1].0.left == q.left);
                let j2 = choose|j: int| 0 <= j < t.len() && sel(#[trigger] t[j].1) && t[j].0.top == q.top;
                assert(sel(zs[j2].1) && zs[j2].0.top == q.top);
                let j3 = choose|j: int| 0 <= j < t.len() && sel(#[trigger] t[j].1) && t[j].0.right == q.right;
                assert(sel(zs[j3].1) && zs[j3].0.right == q.right);
                let j4 = choose|j: int| 0 <= j < t.len() && sel(#[trigger] t[j].1) && t[j].0.bottom == q.bottom;
                assert(sel(zs[j4].1) && zs[j4].0.bottom == q.bottom);
            }
        } else {
            assert forall|j: int| 0 <= j < zs.len() implies !sel(#[trigger] zs[j].1) by {
                if j < n {
                    assert(!sel(t[j].1));
                }
            }
        }
    }
}

/// The listed zones are those inside the rectangle.
proof fn lemma_ids_inside(zs: Seq<(Rect, i64)>, br: Rect)
    ensures
        forall|id: i64|
            ids_inside(zs, br).contains(id) <==> exists|k: int|
                0 <= k < zs.len() && (#[trigger] zs[k]).1 == id && inside(zs[k].0, br),
    decreases zs.len(),
{
    if zs.len() > 0 {
        let t = zs.drop_last();
        let n = zs.len() - 1;
        lemma_ids_inside(t, br);
        let p = ids_inside(t, br);
        assert forall|id: i64|
            ids_inside(zs, br).contains(id) <==> exists|k: int|
                0 <= k < zs.len() && (#[trigger] zs[k]).1 == id && inside(zs[k].0, br) by {
            if ids_inside(zs, br).contains(id) {
                if p.contains(id) {
                    let k = choose|k: int| 0 <= k < t.len() && (#[trigger] t[k]).1 == id && inside(t[k].0, br);
                    assert(zs[k] == t[k]);
                } else {
                    assert(inside(zs[n].0, br));
                    assert(ids_inside(zs, br) == p.push(zs[n].1));
                    let i = choose|i: int| 0 <= i < p.push(zs[n].1).len() && p.push(zs[n].1)[i] == id;
                    if i < p.len() {
                        assert(p.contains(id));
                    }
                    assert(zs[n].1 == id);
                }
            }
            if exists|k: int| 0 <= k < zs.len() && (#[trigger] zs[k]).1 == id && inside(zs[k].0, br) {
                let k = choose|k: int| 0 <= k < zs.len() && (#[trigger] zs[k]).1 == id && inside(zs[k].0, br);
                if k < n {
                    assert(t[k] == zs[k]);
                    assert(p.contains(id));
                    if inside(zs[n].0, br) {
                        let i = choose|i: int| 0 <= i < p.len() && p[i] == id;
                        assert(p.push(zs[n].1)[i] == id);
                    }
                } else {
                    assert(ids_inside(zs, br) == p.push(zs[n].1));
                    assert(p.push(zs[n].1)[p.len() as int] == id);
                }
            }
        }
    }
}

/// Zone `j` is in one of the two sets.
pub open spec fn in_either(zs: Seq<(Rect, i64)>, a: Seq<i64>, b: Seq<i64>, j: int) -> bool {
    a.contains(zs[j].1) || b.contains(zs[j].1)
}

/// A rectangle is spanned by the zones of the two sets: some zone of the
/// sets reaches as far left as it, some as far right, some as high and some
/// as low.
pub open spec fn spanned(zs: Seq<(Rect, i64)>, a: Seq<i64>, b: Seq<i64>, r: Rect) -> bool {
    &&& exists|j: int| 0 <= j < zs.len() && #[trigger] in_either(zs, a, b, j) && zs[j].0.left <= r.left
    &&& exists|j: int| 0 <= j < zs.len() && #[trigger] in_either(zs, a, b, j) && r.right <= zs[j].0.right
    &&& exists|j: int| 0 <= j < zs.len() && #[trigger] in_either(zs, a, b, j) && zs[j].0.top <= r.top
    &&& exists|j: int| 0 <= j < zs.len() && #[trigger] in_either(zs, a, b, j) && r.bottom <= zs[j].0.bottom
}

/// The combined range of two sets of zones (`get_combined_zone_range`)
/// holds exactly the zones that the zones of the two sets span on all four
/// sides: none lies further left, right, up or down than every zone of the
/// sets. So every zone of the sets is in it, and with no zone of the layout
/// in either set it is empty.
pub proof fn lemma_combined_range_spans(zs: Seq<(Rect, i64)>, a: Seq<i64>, b: Seq<i64>)
    ensures
        forall|id: i64|
            combined_range(zs, a, b).contains(id) <==> exists|k: int|
                0 <= k < zs.len() && (#[trigger] zs[k]).1 == id && spanned(zs, a, b, zs[k].0),
        forall|k: int| 0 <= k < zs.len() && #[trigger] in_either(zs, a, b, k) ==> combined_range(zs, a, b).contains(zs[k].1),
        (forall|j: int| 0 <= j < zs.len() ==> !#[trigger] in_either(zs, a, b, j)) ==> combined_range(zs, a, b)
            == Seq::<i64>::empty(),
{
    let sel = |id: i64| a.contains(id) || b.contains(id);
    lemma_bbox_sides(zs, sel);
    assert forall|j: int| 0 <= j < zs.len() implies (#[trigger] in_either(zs, a, b, j)) == sel(zs[j].1) by {}
    match bbox(zs, sel) {
        None => {
            assert forall|k: int| 0 <= k < zs.len() implies !spanned(zs, a, b, zs[k].0) by {
                if spanned(zs, a, b, zs[k].0) {
                    let j = choose|j: int|
                        0 <= j < zs.len() && #[trigger] in_either(zs, a, b, j) && zs[j].0.left <= zs[k].0.left;
                    assert(!sel(zs[j].1));
                }
            }
            assert forall|j: int| 0 <= j < zs.len() implies !#[trigger] in_either(zs, a, b, j) by {
                assert(!sel(zs[j].1));
            }
        },
        Some(q) => {
            lemma_ids_inside(zs, q);
            assert forall|k: int| 0 <= k < zs.len() implies spanned(zs, a, b, zs[k].0) == inside(zs[k].0, q) by {
                let r = zs[k].0;
                if inside(r, q) {
                    let j1 = choose|j: int| 0 <= j < zs.len() && sel(#[trigger] zs[j].1) && zs[j].0.left == q.left;
                    assert(in_either(zs, a, b, j1));
                    let j2 = choose|j: int| 0 <= j < zs.len() && sel(#[trigger] zs[j].1) && zs[j].0.right == q.right;
                    assert(in_either(zs, a, b, j2));
                    let j3 = choose|j: int| 0 <= j < zs.len() && sel(#[trigger] zs[j].1) && zs[j].0.top == q.top;
                    assert(in_either(zs, a, b, j3));
                    let j4 = choose|j: int|
                        0 <= j < zs.len() && sel(#[trigger] zs[j].1) && zs[j].0.bottom == q.bottom;
                    assert(in_either(zs, a, b, j4));
                }
                if spanned(zs, a, b, r) {
                    let j1 = choose|j: int| 0 <= j < zs.len() && #[trigger] in_either(zs, a, b, j) && zs[j].0.left <= r.left;
                    assert(sel(zs[j1].1));
                    let j2 = choose|j: int| 0 <= j < zs.len() && #[trigger] in_either(zs, a, b, j) && r.right <= zs[j].0.right;
                    assert(sel(zs[j2].1));
                    let j3 = choose|j: int| 0 <= j < zs.len() && #[trigger] in_either(zs, a, b, j) && zs[j].0.top <= r.top;
                    assert(sel(zs[j3].1));
                    let j4 = choose|j: int| 0 <= j < zs.len() && #[trigger] in_either(zs, a, b, j) && r.bottom <= zs[j].0.bottom;
                    assert(sel(zs[j4].1));
                }
            }
            assert forall|k: int| 0 <= k < zs.len() && #[trigger] in_either(zs, a, b, k) implies combined_range(zs, a, b).contains(zs[k].1) by {
                assert(sel(zs[k].1));
                assert(inside(zs[k].0, q));
            }
        },
    }
}

} // verus!
