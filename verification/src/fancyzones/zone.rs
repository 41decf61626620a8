//! Zones and compact sets of zone indices.

use vstd::prelude::*;
use crate::fancyzones::rect::Rect;

verus! {

/// The lowest coordinate a zone edge may have (negative spacing).
pub const MAX_NEGATIVE_SPACING: i32 = -20;

/// A zone: a rectangle with an index.
#[derive(Debug, Clone, Copy, PartialEq, Eq, Structural)]
pub struct Zone {
    rect: Rect,
    index: i64,
}

impl Zone {
    pub closed spec fn spec_rect(self) -> Rect {
        self.rect
    }

    pub closed spec fn spec_id(self) -> i64 {
        self.index
    }

    /// A zone is valid when its index is non-negative, no edge lies below
    /// `MAX_NEGATIVE_SPACING` and its width and height are not negative.
    pub open spec fn spec_is_valid(self) -> bool {
        let r = self.spec_rect();
        &&& self.spec_id() >= 0
        &&& r.left >= MAX_NEGATIVE_SPACING
        &&& r.right >= MAX_NEGATIVE_SPACING
        &&& r.top >= MAX_NEGATIVE_SPACING
        &&& r.bottom >= MAX_NEGATIVE_SPACING
        &&& r.right - r.left >= 0
        &&& r.bottom - r.top >= 0
    }

    pub fn new(rect: Rect, index: i64) -> (z: Self)
        ensures
            z.spec_rect() == rect,
            z.spec_id() == index,
    {
        Zone { rect, index }
    }

    pub fn id(&self) -> (i: i64)
        ensures
            i == self.spec_id(),
    {
        self.index
    }

    pub fn is_valid(&self) -> (b: bool)
        ensures
            b == self.spec_is_valid(),
    {
        if self.index < 0 {
            return false;
        }
        let width = (self.rect.right as i64) - (self.rect.left as i64);
        let height = (self.rect.bottom as i64) - (self.rect.top as i64);
        self.rect.left >= MAX_NEGATIVE_SPACING && self.rect.right >= MAX_NEGATIVE_SPACING
            && self.rect.top >= MAX_NEGATIVE_SPACING && self.rect.bottom >= MAX_NEGATIVE_SPACING
            && width >= 0 && height >= 0
    }

    pub fn get_zone_rect(&self) -> (r: Rect)
        ensures
            r == self.spec_rect(),
    {
        self.rect
    }

    pub fn get_zone_area(&self) -> (a: i64)
        requires
            self.spec_rect().spec_area() <= i64::MAX,
        ensures
            a == self.spec_rect().spec_area(),
    {
        self.rect.area()
    }
}

/// Whether bit `i` of `m` is set.
pub open spec fn bit(m: u64, i: u64) -> bool {
    (m >> i) & 1u64 == 1u64
}

/// Setting bit `z` keeps the other bits.
proof fn lemma_set_bit(m: u64, z: u64, b: u64)
    requires
        z < 64,
        b < 64,
    ensures
        bit(m | (1u64 << z), b) == (bit(m, b) || b == z),
{
    assert(((m | (1u64 << z)) >> b) & 1u64 == 1u64 <==> ((m >> b) & 1u64 == 1u64 || b == z))
        by (bit_vector)
        requires
            z < 64,
            b < 64,
    ;
}

/// Testing a bit with a shifted one.
proof fn lemma_test_bit(m: u64, i: u64)
    requires
        i < 64,
    ensures
        ((1u64 << i) & m != 0) == bit(m, i),
{
    assert(((1u64 << i) & m != 0) <==> ((m >> i) & 1u64 == 1u64)) by (bit_vector)
        requires
            i < 64,
    ;
}

/// The empty mask has no bit set.
proof fn lemma_zero_bits(i: u64)
    requires
        i < 64,
    ensures
        !bit(0, i),
{
    assert((0u64 >> i) & 1u64 != 1u64) by (bit_vector);
}

/// An element of a sequence after a push is an old element or the new one.
proof fn lemma_push_contains(s: Seq<i64>, x: i64, v: i64)
    ensures
        s.push(x).contains(v) == (s.contains(v) || v == x),
{
    if s.contains(v) {
        let i = choose|i: int| 0 <= i < s.len() && s[i] == v;
        assert(s.push(x)[i] == v);
    }
    if v == x {
        assert(s.push(x)[s.len() as int] == v);
    }
    if s.push(x).contains(v) && v != x {
        let i = choose|i: int| 0 <= i < s.push(x).len() && s.push(x)[i] == v;
        assert(s[i] == v);
    }
}

/// A set of zone indices below 128 as two 64-bit masks: `part1` holds zones
/// 0..=63, `part2` zones 64..=127.
#[derive(Debug, Clone, Copy, PartialEq, Eq, Structural)]
pub struct ZoneIndexSetBitmask {
    pub part1: u64,
    pub part2: u64,
}

impl Default for ZoneIndexSetBitmask {
    fn default() -> (b: Self)
        ensures
            b == (ZoneIndexSetBitmask { part1: 0, part2: 0 }),
    {
        ZoneIndexSetBitmask { part1: 0, part2: 0 }
    }
}

/// Whether zone `v` belongs to the mask.
pub open spec fn mask_has(m: ZoneIndexSetBitmask, v: int) -> bool {
    if 0 <= v < 64 {
        bit(m.part1, v as u64)
    } else if 64 <= v < 128 {
        bit(m.part2, (v - 64) as u64)
    } else {
        false
    }
}

/// Every element lies in 0..128.
pub open spec fn indices_in_range(s: Seq<i64>) -> bool {
    forall|k: int| 0 <= k < s.len() ==> 0 <= #[trigger] s[k] < 128
}

/// Strictly increasing.
pub open spec fn strictly_increasing(s: Seq<i64>) -> bool {
    forall|i: int, j: int| 0 <= i < j < s.len() ==> s[i] < s[j]
}

/// Two strictly increasing sequences with the same elements are equal.
pub proof fn lemma_increasing_same_members(a: Seq<i64>, b: Seq<i64>)
    requires
        strictly_increasing(a),
        strictly_increasing(b),
        forall|v: i64| a.contains(v) <==> b.contains(v),
    ensures
        a == b,
    decreases a.len() + b.len(),
{
    if a.len() == 0 || b.len() == 0 {
        if a.len() > 0 {
            assert(a.contains(a[0]));
        }
        if b.len() > 0 {
            assert(b.contains(b[0]));
        }
        assert(a =~= b);
    } else {
        assert(a.contains(a[0]));
        assert(b.contains(b[0]));
        let ia = choose|i: int| 0 <= i < a.len() && a[i] == b[0];
        let ib = choose|i: int| 0 <= i < b.len() && b[i] == a[0];
        assert(a[0] == b[0]) by {
            if a[0] < b[0] {
                assert(b[ib] == a[0]);
                assert(b[0] <= b[ib]);
            } else if a[0] > b[0] {
                assert(a[ia] == b[0]);
                assert(a[0] <= a[ia]);
            }
        }
        let ta = a.drop_first();
        let tb = b.drop_first();
        assert forall|v: i64| ta.contains(v) <==> tb.contains(v) by {
            if ta.contains(v) {
                let k = choose|k: int| 0 <= k < ta.len() && ta[k] == v;
                assert(a[k + 1] == v);
                assert(a.contains(v));
                let m = choose|m: int| 0 <= m < b.len() && b[m] == v;
                assert(m != 0);
                assert(tb[m - 1] == v);
            }
            if tb.contains(v) {
                let k = choose|k: int| 0 <= k < tb.len() && tb[k] == v;
                assert(b[k + 1] == v);
                assert(b.contains(v));
                let m = choose|m: int| 0 <= m < a.len() && a[m] == v;
                assert(m != 0);
                assert(ta[m - 1] == v);
            }
        }
        lemma_increasing_same_members(ta, tb);
        assert(a =~= seq![a[0]] + ta);
        assert(b =~= seq![b[0]] + tb);
    }
}

/// Converting a strictly increasing set of indices below 128 to a mask and
/// back gives the same set, `from_index_set(&s).to_index_set() == s`: the
/// requirements on `m` and `r` are the contracts of `from_index_set` (on
/// `s`) and of `to_index_set` (on `m`).
pub proof fn lemma_bitmask_roundtrip(s: Seq<i64>, m: ZoneIndexSetBitmask, r: Seq<i64>)
    requires
        strictly_increasing(s),
        indices_in_range(s),
        forall|v: int| mask_has(m, v) <==> 0 <= v < 128 && s.contains(v as i64),
        strictly_increasing(r),
        forall|v: int| mask_has(m, v) <==> 0 <= v < 128 && r.contains(v as i64),
        indices_in_range(r),
    ensures
        r == s,
{
    assert forall|v: i64| s.contains(v) <==> r.contains(v) by {
        if s.contains(v) {
            let i = choose|i: int| 0 <= i < s.len() && s[i] == v;
            assert(0 <= s[i] < 128);
            assert(mask_has(m, v as int));
        }
        if r.contains(v) {
            let i = choose|i: int| 0 <= i < r.len() && r[i] == v;
            assert(0 <= r[i] < 128);
            assert(mask_has(m, v as int));
        }
    }
    lemma_increasing_same_members(r, s);
}

impl ZoneIndexSetBitmask {
    /// The mask of a set of zone indices, each below 128.
    pub fn from_index_set(set: &Vec<i64>) -> (m: Self)
        requires
            indices_in_range(set@),
        ensures
            forall|v: int| mask_has(m, v) <==> 0 <= v < 128 && set@.contains(v as i64),
    {
        let mut part1: u64 = 0;
        let mut part2: u64 = 0;
        let mut k: usize = 0;
        proof {
            assert(set@.take(0) =~= Seq::<i64>::empty());
            assert forall|b: u64| b < 64 implies !bit(0u64, b) by {
                lemma_zero_bits(b);
            }
        }
        while k < set.len()
            invariant
                k <= set@.len(),
                indices_in_range(set@),
                forall|b: u64| b < 64 ==> (bit(part1, b) <==> #[trigger] set@.take(k as int).contains(b as i64)),
                forall|b: u64| b < 64 ==> (bit(part2, b) <==> set@.take(k as int).contains((b + 64) as i64)),
            decreases set@.len() - k,
        {
            let z = set[k];
            let ghost old1 = part1;
            let ghost old2 = part2;
            if z <= 63 {
                part1 = part1 | (1u64 << (z as u64));
            } else {
                part2 = part2 | (1u64 << ((z - 64) as u64));
            }
            proof {
                let prev = set@.take(k as int);
                let next = set@.take(k + 1);
                assert(next =~= prev.push(z));
                assert forall|b: u64| b < 64 implies (bit(part1, b) <==> next.contains(b as i64)) by {
                    if z <= 63 {
                        lemma_set_bit(old1, z as u64, b);
                    }
                    lemma_push_contains(prev, z, b as i64);
                }
                assert forall|b: u64| b < 64 implies (bit(part2, b) <==> next.contains((b + 64) as i64)) by {
                    if z > 63 {
                        lemma_set_bit(old2, (z - 64) as u64, b);
                    }
                    lemma_push_contains(prev, z, (b + 64) as i64);
                }
            }
            k = k + 1;
        }
        let m = ZoneIndexSetBitmask { part1, part2 };
        proof {
            assert(set@.take(k as int) =~= set@);
            assert forall|v: int| mask_has(m, v) <==> 0 <= v < 128 && set@.contains(v as i64) by {
                if 0 <= v < 64 {
                    assert(bit(part1, v as u64) <==> set@.contains((v as u64) as i64));
                } else if 64 <= v < 128 {
                    assert(bit(part2, (v - 64) as u64) <==> set@.contains((((v - 64) as u64) + 64) as i64));
                } else if set@.contains(v as i64) {
                    let i = choose|i: int| 0 <= i < set@.len() && set@[i] == v as i64;
                    assert(0 <= set@[i] < 128);
                }
            }
        }
        m
    }

    /// The indices in the mask, in increasing order.
    pub fn to_index_set(&self) -> (s: Vec<i64>)
        ensures
            strictly_increasing(s@),
            indices_in_range(s@),
            forall|v: int| mask_has(*self, v) <==> 0 <= v < 128 && s@.contains(v as i64),
    {
        let mut set: Vec<i64> = Vec::new();
        let mut i: u64 = 0;
        while i < 64
            invariant
                i <= 64,
                strictly_increasing(set@),
                forall|k: int| 0 <= k < set@.len() ==> 0 <= #[trigger] set@[k] < i,
                forall|v: u64| v < i ==> (bit(self.part1, v) <==> #[trigger] set@.contains(v as i64)),
            decreases 64 - i,
        {
            proof {
                lemma_test_bit(self.part1, i);
            }
            if (1u64 << i) & self.part1 != 0 {
                let ghost before = set@;
                set.push(i as i64);
                proof {
                    assert forall|v: u64| v < i + 1 implies (bit(self.part1, v) <==> set@.contains(v as i64)) by {
                        lemma_push_contains(before, i as i64, v as i64);
                    }
                }
            } else {
                proof {
                    assert(!set@.contains(i as i64)) by {
                        if set@.contains(i as i64) {
                            let j = choose|j: int| 0 <= j < set@.len() && set@[j] == i as i64;
                            assert(set@[j] < i);
                        }
                    }
                }
            }
            i = i + 1;
        }
        let ghost low = set@;
        let mut i: u64 = 0;
        while i < 64
            invariant
                i <= 64,
                strictly_increasing(set@),
                set@.len() >= low.len(),
                set@.take(low.len() as int) == low,
                forall|k: int| 0 <= k < low.len() ==> 0 <= #[trigger] low[k] < 64,
                forall|k: int| low.len() <= k < set@.len() ==> 64 <= #[trigger] set@[k] < 64 + i,
                forall|v: u64| v < 64 ==> (bit(self.part1, v) <==> #[trigger] low.contains(v as i64)),
                forall|v: u64| v < i ==> (bit(self.part2, v) <==> #[trigger] set@.contains((v + 64) as i64)),
            decreases 64 - i,
        {
            proof {
                lemma_test_bit(self.part2, i);
            }
            if (1u64 << i) & self.part2 != 0 {
                let ghost before = set@;
                set.push((i + 64) as i64);
                proof {
                    assert(set@.take(low.len() as int) =~= before.take(low.len() as int));
                    assert forall|a: int, b: int| 0 <= a < b < set@.len() implies set@[a] < set@[b] by {
                        if b == set@.len() - 1 && a < low.len() {
                            assert(set@[a] == low[a]);
                        }
                    }
                    assert forall|v: u64| v < i + 1 implies (bit(self.part2, v) <==> set@.contains((v + 64) as i64)) by {
                        if v < i {
                            if before.contains((v + 64) as i64) {
                                let j = choose|j: int| 0 <= j < before.len() && before[j] == (v + 64) as i64;
                                assert(set@[j] == (v + 64) as i64);
                            }
                            if set@.contains((v + 64) as i64) {
                                let j = choose|j: int| 0 <= j < set@.len() && set@[j] == (v + 64) as i64;
                                assert(j != set@.len() - 1);
                                assert(before[j] == (v + 64) as i64);
                            }
                        } else {
                            assert(set@[set@.len() - 1] == (v + 64) as i64);
                        }
                    }
                }
            } else {
                proof {
                    assert(!set@.contains((i + 64) as i64)) by {
                        if set@.contains((i + 64) as i64) {
                            let j = choose|j: int| 0 <= j < set@.len() && set@[j] == (i + 64) as i64;
                            if j < low.len() {
                                assert(set@[j] == low[j]);
                            }
                        }
                    }
                }
            }
            i = i + 1;
        }
        proof {
            assert forall|k: int| 0 <= k < set@.len() implies 0 <= #[trigger] set@[k] < 128 by {
                if k < low.len() {
                    assert(set@[k] == low[k]);
                }
            }
            assert forall|v: int| mask_has(*self, v) <==> 0 <= v < 128 && set@.contains(v as i64) by {
                if 0 <= v < 64 {
                    assert(bit(self.part1, v as u64) <==> low.contains((v as u64) as i64));
                    if low.contains(v as i64) {
                        let j = choose|j: int| 0 <= j < low.len() && low[j] == v as i64;
                        assert(set@[j] == low[j]);
                    }
                    if set@.contains(v as i64) {
                        let j = choose|j: int| 0 <= j < set@.len() && set@[j] == v as i64;
                        if j >= low.len() {
                            assert(set@[j] >= 64);
                        } else {
                            assert(set@[j] == low[j]);
                        }
                    }
                } else if 64 <= v < 128 {
                    assert(bit(self.part2, (v - 64) as u64) <==> set@.contains((((v - 64) as u64) + 64) as i64));
                } else if set@.contains(v as i64) {
                    let j = choose|j: int| 0 <= j < set@.len() && set@[j] == v as i64;
                    assert(0 <= set@[j] < 128);
                }
            }
        }
        set
    }
}

} // verus!
