//! Colors, monitor ordering and rectangle shifting.

use vstd::prelude::*;
use crate::fancyzones::rect::Rect;
use crate::text::{chars_of, trim_str, trimmed};

verus! {

pub const VK_UP: u32 = 0x26;

pub const VK_DOWN: u32 = 0x28;

pub const VK_LEFT: u32 = 0x25;

pub const VK_RIGHT: u32 = 0x27;


/// The string without its leading `#` characters.
pub open spec fn drop_hashes(s: Seq<char>) -> Seq<char>
    decreases s.len(),
{
    if s.len() > 0 && s[0] == '#' {
        drop_hashes(s.drop_first())
    } else {
        s
    }
}

/// The value of a hex digit.
pub open spec fn hex_value(c: char) -> Option<int> {
    if '0' <= c <= '9' {
        Some(c as int - '0' as int)
    } else if 'a' <= c <= 'f' {
        Some(c as int - 'a' as int + 10)
    } else if 'A' <= c <= 'F' {
        Some(c as int - 'A' as int + 10)
    } else {
        None
    }
}

pub open spec fn all_hex(s: Seq<char>) -> bool {
    forall|i: int| 0 <= i < s.len() ==> (#[trigger] hex_value(s[i])) is Some
}

/// The value of a string of hex digits.
pub open spec fn hex_digits_value(s: Seq<char>) -> int
    decreases s.len(),
{
    if s.len() == 0 {
        0
    } else {
        hex_digits_value(s.drop_last()) * 16 + hex_value(s.last()).unwrap()
    }
}

/// What `u64::from_str_radix(s, 16)` accepts: an optional `+`, then one or
/// more hex digits, with the value below 2^64.
pub open spec fn parse_hex_u64(s: Seq<char>) -> Option<u64> {
    let body = if s.len() > 0 && s[0] == '+' {
        s.drop_first()
    } else {
        s
    };
    if body.len() == 0 || !all_hex(body) {
        None
    } else if hex_digits_value(body) <= u64::MAX {
        Some(hex_digits_value(body) as u64)
    } else {
        None
    }
}

/// The red, green and blue bytes of a color text: after the leading `#`s,
/// exactly 6 (`RRGGBB`) or 8 (`AARRGGBB`) hex digits, read as one number
/// whose bits 16..24, 8..16 and 0..8 are red, green and blue; white for any
/// other text.
pub open spec fn rgb_of_hex_text(s: Seq<char>) -> (u8, u8, u8) {
    let body = drop_hashes(s);
    if (body.len() == 6 || body.len() == 8) && all_hex(body) {
        let v = hex_digits_value(body);
        (((v / 0x10000) % 0x100) as u8, ((v / 0x100) % 0x100) as u8, (v % 0x100) as u8)
    } else {
        (255u8, 255u8, 255u8)
    }
}

/// `16` to the power `n`.
pub open spec fn pow16(n: nat) -> int
    decreases n,
{
    if n == 0 {
        1
    } else {
        16 * pow16((n - 1) as nat)
    }
}

/// A string of hex digits is worth less than 16 to the power of its length.
proof fn lemma_hex_bound(s: Seq<char>)
    requires
        all_hex(s),
    ensures
        0 <= hex_digits_value(s) < pow16(s.len()),
    decreases s.len(),
{
    if s.len() > 0 {
        assert(all_hex(s.drop_last()));
        lemma_hex_bound(s.drop_last());
        assert(hex_value(s[s.len() - 1]) is Some);
    }
}

proof fn lemma_hex_prefix(s: Seq<char>, k: int)
    requires
        0 <= k <= s.len(),
        all_hex(s),
    ensures
        0 <= hex_digits_value(s.take(k)) <= hex_digits_value(s),
    decreases s.len() - k,
{
    if k < s.len() {
        lemma_hex_prefix(s, k + 1);
        assert(s.take(k + 1).drop_last() =~= s.take(k));
        assert(hex_value(s[k]) is Some);
    } else {
        assert(s.take(k) =~= s);
        lemma_hex_nonneg(s);
    }
}

proof fn lemma_hex_nonneg(s: Seq<char>)
    requires
        all_hex(s),
    ensures
        hex_digits_value(s) >= 0,
    decreases s.len(),
{
    if s.len() > 0 {
        assert(all_hex(s.drop_last()));
        lemma_hex_nonneg(s.drop_last());
        assert(hex_value(s[s.len() - 1]) is Some);
    }
}

fn hex_digit_of(c: char) -> (r: Option<u64>)
    ensures
        match r {
            Some(d) => hex_value(c) == Some(d as int),
            None => hex_value(c) is None,
        },
{
    if '0' <= c && c <= '9' {
        Some((c as u32 - '0' as u32) as u64)
    } else if 'a' <= c && c <= 'f' {
        Some((c as u32 - 'a' as u32 + 10) as u64)
    } else if 'A' <= c && c <= 'F' {
        Some((c as u32 - 'A' as u32 + 10) as u64)
    } else {
        None
    }
}

/// Parses hex digits as `u64::from_str_radix(s, 16)` does.
fn parse_hex(s: &Vec<char>, start: usize) -> (r: Option<u64>)
    requires
        start <= s@.len(),
    ensures
        r == parse_hex_u64(s@.skip(start as int)),
{
    let n = s.len();
    let ghost t = s@.skip(start as int);
    let mut from = start;
    if from < n && s[from] == '+' {
        from = from + 1;
    }
    let ghost body = if t.len() > 0 && t[0] == '+' { t.drop_first() } else { t };
    proof {
        assert(body =~= s@.skip(from as int));
    }
    if from == n {
        return None;
    }
    let mut acc: u64 = 0;
    let mut i: usize = from;
    while i < n
        invariant
            from <= i <= n == s@.len(),
            body == s@.skip(from as int),
            t == s@.skip(start as int),
            body == (if t.len() > 0 && t[0] == '+' { t.drop_first() } else { t }),
            forall|j: int| 0 <= j < i - from ==> (#[trigger] hex_value(body[j])) is Some,
            acc == hex_digits_value(body.take(i - from)),
        decreases n - i,
    {
        let c = s[i];
        let d = match hex_digit_of(c) {
            Some(d) => d,
            None => {
                proof {
                    assert(body[i - from] == c);
                    assert(hex_value(body[i - from]) is None);
                }
                return None;
            },
        };
        proof {
            assert(body.take(i - from + 1).drop_last() =~= body.take(i - from));
            assert(body.take(i - from + 1).last() == c);
        }
        if acc > (u64::MAX - d) / 16 {
            proof {
                assert(hex_digits_value(body.take(i - from + 1)) == acc * 16 + d);
                assert(acc * 16 + d > u64::MAX) by (nonlinear_arith)
                    requires
                        acc > (u64::MAX - d) / 16,
                        0 <= d < 16,
                ;
                if all_hex(body) {
                    lemma_hex_prefix(body, i - from + 1);
                }
            }
            return None;
        }
        proof {
            assert(acc * 16 + d <= u64::MAX) by (nonlinear_arith)
                requires
                    acc <= (u64::MAX - d) / 16,
                    0 <= d < 16,
            ;
        }
        acc = acc * 16 + d;
        i = i + 1;
    }
    proof {
        assert(body.take(n - from) =~= body);
    }
    Some(acc)
}

/// The color of a hex string that has been trimmed: leading `#`s are
/// dropped and the rest must be 6 or 8 hex digits.
pub fn rgb_from_trimmed(t: &str) -> (rgb: (u8, u8, u8))
    ensures
        rgb == rgb_of_hex_text(t@),
{
    let v = chars_of(t);
    let mut start: usize = 0;
    proof {
        assert(v@.skip(0) =~= v@);
    }
    while start < v.len() && v[start] == '#'
        invariant
            start <= v@.len(),
            drop_hashes(v@) == drop_hashes(v@.skip(start as int)),
        decreases v@.len() - start,
    {
        proof {
            assert(v@.skip(start as int).drop_first() =~= v@.skip(start + 1));
        }
        start = start + 1;
    }
    proof {
        let rest = v@.skip(start as int);
        assert(!(rest.len() > 0 && rest[0] == '#'));
    }
    let len = v.len() - start;
    if !(len == 6 || len == 8) || v[start] == '+' {
        proof {
            let body = v@.skip(start as int);
            if body.len() == 6 || body.len() == 8 {
                assert(body[0] == '+');
                assert(hex_value(body[0]) is None);
            }
        }
        return (255, 255, 255);
    }
    proof {
        let body = v@.skip(start as int);
        assert(body[0] != '+');
        if all_hex(body) {
            lemma_hex_bound(body);
            reveal_with_fuel(pow16, 9);
            assert(pow16(8) == 0x1_0000_0000);
        }
    }
    match parse_hex(&v, start) {
        Some(val) => {
            let r = ((val & 0xFF0000) >> 16) as u8;
            let g = ((val & 0xFF00) >> 8) as u8;
            let b = (val & 0xFF) as u8;
            proof {
                assert((val & 0xFF0000) >> 16 == (val / 0x10000) % 0x100) by (bit_vector);
                assert((val & 0xFF00) >> 8 == (val / 0x100) % 0x100) by (bit_vector);
                assert(val & 0xFF == val % 0x100) by (bit_vector);
            }
            (r, g, b)
        },
        None => (255, 255, 255),
    }
}

/// Reads a color string `#RRGGBB` or `#AARRGGBB` (surrounding whitespace
/// ignored) into red, green and blue; white for any other text.
pub fn hex_to_rgb(hex: &str) -> (rgb: (u8, u8, u8))
    ensures
        rgb == rgb_of_hex_text(trimmed(hex@)),
{
    let t = trim_str(hex);
    rgb_from_trimmed(t)
}

/// A rectangle moved to the far side of the work area, so that searching in
/// the arrow's direction can wrap around.
pub open spec fn shifted_for_cycling(w: Rect, area: Rect, vk: u32) -> Rect {
    let (dx, dy) = if vk == VK_UP {
        (0, area.bottom - area.top)
    } else if vk == VK_DOWN {
        (0, area.top - area.bottom)
    } else if vk == VK_LEFT {
        (area.right - area.left, 0)
    } else if vk == VK_RIGHT {
        (area.left - area.right, 0)
    } else {
        (0, 0)
    };
    Rect {
        left: (w.left + dx) as i32,
        top: (w.top + dy) as i32,
        right: (w.right + dx) as i32,
        bottom: (w.bottom + dy) as i32,
    }
}

/// Whether every value that `shifted_for_cycling` computes fits in an `i32`.
pub open spec fn cycling_fits(w: Rect, area: Rect, vk: u32) -> bool {
    let (dx, dy) = if vk == VK_UP {
        (0, area.bottom - area.top)
    } else if vk == VK_DOWN {
        (0, area.top - area.bottom)
    } else if vk == VK_LEFT {
        (area.right - area.left, 0)
    } else if vk == VK_RIGHT {
        (area.left - area.right, 0)
    } else {
        (0, 0)
    };
    &&& i32::MIN <= dx <= i32::MAX
    &&& i32::MIN <= dy <= i32::MAX
    &&& i32::MIN <= w.left + dx <= i32::MAX
    &&& i32::MIN <= w.right + dx <= i32::MAX
    &&& i32::MIN <= w.top + dy <= i32::MAX
    &&& i32::MIN <= w.bottom + dy <= i32::MAX
}

/// Moves the window rectangle by the work area's size against the arrow's
/// direction.
pub fn prepare_rect_for_cycling(window_rect: Rect, work_area: Rect, vk_code: u32) -> (r: Rect)
    requires
        cycling_fits(window_rect, work_area, vk_code),
    ensures
        r == shifted_for_cycling(window_rect, work_area, vk_code),
{
    let (dx, dy): (i32, i32) = if vk_code == VK_UP {
        (0, work_area.bottom - work_area.top)
    } else if vk_code == VK_DOWN {
        (0, work_area.top - work_area.bottom)
    } else if vk_code == VK_LEFT {
        (work_area.right - work_area.left, 0)
    } else if vk_code == VK_RIGHT {
        (work_area.left - work_area.right, 0)
    } else {
        (0, 0)
    };
    let mut w = window_rect;
    w.left = w.left + dx;
    w.right = w.right + dx;
    w.top = w.top + dy;
    w.bottom = w.bottom + dy;
    w
}

} // verus!

verus! {

/// Monitor `a` goes before monitor `b` when it starts above `b`'s bottom and
/// left of `b`'s right edge.
pub open spec fn blocks(a: Rect, b: Rect) -> bool {
    a.top < b.bottom && a.left < b.right
}

/// Monitor `a` comes first by (top, left), ties going to the lower index.
pub open spec fn precedes(rs: Seq<Rect>, a: int, b: int) -> bool {
    rs[a].top < rs[b].top || (rs[a].top == rs[b].top && (rs[a].left < rs[b].left || (rs[a].left
        == rs[b].left && a < b)))
}

/// An unplaced monitor that no other unplaced monitor blocks.
pub open spec fn unblocked(rs: Seq<Rect>, used: Set<int>, j: int) -> bool {
    &&& 0 <= j < rs.len()
    &&& !used.contains(j)
    &&& forall|i: int| 0 <= i < rs.len() && i != j && !used.contains(i) ==> !blocks(rs[i], rs[j])
}

/// The monitors that may be placed next: the unblocked ones, or every
/// unplaced one when none is unblocked.
pub open spec fn candidate(rs: Seq<Rect>, used: Set<int>, j: int) -> bool {
    &&& 0 <= j < rs.len()
    &&& !used.contains(j)
    &&& (unblocked(rs, used, j) || !exists|k: int| unblocked(rs, used, k))
}

/// The first candidate by (top, left, index).
pub open spec fn pick_next(rs: Seq<Rect>, used: Set<int>) -> int {
    choose|j: int| candidate(rs, used, j) && forall|k: int| candidate(rs, used, k) && k != j ==> precedes(rs, j, k)
}

/// The order in which the first `k` monitors are placed.
pub open spec fn monitor_order(rs: Seq<Rect>, k: nat) -> Seq<int>
    decreases k,
{
    if k == 0 {
        Seq::empty()
    } else {
        let prev = monitor_order(rs, (k - 1) as nat);
        prev.push(pick_next(rs, prev.to_set()))
    }
}

proof fn lemma_pick_unique(rs: Seq<Rect>, used: Set<int>, j: int)
    requires
        candidate(rs, used, j),
        forall|k: int| candidate(rs, used, k) && k != j ==> precedes(rs, j, k),
    ensures
        pick_next(rs, used) == j,
{
    let p = pick_next(rs, used);
    if p != j {
        assert(precedes(rs, j, p));
        assert(precedes(rs, p, j));
    }
}

fn is_unblocked(rects: &Vec<Rect>, used: &Vec<bool>, j: usize, ghost_used: Ghost<Set<int>>) -> (b: bool)
    requires
        rects@.len() == used@.len(),
        j < rects@.len(),
        !used@[j as int],
        forall|i: int| 0 <= i < used@.len() ==> (used@[i] <==> ghost_used@.contains(i)),
    ensures
        b == unblocked(rects@, ghost_used@, j as int),
{
    let mut i: usize = 0;
    while i < rects.len()
        invariant
            rects@.len() == used@.len(),
            j < rects@.len(),
            i <= rects@.len(),
            forall|a: int| 0 <= a < used@.len() ==> (used@[a] <==> ghost_used@.contains(a)),
            forall|a: int| 0 <= a < i && a != j && !ghost_used@.contains(a) ==> !blocks(rects@[a], rects@[j as int]),
        decreases rects@.len() - i,
    {
        if i != j && !used[i] && rects[i].top < rects[j].bottom && rects[i].left < rects[j].right {
            proof {
                assert(!ghost_used@.contains(i as int));
                assert(blocks(rects@[i as int], rects@[j as int]));
            }
            return false;
        }
        i = i + 1;
    }
    true
}

fn precedes_exec(rects: &Vec<Rect>, a: usize, b: usize) -> (r: bool)
    requires
        a < rects@.len(),
        b < rects@.len(),
    ensures
        r == precedes(rects@, a as int, b as int),
{
    rects[a].top < rects[b].top || (rects[a].top == rects[b].top && (rects[a].left < rects[b].left
        || (rects[a].left == rects[b].left && a < b)))
}

/// The placing order of the monitors: repeatedly the first unblocked monitor
/// by (top, left), or the first unplaced one when every one is blocked.
pub fn monitor_placing_order(rects: &Vec<Rect>) -> (order: Vec<usize>)
    ensures
        order@.len() == rects@.len(),
        forall|k: int| 0 <= k < order@.len() ==> order@[k] as int == #[trigger] monitor_order(rects@, rects@.len() as nat)[k],
        forall|k: int| 0 <= k < order@.len() ==> order@[k] < rects@.len(),
        forall|a: int, b: int| 0 <= a < b < order@.len() ==> order@[a] != order@[b],
{
    let n = rects.len();
    let mut used: Vec<bool> = Vec::new();
    let mut z: usize = 0;
    while z < n
        invariant
            z <= n == rects@.len(),
            used@.len() == z,
            forall|a: int| 0 <= a < z ==> !used@[a],
        decreases n - z,
    {
        used.push(false);
        z = z + 1;
    }
    let mut order: Vec<usize> = Vec::new();
    let ghost mut placed: Seq<int> = Seq::empty();
    while order.len() < n
        invariant
            n == rects@.len() == used@.len(),
            order@.len() <= n,
            placed == monitor_order(rects@, order@.len() as nat),
            placed.len() == order@.len(),
            forall|k: int| 0 <= k < order@.len() ==> order@[k] as int == placed[k],
            forall|k: int| 0 <= k < order@.len() ==> order@[k] < n,
            forall|a: int, b: int| 0 <= a < b < order@.len() ==> order@[a] != order@[b],
            forall|a: int| 0 <= a < n ==> (used@[a] <==> placed.to_set().contains(a)),
        decreases n - order@.len(),
    {
        let ghost uset = placed.to_set();
        let mut best_any: usize = n;
        let mut best_free: usize = n;
        let mut j: usize = 0;
        while j < n
            invariant
                n == rects@.len() == used@.len(),
                j <= n,
                forall|a: int| 0 <= a < n ==> (used@[a] <==> uset.contains(a)),
                best_any == n || (best_any < j && !uset.contains(best_any as int)),
                best_any == n ==> forall|k: int| 0 <= k < j ==> uset.contains(k),
                best_any < n ==> forall|k: int| 0 <= k < j && !uset.contains(k) && k != best_any
                    ==> precedes(rects@, best_any as int, k),
                best_free == n || (best_free < j && unblocked(rects@, uset, best_free as int)),
                best_free == n ==> forall|k: int| 0 <= k < j ==> !unblocked(rects@, uset, k),
                best_free < n ==> forall|k: int| 0 <= k < j && unblocked(rects@, uset, k) && k != best_free
                    ==> precedes(rects@, best_free as int, k),
            decreases n - j,
        {
            if !used[j] {
                if best_any == n || precedes_exec(rects, j, best_any) {
                    best_any = j;
                }
                if is_unblocked(rects, &used, j, Ghost(uset)) {
                    if best_free == n || precedes_exec(rects, j, best_free) {
                        best_free = j;
                    }
                }
            } else {
                proof {
                    assert(uset.contains(j as int));
                }
            }
            j = j + 1;
        }
        proof {
            // some monitor is unplaced: the placed ones are distinct and fewer than n
            if best_any == n {
                assert forall|k: int| 0 <= k < n implies placed.contains(k) by {
                    assert(uset.contains(k));
                }
                lemma_distinct_below(placed, n as int);
            }
        }
        let pick = if best_free < n { best_free } else { best_any };
        proof {
            assert(candidate(rects@, uset, pick as int));
            assert forall|k: int| candidate(rects@, uset, k) && k != pick implies precedes(rects@, pick as int, k) by {
                if best_free < n {
                    assert(unblocked(rects@, uset, k));
                } else {
                    assert(!unblocked(rects@, uset, k));
                }
            }
            lemma_pick_unique(rects@, uset, pick as int);
        }
        used.set(pick, true);
        order.push(pick);
        proof {
            let prev = placed;
            placed = placed.push(pick as int);
            assert(placed.drop_last() =~= prev);
            assert forall|a: int| 0 <= a < n implies (used@[a] <==> placed.to_set().contains(a)) by {
                assert(placed.to_set().contains(a) <==> placed.contains(a));
                assert(uset.contains(a) <==> prev.contains(a));
                if placed.contains(a) && a != pick {
                    let i = choose|i: int| 0 <= i < placed.len() && placed[i] == a;
                    assert(placed.drop_last()[i] == a);
                }
                if placed.drop_last().contains(a) {
                    let i = choose|i: int| 0 <= i < placed.len() - 1 && placed.drop_last()[i] == a;
                    assert(placed[i] == a);
                }
                assert(placed[placed.len() - 1] == pick);
            }
            assert forall|a: int, b: int| 0 <= a < b < order@.len() implies order@[a] != order@[b] by {
                if b == order@.len() - 1 {
                    assert(placed.drop_last().contains(order@[a] as int)) by {
                        assert(placed.drop_last()[a] == order@[a] as int);
                    }
                }
            }
        }
    }
    order
}

/// Distinct values all below `n` number at most `n`.
proof fn lemma_distinct_below(s: Seq<int>, n: int)
    requires
        forall|a: int, b: int| 0 <= a < b < s.len() ==> s[a] != s[b],
        forall|k: int| 0 <= k < s.len() ==> 0 <= #[trigger] s[k] < n,
        s.len() < n,
    ensures
        exists|k: int| 0 <= k < n && !s.contains(k),
{
    let set = s.to_set();
    s.unique_seq_to_set();
    assert(set.subset_of(Set::new(|k: int| 0 <= k < n)));
    let full = Set::new(|k: int| 0 <= k < n);
    assert(full =~= vstd::set_lib::set_int_range(0, n));
    vstd::set_lib::lemma_int_range(0, n);
    if forall|k: int| 0 <= k < n ==> s.contains(k) {
        assert(full.subset_of(set));
        vstd::set_lib::lemma_len_subset(full, set);
    }
}

/// The placing order of a list of monitors.
pub open spec fn monitors_order<T>(m: Seq<(T, Rect)>) -> Seq<int> {
    monitor_order(m.map_values(|p: (T, Rect)| p.1), m.len() as nat)
}

/// Orders monitors top to bottom and left to right, so that a monitor comes
/// before every monitor that starts below its top and right of its left edge
/// (where these relations allow it).
pub fn order_monitors<T: Clone>(monitors: &mut Vec<(T, Rect)>)
    ensures
        final(monitors)@.len() == old(monitors)@.len(),
        old(monitors)@.len() <= 1 ==> final(monitors)@ == old(monitors)@,
        old(monitors)@.len() > 1 ==> forall|k: int| 0 <= k < old(monitors)@.len() ==> {
            let o = #[trigger] monitors_order(old(monitors)@)[k];
            &&& 0 <= o < old(monitors)@.len()
            &&& final(monitors)@[k].1 == old(monitors)@[o].1
            &&& cloned::<T>(old(monitors)@[o].0, final(monitors)@[k].0)
        },
        old(monitors)@.len() > 1 ==> forall|a: int, b: int| 0 <= a < b < old(monitors)@.len() ==>
            #[trigger] monitors_order(old(monitors)@)[a] != #[trigger] monitors_order(old(monitors)@)[b],
        forall|k: int|
            0 <= k < old(monitors)@.len() ==> final(monitors)@[k].1 == (#[trigger] ordered_monitors(
                old(monitors)@,
            )[k]).1 && cloned::<T>(ordered_monitors(old(monitors)@)[k].0, final(monitors)@[k].0),
{
    let n = monitors.len();
    if n <= 1 {
        return;
    }
    let mut rects: Vec<Rect> = Vec::new();
    let mut i: usize = 0;
    while i < n
        invariant
            i <= n == monitors@.len(),
            rects@ == monitors@.map_values(|m: (T, Rect)| m.1).take(i as int),
        decreases n - i,
    {
        rects.push(monitors[i].1);
        i = i + 1;
        proof {
            assert(rects@ =~= monitors@.map_values(|m: (T, Rect)| m.1).take(i as int));
        }
    }
    proof {
        assert(rects@ =~= monitors@.map_values(|m: (T, Rect)| m.1));
    }
    let order = monitor_placing_order(&rects);
    let mut sorted: Vec<(T, Rect)> = Vec::new();
    let mut k: usize = 0;
    while k < n
        invariant
            k <= n == monitors@.len() == order@.len() == rects@.len(),
            rects@ == monitors@.map_values(|m: (T, Rect)| m.1),
            forall|j: int| 0 <= j < order@.len() ==> order@[j] < n,
            sorted@.len() == k,
            forall|j: int| 0 <= j < k ==> (#[trigger] sorted@[j]).1 == monitors@[order@[j] as int].1
                && cloned::<T>(monitors@[order@[j] as int].0, sorted@[j].0),
        decreases n - k,
    {
        let o = order[k];
        let t = monitors[o].0.clone();
        sorted.push((t, monitors[o].1));
        k = k + 1;
    }
    proof {
        assert forall|j: int| 0 <= j < n implies #[trigger] order@[j] as int == monitor_order(rects@, n as nat)[j] by {}
    }
    *monitors = sorted;
}

} // verus!

verus! {

/// No two monitors share a top-left corner.
pub open spec fn distinct_corners(rs: Seq<Rect>) -> bool {
    forall|a: int, b: int|
        0 <= a < rs.len() && 0 <= b < rs.len() && a != b ==> (#[trigger] rs[a].top != #[trigger] rs[b].top
            || rs[a].left != rs[b].left)
}

/// `p` and `q` are mutually inverse permutations of `0..n`.
pub open spec fn inverse_permutations(p: Seq<int>, q: Seq<int>, n: int) -> bool {
    &&& p.len() == n
    &&& q.len() == n
    &&& forall|i: int| 0 <= i < n ==> 0 <= #[trigger] p[i] < n && q[p[i]] == i
    &&& forall|i: int| 0 <= i < n ==> 0 <= #[trigger] q[i] < n && p[q[i]] == i
}

/// The monitors listed in another order: position `i` holds monitor `p[i]`.
pub open spec fn permuted(rs: Seq<Rect>, p: Seq<int>) -> Seq<Rect> {
    Seq::new(rs.len(), |i: int| rs[p[i]])
}

/// `precedes` orders distinct monitors strictly and totally.
proof fn lemma_precedes_order(rs: Seq<Rect>)
    ensures
        forall|a: int, b: int| a != b ==> (precedes(rs, a, b) || precedes(rs, b, a)),
        forall|a: int, b: int| #[trigger] precedes(rs, a, b) ==> !precedes(rs, b, a),
        forall|a: int, b: int, c: int|
            #[trigger] precedes(rs, a, b) && #[trigger] precedes(rs, b, c) ==> precedes(rs, a, c),
{
}

/// Among the candidates at positions below `j`, the one that precedes the
/// others, or -1 when there is none.
proof fn lemma_first_candidate_below(rs: Seq<Rect>, used: Set<int>, j: int) -> (best: int)
    requires
        0 <= j <= rs.len(),
    ensures
        best == -1 ==> forall|k: int| 0 <= k < j ==> !candidate(rs, used, k),
        best != -1 ==> 0 <= best < j && candidate(rs, used, best),
        best != -1 ==> forall|k: int| 0 <= k < j && candidate(rs, used, k) && k != best ==> precedes(rs, best, k),
    decreases j,
{
    lemma_precedes_order(rs);
    if j == 0 {
        -1
    } else {
        let b = lemma_first_candidate_below(rs, used, j - 1);
        let c = j - 1;
        if candidate(rs, used, c) && (b == -1 || precedes(rs, c, b)) {
            c
        } else {
            b
        }
    }
}

/// When a monitor is unplaced, the next pick is a candidate that precedes
/// every other candidate.
proof fn lemma_pick_exists(rs: Seq<Rect>, used: Set<int>)
    requires
        exists|j: int| 0 <= j < rs.len() && !used.contains(j),
    ensures
        candidate(rs, used, pick_next(rs, used)),
        forall|k: int| candidate(rs, used, k) && k != pick_next(rs, used) ==> precedes(rs, pick_next(rs, used), k),
{
    let w = choose|j: int| 0 <= j < rs.len() && !used.contains(j);
    if !candidate(rs, used, w) {
        let u = choose|k: int| unblocked(rs, used, k);
        assert(candidate(rs, used, u));
    }
    let best = lemma_first_candidate_below(rs, used, rs.len() as int);
    assert(best != -1);
    lemma_pick_unique(rs, used, best);
}

/// The first `k` monitors placed are distinct and within range.
proof fn lemma_order_distinct(rs: Seq<Rect>, k: nat)
    requires
        k <= rs.len(),
    ensures
        monitor_order(rs, k).len() == k,
        forall|i: int| 0 <= i < k ==> 0 <= #[trigger] monitor_order(rs, k)[i] < rs.len(),
        forall|a: int, b: int| 0 <= a < b < k ==> monitor_order(rs, k)[a] != monitor_order(rs, k)[b],
    decreases k,
{
    if k > 0 {
        let prev = monitor_order(rs, (k - 1) as nat);
        lemma_order_distinct(rs, (k - 1) as nat);
        assert forall|i: int| 0 <= i < prev.len() implies 0 <= #[trigger] prev[i] < rs.len() by {}
        lemma_distinct_below(prev, rs.len() as int);
        let w = choose|j: int| 0 <= j < rs.len() && !prev.contains(j);
        assert(!prev.to_set().contains(w));
        lemma_pick_exists(rs, prev.to_set());
        let cur = monitor_order(rs, k);
        assert(cur == prev.push(pick_next(rs, prev.to_set())));
        assert forall|a: int, b: int| 0 <= a < b < k implies cur[a] != cur[b] by {
            if b == k - 1 {
                assert(prev.to_set().contains(prev[a]));
            } else {
                assert(cur[a] == prev[a] && cur[b] == prev[b]);
            }
        }
    }
}

/// In the permuted list, position `j` is placed exactly when monitor `p[j]`
/// is placed in the unpermuted list.
proof fn lemma_used_mapped(rs: Seq<Rect>, p: Seq<int>, q: Seq<int>, o1: Seq<int>, o2: Seq<int>)
    requires
        inverse_permutations(p, q, rs.len() as int),
        o1.len() == o2.len(),
        forall|i: int| 0 <= i < o1.len() ==> 0 <= #[trigger] o1[i] < rs.len(),
        forall|i: int| 0 <= i < o1.len() ==> #[trigger] o2[i] == q[o1[i]],
    ensures
        forall|j: int| 0 <= j < rs.len() ==> (o2.to_set().contains(j) <==> o1.to_set().contains(#[trigger] p[j])),
{
    assert forall|j: int| 0 <= j < rs.len() implies (o2.to_set().contains(j) <==> o1.to_set().contains(
        #[trigger] p[j],
    )) by {
        if o2.to_set().contains(j) {
            assert(o2.contains(j));
            let i = choose|i: int| 0 <= i < o2.len() && o2[i] == j;
            assert(q[o1[i]] == j);
            assert(p[q[o1[i]]] == o1[i]);
            assert(o1.contains(p[j]));
        }
        if o1.to_set().contains(p[j]) {
            assert(o1.contains(p[j]));
            let i = choose|i: int| 0 <= i < o1.len() && o1[i] == p[j];
            assert(o2[i] == q[p[j]]);
            assert(o2.contains(j));
        }
    }
}

/// Candidates correspond under the permutation.
proof fn lemma_candidate_mapped(rs: Seq<Rect>, p: Seq<int>, q: Seq<int>, used1: Set<int>, used2: Set<int>)
    requires
        inverse_permutations(p, q, rs.len() as int),
        forall|j: int| 0 <= j < rs.len() ==> (used2.contains(j) <==> used1.contains(#[trigger] p[j])),
    ensures
        forall|j: int| 0 <= j < rs.len() ==> (unblocked(permuted(rs, p), used2, j) <==> unblocked(rs, used1, #[trigger] p[j])),
        forall|j: int| 0 <= j < rs.len() ==> (candidate(permuted(rs, p), used2, j) <==> candidate(rs, used1, #[trigger] p[j])),
{
    let rs2 = permuted(rs, p);
    let n = rs.len() as int;
    assert forall|j: int| 0 <= j < n implies (unblocked(rs2, used2, j) <==> unblocked(rs, used1, #[trigger] p[j])) by {
        if unblocked(rs2, used2, j) {
            assert forall|i: int| 0 <= i < n && i != p[j] && !used1.contains(i) implies !blocks(rs[i], rs[p[j]]) by {
                let i2 = q[i];
                assert(p[i2] == i);
                assert(rs2[i2] == rs[i]);
                assert(rs2[j] == rs[p[j]]);
                assert(i2 != j);
                assert(!used2.contains(i2));
            }
        }
        if unblocked(rs, used1, p[j]) {
            assert forall|i: int| 0 <= i < n && i != j && !used2.contains(i) implies !blocks(rs2[i], rs2[j]) by {
                assert(rs2[i] == rs[p[i]]);
                assert(rs2[j] == rs[p[j]]);
                assert(p[i] != p[j]) by {
                    if p[i] == p[j] {
                        assert(q[p[i]] == i);
                    }
                }
                assert(!used1.contains(p[i]));
            }
        }
    }
    assert((exists|k: int| unblocked(rs2, used2, k)) <==> (exists|k: int| unblocked(rs, used1, k))) by {
        if exists|k: int| unblocked(rs2, used2, k) {
            let k = choose|k: int| unblocked(rs2, used2, k);
            assert(unblocked(rs, used1, p[k]));
        }
        if exists|k: int| unblocked(rs, used1, k) {
            let k = choose|k: int| unblocked(rs, used1, k);
            assert(p[q[k]] == k);
            assert(unblocked(rs2, used2, q[k]));
        }
    }
    assert forall|j: int| 0 <= j < n implies (candidate(rs2, used2, j) <==> candidate(rs, used1, #[trigger] p[j])) by {
        assert(unblocked(rs2, used2, j) <==> unblocked(rs, used1, p[j]));
    }
}

/// The monitors placed first in the permuted list are the permuted images
/// of those placed first in the unpermuted list.
proof fn lemma_order_mapped(rs: Seq<Rect>, p: Seq<int>, q: Seq<int>, k: nat)
    requires
        inverse_permutations(p, q, rs.len() as int),
        distinct_corners(rs),
        k <= rs.len(),
    ensures
        forall|i: int| 0 <= i < k ==> #[trigger] monitor_order(permuted(rs, p), k)[i] == q[monitor_order(rs, k)[i]],
    decreases k,
{
    let rs2 = permuted(rs, p);
    let n = rs.len() as int;
    if k > 0 {
        lemma_order_mapped(rs, p, q, (k - 1) as nat);
        lemma_order_distinct(rs, (k - 1) as nat);
        lemma_order_distinct(rs2, (k - 1) as nat);
        let o1 = monitor_order(rs, (k - 1) as nat);
        let o2 = monitor_order(rs2, (k - 1) as nat);
        assert forall|i: int| 0 <= i < o1.len() implies #[trigger] o2[i] == q[o1[i]] by {}
        assert forall|i: int| 0 <= i < o1.len() implies 0 <= #[trigger] o1[i] < rs.len() by {}
        lemma_used_mapped(rs, p, q, o1, o2);
        let used1 = o1.to_set();
        let used2 = o2.to_set();
        lemma_candidate_mapped(rs, p, q, used1, used2);
        lemma_distinct_below(o1, n);
        let w = choose|j: int| 0 <= j < n && !o1.contains(j);
        assert(!used1.contains(w));
        lemma_pick_exists(rs, used1);
        let j1 = pick_next(rs, used1);
        let j2 = q[j1];
        assert(p[j2] == j1);
        assert(candidate(rs2, used2, j2));
        assert forall|c: int| candidate(rs2, used2, c) && c != j2 implies precedes(rs2, j2, c) by {
            assert(candidate(rs, used1, p[c]));
            assert(p[c] != j1) by {
                if p[c] == j1 {
                    assert(q[p[c]] == c);
                }
            }
            assert(precedes(rs, j1, p[c]));
            assert(rs2[j2] == rs[j1]);
            assert(rs2[c] == rs[p[c]]);
            assert(rs[j1].top != rs[p[c]].top || rs[j1].left != rs[p[c]].left);
        }
        lemma_pick_unique(rs2, used2, j2);
        assert forall|i: int| 0 <= i < k implies #[trigger] monitor_order(rs2, k)[i] == q[monitor_order(rs, k)[i]] by {
            if i < k - 1 {
                assert(monitor_order(rs2, k)[i] == o2[i]);
                assert(monitor_order(rs, k)[i] == o1[i]);
            }
        }
    }
}

/// Listing the monitors in another order does not change the order in which
/// they come out, as long as no two share a top-left corner: the rectangle
/// at each position of the result is the same.
pub proof fn lemma_order_ignores_input_order(rs: Seq<Rect>, p: Seq<int>, q: Seq<int>)
    requires
        inverse_permutations(p, q, rs.len() as int),
        distinct_corners(rs),
    ensures
        forall|k: int|
            0 <= k < rs.len() ==> permuted(rs, p)[#[trigger] monitor_order(permuted(rs, p), rs.len())[k]]
                == rs[monitor_order(rs, rs.len())[k]],
{
    let n = rs.len();
    lemma_order_mapped(rs, p, q, n);
    lemma_order_distinct(rs, n);
    assert forall|k: int| 0 <= k < n implies permuted(rs, p)[#[trigger] monitor_order(permuted(rs, p), n)[k]]
        == rs[monitor_order(rs, n)[k]] by {
        let o = monitor_order(rs, n)[k];
        assert(0 <= o < n);
        assert(monitor_order(permuted(rs, p), n)[k] == q[o]);
        assert(p[q[o]] == o);
    }
}

/// The monitors listed in another order: position `i` holds monitor `p[i]`.
pub open spec fn permuted_monitors<T>(m: Seq<(T, Rect)>, p: Seq<int>) -> Seq<(T, Rect)> {
    Seq::new(m.len(), |i: int| m[p[i]])
}

/// The monitors (identifier and rectangle) in the order `order_monitors`
/// puts them: position `k` of its result holds this pair, the identifier
/// cloned.
pub open spec fn ordered_monitors<T>(m: Seq<(T, Rect)>) -> Seq<(T, Rect)> {
    if m.len() <= 1 {
        m
    } else {
        Seq::new(m.len(), |k: int| m[monitors_order(m)[k]])
    }
}

/// Listing the monitors (identifier and rectangle) in another order does not
/// change what `order_monitors` makes of them, as long as no two share a
/// top-left corner: the ordered sequence depends only on the set of
/// monitors.
pub proof fn lemma_monitors_order_ignores_input_order<T>(m: Seq<(T, Rect)>, p: Seq<int>, q: Seq<int>)
    requires
        inverse_permutations(p, q, m.len() as int),
        distinct_corners(m.map_values(|x: (T, Rect)| x.1)),
    ensures
        forall|k: int|
            0 <= k < m.len() ==> permuted_monitors(m, p)[#[trigger] monitors_order(permuted_monitors(m, p))[k]]
                == m[monitors_order(m)[k]],
        ordered_monitors(permuted_monitors(m, p)) == ordered_monitors(m),
{
    let n = m.len();
    let rs = m.map_values(|x: (T, Rect)| x.1);
    let pm = permuted_monitors(m, p);
    assert(pm.map_values(|x: (T, Rect)| x.1) =~= permuted(rs, p));
    lemma_order_mapped(rs, p, q, n);
    lemma_order_distinct(rs, n);
    assert forall|k: int| 0 <= k < n implies pm[#[trigger] monitors_order(pm)[k]] == m[monitors_order(m)[k]] by {
        let o = monitor_order(rs, n)[k];
        assert(0 <= o < n);
        assert(monitors_order(pm)[k] == q[o]);
        assert(p[q[o]] == o);
    }
    if n <= 1 {
        if n == 1 {
            assert(p[0] == 0);
            assert(pm =~= m);
        } else {
            assert(pm =~= m);
        }
    } else {
        assert(ordered_monitors(pm) =~= ordered_monitors(m));
    }
}

} // verus!
