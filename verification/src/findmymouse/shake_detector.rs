//! Mouse shake detection: the movement history. Movements in the same
//! direction are merged; on a change of direction the movements within the
//! shake interval are handed out, so that the caller can compare the
//! distance travelled with the size of the area it covers.

use vstd::prelude::*;

verus! {

/// One recorded movement: a displacement and the time it started.
#[derive(Debug, Clone, Copy, PartialEq, Eq, Structural)]
pub struct Movement {
    pub dx: i64,
    pub dy: i64,
    pub tick: u64,
}

pub open spec fn sign(n: i64) -> int {
    if n > 0 {
        1
    } else if n < 0 {
        -1
    } else {
        0
    }
}

fn sign_of(n: i64) -> (s: i8)
    ensures
        s == sign(n),
{
    if n > 0 {
        1
    } else if n < 0 {
        -1
    } else {
        0
    }
}

pub open spec fn sat_add(a: i64, b: i64) -> i64 {
    if a + b > i64::MAX {
        i64::MAX
    } else if a + b < i64::MIN {
        i64::MIN
    } else {
        (a + b) as i64
    }
}

fn saturating_add_i64(a: i64, b: i64) -> (r: i64)
    ensures
        r == sat_add(a, b),
{
    let s = a as i128 + b as i128;
    if s > i64::MAX as i128 {
        i64::MAX
    } else if s < i64::MIN as i128 {
        i64::MIN
    } else {
        s as i64
    }
}

/// The movements kept after pruning at time `now`: those that started no
/// earlier than `now - interval` (0 when that would be negative).
pub open spec fn pruned(h: Seq<Movement>, now: u64, interval: u64) -> Seq<Movement> {
    let start: u64 = if now >= interval {
        (now - interval) as u64
    } else {
        0
    };
    kept_since(h, start)
}

/// The movements of `h` that started at `start` or later, in order.
pub open spec fn kept_since(h: Seq<Movement>, start: u64) -> Seq<Movement>
    decreases h.len(),
{
    if h.len() == 0 {
        Seq::empty()
    } else if h.last().tick >= start {
        kept_since(h.drop_last(), start).push(h.last())
    } else {
        kept_since(h.drop_last(), start)
    }
}

/// The abstract state of a shake detector.
pub struct ShakeView {
    pub history: Seq<Movement>,
    pub shake_minimum_distance: i32,
    pub shake_interval_ms: u64,
    pub shake_factor: i32,
}

impl ShakeView {
    /// The history and the result after one movement: nothing for no
    /// movement; a merge into the last movement in the same direction;
    /// otherwise a new entry, and with two or more entries the pruned
    /// history is handed out.
    pub open spec fn record(self, dx: i64, dy: i64, tick: u64) -> (Seq<Movement>, Option<Seq<Movement>>) {
        if dx == 0 && dy == 0 {
            (self.history, None)
        } else if self.history.len() > 0 && sign(self.history.last().dx) == sign(dx) && sign(
            self.history.last().dy,
        ) == sign(dy) {
            let last = self.history.last();
            (
                self.history.update(
                    self.history.len() - 1,
                    Movement { dx: sat_add(last.dx, dx), dy: sat_add(last.dy, dy), tick: last.tick },
                ),
                None,
            )
        } else {
            let h = self.history.push(Movement { dx, dy, tick });
            if h.len() >= 2 {
                let p = pruned(h, tick, self.shake_interval_ms);
                (p, Some(p))
            } else {
                (h, None)
            }
        }
    }
}

/// Mouse shake detector.
pub struct ShakeDetector {
    history: Vec<Movement>,
    shake_minimum_distance: i32,
    shake_interval_ms: u64,
    shake_factor: i32,
}

impl View for ShakeDetector {
    type V = ShakeView;

    closed spec fn view(&self) -> ShakeView {
        ShakeView {
            history: self.history@,
            shake_minimum_distance: self.shake_minimum_distance,
            shake_interval_ms: self.shake_interval_ms,
            shake_factor: self.shake_factor,
        }
    }
}

impl ShakeDetector {
    pub fn new(shake_minimum_distance: i32, shake_interval_ms: i32, shake_factor: i32) -> (d: Self)
        ensures
            d@.history.len() == 0,
            d@.shake_minimum_distance == shake_minimum_distance,
            d@.shake_interval_ms == shake_interval_ms as u64,
            d@.shake_factor == shake_factor,
    {
        ShakeDetector {
            history: Vec::new(),
            shake_minimum_distance,
            shake_interval_ms: shake_interval_ms as u64,
            shake_factor,
        }
    }

    /// Replaces the settings; the history stays.
    pub fn update_settings(&mut self, shake_minimum_distance: i32, shake_interval_ms: i32, shake_factor: i32)
        ensures
            final(self)@ == (ShakeView {
                shake_minimum_distance,
                shake_interval_ms: shake_interval_ms as u64,
                shake_factor,
                ..old(self)@
            }),
    {
        self.shake_minimum_distance = shake_minimum_distance;
        self.shake_interval_ms = shake_interval_ms as u64;
        self.shake_factor = shake_factor;
    }

    pub fn shake_minimum_distance(&self) -> (d: i32)
        ensures
            d == self@.shake_minimum_distance,
    {
        self.shake_minimum_distance
    }

    /// The shake factor in percent (400: the distance travelled must exceed
    /// four times the diagonal of the covered area).
    pub fn shake_factor(&self) -> (f: i32)
        ensures
            f == self@.shake_factor,
    {
        self.shake_factor
    }

    /// Forgets the movement history.
    pub fn clear(&mut self)
        ensures
            final(self)@ == (ShakeView { history: Seq::empty(), ..old(self)@ }),
    {
        self.history.clear();
    }

    /// Records a relative movement. On a change of direction (with at
    /// least two movements) it prunes the history to the shake interval and
    /// returns the remaining movements to be checked.
    pub fn record_movement(&mut self, dx: i64, dy: i64, tick: u64) -> (r: Option<Vec<Movement>>)
        ensures
            final(self)@.history == old(self)@.record(dx, dy, tick).0,
            final(self)@.shake_minimum_distance == old(self)@.shake_minimum_distance,
            final(self)@.shake_interval_ms == old(self)@.shake_interval_ms,
            final(self)@.shake_factor == old(self)@.shake_factor,
            match r {
                Some(v) => old(self)@.record(dx, dy, tick).1 == Some(v@),
                None => old(self)@.record(dx, dy, tick).1 is None,
            },
    {
        if dx == 0 && dy == 0 {
            return None;
        }
        let n = self.history.len();
        if n > 0 {
            let last = self.history[n - 1];
            if sign_of(last.dx) == sign_of(dx) && sign_of(last.dy) == sign_of(dy) {
                let merged = Movement {
                    dx: saturating_add_i64(last.dx, dx),
                    dy: saturating_add_i64(last.dy, dy),
                    tick: last.tick,
                };
                self.history.set(n - 1, merged);
                return None;
            }
        }
        self.history.push(Movement { dx, dy, tick });
        if self.history.len() >= 2 {
            self.prune(tick);
            let mut out: Vec<Movement> = Vec::new();
            let mut i: usize = 0;
            while i < self.history.len()
                invariant
                    i <= self.history@.len(),
                    out@ == self.history@.take(i as int),
                decreases self.history@.len() - i,
            {
                out.push(self.history[i]);
                i = i + 1;
                proof {
                    assert(out@ =~= self.history@.take(i as int));
                }
            }
            proof {
                assert(out@ =~= self.history@);
            }
            return Some(out);
        }
        None
    }

    fn prune(&mut self, now: u64)
        ensures
            final(self)@ == (ShakeView { history: pruned(old(self)@.history, now, old(self)@.shake_interval_ms), ..old(self)@ }),
    {
        let start: u64 = if now >= self.shake_interval_ms {
            now - self.shake_interval_ms
        } else {
            0
        };
        let mut kept: Vec<Movement> = Vec::new();
        let mut i: usize = 0;
        while i < self.history.len()
            invariant
                i <= self.history@.len(),
                kept@ == kept_since(self.history@.take(i as int), start),
            decreases self.history@.len() - i,
        {
            let m = self.history[i];
            proof {
                assert(self.history@.take(i + 1).drop_last() =~= self.history@.take(i as int));
                assert(self.history@.take(i + 1).last() == m);
            }
            if m.tick >= start {
                kept.push(m);
            }
            i = i + 1;
        }
        proof {
            assert(self.history@.take(self.history@.len() as int) =~= self.history@);
        }
        self.history = kept;
    }
}

/// Running position after each movement, starting at the origin.
pub open spec fn position_after(moves: Seq<Movement>, k: int) -> (int, int)
    decreases k,
{
    if k <= 0 {
        (0, 0)
    } else {
        let (x, y) = position_after(moves, k - 1);
        (x + moves[k - 1].dx, y + moves[k - 1].dy)
    }
}

/// Smallest and largest x and y over the origin and the positions after the
/// first `k` movements.
pub open spec fn extent(moves: Seq<Movement>, k: int) -> (int, int, int, int)
    decreases k,
{
    if k <= 0 {
        (0, 0, 0, 0)
    } else {
        let (min_x, max_x, min_y, max_y) = extent(moves, k - 1);
        let (x, y) = position_after(moves, k);
        (
            if x < min_x { x } else { min_x },
            if x > max_x { x } else { max_x },
            if y < min_y { y } else { min_y },
            if y > max_y { y } else { max_y },
        )
    }
}

proof fn lemma_position_bound(moves: Seq<Movement>, k: int)
    requires
        0 <= k <= moves.len(),
    ensures
        -k * 0x8000_0000_0000_0000 <= position_after(moves, k).0 <= k * 0x8000_0000_0000_0000,
        -k * 0x8000_0000_0000_0000 <= position_after(moves, k).1 <= k * 0x8000_0000_0000_0000,
    decreases k,
{
    if k > 0 {
        lemma_position_bound(moves, k - 1);
    }
}

proof fn lemma_extent_bound(moves: Seq<Movement>, k: int)
    requires
        0 <= k <= moves.len(),
    ensures
        -k * 0x8000_0000_0000_0000 <= extent(moves, k).0 <= 0 <= extent(moves, k).1 <= k * 0x8000_0000_0000_0000,
        -k * 0x8000_0000_0000_0000 <= extent(moves, k).2 <= 0 <= extent(moves, k).3 <= k * 0x8000_0000_0000_0000,
    decreases k,
{
    if k > 0 {
        lemma_extent_bound(moves, k - 1);
        lemma_position_bound(moves, k);
    }
}

/// The width and height of the area that the movements cover, from the origin.
pub fn covered_area(moves: &Vec<Movement>) -> (r: (i128, i128))
    requires
        moves@.len() < 0x1000_0000_0000_0000,
    ensures
        r.0 == extent(moves@, moves@.len() as int).1 - extent(moves@, moves@.len() as int).0,
        r.1 == extent(moves@, moves@.len() as int).3 - extent(moves@, moves@.len() as int).2,
{
    let mut x: i128 = 0;
    let mut y: i128 = 0;
    let mut min_x: i128 = 0;
    let mut max_x: i128 = 0;
    let mut min_y: i128 = 0;
    let mut max_y: i128 = 0;
    let mut i: usize = 0;
    while i < moves.len()
        invariant
            i <= moves@.len() < 0x1000_0000_0000_0000,
            (x as int, y as int) == position_after(moves@, i as int),
            (min_x as int, max_x as int, min_y as int, max_y as int) == extent(moves@, i as int),
        decreases moves@.len() - i,
    {
        proof {
            lemma_position_bound(moves@, i as int);
            lemma_position_bound(moves@, i + 1);
            lemma_extent_bound(moves@, i as int);
            assert(i * 0x8000_0000_0000_0000 < 0x1000_0000_0000_0000 * 0x8000_0000_0000_0000) by (nonlinear_arith)
                requires
                    i < 0x1000_0000_0000_0000,
            ;
        }
        let m = moves[i];
        x = x + m.dx as i128;
        y = y + m.dy as i128;
        if x < min_x {
            min_x = x;
        }
        if x > max_x {
            max_x = x;
        }
        if y < min_y {
            min_y = y;
        }
        if y > max_y {
            max_y = y;
        }
        i = i + 1;
    }
    proof {
        lemma_extent_bound(moves@, i as int);
        assert(i * 0x8000_0000_0000_0000 < 0x1000_0000_0000_0000 * 0x8000_0000_0000_0000) by (nonlinear_arith)
            requires
                i < 0x1000_0000_0000_0000,
        ;
    }
    (max_x - min_x, max_y - min_y)
}

/// Movements are only ever merged in the same direction: after a
/// movement, the last entry's direction is that movement's direction.
pub proof fn lemma_last_entry_direction(v: ShakeView, dx: i64, dy: i64, tick: u64)
    requires
        dx != 0 || dy != 0,
    ensures
        v.record(dx, dy, tick).1 is None ==> v.record(dx, dy, tick).0.len() > 0
            && sign(v.record(dx, dy, tick).0.last().dx) == sign(dx)
            && sign(v.record(dx, dy, tick).0.last().dy) == sign(dy),
{
    let (h, r) = v.record(dx, dy, tick);
    if v.history.len() > 0 && sign(v.history.last().dx) == sign(dx) && sign(v.history.last().dy) == sign(dy) {
        let last = v.history.last();
        assert(sign(sat_add(last.dx, dx)) == sign(dx));
        assert(sign(sat_add(last.dy, dy)) == sign(dy));
    }
}

/// How a movement is taken in (`record_movement`, the step of the shake
/// detector's `feed`): no movement changes nothing and hands out nothing; a
/// movement in the direction of the last entry is merged into it and hands
/// out nothing; so movements are handed out for the shake test only on a
/// change of direction, and then the new movement is the last one kept and
/// the history is what is handed out. After a shake the history is cleared
/// (`clear`), and from an empty history the next movement hands out nothing.
pub proof fn lemma_merge_law(v: ShakeView, dx: i64, dy: i64, tick: u64)
    ensures
        dx == 0 && dy == 0 ==> v.record(dx, dy, tick) == (v.history, None::<Seq<Movement>>),
        v.history.len() > 0 && sign(v.history.last().dx) == sign(dx) && sign(v.history.last().dy) == sign(dy) ==> {
            &&& v.record(dx, dy, tick).1 is None
            &&& v.record(dx, dy, tick).0.len() == v.history.len()
        },
        v.record(dx, dy, tick).1 is Some ==> {
            &&& dx != 0 || dy != 0
            &&& v.history.len() > 0
            &&& sign(v.history.last().dx) != sign(dx) || sign(v.history.last().dy) != sign(dy)
            &&& v.record(dx, dy, tick).1 == Some(v.record(dx, dy, tick).0)
            &&& v.record(dx, dy, tick).0.len() > 0
            &&& v.record(dx, dy, tick).0.last() == (Movement { dx, dy, tick })
        },
        v.history.len() > 0 && (dx != 0 || dy != 0) && sign(v.history.last().dx) == sign(dx) && sign(
            v.history.last().dy,
        ) == sign(dy) ==> v.record(dx, dy, tick).0 == v.history.update(
            v.history.len() - 1,
            Movement {
                dx: sat_add(v.history.last().dx, dx),
                dy: sat_add(v.history.last().dy, dy),
                tick: v.history.last().tick,
            },
        ),
        v.history.len() == 0 ==> v.record(dx, dy, tick).1 is None,
{
    let h = v.history.push(Movement { dx, dy, tick });
    let start: u64 = if tick >= v.shake_interval_ms {
        (tick - v.shake_interval_ms) as u64
    } else {
        0
    };
    assert(h.drop_last() =~= v.history);
    assert(kept_since(h, start) == kept_since(v.history, start).push(h.last()));
}

} // verus!
