//! Monitor topology: the edges of each monitor, which of them are outer
//! edges, and where a cursor on an outer edge wraps to.

use vstd::prelude::*;
use super::types::{abs_int, not_found_result, CursorDirection, EdgeType, MonitorEdge, MonitorInfo, OppositeEdgeResult, Point, Rect, WrapMode};

verus! {

/// Distance in pixels within which two edges count as touching.
pub const ADJACENCY_TOLERANCE: i32 = 50;

/// Distance in pixels from a boundary within which the cursor is on the edge.
pub const EDGE_THRESHOLD: i32 = 1;

/// Most monitors a topology holds: monitor indices are `i32`.
pub const MAX_MONITORS: usize = 0x8000_0000;

pub open spec fn edge_code(t: EdgeType) -> int {
    match t {
        EdgeType::Left => 0,
        EdgeType::Right => 1,
        EdgeType::Top => 2,
        EdgeType::Bottom => 3,
    }
}

pub open spec fn edge_of_code(k: int) -> EdgeType {
    if k == 0 {
        EdgeType::Left
    } else if k == 1 {
        EdgeType::Right
    } else if k == 2 {
        EdgeType::Top
    } else {
        EdgeType::Bottom
    }
}

pub open spec fn is_vertical_edge(t: EdgeType) -> bool {
    t == EdgeType::Left || t == EdgeType::Right
}

/// A monitor whose edges and wrap targets stay within `i32`.
pub open spec fn valid_monitor(m: MonitorInfo) -> bool {
    &&& m.rect.left < i32::MAX
    &&& m.rect.top < i32::MAX
    &&& m.rect.right >= i32::MIN + 2
    &&& m.rect.bottom >= i32::MIN + 2
}

pub open spec fn valid_monitors(ms: Seq<MonitorInfo>) -> bool {
    &&& ms.len() <= MAX_MONITORS
    &&& forall|i: int| 0 <= i < ms.len() ==> valid_monitor(#[trigger] ms[i])
}

/// The edge `t` of monitor `i` with rectangle `r` (marked outer).
pub open spec fn monitor_edge(i: int, r: Rect, t: EdgeType) -> MonitorEdge {
    match t {
        EdgeType::Left => MonitorEdge {
            monitor_index: i as i32,
            edge_type: t,
            position: r.left,
            start: r.top,
            end: r.bottom,
            is_outer: true,
        },
        EdgeType::Right => MonitorEdge {
            monitor_index: i as i32,
            edge_type: t,
            position: (r.right - 1) as i32,
            start: r.top,
            end: r.bottom,
            is_outer: true,
        },
        EdgeType::Top => MonitorEdge {
            monitor_index: i as i32,
            edge_type: t,
            position: r.top,
            start: r.left,
            end: r.right,
            is_outer: true,
        },
        EdgeType::Bottom => MonitorEdge {
            monitor_index: i as i32,
            edge_type: t,
            position: (r.bottom - 1) as i32,
            start: r.left,
            end: r.right,
            is_outer: true,
        },
    }
}

pub open spec fn opposite_types(a: EdgeType, b: EdgeType) -> bool {
    ||| a == EdgeType::Left && b == EdgeType::Right
    ||| a == EdgeType::Right && b == EdgeType::Left
    ||| a == EdgeType::Top && b == EdgeType::Bottom
    ||| a == EdgeType::Bottom && b == EdgeType::Top
}

pub open spec fn max_int(a: int, b: int) -> int {
    if a >= b {
        a
    } else {
        b
    }
}

pub open spec fn min_int(a: int, b: int) -> int {
    if a <= b {
        a
    } else {
        b
    }
}

/// Two edges touch: they face each other, lie within `tol` of each other,
/// and their extents overlap by more than `tol`.
pub open spec fn edges_adjacent(e1: MonitorEdge, e2: MonitorEdge, tol: int) -> bool {
    &&& opposite_types(e1.edge_type, e2.edge_type)
    &&& abs_int(e1.position - e2.position) <= tol
    &&& min_int(e1.end as int, e2.end as int) > max_int(e1.start as int, e2.start as int) + tol
}

/// All edges of all monitors, four per monitor in the order left, right,
/// top, bottom, each marked outer.
pub open spec fn base_edges(ms: Seq<MonitorInfo>) -> Seq<MonitorEdge> {
    Seq::new(4 * ms.len(), |k: int| monitor_edge(k / 4, ms[k / 4].rect, edge_of_code(k % 4)))
}

/// Edge `k` touches no edge of another monitor.
pub open spec fn edge_is_outer(base: Seq<MonitorEdge>, k: int) -> bool {
    forall|j: int|
        0 <= j < base.len() && base[j].monitor_index != base[k].monitor_index ==> !edges_adjacent(
            base[k],
            #[trigger] base[j],
            ADJACENCY_TOLERANCE as int,
        )
}

/// The edge table of a layout, with each edge's outer flag set.
pub open spec fn edge_table(ms: Seq<MonitorInfo>) -> Seq<MonitorEdge> {
    let b = base_edges(ms);
    Seq::new(b.len(), |k: int| MonitorEdge { is_outer: edge_is_outer(b, k), ..b[k] })
}

/// The outer edges of a table, in table order.
pub open spec fn outer_of(s: Seq<MonitorEdge>) -> Seq<MonitorEdge>
    decreases s.len(),
{
    if s.len() == 0 {
        Seq::empty()
    } else if s.last().is_outer {
        outer_of(s.drop_last()).push(s.last())
    } else {
        outer_of(s.drop_last())
    }
}

/// The abstract state of a topology.
pub struct TopologyView {
    pub monitors: Seq<MonitorInfo>,
    pub edges: Seq<MonitorEdge>,
    pub outer_edges: Seq<MonitorEdge>,
}

impl TopologyView {
    pub open spec fn inv(self) -> bool {
        &&& valid_monitors(self.monitors)
        &&& self.edges == edge_table(self.monitors)
        &&& self.outer_edges == outer_of(self.edges)
    }

    /// The edge `t` of monitor `mi`, if that monitor exists.
    pub open spec fn edge(self, mi: int, t: EdgeType) -> Option<MonitorEdge> {
        if 0 <= mi < self.monitors.len() {
            Some(self.edges[4 * mi + edge_code(t)])
        } else {
            None
        }
    }

    pub open spec fn edge_is_outer_at(self, mi: int, t: EdgeType) -> bool {
        self.edge(mi, t) is Some && self.edge(mi, t).unwrap().is_outer
    }
}

/// The target type of a wrap from `from`, and whether the farthest edge is wanted.
pub open spec fn wrap_target(from: EdgeType) -> (EdgeType, bool) {
    match from {
        EdgeType::Left => (EdgeType::Right, true),
        EdgeType::Right => (EdgeType::Left, false),
        EdgeType::Top => (EdgeType::Bottom, true),
        EdgeType::Bottom => (EdgeType::Top, false),
    }
}

/// Among the edges of type `target` whose extent holds `coord`, the one
/// with the largest (`find_max`) or smallest position; the first one wins
/// ties, and the search starts from `i32::MIN` (or `i32::MAX`).
pub open spec fn direct_best(s: Seq<MonitorEdge>, target: EdgeType, coord: int, find_max: bool) -> Option<MonitorEdge>
    decreases s.len(),
{
    if s.len() == 0 {
        None
    } else {
        let prev = direct_best(s.drop_last(), target, coord, find_max);
        let e = s.last();
        let extreme: int = match prev {
            Some(p) => p.position as int,
            None => if find_max {
                i32::MIN as int
            } else {
                i32::MAX as int
            },
        };
        if e.edge_type == target && e.start <= coord <= e.end && (if find_max {
            e.position > extreme
        } else {
            e.position < extreme
        }) {
            Some(e)
        } else {
            prev
        }
    }
}

/// Distance from `coord` to the extent of `e`.
pub open spec fn distance_to(coord: int, e: MonitorEdge) -> int {
    if coord < e.start {
        e.start - coord
    } else if coord > e.end {
        coord - e.end
    } else {
        0
    }
}

/// The edge of type `target` nearest to `coord` (ties broken by position as
/// in `direct_best`), with its distance; the search starts from distance `i32::MAX`.
pub open spec fn nearest_by_distance(s: Seq<MonitorEdge>, target: EdgeType, coord: int, find_max: bool) -> (Option<MonitorEdge>, int)
    decreases s.len(),
{
    if s.len() == 0 {
        (None, i32::MAX as int)
    } else {
        let (best, best_d) = nearest_by_distance(s.drop_last(), target, coord, find_max);
        let e = s.last();
        let d = distance_to(coord, e);
        let better = if d < best_d {
            true
        } else if d == best_d {
            match best {
                Some(b) => if find_max {
                    e.position > b.position
                } else {
                    e.position < b.position
                },
                None => true,
            }
        } else {
            false
        };
        if e.edge_type == target && better {
            (Some(e), d)
        } else {
            (best, best_d)
        }
    }
}

/// Where on `target` a cursor at `coord` on `source` lands when the two
/// extents do not both hold it: the nearer end of the target, one pixel in.
pub open spec fn projected_position(coord: int, source: MonitorEdge, target: MonitorEdge) -> int {
    let shared_start = max_int(source.start as int, target.start as int);
    let shared_end = min_int(source.end as int, target.end as int);
    if shared_start <= coord <= shared_end {
        coord
    } else {
        let p = if coord < shared_start {
            target.start + 1
        } else {
            target.end - 1
        };
        min_int(max_int(p, target.start as int), target.end - 1)
    }
}

/// The edge to wrap to from edge type `from` at coordinate `coord`.
pub open spec fn nearest_opposite(outer: Seq<MonitorEdge>, from: EdgeType, coord: int, source: MonitorEdge) -> OppositeEdgeResult {
    let (target, find_max) = wrap_target(from);
    match direct_best(outer, target, coord, find_max) {
        Some(e) => OppositeEdgeResult {
            edge: e,
            found: true,
            requires_projection: false,
            projected_coordinate: coord as i32,
        },
        None => match nearest_by_distance(outer, target, coord, find_max).0 {
            Some(t) => OppositeEdgeResult {
                edge: t,
                found: true,
                requires_projection: true,
                projected_coordinate: projected_position(coord, source, t) as i32,
            },
            None => not_found_result(),
        },
    }
}

/// The coordinate of `p` along an edge of type `t`.
pub open spec fn coord_along(t: EdgeType, p: Point) -> int {
    if is_vertical_edge(t) {
        p.y as int
    } else {
        p.x as int
    }
}

/// Outer edges of monitor `mi` that the cursor at `p` is on, in the order
/// left, right, top, bottom, restricted by the wrap mode.
pub open spec fn candidate_edges(v: TopologyView, mi: int, p: Point, mode: WrapMode) -> Seq<EdgeType> {
    let r = v.monitors[mi].rect;
    let horizontal = mode == WrapMode::Both || mode == WrapMode::HorizontalOnly;
    let vertical = mode == WrapMode::Both || mode == WrapMode::VerticalOnly;
    let c0 = if horizontal && p.x <= r.left + EDGE_THRESHOLD && v.edge_is_outer_at(mi, EdgeType::Left) {
        seq![EdgeType::Left]
    } else {
        Seq::empty()
    };
    let c1 = if horizontal && p.x >= r.right - 1 - EDGE_THRESHOLD && v.edge_is_outer_at(mi, EdgeType::Right) {
        seq![EdgeType::Right]
    } else {
        Seq::empty()
    };
    let c2 = if vertical && p.y <= r.top + EDGE_THRESHOLD && v.edge_is_outer_at(mi, EdgeType::Top) {
        seq![EdgeType::Top]
    } else {
        Seq::empty()
    };
    let c3 = if vertical && p.y >= r.bottom - 1 - EDGE_THRESHOLD && v.edge_is_outer_at(mi, EdgeType::Bottom) {
        seq![EdgeType::Bottom]
    } else {
        Seq::empty()
    };
    c0 + c1 + c2 + c3
}

/// The candidate edge preferred by the movement direction at a corner.
pub open spec fn prioritized_edge(c: Seq<EdgeType>, dir: Option<CursorDirection>) -> EdgeType {
    if c.len() == 1 || dir is None {
        c[0]
    } else {
        let d = dir.unwrap();
        if d.primarily_horizontal() {
            if d.dx < 0 && c.contains(EdgeType::Left) {
                EdgeType::Left
            } else if d.dx > 0 && c.contains(EdgeType::Right) {
                EdgeType::Right
            } else if c.contains(EdgeType::Left) {
                EdgeType::Left
            } else if c.contains(EdgeType::Right) {
                EdgeType::Right
            } else {
                c[0]
            }
        } else {
            if d.dy < 0 && c.contains(EdgeType::Top) {
                EdgeType::Top
            } else if d.dy > 0 && c.contains(EdgeType::Bottom) {
                EdgeType::Bottom
            } else if c.contains(EdgeType::Top) {
                EdgeType::Top
            } else if c.contains(EdgeType::Bottom) {
                EdgeType::Bottom
            } else {
                c[0]
            }
        }
    }
}

/// A cursor at `p` on edge `t` of monitor `mi` has somewhere to wrap to.
pub open spec fn has_destination(v: TopologyView, mi: int, t: EdgeType, p: Point) -> bool {
    nearest_opposite(v.outer_edges, t, coord_along(t, p), v.edge(mi, t).unwrap()).found
}

/// The first candidate other than `skip` that has somewhere to wrap to.
pub open spec fn first_other_with_destination(v: TopologyView, mi: int, p: Point, c: Seq<EdgeType>, skip: EdgeType) -> Option<EdgeType>
    decreases c.len(),
{
    if c.len() == 0 {
        None
    } else if c[0] != skip && has_destination(v, mi, c[0], p) {
        Some(c[0])
    } else {
        first_other_with_destination(v, mi, p, c.drop_first(), skip)
    }
}

/// The outer edge a cursor at `p` on monitor `mi` will wrap across, if any.
pub open spec fn outer_edge_at(v: TopologyView, mi: int, p: Point, mode: WrapMode, dir: Option<CursorDirection>) -> Option<EdgeType> {
    if !(0 <= mi < v.monitors.len()) {
        None
    } else {
        let c = candidate_edges(v, mi, p, mode);
        if c.len() == 0 {
            None
        } else {
            let pr = prioritized_edge(c, dir);
            if has_destination(v, mi, pr, p) {
                Some(pr)
            } else {
                first_other_with_destination(v, mi, p, c, pr)
            }
        }
    }
}

/// Where a cursor at `p` on edge `t` of monitor `mi` wraps to.
pub open spec fn wrap_destination(v: TopologyView, mi: int, p: Point, t: EdgeType) -> Point {
    match v.edge(mi, t) {
        None => p,
        Some(from) => {
            let opp = nearest_opposite(v.outer_edges, t, coord_along(t, p), from);
            if !opp.found {
                let r = v.monitors[mi].rect;
                match t {
                    EdgeType::Left => Point { x: (r.right - 2) as i32, ..p },
                    EdgeType::Right => Point { x: (r.left + 1) as i32, ..p },
                    EdgeType::Top => Point { y: (r.bottom - 2) as i32, ..p },
                    EdgeType::Bottom => Point { y: (r.top + 1) as i32, ..p },
                }
            } else if is_vertical_edge(t) {
                Point {
                    x: opp.edge.position,
                    y: if opp.requires_projection {
                        opp.projected_coordinate
                    } else {
                        p.y
                    },
                }
            } else {
                Point {
                    x: if opp.requires_projection {
                        opp.projected_coordinate
                    } else {
                        p.x
                    },
                    y: opp.edge.position,
                }
            }
        },
    }
}

pub open spec fn rect_contains(r: Rect, p: Point) -> bool {
    r.left <= p.x < r.right && r.top <= p.y < r.bottom
}

/// Edge layout of a set of monitors.
pub struct MonitorTopology {
    monitors: Vec<MonitorInfo>,
    edges: Vec<MonitorEdge>,
    outer_edges: Vec<MonitorEdge>,
}

impl View for MonitorTopology {
    type V = TopologyView;

    closed spec fn view(&self) -> TopologyView {
        TopologyView { monitors: self.monitors@, edges: self.edges@, outer_edges: self.outer_edges@ }
    }
}

proof fn lemma_base_edge_facts(ms: Seq<MonitorInfo>, k: int)
    requires
        valid_monitors(ms),
        0 <= k < 4 * ms.len(),
    ensures
        base_edges(ms)[k].monitor_index == k / 4,
        base_edges(ms)[k].edge_type == edge_of_code(k % 4),
        base_edges(ms)[k].end >= i32::MIN + 2,
{
    assert(valid_monitor(ms[k / 4]));
}

impl MonitorTopology {
    #[verifier::type_invariant]
    closed spec fn wf(&self) -> bool {
        self@.inv()
    }

    pub fn new() -> (t: Self)
        ensures
            t@.monitors.len() == 0,
            t@.edges.len() == 0,
            t@.outer_edges.len() == 0,
    {
        proof {
            assert(edge_table(Seq::<MonitorInfo>::empty()) =~= Seq::<MonitorEdge>::empty());
            assert(outer_of(Seq::<MonitorEdge>::empty()) =~= Seq::<MonitorEdge>::empty());
        }
        MonitorTopology { monitors: Vec::new(), edges: Vec::new(), outer_edges: Vec::new() }
    }

    /// Rebuilds the edge table for a new monitor layout.
    pub fn initialize(&mut self, monitors: &[MonitorInfo])
        requires
            valid_monitors(monitors@),
        ensures
            final(self)@.monitors == monitors@,
            final(self)@.edges == edge_table(monitors@),
            final(self)@.outer_edges == outer_of(edge_table(monitors@)),
    {
        let n = monitors.len();
        let mut ms: Vec<MonitorInfo> = Vec::new();
        let mut base: Vec<MonitorEdge> = Vec::new();
        let mut i: usize = 0;
        while i < n
            invariant
                n == monitors@.len(),
                valid_monitors(monitors@),
                i <= n,
                ms@ == monitors@.take(i as int),
                base@ == base_edges(monitors@).take(4 * i as int),
            decreases n - i,
        {
            let m = monitors[i];
            let r = m.rect;
            let idx = i as i32;
            proof {
                assert(valid_monitor(monitors@[i as int]));
            }
            ms.push(m);
            base.push(MonitorEdge { monitor_index: idx, edge_type: EdgeType::Left, position: r.left, start: r.top, end: r.bottom, is_outer: true });
            base.push(MonitorEdge { monitor_index: idx, edge_type: EdgeType::Right, position: r.right - 1, start: r.top, end: r.bottom, is_outer: true });
            base.push(MonitorEdge { monitor_index: idx, edge_type: EdgeType::Top, position: r.top, start: r.left, end: r.right, is_outer: true });
            base.push(MonitorEdge { monitor_index: idx, edge_type: EdgeType::Bottom, position: r.bottom - 1, start: r.left, end: r.right, is_outer: true });
            i = i + 1;
            proof {
                assert(ms@ =~= monitors@.take(i as int));
                assert(base@ =~= base_edges(monitors@).take(4 * i as int));
            }
        }
        proof {
            assert(ms@ =~= monitors@);
            assert(base@ =~= base_edges(monitors@));
        }
        let total = base.len();
        let mut edges: Vec<MonitorEdge> = Vec::new();
        let mut outer: Vec<MonitorEdge> = Vec::new();
        let mut k: usize = 0;
        while k < total
            invariant
                total == base@.len(),
                base@ == base_edges(monitors@),
                valid_monitors(monitors@),
                k <= total,
                edges@ == edge_table(monitors@).take(k as int),
                outer@ == outer_of(edges@),
            decreases total - k,
        {
            let e = base[k];
            let mut is_outer = true;
            let mut j: usize = 0;
            while j < total && is_outer
                invariant
                    total == base@.len(),
                    base@ == base_edges(monitors@),
                    valid_monitors(monitors@),
                    k < total,
                    e == base@[k as int],
                    j <= total,
                    is_outer ==> (forall|jj: int|
                        0 <= jj < j && base@[jj].monitor_index != e.monitor_index ==> !edges_adjacent(
                            e,
                            #[trigger] base@[jj],
                            ADJACENCY_TOLERANCE as int,
                        )),
                    !is_outer ==> (exists|jj: int|
                        0 <= jj < total && base@[jj].monitor_index != e.monitor_index && edges_adjacent(
                            e,
                            #[trigger] base@[jj],
                            ADJACENCY_TOLERANCE as int,
                        )),
                decreases total - j + (if is_outer { 1int } else { 0int }),
            {
                let other = base[j];
                if other.monitor_index != e.monitor_index && Self::edges_are_adjacent(
                    &e,
                    &other,
                    ADJACENCY_TOLERANCE,
                ) {
                    is_outer = false;
                } else {
                    j = j + 1;
                }
            }
            proof {
                if !is_outer {
                    assert(!edge_is_outer(base@, k as int));
                } else {
                    assert(edge_is_outer(base@, k as int));
                }
            }
            let ne = MonitorEdge { is_outer, ..e };
            let ghost prev_edges = edges@;
            edges.push(ne);
            if is_outer {
                outer.push(ne);
            }
            k = k + 1;
            proof {
                assert(edges@ =~= edge_table(monitors@).take(k as int));
                assert(edges@.drop_last() =~= prev_edges);
            }
        }
        proof {
            assert(edges@ =~= edge_table(monitors@));
        }
        *self = MonitorTopology { monitors: ms, edges, outer_edges: outer };
    }

    fn edges_are_adjacent(edge1: &MonitorEdge, edge2: &MonitorEdge, tolerance: i32) -> (b: bool)
        ensures
            b == edges_adjacent(*edge1, *edge2, tolerance as int),
    {
        let opposite = match (edge1.edge_type, edge2.edge_type) {
            (EdgeType::Left, EdgeType::Right) => true,
            (EdgeType::Right, EdgeType::Left) => true,
            (EdgeType::Top, EdgeType::Bottom) => true,
            (EdgeType::Bottom, EdgeType::Top) => true,
            _ => false,
        };
        if !opposite {
            return false;
        }
        let diff: i64 = edge1.position as i64 - edge2.position as i64;
        let adiff: i64 = if diff < 0 {
            -diff
        } else {
            diff
        };
        if adiff > tolerance as i64 {
            return false;
        }
        let overlap_start: i64 = if edge1.start >= edge2.start {
            edge1.start as i64
        } else {
            edge2.start as i64
        };
        let overlap_end: i64 = if edge1.end <= edge2.end {
            edge1.end as i64
        } else {
            edge2.end as i64
        };
        overlap_end > overlap_start + tolerance as i64
    }

    /// Edge `t` of monitor `mi`.
    pub fn edge(&self, monitor_index: i32, t: EdgeType) -> (r: Option<MonitorEdge>)
        ensures
            r == self@.edge(monitor_index as int, t),
    {
        proof {
            use_type_invariant(self);
        }
        if monitor_index < 0 || monitor_index as usize >= self.monitors.len() {
            return None;
        }
        let code: usize = match t {
            EdgeType::Left => 0,
            EdgeType::Right => 1,
            EdgeType::Top => 2,
            EdgeType::Bottom => 3,
        };
        let ne = self.edges.len();
        proof {
            assert(ne == 4 * self@.monitors.len());
        }
        Some(self.edges[4 * (monitor_index as usize) + code])
    }

    /// The outer edges, in table order.
    pub fn outer_edges(&self) -> (r: &[MonitorEdge])
        ensures
            r@ == self@.outer_edges,
    {
        self.outer_edges.as_slice()
    }

    /// The first monitor whose rectangle holds `pt`.
    pub fn monitor_index_at_point(&self, pt: Point) -> (r: Option<i32>)
        ensures
            match r {
                Some(i) => 0 <= i < self@.monitors.len() && rect_contains(self@.monitors[i as int].rect, pt)
                    && forall|j: int| 0 <= j < i ==> !rect_contains(#[trigger] self@.monitors[j].rect, pt),
                None => forall|j: int| 0 <= j < self@.monitors.len() ==> !rect_contains(#[trigger] self@.monitors[j].rect, pt),
            },
    {
        proof {
            use_type_invariant(self);
        }
        let n = self.monitors.len();
        let mut i: usize = 0;
        while i < n
            invariant
                n == self@.monitors.len(),
                n <= MAX_MONITORS,
                i <= n,
                forall|j: int| 0 <= j < i ==> !rect_contains(#[trigger] self@.monitors[j].rect, pt),
            decreases n - i,
        {
            let r = self.monitors[i].rect;
            if pt.x >= r.left && pt.x < r.right && pt.y >= r.top && pt.y < r.bottom {
                return Some(i as i32);
            }
            i = i + 1;
        }
        None
    }

    /// The rectangle of monitor `index`.
    pub fn get_monitor_rect_by_index(&self, index: i32) -> (r: Option<Rect>)
        ensures
            r == (if 0 <= index < self@.monitors.len() {
                Some(self@.monitors[index as int].rect)
            } else {
                None
            }),
    {
        if index < 0 || index as usize >= self.monitors.len() {
            None
        } else {
            Some(self.monitors[index as usize].rect)
        }
    }

    pub fn monitor_count(&self) -> (n: usize)
        ensures
            n == self@.monitors.len(),
    {
        self.monitors.len()
    }

    fn prioritize_edge_by_direction(candidates: &Vec<EdgeType>, direction: Option<CursorDirection>) -> (r: EdgeType)
        requires
            candidates@.len() > 0,
        ensures
            r == prioritized_edge(candidates@, direction),
    {
        if candidates.len() == 1 || direction.is_none() {
            return candidates[0];
        }
        let dir = direction.unwrap();
        let has_left = Self::contains_edge(candidates, EdgeType::Left);
        let has_right = Self::contains_edge(candidates, EdgeType::Right);
        let has_top = Self::contains_edge(candidates, EdgeType::Top);
        let has_bottom = Self::contains_edge(candidates, EdgeType::Bottom);
        if dir.is_primarily_horizontal() {
            if dir.is_moving_left() && has_left {
                return EdgeType::Left;
            } else if dir.is_moving_right() && has_right {
                return EdgeType::Right;
            }
            if has_left {
                return EdgeType::Left;
            }
            if has_right {
                return EdgeType::Right;
            }
        } else {
            if dir.is_moving_up() && has_top {
                return EdgeType::Top;
            } else if dir.is_moving_down() && has_bottom {
                return EdgeType::Bottom;
            }
            if has_top {
                return EdgeType::Top;
            }
            if has_bottom {
                return EdgeType::Bottom;
            }
        }
        candidates[0]
    }

    fn contains_edge(candidates: &Vec<EdgeType>, t: EdgeType) -> (b: bool)
        ensures
            b == candidates@.contains(t),
    {
        let mut i: usize = 0;
        while i < candidates.len()
            invariant
                i <= candidates@.len(),
                forall|j: int| 0 <= j < i ==> candidates@[j] != t,
            decreases candidates@.len() - i,
        {
            if candidates[i] == t {
                return true;
            }
            i = i + 1;
        }
        false
    }

    fn find_opposite_outer_edge(&self, from_edge: EdgeType, cursor_coord: i32) -> (r: Option<MonitorEdge>)
        ensures
            r == direct_best(self@.outer_edges, wrap_target(from_edge).0, cursor_coord as int, wrap_target(from_edge).1),
    {
        let (target_type, find_max) = match from_edge {
            EdgeType::Left => (EdgeType::Right, true),
            EdgeType::Right => (EdgeType::Left, false),
            EdgeType::Top => (EdgeType::Bottom, true),
            EdgeType::Bottom => (EdgeType::Top, false),
        };
        let mut best: Option<MonitorEdge> = None;
        let mut extreme: i32 = if find_max {
            i32::MIN
        } else {
            i32::MAX
        };
        let n = self.outer_edges.len();
        let mut i: usize = 0;
        while i < n
            invariant
                n == self@.outer_edges.len(),
                i <= n,
                best == direct_best(self@.outer_edges.take(i as int), target_type, cursor_coord as int, find_max),
                extreme == (match best {
                    Some(p) => p.position,
                    None => if find_max {
                        i32::MIN
                    } else {
                        i32::MAX
                    },
                }),
            decreases n - i,
        {
            let edge = self.outer_edges[i];
            proof {
                assert(self@.outer_edges.take(i + 1).drop_last() =~= self@.outer_edges.take(i as int));
            }
            if edge.edge_type == target_type && cursor_coord >= edge.start && cursor_coord <= edge.end {
                let dominated = if find_max {
                    edge.position > extreme
                } else {
                    edge.position < extreme
                };
                if dominated {
                    extreme = edge.position;
                    best = Some(edge);
                }
            }
            i = i + 1;
        }
        proof {
            assert(self@.outer_edges.take(n as int) =~= self@.outer_edges);
        }
        best
    }

    fn find_nearest_opposite_edge(&self, from_edge: EdgeType, cursor_coord: i32, source_edge: &MonitorEdge) -> (r: OppositeEdgeResult)
        requires
            source_edge.end >= i32::MIN + 2,
        ensures
            r == nearest_opposite(self@.outer_edges, from_edge, cursor_coord as int, *source_edge),
    {
        proof {
            use_type_invariant(self);
        }
        let (target_type, find_max) = match from_edge {
            EdgeType::Left => (EdgeType::Right, true),
            EdgeType::Right => (EdgeType::Left, false),
            EdgeType::Top => (EdgeType::Bottom, true),
            EdgeType::Bottom => (EdgeType::Top, false),
        };
        if let Some(direct) = self.find_opposite_outer_edge(from_edge, cursor_coord) {
            return OppositeEdgeResult {
                edge: direct,
                found: true,
                requires_projection: false,
                projected_coordinate: cursor_coord,
            };
        }
        let mut best_distance: i64 = i32::MAX as i64;
        let mut best_edge: Option<MonitorEdge> = None;
        let n = self.outer_edges.len();
        let mut i: usize = 0;
        while i < n
            invariant
                n == self@.outer_edges.len(),
                i <= n,
                (best_edge, best_distance as int) == nearest_by_distance(self@.outer_edges.take(i as int), target_type, cursor_coord as int, find_max),
            decreases n - i,
        {
            let edge = self.outer_edges[i];
            proof {
                assert(self@.outer_edges.take(i + 1).drop_last() =~= self@.outer_edges.take(i as int));
            }
            if edge.edge_type == target_type {
                let c = cursor_coord as i64;
                let distance: i64 = if c < edge.start as i64 {
                    edge.start as i64 - c
                } else if c > edge.end as i64 {
                    c - edge.end as i64
                } else {
                    0
                };
                let is_better = if distance < best_distance {
                    true
                } else if distance == best_distance {
                    match best_edge {
                        Some(b) => if find_max {
                            edge.position > b.position
                        } else {
                            edge.position < b.position
                        },
                        None => true,
                    }
                } else {
                    false
                };
                if is_better {
                    best_distance = distance;
                    best_edge = Some(edge);
                }
            }
            i = i + 1;
        }
        proof {
            assert(self@.outer_edges.take(n as int) =~= self@.outer_edges);
        }
        match best_edge {
            Some(target) => {
                proof {
                    lemma_outer_edges_valid(self@, target, target_type, cursor_coord as int, find_max);
                }
                let projected = Self::calculate_projected_position(cursor_coord, source_edge, &target);
                OppositeEdgeResult {
                    edge: target,
                    found: true,
                    requires_projection: true,
                    projected_coordinate: projected,
                }
            },
            None => OppositeEdgeResult::not_found(),
        }
    }

    fn calculate_projected_position(cursor_coord: i32, source_edge: &MonitorEdge, target_edge: &MonitorEdge) -> (p: i32)
        requires
            target_edge.end >= i32::MIN + 2,
        ensures
            p == projected_position(cursor_coord as int, *source_edge, *target_edge),
    {
        let shared_start = if source_edge.start >= target_edge.start {
            source_edge.start
        } else {
            target_edge.start
        };
        let shared_end = if source_edge.end <= target_edge.end {
            source_edge.end
        } else {
            target_edge.end
        };
        if cursor_coord >= shared_start && cursor_coord <= shared_end {
            return cursor_coord;
        }
        let projected: i64 = if cursor_coord < shared_start {
            target_edge.start as i64 + 1
        } else {
            target_edge.end as i64 - 1
        };
        let lo = if projected >= target_edge.start as i64 {
            projected
        } else {
            target_edge.start as i64
        };
        let hi = target_edge.end as i64 - 1;
        let r = if lo <= hi {
            lo
        } else {
            hi
        };
        r as i32
    }

    /// The outer edge of monitor `monitor_index` that a cursor at
    /// `cursor_pos` will wrap across, if any.
    pub fn is_on_outer_edge(&self, monitor_index: i32, cursor_pos: Point, wrap_mode: WrapMode, direction: Option<&CursorDirection>) -> (r: Option<EdgeType>)
        ensures
            r == outer_edge_at(self@, monitor_index as int, cursor_pos, wrap_mode, match direction {
                Some(d) => Some(*d),
                None => None,
            }),
    {
        proof {
            use_type_invariant(self);
        }
        let monitor_rect = match self.get_monitor_rect_by_index(monitor_index) {
            Some(r) => r,
            None => return None,
        };
        let ghost mi = monitor_index as int;
        proof {
            assert(valid_monitor(self@.monitors[mi]));
        }
        let horizontal = wrap_mode == WrapMode::Both || wrap_mode == WrapMode::HorizontalOnly;
        let vertical = wrap_mode == WrapMode::Both || wrap_mode == WrapMode::VerticalOnly;
        let mut candidates: Vec<EdgeType> = Vec::new();
        if horizontal && cursor_pos.x <= monitor_rect.left + EDGE_THRESHOLD {
            if let Some(edge) = self.edge(monitor_index, EdgeType::Left) {
                if edge.is_outer {
                    candidates.push(EdgeType::Left);
                }
            }
        }
        let ghost c0 = candidates@;
        if horizontal && cursor_pos.x >= monitor_rect.right - 1 - EDGE_THRESHOLD {
            if let Some(edge) = self.edge(monitor_index, EdgeType::Right) {
                if edge.is_outer {
                    candidates.push(EdgeType::Right);
                }
            }
        }
        let ghost c1 = candidates@;
        if vertical && cursor_pos.y <= monitor_rect.top + EDGE_THRESHOLD {
            if let Some(edge) = self.edge(monitor_index, EdgeType::Top) {
                if edge.is_outer {
                    candidates.push(EdgeType::Top);
                }
            }
        }
        let ghost c2 = candidates@;
        if vertical && cursor_pos.y >= monitor_rect.bottom - 1 - EDGE_THRESHOLD {
            if let Some(edge) = self.edge(monitor_index, EdgeType::Bottom) {
                if edge.is_outer {
                    candidates.push(EdgeType::Bottom);
                }
            }
        }
        proof {
            assert(candidates@ =~= candidate_edges(self@, mi, cursor_pos, wrap_mode));
        }
        if candidates.len() == 0 {
            return None;
        }
        let dir = match direction {
            Some(d) => Some(*d),
            None => None,
        };
        let prioritized = Self::prioritize_edge_by_direction(&candidates, dir);
        let source = match self.edge(monitor_index, prioritized) {
            Some(s) => s,
            None => return None,
        };
        proof {
            lemma_table_edges_valid(self@, mi, prioritized);
        }
        let cursor_coord = if prioritized == EdgeType::Left || prioritized == EdgeType::Right {
            cursor_pos.y
        } else {
            cursor_pos.x
        };
        let result = self.find_nearest_opposite_edge(prioritized, cursor_coord, &source);
        if result.found {
            return Some(prioritized);
        }
        self.first_other_with_destination(monitor_index, cursor_pos, &candidates, prioritized)
    }

    fn first_other_with_destination(&self, monitor_index: i32, cursor_pos: Point, candidates: &Vec<EdgeType>, prioritized: EdgeType) -> (r: Option<EdgeType>)
        requires
            0 <= monitor_index < self@.monitors.len(),
        ensures
            r == first_other_with_destination(self@, monitor_index as int, cursor_pos, candidates@, prioritized),
    {
        proof {
            use_type_invariant(self);
        }
        let ghost mi = monitor_index as int;
        let n = candidates.len();
        let mut i: usize = 0;
        proof {
            assert(candidates@.skip(0) =~= candidates@);
        }
        while i < n
            invariant
                self@.inv(),
                0 <= mi < self@.monitors.len(),
                mi == monitor_index as int,
                n == candidates@.len(),
                i <= n,
                first_other_with_destination(self@, mi, cursor_pos, candidates@, prioritized)
                    == first_other_with_destination(self@, mi, cursor_pos, candidates@.skip(i as int), prioritized),
            decreases n - i,
        {
            let candidate = candidates[i];
            proof {
                assert(candidates@.skip(i as int).drop_first() =~= candidates@.skip(i + 1));
                assert(candidates@.skip(i as int)[0] == candidate);
            }
            if candidate != prioritized {
                let src = self.edge(monitor_index, candidate).unwrap();
                proof {
                    lemma_table_edges_valid(self@, mi, candidate);
                }
                let coord = if candidate == EdgeType::Left || candidate == EdgeType::Right {
                    cursor_pos.y
                } else {
                    cursor_pos.x
                };
                let alt = self.find_nearest_opposite_edge(candidate, coord, &src);
                if alt.found {
                    return Some(candidate);
                }
            }
            i = i + 1;
        }
        None
    }

    /// Where a cursor at `cursor_pos` on edge `edge_type` of monitor
    /// `monitor_index` wraps to.
    pub fn get_wrap_destination(&self, monitor_index: i32, cursor_pos: Point, edge_type: EdgeType) -> (p: Point)
        ensures
            p == wrap_destination(self@, monitor_index as int, cursor_pos, edge_type),
    {
        proof {
            use_type_invariant(self);
        }
        let from_edge = match self.edge(monitor_index, edge_type) {
            Some(e) => e,
            None => return cursor_pos,
        };
        let ghost mi = monitor_index as int;
        proof {
            lemma_table_edges_valid(self@, mi, edge_type);
            assert(valid_monitor(self@.monitors[mi]));
        }
        let cursor_coord = if edge_type == EdgeType::Left || edge_type == EdgeType::Right {
            cursor_pos.y
        } else {
            cursor_pos.x
        };
        let opposite = self.find_nearest_opposite_edge(edge_type, cursor_coord, &from_edge);
        if !opposite.found {
            let rect = self.monitors[monitor_index as usize].rect;
            let mut result = cursor_pos;
            match edge_type {
                EdgeType::Left => result.x = rect.right - 2,
                EdgeType::Right => result.x = rect.left + 1,
                EdgeType::Top => result.y = rect.bottom - 2,
                EdgeType::Bottom => result.y = rect.top + 1,
            }
            return result;
        }
        if edge_type == EdgeType::Left || edge_type == EdgeType::Right {
            Point {
                x: opposite.edge.position,
                y: if opposite.requires_projection {
                    opposite.projected_coordinate
                } else {
                    cursor_pos.y
                },
            }
        } else {
            Point {
                x: if opposite.requires_projection {
                    opposite.projected_coordinate
                } else {
                    cursor_pos.x
                },
                y: opposite.edge.position,
            }
        }
    }
}

proof fn lemma_table_edges_valid(v: TopologyView, mi: int, t: EdgeType)
    requires
        v.inv(),
        0 <= mi < v.monitors.len(),
    ensures
        v.edge(mi, t).unwrap().end >= i32::MIN + 2,
{
    let k = 4 * mi + edge_code(t);
    lemma_base_edge_facts(v.monitors, k);
}

proof fn lemma_outer_of_subset(s: Seq<MonitorEdge>, e: MonitorEdge)
    requires
        outer_of(s).contains(e),
    ensures
        s.contains(e),
    decreases s.len(),
{
    if s.len() > 0 {
        if s.last().is_outer && e == s.last() {
            assert(s[s.len() - 1] == e);
        } else {
            if s.last().is_outer {
                let i = choose|i: int| 0 <= i < outer_of(s).len() && outer_of(s)[i] == e;
                assert(outer_of(s.drop_last())[i] == e);
            }
            lemma_outer_of_subset(s.drop_last(), e);
            let j = choose|j: int| 0 <= j < s.drop_last().len() && s.drop_last()[j] == e;
            assert(s[j] == e);
        }
    }
}

proof fn lemma_nearest_in(s: Seq<MonitorEdge>, target: EdgeType, coord: int, find_max: bool)
    ensures
        nearest_by_distance(s, target, coord, find_max).0 matches Some(e) ==> s.contains(e),
    decreases s.len(),
{
    if s.len() > 0 {
        lemma_nearest_in(s.drop_last(), target, coord, find_max);
        let r = nearest_by_distance(s.drop_last(), target, coord, find_max).0;
        if r is Some {
            let j = choose|j: int| 0 <= j < s.drop_last().len() && s.drop_last()[j] == r.unwrap();
            assert(s[j] == r.unwrap());
        }
        assert(s[s.len() - 1] == s.last());
    }
}

proof fn lemma_outer_edges_valid(v: TopologyView, e: MonitorEdge, tt: EdgeType, c: int, fm: bool)
    requires
        v.inv(),
        nearest_by_distance(v.outer_edges, tt, c, fm).0 == Some(e),
    ensures
        e.end >= i32::MIN + 2,
{
    lemma_nearest_in(v.outer_edges, tt, c, fm);
    lemma_outer_of_subset(v.edges, e);
    let k = choose|k: int| 0 <= k < v.edges.len() && v.edges[k] == e;
    lemma_base_edge_facts(v.monitors, k);
}

/// Edge adjacency does not depend on the order of the two edges.
pub proof fn lemma_adjacency_symmetric(e1: MonitorEdge, e2: MonitorEdge, tol: int)
    ensures
        edges_adjacent(e1, e2, tol) == edges_adjacent(e2, e1, tol),
{
}

/// Every recorded outer edge is an edge of the table that touches no edge of
/// another monitor.
pub proof fn lemma_outer_edges_are_outer(s: Seq<MonitorEdge>, e: MonitorEdge)
    requires
        outer_of(s).contains(e),
    ensures
        s.contains(e),
        e.is_outer,
    decreases s.len(),
{
    lemma_outer_of_subset(s, e);
    lemma_outer_all_outer(s);
    let i = choose|i: int| 0 <= i < outer_of(s).len() && outer_of(s)[i] == e;
}

proof fn lemma_outer_all_outer(s: Seq<MonitorEdge>)
    ensures
        forall|i: int| 0 <= i < outer_of(s).len() ==> (#[trigger] outer_of(s)[i]).is_outer,
    decreases s.len(),
{
    if s.len() > 0 {
        lemma_outer_all_outer(s.drop_last());
    }
}

} // verus!
