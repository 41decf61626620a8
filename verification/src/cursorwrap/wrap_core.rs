//! The cursor wrapping engine: turns each mouse position into the position
//! the cursor should take.

use vstd::prelude::*;
use super::types::{CursorDirection, MonitorInfo, Point, WrapMode};
use super::topology::{outer_edge_at, valid_monitors, wrap_destination, MonitorTopology, TopologyView};

verus! {

/// Distance (pixels) from the last wrap destination within which no new wrap
/// happens, so that the cursor does not bounce back and forth.
pub const WRAP_DISTANCE_THRESHOLD: i32 = 50;

/// The abstract state of the engine.
pub struct WrapCoreView {
    pub monitor_count: nat,
    pub topology: TopologyView,
    pub previous_position: Point,
    pub has_previous_position: bool,
    pub last_wrap_destination: Point,
    pub has_last_wrap_destination: bool,
}

/// `v` clamped to the range of `i32`.
pub open spec fn clamp_i32(v: int) -> i32 {
    if v < i32::MIN {
        i32::MIN
    } else if v > i32::MAX {
        i32::MAX
    } else {
        v as i32
    }
}

/// The wrap mode with the given code; unknown codes mean both directions.
pub open spec fn wrap_mode_of_code(code: int) -> WrapMode {
    if code == 1 {
        WrapMode::VerticalOnly
    } else if code == 2 {
        WrapMode::HorizontalOnly
    } else {
        WrapMode::Both
    }
}

pub open spec fn first_monitor_at(t: TopologyView, p: Point) -> Option<int> {
    if exists|i: int| 0 <= i < t.monitors.len() && super::topology::rect_contains(#[trigger] t.monitors[i].rect, p) {
        Some(choose|i: int|
            0 <= i < t.monitors.len() && super::topology::rect_contains(t.monitors[i].rect, p) && forall|j: int|
                0 <= j < i ==> !super::topology::rect_contains(#[trigger] t.monitors[j].rect, p))
    } else {
        None
    }
}

impl WrapCoreView {
    /// The cursor is still within the threshold of the last wrap destination.
    pub open spec fn within_threshold(self, p: Point) -> bool {
        let dx = p.x - self.last_wrap_destination.x;
        let dy = p.y - self.last_wrap_destination.y;
        self.has_last_wrap_destination && dx * dx + dy * dy <= WRAP_DISTANCE_THRESHOLD
            * WRAP_DISTANCE_THRESHOLD
    }

    /// Movement since the previous position (each part clamped to `i32`).
    pub open spec fn direction(self, p: Point) -> CursorDirection {
        if self.has_previous_position {
            CursorDirection {
                dx: clamp_i32(p.x - self.previous_position.x),
                dy: clamp_i32(p.y - self.previous_position.y),
            }
        } else {
            CursorDirection { dx: 0, dy: 0 }
        }
    }

    pub open spec fn moved_to(self, p: Point) -> WrapCoreView {
        WrapCoreView { previous_position: p, has_previous_position: true, ..self }
    }

    /// The new state and cursor position after a move to `p`.
    pub open spec fn handle_move(self, p: Point, disable_during_drag: bool, left_down: bool, mode_code: int, disable_on_single: bool) -> (WrapCoreView, Point) {
        if disable_on_single && self.monitor_count <= 1 {
            (self.moved_to(p), p)
        } else if disable_during_drag && left_down {
            (self.moved_to(p), p)
        } else if self.within_threshold(p) {
            (self.moved_to(p), p)
        } else {
            let s = WrapCoreView { has_last_wrap_destination: false, ..self };
            let mode = wrap_mode_of_code(mode_code);
            let dir = self.direction(p);
            match first_monitor_at(self.topology, p) {
                None => (s.moved_to(p), p),
                Some(mi) => match outer_edge_at(self.topology, mi, p, mode, Some(dir)) {
                    None => (s.moved_to(p), p),
                    Some(edge) => {
                        let np = wrap_destination(self.topology, mi, p, edge);
                        if np != p {
                            (WrapCoreView { last_wrap_destination: np, has_last_wrap_destination: true, ..s.moved_to(p) }, np)
                        } else {
                            (s.moved_to(p), np)
                        }
                    },
                },
            }
        }
    }
}

/// The cursor wrapping engine.
pub struct CursorWrapCore {
    monitor_count: usize,
    topology: MonitorTopology,
    previous_position: Point,
    has_previous_position: bool,
    last_wrap_destination: Point,
    has_last_wrap_destination: bool,
}

impl View for CursorWrapCore {
    type V = WrapCoreView;

    closed spec fn view(&self) -> WrapCoreView {
        WrapCoreView {
            monitor_count: self.monitor_count as nat,
            topology: self.topology@,
            previous_position: self.previous_position,
            has_previous_position: self.has_previous_position,
            last_wrap_destination: self.last_wrap_destination,
            has_last_wrap_destination: self.has_last_wrap_destination,
        }
    }
}

impl CursorWrapCore {
    pub fn new() -> (c: Self)
        ensures
            c@.monitor_count == 0,
            c@.topology.monitors.len() == 0,
            c@.topology.outer_edges.len() == 0,
            c@.previous_position == (Point { x: i32::MIN, y: i32::MIN }),
            !c@.has_previous_position,
            c@.last_wrap_destination == (Point { x: i32::MIN, y: i32::MIN }),
            !c@.has_last_wrap_destination,
    {
        CursorWrapCore {
            monitor_count: 0,
            topology: MonitorTopology::new(),
            previous_position: Point { x: i32::MIN, y: i32::MIN },
            has_previous_position: false,
            last_wrap_destination: Point { x: i32::MIN, y: i32::MIN },
            has_last_wrap_destination: false,
        }
    }

    /// Takes a new monitor layout.
    pub fn initialize(&mut self, monitors: &[MonitorInfo])
        requires
            valid_monitors(monitors@),
        ensures
            final(self)@.monitor_count == monitors@.len(),
            final(self)@.topology.monitors == monitors@,
            final(self)@.topology.edges == super::topology::edge_table(monitors@),
            final(self)@.topology.outer_edges == super::topology::outer_of(super::topology::edge_table(monitors@)),
            final(self)@.previous_position == old(self)@.previous_position,
            final(self)@.has_previous_position == old(self)@.has_previous_position,
            final(self)@.last_wrap_destination == old(self)@.last_wrap_destination,
            final(self)@.has_last_wrap_destination == old(self)@.has_last_wrap_destination,
    {
        self.monitor_count = monitors.len();
        self.topology.initialize(monitors);
    }

    /// Handles a mouse move to `current_pos` and returns where the cursor
    /// should go. `wrap_mode` is 0 (both), 1 (vertical only) or 2
    /// (horizontal only).
    pub fn handle_mouse_move(&mut self, current_pos: Point, disable_wrap_during_drag: bool, left_button_down: bool, wrap_mode: i32, disable_on_single_monitor: bool) -> (p: Point)
        ensures
            (final(self)@, p) == old(self)@.handle_move(current_pos, disable_wrap_during_drag, left_button_down, wrap_mode as int, disable_on_single_monitor),
    {
        if disable_on_single_monitor && self.monitor_count <= 1 {
            self.update_previous(current_pos);
            return current_pos;
        }
        if disable_wrap_during_drag && left_button_down {
            self.update_previous(current_pos);
            return current_pos;
        }
        if self.is_within_wrap_threshold(current_pos) {
            self.update_previous(current_pos);
            return current_pos;
        }
        self.has_last_wrap_destination = false;
        let direction = self.calculate_direction(current_pos);
        let mode = match wrap_mode {
            1 => WrapMode::VerticalOnly,
            2 => WrapMode::HorizontalOnly,
            _ => WrapMode::Both,
        };
        let monitor_index = match self.topology.monitor_index_at_point(current_pos) {
            Some(idx) => idx,
            None => {
                proof {
                    assert(first_monitor_at(old(self)@.topology, current_pos) is None);
                }
                self.update_previous(current_pos);
                return current_pos;
            },
        };
        proof {
            let t = old(self)@.topology;
            let mi = monitor_index as int;
            assert(super::topology::rect_contains(t.monitors[mi].rect, current_pos));
            let c = choose|i: int|
                0 <= i < t.monitors.len() && super::topology::rect_contains(t.monitors[i].rect, current_pos) && forall|j: int|
                    0 <= j < i ==> !super::topology::rect_contains(#[trigger] t.monitors[j].rect, current_pos);
            if c < mi {
            } else if c > mi {
            }
            assert(first_monitor_at(t, current_pos) == Some(mi));
        }
        let edge_type = match self.topology.is_on_outer_edge(monitor_index, current_pos, mode, Some(&direction)) {
            Some(et) => et,
            None => {
                self.update_previous(current_pos);
                return current_pos;
            },
        };
        let new_pos = self.topology.get_wrap_destination(monitor_index, current_pos, edge_type);
        self.update_previous(current_pos);
        if new_pos != current_pos {
            self.last_wrap_destination = new_pos;
            self.has_last_wrap_destination = true;
        }
        new_pos
    }

    /// Forgets the previous position and the last wrap.
    pub fn reset_wrap_state(&mut self)
        ensures
            final(self)@ == (WrapCoreView {
                previous_position: Point { x: i32::MIN, y: i32::MIN },
                has_previous_position: false,
                last_wrap_destination: Point { x: i32::MIN, y: i32::MIN },
                has_last_wrap_destination: false,
                ..old(self)@
            }),
    {
        self.has_previous_position = false;
        self.has_last_wrap_destination = false;
        self.previous_position = Point { x: i32::MIN, y: i32::MIN };
        self.last_wrap_destination = Point { x: i32::MIN, y: i32::MIN };
    }

    pub fn monitor_count(&self) -> (n: usize)
        ensures
            n == self@.monitor_count,
    {
        self.monitor_count
    }

    pub fn topology(&self) -> (t: &MonitorTopology)
        ensures
            t@ == self@.topology,
    {
        &self.topology
    }

    fn update_previous(&mut self, pos: Point)
        ensures
            final(self)@ == old(self)@.moved_to(pos),
    {
        self.previous_position = pos;
        self.has_previous_position = true;
    }

    fn calculate_direction(&self, current_pos: Point) -> (d: CursorDirection)
        ensures
            d == self@.direction(current_pos),
    {
        if self.has_previous_position {
            CursorDirection {
                dx: clamp_to_i32(current_pos.x as i64 - self.previous_position.x as i64),
                dy: clamp_to_i32(current_pos.y as i64 - self.previous_position.y as i64),
            }
        } else {
            CursorDirection { dx: 0, dy: 0 }
        }
    }

    fn is_within_wrap_threshold(&self, current_pos: Point) -> (b: bool)
        ensures
            b == self@.within_threshold(current_pos),
    {
        if !self.has_last_wrap_destination {
            return false;
        }
        let dx: i64 = current_pos.x as i64 - self.last_wrap_destination.x as i64;
        let dy: i64 = current_pos.y as i64 - self.last_wrap_destination.y as i64;
        if dx > 50 || dx < -50 || dy > 50 || dy < -50 {
            proof {
                assert(dx * dx > 2500 || dy * dy > 2500) by (nonlinear_arith)
                    requires
                        dx > 50 || dx < -50 || dy > 50 || dy < -50,
                ;
                assert(dx * dx >= 0 && dy * dy >= 0) by (nonlinear_arith);
            }
            return false;
        }
        assert(0 <= dx * dx <= 2500) by (nonlinear_arith)
            requires
                -50 <= dx <= 50,
        ;
        assert(0 <= dy * dy <= 2500) by (nonlinear_arith)
            requires
                -50 <= dy <= 50,
        ;
        let sx = dx * dx;
        let sy = dy * dy;
        sx + sy <= (WRAP_DISTANCE_THRESHOLD as i64) * (WRAP_DISTANCE_THRESHOLD as i64)
    }
}

fn clamp_to_i32(v: i64) -> (r: i32)
    ensures
        r == clamp_i32(v as int),
{
    if v < i32::MIN as i64 {
        i32::MIN
    } else if v > i32::MAX as i64 {
        i32::MAX
    } else {
        v as i32
    }
}

} // verus!
