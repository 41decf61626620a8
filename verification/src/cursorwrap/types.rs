//! Geometry types for cursor wrapping.

use vstd::prelude::*;

verus! {

/// A point in screen coordinates.
#[derive(Debug, Clone, Copy, PartialEq, Eq, Structural)]
pub struct Point {
    pub x: i32,
    pub y: i32,
}

/// A rectangle: left/top inclusive, right/bottom exclusive.
#[derive(Debug, Clone, Copy, PartialEq, Eq, Structural)]
pub struct Rect {
    pub left: i32,
    pub top: i32,
    pub right: i32,
    pub bottom: i32,
}

impl Rect {
    pub fn width(&self) -> (w: i32)
        requires
            i32::MIN <= self.right - self.left <= i32::MAX,
        ensures
            w == self.right - self.left,
    {
        self.right - self.left
    }

    pub fn height(&self) -> (h: i32)
        requires
            i32::MIN <= self.bottom - self.top <= i32::MAX,
        ensures
            h == self.bottom - self.top,
    {
        self.bottom - self.top
    }
}

/// A monitor: its rectangle, whether it is primary, and a stable id.
#[derive(Debug, Clone, Copy)]
pub struct MonitorInfo {
    pub rect: Rect,
    pub is_primary: bool,
    pub monitor_id: i32,
}

/// Which edge of a monitor rectangle. The variant order gives the codes 0..=3.
#[derive(Debug, Clone, Copy, PartialEq, Eq, PartialOrd, Ord, Hash, Structural)]
pub enum EdgeType {
    Left,
    Right,
    Top,
    Bottom,
}

/// Which wrap directions are active. The variant order gives the codes 0..=2.
#[derive(Debug, Clone, Copy, PartialEq, Eq, Structural)]
pub enum WrapMode {
    Both,
    VerticalOnly,
    HorizontalOnly,
}

/// Cursor movement since the previous position.
#[derive(Debug, Clone, Copy, PartialEq, Eq, Structural)]
pub struct CursorDirection {
    pub dx: i32,
    pub dy: i32,
}

pub open spec fn abs_int(v: int) -> int {
    if v < 0 {
        -v
    } else {
        v
    }
}

impl CursorDirection {
    pub fn is_moving_left(&self) -> (b: bool)
        ensures
            b == (self.dx < 0),
    {
        self.dx < 0
    }

    pub fn is_moving_right(&self) -> (b: bool)
        ensures
            b == (self.dx > 0),
    {
        self.dx > 0
    }

    pub fn is_moving_up(&self) -> (b: bool)
        ensures
            b == (self.dy < 0),
    {
        self.dy < 0
    }

    pub fn is_moving_down(&self) -> (b: bool)
        ensures
            b == (self.dy > 0),
    {
        self.dy > 0
    }

    pub open spec fn primarily_horizontal(self) -> bool {
        abs_int(self.dx as int) >= abs_int(self.dy as int)
    }

    /// Whether the horizontal movement is at least as large as the vertical one.
    pub fn is_primarily_horizontal(&self) -> (b: bool)
        ensures
            b == self.primarily_horizontal(),
    {
        let ax: i64 = if self.dx < 0 {
            -(self.dx as i64)
        } else {
            self.dx as i64
        };
        let ay: i64 = if self.dy < 0 {
            -(self.dy as i64)
        } else {
            self.dy as i64
        };
        ax >= ay
    }
}

/// One edge of a monitor.
#[derive(Debug, Clone, Copy, PartialEq, Eq, Structural)]
pub struct MonitorEdge {
    pub monitor_index: i32,
    pub edge_type: EdgeType,
    /// X for left/right edges, Y for top/bottom edges.
    pub position: i32,
    /// Start of the edge's extent along the other axis.
    pub start: i32,
    /// End of the edge's extent along the other axis.
    pub end: i32,
    /// True when no edge of another monitor touches this one.
    pub is_outer: bool,
}

/// The result of looking for an edge to wrap to.
#[derive(Debug, Clone, Copy, PartialEq, Eq, Structural)]
pub struct OppositeEdgeResult {
    pub edge: MonitorEdge,
    pub found: bool,
    pub requires_projection: bool,
    pub projected_coordinate: i32,
}

pub open spec fn not_found_result() -> OppositeEdgeResult {
    OppositeEdgeResult {
        edge: MonitorEdge {
            monitor_index: -1i32,
            edge_type: EdgeType::Left,
            position: 0i32,
            start: 0i32,
            end: 0i32,
            is_outer: false,
        },
        found: false,
        requires_projection: false,
        projected_coordinate: 0i32,
    }
}

impl OppositeEdgeResult {
    /// The result that reports no edge.
    pub fn not_found() -> (r: Self)
        ensures
            r == not_found_result(),
    {
        OppositeEdgeResult {
            edge: MonitorEdge {
                monitor_index: -1,
                edge_type: EdgeType::Left,
                position: 0,
                start: 0,
                end: 0,
                is_outer: false,
            },
            found: false,
            requires_projection: false,
            projected_coordinate: 0,
        }
    }
}

} // verus!
