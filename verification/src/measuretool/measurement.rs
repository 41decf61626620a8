//! The pixel rectangles a measurement covers, before conversion to units.

use vstd::prelude::*;
use crate::measuretool::edge_detector::{detect_edges, edge_from, walkable};
use crate::measuretool::types::{IRect, MeasureMode, PixelBuffer, Point};

verus! {

/// The bounds of the region of similar pixels around the cursor.
pub open spec fn detected(b: &PixelBuffer, c: Point, tolerance: u8, per_channel: bool) -> IRect {
    IRect {
        left: edge_from(b, c, tolerance, per_channel, true, false) as i32,
        top: edge_from(b, c, tolerance, per_channel, false, false) as i32,
        right: edge_from(b, c, tolerance, per_channel, true, true) as i32,
        bottom: edge_from(b, c, tolerance, per_channel, false, true) as i32,
    }
}

/// The horizontal line through the cursor between the region's sides.
pub open spec fn horizontal_of(e: IRect, c: Point) -> IRect {
    IRect { left: e.left, top: c.y, right: e.right, bottom: c.y }
}

/// The vertical line through the cursor between the region's top and bottom.
pub open spec fn vertical_of(e: IRect, c: Point) -> IRect {
    IRect { left: c.x, top: e.top, right: c.x, bottom: e.bottom }
}

/// The rectangle a mode measures: the whole region for the cross and the
/// bounds modes, one of its lines through the cursor otherwise.
pub open spec fn mode_rect(e: IRect, c: Point, mode: MeasureMode) -> IRect {
    match mode {
        MeasureMode::Cross | MeasureMode::Bounds => e,
        MeasureMode::Horizontal => horizontal_of(e, c),
        MeasureMode::Vertical => vertical_of(e, c),
    }
}

fn edges(buffer: &PixelBuffer, cursor: Point, per_channel: bool, tolerance: u8) -> (r: IRect)
    requires
        walkable(buffer),
    ensures
        r == detected(buffer, cursor, tolerance, per_channel),
{
    detect_edges(buffer, cursor, per_channel, tolerance)
}

/// The pixel rectangle measured at the cursor in a mode.
pub fn measured_rect(buffer: &PixelBuffer, cursor: Point, mode: MeasureMode, per_channel: bool, tolerance: u8) -> (r:
    IRect)
    requires
        walkable(buffer),
    ensures
        r == mode_rect(detected(buffer, cursor, tolerance, per_channel), cursor, mode),
{
    let e = edges(buffer, cursor, per_channel, tolerance);
    match mode {
        MeasureMode::Cross | MeasureMode::Bounds => e,
        MeasureMode::Horizontal => IRect::new(e.left, cursor.y, e.right, cursor.y),
        MeasureMode::Vertical => IRect::new(cursor.x, e.top, cursor.x, e.bottom),
    }
}

/// The horizontal and the vertical line measured at the cursor.
pub fn cross_rects(buffer: &PixelBuffer, cursor: Point, per_channel: bool, tolerance: u8) -> (r: (IRect, IRect))
    requires
        walkable(buffer),
    ensures
        r.0 == horizontal_of(detected(buffer, cursor, tolerance, per_channel), cursor),
        r.1 == vertical_of(detected(buffer, cursor, tolerance, per_channel), cursor),
{
    let e = edges(buffer, cursor, per_channel, tolerance);
    (IRect::new(e.left, cursor.y, e.right, cursor.y), IRect::new(cursor.x, e.top, cursor.x, e.bottom))
}

/// The rectangle spanned by two corners dragged out, in either order.
pub fn bounds_rect(start: Point, end: Point) -> (r: IRect)
    ensures
        r.left == (if start.x <= end.x { start.x } else { end.x }),
        r.top == (if start.y <= end.y { start.y } else { end.y }),
        r.right == (if start.x >= end.x { start.x } else { end.x }),
        r.bottom == (if start.y >= end.y { start.y } else { end.y }),
{
    IRect::new(
        if start.x <= end.x { start.x } else { end.x },
        if start.y <= end.y { start.y } else { end.y },
        if start.x >= end.x { start.x } else { end.x },
        if start.y >= end.y { start.y } else { end.y },
    )
}

} // verus!
