//! Where the cursor position comes from, the screen it is on, and the
//! rectangles of the crosshair lines around it.
//!
//! The lines are laid out in half pixels: every coordinate is doubled, so
//! that the half-pixel shift of an odd line thickness is a whole number.

use vstd::prelude::*;
use crate::crosshairs::types::{CrosshairsOrientation, Settings};

verus! {

/// The cursor position, from the mouse hook or given by another module.
#[derive(Debug, Clone, Copy, PartialEq, Eq, Structural)]
pub enum CursorSource {
    Hook { x: i32, y: i32 },
    External { x: i32, y: i32 },
}

impl CursorSource {
    /// The position, whatever its source.
    pub fn position(&self) -> (p: (i32, i32))
        ensures
            p == match *self {
                CursorSource::Hook { x, y } => (x, y),
                CursorSource::External { x, y } => (x, y),
            },
    {
        match *self {
            CursorSource::Hook { x, y } => (x, y),
            CursorSource::External { x, y } => (x, y),
        }
    }
}

/// A screen's bounds.
#[derive(Debug, Clone, Copy, PartialEq, Eq, Structural)]
pub struct ScreenBounds {
    pub left: i32,
    pub top: i32,
    pub right: i32,
    pub bottom: i32,
}


/// A rectangle in half pixels (every value doubled).
#[derive(Debug, Clone, Copy, PartialEq, Eq, Structural)]
pub struct HalfRect {
    pub x: i64,
    pub y: i64,
    pub width: i64,
    pub height: i64,
}

impl HalfRect {
    /// The empty rectangle at the origin.
    pub fn zero() -> (r: Self)
        ensures
            r == (HalfRect { x: 0, y: 0, width: 0, height: 0 }),
    {
        HalfRect { x: 0, y: 0, width: 0, height: 0 }
    }
}

/// The eight rectangles of a crosshair: four lines and their borders.
#[derive(Debug, Clone, Copy, PartialEq, Eq, Structural)]
pub struct HalfLayout {
    pub left_inner: HalfRect,
    pub right_inner: HalfRect,
    pub top_inner: HalfRect,
    pub bottom_inner: HalfRect,
    pub left_border: HalfRect,
    pub right_border: HalfRect,
    pub top_border: HalfRect,
    pub bottom_border: HalfRect,
}

pub open spec fn half_rect(x: int, y: int, width: int, height: int) -> HalfRect {
    HalfRect { x: x as i64, y: y as i64, width: width as i64, height: height as i64 }
}

pub open spec fn zero_rect() -> HalfRect {
    HalfRect { x: 0, y: 0, width: 0, height: 0 }
}

/// The half-pixel shift of an odd thickness, in half pixels.
pub open spec fn half_shift(thickness: i32) -> int {
    if thickness > 0 && thickness % 2 == 1 {
        1
    } else {
        0
    }
}

/// The left and right lines and their borders (left, right, left border,
/// right border), in half pixels. An arm reaches from the screen edge to the
/// radius gap around the cursor, or has the fixed length; its border is one
/// border size longer at the gap (two border sizes for a fixed length) and
/// one border size wider on each side.
pub open spec fn horizontal_arms(cx: int, cy: int, b: ScreenBounds, s: Settings) -> (HalfRect, HalfRect, HalfRect, HalfRect) {
    let r = 2 * s.radius;
    let t = 2 * s.thickness;
    let bs = 2 * s.border_size;
    let fl = 2 * s.fixed_length;
    let h = half_shift(s.thickness);
    let bsp = 2 * bs;
    let left_full = cx - 2 * b.left - r + 2 * h;
    let left_len = if s.is_fixed_length_enabled { fl } else { left_full };
    let left_border_len = if s.is_fixed_length_enabled { fl + bsp } else { left_full + bs };
    let left_anchor_x = cx - r + 2 * h;
    let left_anchor_y = cy + h;
    let right_full = 2 * b.right - cx - r;
    let right_len = if s.is_fixed_length_enabled { fl } else { right_full };
    let right_border_len = if s.is_fixed_length_enabled { fl + bsp } else { right_full + bs };
    (
        half_rect(left_anchor_x - left_len, left_anchor_y - t / 2, left_len, t),
        half_rect(cx + r, cy + h - t / 2, right_len, t),
        half_rect(cx - r + bs + 2 * h - left_border_len, left_anchor_y - (t + bsp) / 2, left_border_len, t + bsp),
        half_rect(cx + r - bs, cy + h - (t + bsp) / 2, right_border_len, t + bsp),
    )
}

/// The top and bottom lines and their borders (top, bottom, top border,
/// bottom border), in half pixels.
pub open spec fn vertical_arms(cx: int, cy: int, b: ScreenBounds, s: Settings) -> (HalfRect, HalfRect, HalfRect, HalfRect) {
    let r = 2 * s.radius;
    let t = 2 * s.thickness;
    let bs = 2 * s.border_size;
    let fl = 2 * s.fixed_length;
    let h = half_shift(s.thickness);
    let bsp = 2 * bs;
    let top_full = cy - 2 * b.top - r + 2 * h;
    let top_len = if s.is_fixed_length_enabled { fl } else { top_full };
    let top_border_len = if s.is_fixed_length_enabled { fl + bsp } else { top_full + bs };
    let top_anchor_x = cx + h;
    let top_anchor_y = cy - r + 2 * h;
    let bottom_full = 2 * b.bottom - cy - r;
    let bottom_len = if s.is_fixed_length_enabled { fl } else { bottom_full };
    let bottom_border_len = if s.is_fixed_length_enabled { fl + bsp } else { bottom_full + bs };
    (
        half_rect(top_anchor_x - t / 2, top_anchor_y - top_len, t, top_len),
        half_rect(cx + h - t / 2, cy + r, t, bottom_len),
        half_rect(top_anchor_x - (t + bsp) / 2, cy - r + bs + 2 * h - top_border_len, t + bsp, top_border_len),
        half_rect(cx + h - (t + bsp) / 2, cy + r - bs, t + bsp, bottom_border_len),
    )
}

/// The crosshair around a cursor, in half pixels: the arms of the
/// orientation's lines, the others empty.
pub open spec fn crosshair_layout(cursor_x: i32, cursor_y: i32, b: ScreenBounds, s: Settings) -> HalfLayout {
    let cx = 2 * cursor_x;
    let cy = 2 * cursor_y;
    let horizontal = s.orientation == CrosshairsOrientation::Both || s.orientation
        == CrosshairsOrientation::HorizontalOnly;
    let vertical = s.orientation == CrosshairsOrientation::Both || s.orientation
        == CrosshairsOrientation::VerticalOnly;
    let (li, ri, lb, rb) = if horizontal {
        horizontal_arms(cx, cy, b, s)
    } else {
        (zero_rect(), zero_rect(), zero_rect(), zero_rect())
    };
    let (ti, bi, tb, bb) = if vertical {
        vertical_arms(cx, cy, b, s)
    } else {
        (zero_rect(), zero_rect(), zero_rect(), zero_rect())
    };
    HalfLayout {
        left_inner: li,
        right_inner: ri,
        top_inner: ti,
        bottom_inner: bi,
        left_border: lb,
        right_border: rb,
        top_border: tb,
        bottom_border: bb,
    }
}

fn horizontal_arms_exec(cx: i64, cy: i64, b: ScreenBounds, s: &Settings) -> (r: (HalfRect, HalfRect, HalfRect, HalfRect))
    requires
        i32::MIN * 2 <= cx <= i32::MAX * 2,
        i32::MIN * 2 <= cy <= i32::MAX * 2,
    ensures
        r == horizontal_arms(cx as int, cy as int, b, *s),
{
    let r = 2 * (s.radius as i64);
    let t = 2 * (s.thickness as i64);
    let bs = 2 * (s.border_size as i64);
    let fl = 2 * (s.fixed_length as i64);
    let h: i64 = if s.thickness > 0 && s.thickness % 2 == 1 {
        1
    } else {
        0
    };
    let bsp = 2 * bs;
    let fixed = s.is_fixed_length_enabled;
    let left_full = cx - 2 * (b.left as i64) - r + 2 * h;
    let left_len = if fixed { fl } else { left_full };
    let left_border_len = if fixed { fl + bsp } else { left_full + bs };
    let left_anchor_x = cx - r + 2 * h;
    let left_anchor_y = cy + h;
    let right_full = 2 * (b.right as i64) - cx - r;
    let right_len = if fixed { fl } else { right_full };
    let right_border_len = if fixed { fl + bsp } else { right_full + bs };
    (
        HalfRect { x: left_anchor_x - left_len, y: left_anchor_y - t / 2, width: left_len, height: t },
        HalfRect { x: cx + r, y: cy + h - t / 2, width: right_len, height: t },
        HalfRect {
            x: cx - r + bs + 2 * h - left_border_len,
            y: left_anchor_y - (t + bsp) / 2,
            width: left_border_len,
            height: t + bsp,
        },
        HalfRect { x: cx + r - bs, y: cy + h - (t + bsp) / 2, width: right_border_len, height: t + bsp },
    )
}

fn vertical_arms_exec(cx: i64, cy: i64, b: ScreenBounds, s: &Settings) -> (r: (HalfRect, HalfRect, HalfRect, HalfRect))
    requires
        i32::MIN * 2 <= cx <= i32::MAX * 2,
        i32::MIN * 2 <= cy <= i32::MAX * 2,
    ensures
        r == vertical_arms(cx as int, cy as int, b, *s),
{
    let r = 2 * (s.radius as i64);
    let t = 2 * (s.thickness as i64);
    let bs = 2 * (s.border_size as i64);
    let fl = 2 * (s.fixed_length as i64);
    let h: i64 = if s.thickness > 0 && s.thickness % 2 == 1 {
        1
    } else {
        0
    };
    let bsp = 2 * bs;
    let fixed = s.is_fixed_length_enabled;
    let top_full = cy - 2 * (b.top as i64) - r + 2 * h;
    let top_len = if fixed { fl } else { top_full };
    let top_border_len = if fixed { fl + bsp } else { top_full + bs };
    let top_anchor_x = cx + h;
    let top_anchor_y = cy - r + 2 * h;
    let bottom_full = 2 * (b.bottom as i64) - cy - r;
    let bottom_len = if fixed { fl } else { bottom_full };
    let bottom_border_len = if fixed { fl + bsp } else { bottom_full + bs };
    (
        HalfRect { x: top_anchor_x - t / 2, y: top_anchor_y - top_len, width: t, height: top_len },
        HalfRect { x: cx + h - t / 2, y: cy + r, width: t, height: bottom_len },
        HalfRect {
            x: top_anchor_x - (t + bsp) / 2,
            y: cy - r + bs + 2 * h - top_border_len,
            width: t + bsp,
            height: top_border_len,
        },
        HalfRect { x: cx + h - (t + bsp) / 2, y: cy + r - bs, width: t + bsp, height: bottom_border_len },
    )
}

/// The crosshair rectangles around the cursor on a screen, in half pixels.
pub fn layout_half_pixels(cursor_x: i32, cursor_y: i32, screen_bounds: ScreenBounds, settings: &Settings) -> (l:
    HalfLayout)
    ensures
        l == crosshair_layout(cursor_x, cursor_y, screen_bounds, *settings),
{
    let cx = 2 * (cursor_x as i64);
    let cy = 2 * (cursor_y as i64);
    let horizontal = match settings.orientation {
        CrosshairsOrientation::Both | CrosshairsOrientation::HorizontalOnly => true,
        _ => false,
    };
    let vertical = match settings.orientation {
        CrosshairsOrientation::Both | CrosshairsOrientation::VerticalOnly => true,
        _ => false,
    };
    let (li, ri, lb, rb) = if horizontal {
        horizontal_arms_exec(cx, cy, screen_bounds, settings)
    } else {
        (HalfRect::zero(), HalfRect::zero(), HalfRect::zero(), HalfRect::zero())
    };
    let (ti, bi, tb, bb) = if vertical {
        vertical_arms_exec(cx, cy, screen_bounds, settings)
    } else {
        (HalfRect::zero(), HalfRect::zero(), HalfRect::zero(), HalfRect::zero())
    };
    HalfLayout {
        left_inner: li,
        right_inner: ri,
        top_inner: ti,
        bottom_inner: bi,
        left_border: lb,
        right_border: rb,
        top_border: tb,
        bottom_border: bb,
    }
}

/// The crosshair around the cursor of a source; the source does not matter,
/// only the position.
pub fn layout_half_pixels_ext(cursor: CursorSource, screen_bounds: ScreenBounds, settings: &Settings) -> (l:
    HalfLayout)
    ensures
        l == layout_of_source(cursor, screen_bounds, *settings),
{
    let (x, y) = cursor.position();
    layout_half_pixels(x, y, screen_bounds, settings)
}

impl CursorSource {
    pub open spec fn position_spec(self) -> (i32, i32) {
        match self {
            CursorSource::Hook { x, y } => (x, y),
            CursorSource::External { x, y } => (x, y),
        }
    }
}

/// The crosshair around the cursor of a source.
pub open spec fn layout_of_source(cursor: CursorSource, b: ScreenBounds, s: Settings) -> HalfLayout {
    crosshair_layout(cursor.position_spec().0, cursor.position_spec().1, b, s)
}

/// The hook and an outside module reporting the same position give the
/// same crosshair.
pub proof fn lemma_source_irrelevant(x: i32, y: i32, b: ScreenBounds, s: Settings)
    ensures
        layout_of_source((CursorSource::Hook { x, y }), b, s) == layout_of_source(
            (CursorSource::External { x, y }),
            b,
            s,
        ),
{
}

/// Away from fixed lengths, each line ends at the radius gap around the
/// cursor: the left line's right end and the right line's left end lie the
/// radius away from it (shifted by half a pixel for odd thicknesses), and
/// each border reaches one border size past its line at the gap.
pub proof fn lemma_radius_gap(cursor_x: i32, cursor_y: i32, b: ScreenBounds, s: Settings)
    requires
        s.orientation == CrosshairsOrientation::Both,
    ensures
        ({
            let l = crosshair_layout(cursor_x, cursor_y, b, s);
            let h = half_shift(s.thickness);
            &&& l.left_inner.x + l.left_inner.width == 2 * cursor_x - 2 * s.radius + 2 * h
            &&& l.right_inner.x == 2 * cursor_x + 2 * s.radius
            &&& l.top_inner.y + l.top_inner.height == 2 * cursor_y - 2 * s.radius + 2 * h
            &&& l.bottom_inner.y == 2 * cursor_y + 2 * s.radius
            &&& l.left_border.x + l.left_border.width == l.left_inner.x + l.left_inner.width + 2 * s.border_size
            &&& l.right_border.x == l.right_inner.x - 2 * s.border_size
            &&& l.top_border.y + l.top_border.height == l.top_inner.y + l.top_inner.height + 2 * s.border_size
            &&& l.bottom_border.y == l.bottom_inner.y - 2 * s.border_size
        }),
{
}

} // verus!

verus! {

/// Away from fixed lengths, each line reaches the edge of the cursor's
/// screen: the left line and its border start at the screen's left edge, the
/// right ones end at its right edge, the top ones start at its top edge and
/// the bottom ones end at its bottom edge (all in half pixels). With a fixed
/// length, each line is that long.
pub proof fn lemma_arms_reach_screen_edges(cursor_x: i32, cursor_y: i32, b: ScreenBounds, s: Settings)
    ensures
        ({
            let l = crosshair_layout(cursor_x, cursor_y, b, s);
            let horizontal = s.orientation == CrosshairsOrientation::Both || s.orientation
                == CrosshairsOrientation::HorizontalOnly;
            let vertical = s.orientation == CrosshairsOrientation::Both || s.orientation
                == CrosshairsOrientation::VerticalOnly;
            &&& horizontal && !s.is_fixed_length_enabled ==> {
                &&& l.left_inner.x == 2 * b.left
                &&& l.left_border.x == 2 * b.left
                &&& l.right_inner.x + l.right_inner.width == 2 * b.right
                &&& l.right_border.x + l.right_border.width == 2 * b.right
            }
            &&& vertical && !s.is_fixed_length_enabled ==> {
                &&& l.top_inner.y == 2 * b.top
                &&& l.top_border.y == 2 * b.top
                &&& l.bottom_inner.y + l.bottom_inner.height == 2 * b.bottom
                &&& l.bottom_border.y + l.bottom_border.height == 2 * b.bottom
            }
            &&& horizontal && s.is_fixed_length_enabled ==> {
                &&& l.left_inner.width == 2 * s.fixed_length
                &&& l.right_inner.width == 2 * s.fixed_length
            }
            &&& vertical && s.is_fixed_length_enabled ==> {
                &&& l.top_inner.height == 2 * s.fixed_length
                &&& l.bottom_inner.height == 2 * s.fixed_length
            }
            &&& !horizontal ==> l.left_inner == zero_rect() && l.right_inner == zero_rect()
            &&& !vertical ==> l.top_inner == zero_rect() && l.bottom_inner == zero_rect()
        }),
{
}

} // verus!

verus! {

/// Each line is the configured thickness across and centred on the cursor
/// (shifted by half a pixel for odd thicknesses), and each border is two
/// border sizes thicker, centred the same way (all in half pixels).
pub proof fn lemma_arm_thickness(cursor_x: i32, cursor_y: i32, b: ScreenBounds, s: Settings)
    requires
        s.orientation == CrosshairsOrientation::Both,
    ensures
        ({
            let l = crosshair_layout(cursor_x, cursor_y, b, s);
            let h = half_shift(s.thickness);
            &&& l.left_inner.height == 2 * s.thickness && l.right_inner.height == 2 * s.thickness
            &&& l.top_inner.width == 2 * s.thickness && l.bottom_inner.width == 2 * s.thickness
            &&& l.left_inner.y == 2 * cursor_y + h - s.thickness && l.right_inner.y == 2 * cursor_y + h - s.thickness
            &&& l.top_inner.x == 2 * cursor_x + h - s.thickness && l.bottom_inner.x == 2 * cursor_x + h - s.thickness
            &&& l.left_border.height == 2 * s.thickness + 4 * s.border_size
            &&& l.right_border.height == 2 * s.thickness + 4 * s.border_size
            &&& l.top_border.width == 2 * s.thickness + 4 * s.border_size
            &&& l.bottom_border.width == 2 * s.thickness + 4 * s.border_size
            &&& l.left_border.y == 2 * cursor_y + h - s.thickness - 2 * s.border_size
            &&& l.right_border.y == 2 * cursor_y + h - s.thickness - 2 * s.border_size
            &&& l.top_border.x == 2 * cursor_x + h - s.thickness - 2 * s.border_size
            &&& l.bottom_border.x == 2 * cursor_x + h - s.thickness - 2 * s.border_size
        }),
{
}

} // verus!
