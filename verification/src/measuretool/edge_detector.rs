//! Edge detection in pixel buffers: from a point, walk outward until the
//! color changes beyond the tolerance.

use vstd::prelude::*;
use super::types::{close, IRect, PixelBuffer, Point};

verus! {

/// The pixel at position `k` on the line through `(x0, y0)` along x or y.
pub open spec fn line_pixel(b: &PixelBuffer, x0: int, y0: int, is_x: bool, k: int) -> u32 {
    if is_x {
        b.pixel(k, y0)
    } else {
        b.pixel(x0, k)
    }
}

/// Walking upward from position `k`: the last position still close to
/// `start` before a differing pixel, or `max - 1` at the buffer end.
pub open spec fn walk_up(b: &PixelBuffer, x0: int, y0: int, is_x: bool, start: u32, tolerance: u8, per_channel: bool, k: int, max: int) -> int
    decreases max - k,
{
    if k >= max {
        max - 1
    } else if !close(start, line_pixel(b, x0, y0, is_x, k), tolerance, per_channel) {
        k - 1
    } else {
        walk_up(b, x0, y0, is_x, start, tolerance, per_channel, k + 1, max)
    }
}

/// Walking downward from position `k`: the last position still close to
/// `start` before a differing pixel, or 0 at the buffer start.
pub open spec fn walk_down(b: &PixelBuffer, x0: int, y0: int, is_x: bool, start: u32, tolerance: u8, per_channel: bool, k: int) -> int
    decreases k,
{
    if k <= 0 {
        0
    } else if !close(start, line_pixel(b, x0, y0, is_x, k), tolerance, per_channel) {
        k + 1
    } else {
        walk_down(b, x0, y0, is_x, start, tolerance, per_channel, k - 1)
    }
}

pub open spec fn clamp_int(v: int, lo: int, hi: int) -> int {
    if v < lo {
        lo
    } else if v > hi {
        hi
    } else {
        v
    }
}

/// The edge found walking from `center` (clamped one pixel inside the
/// buffer) along x or y, upward or downward.
pub open spec fn edge_from(b: &PixelBuffer, center: Point, tolerance: u8, per_channel: bool, is_x: bool, increment: bool) -> int {
    let x0 = clamp_int(center.x as int, 1, b.width - 2);
    let y0 = clamp_int(center.y as int, 1, b.height - 2);
    let start = b.pixel(x0, y0);
    let c = if is_x {
        x0
    } else {
        y0
    };
    let max = if is_x {
        b.width as int
    } else {
        b.height as int
    };
    if increment {
        walk_up(b, x0, y0, is_x, start, tolerance, per_channel, c + 1, max)
    } else {
        walk_down(b, x0, y0, is_x, start, tolerance, per_channel, c - 1)
    }
}

/// A buffer the walks can run on: at least 3 by 3 pixels, with sizes that fit `i32`.
pub open spec fn walkable(b: &PixelBuffer) -> bool {
    &&& b.wf()
    &&& 3 <= b.width <= i32::MAX
    &&& 3 <= b.height <= i32::MAX
}

/// The bounds of the region around `center` whose pixels are close to the
/// center pixel along the two axes through it.
pub fn detect_edges(buffer: &PixelBuffer, center: Point, per_channel: bool, tolerance: u8) -> (r: IRect)
    requires
        walkable(buffer),
    ensures
        r.left == edge_from(buffer, center, tolerance, per_channel, true, false),
        r.right == edge_from(buffer, center, tolerance, per_channel, true, true),
        r.top == edge_from(buffer, center, tolerance, per_channel, false, false),
        r.bottom == edge_from(buffer, center, tolerance, per_channel, false, true),
{
    let left = find_edge(buffer, center, tolerance, per_channel, true, false);
    let right = find_edge(buffer, center, tolerance, per_channel, true, true);
    let top = find_edge(buffer, center, tolerance, per_channel, false, false);
    let bottom = find_edge(buffer, center, tolerance, per_channel, false, true);
    IRect::new(left, top, right, bottom)
}

proof fn lemma_walk_up_range(b: &PixelBuffer, x0: int, y0: int, is_x: bool, start: u32, tolerance: u8, per_channel: bool, k: int, max: int)
    requires
        1 <= k <= max,
    ensures
        k - 1 <= walk_up(b, x0, y0, is_x, start, tolerance, per_channel, k, max) <= max - 1,
    decreases max - k,
{
    if k < max && close(start, line_pixel(b, x0, y0, is_x, k), tolerance, per_channel) {
        lemma_walk_up_range(b, x0, y0, is_x, start, tolerance, per_channel, k + 1, max);
    }
}

fn find_edge(buffer: &PixelBuffer, center: Point, tolerance: u8, per_channel: bool, is_x: bool, increment: bool) -> (e: i32)
    requires
        walkable(buffer),
    ensures
        e == edge_from(buffer, center, tolerance, per_channel, is_x, increment),
{
    let max_dim: i32 = if is_x {
        buffer.width as i32
    } else {
        buffer.height as i32
    };
    let wmax = buffer.width as i32 - 2;
    let hmax = buffer.height as i32 - 2;
    let x: i32 = if center.x < 1 {
        1
    } else if center.x > wmax {
        wmax
    } else {
        center.x
    };
    let y: i32 = if center.y < 1 {
        1
    } else if center.y > hmax {
        hmax
    } else {
        center.y
    };
    let start_pixel = buffer.get_pixel(x as usize, y as usize);
    let ghost x0 = x as int;
    let ghost y0 = y as int;
    let mut k: i32 = if is_x {
        x
    } else {
        y
    };
    if increment {
        k = k + 1;
        while k < max_dim
            invariant
                walkable(buffer),
                x as int == x0,
                y as int == y0,
                1 <= x0 <= buffer.width - 2,
                1 <= y0 <= buffer.height - 2,
                start_pixel == buffer.pixel(x0, y0),
                max_dim == (if is_x { buffer.width as int } else { buffer.height as int }),
                2 <= k <= max_dim,
                walk_up(buffer, x0, y0, is_x, start_pixel, tolerance, per_channel, k as int, max_dim as int)
                    == edge_from(buffer, center, tolerance, per_channel, is_x, increment),
            decreases max_dim - k,
        {
            let next = if is_x {
                buffer.get_pixel(k as usize, y as usize)
            } else {
                buffer.get_pixel(x as usize, k as usize)
            };
            if !PixelBuffer::pixels_close(start_pixel, next, tolerance, per_channel) {
                return k - 1;
            }
            k = k + 1;
        }
        max_dim - 1
    } else {
        k = k - 1;
        while k > 0
            invariant
                walkable(buffer),
                x as int == x0,
                y as int == y0,
                1 <= x0 <= buffer.width - 2,
                1 <= y0 <= buffer.height - 2,
                start_pixel == buffer.pixel(x0, y0),
                max_dim == (if is_x { buffer.width as int } else { buffer.height as int }),
                0 <= k < max_dim - 1,
                walk_down(buffer, x0, y0, is_x, start_pixel, tolerance, per_channel, k as int)
                    == edge_from(buffer, center, tolerance, per_channel, is_x, increment),
            decreases k,
        {
            let next = if is_x {
                buffer.get_pixel(k as usize, y as usize)
            } else {
                buffer.get_pixel(x as usize, k as usize)
            };
            if !PixelBuffer::pixels_close(start_pixel, next, tolerance, per_channel) {
                return k + 1;
            }
            k = k - 1;
        }
        0
    }
}

/// Positions `i` in `1..n` where pixel `i` differs from pixel `i - 1`.
pub open spec fn row_edges(row: Seq<u32>, n: int, tolerance: u8, per_channel: bool) -> Seq<usize>
    decreases n,
{
    if n <= 1 {
        Seq::empty()
    } else {
        let e = row_edges(row, n - 1, tolerance, per_channel);
        if !close(row[n - 2], row[n - 1], tolerance, per_channel) {
            e.push((n - 1) as usize)
        } else {
            e
        }
    }
}

/// The positions in a row where a pixel differs from the one before it.
pub fn find_row_edges(row: &[u32], tolerance: u8, per_channel: bool) -> (edges: Vec<usize>)
    ensures
        edges@ == row_edges(row@, row@.len() as int, tolerance, per_channel),
{
    let n = row.len();
    let mut edges: Vec<usize> = Vec::new();
    if n == 0 {
        return edges;
    }
    let mut i: usize = 1;
    while i < n
        invariant
            n == row@.len(),
            1 <= i <= n,
            edges@ == row_edges(row@, i as int, tolerance, per_channel),
        decreases n - i,
    {
        if !PixelBuffer::pixels_close(row[i - 1], row[i], tolerance, per_channel) {
            edges.push(i);
        }
        i = i + 1;
    }
    edges
}

/// The column of pixels at `x`, as a sequence.
pub open spec fn column(b: &PixelBuffer, x: int) -> Seq<u32> {
    Seq::new(b.height as nat, |y: int| b.pixel(x, y))
}

/// The positions in column `x` where a pixel differs from the one above it.
pub fn find_column_edges(buffer: &PixelBuffer, x: usize, tolerance: u8, per_channel: bool) -> (edges: Vec<usize>)
    requires
        buffer.wf(),
        x < buffer.width,
    ensures
        edges@ == row_edges(column(buffer, x as int), buffer.height as int, tolerance, per_channel),
{
    let ghost col = column(buffer, x as int);
    let n = buffer.height;
    let mut edges: Vec<usize> = Vec::new();
    if n == 0 {
        return edges;
    }
    let mut y: usize = 1;
    while y < n
        invariant
            buffer.wf(),
            x < buffer.width,
            n == buffer.height,
            col == column(buffer, x as int),
            1 <= y <= n,
            edges@ == row_edges(col, y as int, tolerance, per_channel),
        decreases n - y,
    {
        let prev = buffer.get_pixel(x, y - 1);
        let curr = buffer.get_pixel(x, y);
        if !PixelBuffer::pixels_close(prev, curr, tolerance, per_channel) {
            edges.push(y);
        }
        y = y + 1;
    }
    edges
}

/// Every reported row edge is a position where the color changes, and the
/// positions are strictly increasing.
pub proof fn lemma_row_edges_sound(row: Seq<u32>, n: int, tolerance: u8, per_channel: bool)
    requires
        n <= row.len(),
        row.len() <= usize::MAX,
    ensures
        forall|j: int|
            0 <= j < row_edges(row, n, tolerance, per_channel).len() ==> {
                let p = #[trigger] row_edges(row, n, tolerance, per_channel)[j] as int;
                &&& 1 <= p < n
                &&& !close(row[p - 1], row[p], tolerance, per_channel)
            },
        forall|i: int, j: int|
            0 <= i < j < row_edges(row, n, tolerance, per_channel).len() ==> row_edges(row, n, tolerance, per_channel)[i]
                < row_edges(row, n, tolerance, per_channel)[j],
    decreases n,
{
    if n > 1 {
        lemma_row_edges_sound(row, n - 1, tolerance, per_channel);
        let e = row_edges(row, n - 1, tolerance, per_channel);
        if !close(row[n - 2], row[n - 1], tolerance, per_channel) {
            let f = e.push((n - 1) as usize);
            assert(f[e.len() as int] == (n - 1) as usize);
            assert forall|j: int| 0 <= j < e.len() implies #[trigger] f[j] == e[j] && e[j] < n - 1 by {
                let p = e[j] as int;
            }
        }
    }
}

} // verus!

verus! {

proof fn lemma_walk_up_stops(b: &PixelBuffer, x0: int, y0: int, is_x: bool, start: u32, tolerance: u8, per_channel: bool, k: int, max: int)
    requires
        1 <= k <= max,
    ensures
        ({
            let e = walk_up(b, x0, y0, is_x, start, tolerance, per_channel, k, max);
            &&& k - 1 <= e <= max - 1
            &&& forall|j: int| k <= j <= e ==> close(start, #[trigger] line_pixel(b, x0, y0, is_x, j), tolerance, per_channel)
            &&& e < max - 1 ==> !close(start, line_pixel(b, x0, y0, is_x, e + 1), tolerance, per_channel)
        }),
    decreases max - k,
{
    if k < max && close(start, line_pixel(b, x0, y0, is_x, k), tolerance, per_channel) {
        lemma_walk_up_stops(b, x0, y0, is_x, start, tolerance, per_channel, k + 1, max);
    }
}

proof fn lemma_walk_down_stops(b: &PixelBuffer, x0: int, y0: int, is_x: bool, start: u32, tolerance: u8, per_channel: bool, k: int)
    requires
        k >= 0,
    ensures
        ({
            let e = walk_down(b, x0, y0, is_x, start, tolerance, per_channel, k);
            &&& 0 <= e <= k + 1
            &&& forall|j: int| e <= j <= k && j >= 1 ==> close(start, #[trigger] line_pixel(b, x0, y0, is_x, j), tolerance, per_channel)
            &&& e > 0 ==> !close(start, line_pixel(b, x0, y0, is_x, e - 1), tolerance, per_channel)
        }),
    decreases k,
{
    if k > 0 && close(start, line_pixel(b, x0, y0, is_x, k), tolerance, per_channel) {
        lemma_walk_down_stops(b, x0, y0, is_x, start, tolerance, per_channel, k - 1);
    }
}

/// The edges `detect_edges` reports bound the run of pixels close to the
/// center pixel (the center clamped one pixel inside the buffer) along its
/// row and column: every pixel from the center out to an edge is close to
/// the center pixel, and the pixel just past an edge is not, unless the edge
/// is the buffer's border.
pub proof fn lemma_edges_bound_run(b: &PixelBuffer, center: Point, tolerance: u8, per_channel: bool)
    requires
        walkable(b),
    ensures
        ({
            let x0 = clamp_int(center.x as int, 1, b.width - 2);
            let y0 = clamp_int(center.y as int, 1, b.height - 2);
            let start = b.pixel(x0, y0);
            let left = edge_from(b, center, tolerance, per_channel, true, false);
            let right = edge_from(b, center, tolerance, per_channel, true, true);
            let top = edge_from(b, center, tolerance, per_channel, false, false);
            let bottom = edge_from(b, center, tolerance, per_channel, false, true);
            &&& 0 <= left <= x0 <= right <= b.width - 1
            &&& 0 <= top <= y0 <= bottom <= b.height - 1
            &&& forall|j: int| x0 < j <= right ==> close(start, #[trigger] b.pixel(j, y0), tolerance, per_channel)
            &&& right < b.width - 1 ==> !close(start, b.pixel(right + 1, y0), tolerance, per_channel)
            &&& forall|j: int| left <= j < x0 && j >= 1 ==> close(start, #[trigger] b.pixel(j, y0), tolerance, per_channel)
            &&& left > 0 ==> !close(start, b.pixel(left - 1, y0), tolerance, per_channel)
            &&& forall|j: int| y0 < j <= bottom ==> close(start, #[trigger] b.pixel(x0, j), tolerance, per_channel)
            &&& bottom < b.height - 1 ==> !close(start, b.pixel(x0, bottom + 1), tolerance, per_channel)
            &&& forall|j: int| top <= j < y0 && j >= 1 ==> close(start, #[trigger] b.pixel(x0, j), tolerance, per_channel)
            &&& top > 0 ==> !close(start, b.pixel(x0, top - 1), tolerance, per_channel)
        }),
{
    let x0 = clamp_int(center.x as int, 1, b.width - 2);
    let y0 = clamp_int(center.y as int, 1, b.height - 2);
    let start = b.pixel(x0, y0);
    lemma_walk_up_stops(b, x0, y0, true, start, tolerance, per_channel, x0 + 1, b.width as int);
    lemma_walk_up_stops(b, x0, y0, false, start, tolerance, per_channel, y0 + 1, b.height as int);
    lemma_walk_down_stops(b, x0, y0, true, start, tolerance, per_channel, x0 - 1);
    lemma_walk_down_stops(b, x0, y0, false, start, tolerance, per_channel, y0 - 1);
    assert forall|j: int| x0 < j <= edge_from(b, center, tolerance, per_channel, true, true) implies close(start, #[trigger] b.pixel(j, y0), tolerance, per_channel) by {
        assert(line_pixel(b, x0, y0, true, j) == b.pixel(j, y0));
    }
    assert forall|j: int| edge_from(b, center, tolerance, per_channel, true, false) <= j < x0 && j >= 1 implies close(start, #[trigger] b.pixel(j, y0), tolerance, per_channel) by {
        assert(line_pixel(b, x0, y0, true, j) == b.pixel(j, y0));
    }
    assert forall|j: int| y0 < j <= edge_from(b, center, tolerance, per_channel, false, true) implies close(start, #[trigger] b.pixel(x0, j), tolerance, per_channel) by {
        assert(line_pixel(b, x0, y0, false, j) == b.pixel(x0, j));
    }
    assert forall|j: int| edge_from(b, center, tolerance, per_channel, false, false) <= j < y0 && j >= 1 implies close(start, #[trigger] b.pixel(x0, j), tolerance, per_channel) by {
        assert(line_pixel(b, x0, y0, false, j) == b.pixel(x0, j));
    }
}

} // verus!
