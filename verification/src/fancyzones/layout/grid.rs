//! Grid layouts: zones from row and column sizes and a map of the cell each
//! zone covers.

use vstd::prelude::*;
use crate::fancyzones::data::GridLayoutInfo;
use crate::fancyzones::layout::zones::{
    add_pair, add_zone, area_fits, ids_increasing, lemma_mul_abs, pair_valid, tdiv, zone_pair,
    zone_pairs,
};
use crate::fancyzones::rect::Rect;
use crate::fancyzones::zone::Zone;

verus! {

/// Sizes are given in hundredths of a percent.
pub const C_MULTIPLIER: i64 = 10000;

/// The sum of the first `k` sizes.
pub open spec fn prefix(p: Seq<i32>, k: int) -> int
    decreases k,
{
    if k <= 0 {
        0
    } else {
        prefix(p, k - 1) + p[k - 1]
    }
}

/// Where band `k` starts and ends along a side of length `total`.
pub open spec fn band_start(p: Seq<i32>, k: int, total: int) -> int {
    tdiv(prefix(p, k) * total, C_MULTIPLIER as int)
}

pub open spec fn band_end(p: Seq<i32>, k: int, total: int) -> int {
    tdiv(prefix(p, k + 1) * total, C_MULTIPLIER as int)
}

/// The last row of the run of cells below (r, c) holding the same zone.
pub open spec fn extend_down(cells: Seq<Seq<i32>>, rows: int, r: int, c: int, m: int) -> int
    decreases rows - m,
{
    if m + 1 < rows && cells[m + 1][c] == cells[r][c] {
        extend_down(cells, rows, r, c, m + 1)
    } else {
        m
    }
}

/// The last column of the run of cells right of (r, c) holding the same zone.
pub open spec fn extend_right(cells: Seq<Seq<i32>>, cols: int, r: int, c: int, m: int) -> int
    decreases cols - m,
{
    if m + 1 < cols && cells[r][m + 1] == cells[r][c] {
        extend_right(cells, cols, r, c, m + 1)
    } else {
        m
    }
}

/// Whether (r, c) is the top-left cell of its zone.
pub open spec fn top_left(cells: Seq<Seq<i32>>, r: int, c: int) -> bool {
    (r == 0 || cells[r - 1][c] != cells[r][c]) && (c == 0 || cells[r][c - 1] != cells[r][c])
}

/// The inset of an edge: the full spacing at the work area's border, half
/// of it between zones.
pub open spec fn inset(at_border: bool, s: int) -> int {
    if at_border {
        s
    } else {
        tdiv(s, 2)
    }
}

/// The zone whose top-left cell is (r, c).
pub open spec fn cell_zone(
    rows: int,
    cols: int,
    rp: Seq<i32>,
    cp: Seq<i32>,
    cells: Seq<Seq<i32>>,
    tw: int,
    th: int,
    s: int,
    r: int,
    c: int,
) -> (Rect, i64) {
    let mr = extend_down(cells, rows, r, c, r);
    let mc = extend_right(cells, cols, r, c, c);
    let left = band_start(cp, c, tw) + inset(c == 0, s);
    let top = band_start(rp, r, th) + inset(r == 0, s);
    let right = band_end(cp, mc, tw) - inset(mc == cols - 1, s);
    let bottom = band_end(rp, mr, th) - inset(mr == rows - 1, s);
    (Rect { left: left as i32, top: top as i32, right: right as i32, bottom: bottom as i32 }, cells[r][c] as i64)
}

/// Processing cell (r, c): a top-left cell adds its zone, which must be
/// valid and have an index not taken yet.
pub open spec fn grid_step(
    rows: int,
    cols: int,
    rp: Seq<i32>,
    cp: Seq<i32>,
    cells: Seq<Seq<i32>>,
    tw: int,
    th: int,
    s: int,
    zs: Seq<(Rect, i64)>,
    r: int,
    c: int,
) -> Option<Seq<(Rect, i64)>> {
    if top_left(cells, r, c) {
        let z = cell_zone(rows, cols, rp, cp, cells, tw, th, s, r, c);
        if pair_valid(z.0, z.1) {
            add_pair(zs, z)
        } else {
            None
        }
    } else {
        Some(zs)
    }
}

/// The zones after every cell before (r, c) in row-major order; `None` once
/// a zone failed.
pub open spec fn grid_state(
    rows: int,
    cols: int,
    rp: Seq<i32>,
    cp: Seq<i32>,
    cells: Seq<Seq<i32>>,
    tw: int,
    th: int,
    s: int,
    r: int,
    c: int,
) -> Option<Seq<(Rect, i64)>>
    decreases r, c,
{
    if r <= 0 && c <= 0 {
        Some(Seq::empty())
    } else if c <= 0 {
        grid_state(rows, cols, rp, cp, cells, tw, th, s, r - 1, cols)
    } else {
        match grid_state(rows, cols, rp, cp, cells, tw, th, s, r, c - 1) {
            None => None,
            Some(zs) => grid_step(rows, cols, rp, cp, cells, tw, th, s, zs, r, c - 1),
        }
    }
}

/// The zones of a grid, or none if one is invalid or two share an index.
pub open spec fn grid_zones(
    rows: int,
    cols: int,
    rp: Seq<i32>,
    cp: Seq<i32>,
    cells: Seq<Seq<i32>>,
    tw: int,
    th: int,
    s: int,
) -> Seq<(Rect, i64)> {
    match grid_state(rows, cols, rp, cp, cells, tw, th, s, rows, 0) {
        Some(zs) => zs,
        None => Seq::empty(),
    }
}

/// The grid's shape is complete: every size and cell the rows and columns
/// need is there.
pub open spec fn grid_complete(rows: int, cols: int, rp: Seq<i32>, cp: Seq<i32>, cells: Seq<Seq<i32>>) -> bool {
    &&& rows >= 0
    &&& cols >= 0
    &&& rp.len() >= rows
    &&& cp.len() >= cols
    &&& cells.len() >= rows
    &&& forall|r: int| 0 <= r < rows ==> (#[trigger] cells[r]).len() >= cols
}

/// Every band boundary along a side fits in an `i64` product.
pub open spec fn bands_fit(p: Seq<i32>, n: int, total: int) -> bool {
    forall|k: int| 0 <= k <= n ==> -0x7fff_ffff_ffff_ffff <= #[trigger] prefix(p, k) * total <= 0x7fff_ffff_ffff_ffff
}

proof fn lemma_state_none_stays(
    rows: int,
    cols: int,
    rp: Seq<i32>,
    cp: Seq<i32>,
    cells: Seq<Seq<i32>>,
    tw: int,
    th: int,
    s: int,
    r: int,
    c: int,
    r2: int,
    c2: int,
)
    requires
        grid_state(rows, cols, rp, cp, cells, tw, th, s, r, c) is None,
        0 <= r,
        0 <= c <= cols,
        0 <= c2 <= cols,
        r < r2 || (r == r2 && c <= c2),
    ensures
        grid_state(rows, cols, rp, cp, cells, tw, th, s, r2, c2) is None,
    decreases r2, c2,
{
    if r == r2 && c == c2 {
    } else if c2 <= 0 {
        if r2 <= 0 {
        } else {
            lemma_state_none_stays(rows, cols, rp, cp, cells, tw, th, s, r, c, r2 - 1, cols);
        }
    } else {
        lemma_state_none_stays(rows, cols, rp, cp, cells, tw, th, s, r, c, r2, c2 - 1);
    }
}

proof fn lemma_div_small(x: int)
    requires
        -0x7fff_ffff_ffff_ffff <= x <= 0x7fff_ffff_ffff_ffff,
    ensures
        -1_000_000_000_000_000 <= tdiv(x, 10000) <= 1_000_000_000_000_000,
{
    if x >= 0 {
        assert(x / 10000 <= 1_000_000_000_000_000) by (nonlinear_arith)
            requires
                0 <= x <= 0x7fff_ffff_ffff_ffff,
        ;
    } else {
        assert((-x) / 10000 <= 1_000_000_000_000_000) by (nonlinear_arith)
            requires
                0 <= -x <= 0x7fff_ffff_ffff_ffff,
        ;
    }
}

/// The start and end of every band along one side.
fn band_bounds(p: &Vec<i32>, n: i32, total: i64) -> (b: Vec<(i64, i64)>)
    requires
        0 <= n <= p@.len(),
        bands_fit(p@, n as int, total as int),
    ensures
        b@.len() == n,
        forall|k: int| 0 <= k < n ==> (#[trigger] b@[k]).0 == band_start(p@, k, total as int)
            && b@[k].1 == band_end(p@, k, total as int),
        forall|k: int| 0 <= k < n ==> -1_000_000_000_000_000 <= (#[trigger] b@[k]).0 <= 1_000_000_000_000_000
            && -1_000_000_000_000_000 <= b@[k].1 <= 1_000_000_000_000_000,
{
    let mut b: Vec<(i64, i64)> = Vec::new();
    let mut sum: i64 = 0;
    let mut k: i32 = 0;
    while k < n
        invariant
            0 <= k <= n <= p@.len(),
            bands_fit(p@, n as int, total as int),
            sum == prefix(p@, k as int),
            -0x8000_0000 * k <= sum <= 0x8000_0000 * k,
            b@.len() == k,
            forall|j: int| 0 <= j < k ==> (#[trigger] b@[j]).0 == band_start(p@, j, total as int)
                && b@[j].1 == band_end(p@, j, total as int),
            forall|j: int| 0 <= j < k ==> -1_000_000_000_000_000 <= (#[trigger] b@[j]).0 <= 1_000_000_000_000_000
                && -1_000_000_000_000_000 <= b@[j].1 <= 1_000_000_000_000_000,
        decreases n - k,
    {
        assert(-0x7fff_ffff_ffff_ffff <= prefix(p@, k as int) * total <= 0x7fff_ffff_ffff_ffff);
        let prod = sum * total;
        let start = if prod >= 0 { prod / C_MULTIPLIER } else { -((-prod) / C_MULTIPLIER) };
        proof {
            lemma_div_small(prod as int);
        }
        sum = sum + p[k as usize] as i64;
        assert(prefix(p@, k + 1) == prefix(p@, k as int) + p@[k as int]);
        assert(-0x7fff_ffff_ffff_ffff <= prefix(p@, k + 1) * total <= 0x7fff_ffff_ffff_ffff);
        let prod2 = sum * total;
        let end = if prod2 >= 0 { prod2 / C_MULTIPLIER } else { -((-prod2) / C_MULTIPLIER) };
        proof {
            lemma_div_small(prod2 as int);
        }
        b.push((start, end));
        k = k + 1;
    }
    b
}

/// Computes the zones of a grid layout in a work area: each zone spans the
/// cells of its index from its top-left cell, inset by the spacing; none if a
/// zone is invalid or an index repeats.
pub fn calculate_grid_zones(work_area: Rect, grid: &GridLayoutInfo, spacing: i32) -> (zones: Vec<Zone>)
    requires
        area_fits(work_area),
        grid_complete(grid.rows as int, grid.columns as int, grid.rows_percents@, grid.columns_percents@, grid.cells()),
        bands_fit(grid.rows_percents@, grid.rows as int, work_area.bottom - work_area.top),
        bands_fit(grid.columns_percents@, grid.columns as int, work_area.right - work_area.left),
    ensures
        zone_pairs(zones@) == grid_zones(
            grid.rows as int,
            grid.columns as int,
            grid.rows_percents@,
            grid.columns_percents@,
            grid.cells(),
            work_area.right - work_area.left,
            work_area.bottom - work_area.top,
            spacing as int,
        ),
        ids_increasing(zone_pairs(zones@)),
{
    let tw = work_area.width() as i64;
    let th = work_area.height() as i64;
    let rows = grid.rows;
    let cols = grid.columns;
    let ghost rp = grid.rows_percents@;
    let ghost cp = grid.columns_percents@;
    let ghost cells = grid.cells();
    let ghost s = spacing as int;
    let row_info = band_bounds(&grid.rows_percents, rows, th);
    let col_info = band_bounds(&grid.columns_percents, cols, tw);
    let sp = spacing as i64;
    let half = if sp >= 0 { sp / 2 } else { -((-sp) / 2) };
    let mut zones: Vec<Zone> = Vec::new();
    let mut row: i32 = 0;
    while row < rows
        invariant
            0 <= row <= rows,
            rows == grid.rows,
            cols == grid.columns,
            rp == grid.rows_percents@,
            cp == grid.columns_percents@,
            cells == grid.cells(),
            s == spacing,
            sp == spacing,
            half == tdiv(s, 2),
            tw == work_area.right - work_area.left,
            th == work_area.bottom - work_area.top,
            grid_complete(rows as int, cols as int, rp, cp, cells),
            row_info@.len() == rows,
            col_info@.len() == cols,
            forall|k: int| 0 <= k < rows ==> (#[trigger] row_info@[k]).0 == band_start(rp, k, th as int)
                && row_info@[k].1 == band_end(rp, k, th as int),
            forall|k: int| 0 <= k < cols ==> (#[trigger] col_info@[k]).0 == band_start(cp, k, tw as int)
                && col_info@[k].1 == band_end(cp, k, tw as int),
            forall|k: int| 0 <= k < rows ==> -1_000_000_000_000_000 <= (#[trigger] row_info@[k]).0 <= 1_000_000_000_000_000
                && -1_000_000_000_000_000 <= row_info@[k].1 <= 1_000_000_000_000_000,
            forall|k: int| 0 <= k < cols ==> -1_000_000_000_000_000 <= (#[trigger] col_info@[k]).0 <= 1_000_000_000_000_000
                && -1_000_000_000_000_000 <= col_info@[k].1 <= 1_000_000_000_000_000,
            ids_increasing(zone_pairs(zones@)),
            grid_state(rows as int, cols as int, rp, cp, cells, tw as int, th as int, s, row as int, 0)
                == Some(zone_pairs(zones@)),
        decreases rows - row,
    {
        let mut col: i32 = 0;
        while col < cols
            invariant
                0 <= row < rows,
                0 <= col <= cols,
                rows == grid.rows,
                cols == grid.columns,
                rp == grid.rows_percents@,
                cp == grid.columns_percents@,
                cells == grid.cells(),
                s == spacing,
                sp == spacing,
                half == tdiv(s, 2),
                tw == work_area.right - work_area.left,
                th == work_area.bottom - work_area.top,
                grid_complete(rows as int, cols as int, rp, cp, cells),
                row_info@.len() == rows,
                col_info@.len() == cols,
                forall|k: int| 0 <= k < rows ==> (#[trigger] row_info@[k]).0 == band_start(rp, k, th as int)
                    && row_info@[k].1 == band_end(rp, k, th as int),
                forall|k: int| 0 <= k < cols ==> (#[trigger] col_info@[k]).0 == band_start(cp, k, tw as int)
                    && col_info@[k].1 == band_end(cp, k, tw as int),
                forall|k: int| 0 <= k < rows ==> -1_000_000_000_000_000 <= (#[trigger] row_info@[k]).0 <= 1_000_000_000_000_000
                    && -1_000_000_000_000_000 <= row_info@[k].1 <= 1_000_000_000_000_000,
                forall|k: int| 0 <= k < cols ==> -1_000_000_000_000_000 <= (#[trigger] col_info@[k]).0 <= 1_000_000_000_000_000
                    && -1_000_000_000_000_000 <= col_info@[k].1 <= 1_000_000_000_000_000,
                ids_increasing(zone_pairs(zones@)),
                grid_state(rows as int, cols as int, rp, cp, cells, tw as int, th as int, s, row as int, col as int)
                    == Some(zone_pairs(zones@)),
            decreases cols - col,
        {
            let r = row as usize;
            let c = col as usize;
            proof {
                assert(cells[row as int].len() >= cols);
                assert(grid.cell_child_map@[row as int]@ == cells[row as int]);
            }
            let i = grid.cell_child_map[r][c];
            let up_differs = r == 0 || grid.cell_child_map[r - 1][c] != i;
            let left_differs = c == 0 || grid.cell_child_map[r][c - 1] != i;
            proof {
                if r > 0 {
                    assert(cells[row - 1].len() >= cols);
                    assert(grid.cell_child_map@[row - 1]@ == cells[row - 1]);
                }
            }
            if up_differs && left_differs {
                let mut max_row = r;
                while max_row + 1 < rows as usize && grid.cell_child_map[max_row + 1][c] == i
                    invariant
                        r <= max_row < rows,
                        cells == grid.cells(),
                        grid_complete(rows as int, cols as int, rp, cp, cells),
                        c < cols,
                        rows == grid.rows,
                        i == cells[r as int][c as int],
                        extend_down(cells, rows as int, r as int, c as int, r as int) == extend_down(
                            cells,
                            rows as int,
                            r as int,
                            c as int,
                            max_row as int,
                        ),
                    decreases rows - max_row,
                {
                    proof {
                        assert(cells[max_row + 1].len() >= cols);
                        assert(grid.cell_child_map@[max_row + 1]@ == cells[max_row + 1]);
                    }
                    max_row = max_row + 1;
                }
                proof {
                    if max_row + 1 < rows {
                        assert(cells[max_row + 1].len() >= cols);
                        assert(grid.cell_child_map@[max_row + 1]@ == cells[max_row + 1]);
                    }
                }
                let mut max_col = c;
                while max_col + 1 < cols as usize && grid.cell_child_map[r][max_col + 1] == i
                    invariant
                        c <= max_col < cols,
                        r < rows,
                        cells == grid.cells(),
                        grid_complete(rows as int, cols as int, rp, cp, cells),
                        cols == grid.columns,
                        i == cells[r as int][c as int],
                        extend_right(cells, cols as int, r as int, c as int, c as int) == extend_right(
                            cells,
                            cols as int,
                            r as int,
                            c as int,
                            max_col as int,
                        ),
                    decreases cols - max_col,
                {
                    proof {
                        assert(grid.cell_child_map@[r as int]@ == cells[r as int]);
                    }
                    max_col = max_col + 1;
                }
                proof {
                    assert(grid.cell_child_map@[r as int]@ == cells[r as int]);
                }
                let top = row_info[r].0 + if r == 0 { sp } else { half };
                let bottom = row_info[max_row].1 - if max_row == rows as usize - 1 { sp } else { half };
                let left = col_info[c].0 + if c == 0 { sp } else { half };
                let right = col_info[max_col].1 - if max_col == cols as usize - 1 { sp } else { half };
                let zone = Zone::new(Rect::new(left as i32, top as i32, right as i32, bottom as i32), i as i64);
                let ghost z = cell_zone(rows as int, cols as int, rp, cp, cells, tw as int, th as int, s, row as int, col as int);
                proof {
                    assert(zone_pair(zone) == z);
                    assert(top_left(cells, row as int, col as int));
                }
                if !zone.is_valid() {
                    proof {
                        lemma_state_none_stays(rows as int, cols as int, rp, cp, cells, tw as int, th as int, s,
                            row as int, col + 1, rows as int, 0);
                    }
                    return Vec::new();
                }
                let ghost before = zone_pairs(zones@);
                if !add_zone(zone, &mut zones) {
                    proof {
                        lemma_state_none_stays(rows as int, cols as int, rp, cp, cells, tw as int, th as int, s,
                            row as int, col + 1, rows as int, 0);
                    }
                    return Vec::new();
                }
            } else {
                proof {
                    assert(!top_left(cells, row as int, col as int));
                }
            }
            col = col + 1;
        }
        row = row + 1;
    }
    zones
}

} // verus!

verus! {

/// The number of rows of an automatic grid of `n` zones: the largest `r`
/// with `n / r >= r`.
pub open spec fn is_auto_rows(n: int, r: int) -> bool {
    1 <= r && n / r >= r && n / (r + 1) < r + 1
}

pub open spec fn auto_rows(n: int) -> int {
    choose|r: int| #[trigger] is_auto_rows(n, r)
}

/// The number of columns: enough for `n` zones in `auto_rows(n)` rows.
pub open spec fn auto_columns(n: int) -> int {
    let r = auto_rows(n);
    n / r + if n % r != 0 { 1int } else { 0int }
}

/// Equal sizes for `count` bands, summing to 10000.
pub open spec fn equal_percents(count: int) -> Seq<i32> {
    Seq::new(count as nat, |k: int| (10000 * (k + 1) / count - 10000 * k / count) as i32)
}

/// Cells numbered in row-major order, the last zone taking the cells left
/// over.
pub open spec fn auto_cells(n: int, rows: int, cols: int) -> Seq<Seq<i32>> {
    Seq::new(
        rows as nat,
        |r: int| Seq::new(cols as nat, |c: int| (if r * cols + c < n - 1 { r * cols + c } else { n - 1 }) as i32),
    )
}

proof fn lemma_auto_rows(n: int, r: int)
    requires
        n >= 0,
        1 <= r,
        n / r >= r,
        n / (r + 1) < r + 1,
    ensures
        auto_rows(n) == r,
{
    assert(is_auto_rows(n, r));
    let a = auto_rows(n);
    if a != r {
        if a < r {
            assert(n / r <= n / (a + 1)) by (nonlinear_arith)
                requires
                    1 <= a + 1 <= r,
                    n >= 0,
            ;
        } else {
            assert(n / a <= n / (r + 1)) by (nonlinear_arith)
                requires
                    1 <= r + 1 <= a,
                    n >= 0,
            ;
        }
    }
}

/// The equal sizes add up to `10000 * k / count`.
proof fn lemma_equal_prefix(count: int, k: int)
    requires
        1 <= count,
        0 <= k <= count,
    ensures
        prefix(equal_percents(count), k) == 10000 * k / count,
    decreases k,
{
    if k > 0 {
        lemma_equal_prefix(count, k - 1);
        assert(0 <= 10000 * k / count - 10000 * (k - 1) / count <= 10000) by (nonlinear_arith)
            requires
                1 <= count,
                1 <= k <= count,
        ;
    }
}

/// The sizes of an automatic grid fit every product with a side.
proof fn lemma_equal_bands_fit(count: int, total: int)
    requires
        1 <= count,
        -0x1_0000_0000 <= total <= 0x1_0000_0000,
    ensures
        bands_fit(equal_percents(count), count, total),
{
    assert forall|k: int| 0 <= k <= count implies -0x7fff_ffff_ffff_ffff <= #[trigger] prefix(
        equal_percents(count),
        k,
    ) * total <= 0x7fff_ffff_ffff_ffff by {
        lemma_equal_prefix(count, k);
        assert(0 <= 10000 * k / count <= 10000) by (nonlinear_arith)
            requires
                1 <= count,
                0 <= k <= count,
        ;
        lemma_mul_abs(10000 * k / count, total, 10000, 0x1_0000_0000);
    }
}

fn equal_sizes(count: i32) -> (v: Vec<i32>)
    requires
        1 <= count,
    ensures
        v@ == equal_percents(count as int),
{
    let mut v: Vec<i32> = Vec::new();
    let mut k: i32 = 0;
    while k < count
        invariant
            0 <= k <= count,
            v@ == equal_percents(count as int).take(k as int),
        decreases count - k,
    {
        let a = 10000i64 * (k as i64 + 1) / (count as i64);
        let b = 10000i64 * (k as i64) / (count as i64);
        proof {
            let ki = k as int;
            let ci = count as int;
            assert(0 <= 10000 * (ki + 1) / ci - 10000 * ki / ci <= 10000) by (nonlinear_arith)
                requires
                    1 <= ci,
                    0 <= ki < ci,
            ;
        }
        v.push((a - b) as i32);
        k = k + 1;
        proof {
            assert(v@ =~= equal_percents(count as int).take(k as int));
        }
    }
    proof {
        assert(v@ =~= equal_percents(count as int));
    }
    v
}

/// The grid description of an automatic grid of `zone_count` zones.
pub fn auto_grid(zone_count: i32) -> (g: GridLayoutInfo)
    requires
        zone_count >= 1,
    ensures
        g.rows == auto_rows(zone_count as int),
        g.columns == auto_columns(zone_count as int),
        g.rows_percents@ == equal_percents(g.rows as int),
        g.columns_percents@ == equal_percents(g.columns as int),
        g.cells() == auto_cells(zone_count as int, g.rows as int, g.columns as int),
        1 <= g.rows,
        1 <= g.columns,
{
    let n = zone_count;
    let mut rows: i32 = 1;
    while n / rows >= rows
        invariant
            1 <= rows <= n + 1,
            1 <= n,
            rows == 1 || (n as int) / ((rows - 1) as int) >= rows - 1,
        decreases n + 1 - rows,
    {
        proof {
            let ni = n as int;
            let ri = rows as int;
            assert(ri <= ni) by (nonlinear_arith)
                requires
                    1 <= ri,
                    ni / ri >= ri,
                    ni >= 1,
            ;
            if ri >= 2 && ri == ni {
                assert(ni / ri == 1) by (nonlinear_arith)
                    requires
                        ri == ni,
                        ri >= 2,
                ;
            }
        }
        rows = rows + 1;
    }
    proof {
        assert(rows >= 2) by {
            assert((n as int) / 1 == n);
        }
        assert((n as int) / ((rows - 1) as int) >= rows - 1);
    }
    rows = rows - 1;
    proof {
        lemma_auto_rows(n as int, rows as int);
    }
    let mut columns = n / rows;
    if n % rows != 0 {
        proof {
            let ni = n as int;
            let ri = rows as int;
            assert(ri >= 2);
            assert(ni / ri < ni) by (nonlinear_arith)
                requires
                    ri >= 2,
                    ni >= 1,
            ;
        }
        columns = columns + 1;
    }
    proof {
        assert(columns >= 1) by (nonlinear_arith)
            requires
                1 <= rows,
                n / rows >= rows,
                columns >= n / rows,
        ;
    }
    let rows_percents = equal_sizes(rows);
    let columns_percents = equal_sizes(columns);
    let mut cell_child_map: Vec<Vec<i32>> = Vec::new();
    let mut index: i32 = 0;
    let mut r: i32 = 0;
    while r < rows
        invariant
            0 <= r <= rows,
            1 <= columns,
            1 <= n,
            index == (if r * columns < n - 1 { r * columns } else { n - 1 }),
            cell_child_map@.len() == r,
            forall|k: int| 0 <= k < r ==> (#[trigger] cell_child_map@[k])@ == auto_cells(n as int, rows as int, columns as int)[k],
        decreases rows - r,
    {
        let mut row: Vec<i32> = Vec::new();
        let mut c: i32 = 0;
        while c < columns
            invariant
                0 <= r < rows,
                0 <= c <= columns,
                1 <= n,
                index == (if r * columns + c < n - 1 { r * columns + c } else { n - 1 }),
                row@ == auto_cells(n as int, rows as int, columns as int)[r as int].take(c as int),
            decreases columns - c,
        {
            row.push(index);
            index = index + 1;
            if index == n {
                index = index - 1;
            }
            c = c + 1;
            proof {
                assert(row@ =~= auto_cells(n as int, rows as int, columns as int)[r as int].take(c as int));
            }
        }
        proof {
            assert(row@ =~= auto_cells(n as int, rows as int, columns as int)[r as int]);
            assert(r * columns + columns == (r + 1) * columns) by (nonlinear_arith);
        }
        cell_child_map.push(row);
        r = r + 1;
    }
    let g = GridLayoutInfo {
        rows,
        columns,
        rows_percents,
        columns_percents,
        cell_child_map,
        show_spacing: false,
        spacing: 0,
        sensitivity_radius: 0,
    };
    proof {
        assert(g.cells() =~= auto_cells(n as int, rows as int, columns as int));
    }
    g
}

/// The zones of an automatic grid with `auto_rows` rows of equal height and
/// `auto_columns` columns of equal width, numbered row by row.
pub open spec fn auto_grid_layout(tw: int, th: int, n: int, s: int) -> Seq<(Rect, i64)> {
    if n <= 0 {
        Seq::empty()
    } else {
        grid_zones(
            auto_rows(n),
            auto_columns(n),
            equal_percents(auto_rows(n)),
            equal_percents(auto_columns(n)),
            auto_cells(n, auto_rows(n), auto_columns(n)),
            tw,
            th,
            s,
        )
    }
}

/// Zones on an automatic grid: about as many rows as columns, the last zone
/// taking any cells left over.
pub fn layout_grid(work_area: Rect, zone_count: i32, spacing: i32) -> (zones: Vec<Zone>)
    requires
        area_fits(work_area),
        zone_count >= 0,
    ensures
        zone_pairs(zones@) == auto_grid_layout(
            work_area.right - work_area.left,
            work_area.bottom - work_area.top,
            zone_count as int,
            spacing as int,
        ),
        ids_increasing(zone_pairs(zones@)),
{
    if zone_count == 0 {
        return Vec::new();
    }
    let grid = auto_grid(zone_count);
    proof {
        lemma_equal_bands_fit(grid.rows as int, work_area.bottom - work_area.top);
        lemma_equal_bands_fit(grid.columns as int, work_area.right - work_area.left);
    }
    calculate_grid_zones(work_area, &grid, spacing)
}

} // verus!

verus! {

/// The predefined priority grids for 1 to 11 zones: rows, columns, row and
/// column sizes, and cells.
pub open spec fn predefined_rows(n: i32) -> int {
    match n {
        1 => 1,
        2 => 1,
        3 => 1,
        4 => 2,
        5 => 2,
        6 => 3,
        7 => 3,
        8 => 3,
        9 => 3,
        10 => 3,
        11 => 3,
        _ => 0,
    }
}

pub open spec fn predefined_columns(n: i32) -> int {
    match n {
        1 => 1,
        2 => 2,
        3 => 3,
        4 => 3,
        5 => 3,
        6 => 3,
        7 => 3,
        8 => 4,
        9 => 4,
        10 => 4,
        11 => 4,
        _ => 0,
    }
}

pub open spec fn predefined_rows_percents(n: i32) -> Seq<i32> {
    match n {
        1 => seq![10000i32],
        2 => seq![10000i32],
        3 => seq![10000i32],
        4 => seq![5000i32, 5000i32],
        5 => seq![5000i32, 5000i32],
        6 => seq![3333i32, 3334i32, 3333i32],
        7 => seq![3333i32, 3334i32, 3333i32],
        8 => seq![3333i32, 3334i32, 3333i32],
        9 => seq![3333i32, 3334i32, 3333i32],
        10 => seq![3333i32, 3334i32, 3333i32],
        11 => seq![3333i32, 3334i32, 3333i32],
        _ => Seq::empty(),
    }
}

pub open spec fn predefined_columns_percents(n: i32) -> Seq<i32> {
    match n {
        1 => seq![10000i32],
        2 => seq![6667i32, 3333i32],
        3 => seq![2500i32, 5000i32, 2500i32],
        4 => seq![2500i32, 5000i32, 2500i32],
        5 => seq![2500i32, 5000i32, 2500i32],
        6 => seq![2500i32, 5000i32, 2500i32],
        7 => seq![2500i32, 5000i32, 2500i32],
        8 => seq![2500i32, 2500i32, 2500i32, 2500i32],
        9 => seq![2500i32, 2500i32, 2500i32, 2500i32],
        10 => seq![2500i32, 2500i32, 2500i32, 2500i32],
        11 => seq![2500i32, 2500i32, 2500i32, 2500i32],
        _ => Seq::empty(),
    }
}

pub open spec fn predefined_cells(n: i32) -> Seq<Seq<i32>> {
    match n {
        1 => seq![seq![0i32]],
        2 => seq![seq![0i32, 1i32]],
        3 => seq![seq![0i32, 1i32, 2i32]],
        4 => seq![seq![0i32, 1i32, 2i32], seq![0i32, 1i32, 3i32]],
        5 => seq![seq![0i32, 1i32, 2i32], seq![3i32, 1i32, 4i32]],
        6 => seq![seq![0i32, 1i32, 2i32], seq![0i32, 1i32, 3i32], seq![4i32, 1i32, 5i32]],
        7 => seq![seq![0i32, 1i32, 2i32], seq![3i32, 1i32, 4i32], seq![5i32, 1i32, 6i32]],
        8 => seq![seq![0i32, 1i32, 2i32, 3i32], seq![4i32, 1i32, 2i32, 5i32], seq![6i32, 1i32, 2i32, 7i32]],
        9 => seq![seq![0i32, 1i32, 2i32, 3i32], seq![4i32, 1i32, 2i32, 5i32], seq![6i32, 1i32, 7i32, 8i32]],
        10 => seq![seq![0i32, 1i32, 2i32, 3i32], seq![4i32, 1i32, 5i32, 6i32], seq![7i32, 1i32, 8i32, 9i32]],
        11 => seq![seq![0i32, 1i32, 2i32, 3i32], seq![4i32, 1i32, 5i32, 6i32], seq![7i32, 8i32, 9i32, 10i32]],
        _ => Seq::empty(),
    }
}

fn to_vec(a: &[i32]) -> (v: Vec<i32>)
    ensures
        v@ == a@,
{
    let mut v: Vec<i32> = Vec::new();
    let mut i: usize = 0;
    while i < a.len()
        invariant
            i <= a@.len(),
            v@ == a@.take(i as int),
        decreases a@.len() - i,
    {
        v.push(a[i]);
        i = i + 1;
        proof {
            assert(v@ =~= a@.take(i as int));
        }
    }
    proof {
        assert(v@ =~= a@);
    }
    v
}

/// The predefined priority grid for `n` zones, 1 to 11.
pub fn predefined_priority_grid(n: i32) -> (g: GridLayoutInfo)
    requires
        1 <= n <= 11,
    ensures
        g.rows == predefined_rows(n),
        g.columns == predefined_columns(n),
        g.rows_percents@ == predefined_rows_percents(n),
        g.columns_percents@ == predefined_columns_percents(n),
        g.cells() == predefined_cells(n),
{
    let (rows, columns, rows_percents, columns_percents, cell_child_map): (i32, i32, Vec<i32>, Vec<i32>, Vec<Vec<i32>>) = match n {
        1 => {
            let mut cells: Vec<Vec<i32>> = Vec::new();
            let r0 = to_vec(&[0]);
            assert(r0@ =~= seq![0i32]);
            cells.push(r0);
            proof {
                assert(cells@[0]@ =~= seq![0i32]);
                assert(cells@.map_values(|r: Vec<i32>| r@)[0] == seq![0i32]);
                assert(cells@.map_values(|r: Vec<i32>| r@) =~= predefined_cells(n));
            }
            (1, 1, to_vec(&[10000]), to_vec(&[10000]), cells)
        },
        2 => {
            let mut cells: Vec<Vec<i32>> = Vec::new();
            cells.push(to_vec(&[0, 1]));
            proof {
                assert(cells@.map_values(|r: Vec<i32>| r@) =~= predefined_cells(n));
            }
            (1, 2, to_vec(&[10000]), to_vec(&[6667, 3333]), cells)
        },
        3 => {
            let mut cells: Vec<Vec<i32>> = Vec::new();
            cells.push(to_vec(&[0, 1, 2]));
            proof {
                assert(cells@.map_values(|r: Vec<i32>| r@) =~= predefined_cells(n));
            }
            (1, 3, to_vec(&[10000]), to_vec(&[2500, 5000, 2500]), cells)
        },
        4 => {
            let mut cells: Vec<Vec<i32>> = Vec::new();
            cells.push(to_vec(&[0, 1, 2]));
            cells.push(to_vec(&[0, 1, 3]));
            proof {
                assert(cells@.map_values(|r: Vec<i32>| r@) =~= predefined_cells(n));
            }
            (2, 3, to_vec(&[5000, 5000]), to_vec(&[2500, 5000, 2500]), cells)
        },
        5 => {
            let mut cells: Vec<Vec<i32>> = Vec::new();
            cells.push(to_vec(&[0, 1, 2]));
            cells.push(to_vec(&[3, 1, 4]));
            proof {
                assert(cells@.map_values(|r: Vec<i32>| r@) =~= predefined_cells(n));
            }
            (2, 3, to_vec(&[5000, 5000]), to_vec(&[2500, 5000, 2500]), cells)
        },
        6 => {
            let mut cells: Vec<Vec<i32>> = Vec::new();
            cells.push(to_vec(&[0, 1, 2]));
            cells.push(to_vec(&[0, 1, 3]));
            cells.push(to_vec(&[4, 1, 5]));
            proof {
                assert(cells@.map_values(|r: Vec<i32>| r@) =~= predefined_cells(n));
            }
            (3, 3, to_vec(&[3333, 3334, 3333]), to_vec(&[2500, 5000, 2500]), cells)
        },
        7 => {
            let mut cells: Vec<Vec<i32>> = Vec::new();
            cells.push(to_vec(&[0, 1, 2]));
            cells.push(to_vec(&[3, 1, 4]));
            cells.push(to_vec(&[5, 1, 6]));
            proof {
                assert(cells@.map_values(|r: Vec<i32>| r@) =~= predefined_cells(n));
            }
            (3, 3, to_vec(&[3333, 3334, 3333]), to_vec(&[2500, 5000, 2500]), cells)
        },
        8 => {
            let mut cells: Vec<Vec<i32>> = Vec::new();
            cells.push(to_vec(&[0, 1, 2, 3]));
            cells.push(to_vec(&[4, 1, 2, 5]));
            cells.push(to_vec(&[6, 1, 2, 7]));
            proof {
                assert(cells@.map_values(|r: Vec<i32>| r@) =~= predefined_cells(n));
            }
            (3, 4, to_vec(&[3333, 3334, 3333]), to_vec(&[2500, 2500, 2500, 2500]), cells)
        },
        9 => {
            let mut cells: Vec<Vec<i32>> = Vec::new();
            cells.push(to_vec(&[0, 1, 2, 3]));
            cells.push(to_vec(&[4, 1, 2, 5]));
            cells.push(to_vec(&[6, 1, 7, 8]));
            proof {
                assert(cells@.map_values(|r: Vec<i32>| r@) =~= predefined_cells(n));
            }
            (3, 4, to_vec(&[3333, 3334, 3333]), to_vec(&[2500, 2500, 2500, 2500]), cells)
        },
        10 => {
            let mut cells: Vec<Vec<i32>> = Vec::new();
            cells.push(to_vec(&[0, 1, 2, 3]));
            cells.push(to_vec(&[4, 1, 5, 6]));
            cells.push(to_vec(&[7, 1, 8, 9]));
            proof {
                assert(cells@.map_values(|r: Vec<i32>| r@) =~= predefined_cells(n));
            }
            (3, 4, to_vec(&[3333, 3334, 3333]), to_vec(&[2500, 2500, 2500, 2500]), cells)
        },
        11 => {
            let mut cells: Vec<Vec<i32>> = Vec::new();
            cells.push(to_vec(&[0, 1, 2, 3]));
            cells.push(to_vec(&[4, 1, 5, 6]));
            cells.push(to_vec(&[7, 8, 9, 10]));
            proof {
                assert(cells@.map_values(|r: Vec<i32>| r@) =~= predefined_cells(n));
            }
            (3, 4, to_vec(&[3333, 3334, 3333]), to_vec(&[2500, 2500, 2500, 2500]), cells)
        },
        _ => {
            proof {
                assert(false);
            }
            (0, 0, Vec::new(), Vec::new(), Vec::new())
        },
    };
    GridLayoutInfo {
        rows,
        columns,
        rows_percents,
        columns_percents,
        cell_child_map,
        show_spacing: false,
        spacing: 0,
        sensitivity_radius: 0,
    }
}

} // verus!

verus! {

/// The zones of a priority grid: a predefined grid for up to 11 zones, an
/// automatic grid beyond.
pub open spec fn priority_grid_layout(tw: int, th: int, n: i32, s: int) -> Seq<(Rect, i64)> {
    if n <= 0 {
        Seq::empty()
    } else if n <= 11 {
        grid_zones(
            predefined_rows(n),
            predefined_columns(n),
            predefined_rows_percents(n),
            predefined_columns_percents(n),
            predefined_cells(n),
            tw,
            th,
            s,
        )
    } else {
        auto_grid_layout(tw, th, n as int, s)
    }
}

/// Sizes that are non-negative and sum to at most 10000 fit every product
/// with a side.
proof fn lemma_small_bands_fit(p: Seq<i32>, count: int, total: int)
    requires
        0 <= count <= p.len(),
        forall|k: int| 0 <= k < count ==> 0 <= #[trigger] p[k] <= 10000,
        prefix(p, count) <= 10000,
        -0x1_0000_0000 <= total <= 0x1_0000_0000,
    ensures
        bands_fit(p, count, total),
{
    assert forall|k: int| 0 <= k <= count implies -0x7fff_ffff_ffff_ffff <= #[trigger] prefix(p, k) * total
        <= 0x7fff_ffff_ffff_ffff by {
        lemma_prefix_monotone(p, k, count);
        lemma_mul_abs(prefix(p, k), total, 10000, 0x1_0000_0000);
    }
}

proof fn lemma_prefix_monotone(p: Seq<i32>, k: int, count: int)
    requires
        0 <= k <= count <= p.len(),
        forall|j: int| 0 <= j < count ==> 0 <= #[trigger] p[j] <= 10000,
    ensures
        0 <= prefix(p, k) <= prefix(p, count),
    decreases count - k,
{
    if k < count {
        lemma_prefix_monotone(p, k + 1, count);
        lemma_prefix_nonneg(p, k);
        assert(prefix(p, k + 1) == prefix(p, k) + p[k]);
    } else {
        lemma_prefix_nonneg(p, k);
    }
}

proof fn lemma_prefix_nonneg(p: Seq<i32>, k: int)
    requires
        0 <= k <= p.len(),
        forall|j: int| 0 <= j < k ==> 0 <= #[trigger] p[j],
    ensures
        0 <= prefix(p, k),
    decreases k,
{
    if k > 0 {
        lemma_prefix_nonneg(p, k - 1);
    }
}

/// Zones on the priority grid for `zone_count` zones.
pub fn layout_priority_grid(work_area: Rect, zone_count: i32, spacing: i32) -> (zones: Vec<Zone>)
    requires
        area_fits(work_area),
    ensures
        zone_pairs(zones@) == priority_grid_layout(
            work_area.right - work_area.left,
            work_area.bottom - work_area.top,
            zone_count,
            spacing as int,
        ),
        ids_increasing(zone_pairs(zones@)),
{
    if zone_count <= 0 {
        return Vec::new();
    }
    if zone_count <= 11 {
        let grid = predefined_priority_grid(zone_count);
        proof {
            reveal_with_fuel(prefix, 5);
            let n = zone_count;
            assert(grid_complete(
                grid.rows as int,
                grid.columns as int,
                grid.rows_percents@,
                grid.columns_percents@,
                grid.cells(),
            ));
            lemma_small_bands_fit(grid.rows_percents@, grid.rows as int, work_area.bottom - work_area.top);
            lemma_small_bands_fit(grid.columns_percents@, grid.columns as int, work_area.right - work_area.left);
        }
        return calculate_grid_zones(work_area, &grid, spacing);
    }
    layout_grid(work_area, zone_count, spacing)
}

} // verus!
