//! Points, sizes and the layout of a grid over a rectangular area.
//!
//! All coordinates are whole units. Where a position would leave the range of
//! `i32` it stops at the nearest end of that range.
use vstd::prelude::*;

verus! {

/// A position in screen space.
#[derive(Clone, Copy, PartialEq, Eq, Structural, Debug)]
pub struct Point {
    pub x: i32,
    pub y: i32,
}

/// A width and a height.
#[derive(Clone, Copy, PartialEq, Eq, Structural, Debug)]
pub struct Size {
    pub width: i32,
    pub height: i32,
}

/// A grid of equal cells, row-major from `origin` at the top left.
#[derive(Clone, Copy, PartialEq, Eq, Structural, Debug)]
pub struct Grid {
    pub origin: Point,
    pub rows: u32,
    pub cols: u32,
    pub cell_size: Size,
}

/// `v`, held to the range of `i32`.
pub open spec fn saturate(v: int) -> i32 {
    if v < i32::MIN {
        i32::MIN
    } else if v > i32::MAX {
        i32::MAX
    } else {
        v as i32
    }
}

/// Half of `v`, rounded toward zero.
pub open spec fn half(v: int) -> int {
    if v >= 0 {
        v / 2
    } else {
        -((-v) / 2)
    }
}

/// How many cells of about `target` units fit into `available` units: the
/// whole quotient, and one where that is less than one.
pub open spec fn cells_along(available: int, target: int) -> int
    recommends
        target > 0,
{
    if available / target >= 1 {
        available / target
    } else {
        1
    }
}

/// The grid that [`layout`] computes.
pub open spec fn spec_layout(origin: Point, available: Size, target_cell: u32) -> Grid
    recommends
        target_cell > 0,
{
    let cols: int = cells_along(available.width as int, target_cell as int);
    let rows: int = cells_along(available.height as int, target_cell as int);
    Grid {
        origin,
        rows: rows as u32,
        cols: cols as u32,
        cell_size: Size {
            width: (available.width as int / cols) as i32,
            height: (available.height as int / rows) as i32,
        },
    }
}

fn saturate_wide(v: i128) -> (r: i32)
    ensures
        r == saturate(v as int),
{
    if v < i32::MIN as i128 {
        i32::MIN
    } else if v > i32::MAX as i128 {
        i32::MAX
    } else {
        v as i32
    }
}

fn count_along(available: i32, target_cell: u32) -> (count: u32)
    requires
        target_cell > 0,
    ensures
        count == cells_along(available as int, target_cell as int),
        count >= 1,
        available > 0 ==> count <= available,
        available <= 0 ==> count == 1,
{
    let wide: i64 = available as i64;
    let target: i64 = target_cell as i64;
    proof {
        if available >= 0 {
            assert(0 <= available as int / target_cell as int <= available as int)
                by (nonlinear_arith)
                requires
                    available >= 0,
                    target_cell > 0,
            ;
        } else {
            assert(available as int / target_cell as int <= 0) by (nonlinear_arith)
                requires
                    available < 0,
                    target_cell > 0,
            ;
        }
    }
    if wide >= target {
        let count: i64 = wide / target;
        assert(count >= 1) by (nonlinear_arith)
            requires
                count == wide / target,
                wide >= target,
                target > 0,
        ;
        count as u32
    } else {
        assert(wide as int / target as int <= 0) by (nonlinear_arith)
            requires
                wide < target,
                target > 0,
        ;
        1
    }
}

fn extent_per_cell(available: i32, count: u32) -> (extent: i32)
    requires
        count >= 1,
        available <= 0 ==> count == 1,
    ensures
        extent == available as int / count as int,
{
    if available <= 0 {
        available
    } else {
        let wide: i64 = available as i64;
        let per: i64 = wide / (count as i64);
        assert(0 <= per <= wide) by (nonlinear_arith)
            requires
                per == wide / (count as i64),
                wide >= 0,
                count >= 1,
        ;
        per as i32
    }
}

/// Lays a grid over an area of `available` size whose top left corner is
/// `origin`, with cells of about `target_cell` units: as many whole columns
/// and rows as fit, never fewer than one, and the area divided evenly among
/// them.
pub fn layout(origin: Point, available: Size, target_cell: u32) -> (grid: Grid)
    requires
        target_cell > 0,
    ensures
        grid == spec_layout(origin, available, target_cell),
        grid.rows >= 1,
        grid.cols >= 1,
{
    let cols: u32 = count_along(available.width, target_cell);
    let rows: u32 = count_along(available.height, target_cell);
    Grid {
        origin,
        rows,
        cols,
        cell_size: Size {
            width: extent_per_cell(available.width, cols),
            height: extent_per_cell(available.height, rows),
        },
    }
}

impl Grid {
    /// Number of cells.
    pub open spec fn cell_count(self) -> int {
        self.rows * self.cols
    }

    /// Row-major index of the cell in `row` and `col`.
    pub open spec fn cell_index(self, row: int, col: int) -> int {
        row * self.cols + col
    }

    /// Top left corner of the cell in `row` and `col`.
    pub open spec fn spec_cell_origin(self, row: int, col: int) -> Point {
        Point {
            x: saturate(self.origin.x + col * self.cell_size.width),
            y: saturate(self.origin.y + row * self.cell_size.height),
        }
    }

    /// Center of the cell in `row` and `col`.
    pub open spec fn spec_cell_center(self, row: int, col: int) -> Point {
        Point {
            x: saturate(
                self.origin.x + col * self.cell_size.width + half(self.cell_size.width as int),
            ),
            y: saturate(
                self.origin.y + row * self.cell_size.height + half(self.cell_size.height as int),
            ),
        }
    }

    /// Center of the cell with the given row-major index.
    pub open spec fn center_at(self, index: int) -> Point
        recommends
            self.cols >= 1,
    {
        self.spec_cell_center(index / self.cols as int, index % self.cols as int)
    }

    /// Top left corner of the cell in `row` and `col`.
    pub fn cell_origin(&self, row: u32, col: u32) -> (p: Point)
        ensures
            p == self.spec_cell_origin(row as int, col as int),
    {
        Point {
            x: offset_along(self.origin.x, col, self.cell_size.width, 0),
            y: offset_along(self.origin.y, row, self.cell_size.height, 0),
        }
    }

    /// Center of the cell in `row` and `col`.
    pub fn cell_center(&self, row: u32, col: u32) -> (p: Point)
        ensures
            p == self.spec_cell_center(row as int, col as int),
    {
        let half_width: i32 = self.cell_size.width / 2;
        let half_height: i32 = self.cell_size.height / 2;
        Point {
            x: offset_along(self.origin.x, col, self.cell_size.width, half_width),
            y: offset_along(self.origin.y, row, self.cell_size.height, half_height),
        }
    }
}

fn offset_along(start: i32, steps: u32, step: i32, extra: i32) -> (r: i32)
    ensures
        r == saturate(start + steps * step + extra),
{
    assert(-0x8000_0000_0000_0000 <= (steps as int) * (step as int) <= 0x8000_0000_0000_0000)
        by (nonlinear_arith)
        requires
            0 <= steps <= 0x1_0000_0000,
            -0x8000_0000 <= step <= 0x8000_0000,
    ;
    let span: i128 = (steps as i128) * (step as i128);
    saturate_wide(start as i128 + span + extra as i128)
}

/// The number of cells along an extent is at least one and fits in 32 bits.
pub proof fn lemma_cells_along_fits(available: int, target: int)
    requires
        i32::MIN <= available <= i32::MAX,
        0 < target,
    ensures
        1 <= cells_along(available, target) <= i32::MAX,
{
    if available >= 0 {
        assert(available / target <= available) by (nonlinear_arith)
            requires
                available >= 0,
                target > 0,
        ;
    } else {
        assert(available / target <= 0) by (nonlinear_arith)
            requires
                available < 0,
                target > 0,
        ;
    }
}

/// A grid laid over an area of positive size has at least one row and one
/// column and cells of positive size, and its cells cover the area up to a
/// remainder of less than one unit per column and per row; they cover it
/// exactly where the count divides the extent.
pub proof fn lemma_layout_tiles(origin: Point, available: Size, target_cell: u32)
    requires
        available.width > 0,
        available.height > 0,
        target_cell > 0,
    ensures
        ({
            let grid = spec_layout(origin, available, target_cell);
            &&& grid.origin == origin
            &&& grid.rows >= 1
            &&& grid.cols >= 1
            &&& grid.cell_size.width >= 1
            &&& grid.cell_size.height >= 1
            &&& grid.cols * grid.cell_size.width <= available.width
            &&& available.width - grid.cols < grid.cols * grid.cell_size.width
            &&& grid.rows * grid.cell_size.height <= available.height
            &&& available.height - grid.rows < grid.rows * grid.cell_size.height
            &&& available.width as int % grid.cols as int == 0 ==> grid.cols
                * grid.cell_size.width == available.width
            &&& available.height as int % grid.rows as int == 0 ==> grid.rows
                * grid.cell_size.height == available.height
        }),
{
    lemma_even_share(available.width as int, target_cell as int);
    lemma_even_share(available.height as int, target_cell as int);
}

/// In a grid laid over an area of positive size that lies within the range
/// of the coordinates, every cell lies within the area, and its center is
/// found without rounding at the ends of the range.
pub proof fn lemma_cells_inside(
    origin: Point,
    available: Size,
    target_cell: u32,
    row: int,
    col: int,
)
    requires
        available.width > 0,
        available.height > 0,
        target_cell > 0,
        origin.x + available.width <= i32::MAX,
        origin.y + available.height <= i32::MAX,
        0 <= row < spec_layout(origin, available, target_cell).rows,
        0 <= col < spec_layout(origin, available, target_cell).cols,
    ensures
        ({
            let grid = spec_layout(origin, available, target_cell);
            let corner = grid.spec_cell_origin(row, col);
            let center = grid.spec_cell_center(row, col);
            &&& corner.x == origin.x + col * grid.cell_size.width
            &&& corner.y == origin.y + row * grid.cell_size.height
            &&& center.x == corner.x + grid.cell_size.width / 2
            &&& center.y == corner.y + grid.cell_size.height / 2
            &&& origin.x <= corner.x <= center.x < corner.x + grid.cell_size.width <= origin.x
                + available.width
            &&& origin.y <= corner.y <= center.y < corner.y + grid.cell_size.height <= origin.y
                + available.height
        }),
{
    let grid = spec_layout(origin, available, target_cell);
    lemma_layout_tiles(origin, available, target_cell);
    lemma_cell_span(col, grid.cols as int, grid.cell_size.width as int);
    lemma_cell_span(row, grid.rows as int, grid.cell_size.height as int);
}

/// A cell with a given number among `count` cells of one extent begins and
/// ends within the span of all of them.
proof fn lemma_cell_span(number: int, count: int, extent: int)
    requires
        0 <= number < count,
        extent >= 1,
    ensures
        0 <= number * extent,
        number * extent + extent <= count * extent,
{
    assert(0 <= number * extent && number * extent + extent <= count * extent)
        by (nonlinear_arith)
        requires
            0 <= number < count,
            extent >= 1,
    ;
}

/// Dividing a positive extent among the cells that fit leaves each at least
/// one unit and wastes less than one unit per cell.
proof fn lemma_even_share(available: int, target: int)
    requires
        0 < available <= i32::MAX,
        0 < target <= u32::MAX,
    ensures
        ({
            let count: int = cells_along(available, target);
            let share: int = available / count;
            &&& 1 <= count <= available
            &&& 1 <= share <= available
            &&& count * share <= available
            &&& available - count < count * share
            &&& available % count == 0 ==> count * share == available
        }),
{
    let count: int = cells_along(available, target);
    assert(0 <= available / target <= available) by (nonlinear_arith)
        requires
            available > 0,
            target > 0,
    ;
    let share: int = available / count;
    assert(available == count * share + available % count && 0 <= available % count < count
        && share >= 1 && share <= available) by (nonlinear_arith)
        requires
            1 <= count <= available,
            share == available / count,
    ;
}

} // verus!
