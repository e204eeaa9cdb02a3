//! The bounded playfield: an odd-by-odd rectangle of cells centred on the
//! origin, together with a row-major numbering of its cells.

use crate::grid::Cell;
use vstd::prelude::*;

verus! {

/// Largest half extent whose full extent still fits the coordinate type.
pub const MAX_HALF_EXTENT: i32 = 1_073_741_823;

/// Playfield bounds. Fixed once created.
#[derive(Clone, Copy, Debug, PartialEq, Eq, Structural)]
pub struct Playfield {
    half_width: i32,
    half_height: i32,
}

impl Playfield {
    /// Number of columns on either side of the centre column.
    pub closed spec fn spec_half_width(&self) -> int {
        self.half_width as int
    }

    /// Number of rows on either side of the centre row.
    pub closed spec fn spec_half_height(&self) -> int {
        self.half_height as int
    }

    /// Both extents are non-negative and small enough for the full extent to
    /// be a coordinate.
    pub open spec fn wf(&self) -> bool {
        &&& 0 <= self.spec_half_width() <= MAX_HALF_EXTENT
        &&& 0 <= self.spec_half_height() <= MAX_HALF_EXTENT
    }

    pub open spec fn spec_width(&self) -> int {
        2 * self.spec_half_width() + 1
    }

    pub open spec fn spec_height(&self) -> int {
        2 * self.spec_half_height() + 1
    }

    /// A cell lies on the playfield when neither coordinate exceeds the half
    /// extent in absolute value.
    pub open spec fn spec_contains(&self, c: Cell) -> bool {
        &&& -self.spec_half_width() <= c.x <= self.spec_half_width()
        &&& -self.spec_half_height() <= c.y <= self.spec_half_height()
    }

    pub open spec fn spec_cell_count(&self) -> int {
        self.spec_width() * self.spec_height()
    }

    /// The cell with row-major number `i`, counted from the bottom-left corner.
    pub open spec fn spec_cell_at(&self, i: int) -> Cell
        recommends
            self.wf(),
            0 <= i < self.spec_cell_count(),
    {
        Cell {
            x: (i % self.spec_width() - self.spec_half_width()) as i32,
            y: (i / self.spec_width() - self.spec_half_height()) as i32,
        }
    }

    /// All cells of the playfield in row-major order.
    pub open spec fn spec_cells(&self) -> Seq<Cell> {
        Seq::new(self.spec_cell_count() as nat, |i: int| self.spec_cell_at(i))
    }

    /// The row-major number of a cell of the playfield.
    pub open spec fn spec_index_of(&self, c: Cell) -> int
        recommends
            self.wf(),
            self.spec_contains(c),
    {
        (c.y + self.spec_half_height()) * self.spec_width() + (c.x + self.spec_half_width())
    }

    /// A playfield of `width` by `height` cells. Both must be positive and
    /// odd, so that the origin is the exact centre.
    pub fn new(width: i32, height: i32) -> (r: Option<Playfield>)
        ensures
            r.is_some() == (width > 0 && height > 0 && width % 2 == 1 && height % 2 == 1),
            r matches Some(p) ==> p.wf() && p.spec_width() == width && p.spec_height() == height,
    {
        if width <= 0 || height <= 0 {
            return None;
        }
        if width % 2 != 1 || height % 2 != 1 {
            return None;
        }
        Some(Playfield { half_width: width / 2, half_height: height / 2 })
    }

    pub fn half_width(&self) -> (r: i32)
        ensures
            r == self.spec_half_width(),
    {
        self.half_width
    }

    pub fn half_height(&self) -> (r: i32)
        ensures
            r == self.spec_half_height(),
    {
        self.half_height
    }

    pub fn width(&self) -> (r: i32)
        requires
            self.wf(),
        ensures
            r == self.spec_width(),
    {
        2 * self.half_width + 1
    }

    pub fn height(&self) -> (r: i32)
        requires
            self.wf(),
        ensures
            r == self.spec_height(),
    {
        2 * self.half_height + 1
    }

    /// The centre cell, where the snake starts.
    pub fn center(&self) -> (c: Cell)
        ensures
            c == (Cell { x: 0, y: 0 }),
            self.wf() ==> self.spec_contains(c),
    {
        Cell { x: 0, y: 0 }
    }

    /// Whether a cell lies on the playfield.
    #[verifier::when_used_as_spec(spec_contains)]
    pub fn contains(&self, c: Cell) -> (b: bool)
        requires
            self.wf(),
        ensures
            b == self.spec_contains(c),
    {
        -self.half_width <= c.x && c.x <= self.half_width && -self.half_height <= c.y && c.y
            <= self.half_height
    }

    /// Number of cells on the playfield.
    pub fn cell_count(&self) -> (n: u64)
        requires
            self.wf(),
        ensures
            n == self.spec_cell_count(),
            n >= 1,
    {
        let w: u64 = self.width() as u64;
        let h: u64 = self.height() as u64;
        assert(1 <= w * h <= 0x7fff_ffff * 0x7fff_ffff) by (nonlinear_arith)
            requires
                1 <= w <= 0x7fff_ffff,
                1 <= h <= 0x7fff_ffff,
        ;
        w * h
    }

    /// The cell with row-major number `index`.
    pub fn cell_at(&self, index: u64) -> (c: Cell)
        requires
            self.wf(),
            index < self.spec_cell_count(),
        ensures
            c == self.spec_cell_at(index as int),
            self.spec_contains(c),
            self.spec_index_of(c) == index,
    {
        proof {
            lemma_cell_at_index(*self, index as int);
        }
        let w: u64 = self.width() as u64;
        let col: u64 = index % w;
        let row: u64 = index / w;
        Cell {
            x: (col as i64 - self.half_width as i64) as i32,
            y: (row as i64 - self.half_height as i64) as i32,
        }
    }

    /// The row-major number of a cell of the playfield.
    pub fn index_of(&self, c: Cell) -> (index: u64)
        requires
            self.wf(),
            self.spec_contains(c),
        ensures
            index == self.spec_index_of(c),
            index < self.spec_cell_count(),
            self.spec_cell_at(index as int) == c,
    {
        proof {
            lemma_index_of_cell(*self, c);
        }
        let w: u64 = self.width() as u64;
        let col: u64 = (c.x as i64 + self.half_width as i64) as u64;
        let row: u64 = (c.y as i64 + self.half_height as i64) as u64;
        assert(row * w + col < 0x7fff_ffff * 0x7fff_ffff) by (nonlinear_arith)
            requires
                1 <= w <= 0x7fff_ffff,
                0 <= row < 0x7fff_ffff,
                0 <= col < w,
        ;
        row * w + col
    }
}

/// Numbering the cells and looking a number up are inverse to each other:
/// every number below the cell count names a cell of the playfield, and that
/// cell has this number.
pub proof fn lemma_cell_at_index(p: Playfield, i: int)
    requires
        p.wf(),
        0 <= i < p.spec_cell_count(),
    ensures
        0 <= i % p.spec_width() < p.spec_width(),
        0 <= i / p.spec_width() < p.spec_height(),
        p.spec_contains(p.spec_cell_at(i)),
        p.spec_index_of(p.spec_cell_at(i)) == i,
{
    let w = p.spec_width();
    let h = p.spec_height();
    vstd::arithmetic::div_mod::lemma_fundamental_div_mod(i, w);
    vstd::arithmetic::div_mod::lemma_mod_bound(i, w);
    let q = i / w;
    let r = i % w;
    assert(0 <= q < h) by (nonlinear_arith)
        requires
            i == w * q + r,
            0 <= r < w,
            0 <= i < w * h,
            w > 0,
    ;
    assert(q * w == w * q) by (nonlinear_arith);
}

/// Every cell of the playfield has a number below the cell count, and that
/// number names the cell.
pub proof fn lemma_index_of_cell(p: Playfield, c: Cell)
    requires
        p.wf(),
        p.spec_contains(c),
    ensures
        0 <= p.spec_index_of(c) < p.spec_cell_count(),
        p.spec_cell_at(p.spec_index_of(c)) == c,
{
    let w = p.spec_width();
    let h = p.spec_height();
    let col = c.x + p.spec_half_width();
    let row = c.y + p.spec_half_height();
    let i = p.spec_index_of(c);
    assert(0 <= row * w + col < w * h) by (nonlinear_arith)
        requires
            0 <= col < w,
            0 <= row < h,
    ;
    vstd::arithmetic::div_mod::lemma_fundamental_div_mod_converse(i, w, row, col);
}

/// Position of a cell in pixels for a square cell of `unit` pixels: each
/// coordinate is scaled by `unit`. The centre cell maps to the pixel origin.
pub fn cell_to_pixel(cell: Cell, unit: i32) -> (p: (i64, i64))
    ensures
        p.0 == cell.x * unit,
        p.1 == cell.y * unit,
{
    let x: i64 = cell.x as i64;
    let y: i64 = cell.y as i64;
    let u: i64 = unit as i64;
    assert(-0x8000_0000 * 0x8000_0000 <= x * u <= 0x8000_0000 * 0x8000_0000) by (nonlinear_arith)
        requires
            -0x8000_0000 <= x <= 0x7fff_ffff,
            -0x8000_0000 <= u <= 0x7fff_ffff,
    ;
    assert(-0x8000_0000 * 0x8000_0000 <= y * u <= 0x8000_0000 * 0x8000_0000) by (nonlinear_arith)
        requires
            -0x8000_0000 <= y <= 0x7fff_ffff,
            -0x8000_0000 <= u <= 0x7fff_ffff,
    ;
    (x * u, y * u)
}

} // verus!
