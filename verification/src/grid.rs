//! The grid model: cells, colors, rectangular areas, and the fixed-size
//! row-major buffer of cells with point access and sub-region compositing.

use vstd::prelude::*;

verus! {

/// A foreground or background color of a cell. Only the colors this crate
/// actually paints are represented: the terminal default and the two colors
/// of the cursor highlight.
#[derive(Clone, Copy, Debug, PartialEq, Eq, Structural)]
pub enum Color {
    Reset,
    White,
    Blue,
}

/// A cell's display symbol: one code point for an ordinary character, or two
/// for the space-prefixed rendering of a zero-width character. A symbol is
/// never empty, by construction.
#[derive(Clone, Copy, Debug, PartialEq, Eq, Structural)]
pub enum Symbol {
    One(char),
    Pair(char, char),
}

/// The smallest renderable unit: a display symbol plus a foreground and a
/// background color.
#[derive(Clone, Copy, Debug, PartialEq, Eq, Structural)]
pub struct Cell {
    pub symbol: Symbol,
    pub fg: Color,
    pub bg: Color,
}

/// A rectangular region of a grid, given by its origin and its size.
#[derive(Clone, Copy, Debug, PartialEq, Eq, Structural)]
pub struct Area {
    pub x: u16,
    pub y: u16,
    pub width: u16,
    pub height: u16,
}

impl Area {
    /// True when this area lies entirely inside a grid of the given size.
    pub open spec fn fits_in(self, width: u16, height: u16) -> bool {
        &&& self.x + self.width <= width
        &&& self.y + self.height <= height
    }

    pub fn new(x: u16, y: u16, width: u16, height: u16) -> (result: Area)
        ensures
            result == (Area { x, y, width, height }),
    {
        Area { x, y, width, height }
    }
}

/// A fixed-width, fixed-height grid of cells, stored row-major. Created once
/// at its final dimensions and mutated in place; never resized.
pub struct GridBuffer {
    width: u16,
    height: u16,
    cells: Vec<Cell>,
}

impl GridBuffer {
    pub closed spec fn spec_width(self) -> u16 {
        self.width
    }

    pub closed spec fn spec_height(self) -> u16 {
        self.height
    }

    /// The cells in row-major order.
    pub closed spec fn cells(self) -> Seq<Cell> {
        self.cells@
    }

    /// Well-formedness: the cell sequence covers the grid exactly.
    pub open spec fn wf(self) -> bool {
        self.cells().len() == self.spec_width() * self.spec_height()
    }

    /// True when (x, y) addresses a cell of this grid.
    pub open spec fn in_bounds(self, x: int, y: int) -> bool {
        &&& 0 <= x < self.spec_width()
        &&& 0 <= y < self.spec_height()
    }

    /// The cell at column x, row y.
    pub open spec fn cell_at(self, x: int, y: int) -> Cell {
        self.cells()[y * self.spec_width() + x]
    }

    /// A coordinate within bounds addresses a position within the cell
    /// sequence.
    pub proof fn lemma_cell_index(self, x: int, y: int)
        requires
            self.wf(),
            self.in_bounds(x, y),
        ensures
            0 <= y * self.spec_width() + x < self.cells().len(),
    {
        let w = self.spec_width() as int;
        let h = self.spec_height() as int;
        assert(y * w + x < w * h) by (nonlinear_arith)
            requires
                0 <= x < w,
                0 <= y < h,
        ;
        assert(0 <= y * w + x) by (nonlinear_arith)
            requires
                0 <= x,
                0 <= y,
                0 <= w,
        ;
    }

    /// Row-major indexing is injective over in-bounds coordinates.
    pub proof fn lemma_index_injective(self, x1: int, y1: int, x2: int, y2: int)
        requires
            self.in_bounds(x1, y1),
            self.in_bounds(x2, y2),
            y1 * self.spec_width() + x1 == y2 * self.spec_width() + x2,
        ensures
            x1 == x2 && y1 == y2,
    {
        let w = self.spec_width() as int;
        assert(x1 == x2 && y1 == y2) by (nonlinear_arith)
            requires
                0 <= x1 < w,
                0 <= x2 < w,
                0 <= y1,
                0 <= y2,
                y1 * w + x1 == y2 * w + x2,
        ;
    }

    /// A grid of the given dimensions with every cell equal to `fill`.
    pub fn new(width: u16, height: u16, fill: Cell) -> (result: GridBuffer)
        ensures
            result.wf(),
            result.spec_width() == width,
            result.spec_height() == height,
            forall|x: int, y: int| result.in_bounds(x, y) ==> result.cell_at(x, y) == fill,
    {
        proof {
            assert((width as int) * (height as int) <= 65535 * 65535) by (nonlinear_arith)
                requires
                    width <= 65535,
                    height <= 65535,
            ;
        }
        let total: usize = (width as usize) * (height as usize);
        let mut cells: Vec<Cell> = Vec::new();
        while cells.len() < total
            invariant
                cells@.len() <= total,
                forall|i: int| 0 <= i < cells@.len() ==> cells@[i] == fill,
            decreases total - cells@.len(),
        {
            cells.push(fill);
        }
        let result = GridBuffer { width, height, cells };
        proof {
            assert forall|x: int, y: int| result.in_bounds(x, y) implies result.cell_at(x, y)
                == fill by {
                result.lemma_cell_index(x, y);
            }
        }
        result
    }

    pub fn width(&self) -> (result: u16)
        ensures
            result == self.spec_width(),
    {
        self.width
    }

    pub fn height(&self) -> (result: u16)
        ensures
            result == self.spec_height(),
    {
        self.height
    }

    /// Read the cell at (x, y). Out-of-range coordinates are a precondition
    /// violation, never a silent clamp.
    pub fn get(&self, x: u16, y: u16) -> (result: Cell)
        requires
            self.wf(),
            self.in_bounds(x as int, y as int),
        ensures
            result == self.cell_at(x as int, y as int),
    {
        proof {
            self.lemma_cell_index(x as int, y as int);
            assert((y as int) * (self.width as int) + (x as int) <= 65535 * 65535 + 65535)
                by (nonlinear_arith)
                requires
                    y <= 65535,
                    x <= 65535,
                    self.width as int <= 65535,
            ;
        }
        let i: usize = (y as usize) * (self.width as usize) + (x as usize);
        self.cells[i]
    }

    /// True when (px, py), a coordinate of a destination grid, receives a
    /// cell when this grid is composited into `area` of that destination:
    /// the intersection of `area` with this grid's own extent, placed at the
    /// area's origin.
    pub open spec fn copies_to(self, area: Area, px: int, py: int) -> bool {
        &&& area.x <= px < area.x + vstd::math::min(area.width as int, self.spec_width() as int)
        &&& area.y <= py < area.y + vstd::math::min(area.height as int, self.spec_height() as int)
    }

    /// Copy `min(area.width, self.width) x min(area.height, self.height)`
    /// cells of this grid, row-major, into `dest` at the origin of `area`.
    /// Destination cells outside that intersection keep their prior value:
    /// the caller owns any clearing of blank regions.
    pub fn compose(&self, area: Area, dest: &mut GridBuffer)
        requires
            self.wf(),
            old(dest).wf(),
            area.fits_in(old(dest).spec_width(), old(dest).spec_height()),
        ensures
            final(dest).wf(),
            final(dest).spec_width() == old(dest).spec_width(),
            final(dest).spec_height() == old(dest).spec_height(),
            forall|px: int, py: int|
                final(dest).in_bounds(px, py) ==> final(dest).cell_at(px, py) == (
                if self.copies_to(area, px, py) {
                    self.cell_at(px - area.x, py - area.y)
                } else {
                    old(dest).cell_at(px, py)
                }),
    {
        let copy_w: u16 = if area.width < self.width {
            area.width
        } else {
            self.width
        };
        let copy_h: u16 = if area.height < self.height {
            area.height
        } else {
            self.height
        };
        let mut y: u16 = 0;
        while y < copy_h
            invariant
                self.wf(),
                dest.wf(),
                dest.spec_width() == old(dest).spec_width(),
                dest.spec_height() == old(dest).spec_height(),
                copy_w == vstd::math::min(area.width as int, self.spec_width() as int),
                copy_h == vstd::math::min(area.height as int, self.spec_height() as int),
                area.fits_in(dest.spec_width(), dest.spec_height()),
                y <= copy_h,
                forall|px: int, py: int|
                    dest.in_bounds(px, py) ==> dest.cell_at(px, py) == (
                    if area.x <= px < area.x + copy_w && area.y <= py < area.y + y {
                        self.cell_at(px - area.x, py - area.y)
                    } else {
                        old(dest).cell_at(px, py)
                    }),
            decreases copy_h - y,
        {
            let mut x: u16 = 0;
            while x < copy_w
                invariant
                    self.wf(),
                    dest.wf(),
                    dest.spec_width() == old(dest).spec_width(),
                    dest.spec_height() == old(dest).spec_height(),
                    copy_w == vstd::math::min(area.width as int, self.spec_width() as int),
                    copy_h == vstd::math::min(area.height as int, self.spec_height() as int),
                    area.fits_in(dest.spec_width(), dest.spec_height()),
                    y < copy_h,
                    x <= copy_w,
                    forall|px: int, py: int|
                        dest.in_bounds(px, py) ==> dest.cell_at(px, py) == (
                        if area.x <= px < area.x + copy_w && (area.y <= py < area.y + y || (py
                            == area.y + y && area.x <= px < area.x + x)) {
                            self.cell_at(px - area.x, py - area.y)
                        } else {
                            old(dest).cell_at(px, py)
                        }),
                decreases copy_w - x,
            {
                let cell = self.get(x, y);
                dest.set(area.x + x, area.y + y, cell);
                x = x + 1;
            }
            y = y + 1;
        }
    }

    /// Overwrite the cell at (x, y); every other cell is unchanged.
    pub fn set(&mut self, x: u16, y: u16, cell: Cell)
        requires
            old(self).wf(),
            old(self).in_bounds(x as int, y as int),
        ensures
            final(self).wf(),
            final(self).spec_width() == old(self).spec_width(),
            final(self).spec_height() == old(self).spec_height(),
            final(self).cells() == old(self).cells().update(
                y as int * old(self).spec_width() + x as int,
                cell,
            ),
            final(self).cell_at(x as int, y as int) == cell,
            forall|i: int, j: int|
                final(self).in_bounds(i, j) && !(i == x as int && j == y as int)
                    ==> final(self).cell_at(i, j) == old(self).cell_at(i, j),
    {
        proof {
            self.lemma_cell_index(x as int, y as int);
            assert((y as int) * (self.width as int) + (x as int) <= 65535 * 65535 + 65535)
                by (nonlinear_arith)
                requires
                    y <= 65535,
                    x <= 65535,
                    self.width as int <= 65535,
            ;
        }
        let i: usize = (y as usize) * (self.width as usize) + (x as usize);
        self.cells[i] = cell;
        proof {
            assert forall|i2: int, j2: int|
                self.in_bounds(i2, j2) && !(i2 == x as int && j2 == y as int)
                    implies self.cell_at(i2, j2) == old(self).cell_at(i2, j2) by {
                self.lemma_cell_index(i2, j2);
                if j2 * self.spec_width() + i2 == y as int * self.spec_width() + x as int {
                    self.lemma_index_injective(i2, j2, x as int, y as int);
                }
            }
        }
    }
}

} // verus!
