//! The display surface: a fixed 80x25 grid of character cells, row-major.
//!
//! On the hardware this grid lives in a memory-mapped region that must be
//! written with volatile stores; here the grid is held in ordinary memory,
//! and flushing it to such a region is the surrounding program's concern.
//! Each write replaces a whole cell at once, byte and color together, so a
//! cell never mixes the byte of one write with the color of another.

use vstd::prelude::*;

verus! {

/// Columns per row of the display surface.
pub const WIDTH: usize = 80;

/// Rows of the display surface.
pub const HEIGHT: usize = 25;

/// The byte a cleared cell shows: an ASCII space.
pub const BLANK: u8 = 0x20;

/// One character cell: a displayable byte and a packed color byte.
#[derive(Clone, Copy, PartialEq, Eq, Structural, Debug)]
pub struct Cell {
    pub ascii: u8,
    pub color: u8,
}

/// The grid of cells. Position (row, col) lives at index `row * WIDTH + col`.
pub struct Surface {
    cells: Vec<Cell>,
}

impl View for Surface {
    type V = Seq<Cell>;

    closed spec fn view(&self) -> Seq<Cell> {
        self.cells@
    }
}

impl Surface {
    /// The surface always covers the whole grid.
    pub open spec fn wf(&self) -> bool {
        self@.len() == WIDTH * HEIGHT
    }

    /// A fresh surface: every cell blank, with color byte zero.
    pub fn new() -> (s: Surface)
        ensures
            s.wf(),
            forall|i: int| 0 <= i < s@.len() ==> s@[i] == (Cell { ascii: BLANK, color: 0 }),
    {
        let mut cells: Vec<Cell> = Vec::new();
        let mut i: usize = 0;
        while i < WIDTH * HEIGHT
            invariant
                i <= WIDTH * HEIGHT,
                cells@.len() == i,
                forall|j: int| 0 <= j < i ==> cells@[j] == (Cell { ascii: BLANK, color: 0 }),
            decreases WIDTH * HEIGHT - i,
        {
            cells.push(Cell { ascii: BLANK, color: 0 });
            i = i + 1;
        }
        Surface { cells }
    }

    /// Writes one cell at (row, col). The caller keeps the position in
    /// bounds; the write replaces the whole cell and touches no other.
    pub fn set_cell(&mut self, row: usize, col: usize, cell: Cell)
        requires
            old(self).wf(),
            row < HEIGHT,
            col < WIDTH,
        ensures
            final(self).wf(),
            final(self)@ == old(self)@.update(row * WIDTH + col, cell),
    {
        let idx = row * WIDTH + col;
        self.cells.set(idx, cell);
    }

    /// Reads the cell at (row, col).
    pub fn get(&self, row: usize, col: usize) -> (c: Cell)
        requires
            self.wf(),
            row < HEIGHT,
            col < WIDTH,
        ensures
            c == self@[row * WIDTH + col],
    {
        self.cells[row * WIDTH + col]
    }

    /// Overwrites every cell of the grid with a blank in the given color.
    pub fn clear(&mut self, color: u8)
        requires
            old(self).wf(),
        ensures
            final(self).wf(),
            forall|i: int| 0 <= i < final(self)@.len() ==> final(self)@[i] == (Cell {
                ascii: BLANK,
                color,
            }),
    {
        let mut r: usize = 0;
        while r < HEIGHT
            invariant
                self.wf(),
                r <= HEIGHT,
                forall|i: int| 0 <= i < r * WIDTH ==> self@[i] == (Cell { ascii: BLANK, color }),
            decreases HEIGHT - r,
        {
            let mut c: usize = 0;
            while c < WIDTH
                invariant
                    self.wf(),
                    r < HEIGHT,
                    c <= WIDTH,
                    forall|i: int| 0 <= i < r * WIDTH + c ==> self@[i] == (Cell {
                        ascii: BLANK,
                        color,
                    }),
                decreases WIDTH - c,
            {
                self.set_cell(r, c, Cell { ascii: BLANK, color });
                c = c + 1;
            }
            r = r + 1;
        }
    }
}

} // verus!
