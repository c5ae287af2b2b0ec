//! The line-oriented text writer: a cursor and an active color over the
//! display surface, with typewriter semantics.
//!
//! A newline moves the cursor to the start of the next row and writes no
//! cell. Any other byte is first mapped to a glyph (printable ASCII passes
//! through, everything else becomes a fixed placeholder), then written at
//! the cursor, wrapping to the next row when the current one is full. Once
//! the cursor has moved past the bottom row, bytes are dropped silently:
//! the surface does not scroll.

use vstd::prelude::*;
use vstd::string::StringSliceAdditionalSpecFns;

use crate::color::Color;
use crate::color::pack_color;
use crate::color::spec_pack_color;
use crate::surface::BLANK;
use crate::surface::Cell;
use crate::surface::HEIGHT;
use crate::surface::Surface;
use crate::surface::WIDTH;

verus! {

/// The newline byte.
pub const NEWLINE: u8 = 0x0a;

/// The glyph written in place of a byte that is neither printable ASCII nor
/// a newline.
pub const PLACEHOLDER: u8 = 0xfe;

/// Whether a byte lies in the printable ASCII range.
pub open spec fn is_printable(b: u8) -> bool {
    0x20 <= b <= 0x7e
}

/// The glyph a byte puts on the surface: itself when printable, the
/// placeholder otherwise.
pub open spec fn glyph_of(b: u8) -> u8 {
    if is_printable(b) {
        b
    } else {
        PLACEHOLDER
    }
}

/// The abstract state of the writer: cursor position, active color, and the
/// grid contents.
#[verifier::ext_equal]
pub struct TermView {
    pub row: int,
    pub col: int,
    pub color: u8,
    pub grid: Seq<Cell>,
}

impl TermView {
    /// The cursor stays on the grid, except that `col == WIDTH` is the
    /// transient state of a full row awaiting wrap, and `row == HEIGHT`
    /// means the bottom has been passed and further bytes are dropped.
    pub open spec fn wf(self) -> bool {
        &&& 0 <= self.col <= WIDTH
        &&& 0 <= self.row <= HEIGHT
        &&& self.grid.len() == WIDTH * HEIGHT
    }

    /// The cursor moved to the start of the next row. The row is capped at
    /// the height: past the bottom every write is dropped, so a larger row
    /// would be indistinguishable from this one.
    pub open spec fn next_line(self) -> TermView {
        TermView {
            row: if self.row < HEIGHT {
                self.row + 1
            } else {
                self.row
            },
            col: 0,
            ..self
        }
    }

    /// The state after accepting one byte.
    pub open spec fn write_byte(self, b: u8) -> TermView {
        if b == NEWLINE {
            self.next_line()
        } else {
            let s = if self.col >= WIDTH {
                self.next_line()
            } else {
                self
            };
            if s.row < HEIGHT {
                TermView {
                    col: s.col + 1,
                    grid: s.grid.update(
                        s.row * WIDTH + s.col,
                        Cell { ascii: glyph_of(b), color: s.color },
                    ),
                    ..s
                }
            } else {
                s
            }
        }
    }

    /// The state after accepting a sequence of bytes, in order.
    pub open spec fn write_bytes(self, bs: Seq<u8>) -> TermView
        decreases bs.len(),
    {
        if bs.len() == 0 {
            self
        } else {
            self.write_byte(bs[0]).write_bytes(bs.drop_first())
        }
    }

    /// The state after a clear: every cell blank in the active color, the
    /// cursor back at the origin.
    pub open spec fn cleared(self) -> TermView {
        TermView {
            row: 0,
            col: 0,
            color: self.color,
            grid: Seq::new((WIDTH * HEIGHT) as nat, |i: int| Cell { ascii: BLANK, color: self.color }),
        }
    }
}

/// Accepting the bytes of `bs` and then the byte `b` is the same as
/// accepting the sequence `bs.push(b)` at once.
pub proof fn lemma_write_bytes_snoc(v: TermView, bs: Seq<u8>, b: u8)
    ensures
        v.write_bytes(bs.push(b)) == v.write_bytes(bs).write_byte(b),
    decreases bs.len(),
{
    if bs.len() == 0 {
        assert(bs.push(b)[0] == b);
        assert(bs.push(b).drop_first() =~= Seq::<u8>::empty());
        assert(v.write_bytes(bs.push(b)) == v.write_byte(b)) by {
            reveal_with_fuel(TermView::write_bytes, 2);
        };
        assert(v.write_bytes(bs) == v);
    } else {
        assert(bs.push(b)[0] == bs[0]);
        assert(bs.push(b).drop_first() =~= bs.drop_first().push(b));
        lemma_write_bytes_snoc(v.write_byte(bs[0]), bs.drop_first(), b);
        assert(v.write_bytes(bs.push(b)) == v.write_byte(bs[0]).write_bytes(bs.drop_first().push(b)));
    }
}

/// The writer: cursor, active color, and the surface it draws on.
pub struct Writer {
    pub col: usize,
    pub row: usize,
    pub color: u8,
    pub surface: Surface,
}

impl View for Writer {
    type V = TermView;

    open spec fn view(&self) -> TermView {
        TermView {
            row: self.row as int,
            col: self.col as int,
            color: self.color,
            grid: self.surface@,
        }
    }
}

impl Writer {
    /// A fresh writer: cursor at the origin, light green on black, over a
    /// fresh surface.
    pub fn new() -> (w: Writer)
        ensures
            w@.wf(),
            w@.row == 0,
            w@.col == 0,
            w@.color == spec_pack_color(Color::LightGreen, Color::Black),
            forall|i: int| 0 <= i < w@.grid.len() ==> w@.grid[i] == (Cell { ascii: BLANK, color: 0 }),
    {
        Writer { col: 0, row: 0, color: pack_color(Color::LightGreen, Color::Black), surface: Surface::new() }
    }

    /// Accepts one byte with typewriter semantics: newline starts a new
    /// row; any other byte is written as its glyph at the cursor, wrapping
    /// first if the row is full, and dropped once the bottom is passed.
    pub fn write_byte(&mut self, byte: u8)
        requires
            old(self)@.wf(),
        ensures
            final(self)@.wf(),
            final(self)@ == old(self)@.write_byte(byte),
    {
        if byte == NEWLINE {
            self.col = 0;
            if self.row < HEIGHT {
                self.row = self.row + 1;
            }
            return;
        }
        let glyph = if 0x20 <= byte && byte <= 0x7e {
            byte
        } else {
            PLACEHOLDER
        };
        if self.col >= WIDTH {
            self.col = 0;
            if self.row < HEIGHT {
                self.row = self.row + 1;
            }
        }
        if self.row < HEIGHT {
            self.surface.set_cell(self.row, self.col, Cell { ascii: glyph, color: self.color });
            self.col = self.col + 1;
        }
    }

    /// Sets the active color for subsequent writes; cells already on the
    /// surface keep the color they were written with.
    pub fn set_color(&mut self, fg: Color, bg: Color)
        requires
            old(self)@.wf(),
        ensures
            final(self)@.wf(),
            final(self)@ == (TermView { color: spec_pack_color(fg, bg), ..old(self)@ }),
    {
        self.color = pack_color(fg, bg);
    }

    /// Accepts every byte of the slice, in order, each with the semantics
    /// of `write_byte`. Never fails: unmappable bytes degrade to the
    /// placeholder glyph and bytes past the bottom row are dropped.
    pub fn write_bytes(&mut self, s: &[u8])
        requires
            old(self)@.wf(),
        ensures
            final(self)@.wf(),
            final(self)@ == old(self)@.write_bytes(s@),
    {
        let mut i: usize = 0;
        while i < s.len()
            invariant
                self@.wf(),
                i <= s@.len(),
                self@ == old(self)@.write_bytes(s@.take(i as int)),
            decreases s@.len() - i,
        {
            proof {
                assert(s@.take(i + 1) =~= s@.take(i as int).push(s@[i as int]));
                lemma_write_bytes_snoc(old(self)@, s@.take(i as int), s@[i as int]);
            }
            let b = s[i];
            self.write_byte(b);
            i = i + 1;
        }
        proof {
            assert(s@.take(s@.len() as int) =~= s@);
        }
    }

    /// Accepts every byte of the string, in order, each with the semantics
    /// of `write_byte`.
    pub fn write_str(&mut self, s: &str)
        requires
            old(self)@.wf(),
        ensures
            final(self)@.wf(),
            final(self)@ == old(self)@.write_bytes(s.spec_bytes()),
    {
        self.write_bytes(s.as_bytes());
    }

    /// Blanks the whole surface in the active color and puts the cursor
    /// back at the origin.
    pub fn clear(&mut self)
        requires
            old(self)@.wf(),
        ensures
            final(self)@.wf(),
            final(self)@ == old(self)@.cleared(),
    {
        let color = self.color;
        self.surface.clear(color);
        self.col = 0;
        self.row = 0;
        proof {
            assert(self@.grid =~= old(self)@.cleared().grid);
            assert(self@ =~= old(self)@.cleared());
        }
    }
}

} // verus!
