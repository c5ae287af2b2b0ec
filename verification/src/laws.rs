//! Laws of the surface and the writer, stated over their abstract models:
//! written cells read back unchanged, clearing blanks the whole grid and is
//! idempotent, streamed bytes land in row-major order, a full row wraps, a
//! full screen drops, a newline writes no cell, and an unprintable byte
//! lands as the placeholder glyph.

use vstd::prelude::*;

use crate::surface::BLANK;
use crate::surface::Cell;
use crate::surface::HEIGHT;
use crate::surface::WIDTH;
use crate::writer::NEWLINE;
use crate::writer::PLACEHOLDER;
use crate::writer::TermView;
use crate::writer::glyph_of;
use crate::writer::is_printable;
use crate::writer::lemma_write_bytes_snoc;

verus! {

/// Writing a cell and reading the same position back gives that cell,
/// for every position on the grid.
pub proof fn lemma_set_cell_read_back(g: Seq<Cell>, row: int, col: int, cell: Cell)
    requires
        g.len() == WIDTH * HEIGHT,
        0 <= row < HEIGHT,
        0 <= col < WIDTH,
    ensures
        g.update(row * WIDTH + col, cell)[row * WIDTH + col] == cell,
{
}

/// After a clear, every position of the grid, the edges included, holds a
/// blank cell in the color the clear was made with.
pub proof fn lemma_cleared_cell(v: TermView, row: int, col: int)
    requires
        0 <= row < HEIGHT,
        0 <= col < WIDTH,
    ensures
        v.cleared().grid[row * WIDTH + col] == (Cell { ascii: BLANK, color: v.color }),
{
}

/// Clearing twice in succession leaves the same state as clearing once.
pub proof fn lemma_clear_idempotent(v: TermView)
    ensures
        v.cleared().cleared() == v.cleared(),
{
    assert(v.cleared().cleared() =~= v.cleared());
}

/// A newline moves the cursor to the start of the next row and writes no
/// cell, whatever the current column.
pub proof fn lemma_newline_moves_cursor(v: TermView)
    requires
        v.wf(),
        v.row < HEIGHT,
    ensures
        v.write_byte(NEWLINE) == (TermView { row: v.row + 1, col: 0, ..v }),
{
}

/// A byte that is neither printable nor a newline lands on the surface as
/// the placeholder glyph, not as itself.
pub proof fn lemma_unprintable_becomes_placeholder(v: TermView, b: u8)
    requires
        v.wf(),
        v.row < HEIGHT,
        v.col < WIDTH,
        b != NEWLINE,
        !is_printable(b),
    ensures
        v.write_byte(b).grid[v.row * WIDTH + v.col] == (Cell {
            ascii: PLACEHOLDER,
            color: v.color,
        }),
{
}

/// The cursor after streaming `n` bytes, none of them a newline, from the
/// origin of an empty screen: bytes land in row-major order, and a freshly
/// filled row is left in the transient `col == WIDTH` state until the next
/// byte wraps it.
pub open spec fn cursor_after(n: int) -> (int, int) {
    if n == 0 {
        (0, 0)
    } else if n % (WIDTH as int) == 0 {
        (n / (WIDTH as int) - 1, WIDTH as int)
    } else {
        (n / (WIDTH as int), n % (WIDTH as int))
    }
}

/// Streaming bytes, none of them a newline, from the origin fills the grid
/// cell by cell in row-major order: the byte at position `i` of the stream
/// lands, as its glyph in the active color, at grid index `i`, every other
/// cell keeps its contents, and the cursor ends at `cursor_after`.
pub proof fn lemma_fill_from_origin(v: TermView, bs: Seq<u8>)
    requires
        v.wf(),
        v.row == 0,
        v.col == 0,
        bs.len() <= WIDTH * HEIGHT,
        forall|i: int| 0 <= i < bs.len() ==> bs[i] != NEWLINE,
    ensures
        v.write_bytes(bs).wf(),
        v.write_bytes(bs).color == v.color,
        v.write_bytes(bs).row == cursor_after(bs.len() as int).0,
        v.write_bytes(bs).col == cursor_after(bs.len() as int).1,
        forall|i: int|
            0 <= i < bs.len() ==> v.write_bytes(bs).grid[i] == (Cell {
                ascii: glyph_of(bs[i]),
                color: v.color,
            }),
        forall|i: int| bs.len() <= i < v.grid.len() ==> v.write_bytes(bs).grid[i] == v.grid[i],
    decreases bs.len(),
{
    if bs.len() == 0 {
    } else {
        let prefix = bs.drop_last();
        let b = bs.last();
        let n = prefix.len() as int;
        let w = (WIDTH as int);
        lemma_fill_from_origin(v, prefix);
        lemma_write_bytes_snoc(v, prefix, b);
        assert(prefix.push(b) =~= bs);
        let mid = v.write_bytes(prefix);
        assert(v.write_bytes(bs) == mid.write_byte(b));
        assert(n / w * w + n % w == n) by (nonlinear_arith)
            requires w == WIDTH as int
        ;
        if n == 0 {
        } else if n % w == 0 {
            assert(mid.col == w && mid.row == n / w - 1);
            assert(n / w <= (HEIGHT as int) - 1) by (nonlinear_arith)
                requires
                    w == WIDTH as int,
                    0 < n <= WIDTH * HEIGHT - 1,
                    n % w == 0,
                    n / w * w + n % w == n,
            ;
            assert(mid.next_line().row == n / w && mid.next_line().col == 0);
            assert(n / w * w + 0 == n);
            assert((n + 1) % w == 1 && (n + 1) / w == n / w) by (nonlinear_arith)
                requires
                    w == WIDTH as int,
                    n > 0,
                    n % w == 0,
                    n / w * w + n % w == n,
            ;
        } else {
            assert(mid.row == n / w && mid.col == n % w);
            assert(n / w < HEIGHT as int) by (nonlinear_arith)
                requires
                    w == WIDTH as int,
                    0 < n <= WIDTH * HEIGHT - 1,
                    n / w * w + n % w == n,
                    0 < n % w < w,
            ;
            assert(n / w * w + n % w == n);
            if (n % w) + 1 == w {
                assert((n + 1) % w == 0 && (n + 1) / w == n / w + 1) by (nonlinear_arith)
                    requires
                        w == WIDTH as int,
                        n / w * w + n % w == n,
                        (n % w) + 1 == w,
                ;
            } else {
                assert((n + 1) % w == n % w + 1 && (n + 1) / w == n / w) by (nonlinear_arith)
                    requires
                        w == WIDTH as int,
                        n / w * w + n % w == n,
                        0 < n % w,
                        (n % w) + 1 < w,
                ;
            }
        }
    }
}

/// Exactly `WIDTH` printable bytes fill the top row and leave the cursor in
/// the transient wrapped state; one more printable byte lands at the start
/// of the next row, not past the end of the first.
pub proof fn lemma_wrap_after_full_row(v: TermView, bs: Seq<u8>, b: u8)
    requires
        v.wf(),
        v.row == 0,
        v.col == 0,
        bs.len() == WIDTH,
        forall|i: int| 0 <= i < bs.len() ==> is_printable(bs[i]),
        is_printable(b),
    ensures
        v.write_bytes(bs).row == 0,
        v.write_bytes(bs).col == WIDTH,
        v.write_bytes(bs.push(b)).row == 1,
        v.write_bytes(bs.push(b)).col == 1,
        v.write_bytes(bs.push(b)).grid[WIDTH as int] == (Cell { ascii: b, color: v.color }),
{
    lemma_fill_from_origin(v, bs);
    lemma_fill_from_origin(v, bs.push(b));
}

/// Once every cell of the screen has been filled, a further byte is dropped
/// silently: the grid does not change, and no error is signaled.
pub proof fn lemma_full_screen_drops(v: TermView, bs: Seq<u8>, b: u8)
    requires
        v.wf(),
        v.row == 0,
        v.col == 0,
        bs.len() == WIDTH * HEIGHT,
        forall|i: int| 0 <= i < bs.len() ==> bs[i] != NEWLINE,
        b != NEWLINE,
    ensures
        v.write_bytes(bs.push(b)).grid == v.write_bytes(bs).grid,
        v.write_bytes(bs.push(b)).row == HEIGHT,
{
    lemma_fill_from_origin(v, bs);
    lemma_write_bytes_snoc(v, bs, b);
}

} // verus!
