//! The writer behind a spin lock, as the surrounding program holds it: two
//! simulated execution contexts interleave their writes, each performing its
//! whole read-modify-write sequence under the lock, and no cell may end up
//! with the byte of one context and the color of the other.

use vga_text::color::{pack_color, Color};
use vga_text::surface::{BLANK, HEIGHT, WIDTH};
use vga_text::writer::Writer;

fn context_write(m: &spin::Mutex<Writer>, fg: Color, byte: u8) {
    let mut w = m.lock();
    w.set_color(fg, Color::Black);
    w.write_byte(byte);
}

#[test]
fn interleaved_contexts_produce_no_torn_cells() {
    let m = spin::Mutex::new(Writer::new());
    let color_a = pack_color(Color::White, Color::Black);
    let color_b = pack_color(Color::Green, Color::Black);
    for _ in 0..120 {
        context_write(&m, Color::White, b'A');
        context_write(&m, Color::Green, b'B');
        context_write(&m, Color::Green, b'B');
        context_write(&m, Color::White, b'A');
    }
    let w = m.lock();
    for r in 0..HEIGHT {
        for c in 0..WIDTH {
            let cell = w.surface.get(r, c);
            let consistent = (cell.ascii == b'A' && cell.color == color_a)
                || (cell.ascii == b'B' && cell.color == color_b)
                || (cell.ascii == BLANK && cell.color == 0);
            assert!(consistent);
        }
    }
}

#[test]
fn lock_serializes_cursor_updates() {
    let m = spin::Mutex::new(Writer::new());
    context_write(&m, Color::White, b'A');
    context_write(&m, Color::Green, b'B');
    let w = m.lock();
    assert_eq!((w.row, w.col), (0, 2));
    assert_eq!(w.surface.get(0, 0).ascii, b'A');
    assert_eq!(w.surface.get(0, 1).ascii, b'B');
}
