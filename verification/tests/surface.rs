use vga_text::surface::{Cell, Surface, BLANK, HEIGHT, WIDTH};

#[test]
fn new_surface_is_blank() {
    let s = Surface::new();
    for r in 0..HEIGHT {
        for c in 0..WIDTH {
            let cell = s.get(r, c);
            assert_eq!(cell.ascii, BLANK);
            assert_eq!(cell.color, 0);
        }
    }
}

#[test]
fn set_cell_then_get_returns_cell() {
    let mut s = Surface::new();
    let cell = Cell { ascii: b'X', color: 0x2a };
    s.set_cell(3, 7, cell);
    assert_eq!(s.get(3, 7), cell);
}

#[test]
fn set_cell_touches_no_other_cell() {
    let mut s = Surface::new();
    s.set_cell(3, 7, Cell { ascii: b'X', color: 0x2a });
    for r in 0..HEIGHT {
        for c in 0..WIDTH {
            if (r, c) != (3, 7) {
                assert_eq!(s.get(r, c), Cell { ascii: BLANK, color: 0 });
            }
        }
    }
}

#[test]
fn set_cell_works_at_every_corner() {
    let mut s = Surface::new();
    let corners = [(0, 0), (0, WIDTH - 1), (HEIGHT - 1, 0), (HEIGHT - 1, WIDTH - 1)];
    for (i, &(r, c)) in corners.iter().enumerate() {
        let cell = Cell { ascii: b'0' + i as u8, color: 0x17 };
        s.set_cell(r, c, cell);
        assert_eq!(s.get(r, c), cell);
    }
}

#[test]
fn clear_fills_every_cell_including_edges() {
    let mut s = Surface::new();
    s.set_cell(0, 0, Cell { ascii: b'Q', color: 0x99 });
    s.set_cell(HEIGHT - 1, WIDTH - 1, Cell { ascii: b'Z', color: 0x77 });
    s.clear(0x1f);
    for r in 0..HEIGHT {
        for c in 0..WIDTH {
            assert_eq!(s.get(r, c), Cell { ascii: b' ', color: 0x1f });
        }
    }
}
