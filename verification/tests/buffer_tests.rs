use rsmatrix::buffer::{Cell, Color, ScreenBuffer};
use rsmatrix::rect::Rect;

#[test]
fn new_buffer_is_blank() {
    let buf = ScreenBuffer::new(7, 3);
    assert_eq!(buf.width, 7);
    assert_eq!(buf.height, 3);
    for y in 0..3 {
        for x in 0..7 {
            assert_eq!(buf.get(x, y), Cell::empty());
        }
    }
}

#[test]
fn put_overwrites_one_cell_only() {
    let mut buf = ScreenBuffer::new(5, 4);
    let cell = Cell { symbol: 'x', fg: Color::Indexed(3), bg: Color::Indexed(4), bold: true, dim: false };
    buf.put(2, 1, cell);
    for y in 0..4 {
        for x in 0..5 {
            if (x, y) == (2, 1) {
                assert_eq!(buf.get(x, y), cell);
            } else {
                assert_eq!(buf.get(x, y), Cell::empty());
            }
        }
    }
}

#[test]
fn set_text_keeps_background_and_clips() {
    let mut buf = ScreenBuffer::new(8, 2);
    let under = Cell { symbol: '.', fg: Color::Reset, bg: Color::Indexed(7), bold: false, dim: true };
    for x in 0..8 {
        buf.put(x, 0, under);
    }
    buf.set_text(3, 0, 6, "wxyz", Color::Indexed(2), true);

    assert_eq!(buf.get(2, 0), under);
    let w = buf.get(3, 0);
    assert_eq!(w.symbol, 'w');
    assert_eq!(w.fg, Color::Indexed(2));
    assert_eq!(w.bg, Color::Indexed(7));
    assert!(w.bold);
    assert!(w.dim);
    assert_eq!(buf.get(4, 0).symbol, 'x');
    assert_eq!(buf.get(5, 0).symbol, 'y');
    // clipped at the limit column
    assert_eq!(buf.get(6, 0), under);
    assert_eq!(buf.get(7, 0), under);
}

#[test]
fn set_text_counts_characters_not_bytes() {
    let mut buf = ScreenBuffer::new(6, 1);
    buf.set_text(0, 0, 6, "\u{ff71}\u{ff72}\u{ff73}", Color::Indexed(5), false);
    assert_eq!(buf.get(0, 0).symbol, '\u{ff71}');
    assert_eq!(buf.get(1, 0).symbol, '\u{ff72}');
    assert_eq!(buf.get(2, 0).symbol, '\u{ff73}');
    assert_eq!(buf.get(3, 0), Cell::empty());
}

#[test]
fn rect_accessors_and_contains() {
    let r = Rect::new(2, 3, 5, 4);
    assert_eq!(r.left(), 2);
    assert_eq!(r.right(), 7);
    assert_eq!(r.top(), 3);
    assert_eq!(r.bottom(), 7);
    assert!(r.contains((2, 3)));
    assert!(r.contains((6, 6)));
    assert!(!r.contains((7, 3)));
    assert!(!r.contains((2, 7)));
    assert!(!r.contains((1, 3)));
}

#[test]
fn rect_center_in() {
    let inner = Rect::new(0, 0, 54, 10);
    let outer = Rect::new(0, 0, 80, 24);
    let c = inner.center_in(&outer);
    assert_eq!((c.x, c.y, c.width, c.height), (13, 7, 54, 10));

    // centering respects the outer rectangle's own origin
    let shifted = Rect::new(0, 0, 4, 2).center_in(&Rect::new(10, 20, 8, 6));
    assert_eq!((shifted.x, shifted.y), (12, 22));
}
