use rsmatrix::background::{KanaBackground, KanaBackgroundState, BACKGROUND_FG};
use rsmatrix::buffer::{Cell, Color, ScreenBuffer};
use rsmatrix::rect::Rect;

fn is_katakana(c: char) -> bool {
    ('\u{ff66}'..='\u{ff9d}').contains(&c)
}

fn in_area(area: Rect, x: u16, y: u16) -> bool {
    area.x <= x && x < area.x + area.width && area.y <= y && y < area.y + area.height
}

#[test]
fn particle_count_matches_area_budget() {
    let mut buf = ScreenBuffer::new(40, 20);
    let mut state = KanaBackgroundState::new(0);
    let mut rng = rand::thread_rng();
    let area = Rect::new(0, 0, 40, 20);
    let bg = KanaBackground::new(300);

    bg.render(area, &mut buf, &mut state, &mut rng, 0);

    assert_eq!(state.chars.len(), 40 * 20 / 20);
    for &(c, x, y) in &state.chars {
        assert!(is_katakana(c));
        assert!(in_area(area, x, y));
    }
}

#[test]
fn resize_regenerates_field_inside_new_area() {
    let mut buf = ScreenBuffer::new(60, 30);
    let mut state = KanaBackgroundState::new(0);
    let mut rng = rand::thread_rng();
    let bg = KanaBackground::new(300);

    bg.render(Rect::new(0, 0, 60, 30), &mut buf, &mut state, &mut rng, 0);
    assert_eq!(state.chars.len(), 60 * 30 / 20);

    // shrink: the very next render resizes the field and every particle
    // lies inside the new area
    let small = Rect::new(0, 0, 20, 10);
    bg.render(small, &mut buf, &mut state, &mut rng, 0);
    assert_eq!(state.chars.len(), 20 * 10 / 20);
    for &(_, x, y) in &state.chars {
        assert!(in_area(small, x, y));
    }
}

#[test]
fn particles_paint_dim_glyphs() {
    let mut buf = ScreenBuffer::new(30, 10);
    let mut state = KanaBackgroundState::new(0);
    let mut rng = rand::thread_rng();
    let area = Rect::new(0, 0, 30, 10);
    let bg = KanaBackground::new(300);

    bg.render(area, &mut buf, &mut state, &mut rng, 0);

    let mut painted = 0;
    for y in 0..10u16 {
        for x in 0..30u16 {
            let cell = buf.get(x, y);
            if cell != Cell::empty() {
                assert!(is_katakana(cell.symbol));
                assert_eq!(cell.fg, Color::Indexed(BACKGROUND_FG));
                assert_eq!(cell.bg, Color::Reset);
                assert!(cell.dim);
                assert!(!cell.bold);
                painted += 1;
            }
        }
    }
    // duplicates may overlap, but something was painted
    assert!(painted >= 1);
    assert!(painted <= state.chars.len());
}

#[test]
fn refresh_gate_updates_timer() {
    let mut buf = ScreenBuffer::new(20, 20);
    let mut state = KanaBackgroundState::new(0);
    let mut rng = rand::thread_rng();
    let area = Rect::new(0, 0, 20, 20);
    let bg = KanaBackground::new(300);

    bg.render(area, &mut buf, &mut state, &mut rng, 0);
    assert_eq!(state.last_update, 0);
    bg.render(area, &mut buf, &mut state, &mut rng, 200);
    // gate closed: timer untouched
    assert_eq!(state.last_update, 0);
    bg.render(area, &mut buf, &mut state, &mut rng, 301);
    // gate open: timer reset
    assert_eq!(state.last_update, 301);
}

#[test]
fn render_twice_without_time_advance_is_identical_bg() {
    let mut state = KanaBackgroundState::new(0);
    let mut rng = rand::thread_rng();
    let area = Rect::new(0, 0, 25, 12);
    let bg = KanaBackground::new(300);

    // first render populates the field for this area
    let mut warmup = ScreenBuffer::new(25, 12);
    bg.render(area, &mut warmup, &mut state, &mut rng, 0);

    // the field now matches the area and no simulated time has elapsed,
    // so repeated rendering paints identical cells
    let mut first = ScreenBuffer::new(25, 12);
    bg.render(area, &mut first, &mut state, &mut rng, 100);
    let mut second = ScreenBuffer::new(25, 12);
    bg.render(area, &mut second, &mut state, &mut rng, 100);

    for y in 0..12 {
        for x in 0..25 {
            assert_eq!(first.get(x, y), second.get(x, y));
        }
    }
}

#[test]
fn tiny_area_keeps_empty_field() {
    let mut buf = ScreenBuffer::new(4, 4);
    let mut state = KanaBackgroundState::new(0);
    let mut rng = rand::thread_rng();
    // 4 * 4 / 20 == 0 particles
    let area = Rect::new(0, 0, 4, 4);
    let bg = KanaBackground::new(300);

    bg.render(area, &mut buf, &mut state, &mut rng, 500);

    assert_eq!(state.chars.len(), 0);
    for y in 0..4 {
        for x in 0..4 {
            assert_eq!(buf.get(x, y), Cell::empty());
        }
    }
}
