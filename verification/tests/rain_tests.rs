use rsmatrix::buffer::{Cell, Color, ScreenBuffer};
use rsmatrix::rain::{Rain, RainDrop, RainState, NAME_BG, NAME_FG, TRAIL_FG_BRIGHT, TRAIL_FG_DIM};
use rsmatrix::rect::Rect;

fn names(list: &[&str]) -> Vec<String> {
    list.iter().map(|s| s.to_string()).collect()
}

fn is_rain_glyph(c: char) -> bool {
    c.is_ascii_uppercase() || c.is_ascii_digit() || ('\u{ff66}'..='\u{ff9d}').contains(&c)
}

#[test]
fn spawned_drops_use_names_from_the_list() {
    let namelist = names(&["alice", "bob", "carol"]);
    let rain = Rain::new(&namelist, 100, 10);
    let mut state = RainState::new(0);
    let mut buf = ScreenBuffer::new(30, 15);
    let mut rng = rand::thread_rng();
    let area = Rect::new(0, 0, 30, 15);

    let mut now = 0u64;
    for _ in 0..25 {
        now += 20;
        rain.render(area, &mut buf, &mut state, &mut rng, now);
    }

    assert!(!state.raindrops.is_empty());
    for drop in &state.raindrops {
        if drop.active {
            assert!(namelist.iter().any(|n| *n == drop.name), "fabricated name {:?}", drop.name);
            let n = drop.name.chars().count();
            assert!(drop.trail.len() >= n && drop.trail.len() <= 2 * n);
            assert!(drop.trail.iter().copied().all(is_rain_glyph));
            assert!(drop.pos.0 < 30);
        }
    }
}

#[test]
fn spawn_reuses_first_inactive_slot() {
    let namelist = names(&["xy"]);
    let rain = Rain::new(&namelist, 1_000_000, 10);
    let mut buf = ScreenBuffer::new(10, 5);
    let mut rng = rand::thread_rng();
    let area = Rect::new(0, 0, 10, 5);

    let stale = RainDrop {
        name: String::new(),
        trail: Vec::new(),
        pos: (0, 0),
        active: false,
    };
    let mut state = RainState { raindrops: vec![stale], last_drop: 0, last_update: 0 };

    rain.render(area, &mut buf, &mut state, &mut rng, 50);

    // the inactive slot was reused, not appended to
    assert_eq!(state.raindrops.len(), 1);
    assert!(state.raindrops[0].active);
    assert_eq!(state.raindrops[0].name, "xy");
    assert_eq!(state.last_drop, 50);
}

#[test]
fn drop_past_bottom_is_deactivated_and_never_drawn_again() {
    let namelist = names(&["ab"]);
    // gates closed: no spawn, no step
    let rain = Rain::new(&namelist, 1_000_000, 1_000_000);
    let mut rng = rand::thread_rng();
    let area = Rect::new(0, 0, 10, 5);

    // a drop that has scrolled past the bottom boundary:
    // row >= bottom + name_len + trail_len == 5 + 2 + 3
    let gone = RainDrop {
        name: "ab".to_string(),
        trail: vec!['\u{ff66}', '\u{ff70}', '\u{ff9d}'],
        pos: (3, 10),
        active: true,
    };
    let mut state = RainState { raindrops: vec![gone], last_drop: 0, last_update: 0 };

    let mut buf = ScreenBuffer::new(10, 5);
    rain.render(area, &mut buf, &mut state, &mut rng, 10);

    assert!(!state.raindrops[0].active);
    for y in 0..5 {
        for x in 0..10 {
            assert_eq!(buf.get(x, y), Cell::empty());
        }
    }

    // still inactive on the next frame: the stale fields are never read
    let mut buf2 = ScreenBuffer::new(10, 5);
    rain.render(area, &mut buf2, &mut state, &mut rng, 20);
    assert!(!state.raindrops[0].active);
    for y in 0..5 {
        for x in 0..10 {
            assert_eq!(buf2.get(x, y), Cell::empty());
        }
    }
}

#[test]
fn drop_past_right_edge_is_deactivated() {
    let namelist = names(&["ab"]);
    let rain = Rain::new(&namelist, 1_000_000, 1_000_000);
    let mut rng = rand::thread_rng();
    // the drop sits at column 7 of a wide buffer, but the area has shrunk
    let area = Rect::new(0, 0, 5, 5);
    let stray = RainDrop {
        name: "ab".to_string(),
        trail: vec!['\u{ff66}', '\u{ff66}'],
        pos: (7, 1),
        active: true,
    };
    let mut state = RainState { raindrops: vec![stray], last_drop: 0, last_update: 0 };

    let mut buf = ScreenBuffer::new(12, 6);
    rain.render(area, &mut buf, &mut state, &mut rng, 10);

    assert!(!state.raindrops[0].active);
    assert_eq!(buf.get(7, 1), Cell::empty());
}

#[test]
fn name_is_painted_vertically_at_the_tip() {
    let namelist = names(&["ab"]);
    let rain = Rain::new(&namelist, 1_000_000, 1_000_000);
    let mut rng = rand::thread_rng();
    let area = Rect::new(0, 0, 10, 5);
    let drop = RainDrop {
        name: "ab".to_string(),
        trail: vec!['\u{ff71}', '\u{ff72}'],
        pos: (4, 3),
        active: true,
    };
    let mut state = RainState { raindrops: vec![drop], last_drop: 0, last_update: 0 };

    let mut buf = ScreenBuffer::new(10, 5);
    rain.render(area, &mut buf, &mut state, &mut rng, 10);

    // most recent character at the tip: 'b' on row 3, 'a' above it
    let tip = buf.get(4, 3);
    assert_eq!(tip.symbol, 'b');
    assert_eq!(tip.fg, Color::Indexed(NAME_FG));
    assert_eq!(tip.bg, Color::Indexed(NAME_BG));
    assert!(tip.bold);
    assert_eq!(buf.get(4, 2).symbol, 'a');
    // the trail sits directly above the name
    assert_eq!(buf.get(4, 1).symbol, '\u{ff71}');
    assert_eq!(buf.get(4, 0).symbol, '\u{ff72}');
    // other columns untouched
    assert_eq!(buf.get(3, 3), Cell::empty());
    assert_eq!(buf.get(5, 3), Cell::empty());
}

#[test]
fn step_frame_advances_row_and_rotates_trail() {
    let namelist = names(&["ab"]);
    // step gate open, spawn gate closed
    let rain = Rain::new(&namelist, 5, 1_000_000);
    let mut rng = rand::thread_rng();
    let area = Rect::new(0, 0, 10, 8);
    let drop = RainDrop {
        name: "ab".to_string(),
        trail: vec!['\u{ff71}', '\u{ff72}', '\u{ff73}'],
        pos: (2, 1),
        active: true,
    };
    let mut state = RainState { raindrops: vec![drop], last_drop: 0, last_update: 0 };

    let mut buf = ScreenBuffer::new(10, 8);
    rain.render(area, &mut buf, &mut state, &mut rng, 10);

    let stepped = &state.raindrops[0];
    assert_eq!(stepped.pos, (2, 2));
    assert_eq!(stepped.trail.len(), 3);
    // the old head moved down the trail, the oldest glyph fell off
    assert_eq!(stepped.trail[1], '\u{ff71}');
    assert_eq!(stepped.trail[2], '\u{ff72}');
    assert!(is_rain_glyph(stepped.trail[0]));
    assert_eq!(state.last_update, 10);

    // but the frame was painted before the step
    assert_eq!(buf.get(2, 1).symbol, 'b');
}

#[test]
fn render_twice_without_time_advance_is_identical_rain() {
    let namelist = names(&["hello"]);
    let rain = Rain::new(&namelist, 1_000_000, 1_000_000);
    let mut rng = rand::thread_rng();
    let area = Rect::new(0, 0, 12, 9);
    let drop = RainDrop {
        name: "hello".to_string(),
        trail: vec!['\u{ff71}'; 7],
        pos: (6, 8),
        active: true,
    };
    let mut state = RainState { raindrops: vec![drop], last_drop: 0, last_update: 0 };

    let mut first = ScreenBuffer::new(12, 9);
    rain.render(area, &mut first, &mut state, &mut rng, 100);
    let mut second = ScreenBuffer::new(12, 9);
    rain.render(area, &mut second, &mut state, &mut rng, 100);

    for y in 0..9 {
        for x in 0..12 {
            assert_eq!(first.get(x, y), second.get(x, y));
        }
    }
}

#[test]
fn trail_is_split_into_two_color_bands() {
    let namelist = names(&["ab"]);
    let rain = Rain::new(&namelist, 1_000_000, 1_000_000);
    let mut rng = rand::thread_rng();
    let area = Rect::new(0, 0, 8, 10);
    // tip at row 9: name on rows 8..=9, trail glyph i on row 7 - i
    let drop = RainDrop {
        name: "ab".to_string(),
        trail: vec!['\u{ff71}', '\u{ff72}', '\u{ff73}', '\u{ff74}'],
        pos: (2, 9),
        active: true,
    };
    let mut state = RainState { raindrops: vec![drop], last_drop: 0, last_update: 0 };

    let mut buf = ScreenBuffer::new(8, 10);
    rain.render(area, &mut buf, &mut state, &mut rng, 10);

    // the first half of the trail is brighter than the rest
    assert_eq!(buf.get(2, 7).fg, Color::Indexed(TRAIL_FG_BRIGHT));
    assert_eq!(buf.get(2, 6).fg, Color::Indexed(TRAIL_FG_BRIGHT));
    assert_eq!(buf.get(2, 5).fg, Color::Indexed(TRAIL_FG_DIM));
    assert_eq!(buf.get(2, 4).fg, Color::Indexed(TRAIL_FG_DIM));
    assert_eq!(buf.get(2, 7).symbol, '\u{ff71}');
    assert_eq!(buf.get(2, 4).symbol, '\u{ff74}');
}

#[test]
fn drawing_clips_to_the_area_band() {
    let namelist = names(&["ab"]);
    let rain = Rain::new(&namelist, 1_000_000, 1_000_000);
    let mut rng = rand::thread_rng();
    // the area starts two rows down inside a taller buffer
    let area = Rect::new(0, 2, 8, 4);
    let drop = RainDrop {
        name: "ab".to_string(),
        trail: vec!['\u{ff71}', '\u{ff72}'],
        pos: (3, 3),
        active: true,
    };
    let mut state = RainState { raindrops: vec![drop], last_drop: 0, last_update: 0 };

    let mut buf = ScreenBuffer::new(8, 8);
    rain.render(area, &mut buf, &mut state, &mut rng, 10);

    // rows inside the band are painted
    assert_eq!(buf.get(3, 3).symbol, 'b');
    assert_eq!(buf.get(3, 2).symbol, 'a');
    // rows above the band stay untouched even though the trail reaches them
    assert_eq!(buf.get(3, 1), Cell::empty());
    assert_eq!(buf.get(3, 0), Cell::empty());
}

#[test]
fn pool_only_grows() {
    let namelist = names(&["a"]);
    let rain = Rain::new(&namelist, 1_000_000, 1);
    let mut state = RainState::new(0);
    let mut buf = ScreenBuffer::new(6, 3);
    let mut rng = rand::thread_rng();
    let area = Rect::new(0, 0, 6, 3);

    let mut previous = 0;
    for k in 1..=10u64 {
        rain.render(area, &mut buf, &mut state, &mut rng, k * 10);
        assert!(state.raindrops.len() >= previous);
        previous = state.raindrops.len();
    }
}
