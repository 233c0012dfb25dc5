use rsmatrix::buffer::{Cell, Color, ScreenBuffer};
use rsmatrix::list::{KanaList, KanaListState, LIST_FG};
use rsmatrix::rect::Rect;

fn is_katakana(c: char) -> bool {
    ('\u{ff66}'..='\u{ff9d}').contains(&c)
}

fn fresh_state(now: u64) -> KanaListState {
    let mut rng = rand::thread_rng();
    KanaListState::new(&mut rng, now)
}

#[test]
fn new_state_selects_first_item() {
    let state = fresh_state(5);
    assert_eq!(state.selected(), 0);
    assert!(is_katakana(state.pointer));
    assert_eq!(state.last_update, 5);
}

#[test]
fn next_wraps_to_first() {
    let items = ["a", "b", "c"];
    let mut state = fresh_state(0);
    state.next(&items);
    assert_eq!(state.selected(), 1);
    state.next(&items);
    assert_eq!(state.selected(), 2);
    state.next(&items);
    assert_eq!(state.selected(), 0);
}

#[test]
fn prev_wraps_to_last() {
    let items = ["a", "b", "c"];
    let mut state = fresh_state(0);
    state.prev(&items);
    assert_eq!(state.selected(), 2);
    state.prev(&items);
    assert_eq!(state.selected(), 1);
}

#[test]
fn next_then_prev_round_trip() {
    let items = ["a", "b", "c", "d"];
    for start in 0..items.len() {
        let mut state = fresh_state(0);
        for _ in 0..start {
            state.next(&items);
        }
        assert_eq!(state.selected(), start);
        state.next(&items);
        state.prev(&items);
        assert_eq!(state.selected(), start);
    }
}

#[test]
fn full_cycle_returns_to_start() {
    let items = ["one", "two", "three", "four", "five"];
    let mut state = fresh_state(0);
    state.next(&items);
    state.next(&items);
    let start = state.selected();
    for _ in 0..items.len() {
        state.next(&items);
    }
    assert_eq!(state.selected(), start);
    for _ in 0..items.len() {
        state.prev(&items);
    }
    assert_eq!(state.selected(), start);
}

#[test]
fn single_item_list_always_selects_it() {
    let items = ["only"];
    let mut state = fresh_state(0);
    state.next(&items);
    assert_eq!(state.selected(), 0);
    state.prev(&items);
    assert_eq!(state.selected(), 0);
}

#[test]
fn render_draws_pointer_and_items() {
    let items = ["Countdown", "Quit"];
    let list = KanaList::new(&items);
    let mut state = fresh_state(0);
    let mut buf = ScreenBuffer::new(20, 5);
    let mut rng = rand::thread_rng();
    let area = Rect::new(1, 1, 15, 3);

    list.render(area, &mut buf, &mut state, &mut rng, 0);

    // pointer glyph in bold at column 0 of the selected row
    let pointer_cell = buf.get(1, 1);
    assert_eq!(pointer_cell.symbol, state.pointer);
    assert_eq!(pointer_cell.fg, Color::Indexed(LIST_FG));
    assert!(pointer_cell.bold);
    // no pointer on the unselected row
    assert_eq!(buf.get(1, 2), Cell::empty());
    // item texts start two columns in
    for (j, c) in "Countdown".chars().enumerate() {
        let cell = buf.get(3 + j as u16, 1);
        assert_eq!(cell.symbol, c);
        assert_eq!(cell.fg, Color::Indexed(LIST_FG));
        assert!(cell.bold);
    }
    for (j, c) in "Quit".chars().enumerate() {
        let cell = buf.get(3 + j as u16, 2);
        assert_eq!(cell.symbol, c);
        assert!(!cell.bold);
    }
    // nothing outside the item rows
    assert_eq!(buf.get(3, 3), Cell::empty());
}

#[test]
fn render_clips_items_at_right_edge() {
    let items = ["abcdefghij"];
    let list = KanaList::new(&items);
    let mut state = fresh_state(0);
    let mut buf = ScreenBuffer::new(12, 3);
    let mut rng = rand::thread_rng();
    let area = Rect::new(0, 0, 6, 1);

    list.render(area, &mut buf, &mut state, &mut rng, 0);

    assert_eq!(buf.get(2, 0).symbol, 'a');
    assert_eq!(buf.get(5, 0).symbol, 'd');
    // clipped at the area's right edge, not the buffer's
    assert_eq!(buf.get(6, 0), Cell::empty());
    assert_eq!(buf.get(7, 0), Cell::empty());
}

#[test]
fn pointer_refreshes_after_interval() {
    let items = ["x"];
    let list = KanaList::new(&items);
    let mut state = fresh_state(0);
    let mut buf = ScreenBuffer::new(8, 2);
    let mut rng = rand::thread_rng();
    let area = Rect::new(0, 0, 8, 1);

    list.render(area, &mut buf, &mut state, &mut rng, 401);
    assert_eq!(state.last_update, 401);
    assert!(is_katakana(state.pointer));

    // within the refresh interval the state is untouched
    let pointer = state.pointer;
    list.render(area, &mut buf, &mut state, &mut rng, 700);
    assert_eq!(state.last_update, 401);
    assert_eq!(state.pointer, pointer);
}

#[test]
fn render_twice_without_time_advance_is_identical() {
    let items = ["Countdown"];
    let list = KanaList::new(&items);
    let mut state = fresh_state(0);
    let mut rng = rand::thread_rng();
    let area = Rect::new(0, 0, 14, 1);

    let mut first = ScreenBuffer::new(16, 2);
    list.render(area, &mut first, &mut state, &mut rng, 100);
    let mut second = ScreenBuffer::new(16, 2);
    list.render(area, &mut second, &mut state, &mut rng, 100);

    for y in 0..2 {
        for x in 0..16 {
            assert_eq!(first.get(x, y), second.get(x, y));
        }
    }
}
