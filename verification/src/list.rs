//! A vertically stacked single-selection menu with an animated pointer.

use vstd::prelude::*;
use crate::buffer::{text_covers, Cell, Color, ScreenBuffer};
use crate::glyph::{is_katakana, random_katakana};
use crate::rect::Rect;

verus! {

/// Color index of the menu text and pointer.
pub const LIST_FG: u8 = 47;

/// Milliseconds between two exchanges of the pointer glyph.
pub const POINTER_REFRESH_MS: u64 = 400;

/// List widget which can select a single item.  The current item is
/// indicated by a single Katakana character that changes randomly.
pub struct KanaList<'a> {
    pub items: &'a [&'a str],
}

/// State for the [`KanaList`] widget.
pub struct KanaListState {
    /// Index of the currently selected item.
    pub selected: usize,
    /// Random Katakana character pointing at the current item.
    pub pointer: char,
    /// Last time the pointer glyph was exchanged, in milliseconds.
    pub last_update: u64,
}

/// `(x, y)` is the pointer cell: column 0 of the selected row.
pub open spec fn pointer_at(items: Seq<&str>, sel: int, area: Rect, x: int, y: int) -> bool {
    0 <= sel < items.len() && x == area.spec_left() && y == area.spec_top() + sel
}

/// `(x, y)` holds a character of the item text on row `y`; texts start two
/// columns in and are clipped at the right edge of `area`.
pub open spec fn item_text_at(items: Seq<&str>, area: Rect, x: int, y: int) -> bool {
    &&& area.spec_top() <= y < area.spec_top() + items.len()
    &&& text_covers(
        area.spec_left() + 2,
        items[y - area.spec_top()]@.len() as int,
        area.spec_right(),
        x,
    )
}

/// The contents of cell `(x, y)` after drawing the list: the pointer glyph
/// on the selected row, the item texts two columns in, everything else
/// untouched.  Written cells keep their background and dim flag.
pub open spec fn list_cell(
    items: Seq<&str>,
    sel: int,
    pointer: char,
    area: Rect,
    x: int,
    y: int,
    old: Cell,
) -> Cell {
    if pointer_at(items, sel, area, x, y) {
        Cell {
            symbol: pointer,
            fg: Color::Indexed(LIST_FG),
            bg: old.bg,
            bold: true,
            dim: old.dim,
        }
    } else if item_text_at(items, area, x, y) {
        Cell {
            symbol: items[y - area.spec_top()]@[x - (area.spec_left() + 2)],
            fg: Color::Indexed(LIST_FG),
            bg: old.bg,
            bold: old.bold || y == area.spec_top() + sel,
            dim: old.dim,
        }
    } else {
        old
    }
}

/// The selection after one `next` on a list of `n` items.
pub open spec fn next_index(sel: int, n: int) -> int {
    (sel + 1) % n
}

/// The selection after one `prev` on a list of `n` items.
pub open spec fn prev_index(sel: int, n: int) -> int {
    if sel == 0 {
        n - 1
    } else {
        sel - 1
    }
}

/// The selection after `k` successive `next` steps.
pub open spec fn iter_next(sel: int, n: int, k: int) -> int
    decreases k,
{
    if k <= 0 {
        sel
    } else {
        next_index(iter_next(sel, n, k - 1), n)
    }
}

/// `prev` undoes `next`: one step forward and one step back return any
/// valid selection to itself.
pub proof fn lemma_next_prev_round_trip(sel: int, n: int)
    requires
        0 <= sel < n,
    ensures
        prev_index(next_index(sel, n), n) == sel,
        next_index(prev_index(sel, n), n) == sel,
{
    assert(n % n == 0) by (nonlinear_arith)
        requires n >= 1;
    if sel + 1 < n {
        assert((sel + 1) % n == sel + 1) by (nonlinear_arith)
            requires 0 <= sel + 1 < n;
    }
    assert(sel % n == sel) by (nonlinear_arith)
        requires 0 <= sel < n;
}

/// After `k` `next` steps the selection is the start shifted by `k`,
/// modulo the item count.
pub proof fn lemma_iter_next_shift(sel: int, n: int, k: int)
    requires
        0 <= sel < n,
        0 <= k,
    ensures
        iter_next(sel, n, k) == (sel + k) % n,
    decreases k,
{
    if k > 0 {
        lemma_iter_next_shift(sel, n, k - 1);
        assert((((sel + (k - 1)) % n) + 1) % n == (sel + k) % n) by (nonlinear_arith)
            requires 0 <= sel < n, k >= 1;
    } else {
        assert(sel % n == sel) by (nonlinear_arith)
            requires 0 <= sel < n;
    }
}

/// Round trip of the selection: `next` applied once per item walks the
/// whole list and returns any valid selection to its original value.
pub proof fn lemma_next_full_cycle(sel: int, n: int)
    requires
        0 <= sel < n,
    ensures
        iter_next(sel, n, n) == sel,
{
    lemma_iter_next_shift(sel, n, n);
    assert((sel + n) % n == sel) by (nonlinear_arith)
        requires 0 <= sel < n;
}

/// Drawing the same list state a second time over its own output changes
/// nothing: the drawing path is a pure function of the state and the
/// fields it passes through.
pub proof fn lemma_list_draw_idempotent(
    items: Seq<&str>,
    sel: int,
    pointer: char,
    area: Rect,
    x: int,
    y: int,
    old: Cell,
)
    ensures
        list_cell(items, sel, pointer, area, x, y, list_cell(items, sel, pointer, area, x, y, old))
            == list_cell(items, sel, pointer, area, x, y, old),
{
}

impl<'a> KanaList<'a> {
    /// A new list widget over the given items.
    pub fn new(items: &'a [&'a str]) -> (list: KanaList<'a>)
        ensures
            list.items@ == items@,
    {
        KanaList { items }
    }

    /// Draw the items and the selection pointer into `area`, exchanging the
    /// pointer glyph when `POINTER_REFRESH_MS` milliseconds have elapsed.
    ///
    /// Every cell of the buffer afterwards equals [`list_cell`] of the cell
    /// before, with the pointer glyph of the final state; the selection is
    /// untouched, and the pointer only changes on a refresh.
    pub fn render(
        &self,
        area: Rect,
        buf: &mut ScreenBuffer,
        state: &mut KanaListState,
        rng: &mut rand::rngs::ThreadRng,
        now_ms: u64,
    )
        requires
            old(buf).wf(),
            area.wf(),
            area.spec_right() <= old(buf).width,
            area.spec_bottom() <= old(buf).height,
            self.items@.len() <= area.height,
            self.items@.len() > 0 ==> area.width >= 1,
            self.items@.len() > 0 ==> old(state).selected < self.items@.len(),
            old(state).last_update <= now_ms,
        ensures
            final(buf).wf(),
            final(buf).width == old(buf).width,
            final(buf).height == old(buf).height,
            final(state).selected == old(state).selected,
            // the pointer glyph is exchanged exactly on a refresh
            if self.items@.len() > 0 && now_ms - old(state).last_update > POINTER_REFRESH_MS {
                is_katakana(final(state).pointer) && final(state).last_update == now_ms
            } else {
                *final(state) == *old(state)
            },
            forall|x: int, y: int|
                final(buf).in_bounds(x, y) ==> final(buf).cell_at(x, y) == list_cell(
                    self.items@,
                    old(state).selected as int,
                    final(state).pointer,
                    area,
                    x,
                    y,
                    old(buf).cell_at(x, y),
                ),
    {
        let n = self.items.len();
        if n > 0 && now_ms - state.last_update > POINTER_REFRESH_MS {
            state.pointer = random_katakana(rng);
            state.last_update = now_ms;
        }
        let mut i: usize = 0;
        while i < n
            invariant
                buf.wf(),
                buf.width == old(buf).width,
                buf.height == old(buf).height,
                area.wf(),
                area.spec_right() <= buf.width,
                area.spec_bottom() <= buf.height,
                n == self.items@.len(),
                n <= area.height,
                n > 0 ==> area.width >= 1,
                n > 0 ==> state.selected < n,
                i <= n,
                forall|x: int, y: int|
                    buf.in_bounds(x, y) && y < area.spec_top() + i ==> buf.cell_at(x, y)
                        == list_cell(
                        self.items@,
                        state.selected as int,
                        state.pointer,
                        area,
                        x,
                        y,
                        old(buf).cell_at(x, y),
                    ),
                forall|x: int, y: int|
                    buf.in_bounds(x, y) && y >= area.spec_top() + i ==> buf.cell_at(x, y) == old(
                        buf,
                    ).cell_at(x, y),
            decreases n - i,
        {
            let y = area.top() + (i as u16);
            let bold = i == state.selected;
            if bold {
                let prev = buf.get(area.left(), y);
                buf.put(
                    area.left(),
                    y,
                    Cell {
                        symbol: state.pointer,
                        fg: Color::Indexed(LIST_FG),
                        bg: prev.bg,
                        bold: true,
                        dim: prev.dim,
                    },
                );
            }
            let x0 = if area.width >= 2 {
                area.left() + 2
            } else {
                area.right()
            };
            buf.set_text(x0, y, area.right(), self.items[i], Color::Indexed(LIST_FG), bold);
            i = i + 1;
        }
    }
}

impl KanaListState {
    /// A fresh state: first item selected, a random Katakana pointer, the
    /// refresh timer started at `now_ms`.
    pub fn new(rng: &mut rand::rngs::ThreadRng, now_ms: u64) -> (state: KanaListState)
        ensures
            state.selected == 0,
            is_katakana(state.pointer),
            state.last_update == now_ms,
    {
        KanaListState { selected: 0, pointer: random_katakana(rng), last_update: now_ms }
    }

    /// Currently selected list item.
    pub fn selected(&self) -> (r: usize)
        ensures
            r == self.selected,
    {
        self.selected
    }

    /// Select the next item, wrapping from the last item to the first.
    pub fn next(&mut self, items: &[&str])
        requires
            items@.len() > 0,
            old(self).selected < items@.len(),
        ensures
            final(self).selected == next_index(old(self).selected as int, items@.len() as int),
            final(self).pointer == old(self).pointer,
            final(self).last_update == old(self).last_update,
    {
        let n = items.len();
        self.selected = (self.selected + 1) % n;
    }

    /// Select the previous item, wrapping from the first item to the last.
    pub fn prev(&mut self, items: &[&str])
        requires
            items@.len() > 0,
            old(self).selected < items@.len(),
        ensures
            final(self).selected == prev_index(old(self).selected as int, items@.len() as int),
            final(self).pointer == old(self).pointer,
            final(self).last_update == old(self).last_update,
    {
        if self.selected == 0 {
            self.selected = items.len() - 1;
        } else {
            self.selected = self.selected - 1;
        }
    }
}

} // verus!
