//! Decorative animated border drawn around a rectangular overlay.
//!
//! The border glyphs are cached per perimeter cell in a fixed traversal
//! order (top row left to right, bottom row left to right, then the two
//! side columns top to bottom without their corners); each cell's glyph is
//! regenerated with a small per-frame probability, which produces a slow
//! flicker along the border.

use vstd::prelude::*;
use crate::buffer::{Cell, Color, ScreenBuffer};
use crate::glyph::{is_katakana, random_katakana};
use crate::rect::Rect;
use crate::rng::rand_u32;

verus! {

/// Color index of the border glyphs.
pub const BORDER_FG: u8 = 35;

/// Color index of the title text.
pub const TITLE_FG: u8 = 47;

/// Number of perimeter cells of `area` (corners counted once).
pub open spec fn perimeter_len(area: Rect) -> int {
    2 * area.width + 2 * (area.height - 2)
}

/// `(x, y)` is a perimeter cell of `area`.
pub open spec fn on_perimeter(area: Rect, x: int, y: int) -> bool {
    area.spec_contains(x, y) && (y == area.spec_top() || y == area.spec_bottom() - 1 || x
        == area.spec_left() || x == area.spec_right() - 1)
}

/// Position of perimeter index `i` in the fixed traversal order.
pub open spec fn perim_pos(area: Rect, i: int) -> (int, int) {
    let w = area.width as int;
    let h = area.height as int;
    if i < w {
        (area.spec_left() + i, area.spec_top())
    } else if i < 2 * w {
        (area.spec_left() + (i - w), area.spec_bottom() - 1)
    } else if i < 2 * w + (h - 2) {
        (area.spec_left(), area.spec_top() + 1 + (i - 2 * w))
    } else {
        (area.spec_right() - 1, area.spec_top() + 1 + (i - 2 * w - (h - 2)))
    }
}

/// Perimeter index of a perimeter cell `(x, y)` in the traversal order.
pub open spec fn perim_index(area: Rect, x: int, y: int) -> int {
    let w = area.width as int;
    let h = area.height as int;
    if y == area.spec_top() {
        x - area.spec_left()
    } else if y == area.spec_bottom() - 1 {
        w + (x - area.spec_left())
    } else if x == area.spec_left() {
        2 * w + (y - area.spec_top() - 1)
    } else {
        2 * w + (h - 2) + (y - area.spec_top() - 1)
    }
}

/// For a rectangle at least 2 cells wide and high, the traversal order and
/// the perimeter index are inverse to each other.
pub proof fn lemma_perimeter_traversal(area: Rect, i: int)
    requires
        area.wf(),
        area.width >= 2,
        area.height >= 2,
        0 <= i < perimeter_len(area),
    ensures
        on_perimeter(area, perim_pos(area, i).0, perim_pos(area, i).1),
        perim_index(area, perim_pos(area, i).0, perim_pos(area, i).1) == i,
{
}

/// Every perimeter cell's index is a valid index of the traversal order.
pub proof fn lemma_perimeter_index_range(area: Rect, x: int, y: int)
    requires
        area.wf(),
        area.width >= 2,
        area.height >= 2,
        on_perimeter(area, x, y),
    ensures
        0 <= perim_index(area, x, y) < perimeter_len(area),
        perim_pos(area, perim_index(area, x, y)) == (x, y),
{
}

/// First column of a title of `tlen` characters centered on the top edge.
pub open spec fn title_start(area: Rect, tlen: int) -> int {
    area.x + (area.width - tlen) / 2
}

/// `(x, y)` is covered by the centered title overlay: the title text plus
/// one blank padding cell on either side.
pub open spec fn title_covers(area: Rect, tlen: int, x: int, y: int) -> bool {
    y == area.spec_top() && title_start(area, tlen) - 1 <= x < title_start(area, tlen) + tlen + 1
}

/// The contents of cell `(x, y)` after drawing the border: the title
/// overlay (when present) on the top edge, the cached glyph of every other
/// perimeter cell, everything else untouched.  Written cells keep their
/// background and dim flag; padding cells beside the title are fully reset.
pub open spec fn border_cell(
    chars: Seq<char>,
    title: Option<&str>,
    area: Rect,
    x: int,
    y: int,
    old: Cell,
) -> Cell {
    if title is Some && title_covers(area, title->0@.len() as int, x, y) {
        let ts = title_start(area, title->0@.len() as int);
        if x == ts - 1 || x == ts + title->0@.len() {
            Cell::spec_default()
        } else {
            Cell {
                symbol: title->0@[x - ts],
                fg: Color::Indexed(TITLE_FG),
                bg: old.bg,
                bold: true,
                dim: old.dim,
            }
        }
    } else if on_perimeter(area, x, y) {
        Cell {
            symbol: chars[perim_index(area, x, y)],
            fg: Color::Indexed(BORDER_FG),
            bg: old.bg,
            bold: true,
            dim: old.dim,
        }
    } else {
        old
    }
}

/// Drawing the border writes a glyph to every perimeter cell and leaves
/// every interior cell untouched: a perimeter cell of a rectangle at
/// least 2 cells wide and high shows a Katakana glyph of the cache (when
/// no title overlays it), and a cell of the area that is not on the
/// perimeter keeps its previous contents whatever the title.
pub proof fn lemma_border_covers_perimeter(
    chars: Seq<char>,
    title: Option<&str>,
    area: Rect,
    x: int,
    y: int,
    old: Cell,
)
    requires
        area.wf(),
        area.width >= 2,
        area.height >= 2,
        chars.len() >= perimeter_len(area),
        forall|j: int| 0 <= j < chars.len() ==> is_katakana(#[trigger] chars[j]),
    ensures
        title is None && on_perimeter(area, x, y) ==> border_cell(chars, title, area, x, y, old)
            == (Cell {
            symbol: chars[perim_index(area, x, y)],
            fg: Color::Indexed(BORDER_FG),
            bg: old.bg,
            bold: true,
            dim: old.dim,
        }) && is_katakana(border_cell(chars, title, area, x, y, old).symbol),
        area.spec_contains(x, y) && !on_perimeter(area, x, y) ==> border_cell(
            chars,
            title,
            area,
            x,
            y,
            old,
        ) == old,
{
    if on_perimeter(area, x, y) {
        lemma_perimeter_index_range(area, x, y);
    }
    if title is Some && title_covers(area, title->0@.len() as int, x, y) {
        assert(y == area.spec_top());
    }
}

/// Drawing the same border glyphs a second time over their own output
/// changes nothing: the drawn cells are a pure function of the glyph
/// cache, the title and the fields they pass through.
pub proof fn lemma_border_draw_idempotent(
    chars: Seq<char>,
    title: Option<&str>,
    area: Rect,
    x: int,
    y: int,
    old: Cell,
)
    ensures
        border_cell(chars, title, area, x, y, border_cell(chars, title, area, x, y, old))
            == border_cell(chars, title, area, x, y, old),
{
}

/// Katakana border widget with an optional centered title.
pub struct KanaBorder<'a> {
    pub title: Option<&'a str>,
}

/// State for the [`KanaBorder`] widget: the cached border glyphs, indexed
/// by the perimeter traversal order; the cache grows lazily as cells are
/// first visited.
pub struct KanaBorderState {
    pub chars: Vec<char>,
}

impl KanaBorderState {
    /// Every cached glyph is a Katakana character.
    pub open spec fn wf(self) -> bool {
        forall|j: int| 0 <= j < self.chars@.len() ==> is_katakana(#[trigger] self.chars@[j])
    }
}

impl Default for KanaBorderState {
    /// An empty glyph cache.
    fn default() -> (state: KanaBorderState)
        ensures
            state.chars@.len() == 0,
            state.wf(),
    {
        KanaBorderState { chars: Vec::new() }
    }
}

impl<'a> Default for KanaBorder<'a> {
    /// A border without a title.
    fn default() -> (border: KanaBorder<'a>)
        ensures
            border.title is None,
    {
        KanaBorder { title: None }
    }
}

impl<'a> KanaBorder<'a> {
    /// Set a title to be shown centered on the top edge.
    pub fn title(self, title: &'a str) -> (border: KanaBorder<'a>)
        ensures
            border.title == Some(title),
    {
        KanaBorder { title: Some(title) }
    }

    /// Draw the border into `area`: every perimeter cell receives its
    /// cached glyph (regenerated with a chance of one in a hundred), and
    /// the title, when present, is drawn centered on the top edge with one
    /// blank padding cell on either side.
    ///
    /// Every cell of the buffer afterwards equals [`border_cell`] of the
    /// cell before, with the glyph cache of the final state; the cache
    /// keeps its length when it already covers the perimeter and grows to
    /// the perimeter length otherwise, and entries past the perimeter are
    /// untouched.
    pub fn render(
        &self,
        area: Rect,
        buf: &mut ScreenBuffer,
        state: &mut KanaBorderState,
        rng: &mut rand::rngs::ThreadRng,
    )
        requires
            old(buf).wf(),
            area.wf(),
            area.spec_right() <= old(buf).width,
            area.spec_bottom() <= old(buf).height,
            area.width >= 2,
            area.height >= 2,
            old(state).wf(),
            self.title matches Some(t) ==> t@.len() + 2 <= area.width,
        ensures
            final(buf).wf(),
            final(buf).width == old(buf).width,
            final(buf).height == old(buf).height,
            final(state).wf(),
            final(state).chars@.len() == if old(state).chars@.len() >= perimeter_len(area) {
                old(state).chars@.len() as int
            } else {
                perimeter_len(area)
            },
            forall|j: int|
                perimeter_len(area) <= j < old(state).chars@.len() ==> final(state).chars@[j] == old(
                    state,
                ).chars@[j],
            forall|x: int, y: int|
                final(buf).in_bounds(x, y) ==> final(buf).cell_at(x, y) == border_cell(
                    final(state).chars@,
                    self.title,
                    area,
                    x,
                    y,
                    old(buf).cell_at(x, y),
                ),
    {
        let w = area.width as usize;
        let h = area.height as usize;
        let plen: usize = 2 * w + 2 * (h - 2);
        let ghost len0 = state.chars@.len() as int;
        let mut i: usize = 0;
        while i < plen
            invariant
                buf.wf(),
                buf.width == old(buf).width,
                buf.height == old(buf).height,
                area.wf(),
                area.spec_right() <= buf.width,
                area.spec_bottom() <= buf.height,
                area.width >= 2,
                area.height >= 2,
                w == area.width as int,
                h == area.height as int,
                plen == perimeter_len(area),
                len0 == old(state).chars@.len(),
                i <= plen,
                state.wf(),
                state.chars@.len() == if i as int <= len0 {
                    len0
                } else {
                    i as int
                },
                forall|j: int| i <= j < len0 ==> state.chars@[j] == old(state).chars@[j],
                forall|x: int, y: int|
                    buf.in_bounds(x, y) && on_perimeter(area, x, y) && perim_index(area, x, y)
                        < i ==> buf.cell_at(x, y) == (Cell {
                        symbol: state.chars@[perim_index(area, x, y)],
                        fg: Color::Indexed(BORDER_FG),
                        bg: old(buf).cell_at(x, y).bg,
                        bold: true,
                        dim: old(buf).cell_at(x, y).dim,
                    }),
                forall|x: int, y: int|
                    #![all_triggers]
                    buf.in_bounds(x, y) && !(on_perimeter(area, x, y) && perim_index(area, x, y)
                        < i) ==> buf.cell_at(x, y) == old(buf).cell_at(x, y),
            decreases plen - i,
        {
            proof {
                lemma_perimeter_traversal(area, i as int);
            }
            let (x, y): (u16, u16) = if i < w {
                (area.x + i as u16, area.y)
            } else if i < 2 * w {
                (area.x + (i - w) as u16, area.y + area.height - 1)
            } else if i < 2 * w + (h - 2) {
                (area.x, area.y + 1 + (i - 2 * w) as u16)
            } else {
                (area.x + area.width - 1, area.y + 1 + (i - 2 * w - (h - 2)) as u16)
            };
            assert((x as int, y as int) == perim_pos(area, i as int));
            let mut c: char;
            if i < state.chars.len() {
                c = state.chars[i];
            } else {
                c = random_katakana(rng);
                state.chars.push(c);
            }
            if rand_u32(rng) % 100 == 0 {
                c = random_katakana(rng);
                state.chars.set(i, c);
            }
            let prev = buf.get(x, y);
            buf.put(
                x,
                y,
                Cell {
                    symbol: c,
                    fg: Color::Indexed(BORDER_FG),
                    bg: prev.bg,
                    bold: true,
                    dim: prev.dim,
                },
            );
            proof {
                assert forall|x2: int, y2: int|
                    buf.in_bounds(x2, y2) && on_perimeter(area, x2, y2) && perim_index(
                        area,
                        x2,
                        y2,
                    ) < i + 1 implies buf.cell_at(x2, y2) == (Cell {
                        symbol: state.chars@[perim_index(area, x2, y2)],
                        fg: Color::Indexed(BORDER_FG),
                        bg: old(buf).cell_at(x2, y2).bg,
                        bold: true,
                        dim: old(buf).cell_at(x2, y2).dim,
                    }) by {
                    lemma_perimeter_index_range(area, x2, y2);
                }
                assert forall|x2: int, y2: int|
                    buf.in_bounds(x2, y2) && !(on_perimeter(area, x2, y2) && perim_index(
                        area,
                        x2,
                        y2,
                    ) < i + 1) implies buf.cell_at(x2, y2) == old(buf).cell_at(x2, y2) by {
                    if on_perimeter(area, x2, y2) {
                        lemma_perimeter_index_range(area, x2, y2);
                    }
                }
            }
            i = i + 1;
        }
        self.draw_title(area, buf);
        proof {
            assert forall|x: int, y: int|
                buf.in_bounds(x, y) implies buf.cell_at(x, y) == border_cell(
                state.chars@,
                self.title,
                area,
                x,
                y,
                old(buf).cell_at(x, y),
            ) by {
                if on_perimeter(area, x, y) {
                    lemma_perimeter_index_range(area, x, y);
                }
            }
        }
    }

    /// Draw the title, when present, centered on the top edge of `area`,
    /// with the single cells immediately left and right of it blanked.
    fn draw_title(&self, area: Rect, buf: &mut ScreenBuffer)
        requires
            old(buf).wf(),
            area.wf(),
            area.spec_right() <= old(buf).width,
            area.spec_bottom() <= old(buf).height,
            area.width >= 2,
            area.height >= 1,
            self.title matches Some(t) ==> t@.len() + 2 <= area.width,
        ensures
            final(buf).wf(),
            final(buf).width == old(buf).width,
            final(buf).height == old(buf).height,
            self.title is None ==> *final(buf) == *old(buf),
            forall|x: int, y: int|
                #![all_triggers]
                self.title is Some && final(buf).in_bounds(x, y) && !title_covers(
                    area,
                    self.title->0@.len() as int,
                    x,
                    y,
                ) ==> final(buf).cell_at(x, y) == old(buf).cell_at(x, y),
            forall|x: int, y: int|
                #![all_triggers]
                self.title is Some && final(buf).in_bounds(x, y) && title_covers(
                    area,
                    self.title->0@.len() as int,
                    x,
                    y,
                ) ==> final(buf).cell_at(x, y) == (if x == title_start(
                    area,
                    self.title->0@.len() as int,
                ) - 1 || x == title_start(area, self.title->0@.len() as int)
                    + self.title->0@.len() {
                    Cell::spec_default()
                } else {
                    Cell {
                        symbol: self.title->0@[x - title_start(area, self.title->0@.len() as int)],
                        fg: Color::Indexed(TITLE_FG),
                        bg: old(buf).cell_at(x, y).bg,
                        bold: true,
                        dim: old(buf).cell_at(x, y).dim,
                    }
                }),
    {
        if let Some(t) = self.title {
            let tlen = t.unicode_len();
            let ts: u16 = area.x + (area.width - tlen as u16) / 2;
            assert(ts as int == title_start(area, tlen as int));
            buf.put(ts - 1, area.y, Cell::empty());
            buf.set_text(ts, area.y, area.x + area.width, t, Color::Indexed(TITLE_FG), true);
            buf.put(ts + tlen as u16, area.y, Cell::empty());
        }
    }
}

} // verus!
