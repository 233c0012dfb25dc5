//! Sparse, slowly mutating field of dim glyphs behind the whole scene.

use vstd::prelude::*;
use crate::buffer::{Cell, Color, ScreenBuffer};
use crate::glyph::{is_katakana, random_katakana};
use crate::rect::Rect;
use crate::rng::{rand_between, rand_u16};

verus! {

/// Color index of the dim background glyphs.
pub const BACKGROUND_FG: u8 = 22;

/// One particle of the ambient field: a glyph and its position.
pub type Particle = (char, u16, u16);

/// Number of particles kept for `area`: one for every twenty cells.
pub open spec fn particle_amount(area: Rect) -> int {
    (area.width * area.height) as int / 20
}

/// The cell a particle paints: a dim, desaturated glyph over a reset
/// background.
pub open spec fn particle_cell(c: char) -> Cell {
    Cell { symbol: c, fg: Color::Indexed(BACKGROUND_FG), bg: Color::Reset, bold: false, dim: true }
}

/// The contents of cell `(x, y)` after drawing the particles in order:
/// the glyph of the last particle sitting at `(x, y)` inside `area`, or
/// the previous contents when no particle covers the cell.
pub open spec fn background_cell(
    chars: Seq<Particle>,
    area: Rect,
    x: int,
    y: int,
    old: Cell,
) -> Cell
    decreases chars.len(),
{
    if chars.len() == 0 {
        old
    } else {
        let p = chars.last();
        if area.spec_contains(p.1 as int, p.2 as int) && p.1 == x && p.2 == y {
            particle_cell(p.0)
        } else {
            background_cell(chars.drop_last(), area, x, y, old)
        }
    }
}

/// Drawing the same particles a second time changes nothing: every painted
/// cell is a full overwrite determined by the particle alone.
pub proof fn lemma_background_draw_idempotent(
    chars: Seq<Particle>,
    area: Rect,
    x: int,
    y: int,
    old: Cell,
)
    ensures
        background_cell(chars, area, x, y, background_cell(chars, area, x, y, old))
            == background_cell(chars, area, x, y, old),
    decreases chars.len(),
{
    if chars.len() > 0 {
        let p = chars.last();
        if !(area.spec_contains(p.1 as int, p.2 as int) && p.1 == x && p.2 == y) {
            lemma_background_draw_idempotent(chars.drop_last(), area, x, y, old);
        }
    }
}

/// Ambient background widget.
pub struct KanaBackground {
    /// Milliseconds between two refreshes of a fraction of the particles.
    pub update_speed_ms: u64,
}

/// State for the [`KanaBackground`] widget.
pub struct KanaBackgroundState {
    /// The particle field; its size tracks the area it was generated for.
    pub chars: Vec<Particle>,
    /// Last time particles were refreshed, in milliseconds.
    pub last_update: u64,
}

impl KanaBackgroundState {
    /// Every particle glyph is a Katakana character.
    pub open spec fn wf(self) -> bool {
        forall|j: int|
            0 <= j < self.chars@.len() ==> is_katakana(#[trigger] self.chars@[j].0)
    }

    /// An empty particle field whose refresh timer starts at `now_ms`.
    pub fn new(now_ms: u64) -> (state: KanaBackgroundState)
        ensures
            state.chars@.len() == 0,
            state.last_update == now_ms,
            state.wf(),
    {
        KanaBackgroundState { chars: Vec::new(), last_update: now_ms }
    }
}

impl KanaBackground {
    /// A new ambient background refreshing every `update_speed_ms`
    /// milliseconds.
    pub fn new(update_speed_ms: u64) -> (bg: KanaBackground)
        ensures
            bg.update_speed_ms == update_speed_ms,
    {
        KanaBackground { update_speed_ms }
    }

    /// A fresh particle: a random Katakana glyph at a position uniformly
    /// distributed over `area`.
    fn new_random(rng: &mut rand::rngs::ThreadRng, area: Rect) -> (p: Particle)
        requires
            area.wf(),
            area.width >= 1,
            area.height >= 1,
        ensures
            is_katakana(p.0),
            area.spec_contains(p.1 as int, p.2 as int),
    {
        let c = random_katakana(rng);
        let x = area.x + rand_u16(rng) % area.width;
        let y = area.y + rand_u16(rng) % area.height;
        (c, x, y)
    }

    /// Draw the particle field into `area`.
    ///
    /// When the particle count no longer matches `area` (after a resize),
    /// the whole field is regenerated inside `area`; otherwise, once
    /// `update_speed_ms` milliseconds have elapsed, a twentieth of the
    /// particles are replaced (chosen with replacement).  Every particle
    /// inside `area` then paints a dim glyph at its position; stale
    /// particles outside `area` are kept but not drawn.
    pub fn render(
        &self,
        area: Rect,
        buf: &mut ScreenBuffer,
        state: &mut KanaBackgroundState,
        rng: &mut rand::rngs::ThreadRng,
        now_ms: u64,
    )
        requires
            old(buf).wf(),
            area.wf(),
            area.spec_right() <= old(buf).width,
            area.spec_bottom() <= old(buf).height,
            old(state).wf(),
            old(state).last_update <= now_ms,
        ensures
            final(buf).wf(),
            final(buf).width == old(buf).width,
            final(buf).height == old(buf).height,
            final(state).wf(),
            // the field always matches the area's particle budget
            final(state).chars@.len() == particle_amount(area),
            // a resize regenerates every particle inside the new area
            old(state).chars@.len() != particle_amount(area) ==> forall|j: int|
                0 <= j < final(state).chars@.len() ==> area.spec_contains(
                    (#[trigger] final(state).chars@[j]).1 as int,
                    final(state).chars@[j].2 as int,
                ),
            // a refresh replaces particles only with particles inside the area
            old(state).chars@.len() == particle_amount(area) ==> forall|j: int|
                0 <= j < final(state).chars@.len() ==> (#[trigger] final(state).chars@[j]) == old(
                    state,
                ).chars@[j] || area.spec_contains(
                    final(state).chars@[j].1 as int,
                    final(state).chars@[j].2 as int,
                ),
            final(state).last_update == if now_ms - old(state).last_update
                > self.update_speed_ms {
                now_ms
            } else {
                old(state).last_update
            },
            // with a matching field and a closed refresh gate, nothing mutates
            old(state).chars@.len() == particle_amount(area) && now_ms - old(state).last_update
                <= self.update_speed_ms ==> *final(state) == *old(state),
            forall|x: int, y: int|
                final(buf).in_bounds(x, y) ==> final(buf).cell_at(x, y) == background_cell(
                    final(state).chars@,
                    area,
                    x,
                    y,
                    old(buf).cell_at(x, y),
                ),
    {
        proof {
            assert(area.width * area.height <= 65535 * 65535) by (nonlinear_arith)
                requires 0 <= area.width as int <= 65535, 0 <= area.height as int <= 65535;
        }
        let amount: usize = (area.width as usize) * (area.height as usize) / 20;
        proof {
            if amount > 0 {
                assert(area.width * area.height >= 20);
                assert(area.width >= 1 && area.height >= 1) by (nonlinear_arith)
                    requires area.width * area.height >= 20;
            }
        }

        if state.chars.len() != amount {
            state.chars.clear();
            while state.chars.len() < amount
                invariant
                    area.wf(),
                    amount == particle_amount(area),
                    amount > 0 ==> area.width >= 1 && area.height >= 1,
                    state.chars@.len() <= amount,
                    state.wf(),
                    forall|j: int|
                        0 <= j < state.chars@.len() ==> area.spec_contains(
                            (#[trigger] state.chars@[j]).1 as int,
                            state.chars@[j].2 as int,
                        ),
                    state.last_update == old(state).last_update,
                decreases amount - state.chars@.len(),
            {
                let p = Self::new_random(rng, area);
                state.chars.push(p);
            }
        }

        let ghost chars_mid = state.chars@;
        if now_ms - state.last_update > self.update_speed_ms {
            let mut k: usize = 0;
            while k < amount / 20
                invariant
                    area.wf(),
                    amount == particle_amount(area),
                    amount > 0 ==> area.width >= 1 && area.height >= 1,
                    state.chars@.len() == amount,
                    chars_mid.len() == amount,
                    state.wf(),
                    forall|j: int|
                        0 <= j < state.chars@.len() ==> (#[trigger] state.chars@[j])
                            == chars_mid[j] || area.spec_contains(
                            state.chars@[j].1 as int,
                            state.chars@[j].2 as int,
                        ),
                    state.last_update == old(state).last_update,
                decreases amount / 20 - k,
            {
                if state.chars.len() > 0 {
                    let idx = rand_between(rng, 0, state.chars.len() - 1);
                    let p = Self::new_random(rng, area);
                    state.chars.set(idx, p);
                }
                k = k + 1;
            }
            state.last_update = now_ms;
        }

        let ghost chars_final = state.chars@;
        let n = state.chars.len();
        let mut i: usize = 0;
        while i < n
            invariant
                buf.wf(),
                buf.width == old(buf).width,
                buf.height == old(buf).height,
                area.wf(),
                area.spec_right() <= buf.width,
                area.spec_bottom() <= buf.height,
                n == chars_final.len(),
                state.chars@ == chars_final,
                i <= n,
                forall|x: int, y: int|
                    buf.in_bounds(x, y) ==> buf.cell_at(x, y) == background_cell(
                        chars_final.take(i as int),
                        area,
                        x,
                        y,
                        old(buf).cell_at(x, y),
                    ),
            decreases n - i,
        {
            let (c, px, py) = state.chars[i];
            if area.contains((px, py)) {
                buf.put(px, py, Cell {
                    symbol: c,
                    fg: Color::Indexed(BACKGROUND_FG),
                    bg: Color::Reset,
                    bold: false,
                    dim: true,
                });
            }
            proof {
                assert(chars_final.take(i + 1).drop_last() =~= chars_final.take(i as int));
                assert(chars_final.take(i + 1).last() == chars_final[i as int]);
            }
            i = i + 1;
        }
        proof {
            assert(chars_final.take(n as int) =~= chars_final);
        }
    }
}

} // verus!
