//! Countdown widget drawing minutes and seconds as large block digits.
//!
//! Each digit is a fixed 10x10 bit raster.  Set bits are painted with a
//! random digit glyph (only set/unset matters for the shape) over a
//! background that flickers between a normal and a bright variant; unset
//! bits leave the underlying cell untouched.

use vstd::prelude::*;
use crate::buffer::{Cell, Color, ScreenBuffer};
use crate::glyph::{is_digit_glyph, random_digit};
use crate::rect::Rect;
use crate::rng::rand_u32;

verus! {

/// Foreground color index of the block digits.
pub const COUNTDOWN_FG: u8 = 47;

/// Normal background color index of a set raster bit.
pub const COUNTDOWN_BG: u8 = 23;

/// Bright background color index used for the flicker effect.
pub const COUNTDOWN_BG_BRIGHT: u8 = 35;

/// Digits 0 to 9 as 10x10 rasters, row by row; a non-zero entry means the
/// cell at that position belongs to the digit's shape.
pub const DIGITS: [[u8; 100]; 10] = [
    [
        1,1,1,1,1,1,1,1,1,1,
        1,1,1,1,1,1,1,1,1,1,
        1,1,1,0,0,0,0,1,1,1,
        1,1,1,0,0,0,0,1,1,1,
        1,1,1,0,0,0,0,1,1,1,
        1,1,1,0,0,0,0,1,1,1,
        1,1,1,0,0,0,0,1,1,1,
        1,1,1,0,0,0,0,1,1,1,
        1,1,1,1,1,1,1,1,1,1,
        1,1,1,1,1,1,1,1,1,1,
    ],
    [
        0,0,0,0,0,0,0,1,1,1,
        0,0,0,0,0,0,0,1,1,1,
        0,0,0,0,0,0,0,1,1,1,
        0,0,0,0,0,0,0,1,1,1,
        0,0,0,0,0,0,0,1,1,1,
        0,0,0,0,0,0,0,1,1,1,
        0,0,0,0,0,0,0,1,1,1,
        0,0,0,0,0,0,0,1,1,1,
        0,0,0,0,0,0,0,1,1,1,
        0,0,0,0,0,0,0,1,1,1,
    ],
    [
        1,1,1,1,1,1,1,1,1,1,
        1,1,1,1,1,1,1,1,1,1,
        0,0,0,0,0,0,0,1,1,1,
        0,0,0,0,0,0,0,1,1,1,
        1,1,1,1,1,1,1,1,1,1,
        1,1,1,1,1,1,1,1,1,1,
        1,1,1,0,0,0,0,0,0,0,
        1,1,1,0,0,0,0,0,0,0,
        1,1,1,1,1,1,1,1,1,1,
        1,1,1,1,1,1,1,1,1,1,
    ],
    [
        1,1,1,1,1,1,1,1,1,1,
        1,1,1,1,1,1,1,1,1,1,
        0,0,0,0,0,0,0,1,1,1,
        0,0,0,0,0,0,0,1,1,1,
        1,1,1,1,1,1,1,1,1,1,
        1,1,1,1,1,1,1,1,1,1,
        0,0,0,0,0,0,0,1,1,1,
        0,0,0,0,0,0,0,1,1,1,
        1,1,1,1,1,1,1,1,1,1,
        1,1,1,1,1,1,1,1,1,1,
    ],
    [
        1,1,1,0,0,0,0,1,1,1,
        1,1,1,0,0,0,0,1,1,1,
        1,1,1,0,0,0,0,1,1,1,
        1,1,1,0,0,0,0,1,1,1,
        1,1,1,1,1,1,1,1,1,1,
        1,1,1,1,1,1,1,1,1,1,
        0,0,0,0,0,0,0,1,1,1,
        0,0,0,0,0,0,0,1,1,1,
        0,0,0,0,0,0,0,1,1,1,
        0,0,0,0,0,0,0,1,1,1,
    ],
    [
        1,1,1,1,1,1,1,1,1,1,
        1,1,1,1,1,1,1,1,1,1,
        1,1,1,0,0,0,0,0,0,0,
        1,1,1,0,0,0,0,0,0,0,
        1,1,1,1,1,1,1,1,1,1,
        1,1,1,1,1,1,1,1,1,1,
        0,0,0,0,0,0,0,1,1,1,
        0,0,0,0,0,0,0,1,1,1,
        1,1,1,1,1,1,1,1,1,1,
        1,1,1,1,1,1,1,1,1,1,
    ],
    [
        1,1,1,1,1,1,1,1,1,1,
        1,1,1,1,1,1,1,1,1,1,
        1,1,1,0,0,0,0,0,0,0,
        1,1,1,0,0,0,0,0,0,0,
        1,1,1,1,1,1,1,1,1,1,
        1,1,1,1,1,1,1,1,1,1,
        1,1,1,0,0,0,0,1,1,1,
        1,1,1,0,0,0,0,1,1,1,
        1,1,1,1,1,1,1,1,1,1,
        1,1,1,1,1,1,1,1,1,1,
    ],
    [
        1,1,1,1,1,1,1,1,1,1,
        1,1,1,1,1,1,1,1,1,1,
        0,0,0,0,0,0,0,1,1,1,
        0,0,0,0,0,0,0,1,1,1,
        0,0,0,0,0,0,0,1,1,1,
        0,0,0,0,0,0,0,1,1,1,
        0,0,0,0,0,0,0,1,1,1,
        0,0,0,0,0,0,0,1,1,1,
        0,0,0,0,0,0,0,1,1,1,
        0,0,0,0,0,0,0,1,1,1,
    ],
    [
        1,1,1,1,1,1,1,1,1,1,
        1,1,1,1,1,1,1,1,1,1,
        1,1,1,0,0,0,0,1,1,1,
        1,1,1,0,0,0,0,1,1,1,
        1,1,1,1,1,1,1,1,1,1,
        1,1,1,1,1,1,1,1,1,1,
        1,1,1,0,0,0,0,1,1,1,
        1,1,1,0,0,0,0,1,1,1,
        1,1,1,1,1,1,1,1,1,1,
        1,1,1,1,1,1,1,1,1,1,
    ],
    [
        1,1,1,1,1,1,1,1,1,1,
        1,1,1,1,1,1,1,1,1,1,
        1,1,1,0,0,0,0,1,1,1,
        1,1,1,0,0,0,0,1,1,1,
        1,1,1,1,1,1,1,1,1,1,
        1,1,1,1,1,1,1,1,1,1,
        0,0,0,0,0,0,0,1,1,1,
        0,0,0,0,0,0,0,1,1,1,
        0,0,0,0,0,0,0,1,1,1,
        0,0,0,0,0,0,0,1,1,1,
    ],
];

/// The separator between minutes and seconds as a 10x10 raster.
pub const SEPARATOR: [u8; 100] = [
    0,0,0,0,0,0,0,0,0,0,
    0,0,0,0,0,0,0,0,0,0,
    0,0,0,1,1,1,1,0,0,0,
    0,0,0,1,1,1,1,0,0,0,
    0,0,0,0,0,0,0,0,0,0,
    0,0,0,0,0,0,0,0,0,0,
    0,0,0,1,1,1,1,0,0,0,
    0,0,0,1,1,1,1,0,0,0,
    0,0,0,0,0,0,0,0,0,0,
    0,0,0,0,0,0,0,0,0,0,
];

/// The raster bit of `shape` at column `dx`, row `dy`.
pub open spec fn shape_bit(shape: [u8; 100], dx: int, dy: int) -> bool {
    shape[dy * 10 + dx] != 0
}

/// The raster drawn in slot `k` (left to right) for `secs` total seconds:
/// tens of minutes, minutes, the separator, tens of seconds, seconds.
pub open spec fn slot_shape(secs: int, k: int) -> [u8; 100] {
    if k == 0 {
        DIGITS[secs / 600]
    } else if k == 1 {
        DIGITS[secs / 60 % 10]
    } else if k == 2 {
        SEPARATOR
    } else if k == 3 {
        DIGITS[secs % 60 / 10]
    } else {
        DIGITS[secs % 10]
    }
}

/// A cell painted by the countdown: a digit glyph in the countdown
/// foreground over one of the two background variants, with no style flags.
pub open spec fn countdown_cell_ok(c: Cell) -> bool {
    &&& is_digit_glyph(c.symbol)
    &&& c.fg == Color::Indexed(COUNTDOWN_FG)
    &&& (c.bg == Color::Indexed(COUNTDOWN_BG) || c.bg == Color::Indexed(COUNTDOWN_BG_BRIGHT))
    &&& !c.bold
    &&& !c.dim
}

/// Top-left corner of the 54x10 block centered in `area`.
pub open spec fn block_origin(area: Rect) -> (int, int) {
    (area.x + (area.width - 54) / 2, area.y + (area.height - 10) / 2)
}

/// Cell `(x, y)` lies on a set raster bit of one of the five digit slots
/// for `secs` total seconds.
pub open spec fn countdown_covers(secs: int, area: Rect, x: int, y: int) -> bool {
    let (bx, by) = block_origin(area);
    exists|k: int|
        0 <= k < 5 && bx + 11 * k <= x < bx + 11 * k + 10 && by <= y < by + 10 && shape_bit(
            slot_shape(secs, k),
            x - (bx + 11 * k),
            y - by,
        )
}

/// Countdown widget; draws the minutes and seconds of a duration as block
/// digits centered in the target area.  Stateless: the drawn shape is a
/// pure function of the duration.
pub struct Countdown {
    /// Duration to draw, in milliseconds; only whole minutes and seconds
    /// are considered.
    pub duration_ms: u64,
}

/// The digit values shown for `secs` total seconds, left to right: tens of
/// minutes, units of minutes, tens of seconds, units of seconds.
pub fn countdown_digits(secs: u64) -> (r: (usize, usize, usize, usize))
    requires
        secs < 3600,
    ensures
        r.0 == secs as int / 600,
        r.1 == secs as int / 60 % 10,
        r.2 == secs as int % 60 / 10,
        r.3 == secs as int % 10,
        r.0 < 6 && r.1 < 10 && r.2 < 6 && r.3 < 10,
{
    let s = secs as usize;
    (s / 600, s / 60 % 10, s % 60 / 10, s % 10)
}

/// Paint the set bits of a 10x10 raster whose top-left corner is at
/// `(x0, y0)`: each set bit becomes a random digit glyph over a flickering
/// background, each unset bit leaves its cell untouched.
fn draw_shape(
    buf: &mut ScreenBuffer,
    x0: u16,
    y0: u16,
    shape: &[u8; 100],
    rng: &mut rand::rngs::ThreadRng,
)
    requires
        old(buf).wf(),
        x0 + 10 <= old(buf).width,
        y0 + 10 <= old(buf).height,
    ensures
        final(buf).wf(),
        final(buf).width == old(buf).width,
        final(buf).height == old(buf).height,
        forall|dx: int, dy: int|
            0 <= dx < 10 && 0 <= dy < 10 && shape_bit(*shape, dx, dy) ==> countdown_cell_ok(
                final(buf).cell_at(x0 + dx, y0 + dy),
            ),
        forall|x: int, y: int|
            final(buf).in_bounds(x, y) && !(x0 <= x < x0 + 10 && y0 <= y < y0 + 10 && shape_bit(
                *shape,
                x - x0,
                y - y0,
            )) ==> final(buf).cell_at(x, y) == old(buf).cell_at(x, y),
{
    let mut dy: usize = 0;
    while dy < 10
        invariant
            buf.wf(),
            buf.width == old(buf).width,
            buf.height == old(buf).height,
            x0 + 10 <= buf.width,
            y0 + 10 <= buf.height,
            dy <= 10,
            forall|dx2: int, dy2: int|
                0 <= dx2 < 10 && 0 <= dy2 < dy && shape_bit(*shape, dx2, dy2)
                    ==> countdown_cell_ok(buf.cell_at(x0 + dx2, y0 + dy2)),
            forall|x: int, y: int|
                buf.in_bounds(x, y) && !(x0 <= x < x0 + 10 && y0 <= y < y0 + dy && shape_bit(
                    *shape,
                    x - x0,
                    y - y0,
                )) ==> buf.cell_at(x, y) == old(buf).cell_at(x, y),
        decreases 10 - dy,
    {
        let mut dx: usize = 0;
        while dx < 10
            invariant
                buf.wf(),
                buf.width == old(buf).width,
                buf.height == old(buf).height,
                x0 + 10 <= buf.width,
                y0 + 10 <= buf.height,
                dy < 10,
                dx <= 10,
                forall|dx2: int, dy2: int|
                    0 <= dx2 < 10 && 0 <= dy2 < dy && shape_bit(*shape, dx2, dy2)
                        ==> countdown_cell_ok(buf.cell_at(x0 + dx2, y0 + dy2)),
                forall|dx2: int|
                    0 <= dx2 < dx && shape_bit(*shape, dx2, dy as int) ==> countdown_cell_ok(
                        buf.cell_at(x0 + dx2, y0 + dy),
                    ),
                forall|x: int, y: int|
                    buf.in_bounds(x, y) && !(x0 <= x < x0 + 10 && y0 <= y < y0 + dy && shape_bit(
                        *shape,
                        x - x0,
                        y - y0,
                    )) && !(x0 <= x < x0 + dx && y == y0 + dy && shape_bit(*shape, x - x0, dy as int))
                        ==> buf.cell_at(x, y) == old(buf).cell_at(x, y),
            decreases 10 - dx,
        {
            if shape[dy * 10 + dx] != 0 {
                let bg = if rand_u32(rng) % 5 == 0 {
                    Color::Indexed(COUNTDOWN_BG_BRIGHT)
                } else {
                    Color::Indexed(COUNTDOWN_BG)
                };
                let c = random_digit(rng);
                buf.put(
                    x0 + dx as u16,
                    y0 + dy as u16,
                    Cell {
                        symbol: c,
                        fg: Color::Indexed(COUNTDOWN_FG),
                        bg,
                        bold: false,
                        dim: false,
                    },
                );
            }
            dx = dx + 1;
        }
        dy = dy + 1;
    }
}

impl Countdown {
    /// Draw the duration as `MM:SS` in block digits centered in `area`.
    ///
    /// Cells on a set bit of the five rasters are painted with a digit
    /// glyph over a flickering background; every other cell is untouched.
    pub fn render(&self, area: Rect, buf: &mut ScreenBuffer, rng: &mut rand::rngs::ThreadRng)
        requires
            old(buf).wf(),
            area.wf(),
            area.spec_right() <= old(buf).width,
            area.spec_bottom() <= old(buf).height,
            area.width >= 54,
            area.height >= 10,
            // the two-digit minute layout holds durations under one hour
            self.duration_ms / 1000 < 3600,
        ensures
            final(buf).wf(),
            final(buf).width == old(buf).width,
            final(buf).height == old(buf).height,
            forall|x: int, y: int|
                final(buf).in_bounds(x, y) && countdown_covers(
                    self.duration_ms as int / 1000,
                    area,
                    x,
                    y,
                ) ==> countdown_cell_ok(final(buf).cell_at(x, y)),
            forall|x: int, y: int|
                final(buf).in_bounds(x, y) && !countdown_covers(
                    self.duration_ms as int / 1000,
                    area,
                    x,
                    y,
                ) ==> final(buf).cell_at(x, y) == old(buf).cell_at(x, y),
    {
        let ghost secs_g = self.duration_ms as int / 1000;
        let block = Rect::new(0, 0, 54, 10);
        let r = block.center_in(&area);
        let secs = self.duration_ms / 1000;
        let (d0, d1, d2, d3) = countdown_digits(secs);
        let ghost b0 = *buf;
        draw_shape(buf, r.x, r.y, &DIGITS[d0], rng);
        let ghost b1 = *buf;
        draw_shape(buf, r.x + 11, r.y, &DIGITS[d1], rng);
        let ghost b2 = *buf;
        draw_shape(buf, r.x + 22, r.y, &SEPARATOR, rng);
        let ghost b3 = *buf;
        draw_shape(buf, r.x + 33, r.y, &DIGITS[d2], rng);
        let ghost b4 = *buf;
        draw_shape(buf, r.x + 44, r.y, &DIGITS[d3], rng);
        proof {
            let (bx, by) = block_origin(area);
            assert(bx == r.x as int && by == r.y as int);
            assert forall|x: int, y: int|
                final(buf).in_bounds(x, y) && countdown_covers(secs_g, area, x, y)
                    implies countdown_cell_ok(final(buf).cell_at(x, y)) by {
                let k = choose|k: int|
                    0 <= k < 5 && bx + 11 * k <= x < bx + 11 * k + 10 && by <= y < by + 10
                        && shape_bit(slot_shape(secs_g, k), x - (bx + 11 * k), y - by);
                assert(slot_shape(secs_g, 0) == DIGITS[d0 as int]);
                assert(slot_shape(secs_g, 1) == DIGITS[d1 as int]);
                assert(slot_shape(secs_g, 3) == DIGITS[d2 as int]);
                assert(slot_shape(secs_g, 4) == DIGITS[d3 as int]);
            }
            assert forall|x: int, y: int|
                final(buf).in_bounds(x, y) && !countdown_covers(secs_g, area, x, y)
                    implies final(buf).cell_at(x, y) == b0.cell_at(x, y) by {
                assert(slot_shape(secs_g, 0) == DIGITS[d0 as int]);
                assert(slot_shape(secs_g, 1) == DIGITS[d1 as int]);
                assert(slot_shape(secs_g, 2) == SEPARATOR);
                assert(slot_shape(secs_g, 3) == DIGITS[d2 as int]);
                assert(slot_shape(secs_g, 4) == DIGITS[d3 as int]);
            }
        }
    }
}

} // verus!
