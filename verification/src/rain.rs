//! The falling-rain effect: a pool of raindrop animations.
//!
//! Each raindrop carries a name drawn vertically at its tip and a trail of
//! random glyphs above it.  Spawning and falling are gated on elapsed time;
//! drawing happens every frame and is a pure function of the pool.  A drop
//! that leaves the drawing area is deactivated and its slot reused by a
//! later spawn; the pool only grows, never shrinks.

use vstd::prelude::*;
use vstd::string::StrSliceExecFns;
use crate::buffer::{Cell, Color, ScreenBuffer};
use crate::glyph::{is_glyph, random_glyph};
use crate::rect::Rect;
use crate::rng::{rand_between, rand_u16};

verus! {

/// Foreground color index of the name at the tip of a drop.
pub const NAME_FG: u8 = 47;

/// Background color index of the name at the tip of a drop.
pub const NAME_BG: u8 = 23;

/// Foreground color index of the brighter, recent half of the trail.
pub const TRAIL_FG_BRIGHT: u8 = 35;

/// Foreground color index of the faded, older half of the trail.
pub const TRAIL_FG_DIM: u8 = 23;

/// Longest supported name, so that all row arithmetic stays inside the
/// `u16` cell grid.
pub const MAX_NAME_LEN: usize = 0xFFFF;

/// A single raindrop of the pool.  An inactive drop's fields are stale and
/// are only read again after a spawn reinitializes them.
pub struct RainDrop {
    /// Name drawn vertically at the tip.
    pub name: String,
    /// Trail of random glyphs drawn directly above the name.
    pub trail: Vec<char>,
    /// Position of the tip: column, row.  The row increases monotonically
    /// while the drop is active and may run past the area's bottom edge by
    /// the length of the name and trail before the drop is deactivated.
    pub pos: (u16, u32),
    /// Whether the drop is still visible; an inactive slot can be reused.
    pub active: bool,
}

/// An active drop carries a name from `namelist` and a well-sized trail of
/// rain glyphs; nothing is demanded of inactive slots.
pub open spec fn drop_wf(d: RainDrop, namelist: Seq<String>) -> bool {
    d.active ==> {
        &&& exists|j: int| 0 <= j < namelist.len() && d.name@ == #[trigger] namelist[j]@
        &&& d.name@.len() <= MAX_NAME_LEN
        &&& d.name@.len() <= d.trail@.len() <= 2 * d.name@.len()
        &&& forall|k: int| 0 <= k < d.trail@.len() ==> is_glyph(#[trigger] d.trail@[k])
    }
}

/// The drop has scrolled past the bottom of `area` by its own length, or
/// sits past the right edge: the sole removal condition.
pub open spec fn out_of_area(d: RainDrop, area: Rect) -> bool {
    d.pos.1 >= area.spec_bottom() + d.name@.len() + d.trail@.len() || d.pos.0
        >= area.spec_right()
}

/// The drop as the visibility check leaves it: deactivated when out of the
/// area, untouched otherwise.
pub open spec fn deactivate(d: RainDrop, area: Rect) -> RainDrop {
    if out_of_area(d, area) {
        RainDrop { name: d.name, trail: d.trail, pos: d.pos, active: false }
    } else {
        d
    }
}

/// The drop survives the visibility check and is drawn this frame.
pub open spec fn drawn(d: RainDrop, area: Rect) -> bool {
    d.active && !out_of_area(d, area)
}

/// Cell `(x, y)` holds a character of the drop's name: the drop's column,
/// within the vertical band of the area, at most a name's length above the
/// tip row.
pub open spec fn name_covers(d: RainDrop, area: Rect, x: int, y: int) -> bool {
    x == d.pos.0 && area.spec_top() <= y < area.spec_bottom() && y <= d.pos.1 < y
        + d.name@.len()
}

/// Cell `(x, y)` holds a trail glyph: directly above the name band.
pub open spec fn trail_covers(d: RainDrop, area: Rect, x: int, y: int) -> bool {
    x == d.pos.0 && area.spec_top() <= y < area.spec_bottom() && y + d.name@.len() <= d.pos.1
        < y + d.name@.len() + d.trail@.len()
}

/// The name character shown at row `y`: the name runs downwards, its last
/// character at the tip.
pub open spec fn name_cell(d: RainDrop, y: int, old: Cell) -> Cell {
    Cell {
        symbol: d.name@[d.name@.len() - 1 - (d.pos.1 - y)],
        fg: Color::Indexed(NAME_FG),
        bg: Color::Indexed(NAME_BG),
        bold: true,
        dim: old.dim,
    }
}

/// The trail glyph shown at row `y`; the first half of the trail is drawn
/// brighter than the rest to simulate fading.
pub open spec fn trail_cell(d: RainDrop, y: int, old: Cell) -> Cell {
    let i = d.pos.1 - d.name@.len() - y;
    Cell {
        symbol: d.trail@[i],
        fg: Color::Indexed(
            if i < d.trail@.len() / 2 {
                TRAIL_FG_BRIGHT
            } else {
                TRAIL_FG_DIM
            },
        ),
        bg: old.bg,
        bold: old.bold,
        dim: old.dim,
    }
}

/// The contents of cell `(x, y)` after painting one drop over `old`.
pub open spec fn drop_cell(d: RainDrop, area: Rect, x: int, y: int, old: Cell) -> Cell {
    if name_covers(d, area, x, y) {
        name_cell(d, y, old)
    } else if trail_covers(d, area, x, y) {
        trail_cell(d, y, old)
    } else {
        old
    }
}

/// The contents of cell `(x, y)` after painting the whole pool in order:
/// each drop that survives the visibility check paints over what is
/// already there; inactive and out-of-area drops paint nothing, so the
/// result never depends on an inactive slot's stale fields.
pub open spec fn rain_cell(drops: Seq<RainDrop>, area: Rect, x: int, y: int, old: Cell) -> Cell
    decreases drops.len(),
{
    if drops.len() == 0 {
        old
    } else {
        let prev = rain_cell(drops.drop_last(), area, x, y, old);
        if drawn(drops.last(), area) {
            drop_cell(drops.last(), area, x, y, prev)
        } else {
            prev
        }
    }
}

/// A freshly spawned drop: active, at the top of the area in a column of
/// the area, carrying a name of `namelist` and a trail of rain glyphs
/// between one and two names long.
pub open spec fn spawned_drop(d: RainDrop, area: Rect, namelist: Seq<String>) -> bool {
    &&& d.active
    &&& (exists|j: int| 0 <= j < namelist.len() && d.name@ == #[trigger] namelist[j]@)
    &&& d.name@.len() <= MAX_NAME_LEN
    &&& d.name@.len() <= d.trail@.len() <= 2 * d.name@.len()
    &&& (forall|k: int| 0 <= k < d.trail@.len() ==> is_glyph(#[trigger] d.trail@[k]))
    &&& area.spec_left() <= d.pos.0 < area.spec_right()
    &&& d.pos.1 == 0
}

/// `mid` is `drops` with one freshly spawned drop placed in slot `k`: the
/// first inactive slot when one exists, a new slot at the end otherwise.
pub open spec fn spawn_at(
    drops: Seq<RainDrop>,
    mid: Seq<RainDrop>,
    k: int,
    area: Rect,
    namelist: Seq<String>,
) -> bool {
    &&& 0 <= k <= drops.len()
    &&& (forall|j: int| 0 <= j < k ==> (#[trigger] drops[j]).active)
    &&& (k < drops.len() ==> !drops[k].active && mid =~= drops.update(k, mid[k]))
    &&& (k == drops.len() ==> mid =~= drops.push(mid[k]))
    &&& spawned_drop(mid[k], area, namelist)
}

/// `d2` is `d` moved one row down, its trail rotated by one fresh glyph at
/// the head; everything else is kept.
pub open spec fn stepped_drop(d: RainDrop, d2: RainDrop) -> bool {
    &&& d2.name == d.name
    &&& d2.pos.0 == d.pos.0
    &&& d2.pos.1 == d.pos.1 + 1
    &&& d2.active == d.active
    &&& d2.trail@.len() == d.trail@.len()
    &&& (d.trail@.len() > 0 ==> is_glyph(d2.trail@[0]) && d2.trail@.skip(1) =~= d.trail@.take(
        d.trail@.len() - 1,
    ))
}

/// How one pool slot evolves over a frame that paints `mid[i]`: it is
/// deactivated when out of the area, then advanced when this is a step
/// frame and it is still visible.
pub open spec fn frame_drop(d: RainDrop, d2: RainDrop, area: Rect, step: bool) -> bool {
    if step && drawn(d, area) {
        stepped_drop(deactivate(d, area), d2)
    } else {
        d2 == deactivate(d, area)
    }
}

/// Every active drop of a well-formed pool carries a name of the list: no
/// name is ever fabricated, however many spawns have reused the slots.
pub proof fn lemma_active_names_from_list(state: RainState, namelist: Seq<String>, i: int)
    requires
        state.wf(namelist),
        0 <= i < state.raindrops@.len(),
        state.raindrops@[i].active,
    ensures
        exists|j: int|
            0 <= j < namelist.len() && state.raindrops@[i].name@ == #[trigger] namelist[j]@,
{
}

/// Some drop of the pool that survives the visibility check paints a name
/// character onto cell `(x, y)`.
pub open spec fn rain_name_covered(drops: Seq<RainDrop>, area: Rect, x: int, y: int) -> bool
    decreases drops.len(),
{
    if drops.len() == 0 {
        false
    } else {
        (drawn(drops.last(), area) && name_covers(drops.last(), area, x, y))
            || rain_name_covered(drops.drop_last(), area, x, y)
    }
}

/// How painting a pool treats the fields it does not fully overwrite: the
/// dim flag is always passed through, and the background and bold flag are
/// overwritten exactly where some drop paints a name character.
pub proof fn lemma_rain_cell_fields(drops: Seq<RainDrop>, area: Rect, x: int, y: int, old: Cell)
    ensures
        rain_cell(drops, area, x, y, old).dim == old.dim,
        rain_cell(drops, area, x, y, old).bg == if rain_name_covered(drops, area, x, y) {
            Color::Indexed(NAME_BG)
        } else {
            old.bg
        },
        rain_cell(drops, area, x, y, old).bold == (old.bold || rain_name_covered(
            drops,
            area,
            x,
            y,
        )),
    decreases drops.len(),
{
    if drops.len() > 0 {
        lemma_rain_cell_fields(drops.drop_last(), area, x, y, old);
    }
}

/// Two pools that agree on every slot that is drawn paint the same cells:
/// what an inactive or out-of-area slot holds never reaches the buffer.
pub proof fn lemma_rain_paint_agrees(
    drops1: Seq<RainDrop>,
    drops2: Seq<RainDrop>,
    area: Rect,
    x: int,
    y: int,
    old: Cell,
)
    requires
        drops1.len() == drops2.len(),
        forall|i: int|
            0 <= i < drops1.len() ==> drawn(#[trigger] drops1[i], area) == drawn(
                #[trigger] drops2[i],
                area,
            ),
        forall|i: int|
            0 <= i < drops1.len() && drawn(#[trigger] drops1[i], area) ==> drops1[i] == drops2[i],
    ensures
        rain_cell(drops1, area, x, y, old) == rain_cell(drops2, area, x, y, old),
    decreases drops1.len(),
{
    if drops1.len() > 0 {
        assert(drops1.drop_last().len() == drops2.drop_last().len());
        assert forall|i: int| 0 <= i < drops1.drop_last().len() implies drawn(
            #[trigger] drops1.drop_last()[i],
            area,
        ) == drawn(#[trigger] drops2.drop_last()[i], area) by {
            assert(drops1.drop_last()[i] == drops1[i]);
            assert(drops2.drop_last()[i] == drops2[i]);
        }
        assert forall|i: int|
            0 <= i < drops1.drop_last().len() && drawn(
                #[trigger] drops1.drop_last()[i],
                area,
            ) implies drops1.drop_last()[i] == drops2.drop_last()[i] by {
            assert(drops1.drop_last()[i] == drops1[i]);
            assert(drops2.drop_last()[i] == drops2[i]);
        }
        lemma_rain_paint_agrees(drops1.drop_last(), drops2.drop_last(), area, x, y, old);
        assert(drops1[drops1.len() - 1] == drops1.last());
    }
}

/// A slot that does not survive the visibility check is never drawn:
/// replacing it with any other undrawn slot leaves every painted cell
/// unchanged.  In particular a drop deactivated after scrolling past the
/// bottom edge contributes nothing to any later frame until a spawn
/// reinitializes its slot.
pub proof fn lemma_undrawn_slot_not_painted(
    drops: Seq<RainDrop>,
    i: int,
    d2: RainDrop,
    area: Rect,
    x: int,
    y: int,
    old: Cell,
)
    requires
        0 <= i < drops.len(),
        !drawn(drops[i], area),
        !drawn(d2, area),
    ensures
        rain_cell(drops.update(i, d2), area, x, y, old) == rain_cell(drops, area, x, y, old),
{
    lemma_rain_paint_agrees(drops.update(i, d2), drops, area, x, y, old);
}

/// The visibility check is idempotent, and it does not change which drops
/// are drawn: painting the pool again after a frame that neither spawned
/// nor stepped yields the same cells.
pub proof fn lemma_deactivate_stable(d: RainDrop, area: Rect)
    ensures
        deactivate(deactivate(d, area), area) == deactivate(d, area),
        drawn(deactivate(d, area), area) == drawn(d, area),
        drawn(d, area) ==> deactivate(d, area) == d,
{
}

/// Painting the same pool a second time over its own output changes
/// nothing: every cell a drop paints is determined by the drop and the
/// fields it passes through, never by what the first paint wrote.
pub proof fn lemma_rain_draw_idempotent(
    drops: Seq<RainDrop>,
    area: Rect,
    x: int,
    y: int,
    old: Cell,
)
    ensures
        rain_cell(drops, area, x, y, rain_cell(drops, area, x, y, old)) == rain_cell(
            drops,
            area,
            x,
            y,
            old,
        ),
    decreases drops.len(),
{
    if drops.len() > 0 {
        let pre = drops.drop_last();
        let d = drops.last();
        let once = rain_cell(drops, area, x, y, old);
        lemma_rain_draw_idempotent(pre, area, x, y, old);
        lemma_rain_cell_fields(pre, area, x, y, old);
        lemma_rain_cell_fields(pre, area, x, y, once);
        lemma_rain_cell_fields(pre, area, x, y, rain_cell(pre, area, x, y, old));
    }
}

/// Rendering the same pool twice in immediate succession without a spawn
/// or a step paints identical cells: after a frame that only ran the
/// visibility check, painting the resulting pool over the first frame's
/// output reproduces that output exactly.
pub proof fn lemma_rain_second_frame_identical(
    pool: Seq<RainDrop>,
    finals: Seq<RainDrop>,
    area: Rect,
    x: int,
    y: int,
    old: Cell,
)
    requires
        finals.len() == pool.len(),
        forall|i: int| 0 <= i < pool.len() ==> finals[i] == deactivate(#[trigger] pool[i], area),
    ensures
        rain_cell(finals, area, x, y, rain_cell(pool, area, x, y, old)) == rain_cell(
            pool,
            area,
            x,
            y,
            old,
        ),
{
    let once = rain_cell(pool, area, x, y, old);
    assert forall|i: int| 0 <= i < pool.len() implies drawn(#[trigger] finals[i], area) == drawn(
        #[trigger] pool[i],
        area,
    ) && (drawn(finals[i], area) ==> finals[i] == pool[i]) by {
        lemma_deactivate_stable(pool[i], area);
    }
    lemma_rain_paint_agrees(finals, pool, area, x, y, once);
    lemma_rain_draw_idempotent(pool, area, x, y, old);
}

impl Default for RainDrop {
    /// An inactive slot with empty fields, ready for a future spawn.
    fn default() -> (d: RainDrop)
        ensures
            !d.active,
            d.name@.len() == 0,
            d.trail@.len() == 0,
    {
        RainDrop { name: String::new(), trail: Vec::new(), pos: (0, 0), active: false }
    }
}

impl RainDrop {
    /// Deactivate the drop when it has left `area`; returns whether it is
    /// still active.
    fn update_active(&mut self, area: Rect) -> (r: bool)
        requires
            area.wf(),
            old(self).active,
            old(self).name@.len() <= MAX_NAME_LEN,
            old(self).trail@.len() <= 2 * MAX_NAME_LEN,
        ensures
            *final(self) == deactivate(*old(self), area),
            r == final(self).active,
    {
        let name_len = self.name.as_str().unicode_len();
        let trail_len = self.trail.len();
        let limit: usize = (area.bottom() as usize) + name_len + trail_len;
        if self.pos.1 as usize >= limit || self.pos.0 >= area.right() {
            self.active = false;
        }
        self.active
    }

    /// Paint the name vertically, its last character at the tip row,
    /// clipped to the vertical band of `area`.
    fn draw_name(&self, area: Rect, buf: &mut ScreenBuffer)
        requires
            old(buf).wf(),
            area.wf(),
            area.spec_right() <= old(buf).width,
            area.spec_bottom() <= old(buf).height,
            self.pos.0 < area.spec_right(),
            self.name@.len() <= MAX_NAME_LEN,
        ensures
            final(buf).wf(),
            final(buf).width == old(buf).width,
            final(buf).height == old(buf).height,
            forall|x: int, y: int|
                #![all_triggers]
                final(buf).in_bounds(x, y) ==> final(buf).cell_at(x, y) == (if name_covers(
                    *self,
                    area,
                    x,
                    y,
                ) {
                    name_cell(*self, y, old(buf).cell_at(x, y))
                } else {
                    old(buf).cell_at(x, y)
                }),
    {
        let n = self.name.as_str().unicode_len();
        let mut i: usize = 0;
        while i < n
            invariant
                buf.wf(),
                buf.width == old(buf).width,
                buf.height == old(buf).height,
                area.wf(),
                area.spec_right() <= buf.width,
                area.spec_bottom() <= buf.height,
                self.pos.0 < area.spec_right(),
                n == self.name@.len(),
                n <= MAX_NAME_LEN,
                i <= n,
                forall|x: int, y: int|
                    #![all_triggers]
                    buf.in_bounds(x, y) ==> buf.cell_at(x, y) == (if name_covers(*self, area, x, y)
                        && self.pos.1 < y + i {
                        name_cell(*self, y, old(buf).cell_at(x, y))
                    } else {
                        old(buf).cell_at(x, y)
                    }),
            decreases n - i,
        {
            if self.pos.1 >= i as u32 {
                let y32 = self.pos.1 - i as u32;
                if y32 >= area.top() as u32 && y32 < area.bottom() as u32 {
                    let y = y32 as u16;
                    let c = self.name.as_str().get_char(n - 1 - i);
                    let prev = buf.get(self.pos.0, y);
                    buf.put(
                        self.pos.0,
                        y,
                        Cell {
                            symbol: c,
                            fg: Color::Indexed(NAME_FG),
                            bg: Color::Indexed(NAME_BG),
                            bold: true,
                            dim: prev.dim,
                        },
                    );
                }
            }
            i = i + 1;
        }
    }

    /// Paint the trail directly above the name, its first half brighter,
    /// clipped to the vertical band of `area`.
    fn draw_tail(&self, area: Rect, buf: &mut ScreenBuffer)
        requires
            old(buf).wf(),
            area.wf(),
            area.spec_right() <= old(buf).width,
            area.spec_bottom() <= old(buf).height,
            self.pos.0 < area.spec_right(),
            self.name@.len() <= MAX_NAME_LEN,
            self.trail@.len() <= 2 * MAX_NAME_LEN,
        ensures
            final(buf).wf(),
            final(buf).width == old(buf).width,
            final(buf).height == old(buf).height,
            forall|x: int, y: int|
                #![all_triggers]
                final(buf).in_bounds(x, y) ==> final(buf).cell_at(x, y) == (if trail_covers(
                    *self,
                    area,
                    x,
                    y,
                ) {
                    trail_cell(*self, y, old(buf).cell_at(x, y))
                } else {
                    old(buf).cell_at(x, y)
                }),
    {
        let name_len = self.name.as_str().unicode_len();
        let m = self.trail.len();
        let mut i: usize = 0;
        while i < m
            invariant
                buf.wf(),
                buf.width == old(buf).width,
                buf.height == old(buf).height,
                area.wf(),
                area.spec_right() <= buf.width,
                area.spec_bottom() <= buf.height,
                self.pos.0 < area.spec_right(),
                name_len == self.name@.len(),
                name_len <= MAX_NAME_LEN,
                m == self.trail@.len(),
                m <= 2 * MAX_NAME_LEN,
                i <= m,
                forall|x: int, y: int|
                    #![all_triggers]
                    buf.in_bounds(x, y) ==> buf.cell_at(x, y) == (if trail_covers(*self, area, x, y)
                        && self.pos.1 < y + self.name@.len() + i {
                        trail_cell(*self, y, old(buf).cell_at(x, y))
                    } else {
                        old(buf).cell_at(x, y)
                    }),
            decreases m - i,
        {
            let off = name_len + i;
            if self.pos.1 as usize >= off {
                let y64 = self.pos.1 as usize - off;
                if y64 >= area.top() as usize && y64 < area.bottom() as usize {
                    let y = y64 as u16;
                    let c = self.trail[i];
                    let fg = if i < m / 2 {
                        Color::Indexed(TRAIL_FG_BRIGHT)
                    } else {
                        Color::Indexed(TRAIL_FG_DIM)
                    };
                    let prev = buf.get(self.pos.0, y);
                    buf.put(
                        self.pos.0,
                        y,
                        Cell { symbol: c, fg, bg: prev.bg, bold: prev.bold, dim: prev.dim },
                    );
                }
            }
            i = i + 1;
        }
    }

    /// Move the drop one row down and rotate a fresh glyph into the head
    /// of its trail.
    fn step(&mut self, rng: &mut rand::rngs::ThreadRng)
        requires
            old(self).pos.1 < 0xFFFF_FFFF,
        ensures
            stepped_drop(*old(self), *final(self)),
    {
        self.pos.1 = self.pos.1 + 1;
        let g = random_glyph(rng);
        self.trail.insert(0, g);
        self.trail.pop();
        proof {
            if old(self).trail@.len() > 0 {
                assert(self.trail@.skip(1) =~= old(self).trail@.take(
                    old(self).trail@.len() - 1,
                ));
            }
        }
    }
}

/// The rain widget: picks random names from its list for new drops.
#[derive(Clone, Copy)]
pub struct Rain<'a> {
    /// List of names to pick from for new rain drops.
    pub namelist: &'a [String],
    /// Milliseconds between two downward steps of the drops.
    pub update_speed_ms: u64,
    /// Milliseconds between two spawns of a new drop.
    pub drop_speed_ms: u64,
}

/// State for the [`Rain`] widget.
pub struct RainState {
    /// Pool of rain drops, active or not; inactive slots are reused.
    pub raindrops: Vec<RainDrop>,
    /// Last time a new drop was spawned, in milliseconds.
    pub last_drop: u64,
    /// Last time the drops' positions advanced, in milliseconds.
    pub last_update: u64,
}

impl RainState {
    /// Every drop of the pool is well formed with respect to `namelist`.
    pub open spec fn wf(self, namelist: Seq<String>) -> bool {
        forall|i: int|
            0 <= i < self.raindrops@.len() ==> drop_wf(#[trigger] self.raindrops@[i], namelist)
    }

    /// An empty pool whose spawn and step timers start at `now_ms`.
    pub fn new(now_ms: u64) -> (state: RainState)
        ensures
            state.raindrops@.len() == 0,
            state.last_drop == now_ms,
            state.last_update == now_ms,
    {
        RainState { raindrops: Vec::new(), last_drop: now_ms, last_update: now_ms }
    }
}

impl<'a> Rain<'a> {
    /// A new rain widget drawing names of `namelist`, stepping every
    /// `update_speed_ms` and spawning every `drop_speed_ms` milliseconds.
    pub fn new(namelist: &'a [String], update_speed_ms: u64, drop_speed_ms: u64) -> (rain: Rain<
        'a,
    >)
        ensures
            rain.namelist@ == namelist@,
            rain.update_speed_ms == update_speed_ms,
            rain.drop_speed_ms == drop_speed_ms,
    {
        Rain { namelist, update_speed_ms, drop_speed_ms }
    }

    /// A freshly initialized drop: a random name of the list, a trail of
    /// random glyphs between one and two names long, a random column of
    /// `area`, at the top.
    fn make_drop(
        rng: &mut rand::rngs::ThreadRng,
        area: Rect,
        namelist: &[String],
    ) -> (d: RainDrop)
        requires
            area.wf(),
            area.width >= 1,
            namelist@.len() >= 1,
            forall|j: int| 0 <= j < namelist@.len() ==> (#[trigger] namelist@[j])@.len()
                <= MAX_NAME_LEN,
        ensures
            spawned_drop(d, area, namelist@),
    {
        let idx = rand_between(rng, 0, namelist.len() - 1);
        let name = namelist[idx].clone();
        let n = name.as_str().unicode_len();
        let tlen = rand_between(rng, n, 2 * n);
        let mut trail: Vec<char> = Vec::new();
        while trail.len() < tlen
            invariant
                trail@.len() <= tlen,
                forall|k: int| 0 <= k < trail@.len() ==> is_glyph(#[trigger] trail@[k]),
            decreases tlen - trail@.len(),
        {
            let g = random_glyph(rng);
            trail.push(g);
        }
        let x = area.x + rand_u16(rng) % area.width;
        let d = RainDrop { name, trail, pos: (x, 0), active: true };
        proof {
            assert(d.name@ == namelist@[idx as int]@);
        }
        d
    }

    /// Render one frame of rain into `area`.
    ///
    /// When the spawn timer has elapsed, one drop is (re)initialized in
    /// the first inactive slot, or in a new slot when all are active.
    /// Every drop still inside the area then paints its name and trail in
    /// pool order; drops that have left the area are deactivated and paint
    /// nothing.  When the step timer has elapsed, each drawn drop finally
    /// advances one row.  The returned ghost sequence is the pool as it
    /// was painted: right after the spawn, before deactivation and
    /// stepping.
    pub fn render(
        &self,
        area: Rect,
        buf: &mut ScreenBuffer,
        state: &mut RainState,
        rng: &mut rand::rngs::ThreadRng,
        now_ms: u64,
    ) -> (pool: Ghost<Seq<RainDrop>>)
        requires
            old(buf).wf(),
            area.wf(),
            area.spec_right() <= old(buf).width,
            area.spec_bottom() <= old(buf).height,
            area.width >= 1,
            self.namelist@.len() >= 1,
            forall|j: int| 0 <= j < self.namelist@.len() ==> (#[trigger] self.namelist@[j])@.len()
                <= MAX_NAME_LEN,
            old(state).wf(self.namelist@),
            old(state).last_drop <= now_ms,
            old(state).last_update <= now_ms,
        ensures
            final(buf).wf(),
            final(buf).width == old(buf).width,
            final(buf).height == old(buf).height,
            final(state).wf(self.namelist@),
            // spawn phase: the painted pool either is the old pool, or has
            // one fresh drop in the first free slot
            if now_ms - old(state).last_drop > self.drop_speed_ms {
                (exists|k: int| spawn_at(old(state).raindrops@, pool@, k, area, self.namelist@))
                    && final(state).last_drop == now_ms
            } else {
                pool@ == old(state).raindrops@ && final(state).last_drop == old(state).last_drop
            },
            // step phase bookkeeping
            final(state).last_update == if now_ms - old(state).last_update
                > self.update_speed_ms {
                now_ms
            } else {
                old(state).last_update
            },
            // every cell of the buffer is the painted pool's cell
            forall|x: int, y: int|
                final(buf).in_bounds(x, y) ==> final(buf).cell_at(x, y) == rain_cell(
                    pool@,
                    area,
                    x,
                    y,
                    old(buf).cell_at(x, y),
                ),
            // every slot evolves by deactivation and an optional step
            final(state).raindrops@.len() == pool@.len(),
            forall|i: int|
                0 <= i < pool@.len() ==> frame_drop(
                    #[trigger] pool@[i],
                    final(state).raindrops@[i],
                    area,
                    now_ms - old(state).last_update > self.update_speed_ms,
                ),
    {
        // Spawn a new drop if the spawn timer has elapsed.
        if now_ms - state.last_drop > self.drop_speed_ms {
            let n0 = state.raindrops.len();
            let mut k: usize = 0;
            while k < n0 && state.raindrops[k].active
                invariant
                    n0 == state.raindrops@.len(),
                    k <= n0,
                    forall|j: int| 0 <= j < k ==> (#[trigger] state.raindrops@[j]).active,
                decreases n0 - k,
            {
                k = k + 1;
            }
            let d = Self::make_drop(rng, area, self.namelist);
            if k == n0 {
                state.raindrops.push(d);
            } else {
                state.raindrops.set(k, d);
            }
            state.last_drop = now_ms;
            proof {
                assert(spawn_at(
                    old(state).raindrops@,
                    state.raindrops@,
                    k as int,
                    area,
                    self.namelist@,
                ));
            }
        }
        let ghost pool = state.raindrops@;
        let ghost spawn_gate = now_ms - old(state).last_drop > self.drop_speed_ms;

        // Decide once whether this frame advances the drops.
        let step = now_ms - state.last_update > self.update_speed_ms;
        if step {
            state.last_update = now_ms;
        }

        // Draw all active raindrops, deactivating those that left the area
        // and stepping the rest on a step frame.
        let n = state.raindrops.len();
        let mut i: usize = 0;
        while i < n
            invariant
                buf.wf(),
                buf.width == old(buf).width,
                buf.height == old(buf).height,
                area.wf(),
                area.spec_right() <= buf.width,
                area.spec_bottom() <= buf.height,
                n == pool.len(),
                state.raindrops@.len() == n,
                i <= n,
                spawn_gate == (now_ms - old(state).last_drop > self.drop_speed_ms),
                if spawn_gate {
                    (exists|k: int|
                        spawn_at(old(state).raindrops@, pool, k, area, self.namelist@))
                        && state.last_drop == now_ms
                } else {
                    pool == old(state).raindrops@ && state.last_drop == old(state).last_drop
                },
                step == (now_ms - old(state).last_update > self.update_speed_ms),
                state.last_update == if step {
                    now_ms
                } else {
                    old(state).last_update
                },
                forall|j: int| 0 <= j < pool.len() ==> drop_wf(#[trigger] pool[j], self.namelist@),
                forall|j: int| i <= j < n ==> state.raindrops@[j] == pool[j],
                forall|j: int|
                    0 <= j < i ==> frame_drop(
                        pool[j],
                        #[trigger] state.raindrops@[j],
                        area,
                        step,
                    ),
                forall|j: int|
                    0 <= j < i ==> drop_wf(#[trigger] state.raindrops@[j], self.namelist@),
                forall|x: int, y: int|
                    buf.in_bounds(x, y) ==> buf.cell_at(x, y) == rain_cell(
                        pool.take(i as int),
                        area,
                        x,
                        y,
                        old(buf).cell_at(x, y),
                    ),
            decreases n - i,
        {
            let ghost bpre = *buf;
            let mut d = state.raindrops.remove(i);
            proof {
                assert(d == pool[i as int]);
                assert(drop_wf(pool[i as int], self.namelist@));
            }
            if d.active {
                let still = d.update_active(area);
                if still {
                    d.draw_name(area, buf);
                    d.draw_tail(area, buf);
                    proof {
                        assert forall|x: int, y: int| buf.in_bounds(x, y) implies buf.cell_at(x, y)
                            == drop_cell(d, area, x, y, bpre.cell_at(x, y)) by {
                            assert(!(name_covers(d, area, x, y) && trail_covers(d, area, x, y)));
                        }
                    }
                    if step {
                        proof {
                            assert(d.pos.1 < area.spec_bottom() + d.name@.len() + d.trail@.len());
                        }
                        d.step(rng);
                        proof {
                            let ghost dd = deactivate(pool[i as int], area);
                            assert forall|k: int| 0 <= k < d.trail@.len() implies is_glyph(
                                #[trigger] d.trail@[k],
                            ) by {
                                if k > 0 {
                                    assert(d.trail@[k] == d.trail@.skip(1)[k - 1]);
                                    assert(d.trail@.skip(1)[k - 1] == dd.trail@.take(
                                        dd.trail@.len() - 1,
                                    )[k - 1]);
                                }
                            }
                        }
                    }
                }
            }
            state.raindrops.insert(i, d);
            proof {
                assert(pool.take(i + 1).drop_last() =~= pool.take(i as int));
                assert(pool.take(i + 1).last() == pool[i as int]);
                assert(frame_drop(pool[i as int], state.raindrops@[i as int], area, step));
                assert(drop_wf(state.raindrops@[i as int], self.namelist@));
            }
            i = i + 1;
        }
        proof {
            assert(pool.take(n as int) =~= pool);
        }
        Ghost(pool)
    }
}

} // verus!
