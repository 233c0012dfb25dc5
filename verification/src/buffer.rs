//! The owned character-cell buffer that all widgets paint into.

use vstd::prelude::*;
use vstd::string::StrSliceExecFns;

verus! {

/// A terminal color: either the terminal's default, or an entry of the
/// 256-color palette.
#[derive(Clone, Copy, PartialEq, Eq, Structural, Debug)]
pub enum Color {
    Reset,
    Indexed(u8),
}

/// One character cell: a displayed glyph plus foreground/background colors
/// and the two style flags the widgets use.
#[derive(Clone, Copy, PartialEq, Eq, Structural, Debug)]
pub struct Cell {
    pub symbol: char,
    pub fg: Color,
    pub bg: Color,
    pub bold: bool,
    pub dim: bool,
}

impl Cell {
    /// The contents of a freshly reset cell: a blank glyph with default
    /// colors and no style flags.
    pub open spec fn spec_default() -> Cell {
        Cell { symbol: ' ', fg: Color::Reset, bg: Color::Reset, bold: false, dim: false }
    }

    pub fn empty() -> (c: Cell)
        ensures
            c == Cell::spec_default(),
    {
        Cell { symbol: ' ', fg: Color::Reset, bg: Color::Reset, bold: false, dim: false }
    }
}

/// An addressable 2D grid of cells.  Cell `(x, y)` is stored at index
/// `y * width + x`; the grid owns exactly `width * height` cells.
pub struct ScreenBuffer {
    pub width: u16,
    pub height: u16,
    pub cells: Vec<Cell>,
}

impl ScreenBuffer {
    /// The cell storage matches the advertised dimensions.
    pub open spec fn wf(self) -> bool {
        self.cells@.len() == self.width * self.height
    }

    /// The stored cells, row by row.
    pub open spec fn grid(self) -> Seq<Cell> {
        self.cells@
    }

    /// Index of cell `(x, y)` in the row-major storage.
    pub open spec fn spec_index(self, x: int, y: int) -> int {
        y * self.width + x
    }

    /// The cell at column `x`, row `y`.
    pub open spec fn cell_at(self, x: int, y: int) -> Cell {
        self.grid()[self.spec_index(x, y)]
    }

    /// Position `(x, y)` addresses a cell of this buffer.
    pub open spec fn in_bounds(self, x: int, y: int) -> bool {
        0 <= x < self.width && 0 <= y < self.height
    }

    /// Distinct in-bounds positions map to distinct storage indices.
    proof fn lemma_index_injective(self, x1: int, y1: int, x2: int, y2: int)
        requires
            self.in_bounds(x1, y1),
            self.in_bounds(x2, y2),
            self.spec_index(x1, y1) == self.spec_index(x2, y2),
        ensures
            x1 == x2 && y1 == y2,
    {
        let w = self.width as int;
        assert(y1 * w + x1 == y2 * w + x2);
        if y1 < y2 {
            assert(y1 * w + w <= y2 * w) by (nonlinear_arith)
                requires y1 + 1 <= y2, w >= 0;
            assert(false);
        }
        if y2 < y1 {
            assert(y2 * w + w <= y1 * w) by (nonlinear_arith)
                requires y2 + 1 <= y1, w >= 0;
            assert(false);
        }
    }

    /// The storage index of an in-bounds position is a valid index and
    /// fits in the machine word.
    pub proof fn lemma_index_bounds(self, x: int, y: int)
        requires
            self.wf(),
            self.in_bounds(x, y),
        ensures
            0 <= self.spec_index(x, y) < self.grid().len(),
            self.spec_index(x, y) <= 0xFFFF_0000,
    {
        assert(y * self.width <= 65535 * 65535) by (nonlinear_arith)
            requires 0 <= y <= 65535, 0 <= self.width as int <= 65535;
        let w = self.width as int;
        let h = self.height as int;
        assert(y * w + x < h * w) by (nonlinear_arith)
            requires 0 <= x < w, 0 <= y < h;
        assert(w * h == h * w) by (nonlinear_arith);
    }

    /// A buffer of the given size with every cell reset.
    pub fn new(width: u16, height: u16) -> (buf: ScreenBuffer)
        ensures
            buf.wf(),
            buf.width == width,
            buf.height == height,
            forall|x: int, y: int|
                buf.in_bounds(x, y) ==> buf.cell_at(x, y) == Cell::spec_default(),
    {
        proof {
            assert(width * height <= 65535 * 65535) by (nonlinear_arith)
                requires 0 <= width as int <= 65535, 0 <= height as int <= 65535;
        }
        let n: usize = (width as usize) * (height as usize);
        let mut cells: Vec<Cell> = Vec::new();
        let mut i: usize = 0;
        while i < n
            invariant
                i <= n,
                cells@.len() == i,
                forall|k: int| 0 <= k < i ==> cells@[k] == Cell::spec_default(),
            decreases n - i,
        {
            cells.push(Cell::empty());
            i = i + 1;
        }
        let buf = ScreenBuffer { width, height, cells };
        proof {
            assert forall|x: int, y: int| buf.in_bounds(x, y) implies buf.cell_at(x, y)
                == Cell::spec_default() by {
                buf.lemma_index_bounds(x, y);
            }
        }
        buf
    }

    /// Read the cell at `(x, y)`.
    pub fn get(&self, x: u16, y: u16) -> (c: Cell)
        requires
            self.wf(),
            self.in_bounds(x as int, y as int),
        ensures
            c == self.cell_at(x as int, y as int),
    {
        proof {
            self.lemma_index_bounds(x as int, y as int);
        }
        self.cells[(y as usize) * (self.width as usize) + (x as usize)]
    }

    /// Overwrite the cell at `(x, y)`; every other cell is untouched.
    pub fn put(&mut self, x: u16, y: u16, cell: Cell)
        requires
            old(self).wf(),
            old(self).in_bounds(x as int, y as int),
        ensures
            final(self).wf(),
            final(self).width == old(self).width,
            final(self).height == old(self).height,
            final(self).grid() == old(self).grid().update(
                old(self).spec_index(x as int, y as int),
                cell,
            ),
            final(self).cell_at(x as int, y as int) == cell,
            forall|x2: int, y2: int|
                final(self).in_bounds(x2, y2) && !(x2 == x as int && y2 == y as int)
                    ==> final(self).cell_at(x2, y2) == old(self).cell_at(x2, y2),
    {
        proof {
            self.lemma_index_bounds(x as int, y as int);
        }
        let idx: usize = (y as usize) * (self.width as usize) + (x as usize);
        self.cells.set(idx, cell);
        proof {
            assert forall|x2: int, y2: int|
                self.in_bounds(x2, y2) && !(x2 == x as int && y2 == y as int)
                    implies self.cell_at(x2, y2) == old(self).cell_at(x2, y2) by {
                self.lemma_index_bounds(x2, y2);
                if self.spec_index(x2, y2) == self.spec_index(x as int, y as int) {
                    self.lemma_index_injective(x2, y2, x as int, y as int);
                }
            }
        }
    }
    /// Write the characters of `s` on row `y` starting at column `x0`,
    /// clipped at column `limit`; every written cell keeps its background
    /// and dim flag, gets foreground `fg`, and its bold flag is raised when
    /// `bold` is set.
    pub fn set_text(&mut self, x0: u16, y: u16, limit: u16, s: &str, fg: Color, bold: bool)
        requires
            old(self).wf(),
            y < old(self).height,
            limit <= old(self).width,
        ensures
            final(self).wf(),
            final(self).width == old(self).width,
            final(self).height == old(self).height,
            forall|x2: int, y2: int|
                final(self).in_bounds(x2, y2) && !(y2 == y as int && text_covers(
                    x0 as int,
                    s@.len() as int,
                    limit as int,
                    x2,
                )) ==> final(self).cell_at(x2, y2) == old(self).cell_at(x2, y2),
            forall|x2: int|
                text_covers(x0 as int, s@.len() as int, limit as int, x2)
                    ==> final(self).cell_at(x2, y as int) == (Cell {
                    symbol: s@[x2 - x0],
                    fg: fg,
                    bg: old(self).cell_at(x2, y as int).bg,
                    bold: old(self).cell_at(x2, y as int).bold || bold,
                    dim: old(self).cell_at(x2, y as int).dim,
                }),
    {
        let n = s.unicode_len();
        let m: usize = if x0 < limit {
            (limit - x0) as usize
        } else {
            0
        };
        let mut j: usize = 0;
        while j < n && j < m
            invariant
                self.wf(),
                self.width == old(self).width,
                self.height == old(self).height,
                y < self.height,
                limit <= self.width,
                n == s@.len(),
                m == if x0 < limit { limit - x0 } else { 0 },
                j <= n,
                j <= m,
                forall|x2: int, y2: int|
                    self.in_bounds(x2, y2) && !(y2 == y as int && text_covers(
                        x0 as int,
                        j as int,
                        limit as int,
                        x2,
                    )) ==> self.cell_at(x2, y2) == old(self).cell_at(x2, y2),
                forall|x2: int|
                    text_covers(x0 as int, j as int, limit as int, x2)
                        ==> self.cell_at(x2, y as int) == (Cell {
                        symbol: s@[x2 - x0],
                        fg: fg,
                        bg: old(self).cell_at(x2, y as int).bg,
                        bold: old(self).cell_at(x2, y as int).bold || bold,
                        dim: old(self).cell_at(x2, y as int).dim,
                    }),
            decreases n - j,
        {
            let c = s.get_char(j);
            let x = x0 as usize + j;
            let prev = self.get(x as u16, y);
            self.put(
                x as u16,
                y,
                Cell { symbol: c, fg, bg: prev.bg, bold: prev.bold || bold, dim: prev.dim },
            );
            j = j + 1;
        }
    }
}

/// Column `x` holds a character of a text of length `len` drawn from
/// column `x0` and clipped at column `limit`.
pub open spec fn text_covers(x0: int, len: int, limit: int, x: int) -> bool {
    x0 <= x < x0 + len && x < limit
}

} // verus!
