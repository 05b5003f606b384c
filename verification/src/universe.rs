use vstd::prelude::*;
use vstd::arithmetic::div_mod::lemma_fundamental_div_mod_converse;
use vstd::pervasive::VecAdditionalExecFns;
use vstd::string::StringExecFns;
use crate::cell::Cell;

verus! {

/// The Game of Life rule for one cell: a live cell survives with two or
/// three live neighbors and otherwise dies; a dead cell is born with exactly
/// three live neighbors and otherwise stays dead.
pub open spec fn next_cell(c: Cell, live: int) -> Cell {
    match c {
        Cell::Alive => if live < 2 {
            Cell::Dead
        } else if live <= 3 {
            Cell::Alive
        } else {
            Cell::Dead
        },
        Cell::Dead => if live == 3 {
            Cell::Alive
        } else {
            Cell::Dead
        },
    }
}

/// The value stamped on the `k`-th neighbor position by `insert_glider`,
/// in the fixed neighbor enumeration order.
pub open spec fn glider_value(k: int) -> Cell {
    if k == 1 || k >= 4 {
        Cell::Alive
    } else {
        Cell::Dead
    }
}

/// The glyph that renders one cell: a light square for a dead cell, a dark
/// square for a live one.
pub open spec fn glyph(c: Cell) -> char {
    if c == Cell::Dead {
        '\u{25fb}'
    } else {
        '\u{25fc}'
    }
}

/// Relies on js_sys::Math::random: one draw from the JavaScript host's
/// uniform random source on `[0, 1)`. The draw depends on the host alone,
/// so nothing is promised of the result; the body only converts the drawn
/// number, one for one, into its IEEE-754 bit pattern, which verified
/// callers can hold. Such draws are nonnegative, so their bit patterns
/// order as the numbers themselves do.
#[verifier::external_body]
fn random_bits() -> u64 {
    js_sys::Math::random().to_bits()
}

/// The IEEE-754 bit pattern of one half. A nonnegative double lies below
/// one half exactly when its bit pattern lies below this value.
pub const HALF_BITS: u64 = 0x3FE0_0000_0000_0000;

/// The cell a random draw stands for: alive exactly when the draw lies
/// below one half, read off the draw's bit pattern.
pub open spec fn spec_cell_of_bits(bits: u64) -> Cell {
    if bits < HALF_BITS {
        Cell::Alive
    } else {
        Cell::Dead
    }
}

/// Turn one random draw, given as its bit pattern, into a cell state:
/// alive when the drawn number lies below one half, so each state comes
/// with equal probability from a uniform source on `[0, 1)`.
pub fn cell_of_bits(bits: u64) -> (c: Cell)
    ensures
        c == spec_cell_of_bits(bits),
{
    if bits < HALF_BITS {
        Cell::Alive
    } else {
        Cell::Dead
    }
}

/// A fixed-size toroidal grid of cells, stored row-major: the cell at
/// `(row, column)` lives at position `row * width + column`.
pub struct Universe {
    width: u32,
    height: u32,
    cells: Vec<Cell>,
}

/// Row-major flattening and its inverse: for `0 <= r < h` and `0 <= c < w`,
/// the flat position `r * w + c` lies in `[0, w * h)` and determines `r`
/// and `c` again by division and remainder.
pub proof fn lemma_flat_in_range(w: int, h: int, r: int, c: int)
    requires
        0 < w,
        0 < h,
        0 <= r < h,
        0 <= c < w,
    ensures
        0 <= r * w + c < w * h,
        (r * w + c) / w == r,
        (r * w + c) % w == c,
{
    assert(0 <= r * w + c < w * h) by (nonlinear_arith)
        requires
            0 < w,
            0 <= r < h,
            0 <= c < w,
    ;
    lemma_fundamental_div_mod_converse(r * w + c, w, r, c);
}

impl Universe {
    /// The grid's width, as a mathematical integer.
    pub closed spec fn spec_width(self) -> int {
        self.width as int
    }

    /// The grid's height, as a mathematical integer.
    pub closed spec fn spec_height(self) -> int {
        self.height as int
    }

    /// The current generation, as a sequence of cells in row-major order.
    pub closed spec fn grid(self) -> Seq<Cell> {
        self.cells@
    }

    /// The grid's invariant: positive dimensions, a cell count that fits the
    /// index arithmetic, and a buffer of exactly `width * height` cells.
    pub open spec fn wf(self) -> bool {
        &&& 0 < self.spec_width()
        &&& 0 < self.spec_height()
        &&& self.spec_width() * self.spec_height() <= u32::MAX
        &&& self.grid().len() == self.spec_width() * self.spec_height()
    }

    /// Whether `(row, col)` names a cell of this grid.
    pub open spec fn in_bounds(self, row: int, col: int) -> bool {
        &&& 0 <= row < self.spec_height()
        &&& 0 <= col < self.spec_width()
    }

    /// The flat, row-major position of `(row, col)`.
    pub open spec fn flat(self, row: int, col: int) -> int {
        row * self.spec_width() + col
    }

    /// The cell currently at `(row, col)`.
    pub open spec fn cell_at(self, row: int, col: int) -> Cell {
        self.grid()[self.flat(row, col)]
    }

    /// The flat position of `(row, column)`. The caller must name a cell of
    /// the grid; out-of-range coordinates are a contract violation, not a
    /// wraparound.
    pub fn get_index(&self, row: u32, column: u32) -> (idx: usize)
        requires
            self.wf(),
            self.in_bounds(row as int, column as int),
        ensures
            idx == self.flat(row as int, column as int),
            idx < self.grid().len(),
    {
        proof {
            lemma_flat_in_range(
                self.spec_width(),
                self.spec_height(),
                row as int,
                column as int,
            );
        }
        (row * self.width + column) as usize
    }

    /// The fixed width.
    pub fn width(&self) -> (w: u32)
        ensures
            w as int == self.spec_width(),
    {
        self.width
    }

    /// The fixed height.
    pub fn height(&self) -> (h: u32)
        ensures
            h as int == self.spec_height(),
    {
        self.height
    }

    /// A read-only view of the current generation's row-major cell buffer,
    /// valid until the next mutating call.
    pub fn cells(&self) -> (cells: &Vec<Cell>)
        ensures
            cells@ == self.grid(),
    {
        &self.cells
    }

    /// The row offset of the `k`-th neighbor, `0 <= k < 8`. The eight
    /// neighbors are enumerated with the row offset outermost, in the order
    /// up, same, down; a step up is taken as adding `height - 1` before
    /// reducing modulo `height`.
    pub open spec fn row_delta(self, k: int) -> int {
        if k < 3 {
            self.spec_height() - 1
        } else if k < 5 {
            0
        } else {
            1
        }
    }

    /// The column offset of the `k`-th neighbor, `0 <= k < 8`: for each row
    /// offset the columns run left, same, right, skipping the cell itself,
    /// and a step left is taken as adding `width - 1` before reducing modulo
    /// `width`.
    pub open spec fn col_delta(self, k: int) -> int {
        if k == 0 || k == 3 || k == 5 {
            self.spec_width() - 1
        } else if k == 1 || k == 6 {
            0
        } else {
            1
        }
    }

    /// The row of the `k`-th toroidal neighbor of a cell in row `row`.
    pub open spec fn neighbor_row(self, row: int, k: int) -> int {
        (row + self.row_delta(k)) % self.spec_height()
    }

    /// The column of the `k`-th toroidal neighbor of a cell in column `col`.
    pub open spec fn neighbor_col(self, col: int, k: int) -> int {
        (col + self.col_delta(k)) % self.spec_width()
    }

    /// The flat position of the `k`-th toroidal neighbor of `(row, col)`.
    pub open spec fn neighbor_flat(self, row: int, col: int, k: int) -> int {
        self.flat(self.neighbor_row(row, k), self.neighbor_col(col, k))
    }

    /// The cell in the `k`-th neighbor position of `(row, col)`.
    pub open spec fn neighbor_cell(self, row: int, col: int, k: int) -> Cell {
        self.grid()[self.neighbor_flat(row, col, k)]
    }

    /// How many of the first `k` neighbor positions of `(row, col)` hold a
    /// live cell.
    pub open spec fn live_upto(self, row: int, col: int, k: int) -> int
        decreases k,
    {
        if k <= 0 {
            0
        } else {
            self.live_upto(row, col, k - 1) + self.neighbor_cell(row, col, k - 1).count()
        }
    }

    /// How many of the eight toroidal neighbors of `(row, col)` are alive.
    pub open spec fn live_neighbors(self, row: int, col: int) -> int {
        self.live_upto(row, col, 8)
    }

    /// Every neighbor position is a position of the grid.
    pub proof fn lemma_neighbor_flat_in_range(self, row: int, col: int, k: int)
        requires
            self.wf(),
            self.in_bounds(row, col),
            0 <= k < 8,
        ensures
            0 <= self.neighbor_flat(row, col, k) < self.grid().len(),
            self.in_bounds(self.neighbor_row(row, k), self.neighbor_col(col, k)),
    {
        let h = self.spec_height();
        let w = self.spec_width();
        assert(0 <= self.neighbor_row(row, k) < h);
        assert(0 <= self.neighbor_col(col, k) < w);
        lemma_flat_in_range(w, h, self.neighbor_row(row, k), self.neighbor_col(col, k));
    }

    /// The flat position of the `k`-th toroidal neighbor of `(row, column)`,
    /// in the fixed enumeration order.
    pub fn neighbor_index(&self, row: u32, column: u32, k: usize) -> (idx: usize)
        requires
            self.wf(),
            self.in_bounds(row as int, column as int),
            k < 8,
        ensures
            idx == self.neighbor_flat(row as int, column as int, k as int),
            idx < self.grid().len(),
    {
        let dr: u32 = if k < 3 {
            self.height - 1
        } else if k < 5 {
            0
        } else {
            1
        };
        let dc: u32 = if k == 0 || k == 3 || k == 5 {
            self.width - 1
        } else if k == 1 || k == 6 {
            0
        } else {
            1
        };
        let nr: u32 = (((row as u64) + (dr as u64)) % (self.height as u64)) as u32;
        let nc: u32 = (((column as u64) + (dc as u64)) % (self.width as u64)) as u32;
        proof {
            assert(nr as int == self.neighbor_row(row as int, k as int));
            assert(nc as int == self.neighbor_col(column as int, k as int));
            self.lemma_neighbor_flat_in_range(row as int, column as int, k as int);
        }
        self.get_index(nr, nc)
    }

    /// The flat positions of the eight toroidal neighbors of `(row, column)`,
    /// in the fixed enumeration order.
    pub fn neighbor_indexs(&self, row: u32, column: u32) -> (idxs: [usize; 8])
        requires
            self.wf(),
            self.in_bounds(row as int, column as int),
        ensures
            forall|k: int|
                0 <= k < 8 ==> idxs@[k] == self.neighbor_flat(row as int, column as int, k)
                    && idxs@[k] < self.grid().len(),
    {
        let idxs: [usize; 8] = [
            self.neighbor_index(row, column, 0),
            self.neighbor_index(row, column, 1),
            self.neighbor_index(row, column, 2),
            self.neighbor_index(row, column, 3),
            self.neighbor_index(row, column, 4),
            self.neighbor_index(row, column, 5),
            self.neighbor_index(row, column, 6),
            self.neighbor_index(row, column, 7),
        ];
        idxs
    }

    /// Count the live cells among the eight toroidal neighbors of
    /// `(row, column)`.
    pub fn live_neighbor_count(&self, row: u32, column: u32) -> (count: u8)
        requires
            self.wf(),
            self.in_bounds(row as int, column as int),
        ensures
            count as int == self.live_neighbors(row as int, column as int),
            count <= 8,
    {
        let idxs = self.neighbor_indexs(row, column);
        let mut count: u8 = 0;
        let mut k: usize = 0;
        while k < 8
            invariant
                self.wf(),
                self.in_bounds(row as int, column as int),
                k <= 8,
                count as int <= k as int,
                count as int == self.live_upto(row as int, column as int, k as int),
                forall|j: int|
                    0 <= j < 8 ==> idxs@[j] == self.neighbor_flat(row as int, column as int, j)
                        && idxs@[j] < self.grid().len(),
            decreases 8 - k,
        {
            let idx = idxs[k];
            count = count + self.cells[idx].as_count();
            k = k + 1;
        }
        count
    }

    /// A grid of the given dimensions with every cell dead.
    pub fn blank(width: u32, height: u32) -> (u: Universe)
        requires
            0 < width,
            0 < height,
            width as int * height as int <= u32::MAX,
        ensures
            u.wf(),
            u.spec_width() == width as int,
            u.spec_height() == height as int,
            forall|i: int| 0 <= i < u.grid().len() ==> u.grid()[i] == Cell::Dead,
    {
        let total: u32 = width * height;
        let mut cells: Vec<Cell> = Vec::new();
        let mut i: u32 = 0;
        while i < total
            invariant
                i <= total,
                cells@.len() == i as int,
                forall|j: int| 0 <= j < cells@.len() ==> cells@[j] == Cell::Dead,
            decreases total - i,
        {
            cells.push(Cell::Dead);
            i = i + 1;
        }
        Universe { width, height, cells }
    }

    /// A grid of the given dimensions with every cell drawn independently
    /// from the host's random source, alive or dead with equal probability.
    pub fn new(width: u32, height: u32) -> (u: Universe)
        requires
            0 < width,
            0 < height,
            width as int * height as int <= u32::MAX,
        ensures
            u.wf(),
            u.spec_width() == width as int,
            u.spec_height() == height as int,
    {
        let total: u32 = width * height;
        let mut cells: Vec<Cell> = Vec::new();
        let mut i: u32 = 0;
        while i < total
            invariant
                i <= total,
                cells@.len() == i as int,
            decreases total - i,
        {
            cells.push(cell_of_bits(random_bits()));
            i = i + 1;
        }
        Universe { width, height, cells }
    }

    /// Re-randomize every cell from the host's random source, keeping the
    /// dimensions.
    pub fn reset(&mut self)
        requires
            old(self).wf(),
        ensures
            final(self).wf(),
            final(self).spec_width() == old(self).spec_width(),
            final(self).spec_height() == old(self).spec_height(),
    {
        let total: u32 = self.width * self.height;
        let mut cells: Vec<Cell> = Vec::new();
        let mut i: u32 = 0;
        while i < total
            invariant
                i <= total,
                cells@.len() == i as int,
            decreases total - i,
        {
            cells.push(cell_of_bits(random_bits()));
            i = i + 1;
        }
        self.cells = cells;
    }

    /// Set every cell dead, keeping the dimensions.
    pub fn all_kill(&mut self)
        requires
            old(self).wf(),
        ensures
            final(self).wf(),
            final(self).spec_width() == old(self).spec_width(),
            final(self).spec_height() == old(self).spec_height(),
            forall|i: int| 0 <= i < final(self).grid().len() ==> final(self).grid()[i] == Cell::Dead,
    {
        let total: u32 = self.width * self.height;
        let mut cells: Vec<Cell> = Vec::new();
        let mut i: u32 = 0;
        while i < total
            invariant
                i <= total,
                cells@.len() == i as int,
                forall|j: int| 0 <= j < cells@.len() ==> cells@[j] == Cell::Dead,
            decreases total - i,
        {
            cells.push(Cell::Dead);
            i = i + 1;
        }
        self.cells = cells;
    }

    /// Flip the single cell at `(row, column)`; no other cell changes.
    pub fn toggle_cell(&mut self, row: u32, column: u32)
        requires
            old(self).wf(),
            old(self).in_bounds(row as int, column as int),
        ensures
            final(self).wf(),
            final(self).spec_width() == old(self).spec_width(),
            final(self).spec_height() == old(self).spec_height(),
            final(self).grid() == old(self).grid().update(
                old(self).flat(row as int, column as int),
                old(self).cell_at(row as int, column as int).flipped(),
            ),
    {
        let idx = self.get_index(row, column);
        let mut c = self.cells[idx];
        c.toggle();
        self.cells.set(idx, c);
    }

    /// The grid after stamping the center and the first `k` neighbor
    /// positions of the glider pattern, writes applied in enumeration order.
    pub open spec fn stamped_upto(self, row: int, col: int, k: int) -> Seq<Cell>
        decreases k,
    {
        if k <= 0 {
            self.grid().update(self.flat(row, col), Cell::Dead)
        } else {
            self.stamped_upto(row, col, k - 1).update(
                self.neighbor_flat(row, col, k - 1),
                glider_value(k - 1),
            )
        }
    }

    /// The grid after stamping the full glider pattern centered at
    /// `(row, col)`: a dead center, and the eight neighbor positions
    /// overwritten in enumeration order.
    pub open spec fn glider_stamped(self, row: int, col: int) -> Seq<Cell> {
        self.stamped_upto(row, col, 8)
    }

    /// Stamp the canonical glider centered at `(row, column)`: the center
    /// goes dead and the eight toroidal neighbor positions take the fixed
    /// pattern, written in the neighbor enumeration order. Near an edge the
    /// stamped cells wrap around.
    pub fn insert_glider(&mut self, row: u32, column: u32)
        requires
            old(self).wf(),
            old(self).in_bounds(row as int, column as int),
        ensures
            final(self).wf(),
            final(self).spec_width() == old(self).spec_width(),
            final(self).spec_height() == old(self).spec_height(),
            final(self).grid() == old(self).glider_stamped(row as int, column as int),
    {
        let neighbor_indexes = self.neighbor_indexs(row, column);
        let center_idx = self.get_index(row, column);
        self.cells.set(center_idx, Cell::Dead);
        let mut k: usize = 0;
        while k < 8
            invariant
                k <= 8,
                self.spec_width() == old(self).spec_width(),
                self.spec_height() == old(self).spec_height(),
                old(self).wf(),
                old(self).in_bounds(row as int, column as int),
                self.grid().len() == old(self).grid().len(),
                self.grid() == old(self).stamped_upto(row as int, column as int, k as int),
                forall|j: int|
                    0 <= j < 8 ==> neighbor_indexes@[j] == old(self).neighbor_flat(
                        row as int,
                        column as int,
                        j,
                    ) && neighbor_indexes@[j] < old(self).grid().len(),
            decreases 8 - k,
        {
            let v = if k == 1 || k >= 4 {
                Cell::Alive
            } else {
                Cell::Dead
            };
            self.cells.set(neighbor_indexes[k], v);
            k = k + 1;
        }
    }

    /// The next generation as a whole: cell `i` of the result is the rule
    /// applied to cell `i` of the current grid and its current live-neighbor
    /// count. Every cell is computed from the same frozen generation.
    pub open spec fn tick_spec(self) -> Seq<Cell> {
        Seq::new(
            self.grid().len(),
            |i: int|
                next_cell(
                    self.grid()[i],
                    self.live_neighbors(i / self.spec_width(), i % self.spec_width()),
                ),
        )
    }

    /// The character at position `i` of the rendered text: each row takes
    /// `width + 1` characters, `width` glyphs and then one newline.
    pub open spec fn render_index(self, i: int) -> char {
        if i % (self.spec_width() + 1) == self.spec_width() {
            '\n'
        } else {
            glyph(
                self.grid()[(i / (self.spec_width() + 1)) * self.spec_width() + i % (
                self.spec_width() + 1)],
            )
        }
    }

    /// The rendered text as a character sequence: `height` rows of `width`
    /// glyphs, each row closed by a single newline and nothing else.
    pub open spec fn render_spec(self) -> Seq<char> {
        Seq::new(
            (self.spec_height() * (self.spec_width() + 1)) as nat,
            |i: int| self.render_index(i),
        )
    }

    /// A textual snapshot of the grid: one glyph per cell, `width` glyphs
    /// per line, `height` lines, each line ended by a newline. A pure view;
    /// the grid is unchanged.
    pub fn render(&self) -> (text: String)
        requires
            self.wf(),
        ensures
            text@ == self.render_spec(),
    {
        let w = self.width;
        let h = self.height;
        let mut text = String::new();
        let mut row: u32 = 0;
        while row < h
            invariant
                self.wf(),
                w as int == self.spec_width(),
                h as int == self.spec_height(),
                row <= h,
                text@.len() == row as int * (w as int + 1),
                text@ == self.render_spec().take(row as int * (w as int + 1)),
            decreases h - row,
        {
            proof {
                lemma_flat_in_range(w as int + 1, h as int, row as int, 0);
            }
            let mut col: u32 = 0;
            while col < w
                invariant
                    self.wf(),
                    w as int == self.spec_width(),
                    h as int == self.spec_height(),
                    row < h,
                    col <= w,
                    text@.len() == row as int * (w as int + 1) + col as int,
                    text@ == self.render_spec().take(row as int * (w as int + 1) + col as int),
                decreases w - col,
            {
                let idx = self.get_index(row, col);
                let c = self.cells[idx];
                proof {
                    reveal_strlit("\u{25fb}");
                    reveal_strlit("\u{25fc}");
                    let i = row as int * (w as int + 1) + col as int;
                    lemma_flat_in_range(w as int + 1, h as int, row as int, col as int);
                    lemma_flat_in_range(w as int, h as int, row as int, col as int);
                    assert(self.render_spec()[i] == glyph(c));
                    assert(self.render_spec().take(i + 1) =~= self.render_spec().take(i).push(
                        glyph(c),
                    ));
                }
                if c == Cell::Dead {
                    text.append("\u{25fb}");
                } else {
                    text.append("\u{25fc}");
                }
                proof {
                    assert(text@ =~= self.render_spec().take(
                        row as int * (w as int + 1) + col as int + 1,
                    ));
                }
                col = col + 1;
            }
            proof {
                reveal_strlit("\n");
                let i = row as int * (w as int + 1) + w as int;
                lemma_flat_in_range(w as int + 1, h as int, row as int, w as int);
                assert(self.render_spec()[i] == '\n');
                assert(self.render_spec().take(i + 1) =~= self.render_spec().take(i).push('\n'));
                assert((row + 1) as int * (w as int + 1) == row as int * (w as int + 1) + (
                w as int + 1)) by (nonlinear_arith);
            }
            text.append("\n");
            proof {
                assert(text@ =~= self.render_spec().take((row + 1) as int * (w as int + 1)));
            }
            row = row + 1;
        }
        proof {
            assert(text@ =~= self.render_spec());
        }
        text
    }

    /// Advance the grid one generation: every cell is rewritten by the rule
    /// from a snapshot of the current generation, so no cell sees a
    /// partially updated neighborhood.
    pub fn tick(&mut self)
        requires
            old(self).wf(),
        ensures
            final(self).wf(),
            final(self).spec_width() == old(self).spec_width(),
            final(self).spec_height() == old(self).spec_height(),
            final(self).grid() == old(self).tick_spec(),
    {
        let w = self.width;
        let h = self.height;
        let mut next: Vec<Cell> = Vec::new();
        let mut row: u32 = 0;
        while row < h
            invariant
                *self == *old(self),
                self.wf(),
                w as int == self.spec_width(),
                h as int == self.spec_height(),
                row <= h,
                next@.len() == row as int * w as int,
                forall|i: int| 0 <= i < next@.len() ==> next@[i] == old(self).tick_spec()[i],
            decreases h - row,
        {
            let mut col: u32 = 0;
            while col < w
                invariant
                    *self == *old(self),
                    self.wf(),
                    w as int == self.spec_width(),
                    h as int == self.spec_height(),
                    row < h,
                    col <= w,
                    next@.len() == row as int * w as int + col as int,
                    forall|i: int| 0 <= i < next@.len() ==> next@[i] == old(self).tick_spec()[i],
                decreases w - col,
            {
                let idx = self.get_index(row, col);
                let cell = self.cells[idx];
                let live = self.live_neighbor_count(row, col);
                let next_state = match cell {
                    Cell::Alive => if live < 2 {
                        Cell::Dead
                    } else if live <= 3 {
                        Cell::Alive
                    } else {
                        Cell::Dead
                    },
                    Cell::Dead => if live == 3 {
                        Cell::Alive
                    } else {
                        Cell::Dead
                    },
                };
                proof {
                    lemma_flat_in_range(w as int, h as int, row as int, col as int);
                    assert(next_state == next_cell(
                        old(self).grid()[idx as int],
                        old(self).live_neighbors(row as int, col as int),
                    ));
                }
                next.push(next_state);
                col = col + 1;
            }
            proof {
                assert((row + 1) as int * w as int == row as int * w as int + w as int)
                    by (nonlinear_arith);
            }
            row = row + 1;
        }
        self.cells = next;
        proof {
            assert(h as int * w as int == w as int * h as int) by (nonlinear_arith);
            assert(self.grid() =~= old(self).tick_spec());
        }
    }
}

} // verus!
