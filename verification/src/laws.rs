use vstd::prelude::*;
use vstd::arithmetic::div_mod::{
    lemma_div_pos_is_pos, lemma_fundamental_div_mod_converse, lemma_mod_division_less_than_divisor,
    lemma_multiply_divide_lt,
};
use crate::cell::Cell;
use crate::universe::{glyph, lemma_flat_in_range, next_cell, Universe};

verus! {

/// The coordinate one step up (or left) on a torus of `n` rows (or
/// columns): from 0 it wraps to `n - 1`.
pub open spec fn torus_prev(i: int, n: int) -> int {
    if i == 0 {
        n - 1
    } else {
        i - 1
    }
}

/// The coordinate one step down (or right) on a torus of `n` rows (or
/// columns): from `n - 1` it wraps to 0.
pub open spec fn torus_next(i: int, n: int) -> int {
    if i == n - 1 {
        0
    } else {
        i + 1
    }
}

/// Row-major indexing is a bijection between the coordinate space and
/// `[0, width * height)`: every valid pair lands in the range, and two
/// pairs share an index only if they are the same pair.
pub proof fn lemma_index_bijective(u: Universe, r1: int, c1: int, r2: int, c2: int)
    requires
        u.wf(),
        u.in_bounds(r1, c1),
        u.in_bounds(r2, c2),
    ensures
        0 <= u.flat(r1, c1) < u.spec_width() * u.spec_height(),
        u.flat(r1, c1) == u.flat(r2, c2) ==> r1 == r2 && c1 == c2,
{
    let w = u.spec_width();
    let h = u.spec_height();
    lemma_flat_in_range(w, h, r1, c1);
    lemma_flat_in_range(w, h, r2, c2);
}

/// Neighbor arithmetic is toroidal: a step up from row 0 lands in the last
/// row, a step down from the last row lands in row 0, and likewise at the
/// left and right edges; away from an edge a step moves by exactly one.
pub proof fn lemma_neighbor_wraps(u: Universe, row: int, col: int, k: int)
    requires
        u.wf(),
        u.in_bounds(row, col),
        0 <= k < 8,
    ensures
        k < 3 ==> u.neighbor_row(row, k) == torus_prev(row, u.spec_height()),
        3 <= k < 5 ==> u.neighbor_row(row, k) == row,
        5 <= k ==> u.neighbor_row(row, k) == torus_next(row, u.spec_height()),
        k == 0 || k == 3 || k == 5 ==> u.neighbor_col(col, k) == torus_prev(col, u.spec_width()),
        k == 1 || k == 6 ==> u.neighbor_col(col, k) == col,
        k == 2 || k == 4 || k == 7 ==> u.neighbor_col(col, k) == torus_next(col, u.spec_width()),
{
    let w = u.spec_width();
    let h = u.spec_height();
    lemma_wrap_prev(row, h);
    lemma_wrap_prev(col, w);
    lemma_fundamental_div_mod_converse(row, h, 0, row);
    lemma_fundamental_div_mod_converse(col, w, 0, col);
    lemma_wrap_next(row, h);
    lemma_wrap_next(col, w);
}

/// Adding `n - 1` and reducing modulo `n` steps one backwards on the torus.
proof fn lemma_wrap_prev(i: int, n: int)
    requires
        0 < n,
        0 <= i < n,
    ensures
        (i + (n - 1)) % n == torus_prev(i, n),
{
    if i == 0 {
        lemma_fundamental_div_mod_converse(i + (n - 1), n, 0, n - 1);
    } else {
        lemma_fundamental_div_mod_converse(i + (n - 1), n, 1, i - 1);
    }
}

/// Adding 1 and reducing modulo `n` steps one forwards on the torus.
proof fn lemma_wrap_next(i: int, n: int)
    requires
        0 < n,
        0 <= i < n,
    ensures
        (i + 1) % n == torus_next(i, n),
{
    if i == n - 1 {
        lemma_fundamental_div_mod_converse(i + 1, n, 1, 0);
    } else {
        lemma_fundamental_div_mod_converse(i + 1, n, 0, i + 1);
    }
}

/// The top-left cell counts the bottom-right cell as its first toroidal
/// neighbor: the diagonal wrap across both edges at once.
pub proof fn lemma_corner_diagonal_wrap(u: Universe)
    requires
        u.wf(),
    ensures
        u.neighbor_flat(0, 0, 0) == u.flat(u.spec_height() - 1, u.spec_width() - 1),
{
    lemma_neighbor_wraps(u, 0, 0, 0);
}

/// The first `k` neighbor terms agree between two grids with the same
/// dimensions and the same cells.
proof fn lemma_live_upto_same(a: Universe, b: Universe, row: int, col: int, k: int)
    requires
        a.spec_width() == b.spec_width(),
        a.spec_height() == b.spec_height(),
        a.grid() == b.grid(),
    ensures
        a.live_upto(row, col, k) == b.live_upto(row, col, k),
    decreases k,
{
    if k > 0 {
        lemma_live_upto_same(a, b, row, col, k - 1);
    }
}

/// Stepping a generation is a pure function of the grid state: two grids
/// with the same dimensions and the same cells have the same next
/// generation, however each was constructed.
pub proof fn lemma_tick_deterministic(a: Universe, b: Universe)
    requires
        a.spec_width() == b.spec_width(),
        a.spec_height() == b.spec_height(),
        a.grid() == b.grid(),
    ensures
        a.tick_spec() == b.tick_spec(),
{
    assert forall|i: int| 0 <= i < a.tick_spec().len() implies a.tick_spec()[i]
        == b.tick_spec()[i] by {
        lemma_live_upto_same(a, b, i / a.spec_width(), i % a.spec_width(), 8);
    }
    assert(a.tick_spec() =~= b.tick_spec());
}

/// No neighbor term counts when all eight neighbor positions hold dead
/// cells.
proof fn lemma_live_upto_zero(u: Universe, row: int, col: int, k: int)
    requires
        0 <= k <= 8,
        forall|j: int| 0 <= j < 8 ==> u.neighbor_cell(row, col, j) == Cell::Dead,
    ensures
        u.live_upto(row, col, k) == 0,
    decreases k,
{
    if k > 0 {
        lemma_live_upto_zero(u, row, col, k - 1);
    }
}

/// A grid with no live cell stays all dead after a tick: no spontaneous
/// birth happens without exactly three live neighbors.
pub proof fn lemma_dead_grid_stays_dead(u: Universe)
    requires
        u.wf(),
        forall|i: int| 0 <= i < u.grid().len() ==> u.grid()[i] == Cell::Dead,
    ensures
        u.tick_spec().len() == u.grid().len(),
        forall|i: int| 0 <= i < u.tick_spec().len() ==> u.tick_spec()[i] == Cell::Dead,
{
    let w = u.spec_width();
    let h = u.spec_height();
    assert forall|i: int| 0 <= i < u.tick_spec().len() implies u.tick_spec()[i] == Cell::Dead by {
        let row = i / w;
        let col = i % w;
        lemma_div_pos_is_pos(i, w);
        lemma_mod_division_less_than_divisor(i, w);
        assert(i < w * h);
        lemma_multiply_divide_lt(i, w, h);
        assert(u.in_bounds(row, col));
        assert forall|j: int| 0 <= j < 8 implies u.neighbor_cell(row, col, j) == Cell::Dead by {
            u.lemma_neighbor_flat_in_range(row, col, j);
        }
        lemma_live_upto_zero(u, row, col, 8);
    }
}

/// A live cell with no live neighbor dies of underpopulation in one tick.
pub proof fn lemma_isolated_cell_dies(u: Universe, row: int, col: int)
    requires
        u.wf(),
        u.in_bounds(row, col),
        u.cell_at(row, col) == Cell::Alive,
        forall|k: int| 0 <= k < 8 ==> u.neighbor_cell(row, col, k) == Cell::Dead,
    ensures
        u.tick_spec()[u.flat(row, col)] == Cell::Dead,
{
    let w = u.spec_width();
    let h = u.spec_height();
    lemma_flat_in_range(w, h, row, col);
    lemma_live_upto_zero(u, row, col, 8);
    assert(u.tick_spec()[u.flat(row, col)] == next_cell(Cell::Alive, 0));
}

/// The position of the newline that closes row `r` of the rendered text.
pub open spec fn line_end(u: Universe, r: int) -> int {
    r * (u.spec_width() + 1) + u.spec_width()
}

/// The rendered text has exactly `height` lines of exactly `width` glyphs:
/// its length is `height * (width + 1)`, the glyph of the cell at `(r, c)`
/// stands at position `r * (width + 1) + c`, a newline closes each row, and
/// newlines stand nowhere else.
pub proof fn lemma_render_shape(u: Universe)
    requires
        u.wf(),
    ensures
        u.render_spec().len() == u.spec_height() * (u.spec_width() + 1),
        forall|r: int, c: int|
            u.in_bounds(r, c) ==> u.render_spec()[r * (u.spec_width() + 1) + c] == glyph(
                u.cell_at(r, c),
            ),
        forall|r: int| 0 <= r < u.spec_height() ==> u.render_spec()[line_end(u, r)] == '\n',
        forall|i: int|
            0 <= i < u.render_spec().len() ==> (u.render_spec()[i] == '\n' <==> i % (u.spec_width()
                + 1) == u.spec_width()),
{
    let w = u.spec_width();
    let h = u.spec_height();
    assert forall|r: int, c: int| u.in_bounds(r, c) implies u.render_spec()[r * (w + 1) + c]
        == glyph(u.cell_at(r, c)) by {
        lemma_flat_in_range(w + 1, h, r, c);
        assert((w + 1) * h == h * (w + 1)) by (nonlinear_arith);
    }
    assert forall|r: int| 0 <= r < h implies u.render_spec()[line_end(u, r)] == '\n' by {
        lemma_flat_in_range(w + 1, h, r, w);
        assert((w + 1) * h == h * (w + 1)) by (nonlinear_arith);
    }
    assert forall|i: int| 0 <= i < u.render_spec().len() implies (u.render_spec()[i] == '\n' <==> i
        % (w + 1) == w) by {
        lemma_mod_division_less_than_divisor(i, w + 1);
    }
}

/// An all-dead grid renders as nothing but light glyphs: every position of
/// the rendered text holds the light glyph, except the single newline that
/// closes each row.
pub proof fn lemma_dead_grid_renders_light(u: Universe)
    requires
        u.wf(),
        forall|i: int| 0 <= i < u.grid().len() ==> u.grid()[i] == Cell::Dead,
    ensures
        forall|i: int|
            0 <= i < u.render_spec().len() && i % (u.spec_width() + 1) != u.spec_width()
                ==> u.render_spec()[i] == '\u{25fb}',
        forall|i: int|
            0 <= i < u.render_spec().len() && i % (u.spec_width() + 1) == u.spec_width()
                ==> u.render_spec()[i] == '\n',
{
    let w = u.spec_width();
    let h = u.spec_height();
    assert forall|i: int|
        0 <= i < u.render_spec().len() && i % (w + 1) != w implies u.render_spec()[i]
        == '\u{25fb}' by {
        let q = i / (w + 1);
        let r = i % (w + 1);
        lemma_div_pos_is_pos(i, w + 1);
        lemma_mod_division_less_than_divisor(i, w + 1);
        assert(i < (w + 1) * h) by (nonlinear_arith)
            requires
                i < h * (w + 1),
        ;
        lemma_multiply_divide_lt(i, w + 1, h);
        lemma_flat_in_range(w, h, q, r);
    }
}

} // verus!

