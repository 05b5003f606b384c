use life_grid::cell::Cell;
use life_grid::universe::{cell_of_bits, Universe};

const LIGHT: char = '\u{25fb}';
const DARK: char = '\u{25fc}';

/// Build the expected rendering from a picture: one `&str` of '.' and 'O'
/// per row, '.' for dead and 'O' for alive.
fn expected_render(rows: &[&str]) -> String {
    let mut s = String::new();
    for row in rows {
        for ch in row.chars() {
            s.push(if ch == 'O' { DARK } else { LIGHT });
        }
        s.push('\n');
    }
    s
}

/// A blank grid with the given cells set alive.
fn grid_with(width: u32, height: u32, alive: &[(u32, u32)]) -> Universe {
    let mut u = Universe::blank(width, height);
    for &(r, c) in alive {
        u.toggle_cell(r, c);
    }
    u
}

#[test]
fn index_is_unique_and_in_range() {
    let u = Universe::blank(4, 3);
    let mut seen = vec![false; 12];
    for r in 0..3 {
        for c in 0..4 {
            let idx = u.get_index(r, c);
            assert!(idx < 12);
            assert!(!seen[idx]);
            seen[idx] = true;
        }
    }
    assert!(seen.iter().all(|&b| b));
}

#[test]
fn index_is_row_major() {
    let u = Universe::blank(4, 3);
    assert_eq!(u.get_index(0, 0), 0);
    assert_eq!(u.get_index(0, 3), 3);
    assert_eq!(u.get_index(1, 0), 4);
    assert_eq!(u.get_index(2, 3), 11);
}

#[test]
fn corner_counts_opposite_corner_diagonally() {
    let u = grid_with(5, 4, &[(3, 4)]);
    assert_eq!(u.live_neighbor_count(0, 0), 1);
}

#[test]
fn edges_wrap_on_all_four_sides() {
    // Left edge sees the right edge.
    let u = grid_with(5, 4, &[(0, 4)]);
    assert_eq!(u.live_neighbor_count(0, 0), 1);
    // Top edge sees the bottom edge.
    let u = grid_with(5, 4, &[(3, 0)]);
    assert_eq!(u.live_neighbor_count(0, 0), 1);
    // Right edge sees the left edge.
    let u = grid_with(5, 4, &[(1, 0)]);
    assert_eq!(u.live_neighbor_count(1, 4), 1);
    // Bottom edge sees the top edge.
    let u = grid_with(5, 4, &[(0, 2)]);
    assert_eq!(u.live_neighbor_count(3, 2), 1);
}

#[test]
fn neighbor_enumeration_order_is_fixed() {
    let u = Universe::blank(3, 3);
    let idxs = u.neighbor_indexs(1, 1);
    assert_eq!(idxs, [0, 1, 2, 3, 5, 6, 7, 8]);
}

#[test]
fn neighbor_positions_wrap_at_origin() {
    let u = Universe::blank(3, 3);
    // Neighbors of (0, 0) in enumeration order: rows 2, 0, 1; columns 2, 0, 1.
    let idxs = u.neighbor_indexs(0, 0);
    assert_eq!(idxs, [8, 6, 7, 2, 1, 5, 3, 4]);
}

#[test]
fn tick_is_deterministic_across_grids() {
    let mut a = grid_with(6, 6, &[(1, 2), (2, 3), (3, 1), (3, 2), (3, 3)]);
    let mut b = grid_with(6, 6, &[(1, 2), (2, 3), (3, 1), (3, 2), (3, 3)]);
    a.tick();
    b.tick();
    assert_eq!(a.cells(), b.cells());
    assert_eq!(a.render(), b.render());
}

#[test]
fn dead_grid_stays_dead() {
    let mut u = Universe::blank(4, 4);
    u.tick();
    assert!(u.cells().iter().all(|&c| c == Cell::Dead));
    assert_eq!(u.render(), expected_render(&["....", "....", "....", "...."]));
}

#[test]
fn lonely_cell_dies() {
    let mut u = grid_with(4, 4, &[(2, 2)]);
    u.tick();
    assert!(u.cells().iter().all(|&c| c == Cell::Dead));
}

#[test]
fn block_is_a_still_life() {
    let mut u = grid_with(4, 4, &[(1, 1), (1, 2), (2, 1), (2, 2)]);
    let before = u.cells().clone();
    u.tick();
    assert_eq!(u.cells(), &before);
}

#[test]
fn blinker_oscillates() {
    let mut u = grid_with(5, 5, &[(1, 2), (2, 2), (3, 2)]);
    u.tick();
    assert_eq!(
        u.render(),
        expected_render(&[".....", ".....", ".OOO.", ".....", "....."])
    );
    u.tick();
    assert_eq!(
        u.render(),
        expected_render(&[".....", "..O..", "..O..", "..O..", "....."])
    );
}

#[test]
fn overcrowded_cell_dies() {
    // The center has four live neighbors and dies; each corner of the
    // square keeps exactly three and a cross of births appears around it.
    let mut u = grid_with(7, 7, &[(3, 3), (2, 3), (4, 3), (3, 2), (3, 4)]);
    u.tick();
    let cells = u.cells();
    assert_eq!(cells[u.get_index(3, 3)], Cell::Dead);
    assert_eq!(cells[u.get_index(2, 3)], Cell::Alive);
    assert_eq!(cells[u.get_index(2, 2)], Cell::Alive);
}

#[test]
fn glider_stamp_has_the_canonical_shape() {
    let mut u = Universe::blank(5, 5);
    u.insert_glider(2, 2);
    assert_eq!(
        u.render(),
        expected_render(&[".....", "..O..", "...O.", ".OOO.", "....."])
    );
}

#[test]
fn glider_stamp_wraps_at_the_corner() {
    let mut u = Universe::blank(4, 4);
    u.insert_glider(0, 0);
    let cells = u.cells();
    let alive = [(3u32, 0u32), (0, 1), (1, 3), (1, 0), (1, 1)];
    for r in 0..4 {
        for c in 0..4 {
            let want = alive.contains(&(r, c));
            assert_eq!(cells[u.get_index(r, c)] == Cell::Alive, want);
        }
    }
}

#[test]
fn glider_translates_diagonally_in_four_ticks() {
    let mut u = Universe::blank(6, 6);
    u.insert_glider(2, 2);
    for _ in 0..4 {
        u.tick();
    }
    let mut expected = Universe::blank(6, 6);
    expected.insert_glider(3, 3);
    assert_eq!(u.cells(), expected.cells());
    assert_eq!(u.render(), expected.render());
}

#[test]
fn render_has_height_lines_of_width_glyphs() {
    let u = grid_with(3, 2, &[(0, 1), (1, 0)]);
    let text = u.render();
    let lines: Vec<&str> = text.split_terminator('\n').collect();
    assert_eq!(lines.len(), 2);
    for line in &lines {
        assert_eq!(line.chars().count(), 3);
    }
    assert!(text.ends_with('\n'));
    assert_eq!(text.chars().count(), 2 * (3 + 1));
}

#[test]
fn render_shows_each_cell_with_its_glyph() {
    let u = grid_with(2, 2, &[(0, 1)]);
    assert_eq!(u.render(), expected_render(&[".O", ".."]));
}

#[test]
fn all_kill_then_render_is_all_light() {
    let mut u = grid_with(3, 3, &[(0, 0), (1, 1), (2, 2)]);
    u.all_kill();
    assert_eq!(u.render(), expected_render(&["...", "...", "..."]));
    assert!(u.cells().iter().all(|&c| c == Cell::Dead));
}

#[test]
fn toggle_flips_a_single_cell_both_ways() {
    let mut u = Universe::blank(3, 3);
    u.toggle_cell(1, 2);
    assert_eq!(u.cells()[u.get_index(1, 2)], Cell::Alive);
    assert_eq!(
        u.cells().iter().filter(|&&c| c == Cell::Alive).count(),
        1
    );
    u.toggle_cell(1, 2);
    assert!(u.cells().iter().all(|&c| c == Cell::Dead));
}

#[test]
fn center_is_the_corners_only_live_neighbor_on_a_3x3_torus() {
    let mut u = Universe::blank(3, 3);
    u.toggle_cell(1, 1);
    assert_eq!(u.live_neighbor_count(0, 0), 1);
}

#[test]
fn dimensions_are_fixed() {
    let mut u = Universe::blank(7, 5);
    assert_eq!(u.width(), 7);
    assert_eq!(u.height(), 5);
    assert_eq!(u.cells().len(), 35);
    u.tick();
    assert_eq!(u.width(), 7);
    assert_eq!(u.height(), 5);
    assert_eq!(u.cells().len(), 35);
}

#[test]
fn cell_of_bits_is_alive_exactly_below_one_half() {
    assert_eq!(cell_of_bits(0.0f64.to_bits()), Cell::Alive);
    assert_eq!(cell_of_bits(0.25f64.to_bits()), Cell::Alive);
    // The largest double below one half.
    assert_eq!(cell_of_bits(0.5f64.to_bits() - 1), Cell::Alive);
    assert_eq!(cell_of_bits(0.5f64.to_bits()), Cell::Dead);
    assert_eq!(cell_of_bits(0.75f64.to_bits()), Cell::Dead);
    // The largest double below one.
    assert_eq!(cell_of_bits(1.0f64.to_bits() - 1), Cell::Dead);
}

#[test]
fn cell_toggle_flips_state() {
    let mut c = Cell::Dead;
    c.toggle();
    assert_eq!(c, Cell::Alive);
    c.toggle();
    assert_eq!(c, Cell::Dead);
}

#[test]
fn one_by_one_torus_cell_is_its_own_eight_neighbors() {
    let mut u = Universe::blank(1, 1);
    u.toggle_cell(0, 0);
    assert_eq!(u.live_neighbor_count(0, 0), 8);
    u.tick();
    assert_eq!(u.cells()[0], Cell::Dead);
}

#[test]
fn glider_stamp_collides_in_write_order_on_a_tiny_torus() {
    // On a 2 x 2 torus the nine stamped positions fold onto four cells, and
    // later writes win: the center stays dead, the rest end alive.
    let mut u = Universe::blank(2, 2);
    u.insert_glider(0, 0);
    assert_eq!(
        u.cells(),
        &vec![Cell::Dead, Cell::Alive, Cell::Alive, Cell::Alive]
    );
}
