use game_of_life::patterns::glider::Glider;
use game_of_life::patterns::space_ship::SpaceShip;
use game_of_life::patterns::square::Square;
use game_of_life::patterns::{Pattern, PatternCell};
use game_of_life::{Cell, DenseGrid, Grid, PackedGrid, Universe};

fn live<G: Grid>(u: &Universe<G>) -> Vec<(u32, u32)> {
    let mut out = Vec::new();
    for row in 0..u.height() {
        for column in 0..u.width() {
            let index = (row * u.width() + column) as usize;
            if u.cells().get(index) == Cell::Alive {
                out.push((column, row));
            }
        }
    }
    out
}

fn single(x: u32, y: u32) -> Pattern {
    let mut p = Pattern::new();
    p.set_cell(x, y, Cell::Alive);
    p
}

fn stamp_points<G: Grid>(u: &mut Universe<G>, points: &[(u32, u32)]) {
    for &(x, y) in points {
        u.generate_pattern(single(x, y), 0, 0);
    }
}

#[test]
fn dimensions_are_fixed() {
    let mut u = Universe::new();
    assert_eq!(u.width(), 64);
    assert_eq!(u.height(), 64);
    u.tick();
    assert_eq!(u.width(), 64);
    assert_eq!(u.height(), 64);
    assert_eq!(u.cells().as_slice().len(), 512);
    assert_eq!(u.prev().as_slice().len(), 512);
}

#[test]
fn new_stamps_ships_and_gliders() {
    let u = Universe::new();
    assert_eq!(live(&u).len(), 8 * 9 + 8 * 5);
    // First spaceship at (0, 0), first glider at (40, 0).
    assert_eq!(u.cells().get(2 * 64 + 2), Cell::Alive);
    assert_eq!(u.cells().get(2 * 64 + 40 + 2), Cell::Alive);
    assert_eq!(u.cells().get(0), Cell::Dead);
}

#[test]
fn seeded_keeps_seed_outside_stamps() {
    let seed = vec![Cell::Alive; 64 * 64];
    let u: Universe<DenseGrid> = Universe::seeded(&seed);
    // Inside the first spaceship's box the stamp clears the seed.
    assert_eq!(u.cells().get(0), Cell::Dead);
    assert_eq!(u.cells().get(2 * 64 + 2), Cell::Alive);
    // Just right of that box the seed is kept.
    assert_eq!(u.cells().get(9), Cell::Alive);
    assert_eq!(u.cells().len(), 4096);
}

#[test]
fn stamp_wraps_around_edges() {
    let mut u: Universe<PackedGrid> = Universe::with_dimensions(10, 6);
    u.generate_pattern(single(2, 1), 9, 5);
    assert_eq!(live(&u), vec![(1, 0)]);
}

#[test]
fn stamp_dead_entries_clear_cells() {
    let mut u: Universe<DenseGrid> = Universe::with_dimensions(8, 8);
    stamp_points(&mut u, &[(1, 1), (5, 5)]);
    u.generate_pattern(Pattern::rect(3, 3), 0, 0);
    assert_eq!(live(&u), vec![(5, 5)]);
}

#[test]
fn blinker_across_corner_wraps() {
    let mut u: Universe<PackedGrid> = Universe::with_dimensions(5, 5);
    // Vertical line through the top-left corner: (0,4), (0,0), (0,1).
    stamp_points(&mut u, &[(0, 4), (0, 0), (0, 1)]);
    u.tick();
    assert_eq!(live(&u), vec![(0, 0), (1, 0), (4, 0)]);
    u.tick();
    assert_eq!(live(&u), vec![(0, 0), (0, 1), (0, 4)]);
}

#[test]
fn corner_cells_are_neighbours() {
    let mut u: Universe<PackedGrid> = Universe::with_dimensions(6, 5);
    // The three other corners around the top-left one bring it to life.
    stamp_points(&mut u, &[(5, 4), (0, 4), (5, 0)]);
    u.tick();
    assert_eq!(u.cells().get(0), Cell::Alive);
}

#[test]
fn block_is_still_life() {
    let mut u: Universe<PackedGrid> = Universe::with_dimensions(64, 64);
    u.generate_pattern(Square::new(), 10, 20);
    let before = live(&u);
    assert_eq!(before, vec![(12, 22), (13, 22), (12, 23), (13, 23)]);
    for _ in 0..12 {
        u.tick();
        assert_eq!(live(&u), before);
    }
}

#[test]
fn block_on_edge_is_still_life() {
    let mut u: Universe<DenseGrid> = Universe::with_dimensions(7, 7);
    stamp_points(&mut u, &[(6, 6), (0, 6), (6, 0), (0, 0)]);
    let before = live(&u);
    for _ in 0..5 {
        u.tick();
        assert_eq!(live(&u), before);
    }
}

#[test]
fn glider_moves_one_cell_diagonally_in_four_ticks() {
    let mut u: Universe<PackedGrid> = Universe::with_dimensions(16, 16);
    u.generate_pattern(Glider::new(), 0, 0);
    assert_eq!(live(&u), vec![(2, 2), (3, 2), (4, 2), (2, 3), (3, 4)]);
    u.tick();
    assert_eq!(live(&u), vec![(3, 1), (2, 2), (3, 2), (2, 3), (4, 3)]);
    u.tick();
    u.tick();
    u.tick();
    assert_eq!(live(&u), vec![(1, 1), (2, 1), (3, 1), (1, 2), (2, 3)]);
}

#[test]
fn glider_on_seven_by_seven_grid() {
    let mut u: Universe<DenseGrid> = Universe::with_dimensions(7, 7);
    u.generate_pattern(Glider::new(), 0, 0);
    for _ in 0..4 {
        u.tick();
    }
    assert_eq!(live(&u), vec![(1, 1), (2, 1), (3, 1), (1, 2), (2, 3)]);
}

#[test]
fn tick_swaps_buffers() {
    let mut u = Universe::new();
    let before: Vec<Cell> = (0..4096).map(|i| u.cells().get(i)).collect();
    u.tick();
    let prev: Vec<Cell> = (0..4096).map(|i| u.prev().get(i)).collect();
    assert_eq!(prev, before);
    let after: Vec<Cell> = (0..4096).map(|i| u.cells().get(i)).collect();
    u.tick();
    let prev: Vec<Cell> = (0..4096).map(|i| u.prev().get(i)).collect();
    assert_eq!(prev, after);
}

#[test]
fn packed_and_dense_agree_over_ticks() {
    let mut seed = Vec::new();
    let mut state: u32 = 12345;
    for _ in 0..64 * 64 {
        state = state.wrapping_mul(1103515245).wrapping_add(12345);
        seed.push(if (state >> 16) & 1 == 1 { Cell::Alive } else { Cell::Dead });
    }
    let mut p: Universe<PackedGrid> = Universe::seeded(&seed);
    let mut d: Universe<DenseGrid> = Universe::seeded(&seed);
    for _ in 0..6 {
        for i in 0..4096 {
            assert_eq!(p.cells().get(i), d.cells().get(i));
        }
        p.tick();
        d.tick();
    }
    for i in 0..4096 {
        assert_eq!(p.cells().get(i), d.cells().get(i));
        assert_eq!(p.prev().get(i), d.prev().get(i));
    }
}

#[test]
fn space_ship_pattern_stamps_nine_cells() {
    let mut u: Universe<PackedGrid> = Universe::with_dimensions(20, 20);
    u.generate_pattern(SpaceShip::new(), 3, 4);
    assert_eq!(live(&u).len(), 9);
    assert!(live(&u).contains(&(5, 6)));
    assert!(live(&u).contains(&(9, 9)));
    let e = PatternCell::new(1, 2, Cell::Alive);
    assert_eq!((e.x, e.y, e.cell), (1, 2, Cell::Alive));
}

#[test]
fn render_draws_one_line_per_row() {
    let mut u: Universe<DenseGrid> = Universe::with_dimensions(3, 2);
    stamp_points(&mut u, &[(1, 0), (2, 1)]);
    assert_eq!(u.render(), "\u{25FB}\u{25FC}\u{25FB}\n\u{25FB}\u{25FB}\u{25FC}\n");
    let p: Universe<PackedGrid> = Universe::with_dimensions(2, 1);
    assert_eq!(p.render(), "\u{25FB}\u{25FB}\n");
}
