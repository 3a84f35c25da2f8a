use game_of_life::{Cell, CellGroup, DenseGrid, Grid, PackedGrid};

#[test]
fn group_starts_dead() {
    let g = CellGroup::new();
    for i in 0..8u8 {
        assert_eq!(g.get(i), Cell::Dead);
    }
}

#[test]
fn group_set_all_bit_combinations() {
    for current in [Cell::Dead, Cell::Alive] {
        for wanted in [Cell::Dead, Cell::Alive] {
            for index in 0..8u8 {
                let mut g = CellGroup::new();
                g.set(index, current);
                g.set(index, wanted);
                for j in 0..8u8 {
                    if j == index {
                        assert_eq!(g.get(j), wanted);
                    } else {
                        assert_eq!(g.get(j), Cell::Dead);
                    }
                }
            }
        }
    }
}

#[test]
fn group_keeps_other_bits() {
    let mut g = CellGroup::new();
    g.set(0, Cell::Alive);
    g.set(7, Cell::Alive);
    g.set(3, Cell::Alive);
    g.set(7, Cell::Dead);
    let got: Vec<Cell> = (0..8u8).map(|i| g.get(i)).collect();
    assert_eq!(
        got,
        vec![
            Cell::Alive,
            Cell::Dead,
            Cell::Dead,
            Cell::Alive,
            Cell::Dead,
            Cell::Dead,
            Cell::Dead,
            Cell::Dead
        ]
    );
}

#[test]
fn cell_bits() {
    assert_eq!(Cell::Dead.as_bit(), 0);
    assert_eq!(Cell::Alive.as_bit(), 1);
}

#[test]
fn packed_grid_rounds_groups_up() {
    let g = PackedGrid::dead(13);
    assert_eq!(g.len(), 13);
    assert_eq!(g.as_slice().len(), 2);
    let g = PackedGrid::dead(16);
    assert_eq!(g.as_slice().len(), 2);
    let g = PackedGrid::dead(0);
    assert_eq!(g.as_slice().len(), 0);
}

#[test]
fn packed_and_dense_agree_after_sets() {
    let mut p = PackedGrid::dead(21);
    let mut d = DenseGrid::dead(21);
    let writes = [
        (0usize, Cell::Alive),
        (7, Cell::Alive),
        (8, Cell::Alive),
        (20, Cell::Alive),
        (7, Cell::Dead),
        (13, Cell::Alive),
        (13, Cell::Alive),
        (0, Cell::Dead),
    ];
    for (i, v) in writes {
        p.set(i, v);
        d.set(i, v);
        for k in 0..21 {
            assert_eq!(p.get(k), d.get(k));
        }
    }
    assert_eq!(d.as_slice()[8], Cell::Alive);
    assert_eq!(d.as_slice()[0], Cell::Dead);
    assert_eq!(d.len(), 21);
}
