use game_of_life::patterns::acorn::Acorn;
use game_of_life::patterns::circle::Circle;
use game_of_life::patterns::f_pent::FPentomino;
use game_of_life::patterns::glider::Glider;
use game_of_life::patterns::oval::Oval;
use game_of_life::patterns::space_ship::SpaceShip;
use game_of_life::patterns::square::Square;
use game_of_life::patterns::{Pattern, PatternCell};
use game_of_life::Cell;

fn alive(p: &Pattern) -> Vec<(u32, u32)> {
    p.cells.iter().filter(|c| c.cell == Cell::Alive).map(|c| (c.x, c.y)).collect()
}

fn entry(p: &Pattern, x: u32, y: u32) -> Vec<Cell> {
    p.cells.iter().filter(|c| c.x == x && c.y == y).map(|c| c.cell).collect()
}

#[test]
fn rect_is_row_major_and_dead() {
    let p = Pattern::rect(3, 2);
    let got: Vec<(u32, u32, Cell)> = p.cells.iter().map(|c| (c.x, c.y, c.cell)).collect();
    assert_eq!(
        got,
        vec![
            (0, 0, Cell::Dead),
            (1, 0, Cell::Dead),
            (2, 0, Cell::Dead),
            (0, 1, Cell::Dead),
            (1, 1, Cell::Dead),
            (2, 1, Cell::Dead)
        ]
    );
    assert_eq!(Pattern::rect(0, 5).cells.len(), 0);
}

#[test]
fn empty_pattern() {
    let p = Pattern::new();
    assert!(p.cells.is_empty());
    assert_eq!(p.size(), (0, 0));
}

#[test]
fn size_is_largest_coordinates() {
    assert_eq!(Pattern::rect(7, 4).size(), (6, 3));
    let mut p = Pattern::new();
    p.set_cell(2, 9, Cell::Alive);
    p.set_cell(5, 1, Cell::Dead);
    assert_eq!(p.size(), (5, 9));
}

#[test]
fn set_cell_overwrites_existing_entry() {
    let mut p = Pattern::rect(4, 4);
    p.set_cell(1, 2, Cell::Alive);
    assert_eq!(p.cells.len(), 16);
    assert_eq!(entry(&p, 1, 2), vec![Cell::Alive]);
    assert_eq!(p.cells[9].cell, Cell::Alive);
    p.set_cell(1, 2, Cell::Dead);
    assert_eq!(entry(&p, 1, 2), vec![Cell::Dead]);
}

#[test]
fn set_cell_appends_new_entry() {
    let mut p = Pattern::rect(2, 2);
    p.set_cell(5, 5, Cell::Alive);
    assert_eq!(p.cells.len(), 5);
    let last = &p.cells[4];
    assert_eq!((last.x, last.y, last.cell), (5, 5, Cell::Alive));
}

#[test]
fn remove_cell_deletes_entry() {
    let mut p = Pattern::rect(3, 3);
    p.remove_cell(1, 1);
    assert_eq!(p.cells.len(), 8);
    assert!(entry(&p, 1, 1).is_empty());
    assert_eq!((p.cells[4].x, p.cells[4].y), (2, 1));
    p.remove_cell(7, 7);
    assert_eq!(p.cells.len(), 8);
}

#[test]
fn named_patterns() {
    let cases: Vec<(Pattern, usize, Vec<(u32, u32)>)> = vec![
        (Glider::new(), 49, vec![(2, 2), (3, 2), (4, 2), (2, 3), (3, 4)]),
        (
            SpaceShip::new(),
            72,
            vec![(2, 2), (5, 2), (6, 3), (2, 4), (6, 4), (3, 5), (4, 5), (5, 5), (6, 5)],
        ),
        (FPentomino::new(), 49, vec![(2, 2), (3, 2), (3, 3), (4, 3), (3, 4)]),
        (
            Acorn::new(),
            77,
            vec![(2, 2), (3, 2), (4, 2), (7, 2), (8, 2), (5, 3), (7, 4)],
        ),
        (Oval::new(), 56, vec![(3, 2), (4, 2), (2, 3), (5, 3), (3, 4), (4, 4)]),
        (
            Circle::new(),
            64,
            vec![(3, 2), (4, 2), (2, 3), (5, 3), (2, 4), (5, 4), (3, 5), (4, 5)],
        ),
        (Square::new(), 36, vec![(2, 2), (3, 2), (2, 3), (3, 3)]),
    ];
    for (p, len, live) in cases {
        assert_eq!(p.cells.len(), len);
        assert_eq!(alive(&p), live);
    }
    assert_eq!(Glider::new().size(), (6, 6));
    let c = PatternCell::new(3, 4, Cell::Dead);
    assert_eq!((c.x, c.y, c.cell), (3, 4, Cell::Dead));
}
