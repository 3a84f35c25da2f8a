use game_of_life::Cell;

#[test]
fn rule_table_exhaustive() {
    for n in 0..=8u8 {
        let from_dead = if n == 3 { Cell::Alive } else { Cell::Dead };
        let from_alive = if n == 2 || n == 3 { Cell::Alive } else { Cell::Dead };
        assert_eq!(Cell::Dead.next_state(n), from_dead);
        assert_eq!(Cell::Alive.next_state(n), from_alive);
    }
}
