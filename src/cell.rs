use vstd::prelude::*;

verus! {

/// The state of one cell of the universe.
#[derive(Clone, Copy, Debug, PartialEq, Eq, Structural)]
pub enum Cell {
    Dead,
    Alive,
}

/// 1 for a live cell, 0 for a dead one.
pub open spec fn alive_count(c: Cell) -> int {
    if c == Cell::Alive {
        1
    } else {
        0
    }
}

/// The rule of the game: a dead cell with three live neighbours is born, a
/// live cell with two or three live neighbours survives, every other cell is
/// dead in the next generation.
pub open spec fn rule(c: Cell, n: int) -> Cell {
    if (c == Cell::Dead && n == 3) || (c == Cell::Alive && (n == 2 || n == 3)) {
        Cell::Alive
    } else {
        Cell::Dead
    }
}

impl Cell {
    /// The state of this cell in the next generation, given its number of
    /// live neighbours.
    pub fn next_state(self, neighbors: u8) -> (r: Cell)
        ensures
            r == rule(self, neighbors as int),
    {
        match (self, neighbors) {
            (Cell::Dead, 3) => Cell::Alive,
            (Cell::Alive, 2) | (Cell::Alive, 3) => Cell::Alive,
            _ => Cell::Dead,
        }
    }

    /// 1 for a live cell, 0 for a dead one.
    pub fn as_bit(self) -> (r: u8)
        ensures
            r as int == alive_count(self),
    {
        match self {
            Cell::Dead => 0,
            Cell::Alive => 1,
        }
    }
}

/// For every state and every neighbour count from 0 to 8, the next state is
/// alive exactly when a dead cell has three neighbours or a live cell has two
/// or three.
pub proof fn lemma_rule_table(c: Cell, n: int)
    requires
        0 <= n <= 8,
    ensures
        rule(c, n) == Cell::Alive <==> ((c == Cell::Dead && n == 3) || (c == Cell::Alive && (n
            == 2 || n == 3))),
        rule(c, n) == Cell::Dead <==> !((c == Cell::Dead && n == 3) || (c == Cell::Alive && (n
            == 2 || n == 3))),
{
}

} // verus!
