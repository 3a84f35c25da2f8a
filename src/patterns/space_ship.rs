use vstd::prelude::*;
use super::pattern::{Pattern, lemma_shape_set, lemma_shape_unique, shape};
use crate::cell::Cell;

verus! {

/// The lightweight spaceship: a nine-cell ship that moves horizontally.
pub struct SpaceShip {}

/// The live cells of the pattern, as `(x, y)` in its 9 by 8 box.
pub open spec fn space_ship_live() -> Seq<(u32, u32)> {
    seq![(2, 2), (5, 2), (6, 3), (2, 4), (6, 4), (3, 5), (4, 5), (5, 5), (6, 5)]
}

impl SpaceShip {
    /// The pattern in a 9 by 8 box of otherwise dead cells, row by row.
    pub fn new() -> (r: Pattern)
        ensures
            r.cells@ == shape(9, 8, space_ship_live()),
            r.wf(),
    {
        let mut pattern = Pattern::rect(9, 8);
        let ghost mut live: Seq<(u32, u32)> = seq![];
        proof {
            lemma_shape_set(9, 8, live, 2, 2);
            live = live.push((2, 2));
        }
        pattern.set_cell(2, 2, Cell::Alive);
        proof {
            lemma_shape_set(9, 8, live, 5, 2);
            live = live.push((5, 2));
        }
        pattern.set_cell(5, 2, Cell::Alive);
        proof {
            lemma_shape_set(9, 8, live, 6, 3);
            live = live.push((6, 3));
        }
        pattern.set_cell(6, 3, Cell::Alive);
        proof {
            lemma_shape_set(9, 8, live, 2, 4);
            live = live.push((2, 4));
        }
        pattern.set_cell(2, 4, Cell::Alive);
        proof {
            lemma_shape_set(9, 8, live, 6, 4);
            live = live.push((6, 4));
        }
        pattern.set_cell(6, 4, Cell::Alive);
        proof {
            lemma_shape_set(9, 8, live, 3, 5);
            live = live.push((3, 5));
        }
        pattern.set_cell(3, 5, Cell::Alive);
        proof {
            lemma_shape_set(9, 8, live, 4, 5);
            live = live.push((4, 5));
        }
        pattern.set_cell(4, 5, Cell::Alive);
        proof {
            lemma_shape_set(9, 8, live, 5, 5);
            live = live.push((5, 5));
        }
        pattern.set_cell(5, 5, Cell::Alive);
        proof {
            lemma_shape_set(9, 8, live, 6, 5);
            live = live.push((6, 5));
        }
        pattern.set_cell(6, 5, Cell::Alive);
        proof {
            assert(live =~= space_ship_live());
            lemma_shape_unique(9, 8, live);
        }
        pattern
    }
}

} // verus!
