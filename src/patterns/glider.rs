use vstd::prelude::*;
use super::pattern::{Pattern, lemma_shape_set, lemma_shape_unique, shape};
use crate::cell::Cell;

verus! {

/// The glider: a five-cell ship that moves one cell diagonally every four generations.
pub struct Glider {}

/// The live cells of the pattern, as `(x, y)` in its 7 by 7 box.
pub open spec fn glider_live() -> Seq<(u32, u32)> {
    seq![(2, 2), (3, 2), (4, 2), (2, 3), (3, 4)]
}

impl Glider {
    /// The pattern in a 7 by 7 box of otherwise dead cells, row by row.
    pub fn new() -> (r: Pattern)
        ensures
            r.cells@ == shape(7, 7, glider_live()),
            r.wf(),
    {
        let mut pattern = Pattern::rect(7, 7);
        let ghost mut live: Seq<(u32, u32)> = seq![];
        proof {
            lemma_shape_set(7, 7, live, 2, 2);
            live = live.push((2, 2));
        }
        pattern.set_cell(2, 2, Cell::Alive);
        proof {
            lemma_shape_set(7, 7, live, 3, 2);
            live = live.push((3, 2));
        }
        pattern.set_cell(3, 2, Cell::Alive);
        proof {
            lemma_shape_set(7, 7, live, 4, 2);
            live = live.push((4, 2));
        }
        pattern.set_cell(4, 2, Cell::Alive);
        proof {
            lemma_shape_set(7, 7, live, 2, 3);
            live = live.push((2, 3));
        }
        pattern.set_cell(2, 3, Cell::Alive);
        proof {
            lemma_shape_set(7, 7, live, 3, 4);
            live = live.push((3, 4));
        }
        pattern.set_cell(3, 4, Cell::Alive);
        proof {
            assert(live =~= glider_live());
            lemma_shape_unique(7, 7, live);
        }
        pattern
    }
}

} // verus!
