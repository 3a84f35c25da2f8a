use vstd::prelude::*;
use super::pattern::{Pattern, lemma_shape_set, lemma_shape_unique, shape};
use crate::cell::Cell;

verus! {

/// The block: a still life of four cells.
pub struct Square {}

/// The live cells of the pattern, as `(x, y)` in its 6 by 6 box.
pub open spec fn square_live() -> Seq<(u32, u32)> {
    seq![(2, 2), (3, 2), (2, 3), (3, 3)]
}

impl Square {
    /// The pattern in a 6 by 6 box of otherwise dead cells, row by row.
    pub fn new() -> (r: Pattern)
        ensures
            r.cells@ == shape(6, 6, square_live()),
            r.wf(),
    {
        let mut pattern = Pattern::rect(6, 6);
        let ghost mut live: Seq<(u32, u32)> = seq![];
        proof {
            lemma_shape_set(6, 6, live, 2, 2);
            live = live.push((2, 2));
        }
        pattern.set_cell(2, 2, Cell::Alive);
        proof {
            lemma_shape_set(6, 6, live, 3, 2);
            live = live.push((3, 2));
        }
        pattern.set_cell(3, 2, Cell::Alive);
        proof {
            lemma_shape_set(6, 6, live, 2, 3);
            live = live.push((2, 3));
        }
        pattern.set_cell(2, 3, Cell::Alive);
        proof {
            lemma_shape_set(6, 6, live, 3, 3);
            live = live.push((3, 3));
        }
        pattern.set_cell(3, 3, Cell::Alive);
        proof {
            assert(live =~= square_live());
            lemma_shape_unique(6, 6, live);
        }
        pattern
    }
}

} // verus!
