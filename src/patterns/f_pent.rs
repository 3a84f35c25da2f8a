use vstd::prelude::*;
use super::pattern::{Pattern, lemma_shape_set, lemma_shape_unique, shape};
use crate::cell::Cell;

verus! {

/// The F-pentomino (R-pentomino): five cells with a long evolution.
pub struct FPentomino {}

/// The live cells of the pattern, as `(x, y)` in its 7 by 7 box.
pub open spec fn f_pentomino_live() -> Seq<(u32, u32)> {
    seq![(2, 2), (3, 2), (3, 3), (4, 3), (3, 4)]
}

impl FPentomino {
    /// The pattern in a 7 by 7 box of otherwise dead cells, row by row.
    pub fn new() -> (r: Pattern)
        ensures
            r.cells@ == shape(7, 7, f_pentomino_live()),
            r.wf(),
    {
        let mut pattern = Pattern::rect(7, 7);
        let ghost mut live: Seq<(u32, u32)> = seq![];
        proof {
            lemma_shape_set(7, 7, live, 2, 2);
            live = live.push((2, 2));
        }
        pattern.set_cell(2, 2, Cell::Alive);
        proof {
            lemma_shape_set(7, 7, live, 3, 2);
            live = live.push((3, 2));
        }
        pattern.set_cell(3, 2, Cell::Alive);
        proof {
            lemma_shape_set(7, 7, live, 3, 3);
            live = live.push((3, 3));
        }
        pattern.set_cell(3, 3, Cell::Alive);
        proof {
            lemma_shape_set(7, 7, live, 4, 3);
            live = live.push((4, 3));
        }
        pattern.set_cell(4, 3, Cell::Alive);
        proof {
            lemma_shape_set(7, 7, live, 3, 4);
            live = live.push((3, 4));
        }
        pattern.set_cell(3, 4, Cell::Alive);
        proof {
            assert(live =~= f_pentomino_live());
            lemma_shape_unique(7, 7, live);
        }
        pattern
    }
}

} // verus!
