use vstd::prelude::*;
use super::pattern::{Pattern, lemma_shape_set, lemma_shape_unique, shape};
use crate::cell::Cell;

verus! {

/// The acorn: a small seed that grows for thousands of generations.
pub struct Acorn {}

/// The live cells of the pattern, as `(x, y)` in its 11 by 7 box.
pub open spec fn acorn_live() -> Seq<(u32, u32)> {
    seq![(2, 2), (3, 2), (4, 2), (7, 2), (8, 2), (5, 3), (7, 4)]
}

impl Acorn {
    /// The pattern in a 11 by 7 box of otherwise dead cells, row by row.
    pub fn new() -> (r: Pattern)
        ensures
            r.cells@ == shape(11, 7, acorn_live()),
            r.wf(),
    {
        let mut pattern = Pattern::rect(11, 7);
        let ghost mut live: Seq<(u32, u32)> = seq![];
        proof {
            lemma_shape_set(11, 7, live, 2, 2);
            live = live.push((2, 2));
        }
        pattern.set_cell(2, 2, Cell::Alive);
        proof {
            lemma_shape_set(11, 7, live, 3, 2);
            live = live.push((3, 2));
        }
        pattern.set_cell(3, 2, Cell::Alive);
        proof {
            lemma_shape_set(11, 7, live, 4, 2);
            live = live.push((4, 2));
        }
        pattern.set_cell(4, 2, Cell::Alive);
        proof {
            lemma_shape_set(11, 7, live, 7, 2);
            live = live.push((7, 2));
        }
        pattern.set_cell(7, 2, Cell::Alive);
        proof {
            lemma_shape_set(11, 7, live, 8, 2);
            live = live.push((8, 2));
        }
        pattern.set_cell(8, 2, Cell::Alive);
        proof {
            lemma_shape_set(11, 7, live, 5, 3);
            live = live.push((5, 3));
        }
        pattern.set_cell(5, 3, Cell::Alive);
        proof {
            lemma_shape_set(11, 7, live, 7, 4);
            live = live.push((7, 4));
        }
        pattern.set_cell(7, 4, Cell::Alive);
        proof {
            assert(live =~= acorn_live());
            lemma_shape_unique(11, 7, live);
        }
        pattern
    }
}

} // verus!
