use vstd::prelude::*;
use super::pattern::{Pattern, lemma_shape_set, lemma_shape_unique, shape};
use crate::cell::Cell;

verus! {

/// A ring of eight live cells.
pub struct Circle {}

/// The live cells of the pattern, as `(x, y)` in its 8 by 8 box.
pub open spec fn circle_live() -> Seq<(u32, u32)> {
    seq![(3, 2), (4, 2), (2, 3), (5, 3), (2, 4), (5, 4), (3, 5), (4, 5)]
}

impl Circle {
    /// The pattern in a 8 by 8 box of otherwise dead cells, row by row.
    pub fn new() -> (r: Pattern)
        ensures
            r.cells@ == shape(8, 8, circle_live()),
            r.wf(),
    {
        let mut pattern = Pattern::rect(8, 8);
        let ghost mut live: Seq<(u32, u32)> = seq![];
        proof {
            lemma_shape_set(8, 8, live, 3, 2);
            live = live.push((3, 2));
        }
        pattern.set_cell(3, 2, Cell::Alive);
        proof {
            lemma_shape_set(8, 8, live, 4, 2);
            live = live.push((4, 2));
        }
        pattern.set_cell(4, 2, Cell::Alive);
        proof {
            lemma_shape_set(8, 8, live, 2, 3);
            live = live.push((2, 3));
        }
        pattern.set_cell(2, 3, Cell::Alive);
        proof {
            lemma_shape_set(8, 8, live, 5, 3);
            live = live.push((5, 3));
        }
        pattern.set_cell(5, 3, Cell::Alive);
        proof {
            lemma_shape_set(8, 8, live, 2, 4);
            live = live.push((2, 4));
        }
        pattern.set_cell(2, 4, Cell::Alive);
        proof {
            lemma_shape_set(8, 8, live, 5, 4);
            live = live.push((5, 4));
        }
        pattern.set_cell(5, 4, Cell::Alive);
        proof {
            lemma_shape_set(8, 8, live, 3, 5);
            live = live.push((3, 5));
        }
        pattern.set_cell(3, 5, Cell::Alive);
        proof {
            lemma_shape_set(8, 8, live, 4, 5);
            live = live.push((4, 5));
        }
        pattern.set_cell(4, 5, Cell::Alive);
        proof {
            assert(live =~= circle_live());
            lemma_shape_unique(8, 8, live);
        }
        pattern
    }
}

} // verus!
