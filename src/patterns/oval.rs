use vstd::prelude::*;
use super::pattern::{Pattern, lemma_shape_set, lemma_shape_unique, shape};
use crate::cell::Cell;

verus! {

/// The beehive: a still life of six cells.
pub struct Oval {}

/// The live cells of the pattern, as `(x, y)` in its 8 by 7 box.
pub open spec fn oval_live() -> Seq<(u32, u32)> {
    seq![(3, 2), (4, 2), (2, 3), (5, 3), (3, 4), (4, 4)]
}

impl Oval {
    /// The pattern in a 8 by 7 box of otherwise dead cells, row by row.
    pub fn new() -> (r: Pattern)
        ensures
            r.cells@ == shape(8, 7, oval_live()),
            r.wf(),
    {
        let mut pattern = Pattern::rect(8, 7);
        let ghost mut live: Seq<(u32, u32)> = seq![];
        proof {
            lemma_shape_set(8, 7, live, 3, 2);
            live = live.push((3, 2));
        }
        pattern.set_cell(3, 2, Cell::Alive);
        proof {
            lemma_shape_set(8, 7, live, 4, 2);
            live = live.push((4, 2));
        }
        pattern.set_cell(4, 2, Cell::Alive);
        proof {
            lemma_shape_set(8, 7, live, 2, 3);
            live = live.push((2, 3));
        }
        pattern.set_cell(2, 3, Cell::Alive);
        proof {
            lemma_shape_set(8, 7, live, 5, 3);
            live = live.push((5, 3));
        }
        pattern.set_cell(5, 3, Cell::Alive);
        proof {
            lemma_shape_set(8, 7, live, 3, 4);
            live = live.push((3, 4));
        }
        pattern.set_cell(3, 4, Cell::Alive);
        proof {
            lemma_shape_set(8, 7, live, 4, 4);
            live = live.push((4, 4));
        }
        pattern.set_cell(4, 4, Cell::Alive);
        proof {
            assert(live =~= oval_live());
            lemma_shape_unique(8, 7, live);
        }
        pattern
    }
}

} // verus!
