use vstd::prelude::*;
use vstd::arithmetic::div_mod::{lemma_fundamental_div_mod, lemma_fundamental_div_mod_converse};
use crate::cell::Cell;

verus! {

/// One entry of a pattern: the state of the cell at `(x, y)` relative to the
/// pattern's top-left corner.
#[derive(Clone, Copy, Debug, PartialEq, Eq, Structural)]
pub struct PatternCell {
    pub x: u32,
    pub y: u32,
    pub cell: Cell,
}

impl PatternCell {
    pub fn new(x: u32, y: u32, cell: Cell) -> (r: PatternCell)
        ensures
            r == (PatternCell { x, y, cell }),
    {
        PatternCell { x, y, cell }
    }
}

/// Entry `k` of `s` is at `(x, y)`.
pub open spec fn at(s: Seq<PatternCell>, k: int, x: u32, y: u32) -> bool {
    0 <= k < s.len() && s[k].x == x && s[k].y == y
}

/// Entry `k` of `s` is the first one at `(x, y)`.
pub open spec fn first_at(s: Seq<PatternCell>, k: int, x: u32, y: u32) -> bool {
    at(s, k, x, y) && forall|j: int| 0 <= j < k ==> !#[trigger] at(s, j, x, y)
}

/// Some entry of `s` is at `(x, y)`.
pub open spec fn has_entry(s: Seq<PatternCell>, x: u32, y: u32) -> bool {
    exists|k: int| #[trigger] at(s, k, x, y)
}

/// No two entries of `s` share a position.
pub open spec fn unique_positions(s: Seq<PatternCell>) -> bool {
    forall|a: int, b: int|
        0 <= a < s.len() && 0 <= b < s.len() && a != b ==> !(#[trigger] s[a].x == #[trigger] s[b].x
            && s[a].y == s[b].y)
}

/// Entry `k` of a `width`-wide rectangle in row-major order, alive where
/// its position is listed in `live`.
pub open spec fn shape_entry(width: u32, live: Seq<(u32, u32)>, k: int) -> PatternCell {
    let x = (k % width as int) as u32;
    let y = (k / width as int) as u32;
    PatternCell { x, y, cell: if live.contains((x, y)) { Cell::Alive } else { Cell::Dead } }
}

/// A `width` by `height` rectangle in row-major order, each cell alive where
/// its position is listed in `live` and dead elsewhere.
pub open spec fn shape(width: u32, height: u32, live: Seq<(u32, u32)>) -> Seq<PatternCell> {
    Seq::new((width * height) as nat, |k: int| shape_entry(width, live, k))
}

/// The largest `x`, or 0 for no entries.
pub open spec fn max_x(s: Seq<PatternCell>) -> u32
    decreases s.len(),
{
    if s.len() == 0 {
        0
    } else if s.last().x > max_x(s.drop_last()) {
        s.last().x
    } else {
        max_x(s.drop_last())
    }
}

/// The largest `y`, or 0 for no entries.
pub open spec fn max_y(s: Seq<PatternCell>) -> u32
    decreases s.len(),
{
    if s.len() == 0 {
        0
    } else if s.last().y > max_y(s.drop_last()) {
        s.last().y
    } else {
        max_y(s.drop_last())
    }
}

/// A template of cells, placed relative to its top-left corner.
pub struct Pattern {
    pub cells: Vec<PatternCell>,
}

impl Pattern {
    /// At most one entry per position.
    pub open spec fn wf(&self) -> bool {
        unique_positions(self.cells@)
    }

    /// A pattern without entries.
    pub fn new() -> (r: Pattern)
        ensures
            r.cells@ == Seq::<PatternCell>::empty(),
            r.wf(),
    {
        Pattern { cells: Vec::new() }
    }

    /// A `width` by `height` rectangle of dead cells, row by row.
    pub fn rect(width: u32, height: u32) -> (r: Pattern)
        ensures
            r.cells@ == shape(width, height, seq![]),
            r.wf(),
    {
        let ghost none: Seq<(u32, u32)> = seq![];
        let mut pattern = Pattern::new();
        let mut row: u32 = 0;
        while row < height
            invariant
                row <= height,
                none == Seq::<(u32, u32)>::empty(),
                pattern.cells@.len() == row * width,
                forall|k: int| 0 <= k < pattern.cells@.len() ==> #[trigger] pattern.cells@[k] == shape_entry(width, none, k),
            decreases height - row,
        {
            let mut column: u32 = 0;
            while column < width
                invariant
                    row < height,
                    column <= width,
                    none == Seq::<(u32, u32)>::empty(),
                    pattern.cells@.len() == row * width + column,
                    forall|k: int| 0 <= k < pattern.cells@.len() ==> #[trigger] pattern.cells@[k] == shape_entry(width, none, k),
                decreases width - column,
            {
                let ghost k: int = row as int * width as int + column as int;
                proof {
                    lemma_fundamental_div_mod_converse(k, width as int, row as int, column as int);
                    assert(!none.contains((column, row)));
                    assert(shape_entry(width, none, k) == PatternCell { x: column, y: row, cell: Cell::Dead });
                }
                let ghost before = pattern.cells@;
                pattern.cells.push(PatternCell::new(column, row, Cell::Dead));
                assert(pattern.cells@ == before.push(PatternCell { x: column, y: row, cell: Cell::Dead }));
                assert forall|j: int| 0 <= j < pattern.cells@.len() implies #[trigger] pattern.cells@[j] == shape_entry(width, none, j) by {
                    if j < k {
                        assert(before[j] == shape_entry(width, none, j));
                    }
                }
                column = column + 1;
            }
            proof {
                assert((row + 1) * width == row * width + width) by (nonlinear_arith);
            }
            row = row + 1;
        }
        proof {
            assert(pattern.cells@.len() == width * height) by (nonlinear_arith)
                requires
                    pattern.cells@.len() == row * width,
                    row == height,
            ;
            assert(pattern.cells@ =~= shape(width, height, none));
            lemma_shape_unique(width, height, none);
        }
        pattern
    }

    /// The largest `x` and the largest `y` among the entries, 0 for none.
    pub fn size(&self) -> (r: (u32, u32))
        ensures
            r == (max_x(self.cells@), max_y(self.cells@)),
    {
        let mut height: u32 = 0;
        let mut width: u32 = 0;
        let mut i: usize = 0;
        while i < self.cells.len()
            invariant
                i <= self.cells@.len(),
                width == max_x(self.cells@.take(i as int)),
                height == max_y(self.cells@.take(i as int)),
            decreases self.cells@.len() - i,
        {
            let cell = &self.cells[i];
            assert(self.cells@.take(i + 1).drop_last() =~= self.cells@.take(i as int));
            if cell.x > width {
                width = cell.x;
            }
            if cell.y > height {
                height = cell.y;
            }
            i = i + 1;
        }
        assert(self.cells@.take(i as int) =~= self.cells@);
        (width, height)
    }

    /// Sets the cell at `(x, y)`: the first entry there is overwritten, and
    /// where there is none a new entry is added at the end.
    pub fn set_cell(&mut self, x: u32, y: u32, cell: Cell)
        ensures
            forall|k: int|
                first_at(old(self).cells@, k, x, y) ==> final(self).cells@ == old(self).cells@.update(
                    k,
                    PatternCell { x, y, cell },
                ),
            !has_entry(old(self).cells@, x, y) ==> final(self).cells@ == old(self).cells@.push(
                PatternCell { x, y, cell },
            ),
            old(self).wf() ==> final(self).wf(),
    {
        let ghost before = self.cells@;
        assert(before == old(self).cells@);
        let mut i: usize = 0;
        while i < self.cells.len()
            invariant
                self.cells@ == before,
                before == old(self).cells@,
                i <= before.len(),
                forall|j: int| 0 <= j < i ==> !#[trigger] at(before, j, x, y),
            decreases before.len() - i,
        {
            if self.cells[i].x == x && self.cells[i].y == y {
                self.cells.set(i, PatternCell::new(x, y, cell));
                assert(at(before, i as int, x, y));
                assert(self.cells@ == before.update(i as int, PatternCell { x, y, cell }));
                assert(unique_positions(before) ==> unique_positions(self.cells@)) by {
                    if unique_positions(before) {
                        let t = self.cells@;
                        assert forall|a: int, b: int|
                            0 <= a < t.len() && 0 <= b < t.len() && a != b implies !(#[trigger] t[a].x == #[trigger] t[b].x
                                && t[a].y == t[b].y) by {
                            assert(!(before[a].x == before[b].x && before[a].y == before[b].y));
                        }
                    }
                }
                assert forall|k: int| first_at(before, k, x, y) implies k == i by {
                    if k < i {
                        assert(!at(before, k, x, y));
                    } else if k > i {
                        assert(at(before, i as int, x, y));
                    }
                }
                return;
            }
            i = i + 1;
        }
        assert forall|k: int| !at(before, k, x, y) by {
            if 0 <= k < before.len() {
                assert(!at(before, k, x, y));
            }
        }
        self.cells.push(PatternCell::new(x, y, cell));
        assert(unique_positions(before) ==> unique_positions(self.cells@)) by {
            if unique_positions(before) {
                let t = self.cells@;
                assert forall|a: int, b: int|
                    0 <= a < t.len() && 0 <= b < t.len() && a != b implies !(#[trigger] t[a].x == #[trigger] t[b].x
                        && t[a].y == t[b].y) by {
                    if a < before.len() && b < before.len() {
                        assert(!(before[a].x == before[b].x && before[a].y == before[b].y));
                    } else if a < before.len() {
                        assert(!at(before, a, x, y));
                    } else {
                        assert(!at(before, b, x, y));
                    }
                }
            }
        }
    }

    /// Removes the first entry at `(x, y)`, if there is one.
    pub fn remove_cell(&mut self, x: u32, y: u32)
        ensures
            forall|k: int| first_at(old(self).cells@, k, x, y) ==> final(self).cells@ == old(self).cells@.remove(k),
            !has_entry(old(self).cells@, x, y) ==> final(self).cells@ == old(self).cells@,
            old(self).wf() ==> final(self).wf(),
    {
        let ghost before = self.cells@;
        let mut index: usize = 0;
        while index < self.cells.len()
            invariant
                self.cells@ == before,
                before == old(self).cells@,
                index <= before.len(),
                forall|j: int| 0 <= j < index ==> !#[trigger] at(before, j, x, y),
            decreases before.len() - index,
        {
            let cell = &self.cells[index];
            if cell.x == x && cell.y == y {
                self.cells.remove(index);
                assert(at(before, index as int, x, y));
                assert(self.cells@ == before.remove(index as int));
                assert(unique_positions(before) ==> unique_positions(self.cells@)) by {
                    if unique_positions(before) {
                        let t = self.cells@;
                        assert forall|a: int, b: int|
                            0 <= a < t.len() && 0 <= b < t.len() && a != b implies !(#[trigger] t[a].x == #[trigger] t[b].x
                                && t[a].y == t[b].y) by {
                            let a2 = if a < index { a } else { a + 1 };
                            let b2 = if b < index { b } else { b + 1 };
                            assert(t[a] == before[a2] && t[b] == before[b2]);
                            assert(!(before[a2].x == before[b2].x && before[a2].y == before[b2].y));
                        }
                    }
                }
                assert forall|k: int| first_at(before, k, x, y) implies k == index by {
                    if k < index {
                        assert(!at(before, k, x, y));
                    } else if k > index {
                        assert(at(before, index as int, x, y));
                    }
                }
                return;
            }
            index = index + 1;
        }
        assert forall|k: int| !at(before, k, x, y) by {
            if 0 <= k < before.len() {
                assert(!at(before, k, x, y));
            }
        }
    }
}

/// The entries of a rectangle have distinct positions.
pub proof fn lemma_shape_unique(width: u32, height: u32, live: Seq<(u32, u32)>)
    ensures
        unique_positions(shape(width, height, live)),
{
    let s = shape(width, height, live);
    assert forall|a: int, b: int|
        0 <= a < s.len() && 0 <= b < s.len() && a != b implies !(#[trigger] s[a].x == #[trigger] s[b].x
            && s[a].y == s[b].y) by {
        lemma_fundamental_div_mod(a, width as int);
        lemma_fundamental_div_mod(b, width as int);
        assert(0 <= a % (width as int) < width);
        assert(0 <= b % (width as int) < width);
        assert(a / (width as int) < height) by (nonlinear_arith)
            requires 0 <= a < width * height, a == width * (a / (width as int)) + a % (width as int), 0 <= a % (width as int);
        assert(b / (width as int) < height) by (nonlinear_arith)
            requires 0 <= b < width * height, b == width * (b / (width as int)) + b % (width as int), 0 <= b % (width as int);
    }
}

/// In a rectangle, `(x, y)` is entry `y * width + x`, and setting it alive
/// gives the rectangle with `(x, y)` added to its live positions.
pub proof fn lemma_shape_set(width: u32, height: u32, live: Seq<(u32, u32)>, x: u32, y: u32)
    requires
        x < width,
        y < height,
    ensures
        first_at(shape(width, height, live), y * width + x, x, y),
        shape(width, height, live).update(y * width + x, PatternCell { x, y, cell: Cell::Alive })
            == shape(width, height, live.push((x, y))),
{
    let (w, h) = (width as int, height as int);
    let s = shape(width, height, live);
    let k = y * w + x;
    assert(0 <= k < w * h) by (nonlinear_arith)
        requires 0 <= x < w, 0 <= y < h, k == y * w + x;
    lemma_fundamental_div_mod_converse(k, w, y as int, x as int);
    lemma_shape_unique(width, height, live);
    assert forall|j: int| 0 <= j < k implies !#[trigger] at(s, j, x, y) by {
        assert(!(s[j].x == s[k].x && s[j].y == s[k].y));
    }
    let t = shape(width, height, live.push((x, y)));
    assert forall|j: int| 0 <= j < s.len() implies #[trigger] s.update(k, PatternCell { x, y, cell: Cell::Alive })[j] == t[j] by {
        let p = ((j % w) as u32, (j / w) as u32);
        if live.contains(p) {
            let i = choose|i: int| 0 <= i < live.len() && live[i] == p;
            assert(live.push((x, y))[i] == p);
        }
        if p == (x, y) {
            assert(live.push((x, y))[live.len() as int] == p);
        }
        if live.push((x, y)).contains(p) {
            let i = choose|i: int| 0 <= i < live.len() + 1 && live.push((x, y))[i] == p;
            if i < live.len() {
                assert(live[i] == p);
            }
        }
        if j != k {
            lemma_fundamental_div_mod(j, w);
            assert(0 <= j % w < w);
            assert(0 <= j / w < h) by (nonlinear_arith)
                requires
                    0 <= j < w * h,
                    j == w * (j / w) + j % w,
                    0 <= j % w < w,
            ;
            assert(j % w != x || j / w != y) by (nonlinear_arith)
                requires
                    j == w * (j / w) + j % w,
                    k == y * w + x,
                    j != k,
            ;
            assert(p != (x, y));
        }
    }
    assert(s.update(k, PatternCell { x, y, cell: Cell::Alive }) =~= t);
}

} // verus!
