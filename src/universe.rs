use vstd::prelude::*;
use vstd::string::StringExecFns;
use vstd::arithmetic::div_mod::{lemma_fundamental_div_mod_converse, lemma_small_mod};
use crate::cell::{Cell, alive_count, rule};
use crate::grid::{DenseGrid, Grid, PackedGrid, all_dead};
use crate::patterns::glider::{Glider, glider_live};
use crate::patterns::pattern::{Pattern, PatternCell, shape};
use crate::patterns::space_ship::{SpaceShip, space_ship_live};

verus! {

/// The linear index of `(row, column)`, both wrapped to the grid first.
pub open spec fn cell_index(width: int, height: int, row: int, column: int) -> int {
    (row % height) * width + (column % width)
}

/// The eight offsets of the Moore neighbourhood as non-negative
/// `(column, row)` deltas, to be added modulo the width and the height.
pub open spec fn neighbor_deltas(width: int, height: int) -> Seq<(int, int)> {
    seq![
        (1int, 0int),
        (1int, 1int),
        (0int, 1int),
        (width - 1, 1int),
        (width - 1, 0int),
        (width - 1, height - 1),
        (0int, height - 1),
        (1int, height - 1),
    ]
}

/// The `(row, column)` positions of the eight neighbours of `(row, column)`
/// on a torus of the given size.
pub open spec fn neighbors(width: int, height: int, row: int, column: int) -> Seq<(int, int)> {
    neighbor_deltas(width, height).map_values(
        |d: (int, int)| ((row + d.1) % height, (column + d.0) % width),
    )
}

/// 1 if the cell at `(row, column)` is alive, else 0.
pub open spec fn live_at(cells: Seq<Cell>, width: int, height: int, row: int, column: int) -> int {
    alive_count(cells[cell_index(width, height, row, column)])
}

/// The live cells among the first `k` neighbours of `(row, column)`.
pub open spec fn live_among(
    cells: Seq<Cell>,
    width: int,
    height: int,
    row: int,
    column: int,
    k: nat,
) -> int
    decreases k,
{
    if k == 0 {
        0
    } else {
        let p = neighbors(width, height, row, column)[k - 1];
        live_among(cells, width, height, row, column, (k - 1) as nat) + live_at(
            cells,
            width,
            height,
            p.0,
            p.1,
        )
    }
}

/// The number of live neighbours of `(row, column)`.
pub open spec fn live_neighbors(
    cells: Seq<Cell>,
    width: int,
    height: int,
    row: int,
    column: int,
) -> int {
    live_among(cells, width, height, row, column, 8)
}

/// The generation that follows `cells` on a `width` by `height` torus: each
/// cell, at row `i / width` and column `i % width`, follows the rule applied
/// to its state and its number of live neighbours.
pub open spec fn next_generation(cells: Seq<Cell>, width: int, height: int) -> Seq<Cell> {
    Seq::new(
        (width * height) as nat,
        |i: int| rule(cells[i], live_neighbors(cells, width, height, i / width, i % width)),
    )
}

/// `cells` with the entries of a pattern written in order at
/// `(x_base + x, y_base + y)`, wrapped to the grid; a later entry overwrites
/// an earlier one at the same place.
pub open spec fn stamp(
    cells: Seq<Cell>,
    width: int,
    height: int,
    entries: Seq<PatternCell>,
    x_base: int,
    y_base: int,
) -> Seq<Cell>
    decreases entries.len(),
{
    if entries.len() == 0 {
        cells
    } else {
        let e = entries.last();
        stamp(cells, width, height, entries.drop_last(), x_base, y_base).update(
            cell_index(width, height, y_base + e.y, x_base + e.x),
            e.cell,
        )
    }
}

/// `cells` with a pattern stamped at each of the `(x, y)` anchors in turn.
pub open spec fn stamp_each(
    cells: Seq<Cell>,
    width: int,
    height: int,
    entries: Seq<PatternCell>,
    anchors: Seq<(u32, u32)>,
) -> Seq<Cell>
    decreases anchors.len(),
{
    if anchors.len() == 0 {
        cells
    } else {
        stamp(
            stamp_each(cells, width, height, entries, anchors.drop_last()),
            width,
            height,
            entries,
            anchors.last().0 as int,
            anchors.last().1 as int,
        )
    }
}

/// The number of columns and of rows of a universe made by `new` or `seeded`.
pub const SIZE: u32 = 64;

/// Where the spaceships are placed at construction.
pub open spec fn ship_anchors() -> Seq<(u32, u32)> {
    seq![(0, 0), (24, 8), (48, 16), (8, 24), (32, 32), (56, 40), (16, 48), (40, 56)]
}

/// Where the gliders are placed at construction.
pub open spec fn glider_anchors() -> Seq<(u32, u32)> {
    seq![(40, 0), (0, 8), (24, 16), (48, 24), (8, 32), (32, 40), (56, 48), (16, 56)]
}

/// The first generation grown from `seed`: the spaceships, then the gliders,
/// stamped over it at their anchors.
pub open spec fn initial_generation(seed: Seq<Cell>) -> Seq<Cell> {
    let n = SIZE as int;
    stamp_each(
        stamp_each(seed, n, n, shape(9, 8, space_ship_live()), ship_anchors()),
        n,
        n,
        shape(7, 7, glider_live()),
        glider_anchors(),
    )
}

/// The glyph drawn for a cell.
pub open spec fn glyph(c: Cell) -> char {
    if c == Cell::Alive {
        '\u{25FC}'
    } else {
        '\u{25FB}'
    }
}

/// The text of the first `n` cells: one glyph per cell, with a newline after
/// every `width`-th cell, so that each row of the grid is one line.
pub open spec fn render_cells(cells: Seq<Cell>, width: int, n: nat) -> Seq<char>
    decreases n,
{
    if n == 0 {
        Seq::empty()
    } else {
        let line = render_cells(cells, width, (n - 1) as nat).push(glyph(cells[n - 1]));
        if (n as int) % width == 0 {
            line.push('\n')
        } else {
            line
        }
    }
}

/// The generation `n` ticks after `cells`.
pub open spec fn generation_after(cells: Seq<Cell>, width: int, height: int, n: nat) -> Seq<Cell>
    decreases n,
{
    if n == 0 {
        cells
    } else {
        next_generation(generation_after(cells, width, height, (n - 1) as nat), width, height)
    }
}

/// Grid sizes whose index arithmetic fits in `u32`.
pub open spec fn valid_dimensions(width: u32, height: u32) -> bool {
    &&& 0 < width <= 0x7fff_ffff
    &&& 0 < height <= 0x7fff_ffff
    &&& width as int * height as int <= u32::MAX
}

/// The row-major position of `(row, column)` lies in the grid and gives back
/// its row and column.
pub proof fn lemma_row_major(width: int, height: int, row: int, column: int)
    requires
        0 < width,
        0 <= row < height,
        0 <= column < width,
    ensures
        0 <= row * width + column < width * height,
        (row * width + column) / width == row,
        (row * width + column) % width == column,
{
    assert(0 <= row * width) by (nonlinear_arith)
        requires
            0 <= row,
            0 < width,
    ;
    assert(row * width + column < width * height) by (nonlinear_arith)
        requires
            0 < width,
            0 <= row < height,
            0 <= column < width,
    ;
    lemma_fundamental_div_mod_converse(row * width + column, width, row, column);
}

/// A torus of cells that advances one generation at a time. `cells` holds the
/// current generation; `next` is the buffer that the following generation is
/// written to, and after a tick holds the previous one.
pub struct Universe<G> {
    width: u32,
    height: u32,
    cells: G,
    next: G,
    direction_deltas: Vec<(u32, u32)>,
}

impl<G: Grid> Universe<G> {
    /// The number of columns.
    pub closed spec fn spec_width(&self) -> u32 {
        self.width
    }

    /// The number of rows.
    pub closed spec fn spec_height(&self) -> u32 {
        self.height
    }

    /// The current generation, in row-major order.
    pub closed spec fn current(&self) -> Seq<Cell> {
        self.cells.cells_view()
    }

    /// The other buffer: the previous generation once a tick has run.
    pub closed spec fn previous(&self) -> Seq<Cell> {
        self.next.cells_view()
    }

    /// The universe is well formed: both buffers hold `width * height` cells
    /// and the neighbour deltas are those of its size.
    pub closed spec fn wf(&self) -> bool {
        &&& valid_dimensions(self.width, self.height)
        &&& self.cells.inv()
        &&& self.next.inv()
        &&& self.cells.cells_view().len() == self.width * self.height
        &&& self.next.cells_view().len() == self.width * self.height
        &&& self.direction_deltas@.len() == 8
        &&& forall|k: int|
            0 <= k < 8 ==> (#[trigger] self.direction_deltas@[k].0 as int, self.direction_deltas@[
                k
            ].1 as int) == neighbor_deltas(self.width as int, self.height as int)[k]
    }

    /// An all-dead universe of the given size.
    pub fn with_dimensions(width: u32, height: u32) -> (r: Self)
        requires
            valid_dimensions(width, height),
        ensures
            r.wf(),
            r.spec_width() == width,
            r.spec_height() == height,
            r.current() == all_dead((width * height) as nat),
            r.previous() == all_dead((width * height) as nat),
    {
        let size = (width * height) as usize;
        let up = height - 1;
        let left = width - 1;
        let direction_deltas = vec![
            (1, 0),
            (1, 1),
            (0, 1),
            (left, 1),
            (left, 0),
            (left, up),
            (0, up),
            (1, up),
        ];
        let r = Universe { width, height, cells: G::dead(size), next: G::dead(size), direction_deltas };
        assert(r.wf());
        r
    }

    /// The linear index of `(row, column)`, each wrapped to the grid.
    fn get_index(&self, row: u32, column: u32) -> (r: usize)
        requires
            self.wf(),
        ensures
            r == cell_index(self.width as int, self.height as int, row as int, column as int),
            r < self.width * self.height,
    {
        proof {
            lemma_row_major(self.width as int, self.height as int, (row % self.height) as int, (column % self.width) as int);
        }
        ((row % self.height) * self.width + (column % self.width)) as usize
    }

    /// The current state of the cell at `index`.
    fn get_cell(&self, index: usize) -> (r: Cell)
        requires
            self.wf(),
            index < self.width * self.height,
        ensures
            r == self.current()[index as int],
    {
        self.cells.get(index)
    }

    /// Writes `value` into the current generation at `index`.
    fn set_cell(&mut self, index: usize, value: Cell)
        requires
            old(self).wf(),
            index < old(self).width * old(self).height,
        ensures
            final(self).wf(),
            final(self).width == old(self).width,
            final(self).height == old(self).height,
            final(self).current() == old(self).current().update(index as int, value),
            final(self).previous() == old(self).previous(),
    {
        self.cells.set(index, value);
    }

    /// Stamps `pattern` onto the current generation with its top-left corner
    /// at `(x_base, y_base)`: every entry, dead or alive, overwrites the cell
    /// at its wrapped position.
    pub fn generate_pattern(&mut self, pattern: Pattern, x_base: u32, y_base: u32)
        requires
            old(self).wf(),
            forall|k: int|
                0 <= k < pattern.cells@.len() ==> x_base + #[trigger] pattern.cells@[k].x <= u32::MAX
                    && y_base + pattern.cells@[k].y <= u32::MAX,
        ensures
            final(self).wf(),
            final(self).spec_width() == old(self).spec_width(),
            final(self).spec_height() == old(self).spec_height(),
            final(self).current() == stamp(
                old(self).current(),
                old(self).spec_width() as int,
                old(self).spec_height() as int,
                pattern.cells@,
                x_base as int,
                y_base as int,
            ),
            final(self).previous() == old(self).previous(),
    {
        let ghost (w, h) = (self.width as int, self.height as int);
        let ghost start = self.current();
        let entries = pattern.cells;
        let mut i: usize = 0;
        while i < entries.len()
            invariant
                self.wf(),
                w == self.width,
                h == self.height,
                i <= entries@.len(),
                old(self).width == self.width,
                old(self).height == self.height,
                start == old(self).current(),
                self.previous() == old(self).previous(),
                entries@ == pattern.cells@,
                forall|k: int|
                    0 <= k < entries@.len() ==> x_base + #[trigger] entries@[k].x <= u32::MAX
                        && y_base + entries@[k].y <= u32::MAX,
                self.current() == stamp(start, w, h, entries@.take(i as int), x_base as int, y_base as int),
            decreases entries@.len() - i,
        {
            let pattern_cell = entries[i];
            let x = x_base + pattern_cell.x;
            let y = y_base + pattern_cell.y;
            let index = self.get_index(y, x);
            self.set_cell(index, pattern_cell.cell);
            assert(entries@.take(i + 1).drop_last() =~= entries@.take(i as int));
            i = i + 1;
        }
        assert(entries@.take(i as int) =~= entries@);
    }

    /// Stamps `pattern` at each of the anchors in turn.
    fn stamp_anchors(&mut self, pattern: &Pattern, anchors: &[(u32, u32)])
        requires
            old(self).wf(),
            forall|a: int, k: int|
                0 <= a < anchors@.len() && 0 <= k < pattern.cells@.len() ==> #[trigger] anchors@[a].0
                    + #[trigger] pattern.cells@[k].x <= u32::MAX && anchors@[a].1 + pattern.cells@[k].y
                    <= u32::MAX,
        ensures
            final(self).wf(),
            final(self).spec_width() == old(self).spec_width(),
            final(self).spec_height() == old(self).spec_height(),
            final(self).current() == stamp_each(
                old(self).current(),
                old(self).spec_width() as int,
                old(self).spec_height() as int,
                pattern.cells@,
                anchors@,
            ),
            final(self).previous() == old(self).previous(),
    {
        let ghost (w, h) = (self.width as int, self.height as int);
        let ghost start = self.current();
        let mut i: usize = 0;
        while i < anchors.len()
            invariant
                self.wf(),
                w == self.width,
                h == self.height,
                i <= anchors@.len(),
                old(self).width == self.width,
                old(self).height == self.height,
                start == old(self).current(),
                self.previous() == old(self).previous(),
                forall|a: int, k: int|
                    0 <= a < anchors@.len() && 0 <= k < pattern.cells@.len() ==> #[trigger] anchors@[a].0
                        + #[trigger] pattern.cells@[k].x <= u32::MAX && anchors@[a].1 + pattern.cells@[k].y
                        <= u32::MAX,
                self.current() == stamp_each(start, w, h, pattern.cells@, anchors@.take(i as int)),
            decreases anchors@.len() - i,
        {
            let (x, y) = anchors[i];
            assert(forall|k: int| 0 <= k < pattern.cells@.len() ==> x + #[trigger] pattern.cells@[k].x <= u32::MAX && y + pattern.cells@[k].y <= u32::MAX);
            let copy = Pattern { cells: pattern.cells.clone() };
            self.generate_pattern(copy, x, y);
            assert(anchors@.take(i + 1).drop_last() =~= anchors@.take(i as int));
            i = i + 1;
        }
        assert(anchors@.take(i as int) =~= anchors@);
    }

    /// A universe of `SIZE` by `SIZE` cells whose first generation is `seed`,
    /// in row-major order, with the spaceships and then the gliders stamped
    /// over it at their fixed anchors. The other buffer starts all dead.
    pub fn seeded(seed: &[Cell]) -> (r: Self)
        requires
            seed@.len() == SIZE * SIZE,
        ensures
            r.wf(),
            r.spec_width() == SIZE,
            r.spec_height() == SIZE,
            r.current() == initial_generation(seed@),
            r.previous() == all_dead((SIZE * SIZE) as nat),
    {
        let mut universe = Self::with_dimensions(SIZE, SIZE);
        let mut i: usize = 0;
        while i < seed.len()
            invariant
                universe.wf(),
                universe.width == SIZE,
                universe.height == SIZE,
                seed@.len() == SIZE * SIZE,
                i <= seed@.len(),
                universe.previous() == all_dead((SIZE * SIZE) as nat),
                universe.current().len() == seed@.len(),
                forall|k: int| 0 <= k < i ==> #[trigger] universe.current()[k] == seed@[k],
            decreases seed@.len() - i,
        {
            universe.set_cell(i, seed[i]);
            i = i + 1;
        }
        assert(universe.current() =~= seed@);
        let ships = SpaceShip::new();
        let ship_places = [(0, 0), (24, 8), (48, 16), (8, 24), (32, 32), (56, 40), (16, 48), (40, 56)];
        assert(ship_places@ == ship_anchors());
        universe.stamp_anchors(&ships, &ship_places);
        let gliders = Glider::new();
        let glider_places = [(40, 0), (0, 8), (24, 16), (48, 24), (8, 32), (32, 40), (56, 48), (16, 56)];
        assert(glider_places@ == glider_anchors());
        universe.stamp_anchors(&gliders, &glider_places);
        universe
    }

    /// The number of live neighbours of `(row, column)` in the current
    /// generation.
    fn live_neighbor_count(&self, row: u32, column: u32) -> (r: u8)
        requires
            self.wf(),
            row < self.height,
            column < self.width,
        ensures
            r as int == live_neighbors(self.current(), self.width as int, self.height as int, row as int, column as int),
    {
        let ghost (w, h) = (self.width as int, self.height as int);
        let mut count: u8 = 0;
        let mut k: usize = 0;
        while k < self.direction_deltas.len()
            invariant
                self.wf(),
                row < self.height,
                column < self.width,
                w == self.width,
                h == self.height,
                k <= 8,
                count <= k,
                count as int == live_among(self.current(), w, h, row as int, column as int, k as nat),
            decreases 8 - k,
        {
            let (delta_column, delta_row) = self.direction_deltas[k];
            assert((delta_column as int, delta_row as int) == neighbor_deltas(w, h)[k as int]);
            let neighbor_row = (row + delta_row) % self.height;
            let neighbor_column = (column + delta_column) % self.width;
            let index = self.get_index(neighbor_row, neighbor_column);
            count = count + self.get_cell(index).as_bit();
            k = k + 1;
        }
        count
    }

    /// Advances one generation: every cell of `next` gets the rule applied to
    /// the current generation, then the two buffers swap, so that the old
    /// current buffer becomes the one the following tick writes to.
    pub fn tick(&mut self)
        requires
            old(self).wf(),
        ensures
            final(self).wf(),
            final(self).spec_width() == old(self).spec_width(),
            final(self).spec_height() == old(self).spec_height(),
            final(self).current() == next_generation(
                old(self).current(),
                old(self).spec_width() as int,
                old(self).spec_height() as int,
            ),
            final(self).previous() == old(self).current(),
    {
        let ghost (w, h) = (self.width as int, self.height as int);
        let ghost cur = self.current();
        let ghost target = next_generation(cur, w, h);
        let mut row: u32 = 0;
        while row < self.height
            invariant
                self.wf(),
                w == self.width,
                h == self.height,
                cur == self.current(),
                target == next_generation(cur, w, h),
                row <= self.height,
                forall|i: int| 0 <= i < row * w ==> #[trigger] self.previous()[i] == target[i],
            decreases self.height - row,
        {
            let mut column: u32 = 0;
            while column < self.width
                invariant
                    self.wf(),
                    w == self.width,
                    h == self.height,
                    cur == self.current(),
                    target == next_generation(cur, w, h),
                    row < self.height,
                    column <= self.width,
                    forall|i: int| 0 <= i < row * w + column ==> #[trigger] self.previous()[i] == target[i],
                decreases self.width - column,
            {
                let index = self.get_index(row, column);
                proof {
                    lemma_row_major(w, h, row as int, column as int);
                    lemma_small_mod(row as nat, h as nat);
                    lemma_small_mod(column as nat, w as nat);
                    assert(index == row * w + column);
                }
                let ghost before = self.previous();
                let cell = self.get_cell(index);
                let neighbors = self.live_neighbor_count(row, column);
                let next_cell = cell.next_state(neighbors);
                assert(target[index as int] == next_cell);
                self.next.set(index, next_cell);
                assert(self.previous() == before.update(index as int, next_cell));
                assert forall|i: int| 0 <= i < row * w + column + 1 implies #[trigger] self.previous()[i] == target[i] by {
                    if i < index {
                        assert(before[i] == target[i]);
                    }
                }
                column = column + 1;
            }
            proof {
                assert((row + 1) * w == row * w + w) by (nonlinear_arith);
            }
            row = row + 1;
        }
        proof {
            assert(self.previous() =~= target);
        }
        std::mem::swap(&mut self.cells, &mut self.next);
    }

    /// The current generation as text: `height` lines of `width` glyphs,
    /// a filled square for a live cell and an empty one for a dead cell, each
    /// line ended by a newline.
    pub fn render(&self) -> (r: String)
        requires
            self.wf(),
        ensures
            r@ == render_cells(self.current(), self.spec_width() as int, (self.spec_width() * self.spec_height()) as nat),
    {
        let mut text = String::new();
        let size: usize = self.cells.len();
        let mut i: usize = 0;
        while i < size
            invariant
                self.wf(),
                size == self.width * self.height,
                i <= size,
                text@ == render_cells(self.current(), self.width as int, i as nat),
            decreases size - i,
        {
            let cell = self.get_cell(i);
            let ghost prefix = text@;
            if cell == Cell::Alive {
                text.append("\u{25FC}");
                proof { reveal_strlit("\u{25FC}"); }
            } else {
                text.append("\u{25FB}");
                proof { reveal_strlit("\u{25FB}"); }
            }
            assert(text@ =~= prefix.push(glyph(cell)));
            if (i + 1) % (self.width as usize) == 0 {
                let ghost line = text@;
                text.append("\n");
                proof { reveal_strlit("\n"); }
                assert(text@ =~= line.push('\n'));
            }
            i = i + 1;
        }
        text
    }

    /// The number of columns.
    pub fn width(&self) -> (r: u32)
        ensures
            r == self.spec_width(),
    {
        self.width
    }

    /// The number of rows.
    pub fn height(&self) -> (r: u32)
        ensures
            r == self.spec_height(),
    {
        self.height
    }

    /// Read-only access to the current generation.
    pub fn cells(&self) -> (r: &G)
        ensures
            r.cells_view() == self.current(),
            self.wf() ==> r.inv(),
    {
        &self.cells
    }

    /// Read-only access to the other buffer, which holds the previous
    /// generation once a tick has run.
    pub fn prev(&self) -> (r: &G)
        ensures
            r.cells_view() == self.previous(),
            self.wf() ==> r.inv(),
    {
        &self.next
    }
}

impl Universe<PackedGrid> {
    /// A `SIZE` by `SIZE` universe in packed storage: all dead, with the
    /// spaceships and the gliders stamped at their fixed anchors.
    pub fn new() -> (r: Self)
        ensures
            r.wf(),
            r.spec_width() == SIZE,
            r.spec_height() == SIZE,
            r.current() == initial_generation(all_dead((SIZE * SIZE) as nat)),
            r.previous() == all_dead((SIZE * SIZE) as nat),
    {
        let seed: Vec<Cell> = vec![Cell::Dead; 4096];
        assert(seed@ =~= all_dead((SIZE * SIZE) as nat));
        Self::seeded(seed.as_slice())
    }
}

/// On a torus, the neighbours of the top-left cell include the cells at the
/// other three corners: bottom-right, bottom-left and top-right.
pub proof fn lemma_corner_wrap(width: int, height: int)
    requires
        0 < width,
        0 < height,
    ensures
        neighbors(width, height, 0, 0).contains((height - 1, width - 1)),
        neighbors(width, height, 0, 0).contains((height - 1, 0)),
        neighbors(width, height, 0, 0).contains((0, width - 1)),
{
    let n = neighbors(width, height, 0, 0);
    lemma_small_mod(0, width as nat);
    lemma_small_mod(0, height as nat);
    lemma_small_mod((width - 1) as nat, width as nat);
    lemma_small_mod((height - 1) as nat, height as nat);
    assert(n[5] == (height - 1, width - 1));
    assert(n[6] == (height - 1, 0int));
    assert(n[4] == (0int, width - 1));
}

} // verus!

verus! {

/// Packed and dense storage give the same cells: two universes on the same
/// grid, one packed and one dense, that hold the same generation hold the
/// same generation after any number of ticks, and the same cells after the
/// same write.
pub proof fn lemma_packed_dense_agree(
    packed: Universe<PackedGrid>,
    dense: Universe<DenseGrid>,
    ticks: nat,
    index: int,
    value: Cell,
)
    requires
        packed.wf(),
        dense.wf(),
        packed.spec_width() == dense.spec_width(),
        packed.spec_height() == dense.spec_height(),
        packed.current() == dense.current(),
    ensures
        generation_after(packed.current(), packed.spec_width() as int, packed.spec_height() as int, ticks)
            == generation_after(dense.current(), dense.spec_width() as int, dense.spec_height() as int, ticks),
        packed.current().update(index, value) == dense.current().update(index, value),
{
}

} // verus!
