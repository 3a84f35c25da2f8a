use vstd::prelude::*;
use crate::cell::Cell;
use crate::group::CellGroup;

verus! {

/// `n` dead cells.
pub open spec fn all_dead(n: nat) -> Seq<Cell> {
    Seq::new(n, |i: int| Cell::Dead)
}

/// Storage for the cells of one generation, addressed by a linear index.
/// Its contents are `cells_view()`; `get` and `set` read and write one cell.
pub trait Grid: Sized {
    /// The storage is well formed.
    spec fn inv(&self) -> bool;

    /// The cells held, in order of their index.
    spec fn cells_view(&self) -> Seq<Cell>;

    /// Storage for `n` cells, all dead.
    fn dead(n: usize) -> (r: Self)
        ensures
            r.inv(),
            r.cells_view() == all_dead(n as nat),
    ;

    /// The number of cells held.
    fn len(&self) -> (r: usize)
        requires
            self.inv(),
        ensures
            r == self.cells_view().len(),
    ;

    /// The cell at `index`.
    fn get(&self, index: usize) -> (r: Cell)
        requires
            self.inv(),
            index < self.cells_view().len(),
        ensures
            r == self.cells_view()[index as int],
    ;

    /// Writes `value` at `index` and leaves every other cell as it was.
    fn set(&mut self, index: usize, value: Cell)
        requires
            old(self).inv(),
            index < old(self).cells_view().len(),
        ensures
            final(self).inv(),
            final(self).cells_view() == old(self).cells_view().update(index as int, value),
    ;
}

/// One cell per element.
pub struct DenseGrid {
    cells: Vec<Cell>,
}

impl DenseGrid {
    /// The cells held, in order.
    pub fn as_slice(&self) -> (r: &[Cell])
        ensures
            r@ == self.cells_view(),
    {
        self.cells.as_slice()
    }
}

impl Grid for DenseGrid {
    closed spec fn inv(&self) -> bool {
        true
    }

    closed spec fn cells_view(&self) -> Seq<Cell> {
        self.cells@
    }

    fn dead(n: usize) -> (r: Self) {
        let mut cells: Vec<Cell> = Vec::with_capacity(n);
        let mut i: usize = 0;
        while i < n
            invariant
                i <= n,
                cells@ == all_dead(i as nat),
            decreases n - i,
        {
            cells.push(Cell::Dead);
            i = i + 1;
            assert(cells@ =~= all_dead(i as nat));
        }
        DenseGrid { cells }
    }

    fn len(&self) -> (r: usize) {
        self.cells.len()
    }

    fn get(&self, index: usize) -> (r: Cell) {
        self.cells[index]
    }

    fn set(&mut self, index: usize, value: Cell) {
        self.cells.set(index, value);
    }
}

/// Eight cells per byte: cell `i` is bit `i % 8` of group `i / 8`.
pub struct PackedGrid {
    groups: Vec<CellGroup>,
    len: usize,
}

/// The number of groups of eight that `n` cells take.
pub open spec fn groups_for(n: nat) -> nat {
    if n % 8 == 0 {
        n / 8
    } else {
        n / 8 + 1
    }
}

impl PackedGrid {
    /// The groups held, in order: cell `8 * g + j` is cell `j` of group `g`.
    pub fn as_slice(&self) -> (r: &[CellGroup])
        requires
            self.inv(),
        ensures
            r@.len() == groups_for(self.cells_view().len()),
            forall|g: int, j: u8|
                0 <= g < r@.len() && j < 8 && 8 * g + j < self.cells_view().len() ==> #[trigger] r@[g].cell(j)
                    == self.cells_view()[8 * g + j],
    {
        assert forall|g: int, j: u8|
            0 <= g < self.groups@.len() && j < 8 && 8 * g + j < self.cells_view().len() implies #[trigger] self.groups@[g].cell(j)
                == self.cells_view()[8 * g + j] by {
            let i = 8 * g + j;
            assert(i / 8 == g && i % 8 == j);
        }
        self.groups.as_slice()
    }
}

impl Grid for PackedGrid {
    closed spec fn inv(&self) -> bool {
        self.groups@.len() == groups_for(self.len as nat)
    }

    closed spec fn cells_view(&self) -> Seq<Cell> {
        Seq::new(self.len as nat, |i: int| self.groups@[i / 8].cell((i % 8) as u8))
    }

    fn dead(n: usize) -> (r: Self) {
        let size: usize = n / 8 + if n % 8 > 0 { 1 } else { 0 };
        let mut groups: Vec<CellGroup> = Vec::with_capacity(size);
        let mut i: usize = 0;
        while i < size
            invariant
                i <= size,
                groups@.len() == i,
                forall|k: int, j: u8| 0 <= k < i && j < 8 ==> #[trigger] groups@[k].cell(j) == Cell::Dead,
            decreases size - i,
        {
            groups.push(CellGroup::new());
            i = i + 1;
        }
        let r = PackedGrid { groups, len: n };
        assert(r.cells_view() =~= all_dead(n as nat));
        r
    }

    fn len(&self) -> (r: usize) {
        self.len
    }

    fn get(&self, index: usize) -> (r: Cell) {
        let group_index = index / 8;
        let cell_index = (index - group_index * 8) as u8;
        self.groups[group_index].get(cell_index)
    }

    fn set(&mut self, index: usize, value: Cell) {
        let ghost before = self.cells_view();
        let group_index = index / 8;
        let cell_index = (index - group_index * 8) as u8;
        self.groups[group_index].set(cell_index, value);
        assert(self.cells_view() =~= before.update(index as int, value));
    }
}

} // verus!
