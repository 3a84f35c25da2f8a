use vstd::prelude::*;
use crate::cell::Cell;

verus! {

/// Whether bit `i` of `b` is set.
pub open spec fn bit_set(b: u8, i: u8) -> bool {
    (b >> i) & 1u8 == 1u8
}

/// The cell that bit `i` of `b` encodes.
pub open spec fn cell_of_bit(b: u8, i: u8) -> Cell {
    if bit_set(b, i) {
        Cell::Alive
    } else {
        Cell::Dead
    }
}

/// Eight cells held as the bits of one byte, the least significant bit first.
pub struct CellGroup {
    cells: u8,
}

impl CellGroup {
    /// The cell at position `i` of the group.
    pub closed spec fn cell(&self, i: u8) -> Cell {
        cell_of_bit(self.cells, i)
    }

    /// A group of eight dead cells.
    pub fn new() -> (r: CellGroup)
        ensures
            forall|i: u8| i < 8 ==> #[trigger] r.cell(i) == Cell::Dead,
    {
        let r = CellGroup { cells: 0 };
        assert forall|i: u8| i < 8 implies #[trigger] r.cell(i) == Cell::Dead by {
            assert((0u8 >> i) & 1u8 == 0u8) by (bit_vector);
        }
        r
    }

    /// The cell at position `index`, which must be below 8.
    pub fn get(&self, index: u8) -> (r: Cell)
        requires
            index < 8,
        ensures
            r == self.cell(index),
    {
        if (self.cells >> index) & 1 == 1 {
            Cell::Alive
        } else {
            Cell::Dead
        }
    }

    /// Writes `value` at position `index`, which must be below 8, by flipping
    /// the bit only where the new value differs from the stored one; the
    /// other seven cells keep their values.
    pub fn set(&mut self, index: u8, value: Cell)
        requires
            index < 8,
        ensures
            final(self).cell(index) == value,
            forall|j: u8| j < 8 && j != index ==> #[trigger] final(self).cell(j) == old(self).cell(j),
    {
        let b = self.cells;
        let current = self.get(index).as_bit();
        let wanted = value.as_bit();
        let flip: u8 = current ^ wanted;
        let nb: u8 = b ^ (flip << index);
        proof {
            assert(flip <= 1 && (flip == 0 <==> current == wanted)) by (bit_vector)
                requires
                    current <= 1,
                    wanted <= 1,
                    flip == current ^ wanted,
            ;
            lemma_flip(b, index, flip);
            if value == Cell::Alive {
                assert(flip == (if bit_set(b, index) { 0u8 } else { 1u8 }));
            } else {
                assert(flip == (if bit_set(b, index) { 1u8 } else { 0u8 }));
            }
        }
        self.cells = nb;
    }
}

proof fn lemma_flip(b: u8, index: u8, flip: u8)
    requires
        index < 8,
        flip <= 1,
    ensures
        flip == 0 ==> bit_set(b ^ (flip << index), index) == bit_set(b, index),
        flip == 1 ==> bit_set(b ^ (flip << index), index) == !bit_set(b, index),
        forall|j: u8| j < 8 && j != index ==> #[trigger] bit_set(b ^ (flip << index), j) == bit_set(b, j),
{
    assert(flip == 0 ==> ((b ^ (flip << index)) >> index) & 1u8 == (b >> index) & 1u8) by (bit_vector)
        requires index < 8, flip <= 1;
    assert(flip == 1 ==> (((b ^ (flip << index)) >> index) & 1u8 == 1u8) == !((b >> index) & 1u8 == 1u8)) by (bit_vector)
        requires index < 8, flip <= 1;
    assert forall|j: u8| j < 8 && j != index implies #[trigger] bit_set(b ^ (flip << index), j) == bit_set(b, j) by {
        assert(((b ^ (flip << index)) >> j) & 1u8 == (b >> j) & 1u8) by (bit_vector)
            requires index < 8, flip <= 1, j < 8, j != index;
    }
}

} // verus!
