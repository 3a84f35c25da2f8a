use vstd::prelude::*;
use vstd::arithmetic::div_mod::{
    lemma_add_mod_noop,
    lemma_fundamental_div_mod,
    lemma_fundamental_div_mod_converse,
    lemma_mod_bound,
    lemma_small_mod,
    lemma_sub_mod_noop,
};
use crate::cell::Cell;
use crate::universe::{generation_after, lemma_row_major, live_at, live_neighbors, live_among, next_generation, neighbors};

verus! {

/// `(row, column)` lies in the 2 by 2 block whose top-left cell is
/// `(top, left)`, on a torus of the given size.
pub open spec fn in_block(width: int, height: int, top: int, left: int, row: int, column: int) -> bool {
    (row - top) % height < 2 && (column - left) % width < 2
}

/// A `width` by `height` generation, dead but for the 2 by 2 block whose
/// top-left cell is `(top, left)`.
pub open spec fn block(width: int, height: int, top: int, left: int) -> Seq<Cell> {
    Seq::new(
        (width * height) as nat,
        |i: int|
            if in_block(width, height, top, left, i / width, i % width) {
                Cell::Alive
            } else {
                Cell::Dead
            },
    )
}

/// Which offsets from `a` land on 0 or 1, modulo `m`.
proof fn lemma_window(a: int, m: int)
    requires
        4 <= m,
        0 <= a < m,
    ensures
        a % m < 2 <==> a < 2,
        (a + 1) % m < 2 <==> (a == 0 || a == m - 1),
        (a + (m - 1)) % m < 2 <==> (a == 1 || a == 2),
{
    lemma_small_mod(a as nat, m as nat);
    if a + 1 < m {
        lemma_small_mod((a + 1) as nat, m as nat);
    } else {
        lemma_fundamental_div_mod_converse(a + 1, m, 1, 0);
    }
    if a >= 1 {
        lemma_fundamental_div_mod_converse(a + (m - 1), m, 1, a - 1);
    } else {
        lemma_small_mod((m - 1) as nat, m as nat);
    }
}

/// The neighbour of `(row, column)` at offset `(d_row, d_column)` is alive in
/// the block exactly when both offsets, taken from the block's corner, land
/// in the block.
proof fn lemma_neighbor_in_block(
    width: int,
    height: int,
    top: int,
    left: int,
    row: int,
    column: int,
    d_row: int,
    d_column: int,
)
    requires
        4 <= width,
        4 <= height,
        0 <= top < height,
        0 <= left < width,
        0 <= row < height,
        0 <= column < width,
        0 <= d_row < height,
        0 <= d_column < width,
    ensures
        live_at(block(width, height, top, left), width, height, (row + d_row) % height, (column + d_column) % width)
            == if ((row - top) % height + d_row) % height < 2 && ((column - left) % width + d_column) % width < 2 {
            1int
        } else {
            0int
        },
{
    let (w, h) = (width, height);
    let nr = (row + d_row) % h;
    let nc = (column + d_column) % w;
    lemma_mod_bound(row + d_row, h);
    lemma_mod_bound(column + d_column, w);
    lemma_small_mod(nr as nat, h as nat);
    lemma_small_mod(nc as nat, w as nat);
    lemma_row_major(w, h, nr, nc);
    lemma_small_mod(top as nat, h as nat);
    lemma_small_mod(left as nat, w as nat);
    lemma_small_mod(d_row as nat, h as nat);
    lemma_small_mod(d_column as nat, w as nat);
    lemma_sub_mod_noop(row + d_row, top, h);
    lemma_sub_mod_noop(column + d_column, left, w);
    lemma_add_mod_noop(row - top, d_row, h);
    lemma_add_mod_noop(column - left, d_column, w);
    assert((nr - top) % h == ((row - top) % h + d_row) % h);
    assert((nc - left) % w == ((column - left) % w + d_column) % w);
}

/// One tick leaves the block as it is.
proof fn lemma_block_one_tick(width: int, height: int, top: int, left: int)
    requires
        4 <= width,
        4 <= height,
        0 <= top < height,
        0 <= left < width,
    ensures
        next_generation(block(width, height, top, left), width, height) == block(width, height, top, left),
{
    let (w, h) = (width, height);
    let b = block(w, h, top, left);
    assert forall|i: int| 0 <= i < w * h implies #[trigger] next_generation(b, w, h)[i] == b[i] by {
        let r = i / w;
        let c = i % w;
        lemma_fundamental_div_mod(i, w);
        lemma_mod_bound(i, w);
        assert(0 <= r < h) by (nonlinear_arith)
            requires
                0 <= i < w * h,
                i == w * r + c,
                0 <= c < w,
        ;
        let a = (r - top) % h;
        let e = (c - left) % w;
        lemma_mod_bound(r - top, h);
        lemma_mod_bound(c - left, w);
        lemma_window(a, h);
        lemma_window(e, w);
        lemma_neighbor_in_block(w, h, top, left, r, c, 0, 1);
        lemma_neighbor_in_block(w, h, top, left, r, c, 1, 1);
        lemma_neighbor_in_block(w, h, top, left, r, c, 1, 0);
        lemma_neighbor_in_block(w, h, top, left, r, c, 1, w - 1);
        lemma_neighbor_in_block(w, h, top, left, r, c, 0, w - 1);
        lemma_neighbor_in_block(w, h, top, left, r, c, h - 1, w - 1);
        lemma_neighbor_in_block(w, h, top, left, r, c, h - 1, 0);
        lemma_neighbor_in_block(w, h, top, left, r, c, h - 1, 1);
        let n = neighbors(w, h, r, c);
        assert(n[0] == (r % h, (c + 1) % w));
        assert(n[1] == ((r + 1) % h, (c + 1) % w));
        assert(n[2] == ((r + 1) % h, c % w));
        assert(n[3] == ((r + 1) % h, (c + (w - 1)) % w));
        assert(n[4] == (r % h, (c + (w - 1)) % w));
        assert(n[5] == ((r + (h - 1)) % h, (c + (w - 1)) % w));
        assert(n[6] == ((r + (h - 1)) % h, c % w));
        assert(n[7] == ((r + (h - 1)) % h, (c + 1) % w));
        reveal_with_fuel(live_among, 9);
        assert(b[i] == (if a < 2 && e < 2 { Cell::Alive } else { Cell::Dead }));
    }
    assert(next_generation(b, w, h) =~= b);
}

/// A 2 by 2 block of live cells, alone on a torus of at least 4 by 4 cells,
/// is a still life: it is unchanged after any number of ticks.
pub proof fn lemma_block_still_life(width: int, height: int, top: int, left: int, ticks: nat)
    requires
        4 <= width,
        4 <= height,
        0 <= top < height,
        0 <= left < width,
    ensures
        generation_after(block(width, height, top, left), width, height, ticks) == block(width, height, top, left),
    decreases ticks,
{
    if ticks > 0 {
        lemma_block_still_life(width, height, top, left, (ticks - 1) as nat);
        lemma_block_one_tick(width, height, top, left);
    }
}

} // verus!
