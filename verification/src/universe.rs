//! The `Universe`: a fixed-size toroidal Life grid with packed bit storage,
//! per-generation transition under a forward or reverse rule table, and a
//! small mutation interface (toggle, bulk set, spaceship stamp).

use vstd::prelude::*;
use fixedbitset::FixedBitSet;
use crate::bits::bits_of;
use crate::bits::bitset_with_capacity;
use crate::bits::bitset_get;
use crate::bits::bitset_set;
use crate::bits::bitset_clone;
use crate::bits::bitset_blocks;
use crate::rules::cell_index;
use crate::rules::lemma_cell_index_bounds;
use crate::rules::lemma_cell_index_inverse;
use crate::rules::wrap_add;
use crate::rules::neighbor_count;
use crate::rules::next_state;
use crate::rules::step;
use crate::rules::toggled;
use crate::rules::covered;
use crate::rules::lemma_covered_push;
use crate::rules::bulk_set;
use crate::rules::stamp_ship;

verus! {

/// A grid of `width * height` cells, one bit per cell, row-major: the cell at
/// `row`, `col` is bit `row * width + col` of `cells`.
pub struct Universe {
    pub width: u32,
    pub height: u32,
    pub cells: FixedBitSet,
}

impl Universe {
    /// The grid contents as a sequence of cell states, row-major.
    pub open spec fn grid(self) -> Seq<bool> {
        bits_of(self.cells)
    }

    /// Well-formedness: the bit array holds exactly `width * height` bits,
    /// and that product fits the `u32` index arithmetic.
    pub open spec fn wf(self) -> bool {
        &&& self.width * self.height <= u32::MAX
        &&& self.grid().len() == self.width * self.height
    }

    /// The edge length used when a dimension is not given.
    pub open spec fn dim_or_default(d: Option<u32>) -> u32 {
        match d {
            Some(v) => v,
            None => 64,
        }
    }

    /// Create a grid of the given (or default 64x64) dimensions, with cell `k`
    /// seeded live exactly when `seed[k]`. The caller supplies the seed bits;
    /// drawing them from a random source is the host's business.
    pub fn new(width: Option<u32>, height: Option<u32>, seed: &Vec<bool>) -> (r: Universe)
        requires
            Self::dim_or_default(width) * Self::dim_or_default(height) <= u32::MAX,
            seed@.len() == Self::dim_or_default(width) * Self::dim_or_default(height),
        ensures
            r.wf(),
            r.width == Self::dim_or_default(width),
            r.height == Self::dim_or_default(height),
            r.grid() == seed@,
    {
        let w = match width {
            Some(v) => v,
            None => 64,
        };
        let h = match height {
            Some(v) => v,
            None => 64,
        };
        let size = (w * h) as usize;
        let mut cells = bitset_with_capacity(size);
        let mut i: usize = 0;
        while i < size
            invariant
                i <= size,
                seed@.len() == size,
                bits_of(cells).len() == size,
                forall|k: int| 0 <= k < i ==> bits_of(cells)[k] == seed@[k],
                forall|k: int| i <= k < size ==> !bits_of(cells)[k],
            decreases size - i,
        {
            bitset_set(&mut cells, i, seed[i]);
            i = i + 1;
        }
        let r = Universe { width: w, height: h, cells };
        proof {
            assert(r.grid() =~= seed@);
        }
        r
    }

    pub fn width(&self) -> (w: u32)
        ensures
            w == self.width,
    {
        self.width
    }

    pub fn height(&self) -> (h: u32)
        ensures
            h == self.height,
    {
        self.height
    }

    /// Set the width of the universe. Resets all cells to the dead state.
    pub fn set_width(&mut self, width: u32)
        requires
            width * old(self).height <= u32::MAX,
        ensures
            final(self).wf(),
            final(self).width == width,
            final(self).height == old(self).height,
            forall|k: int| 0 <= k < final(self).grid().len() ==> !final(self).grid()[k],
    {
        self.width = width;
        let size = (width * self.height) as usize;
        self.cells = bitset_with_capacity(size);
    }

    /// Set the height of the universe. Resets all cells to the dead state.
    pub fn set_height(&mut self, height: u32)
        requires
            old(self).width * height <= u32::MAX,
        ensures
            final(self).wf(),
            final(self).width == old(self).width,
            final(self).height == height,
            forall|k: int| 0 <= k < final(self).grid().len() ==> !final(self).grid()[k],
    {
        self.height = height;
        let size = (self.width * height) as usize;
        self.cells = bitset_with_capacity(size);
    }

    /// Linear index of the cell at `row`, `column`.
    fn get_index(&self, row: u32, column: u32) -> (idx: usize)
        requires
            self.wf(),
            row < self.height,
            column < self.width,
        ensures
            idx == cell_index(self.width as nat, row as nat, column as nat),
            idx < self.grid().len(),
    {
        proof {
            lemma_cell_index_bounds(
                self.width as nat,
                self.height as nat,
                row as nat,
                column as nat,
            );
        }
        (row * self.width + column) as usize
    }

    /// Flip the addressed cell, except that with `live_only` set the cell is
    /// forced live instead of ever being turned off.
    pub fn toggle_cell(&mut self, row: u32, column: u32, live_only: bool)
        requires
            old(self).wf(),
            row < old(self).height,
            column < old(self).width,
        ensures
            final(self).wf(),
            final(self).width == old(self).width,
            final(self).height == old(self).height,
            final(self).grid() == old(self).grid().update(
                cell_index(old(self).width as nat, row as nat, column as nat),
                toggled(
                    old(self).grid()[cell_index(old(self).width as nat, row as nat, column as nat)],
                    live_only,
                ),
            ),
    {
        let idx = self.get_index(row, column);
        let cell = bitset_get(&self.cells, idx);
        bitset_set(&mut self.cells, idx, !cell || live_only);
    }

    /// Number of live cells among the 8 toroidally wrapped Moore neighbors of
    /// `row`, `column`. A dimension of 1 wraps to itself, so the same position
    /// may be counted once per offset.
    pub fn live_neighbor_count(&self, row: u32, column: u32) -> (count: u8)
        requires
            self.wf(),
            row < self.height,
            column < self.width,
        ensures
            count as nat == neighbor_count(
                self.grid(),
                self.width as nat,
                self.height as nat,
                row as nat,
                column as nat,
            ),
            count <= 8,
    {
        let w = self.width;
        let h = self.height;
        let up = (((row as u64) + (h as u64) - 1) % (h as u64)) as u32;
        let down = (((row as u64) + 1) % (h as u64)) as u32;
        let left = (((column as u64) + (w as u64) - 1) % (w as u64)) as u32;
        let right = (((column as u64) + 1) % (w as u64)) as u32;
        proof {
            assert(up as nat == wrap_add(row as nat, (h - 1) as nat, h as nat));
            assert(down as nat == wrap_add(row as nat, 1, h as nat));
            assert(left as nat == wrap_add(column as nat, (w - 1) as nat, w as nat));
            assert(right as nat == wrap_add(column as nat, 1, w as nat));
        }
        let mut count: u8 = 0;
        if bitset_get(&self.cells, self.get_index(up, left)) {
            count = count + 1;
        }
        if bitset_get(&self.cells, self.get_index(up, column)) {
            count = count + 1;
        }
        if bitset_get(&self.cells, self.get_index(up, right)) {
            count = count + 1;
        }
        if bitset_get(&self.cells, self.get_index(row, left)) {
            count = count + 1;
        }
        if bitset_get(&self.cells, self.get_index(row, right)) {
            count = count + 1;
        }
        if bitset_get(&self.cells, self.get_index(down, left)) {
            count = count + 1;
        }
        if bitset_get(&self.cells, self.get_index(down, column)) {
            count = count + 1;
        }
        if bitset_get(&self.cells, self.get_index(down, right)) {
            count = count + 1;
        }
        count
    }

    /// Compute one generation into a fresh copy of the grid, then replace the
    /// grid with it: every cell is rewritten from its prior state and prior
    /// neighbor count under the rule table selected by `forward`, with all
    /// neighbor reads taken from the pre-tick grid.
    pub fn tick(&mut self, forward: bool)
        requires
            old(self).wf(),
        ensures
            final(self).wf(),
            final(self).width == old(self).width,
            final(self).height == old(self).height,
            final(self).grid() == step(
                old(self).grid(),
                old(self).width as nat,
                old(self).height as nat,
                forward,
            ),
    {
        let ghost g0 = self.grid();
        let ghost w0 = self.width;
        let ghost h0 = self.height;
        let ghost stepped = step(g0, w0 as nat, h0 as nat, forward);
        let mut next = bitset_clone(&self.cells);
        let mut row: u32 = 0;
        while row < self.height
            invariant
                self.wf(),
                self.width == w0,
                self.height == h0,
                self.grid() == g0,
                row <= h0,
                row * w0 <= g0.len(),
                stepped == step(g0, w0 as nat, h0 as nat, forward),
                stepped.len() == g0.len(),
                bits_of(next).len() == g0.len(),
                forall|k: int| 0 <= k < row * w0 ==> bits_of(next)[k] == stepped[k],
                forall|k: int| row * w0 <= k < g0.len() ==> bits_of(next)[k] == g0[k],
            decreases h0 - row,
        {
            let mut col: u32 = 0;
            while col < self.width
                invariant
                    self.wf(),
                    self.width == w0,
                    self.height == h0,
                    self.grid() == g0,
                    row < h0,
                    col <= w0,
                    stepped == step(g0, w0 as nat, h0 as nat, forward),
                    stepped.len() == g0.len(),
                    bits_of(next).len() == g0.len(),
                    row * w0 + col <= g0.len(),
                    forall|k: int| 0 <= k < row * w0 + col ==> bits_of(next)[k] == stepped[k],
                    forall|k: int| row * w0 + col <= k < g0.len() ==> bits_of(next)[k] == g0[k],
                decreases w0 - col,
            {
                let idx = self.get_index(row, col);
                let cell = bitset_get(&self.cells, idx);
                let n = self.live_neighbor_count(row, col);
                let new_bit = if forward {
                    if cell {
                        n == 2 || n == 3
                    } else {
                        n == 3
                    }
                } else {
                    if cell {
                        !(n == 2 || n == 3)
                    } else {
                        n != 3
                    }
                };
                bitset_set(&mut next, idx, new_bit);
                proof {
                    lemma_cell_index_inverse(w0 as nat, h0 as nat, row as nat, col as nat);
                    assert(idx as int == cell_index(w0 as nat, row as nat, col as nat));
                    assert(stepped[idx as int] == next_state(
                        g0[idx as int],
                        neighbor_count(g0, w0 as nat, h0 as nat, row as nat, col as nat),
                        forward,
                    ));
                    assert(new_bit == stepped[idx as int]);
                    assert(row * w0 + (col + 1) <= g0.len()) by {
                        lemma_cell_index_bounds(w0 as nat, h0 as nat, row as nat, col as nat);
                    }
                }
                col = col + 1;
            }
            proof {
                assert((row + 1) * w0 == row * w0 + w0) by (nonlinear_arith);
            }
            row = row + 1;
        }
        proof {
            assert(h0 * w0 == w0 * h0);
            assert(bits_of(next) =~= stepped);
        }
        self.cells = next;
    }

    /// Stamp the five-cell spaceship pattern with its anchor at `row`, `col`:
    /// the cells at `(row, col)`, `(row+1, col+1)`, `(row-1, col+2)`,
    /// `(row, col+2)` and `(row+1, col+2)` become live, others keep their
    /// state. The caller leaves a one-cell margin above and two columns to the
    /// right so every pattern cell is on the grid.
    pub fn spawn_spaceship(&mut self, row: u32, col: u32)
        requires
            old(self).wf(),
            1 <= row,
            row + 1 < old(self).height,
            col + 2 < old(self).width,
        ensures
            final(self).wf(),
            final(self).width == old(self).width,
            final(self).height == old(self).height,
            final(self).grid() == stamp_ship(
                old(self).grid(),
                old(self).width as nat,
                row as nat,
                col as nat,
            ),
    {
        let ghost g0 = self.grid();
        let ghost w0 = self.width;
        let i0 = self.get_index(row, col);
        let i1 = self.get_index(row + 1, col + 1);
        let i2 = self.get_index(row - 1, col + 2);
        let i3 = self.get_index(row, col + 2);
        let i4 = self.get_index(row + 1, col + 2);
        bitset_set(&mut self.cells, i0, true);
        bitset_set(&mut self.cells, i1, true);
        bitset_set(&mut self.cells, i2, true);
        bitset_set(&mut self.cells, i3, true);
        bitset_set(&mut self.cells, i4, true);
        proof {
            assert(self.grid() =~= stamp_ship(g0, w0 as nat, row as nat, col as nat));
        }
    }

    /// Set every cell addressed by `list` live. Duplicates are idempotent and
    /// no other cell changes.
    pub fn set_cells(&mut self, list: &[(u32, u32)])
        requires
            old(self).wf(),
            forall|j: int| 0 <= j < list@.len() ==>
                list@[j].0 < old(self).height && list@[j].1 < old(self).width,
        ensures
            final(self).wf(),
            final(self).width == old(self).width,
            final(self).height == old(self).height,
            final(self).grid() == bulk_set(old(self).grid(), old(self).width as nat, list@),
    {
        let ghost g0 = self.grid();
        let ghost w0 = self.width;
        let ghost h0 = self.height;
        let mut j: usize = 0;
        while j < list.len()
            invariant
                self.wf(),
                self.width == w0,
                self.height == h0,
                j <= list@.len(),
                forall|jj: int| 0 <= jj < list@.len() ==>
                    list@[jj].0 < h0 && list@[jj].1 < w0,
                self.grid().len() == g0.len(),
                forall|k: int| 0 <= k < g0.len() ==>
                    self.grid()[k] == (g0[k] || covered(list@.take(j as int), w0 as nat, k)),
            decreases list@.len() - j,
        {
            let (row, col) = list[j];
            let idx = self.get_index(row, col);
            let ghost before = self.grid();
            proof {
                assert(forall|k: int| 0 <= k < g0.len() ==>
                    before[k] == (g0[k] || covered(list@.take(j as int), w0 as nat, k)));
            }
            bitset_set(&mut self.cells, idx, true);
            proof {
                let psj = list@.take(j as int);
                let psj1 = list@.take(j as int + 1);
                assert(psj1 =~= psj.push(list@[j as int]));
                assert(idx as int == cell_index(
                    w0 as nat,
                    list@[j as int].0 as nat,
                    list@[j as int].1 as nat,
                ));
                assert forall|k: int| 0 <= k < g0.len() implies
                    self.grid()[k] == (g0[k] || covered(psj1, w0 as nat, k)) by {
                    lemma_covered_push(psj, list@[j as int], w0 as nat, k);
                    assert(self.grid()[k] == if k == idx as int { true } else { before[k] });
                    assert(before[k] == (g0[k] || covered(psj, w0 as nat, k)));
                }
            }
            j = j + 1;
        }
        proof {
            assert(list@.take(list@.len() as int) =~= list@);
            assert(self.grid() =~= bulk_set(g0, w0 as nat, list@));
        }
    }

    /// Read-only view of the packed cell array.
    pub fn get_cells(&self) -> (r: &FixedBitSet)
        ensures
            bits_of(*r) == self.grid(),
    {
        &self.cells
    }

    /// The packed cell buffer, exported as its `u32` blocks: one block per 32
    /// cells, with cell `k` at bit `k % 32` of block `k / 32`. The copy is a
    /// snapshot; later mutations of the grid do not show through it.
    pub fn cells(&self) -> (r: Vec<u32>)
        ensures
            r@.len() == (self.grid().len() + 31) / 32,
            forall|k: int| 0 <= k < self.grid().len() ==>
                (self.grid()[k] == ((r@[k / 32] >> ((k % 32) as u32)) & 1u32 == 1u32)),
    {
        bitset_blocks(&self.cells)
    }
}

} // verus!
