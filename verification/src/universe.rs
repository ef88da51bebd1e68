//! The universe: dimensions plus a bit-packed grid, with every operation
//! specified against the sequence model in `model`.

use vstd::prelude::*;
use fixedbitset::FixedBitSet;
use crate::bits::{bits, bitset_clone, bitset_get, bitset_set, bitset_with_capacity};
use crate::model::{
    glyph, lemma_index_in_range, lemma_index_injective, live_at, neighbor_count, render_grid,
    render_row, toggled, transition,
};
use vstd::arithmetic::div_mod::{lemma_mod_bound, lemma_small_mod};
use vstd::string::StringExecFns;

verus! {

pub struct Universe {
    width: u32,
    height: u32,
    cells: FixedBitSet,
}

impl Universe {
    /// The grid's width, as a mathematical integer.
    pub closed spec fn spec_width(self) -> int {
        self.width as int
    }

    /// The grid's height, as a mathematical integer.
    pub closed spec fn spec_height(self) -> int {
        self.height as int
    }

    /// The grid contents: `width * height` booleans, row-major.
    pub closed spec fn grid(self) -> Seq<bool> {
        bits(self.cells)
    }

    /// Well-formedness: the bit set holds exactly one bit per cell, and the
    /// cell count fits the index arithmetic.
    pub open spec fn wf(self) -> bool {
        &&& self.grid().len() == self.spec_width() * self.spec_height()
        &&& self.spec_width() * self.spec_height() <= u32::MAX as int
    }

    /// A fresh universe with the deterministic seed pattern: cell 0 dead,
    /// every later cell `i` alive exactly when `i % 2 == 0` or `i % 7 == 0`.
    pub fn new(width: u32, height: u32) -> (r: Universe)
        requires
            width as int * height as int <= u32::MAX as int,
        ensures
            r.wf(),
            r.spec_width() == width as int,
            r.spec_height() == height as int,
            forall|i: int|
                0 <= i < r.grid().len() ==> r.grid()[i] == (i >= 1 && (i % 2 == 0 || i % 7 == 0)),
    {
        let size = (width * height) as usize;
        let mut cells = bitset_with_capacity(size);
        let mut i: usize = 1;
        while i < size
            invariant
                1 <= i,
                size > 0 ==> i <= size,
                bits(cells).len() == size,
                forall|j: int|
                    0 <= j < i && j < size ==> bits(cells)[j] == (j >= 1 && (j % 2 == 0 || j % 7
                        == 0)),
                forall|j: int| i <= j < size ==> !bits(cells)[j],
            decreases size - i,
        {
            bitset_set(&mut cells, i, i % 2 == 0 || i % 7 == 0);
            i += 1;
        }
        Universe { width, height, cells }
    }

    /// A fresh universe seeded from one boolean draw per cell: cell 0 is
    /// always dead, every later cell `i` takes the value of draw `i`. The
    /// draws come from whatever random source the caller uses.
    pub fn randomize(width: u32, height: u32, draws: &Vec<bool>) -> (r: Universe)
        requires
            width as int * height as int <= u32::MAX as int,
            draws@.len() == width as int * height as int,
        ensures
            r.wf(),
            r.spec_width() == width as int,
            r.spec_height() == height as int,
            forall|i: int| 0 <= i < r.grid().len() ==> r.grid()[i] == (i >= 1 && draws@[i]),
    {
        let size = (width * height) as usize;
        let mut cells = bitset_with_capacity(size);
        let mut i: usize = 1;
        while i < size
            invariant
                1 <= i,
                size > 0 ==> i <= size,
                draws@.len() == size,
                bits(cells).len() == size,
                forall|j: int| 0 <= j < i && j < size ==> bits(cells)[j] == (j >= 1 && draws@[j]),
                forall|j: int| i <= j < size ==> !bits(cells)[j],
            decreases size - i,
        {
            bitset_set(&mut cells, i, draws[i]);
            i += 1;
        }
        Universe { width, height, cells }
    }

    /// The row-major index of a cell: `row * width + col`, always below
    /// `width * height` for a valid coordinate.
    pub fn get_index(&self, row: u32, col: u32) -> (r: usize)
        requires
            self.wf(),
            row < self.spec_height(),
            col < self.spec_width(),
        ensures
            r == row as int * self.spec_width() + col as int,
            r < self.grid().len(),
    {
        proof {
            lemma_index_in_range(self.spec_width(), self.spec_height(), row as int, col as int);
        }
        (row * self.width + col) as usize
    }

    /// The stored width.
    pub fn width(&self) -> (r: u32)
        ensures
            r as int == self.spec_width(),
    {
        self.width
    }

    /// The stored height.
    pub fn height(&self) -> (r: u32)
        ensures
            r as int == self.spec_height(),
    {
        self.height
    }

    /// A read-only view of the packed cell storage, for bulk consumption by
    /// an external renderer.
    pub fn cells(&self) -> (r: &FixedBitSet)
        ensures
            bits(*r) == self.grid(),
    {
        &self.cells
    }

    /// Flips the single cell at (row, column) between alive and dead.
    pub fn toggle_cell(&mut self, row: u32, column: u32)
        requires
            old(self).wf(),
            row < old(self).spec_height(),
            column < old(self).spec_width(),
        ensures
            final(self).wf(),
            final(self).spec_width() == old(self).spec_width(),
            final(self).spec_height() == old(self).spec_height(),
            final(self).grid() == toggled(
                old(self).grid(),
                row as int * old(self).spec_width() + column as int,
            ),
    {
        let idx = self.get_index(row, column);
        let cur = bitset_get(&self.cells, idx);
        bitset_set(&mut self.cells, idx, !cur);
    }

    /// Resets every cell to dead, keeping the dimensions.
    pub fn clear(&mut self)
        requires
            old(self).wf(),
        ensures
            final(self).wf(),
            final(self).spec_width() == old(self).spec_width(),
            final(self).spec_height() == old(self).spec_height(),
            final(self).grid().len() == old(self).grid().len(),
            forall|i: int| 0 <= i < final(self).grid().len() ==> !final(self).grid()[i],
    {
        let size = (self.width * self.height) as usize;
        self.cells = bitset_with_capacity(size);
        let mut i: usize = 0;
        while i < size
            invariant
                i <= size,
                self.spec_width() == old(self).spec_width(),
                self.spec_height() == old(self).spec_height(),
                bits(self.cells).len() == size,
                forall|j: int| 0 <= j < size ==> !bits(self.cells)[j],
            decreases size - i,
        {
            bitset_set(&mut self.cells, i, false);
            i += 1;
        }
    }

    /// 1 when the cell at (row, col) is alive, else 0.
    fn live(&self, row: u32, col: u32) -> (r: u8)
        requires
            self.wf(),
            row < self.spec_height(),
            col < self.spec_width(),
        ensures
            r as nat == live_at(self.grid(), self.spec_width(), row as int, col as int),
            r <= 1,
    {
        let idx = self.get_index(row, col);
        if bitset_get(&self.cells, idx) {
            1
        } else {
            0
        }
    }

    /// Counts the live cells among the 8 toroidal neighbors of (row, col):
    /// always between 0 and 8.
    pub fn count_live_neighbour(&self, row: u32, col: u32) -> (r: u8)
        requires
            self.wf(),
            row < self.spec_height(),
            col < self.spec_width(),
        ensures
            r as nat == neighbor_count(
                self.grid(),
                self.spec_width(),
                self.spec_height(),
                row as int,
                col as int,
            ),
            r <= 8,
    {
        let w = self.width;
        let h = self.height;
        let r0 = row;
        let r1 = ((row as u64 + 1) % (h as u64)) as u32;
        let rh = ((row as u64 + (h as u64 - 1)) % (h as u64)) as u32;
        let c0 = col;
        let c1 = ((col as u64 + 1) % (w as u64)) as u32;
        let cw = ((col as u64 + (w as u64 - 1)) % (w as u64)) as u32;
        proof {
            lemma_small_mod(row as nat, h as nat);
            lemma_small_mod(col as nat, w as nat);
            lemma_mod_bound(row as int + 1, h as int);
            lemma_mod_bound(row as int + (h as int - 1), h as int);
            lemma_mod_bound(col as int + 1, w as int);
            lemma_mod_bound(col as int + (w as int - 1), w as int);
        }
        self.live(r0, c1) + self.live(r0, cw) + self.live(r1, c0) + self.live(r1, c1) + self.live(
            r1,
            cw,
        ) + self.live(rh, c0) + self.live(rh, c1) + self.live(rh, cw)
    }

    /// Advances the universe by one generation: every cell moves to
    /// `transition` of its current state and its live-neighbor count, all
    /// counts taken against the old grid.
    pub fn tick(&mut self)
        requires
            old(self).wf(),
        ensures
            final(self).wf(),
            final(self).spec_width() == old(self).spec_width(),
            final(self).spec_height() == old(self).spec_height(),
            final(self).grid().len() == old(self).grid().len(),
            forall|r: int, c: int|
                0 <= r < old(self).spec_height() && 0 <= c < old(self).spec_width()
                    ==> final(self).grid()[r * old(self).spec_width() + c] == transition(
                    old(self).grid()[r * old(self).spec_width() + c],
                    neighbor_count(
                        old(self).grid(),
                        old(self).spec_width(),
                        old(self).spec_height(),
                        r,
                        c,
                    ),
                ),
    {
        let w = self.width;
        let h = self.height;
        let ghost g0 = self.grid();
        let mut next_gen = bitset_clone(&self.cells);
        let mut row: u32 = 0;
        while row < h
            invariant
                row <= h,
                *self == *old(self),
                self.wf(),
                w == self.spec_width(),
                h == self.spec_height(),
                g0 == self.grid(),
                bits(next_gen).len() == g0.len(),
                forall|r: int, c: int|
                    0 <= r < row && 0 <= c < w ==> bits(next_gen)[r * w as int + c] == transition(
                        g0[r * w as int + c],
                        neighbor_count(g0, w as int, h as int, r, c),
                    ),
            decreases h - row,
        {
            let mut col: u32 = 0;
            while col < w
                invariant
                    row < h,
                    col <= w,
                    *self == *old(self),
                    self.wf(),
                    w == self.spec_width(),
                    h == self.spec_height(),
                    g0 == self.grid(),
                    bits(next_gen).len() == g0.len(),
                    forall|r: int, c: int|
                        0 <= r < h && 0 <= c < w && (r < row || (r == row && c < col)) ==> bits(
                            next_gen,
                        )[r * w as int + c] == transition(
                            g0[r * w as int + c],
                            neighbor_count(g0, w as int, h as int, r, c),
                        ),
                decreases w - col,
            {
                let idx = self.get_index(row, col);
                let cell = bitset_get(&self.cells, idx);
                let live_count = self.count_live_neighbour(row, col);
                let next_cell = if cell && live_count < 2 {
                    false
                } else if cell && (live_count == 2 || live_count == 3) {
                    true
                } else if cell && live_count > 3 {
                    false
                } else if !cell && live_count == 3 {
                    true
                } else {
                    cell
                };
                let ghost prev = bits(next_gen);
                bitset_set(&mut next_gen, idx, next_cell);
                proof {
                    assert forall|r: int, c: int|
                        0 <= r < h && 0 <= c < w && (r < row || (r == row && c < col + 1))
                            implies bits(next_gen)[r * w as int + c] == transition(
                        g0[r * w as int + c],
                        neighbor_count(g0, w as int, h as int, r, c),
                    ) by {
                        lemma_index_in_range(w as int, h as int, r, c);
                        if r != row || c != col {
                            lemma_index_injective(w as int, h as int, r, c, row as int, col as int);
                            assert(bits(next_gen)[r * w as int + c] == prev[r * w as int + c]);
                        }
                    }
                }
                col += 1;
            }
            row += 1;
        }
        self.cells = next_gen;
    }

    /// A text snapshot of the grid: one line per row, a hollow square for a
    /// dead cell, a filled square for a live one, every row (the last
    /// included) terminated by a newline.
    pub fn render(&self) -> (r: String)
        requires
            self.wf(),
        ensures
            r@ == render_grid(self.grid(), self.spec_width(), self.spec_height()),
    {
        let w = self.width;
        let h = self.height;
        let mut out = String::new();
        proof {
            reveal_strlit("◼");
            reveal_strlit("◻");
            reveal_strlit("\n");
        }
        let mut row: u32 = 0;
        while row < h
            invariant
                row <= h,
                self.wf(),
                w == self.spec_width(),
                h == self.spec_height(),
                out@ == render_grid(self.grid(), w as int, row as int),
            decreases h - row,
        {
            let ghost row_start = out@;
            let mut col: u32 = 0;
            while col < w
                invariant
                    row < h,
                    col <= w,
                    self.wf(),
                    w == self.spec_width(),
                    h == self.spec_height(),
                    row_start == render_grid(self.grid(), w as int, row as int),
                    out@ == row_start + Seq::new(
                        col as nat,
                        (|c: int| glyph(self.grid()[row as int * w as int + c])),
                    ),
                decreases w - col,
            {
                let idx = self.get_index(row, col);
                if bitset_get(&self.cells, idx) {
                    out.append("◼");
                } else {
                    out.append("◻");
                }
                proof {
                    reveal_strlit("◼");
                    reveal_strlit("◻");
                    assert(out@ =~= row_start + Seq::new(
                        (col + 1) as nat,
                        (|c: int| glyph(self.grid()[row as int * w as int + c])),
                    ));
                }
                col += 1;
            }
            out.append("\n");
            proof {
                reveal_strlit("\n");
                assert(out@ =~= render_grid(self.grid(), w as int, row as int) + render_row(
                    self.grid(),
                    w as int,
                    row as int,
                ));
            }
            row += 1;
        }
        out
    }
}

} // verus!
