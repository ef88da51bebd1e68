//! The mathematical model of the automaton: the grid as a `Seq<bool>`,
//! row-major with index `row * width + col`, and the transition rule.

use vstd::prelude::*;

verus! {

/// Conway's rule (B3/S23), one cell at a time: an alive cell with fewer than
/// two live neighbors dies, with two or three survives, with more than three
/// dies; a dead cell with exactly three live neighbors is born; every other
/// cell keeps its state.
pub open spec fn transition(alive: bool, live: nat) -> bool {
    if alive && live < 2 {
        false
    } else if alive && (live == 2 || live == 3) {
        true
    } else if alive && live > 3 {
        false
    } else if !alive && live == 3 {
        true
    } else {
        alive
    }
}

/// 1 when the cell at (row, col) of a grid `w` cells wide is alive, else 0.
pub open spec fn live_at(g: Seq<bool>, w: int, row: int, col: int) -> nat {
    if g[row * w + col] {
        1nat
    } else {
        0nat
    }
}

/// The number of live cells among the 8 toroidal neighbors of (row, col):
/// row offsets drawn from {0, 1, h - 1} and column offsets from
/// {0, 1, w - 1}, the (0, 0) pair (the cell itself) left out, each sum
/// reduced modulo the grid dimensions.
pub open spec fn neighbor_count(g: Seq<bool>, w: int, h: int, row: int, col: int) -> nat {
    live_at(g, w, (row + 0) % h, (col + 1) % w)
        + live_at(g, w, (row + 0) % h, (col + (w - 1)) % w)
        + live_at(g, w, (row + 1) % h, (col + 0) % w)
        + live_at(g, w, (row + 1) % h, (col + 1) % w)
        + live_at(g, w, (row + 1) % h, (col + (w - 1)) % w)
        + live_at(g, w, (row + (h - 1)) % h, (col + 0) % w)
        + live_at(g, w, (row + (h - 1)) % h, (col + 1) % w)
        + live_at(g, w, (row + (h - 1)) % h, (col + (w - 1)) % w)
}

/// A grid with the single cell at index `i` flipped.
pub open spec fn toggled(g: Seq<bool>, i: int) -> Seq<bool> {
    g.update(i, !g[i])
}

/// The glyph a cell is rendered as: a filled square when alive, a hollow one
/// when dead.
pub open spec fn glyph(alive: bool) -> char {
    if alive {
        '◼'
    } else {
        '◻'
    }
}

/// One rendered row: `w` glyphs followed by a newline.
pub open spec fn render_row(g: Seq<bool>, w: int, row: int) -> Seq<char> {
    Seq::new(w as nat, |c: int| glyph(g[row * w + c])).push('\n')
}

/// The first `rows` rendered rows, concatenated in order.
pub open spec fn render_grid(g: Seq<bool>, w: int, rows: int) -> Seq<char>
    decreases rows,
{
    if rows <= 0 {
        Seq::empty()
    } else {
        render_grid(g, w, rows - 1) + render_row(g, w, rows - 1)
    }
}

/// Every valid (row, col) maps below `h * w`: row-major indexing stays inside
/// the grid.
pub proof fn lemma_index_in_range(w: int, h: int, row: int, col: int)
    requires
        0 <= row < h,
        0 <= col < w,
    ensures
        0 <= row * w + col < h * w,
{
    assert(0 <= row * w + col < h * w) by (nonlinear_arith)
        requires
            0 <= row < h,
            0 <= col < w,
    ;
}

/// Distinct valid (row, col) pairs map to distinct row-major indices.
pub proof fn lemma_index_injective(w: int, h: int, r1: int, c1: int, r2: int, c2: int)
    requires
        0 <= r1 < h,
        0 <= c1 < w,
        0 <= r2 < h,
        0 <= c2 < w,
        r1 != r2 || c1 != c2,
    ensures
        r1 * w + c1 != r2 * w + c2,
{
    assert(r1 * w + c1 != r2 * w + c2) by (nonlinear_arith)
        requires
            0 <= r1 < h,
            0 <= c1 < w,
            0 <= r2 < h,
            0 <= c2 < w,
            r1 != r2 || c1 != c2,
    ;
}

/// The transition function matches the five-case rule table exactly.
pub proof fn lemma_transition_table()
    ensures
        forall|n: nat| n < 2 ==> !transition(true, n),
        transition(true, 2),
        transition(true, 3),
        forall|n: nat| n > 3 ==> !transition(true, n),
        transition(false, 3),
        forall|n: nat| n != 3 ==> !transition(false, n),
{
}

/// The rendered text of a grid `w` wide and `h` high has exactly `h` lines,
/// each `w` glyphs followed by one newline: line `r` of the output is the
/// rendering of row `r` of the grid.
pub proof fn lemma_render_grid_shape(g: Seq<bool>, w: int, h: int)
    requires
        0 <= w,
        0 <= h,
    ensures
        render_grid(g, w, h).len() == h * (w + 1),
        forall|r: int|
            0 <= r < h ==> render_grid(g, w, h).subrange(r * (w + 1), (r + 1) * (w + 1))
                == render_row(g, w, r),
    decreases h,
{
    if h <= 0 {
        assert(h * (w + 1) == 0) by (nonlinear_arith)
            requires
                h == 0,
        ;
    } else {
        lemma_render_grid_shape(g, w, h - 1);
        let full = render_grid(g, w, h);
        let prefix = render_grid(g, w, h - 1);
        let last = render_row(g, w, h - 1);
        assert((h - 1) * (w + 1) + (w + 1) == h * (w + 1)) by (nonlinear_arith);
        assert(last.len() == w + 1);
        assert(full.len() == h * (w + 1));
        assert forall|r: int|
            0 <= r < h implies full.subrange(r * (w + 1), (r + 1) * (w + 1)) == render_row(
            g,
            w,
            r,
        ) by {
            assert(0 <= r * (w + 1) && r * (w + 1) + (w + 1) == (r + 1) * (w + 1))
                by (nonlinear_arith)
                requires
                    0 <= r,
                    0 <= w,
            ;
            if r < h - 1 {
                assert((r + 1) * (w + 1) <= (h - 1) * (w + 1)) by (nonlinear_arith)
                    requires
                        r + 1 <= h - 1,
                        0 <= w,
                ;
                assert(full.subrange(r * (w + 1), (r + 1) * (w + 1)) =~= prefix.subrange(
                    r * (w + 1),
                    (r + 1) * (w + 1),
                ));
            } else {
                assert(r == h - 1);
                assert(full.subrange(r * (w + 1), (r + 1) * (w + 1)) =~= last);
            }
        }
    }
}

/// Toggling the same cell twice returns the grid to its original state.
pub proof fn lemma_toggle_twice(g: Seq<bool>, i: int)
    requires
        0 <= i < g.len(),
    ensures
        toggled(toggled(g, i), i) == g,
{
    assert(toggled(toggled(g, i), i) =~= g);
}

} // verus!
