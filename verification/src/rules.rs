//! The mathematical model of the automaton: row-major cell addressing,
//! toroidal Moore-neighbor counting, the forward and reverse rule tables, and
//! the laws the library guarantees about them.

use vstd::prelude::*;
use vstd::arithmetic::div_mod::lemma_fundamental_div_mod_converse;

verus! {

/// Row-major linear index of the cell at `row`, `col` in a grid `w` columns wide.
pub open spec fn cell_index(w: nat, row: nat, col: nat) -> int {
    (row * w + col) as int
}

pub proof fn lemma_cell_index_bounds(w: nat, h: nat, row: nat, col: nat)
    requires
        row < h,
        col < w,
    ensures
        0 <= cell_index(w, row, col) < w * h,
{
    assert(row * w + col < w * h) by (nonlinear_arith)
        requires row < h, col < w;
}

pub proof fn lemma_cell_index_inverse(w: nat, h: nat, row: nat, col: nat)
    requires
        row < h,
        col < w,
    ensures
        cell_index(w, row, col) / (w as int) == row,
        cell_index(w, row, col) % (w as int) == col,
{
    lemma_fundamental_div_mod_converse(
        (row * w + col) as int,
        w as int,
        row as int,
        col as int,
    );
}

/// Toroidal coordinate step: move `d` places from `x` on a cycle of length `m`.
pub open spec fn wrap_add(x: nat, d: nat, m: nat) -> nat
    recommends
        0 < m,
{
    (x + d) % m
}

/// 1 when the cell at `row`, `col` is live in grid `g` of width `w`, else 0.
pub open spec fn live_at(g: Seq<bool>, w: nat, row: nat, col: nat) -> nat {
    if g[cell_index(w, row, col)] {
        1
    } else {
        0
    }
}

/// Number of live cells among the 8 toroidally wrapped Moore neighbors of
/// `row`, `col`: row offsets `h-1`, `0`, `1` and column offsets `w-1`, `0`,
/// `1`, each taken modulo the grid dimension, with the offset pair `(0, 0)`
/// (the cell itself) excluded. A dimension of 1 wraps to itself, so the same
/// position may be counted once per offset.
pub open spec fn neighbor_count(g: Seq<bool>, w: nat, h: nat, row: nat, col: nat) -> nat
    recommends
        0 < w,
        0 < h,
        row < h,
        col < w,
        g.len() == w * h,
{
    let up = wrap_add(row, (h - 1) as nat, h);
    let down = wrap_add(row, 1, h);
    let left = wrap_add(col, (w - 1) as nat, w);
    let right = wrap_add(col, 1, w);
    live_at(g, w, up, left) + live_at(g, w, up, col) + live_at(g, w, up, right)
        + live_at(g, w, row, left) + live_at(g, w, row, right)
        + live_at(g, w, down, left) + live_at(g, w, down, col) + live_at(g, w, down, right)
}

/// The two rule tables, selected by `forward`.
///
/// Forward (standard Life): a live cell survives exactly with 2 or 3 live
/// neighbors; a dead cell becomes live exactly with 3. Reverse: the outcomes
/// for both bands are inverted — a live cell survives exactly when it would
/// have died, a dead cell becomes live exactly when it would have stayed dead.
pub open spec fn next_state(cur: bool, neighbors: nat, forward: bool) -> bool {
    if forward {
        if cur {
            neighbors == 2 || neighbors == 3
        } else {
            neighbors == 3
        }
    } else {
        if cur {
            !(neighbors == 2 || neighbors == 3)
        } else {
            neighbors != 3
        }
    }
}

/// One whole-grid generation step: every cell is rewritten from its prior
/// state and its prior neighbor count, all reads taken from the pre-step grid.
pub open spec fn step(g: Seq<bool>, w: nat, h: nat, forward: bool) -> Seq<bool>
    recommends
        g.len() == w * h,
{
    Seq::new(
        g.len(),
        |k: int| next_state(
            g[k],
            neighbor_count(g, w, h, (k / (w as int)) as nat, (k % (w as int)) as nat),
            forward,
        ),
    )
}

/// The result of one toggle: a dead cell always comes up live; a live cell
/// stays live when `live_only` is set and is turned off otherwise.
pub open spec fn toggled(cur: bool, live_only: bool) -> bool {
    !cur || live_only
}

/// Whether linear index `k` is named by some pair in the coordinate list `ps`.
pub open spec fn covered(ps: Seq<(u32, u32)>, w: nat, k: int) -> bool {
    exists|j: int| 0 <= j < ps.len() && k == cell_index(w, ps[j].0 as nat, ps[j].1 as nat)
}

pub proof fn lemma_covered_push(ps: Seq<(u32, u32)>, p: (u32, u32), w: nat, k: int)
    ensures
        covered(ps.push(p), w, k) == (covered(ps, w, k) || k == cell_index(
            w,
            p.0 as nat,
            p.1 as nat,
        )),
{
    let ps1 = ps.push(p);
    if covered(ps, w, k) {
        let j = choose|j: int|
            0 <= j < ps.len() && k == cell_index(w, ps[j].0 as nat, ps[j].1 as nat);
        assert(ps1[j] == ps[j]);
        assert(covered(ps1, w, k));
    }
    if k == cell_index(w, p.0 as nat, p.1 as nat) {
        assert(ps1[ps.len() as int] == p);
        assert(covered(ps1, w, k));
    }
    if covered(ps1, w, k) {
        let j = choose|j: int|
            0 <= j < ps1.len() && k == cell_index(w, ps1[j].0 as nat, ps1[j].1 as nat);
        if j < ps.len() {
            assert(ps[j] == ps1[j]);
            assert(covered(ps, w, k));
        } else {
            assert(ps1[j] == p);
        }
    }
}

/// The grid after setting every cell named in `ps` live, others untouched.
pub open spec fn bulk_set(g: Seq<bool>, w: nat, ps: Seq<(u32, u32)>) -> Seq<bool> {
    Seq::new(g.len(), |k: int| g[k] || covered(ps, w, k))
}

/// Whether linear index `k` is one of the five cells of the spaceship pattern
/// anchored at `row`, `col`.
pub open spec fn ship_cell(w: nat, row: nat, col: nat, k: int) -> bool
    recommends
        1 <= row,
{
    k == cell_index(w, row, col)
        || k == cell_index(w, (row + 1) as nat, (col + 1) as nat)
        || k == cell_index(w, (row - 1) as nat, (col + 2) as nat)
        || k == cell_index(w, row, (col + 2) as nat)
        || k == cell_index(w, (row + 1) as nat, (col + 2) as nat)
}

/// The grid after stamping the spaceship pattern anchored at `row`, `col`.
pub open spec fn stamp_ship(g: Seq<bool>, w: nat, row: nat, col: nat) -> Seq<bool>
    recommends
        1 <= row,
{
    Seq::new(g.len(), |k: int| g[k] || ship_cell(w, row, col, k))
}

/// Law: toggling a dead cell makes it live whether or not `live_only` is set;
/// toggling a live cell keeps it live under `live_only` and kills it otherwise.
pub proof fn lemma_toggle_asymmetry()
    ensures
        toggled(false, true) == true,
        toggled(false, false) == true,
        toggled(true, true) == true,
        toggled(true, false) == false,
{
}

/// Law: on any cell with exactly 2 or 3 live neighbors, the forward and the
/// reverse rule produce opposite post-step states.
pub proof fn lemma_forward_reverse_distinct(g: Seq<bool>, w: nat, h: nat, row: nat, col: nat)
    requires
        row < h,
        col < w,
        g.len() == w * h,
        neighbor_count(g, w, h, row, col) == 2 || neighbor_count(g, w, h, row, col) == 3,
    ensures
        step(g, w, h, true)[cell_index(w, row, col)]
            != step(g, w, h, false)[cell_index(w, row, col)],
{
    lemma_cell_index_bounds(w, h, row, col);
    lemma_cell_index_inverse(w, h, row, col);
}

/// Law: bulk-setting the same coordinate list twice yields the same grid as
/// bulk-setting it once.
pub proof fn lemma_bulk_set_idempotent(g: Seq<bool>, w: nat, ps: Seq<(u32, u32)>)
    ensures
        bulk_set(bulk_set(g, w, ps), w, ps) == bulk_set(g, w, ps),
{
    assert(bulk_set(bulk_set(g, w, ps), w, ps) =~= bulk_set(g, w, ps));
}

/// Law: stamping the spaceship on an all-dead grid with enough margin leaves
/// exactly its five cells live — the cell at `r2`, `c2` is live afterwards
/// precisely when `(r2, c2)` is one of the five pattern coordinates.
pub proof fn lemma_spaceship_exact(
    g: Seq<bool>,
    w: nat,
    h: nat,
    row: nat,
    col: nat,
    r2: nat,
    c2: nat,
)
    requires
        g.len() == w * h,
        1 <= row,
        row + 1 < h,
        col + 2 < w,
        r2 < h,
        c2 < w,
        forall|k: int| 0 <= k < g.len() ==> !g[k],
    ensures
        stamp_ship(g, w, row, col)[cell_index(w, r2, c2)] == (
            (r2 == row && c2 == col)
            || (r2 == row + 1 && c2 == col + 1)
            || (r2 == row - 1 && c2 == col + 2)
            || (r2 == row && c2 == col + 2)
            || (r2 == row + 1 && c2 == col + 2)
        ),
{
    lemma_cell_index_bounds(w, h, r2, c2);
    lemma_cell_index_inverse(w, h, r2, c2);
    lemma_cell_index_inverse(w, h, row, col);
    lemma_cell_index_inverse(w, h, (row + 1) as nat, (col + 1) as nat);
    lemma_cell_index_inverse(w, h, (row - 1) as nat, (col + 2) as nat);
    lemma_cell_index_inverse(w, h, row, (col + 2) as nat);
    lemma_cell_index_inverse(w, h, (row + 1) as nat, (col + 2) as nat);
}

} // verus!
