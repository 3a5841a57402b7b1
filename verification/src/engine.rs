//! The step engine: bounded (non-wrapping) neighbor enumeration, live
//! neighbor counting, and the Game-of-Life rule applied cell by cell.

use vstd::prelude::*;
use vstd::arithmetic::div_mod::{
    lemma_fundamental_div_mod, lemma_mod_bound, lemma_multiply_divide_lt,
};
use crate::grid::{flat_index, in_grid, lemma_flat_index_bound, GridState};

verus! {

/// The flat index of `(row, col)` as a one-element sequence if the
/// coordinate lies inside the grid, else the empty sequence.
pub open spec fn cell_if_in(row: int, col: int, rows: int, cols: int) -> Seq<int> {
    if in_grid(row, col, rows, cols) {
        seq![flat_index(row, col, cols)]
    } else {
        Seq::empty()
    }
}

/// The flat indices of the up-to-8 neighbors of `(row, col)`, clamped to
/// the grid (no wrap-around), in row-major scan order.
pub open spec fn neighbor_indices(row: int, col: int, rows: int, cols: int) -> Seq<int> {
    cell_if_in(row - 1, col - 1, rows, cols) + cell_if_in(row - 1, col, rows, cols)
        + cell_if_in(row - 1, col + 1, rows, cols) + cell_if_in(row, col - 1, rows, cols)
        + cell_if_in(row, col + 1, rows, cols) + cell_if_in(row + 1, col - 1, rows, cols)
        + cell_if_in(row + 1, col, rows, cols) + cell_if_in(row + 1, col + 1, rows, cols)
}

/// How many of the cells at the flat indices `ns` are ALIVE in `s`.
pub open spec fn count_live(s: Seq<u8>, ns: Seq<int>) -> int
    decreases ns.len(),
{
    if ns.len() == 0 {
        0
    } else {
        count_live(s, ns.drop_last()) + (if 0 <= ns.last() < s.len() && s[ns.last()] == 1 {
            1int
        } else {
            0int
        })
    }
}

/// The number of ALIVE neighbors of `(row, col)` in the grid `s`.
pub open spec fn live_neighbors(s: Seq<u8>, row: int, col: int, rows: int, cols: int) -> int {
    count_live(s, neighbor_indices(row, col, rows, cols))
}

/// The Game-of-Life rule for one cell: an ALIVE cell with 2 or 3 ALIVE
/// neighbors survives, a DEAD cell with exactly 3 ALIVE neighbors is
/// born, every other cell is DEAD in the next generation.
pub open spec fn next_cell(s: Seq<u8>, row: int, col: int, rows: int, cols: int) -> u8 {
    let alive = live_neighbors(s, row, col, rows, cols);
    if s[flat_index(row, col, cols)] == 1 && (alive == 2 || alive == 3) {
        1
    } else if s[flat_index(row, col, cols)] == 0 && alive == 3 {
        1
    } else {
        0
    }
}

/// The next generation of the whole grid: every cell of the result is the
/// rule applied to the snapshot `s` of the previous generation.
pub open spec fn step_spec(s: Seq<u8>, rows: int, cols: int) -> Seq<u8> {
    Seq::new(s.len(), |k: int| next_cell(s, k / cols, k % cols, rows, cols))
}

/// The flat indices of the neighbors of the cell at flat index `index`,
/// clamped to the grid, in row-major scan order.
pub fn neighbours(index: usize, size_x: usize, size_y: usize) -> (r: Vec<usize>)
    requires
        size_y >= 1,
        index < size_x * size_y,
        size_x * size_y <= usize::MAX,
    ensures
        r@.map_values(|v: usize| v as int) == neighbor_indices(
            index as int / size_y as int,
            index as int % size_y as int,
            size_x as int,
            size_y as int,
        ),
        forall|k: int| 0 <= k < r@.len() ==> r@[k] < size_x * size_y,
{
    let ij = crate::grid::coords1d_to_coords2d(index, size_y);
    let i = ij[0];
    let j = ij[1];
    let ghost row = i as int;
    let ghost col = j as int;
    let ghost rows = size_x as int;
    let ghost cols = size_y as int;
    proof {
        lemma_fundamental_div_mod(index as int, cols);
        lemma_mod_bound(index as int, cols);
        assert(cols * rows == rows * cols) by (nonlinear_arith);
        lemma_multiply_divide_lt(index as int, cols, rows);
        assert(in_grid(row, col, rows, cols));
        assert((row - 1) * cols == row * cols - cols && (row + 1) * cols == row * cols + cols)
            by (nonlinear_arith);
        assert(cols * row == row * cols) by (nonlinear_arith);
    }
    let mut n: Vec<usize> = Vec::new();
    if i > 0 && j > 0 {
        proof {
            lemma_flat_index_bound(row - 1, col - 1, rows, cols);
        }
        n.push((i - 1) * size_y + (j - 1));
    }
    proof {
        assert(n@.map_values(|v: usize| v as int) =~= cell_if_in(row - 1, col - 1, rows, cols));
    }
    if i > 0 {
        proof {
            lemma_flat_index_bound(row - 1, col, rows, cols);
        }
        n.push((i - 1) * size_y + j);
    }
    proof {
        assert(n@.map_values(|v: usize| v as int) =~= cell_if_in(row - 1, col - 1, rows, cols)
            + cell_if_in(row - 1, col, rows, cols));
    }
    if i > 0 && j + 1 < size_y {
        proof {
            lemma_flat_index_bound(row - 1, col + 1, rows, cols);
        }
        n.push((i - 1) * size_y + (j + 1));
    }
    proof {
        assert(n@.map_values(|v: usize| v as int) =~= cell_if_in(row - 1, col - 1, rows, cols)
            + cell_if_in(row - 1, col, rows, cols) + cell_if_in(row - 1, col + 1, rows, cols));
    }
    if j > 0 {
        n.push(i * size_y + (j - 1));
    }
    proof {
        assert(n@.map_values(|v: usize| v as int) =~= cell_if_in(row - 1, col - 1, rows, cols)
            + cell_if_in(row - 1, col, rows, cols) + cell_if_in(row - 1, col + 1, rows, cols)
            + cell_if_in(row, col - 1, rows, cols));
    }
    if j + 1 < size_y {
        proof {
            lemma_flat_index_bound(row, col + 1, rows, cols);
        }
        n.push(i * size_y + (j + 1));
    }
    proof {
        assert(n@.map_values(|v: usize| v as int) =~= cell_if_in(row - 1, col - 1, rows, cols)
            + cell_if_in(row - 1, col, rows, cols) + cell_if_in(row - 1, col + 1, rows, cols)
            + cell_if_in(row, col - 1, rows, cols) + cell_if_in(row, col + 1, rows, cols));
    }
    if i + 1 < size_x && j > 0 {
        proof {
            lemma_flat_index_bound(row + 1, col - 1, rows, cols);
        }
        n.push((i + 1) * size_y + (j - 1));
    }
    proof {
        assert(n@.map_values(|v: usize| v as int) =~= cell_if_in(row - 1, col - 1, rows, cols)
            + cell_if_in(row - 1, col, rows, cols) + cell_if_in(row - 1, col + 1, rows, cols)
            + cell_if_in(row, col - 1, rows, cols) + cell_if_in(row, col + 1, rows, cols)
            + cell_if_in(row + 1, col - 1, rows, cols));
    }
    if i + 1 < size_x {
        proof {
            lemma_flat_index_bound(row + 1, col, rows, cols);
        }
        n.push((i + 1) * size_y + j);
    }
    proof {
        assert(n@.map_values(|v: usize| v as int) =~= cell_if_in(row - 1, col - 1, rows, cols)
            + cell_if_in(row - 1, col, rows, cols) + cell_if_in(row - 1, col + 1, rows, cols)
            + cell_if_in(row, col - 1, rows, cols) + cell_if_in(row, col + 1, rows, cols)
            + cell_if_in(row + 1, col - 1, rows, cols) + cell_if_in(row + 1, col, rows, cols));
    }
    if i + 1 < size_x && j + 1 < size_y {
        proof {
            lemma_flat_index_bound(row + 1, col + 1, rows, cols);
        }
        n.push((i + 1) * size_y + (j + 1));
    }
    proof {
        assert(n@.map_values(|v: usize| v as int) =~= neighbor_indices(row, col, rows, cols));
    }
    n
}

/// Whether the cell at flat index `index` is ALIVE in the next
/// generation, per the Game-of-Life rule over the clamped neighbors.
pub fn survive(state: &Vec<u8>, index: usize, size_x: usize, size_y: usize) -> (r: bool)
    requires
        state@.len() == size_x * size_y,
        size_y >= 1,
        index < size_x * size_y,
    ensures
        r == (next_cell(
            state@,
            index as int / size_y as int,
            index as int % size_y as int,
            size_x as int,
            size_y as int,
        ) == 1),
{
    let len = state.len();
    let n = neighbours(index, size_x, size_y);
    let ghost row = index as int / size_y as int;
    let ghost col = index as int % size_y as int;
    let ghost rows = size_x as int;
    let ghost cols = size_y as int;
    let ghost ns = neighbor_indices(row, col, rows, cols);
    proof {
        assert(ns.len() <= 8);
    }
    let mut alive: u8 = 0;
    let count = n.len();
    for k in 0..count
        invariant
            count == n@.len(),
            n@.len() == ns.len(),
            ns.len() <= 8,
            n@.map_values(|v: usize| v as int) == ns,
            state@.len() == size_x * size_y,
            len == state@.len(),
            forall|t: int| 0 <= t < n@.len() ==> n@[t] < size_x * size_y,
            alive <= k,
            alive == count_live(state@, ns.take(k as int)),
    {
        let idx = n[k];
        assert(idx as int == ns[k as int]);
        if state[idx] == 1 {
            alive = alive + 1;
        }
        proof {
            assert(ns.take(k + 1).drop_last() =~= ns.take(k as int));
            assert(ns.take(k + 1).last() == ns[k as int]);
        }
    }
    proof {
        assert(ns.take(ns.len() as int) =~= ns);
        lemma_fundamental_div_mod(index as int, cols);
        lemma_mod_bound(index as int, cols);
        assert(flat_index(row, col, cols) == index);
    }
    if state[index] == 1 && alive >= 2 && alive <= 3 {
        true
    } else if state[index] == 0 && alive == 3 {
        true
    } else {
        false
    }
}

/// One full simulation step over the flat grid `state`: the result is a
/// fresh grid in which every cell is the rule applied to the unmodified
/// previous generation.
pub fn update(state: &Vec<u8>, size_x: usize, size_y: usize) -> (r: Vec<u8>)
    requires
        state@.len() == size_x * size_y,
        size_y >= 1,
    ensures
        r@ == step_spec(state@, size_x as int, size_y as int),
        r@.len() == state@.len(),
{
    let len = state.len();
    let mut vec: Vec<u8> = Vec::new();
    for i in 0..len
        invariant
            len == state@.len(),
            state@.len() == size_x * size_y,
            size_y >= 1,
            vec@.len() == i,
            forall|t: int| 0 <= t < i ==> vec@[t] == step_spec(
                state@,
                size_x as int,
                size_y as int,
            )[t],
    {
        if survive(state, i, size_x, size_y) {
            vec.push(1);
        } else {
            vec.push(0);
        }
    }
    proof {
        assert(vec@ =~= step_spec(state@, size_x as int, size_y as int));
    }
    vec
}

impl GridState {
    /// The next generation: a brand-new grid of the same dimensions,
    /// every cell given by the rule over the previous generation.
    pub fn step(&self) -> (r: GridState)
        requires
            self.wf(),
        ensures
            r.wf(),
            r.rows == self.rows,
            r.cols == self.cols,
            r.cells@ == step_spec(self.cells@, self.rows as int, self.cols as int),
    {
        let cells = update(&self.cells, self.rows, self.cols);
        proof {
            assert forall|k: int| 0 <= k < cells@.len() implies cells@[k] <= 1 by {
                assert(cells@[k] == next_cell(
                    self.cells@,
                    k / self.cols as int,
                    k % self.cols as int,
                    self.rows as int,
                    self.cols as int,
                ));
            }
        }
        GridState { rows: self.rows, cols: self.cols, cells }
    }
}

/// The simulation step is deterministic: equal grids always yield equal
/// next generations.
pub proof fn lemma_step_deterministic(s1: Seq<u8>, s2: Seq<u8>, rows: int, cols: int)
    requires
        s1 == s2,
    ensures
        step_spec(s1, rows, cols) == step_spec(s2, rows, cols),
{
}

/// Counting ALIVE cells over a list of indices never exceeds the number
/// of indices.
pub proof fn lemma_count_live_bounds(s: Seq<u8>, ns: Seq<int>)
    ensures
        0 <= count_live(s, ns) <= ns.len(),
    decreases ns.len(),
{
    if ns.len() > 0 {
        lemma_count_live_bounds(s, ns.drop_last());
    }
}

/// The clamped live-neighbor count of any cell lies in `[0, 8]`.
pub proof fn lemma_neighbor_count_range(s: Seq<u8>, row: int, col: int, rows: int, cols: int)
    ensures
        0 <= live_neighbors(s, row, col, rows, cols) <= 8,
{
    lemma_count_live_bounds(s, neighbor_indices(row, col, rows, cols));
    assert(neighbor_indices(row, col, rows, cols).len() <= 8);
}

/// On a grid with both dimensions at least 2, a corner cell has exactly
/// 3 candidate neighbors, a non-corner edge cell exactly 5, and an
/// interior cell exactly 8.
pub proof fn lemma_candidate_neighbor_count(row: int, col: int, rows: int, cols: int)
    requires
        rows >= 2,
        cols >= 2,
        in_grid(row, col, rows, cols),
    ensures
        ({
            let count = neighbor_indices(row, col, rows, cols).len();
            if (row == 0 || row == rows - 1) && (col == 0 || col == cols - 1) {
                count == 3
            } else if row == 0 || row == rows - 1 || col == 0 || col == cols - 1 {
                count == 5
            } else {
                count == 8
            }
        }),
{
}

} // verus!
