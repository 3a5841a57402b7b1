//! The grid of cells: coordinate mapping between a flat cell index and a
//! (row, col) pair, and the `GridState` that holds one generation.

use vstd::prelude::*;
use vstd::arithmetic::div_mod::{
    lemma_fundamental_div_mod, lemma_fundamental_div_mod_converse_div,
    lemma_fundamental_div_mod_converse_mod, lemma_mod_bound,
};

verus! {

/// Flat index of the cell at `row`, `col` in a grid whose rows are
/// `cols` cells wide.
pub open spec fn flat_index(row: int, col: int, cols: int) -> int {
    row * cols + col
}

/// Whether `(row, col)` lies inside a `rows` by `cols` grid.
pub open spec fn in_grid(row: int, col: int, rows: int, cols: int) -> bool {
    0 <= row < rows && 0 <= col < cols
}

/// Splits a flat cell index into its (row, col) pair for a grid whose rows
/// are `size_y` cells wide.
pub fn coords1d_to_coords2d(index: usize, size_y: usize) -> (r: [usize; 2])
    requires
        size_y > 0,
    ensures
        r@[0] == index as int / size_y as int,
        r@[1] == index as int % size_y as int,
{
    let quotient = index / size_y;
    proof {
        lemma_fundamental_div_mod(index as int, size_y as int);
        lemma_mod_bound(index as int, size_y as int);
        assert(quotient == index as int / size_y as int);
        assert(index as int == (size_y as int) * (index as int / size_y as int) + (index as int % size_y as int));
        assert((quotient as int) * (size_y as int) <= index as int);
    }
    let reminder = index - (quotient * size_y);
    [quotient, reminder]
}

/// Joins a (row, col) pair into the flat cell index for a grid whose rows
/// are `size_y` cells wide.
pub fn coords2d_to_coords1d(indexes: [usize; 2], size_y: usize) -> (r: usize)
    requires
        indexes@[0] * size_y + indexes@[1] <= usize::MAX,
    ensures
        r == flat_index(indexes@[0] as int, indexes@[1] as int, size_y as int),
{
    indexes[0] * size_y + indexes[1]
}

/// The flat index of an in-grid coordinate round-trips exactly: splitting
/// `row * cols + col` gives back `(row, col)`, so flattening again gives
/// the same flat index.
pub proof fn lemma_coords_round_trip(row: int, col: int, rows: int, cols: int)
    requires
        in_grid(row, col, rows, cols),
    ensures
        flat_index(row, col, cols) / cols == row,
        flat_index(row, col, cols) % cols == col,
        flat_index(
            flat_index(row, col, cols) / cols,
            flat_index(row, col, cols) % cols,
            cols,
        ) == flat_index(row, col, cols),
{
    lemma_fundamental_div_mod_converse_div(flat_index(row, col, cols), cols, row, col);
    lemma_fundamental_div_mod_converse_mod(flat_index(row, col, cols), cols, row, col);
}

/// One generation of the simulation: a dense `rows` by `cols` grid stored
/// as a flat vector of binary cell values, indexed by `row * cols + col`.
pub struct GridState {
    pub rows: usize,
    pub cols: usize,
    pub cells: Vec<u8>,
}

impl GridState {
    /// The grid holds exactly `rows * cols` cells, every one DEAD or ALIVE.
    pub open spec fn wf(self) -> bool {
        &&& self.rows >= 1
        &&& self.cols >= 1
        &&& self.cells@.len() == self.rows * self.cols
        &&& forall|k: int| 0 <= k < self.cells@.len() ==> self.cells@[k] <= 1
    }

    /// The cell at `(row, col)`.
    pub open spec fn spec_cell(self, row: int, col: int) -> u8 {
        self.cells@[flat_index(row, col, self.cols as int)]
    }

    /// Reads the cell at `(row, col)`.
    pub fn cell(&self, row: usize, col: usize) -> (r: u8)
        requires
            self.wf(),
            in_grid(row as int, col as int, self.rows as int, self.cols as int),
        ensures
            r == self.spec_cell(row as int, col as int),
    {
        let len = self.cells.len();
        proof {
            lemma_flat_index_bound(row as int, col as int, self.rows as int, self.cols as int);
            assert((row as int) * (self.cols as int) + (col as int) < len);
        }
        self.cells[row * self.cols + col]
    }

    /// Builds a grid with every cell drawn independently at random,
    /// uniformly DEAD or ALIVE.
    pub fn random(rows: usize, cols: usize) -> (r: GridState)
        requires
            rows >= 1,
            cols >= 1,
            rows * cols <= usize::MAX,
        ensures
            r.wf(),
            r.rows == rows,
            r.cols == cols,
    {
        let cells = init_state(rows * cols);
        GridState { rows, cols, cells }
    }
}

/// An in-grid coordinate's flat index lies inside the flat cell vector.
pub proof fn lemma_flat_index_bound(row: int, col: int, rows: int, cols: int)
    requires
        in_grid(row, col, rows, cols),
    ensures
        0 <= flat_index(row, col, cols) < rows * cols,
{
    assert(row * cols + col < rows * cols) by (nonlinear_arith)
        requires
            0 <= row < rows,
            0 <= col < cols,
    ;
}

/// Relies on rand: sampling `Uniform::from(0..2)` with `thread_rng` draws
/// a value in `[0, 2)`, so the result is always 0 or 1.
#[verifier::external_body]
fn sample_cell() -> (r: u8)
    ensures
        r == 0 || r == 1,
{
    let mut rng = rand::thread_rng();
    let uni = rand::distributions::Uniform::from(0..2u8);
    rand::distributions::Distribution::sample(&uni, &mut rng)
}

/// Fills a fresh flat cell vector of length `size` with random binary
/// cell values.
pub fn init_state(size: usize) -> (r: Vec<u8>)
    ensures
        r@.len() == size,
        forall|k: int| 0 <= k < r@.len() ==> r@[k] <= 1,
{
    let mut vec: Vec<u8> = Vec::with_capacity(size);
    for _n in 0..size
        invariant
            vec@.len() == _n,
            forall|k: int| 0 <= k < vec@.len() ==> vec@[k] <= 1,
    {
        vec.push(sample_cell());
    }
    vec
}

} // verus!
