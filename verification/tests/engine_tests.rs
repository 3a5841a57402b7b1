use term_life::engine::{neighbours, survive, update};
use term_life::grid::{coords1d_to_coords2d, coords2d_to_coords1d, init_state, GridState};

#[test]
fn coords_split_literal() {
    assert_eq!(coords1d_to_coords2d(0, 20), [0, 0]);
    assert_eq!(coords1d_to_coords2d(19, 20), [0, 19]);
    assert_eq!(coords1d_to_coords2d(20, 20), [1, 0]);
    assert_eq!(coords1d_to_coords2d(47, 20), [2, 7]);
}

#[test]
fn coords_join_literal() {
    assert_eq!(coords2d_to_coords1d([0, 0], 20), 0);
    assert_eq!(coords2d_to_coords1d([2, 7], 20), 47);
    assert_eq!(coords2d_to_coords1d([1, 0], 20), 20);
}

#[test]
fn coords_round_trip() {
    let rows: usize = 4;
    let cols: usize = 5;
    for row in 0..rows {
        for col in 0..cols {
            let flat = coords2d_to_coords1d([row, col], cols);
            let back = coords1d_to_coords2d(flat, cols);
            assert_eq!(back, [row, col]);
            assert_eq!(coords2d_to_coords1d(back, cols), flat);
        }
    }
}

#[test]
fn neighbour_counts_by_position() {
    // 3x3 grid: corners have 3 candidates, edges 5, the interior cell 8.
    for corner in [0usize, 2, 6, 8] {
        assert_eq!(neighbours(corner, 3, 3).len(), 3);
    }
    for edge in [1usize, 3, 5, 7] {
        assert_eq!(neighbours(edge, 3, 3).len(), 5);
    }
    assert_eq!(neighbours(4, 3, 3).len(), 8);
    // 2x2 grid: every cell is a corner.
    for corner in [0usize, 1, 2, 3] {
        assert_eq!(neighbours(corner, 2, 2).len(), 3);
    }
}

#[test]
fn neighbour_values_literal() {
    assert_eq!(neighbours(4, 3, 3), vec![0, 1, 2, 3, 5, 6, 7, 8]);
    assert_eq!(neighbours(0, 3, 3), vec![1, 3, 4]);
    assert_eq!(neighbours(8, 3, 3), vec![4, 5, 7]);
}

#[test]
fn survive_literal() {
    // Dead center cell of a 3x3 grid with exactly three live neighbours is born.
    let state: Vec<u8> = vec![1, 1, 1, 0, 0, 0, 0, 0, 0];
    assert!(survive(&state, 4, 3, 3));
    // A live cell with a single live neighbour dies.
    let lonely: Vec<u8> = vec![1, 1, 0, 0, 0, 0, 0, 0, 0];
    assert!(!survive(&lonely, 0, 3, 3));
}

#[test]
fn step_is_deterministic() {
    let grid = GridState::random(6, 7);
    let a = update(&grid.cells, grid.rows, grid.cols);
    let b = update(&grid.cells, grid.rows, grid.cols);
    assert_eq!(a, b);
}

#[test]
fn isolated_cell_dies() {
    let state: Vec<u8> = vec![0, 0, 0, 0, 1, 0, 0, 0, 0];
    let next = update(&state, 3, 3);
    assert_eq!(next, vec![0, 0, 0, 0, 0, 0, 0, 0, 0]);
}

#[test]
fn block_still_life_is_unchanged() {
    let mut state: Vec<u8> = vec![0; 16];
    for idx in [5usize, 6, 9, 10] {
        state[idx] = 1;
    }
    let next = update(&state, 4, 4);
    assert_eq!(next, state);
}

#[test]
fn blinker_oscillates() {
    // A horizontal row of three live cells in the middle of a 5x5 grid.
    let mut horizontal: Vec<u8> = vec![0; 25];
    for idx in [11usize, 12, 13] {
        horizontal[idx] = 1;
    }
    // After one step it is the vertical column of three.
    let mut vertical: Vec<u8> = vec![0; 25];
    for idx in [7usize, 12, 17] {
        vertical[idx] = 1;
    }
    let once = update(&horizontal, 5, 5);
    assert_eq!(once, vertical);
    let twice = update(&once, 5, 5);
    assert_eq!(twice, horizontal);
}

#[test]
fn init_state_is_binary() {
    let state = init_state(220);
    assert_eq!(state.len(), 220);
    assert!(state.iter().all(|&v| v <= 1));
}

#[test]
fn random_grid_is_well_formed() {
    let grid = GridState::random(11, 20);
    assert_eq!(grid.rows, 11);
    assert_eq!(grid.cols, 20);
    assert_eq!(grid.cells.len(), 220);
    assert!(grid.cells.iter().all(|&v| v <= 1));
    let next = grid.step();
    assert_eq!(next.rows, 11);
    assert_eq!(next.cols, 20);
    assert_eq!(next.cells.len(), 220);
}
