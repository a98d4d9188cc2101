use dhchat::hexgrid::HexGrid;

#[test]
fn grid_dimensions() {
    let g = HexGrid::new(vec![vec![1, 2, 3], vec![4, 5, 6]]);
    assert_eq!(g.height(), 2);
    assert_eq!(g.width(), 3);
    let empty = HexGrid::new(vec![]);
    assert_eq!(empty.height(), 0);
    assert_eq!(empty.width(), 0);
}

#[test]
fn neighbors_of_corner_and_center() {
    let g = HexGrid::new(vec![vec![0; 3], vec![0; 3], vec![0; 3]]);
    assert_eq!(g.get_neighbors((0, 0)), vec![(0, 1), (1, 0)]);
    assert_eq!(g.get_neighbors((1, 1)), vec![(1, 0), (1, 2), (0, 1), (2, 1)]);
    assert_eq!(g.get_neighbors((2, 2)), vec![(2, 1), (1, 2)]);
}

#[test]
fn neighbors_of_single_cell() {
    let g = HexGrid::new(vec![vec![42]]);
    assert_eq!(g.get_neighbors((0, 0)), vec![]);
}

#[test]
fn neighbors_of_out_of_bounds_position() {
    let g = HexGrid::new(vec![vec![0; 3], vec![0; 3], vec![0; 3]]);
    assert_eq!(g.get_neighbors((5, 5)), vec![]);
    // One row below the grid: only the upward candidate lands inside.
    assert_eq!(g.get_neighbors((3, 1)), vec![(2, 1)]);
    // One column right of the grid: only the leftward candidate lands inside.
    assert_eq!(g.get_neighbors((1, 3)), vec![(1, 2)]);
}

#[test]
fn ragged_rows_are_stored_as_given() {
    let g = HexGrid::new(vec![vec![1, 2], vec![3]]);
    assert_eq!(g.height(), 2);
    assert_eq!(g.width(), 2);
}

#[test]
fn min_path_avoids_expensive_cells() {
    let g = HexGrid::new(vec![vec![0, 9, 1], vec![1, 9, 1], vec![1, 1, 1]]);
    let (path, cost) = g.find_min_path().expect("a corner-to-corner path exists");
    assert_eq!(path, vec![(0, 0), (1, 0), (2, 0), (2, 1), (2, 2)]);
    assert_eq!(cost, 4);
}

#[test]
fn min_path_single_cell_is_free() {
    let g = HexGrid::new(vec![vec![7]]);
    let (path, cost) = g.find_min_path().expect("the one-cell path exists");
    assert_eq!(path, vec![(0, 0)]);
    assert_eq!(cost, 0);
}

#[test]
fn min_path_two_by_two() {
    let g = HexGrid::new(vec![vec![0, 1], vec![2, 3]]);
    let (path, cost) = g.find_min_path().expect("a corner-to-corner path exists");
    assert_eq!(path, vec![(0, 0), (0, 1), (1, 1)]);
    assert_eq!(cost, 4);
}

#[test]
fn max_path_prefers_expensive_cells() {
    let g = HexGrid::new(vec![vec![0, 1], vec![2, 3]]);
    let (path, cost) = g.find_max_path().expect("a corner-to-corner path exists");
    assert_eq!(path, vec![(0, 0), (1, 0), (1, 1)]);
    // The cost is totaled over the real grid, not the complemented one.
    assert_eq!(cost, 5);
}
