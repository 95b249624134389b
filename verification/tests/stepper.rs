use conway_gol::board::Board;
use conway_gol::error::LifeError;
use conway_gol::grid::GridStorage;
use conway_gol::neighbours::NeighbourTable;
use conway_gol::stepper::{compute, rule_for, step};

fn current(grid: &GridStorage) -> Vec<bool> {
    (0..grid.len()).map(|i| grid.read(i).unwrap()).collect()
}

fn grid_with(cells: usize, alive: &[usize]) -> GridStorage {
    let mut grid = GridStorage::new(cells);
    for &idx in alive {
        grid.set_current(idx, true).unwrap();
    }
    grid
}

fn alive_cells(grid: &GridStorage) -> Vec<usize> {
    (0..grid.len()).filter(|&i| grid.read(i).unwrap()).collect()
}

#[test]
fn rule_for_every_count() {
    assert_eq!(Some(false), rule_for(0));
    assert_eq!(Some(false), rule_for(1));
    assert_eq!(None, rule_for(2));
    assert_eq!(Some(true), rule_for(3));
    assert_eq!(Some(false), rule_for(4));
    assert_eq!(Some(false), rule_for(5));
    assert_eq!(Some(false), rule_for(6));
    assert_eq!(Some(false), rule_for(7));
    assert_eq!(Some(false), rule_for(8));
    assert_eq!(Some(false), rule_for(255));
}

#[test]
fn compute_leaves_the_present_generation_alone() {
    let table = NeighbourTable::new(Board::new(8).unwrap());
    let mut grid = grid_with(64, &[26, 27, 28]);
    let before = current(&grid);
    assert_eq!(Ok(()), compute(&mut grid, &table));
    assert_eq!(before, current(&grid));
    grid.commit();
    assert_eq!(vec![19, 27, 35], alive_cells(&grid));
}

#[test]
fn compute_keeps_what_was_staged_where_the_count_is_two() {
    let table = NeighbourTable::new(Board::new(8).unwrap());
    // Cells 26 and 28 are alive; cell 27 between them has two live neighbours.
    let mut grid = grid_with(64, &[26, 28]);
    grid.stage(27, true).unwrap();
    // Cell 0 has no live neighbour: the rule stages its death over what was staged.
    grid.stage(0, true).unwrap();
    assert_eq!(Ok(()), compute(&mut grid, &table));
    grid.commit();
    assert_eq!(vec![27], alive_cells(&grid));
}

#[test]
fn compute_rejects_a_table_of_another_size() {
    let table = NeighbourTable::new(Board::new(4).unwrap());
    for cells in [0usize, 15, 17, 64] {
        let mut grid = grid_with(cells, &[]);
        if cells > 2 {
            grid.set_current(1, true).unwrap();
            grid.stage(2, true).unwrap();
        }
        let before = current(&grid);
        assert_eq!(Err(LifeError::InvalidIndex), compute(&mut grid, &table));
        assert_eq!(before, current(&grid));
        assert_eq!(Err(LifeError::InvalidIndex), step(&mut grid, &table));
        assert_eq!(before, current(&grid));
        if cells > 2 {
            // What was staged by hand is still staged.
            grid.commit();
            assert!(grid.read(2).unwrap());
        }
    }
}

#[test]
fn step_advances_one_generation() {
    let table = NeighbourTable::new(Board::new(8).unwrap());
    let mut grid = grid_with(64, &[26, 27, 28]);
    assert_eq!(Ok(()), step(&mut grid, &table));
    assert_eq!(vec![19, 27, 35], alive_cells(&grid));
    assert_eq!(Ok(()), step(&mut grid, &table));
    assert_eq!(vec![26, 27, 28], alive_cells(&grid));
}

#[test]
fn step_leaves_nothing_staged() {
    let table = NeighbourTable::new(Board::new(8).unwrap());
    let mut grid = grid_with(64, &[26, 27, 28]);
    step(&mut grid, &table).unwrap();
    let after = current(&grid);
    grid.commit();
    assert_eq!(after, current(&grid));
}

#[test]
fn step_counts_every_cell_from_the_same_generation() {
    // A glider: were any count taken from a half-written generation, the shape would break.
    let table = NeighbourTable::new(Board::new(8).unwrap());
    let mut grid = grid_with(64, &[1, 10, 16, 17, 18]);
    step(&mut grid, &table).unwrap();
    assert_eq!(vec![8, 10, 17, 18, 25], alive_cells(&grid));
    step(&mut grid, &table).unwrap();
    assert_eq!(vec![10, 16, 18, 25, 26], alive_cells(&grid));
    step(&mut grid, &table).unwrap();
    assert_eq!(vec![9, 18, 19, 25, 26], alive_cells(&grid));
    step(&mut grid, &table).unwrap();
    // After four generations the glider has moved one cell down and one to the right.
    assert_eq!(vec![10, 19, 25, 26, 27], alive_cells(&grid));
}

#[test]
fn step_wraps_around_the_edges() {
    let table = NeighbourTable::new(Board::new(8).unwrap());
    // A horizontal blinker across the left and right edge of row 0: columns 7, 0, 1.
    let mut grid = grid_with(64, &[7, 0, 1]);
    step(&mut grid, &table).unwrap();
    // It turns upright in column 0, across the top and bottom edge: rows 7, 0, 1.
    assert_eq!(vec![0, 8, 56], alive_cells(&grid));
    step(&mut grid, &table).unwrap();
    assert_eq!(vec![0, 1, 7], alive_cells(&grid));
}

#[test]
fn step_on_the_smallest_board() {
    let table = NeighbourTable::new(Board::new(1).unwrap());
    // The one cell is its own neighbour eight times over: alive, it counts eight and dies.
    let mut grid = grid_with(1, &[0]);
    step(&mut grid, &table).unwrap();
    assert_eq!(vec![false], current(&grid));
    step(&mut grid, &table).unwrap();
    assert_eq!(vec![false], current(&grid));
}

#[test]
fn step_on_a_dead_grid_changes_nothing() {
    let table = NeighbourTable::new(Board::new(5).unwrap());
    let mut grid = grid_with(25, &[]);
    step(&mut grid, &table).unwrap();
    assert_eq!(vec![false; 25], current(&grid));
}
