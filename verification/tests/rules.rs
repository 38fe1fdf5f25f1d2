use game_of_life::model::Grid;
use game_of_life::model::compute_cell_new_state;
use game_of_life::model::next_generation;

fn create_small_grid() -> Grid {
    Grid::new(3, 3, false)
}

#[test]
fn compute_state_with_underpopulation_for_dead() {
    let mut grid = create_small_grid();
    grid.toggle(0, 0); // Only one live neighbour
    assert!(!compute_cell_new_state(&grid, 1, 1));
}

#[test]
fn compute_state_with_underpopulation_for_live() {
    let mut grid = create_small_grid();
    grid.toggle(0, 0); // Only one live neighbour
    grid.toggle(1, 1); // Center is live
    assert!(!compute_cell_new_state(&grid, 1, 1));
}

#[test]
fn compute_state_with_overpopulation_for_dead() {
    let mut grid = create_small_grid();

    // 4 neighbours
    grid.toggle(0, 0);
    grid.toggle(2, 2);
    grid.toggle(1, 2);
    grid.toggle(1, 0);

    assert!(!compute_cell_new_state(&grid, 1, 1));
}

#[test]
fn compute_state_with_overpopulation_for_live() {
    let mut grid = create_small_grid();

    // 4 neighbours
    grid.toggle(0, 0);
    grid.toggle(2, 2);
    grid.toggle(1, 2);
    grid.toggle(1, 0);

    grid.toggle(1, 1); // Center is live
    assert!(!compute_cell_new_state(&grid, 1, 1));
}

#[test]
fn compute_state_with_reproduction_for_dead() {
    let mut grid = create_small_grid();

    // 3 neighbours
    grid.toggle(1, 2);
    grid.toggle(1, 0);
    grid.toggle(2, 1);

    assert!(compute_cell_new_state(&grid, 1, 1));
}

#[test]
fn compute_state_with_reproduction_for_live() {
    let mut grid = create_small_grid();

    // 3 neighbours
    grid.toggle(0, 0);
    grid.toggle(2, 2);
    grid.toggle(1, 2);

    grid.toggle(1, 1); // Center is live

    // In repreduction conditions live cells stay live.
    assert!(compute_cell_new_state(&grid, 1, 1));
}

#[test]
fn compute_state_with_stasis_for_live() {
    let mut grid = create_small_grid();

    // 2 neighbours
    grid.toggle(0, 0);
    grid.toggle(2, 2);

    grid.toggle(1, 1); // Center is live
    assert!(compute_cell_new_state(&grid, 1, 1));
}

#[test]
fn compute_state_with_stasis_for_dead() {
    let mut grid = create_small_grid();

    // 2 neighbours
    grid.toggle(0, 0);
    grid.toggle(2, 2);

    assert!(!compute_cell_new_state(&grid, 1, 1));
}

#[test]
fn still_life_block_is_stable() {
    // An isolated 2x2 block, far enough from every border.
    let mut grid = Grid::new(4, 4, false);
    grid.update(1, 1, true);
    grid.update(1, 2, true);
    grid.update(2, 1, true);
    grid.update(2, 2, true);
    let before = grid.duplicate();

    next_generation(&mut grid);

    for (x, y) in before.coordinates() {
        assert_eq!(grid.get(x, y), before.get(x, y));
    }
}

#[test]
fn blinker_oscillates_with_period_two() {
    // A horizontal three-cell row in the middle of a 5x5 grid.
    let mut grid = Grid::new(5, 5, false);
    grid.update(1, 2, true);
    grid.update(2, 2, true);
    grid.update(3, 2, true);
    let seed = grid.duplicate();

    next_generation(&mut grid);

    // After one generation the blinker stands vertical.
    for (x, y) in seed.coordinates() {
        let expected = x == 2 && (y == 1 || y == 2 || y == 3);
        assert_eq!(grid.get(x, y), expected);
    }

    next_generation(&mut grid);

    // After its period of two generations it is back to the seed.
    for (x, y) in seed.coordinates() {
        assert_eq!(grid.get(x, y), seed.get(x, y));
    }
}

#[test]
fn next_generation_keeps_the_dimensions() {
    let mut grid = Grid::new(6, 2, true);
    next_generation(&mut grid);
    assert_eq!(grid.width, 6);
    assert_eq!(grid.height, 2);
}
