use conway_life::cell::Cell;
use conway_life::universe::{Universe, UniverseError, CELLS_PER_COL, CELLS_PER_ROW};

fn universe_with(width: u32, height: u32, alive: &[(u32, u32)]) -> Universe {
    let mut universe = Universe::new(width, height).unwrap();
    universe.set_cells(alive).unwrap();
    universe
}

fn count_alive(universe: &Universe) -> usize {
    universe.cells().iter().filter(|cell| **cell == Cell::Alive).count()
}

#[test]
fn new_universe_is_all_dead() {
    let universe = Universe::new(7, 5).unwrap();
    assert_eq!(universe.width(), 7);
    assert_eq!(universe.height(), 5);
    assert_eq!(universe.cells().len(), 35);
    assert!(universe.cells().iter().all(|cell| *cell == Cell::Dead));
    assert_eq!(universe.get_living_cells(), Vec::<(i64, i64)>::new());
}

#[test]
fn new_rejects_zero_dimensions() {
    assert_eq!(Universe::new(0, 5).err(), Some(UniverseError::InvalidDimensions));
    assert_eq!(Universe::new(5, 0).err(), Some(UniverseError::InvalidDimensions));
    assert_eq!(Universe::new(0, 0).err(), Some(UniverseError::InvalidDimensions));
}

#[test]
fn new_rejects_more_cells_than_an_index_can_name() {
    assert_eq!(Universe::new(65536, 65536).err(), Some(UniverseError::InvalidDimensions));
    assert_eq!(Universe::new(u32::MAX, 2).err(), Some(UniverseError::InvalidDimensions));
    assert_eq!(Universe::new(u32::MAX, u32::MAX).err(), Some(UniverseError::InvalidDimensions));
}

#[test]
fn new_accepts_the_smallest_universe() {
    let universe = Universe::new(1, 1).unwrap();
    assert_eq!(universe.cells(), &vec![Cell::Dead]);
}

#[test]
fn default_universe_is_the_standard_one() {
    let universe = Universe::default();
    assert_eq!(CELLS_PER_ROW, 64);
    assert_eq!(CELLS_PER_COL, 64);
    assert_eq!(universe.width(), 64);
    assert_eq!(universe.height(), 64);
    assert_eq!(universe.cells().len(), 4096);
    assert_eq!(count_alive(&universe), 0);
    assert!(universe == Universe::new(64, 64).unwrap());
}

#[test]
fn cell_count_is_width_times_height_after_every_operation() {
    let mut universe = Universe::new(9, 4).unwrap();
    assert_eq!(universe.cells().len(), 36);
    universe.random();
    assert_eq!(universe.cells().len(), 36);
    universe.tick();
    assert_eq!(universe.cells().len(), 36);
    universe.toggle_cell(3, 8).unwrap();
    assert_eq!(universe.cells().len(), 36);
    universe.set_cells(&[(0, 0), (1, 1)]).unwrap();
    assert_eq!(universe.cells().len(), 36);
    universe.clear();
    assert_eq!(universe.cells().len(), 36);
    universe.set_width(5).unwrap();
    assert_eq!(universe.cells().len(), 20);
    universe.set_height(6).unwrap();
    assert_eq!(universe.cells().len(), 30);
    assert_eq!(universe.get_cells().len(), 30);
    assert_eq!((universe.width(), universe.height()), (5, 6));
}

#[test]
fn clear_leaves_no_living_cell() {
    let mut universe = universe_with(6, 6, &[(0, 0), (2, 3), (5, 5), (4, 1)]);
    assert_eq!(universe.get_living_cells().len(), 4);
    universe.clear();
    assert_eq!(universe.get_living_cells(), Vec::<(i64, i64)>::new());
    assert_eq!(count_alive(&universe), 0);
    universe.random();
    universe.clear();
    assert_eq!(universe.get_living_cells(), Vec::<(i64, i64)>::new());
    assert_eq!((universe.width(), universe.height()), (6, 6));
}

#[test]
fn clear_is_idempotent() {
    let mut universe = universe_with(4, 4, &[(1, 1)]);
    universe.clear();
    let once = universe.cells().clone();
    universe.clear();
    assert_eq!(universe.cells(), &once);
}

#[test]
fn tick_of_a_dead_universe_stays_dead() {
    let mut universe = Universe::default();
    universe.tick();
    assert_eq!(count_alive(&universe), 0);
    let mut small = Universe::new(1, 1).unwrap();
    small.tick();
    assert_eq!(small.cells(), &vec![Cell::Dead]);
    let mut strip = Universe::new(5, 1).unwrap();
    strip.tick();
    assert_eq!(count_alive(&strip), 0);
}

#[test]
fn single_live_cell_dies() {
    let mut universe = universe_with(64, 64, &[(10, 20)]);
    universe.tick();
    assert_eq!(count_alive(&universe), 0);
    let mut corner = universe_with(5, 5, &[(0, 0)]);
    corner.tick();
    assert_eq!(corner.get_living_cells(), Vec::<(i64, i64)>::new());
}

#[test]
fn single_live_cell_dies_on_small_grids() {
    for (width, height) in [(2, 2), (2, 3), (3, 2), (3, 3), (4, 2)] {
        for row in 0..height {
            for col in 0..width {
                let mut universe = universe_with(width, height, &[(row, col)]);
                universe.tick();
                assert_eq!(count_alive(&universe), 0);
            }
        }
    }
}

#[test]
fn block_is_stable_on_the_smallest_torus() {
    let mut universe = universe_with(3, 3, &[(2, 2), (2, 0), (0, 2), (0, 0)]);
    let before = universe.cells().clone();
    universe.tick();
    assert_eq!(universe.cells(), &before);
}

#[test]
fn blinker_oscillates_on_the_smallest_torus() {
    let mut universe = universe_with(4, 4, &[(1, 0), (1, 1), (1, 2)]);
    let lying = universe.cells().clone();
    universe.tick();
    assert_eq!(universe.get_living_cells(), vec![(1, 0), (1, 1), (1, 2)]);
    universe.tick();
    assert_eq!(universe.cells(), &lying);
}

#[test]
fn live_cell_with_one_neighbor_dies() {
    let mut universe = universe_with(8, 8, &[(3, 3), (3, 4)]);
    universe.tick();
    assert_eq!(count_alive(&universe), 0);
}

#[test]
fn block_is_stable() {
    let block = [(10, 10), (10, 11), (11, 10), (11, 11)];
    let mut universe = universe_with(64, 64, &block);
    let before = universe.cells().clone();
    for _ in 0..10 {
        universe.tick();
        assert_eq!(universe.cells(), &before);
    }
    assert_eq!(universe.get_living_cells(), vec![(10, 10), (10, 11), (11, 10), (11, 11)]);
}

#[test]
fn block_across_the_corner_is_stable() {
    let mut universe = universe_with(6, 5, &[(4, 5), (4, 0), (0, 5), (0, 0)]);
    let before = universe.cells().clone();
    universe.tick();
    assert_eq!(universe.cells(), &before);
    universe.tick();
    assert_eq!(universe.cells(), &before);
}

#[test]
fn blinker_oscillates_with_period_two() {
    // A horizontal line in row 5, columns 4 to 6.
    let mut universe = universe_with(64, 64, &[(5, 4), (5, 5), (5, 6)]);
    let horizontal = universe.cells().clone();
    universe.tick();
    // Now a vertical line in column 5, rows 4 to 6, given as (x, y).
    assert_eq!(universe.get_living_cells(), vec![(5, 4), (5, 5), (5, 6)]);
    assert_ne!(universe.cells(), &horizontal);
    let vertical = universe.cells().clone();
    universe.tick();
    assert_eq!(universe.cells(), &horizontal);
    assert_eq!(universe.get_living_cells(), vec![(4, 5), (5, 5), (6, 5)]);
    universe.tick();
    assert_eq!(universe.cells(), &vertical);
    universe.tick();
    assert_eq!(universe.cells(), &horizontal);
}

#[test]
fn blinker_wraps_around_the_edges() {
    // A horizontal line in row 0 that runs over the right edge.
    let mut universe = universe_with(6, 6, &[(0, 5), (0, 0), (0, 1)]);
    universe.tick();
    // The vertical line in column 0 runs over the top edge.
    assert_eq!(universe.get_living_cells(), vec![(0, 0), (0, 1), (0, 5)]);
    universe.tick();
    assert_eq!(universe.get_living_cells(), vec![(0, 0), (1, 0), (5, 0)]);
}

#[test]
fn dead_cell_with_three_neighbors_is_born() {
    let mut universe = universe_with(8, 8, &[(2, 2), (2, 4), (4, 3)]);
    universe.tick();
    assert_eq!(universe.get_living_cells(), vec![(3, 3)]);
}

#[test]
fn live_cell_with_four_neighbors_dies() {
    // A plus sign: the centre has four live neighbours.
    let mut universe = universe_with(9, 9, &[(4, 4), (3, 4), (5, 4), (4, 3), (4, 5)]);
    universe.tick();
    assert_eq!(universe.cells()[4 * 9 + 4], Cell::Dead);
    // The arms survive with three neighbours each time the corners are born.
    assert_eq!(
        universe.get_living_cells(),
        vec![(3, 3), (3, 4), (3, 5), (4, 3), (4, 5), (5, 3), (5, 4), (5, 5)]
    );
}

#[test]
fn tick_reads_the_generation_before_only() {
    // A glider after one tick, cell for cell.
    let mut universe = universe_with(8, 8, &[(0, 1), (1, 2), (2, 0), (2, 1), (2, 2)]);
    universe.tick();
    let mut expected = Universe::new(8, 8).unwrap();
    expected.set_cells(&[(1, 0), (1, 2), (2, 1), (2, 2), (3, 1)]).unwrap();
    assert_eq!(universe.cells(), expected.cells());
}

#[test]
fn one_by_one_universe_is_its_own_neighbor() {
    // On a torus of one cell all eight neighbours are the cell itself.
    let mut universe = universe_with(1, 1, &[(0, 0)]);
    universe.tick();
    assert_eq!(universe.cells(), &vec![Cell::Dead]);
}

#[test]
fn narrow_universe_counts_wrapped_neighbors() {
    // One row of three: each live cell sees itself twice, above and below.
    let mut universe = universe_with(3, 1, &[(0, 1)]);
    universe.tick();
    // The live cell has two live neighbours and stays; its two dead
    // neighbours see it three times and are born.
    assert_eq!(universe.cells(), &vec![Cell::Alive, Cell::Alive, Cell::Alive]);
    universe.tick();
    // Now every cell has eight live neighbours.
    assert_eq!(universe.cells(), &vec![Cell::Dead, Cell::Dead, Cell::Dead]);
}

#[test]
fn toggle_cell_flips_one_cell() {
    let mut universe = Universe::new(5, 4).unwrap();
    assert_eq!(universe.toggle_cell(2, 3), Ok(()));
    assert_eq!(universe.cells()[2 * 5 + 3], Cell::Alive);
    assert_eq!(count_alive(&universe), 1);
    assert_eq!(universe.get_living_cells(), vec![(3, 2)]);
}

#[test]
fn toggle_cell_twice_restores_the_cell() {
    let mut universe = universe_with(5, 4, &[(1, 1), (3, 4)]);
    let before = universe.cells().clone();
    universe.toggle_cell(1, 1).unwrap();
    assert_eq!(universe.cells()[1 * 5 + 1], Cell::Dead);
    universe.toggle_cell(1, 1).unwrap();
    assert_eq!(universe.cells(), &before);
    universe.toggle_cell(0, 0).unwrap();
    universe.toggle_cell(0, 0).unwrap();
    assert_eq!(universe.cells(), &before);
}

#[test]
fn toggle_cell_outside_the_grid_is_refused() {
    let mut universe = universe_with(5, 4, &[(1, 1)]);
    let before = universe.cells().clone();
    assert_eq!(universe.toggle_cell(4, 0), Err(UniverseError::OutOfBounds));
    assert_eq!(universe.toggle_cell(0, 5), Err(UniverseError::OutOfBounds));
    assert_eq!(universe.toggle_cell(u32::MAX, u32::MAX), Err(UniverseError::OutOfBounds));
    // Column 7 of row 0 would be the index of a cell in row 1.
    assert_eq!(universe.toggle_cell(0, 7), Err(UniverseError::OutOfBounds));
    assert_eq!(universe.cells(), &before);
    assert_eq!(universe.toggle_cell(3, 4), Ok(()));
}

#[test]
fn living_cells_are_listed_column_by_column() {
    let universe = universe_with(4, 3, &[(2, 0), (0, 3), (1, 1), (0, 1), (2, 3)]);
    assert_eq!(universe.get_living_cells(), vec![(0, 2), (1, 0), (1, 1), (3, 0), (3, 2)]);
}

#[test]
fn living_cells_of_a_full_universe() {
    let universe = universe_with(2, 2, &[(0, 0), (0, 1), (1, 0), (1, 1)]);
    assert_eq!(universe.get_living_cells(), vec![(0, 0), (0, 1), (1, 0), (1, 1)]);
}

#[test]
fn cells_are_stored_row_by_row() {
    let universe = universe_with(3, 2, &[(0, 2), (1, 0)]);
    assert_eq!(
        universe.cells(),
        &vec![Cell::Dead, Cell::Dead, Cell::Alive, Cell::Alive, Cell::Dead, Cell::Dead]
    );
    assert_eq!(universe.get_cells(), universe.cells().as_slice());
}

#[test]
fn set_cells_makes_cells_alive() {
    let mut universe = Universe::new(4, 4).unwrap();
    assert_eq!(universe.set_cells(&[(1, 2), (3, 3), (1, 2)]), Ok(()));
    assert_eq!(universe.get_living_cells(), vec![(2, 1), (3, 3)]);
    // Cells that are alive stay alive.
    assert_eq!(universe.set_cells(&[(0, 0)]), Ok(()));
    assert_eq!(universe.get_living_cells(), vec![(0, 0), (2, 1), (3, 3)]);
    assert_eq!(universe.set_cells(&[]), Ok(()));
    assert_eq!(count_alive(&universe), 3);
}

#[test]
fn set_cells_outside_the_grid_changes_nothing() {
    let mut universe = universe_with(4, 4, &[(0, 0)]);
    assert_eq!(universe.set_cells(&[(1, 1), (4, 0)]), Err(UniverseError::OutOfBounds));
    assert_eq!(universe.set_cells(&[(0, 4), (1, 1)]), Err(UniverseError::OutOfBounds));
    assert_eq!(universe.get_living_cells(), vec![(0, 0)]);
}

#[test]
fn set_width_resets_the_cells() {
    let mut universe = universe_with(4, 3, &[(1, 1), (2, 2)]);
    assert_eq!(universe.set_width(6), Ok(()));
    assert_eq!((universe.width(), universe.height()), (6, 3));
    assert_eq!(universe.cells(), &vec![Cell::Dead; 18]);
}

#[test]
fn set_height_resets_the_cells() {
    let mut universe = universe_with(4, 3, &[(1, 1), (2, 2)]);
    assert_eq!(universe.set_height(2), Ok(()));
    assert_eq!((universe.width(), universe.height()), (4, 2));
    assert_eq!(universe.cells(), &vec![Cell::Dead; 8]);
}

#[test]
fn invalid_resize_changes_nothing() {
    let mut universe = universe_with(4, 3, &[(1, 1), (2, 2)]);
    let before = universe.cells().clone();
    assert_eq!(universe.set_width(0), Err(UniverseError::InvalidDimensions));
    assert_eq!(universe.set_height(0), Err(UniverseError::InvalidDimensions));
    assert_eq!(universe.set_width(u32::MAX), Err(UniverseError::InvalidDimensions));
    assert_eq!(universe.set_height(u32::MAX), Err(UniverseError::InvalidDimensions));
    assert_eq!((universe.width(), universe.height()), (4, 3));
    assert_eq!(universe.cells(), &before);
}

#[test]
fn random_keeps_the_dimensions() {
    let mut universe = universe_with(12, 7, &[(1, 1)]);
    universe.random();
    assert_eq!((universe.width(), universe.height()), (12, 7));
    assert_eq!(universe.cells().len(), 84);
    assert_eq!(universe.get_living_cells().len(), count_alive(&universe));
}

#[test]
fn random_makes_six_cells_in_ten_alive() {
    let mut universe = Universe::new(500, 500).unwrap();
    let mut alive = 0usize;
    let rounds = 4;
    for _ in 0..rounds {
        universe.random();
        alive += count_alive(&universe);
    }
    let fraction = alive as f64 / (rounds * 250_000) as f64;
    assert!((fraction - 0.6).abs() < 0.01, "fraction of live cells: {}", fraction);
}

#[test]
fn random_draws_every_cell_anew() {
    let mut universe = Universe::new(100, 100).unwrap();
    universe.random();
    let first = universe.cells().clone();
    universe.random();
    assert_ne!(universe.cells(), &first);
    let alive = count_alive(&universe);
    assert!(alive > 0 && alive < 10_000);
}
