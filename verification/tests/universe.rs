use torus_life::cell::{HEAT_BASELINE, HEAT_CEILING, HEAT_GAIN, HEAT_SCALE};
use torus_life::{Cell, Universe, ValidationError};

fn grid(width: usize, height: usize) -> Vec<Vec<Cell>> {
    (0..height).map(|y| (0..width).map(|x| Cell::new(width, height, x, y, false)).collect()).collect()
}

fn error_of(made: Result<Universe, ValidationError>) -> ValidationError {
    match made {
        Ok(_) => panic!("the rows were taken for a grid"),
        Err(error) => error,
    }
}

#[test]
fn from_dimensions_makes_a_dead_grid_at_baseline() {
    let universe = Universe::from_dimensions(7, 4).unwrap();
    let rows = universe.rows();
    assert_eq!(rows.len(), 4);
    for (y, row) in rows.iter().enumerate() {
        assert_eq!(row.len(), 7);
        for (x, cell) in row.iter().enumerate() {
            assert!(!cell.alive());
            assert_eq!(cell.heat() as f32 / HEAT_SCALE as f32, 1.0);
            assert_eq!(cell.ignore(), 0);
            assert_eq!(cell.coords(), (x, y));
        }
    }
}

#[test]
fn from_dimensions_of_one_cell() {
    let mut universe = Universe::from_dimensions(1, 1).unwrap();
    assert_eq!(universe.summarize(), ".\n");
    assert!(!universe.alive((0, 0)));
}

#[test]
fn from_dimensions_gives_each_cell_its_wrapped_neighbours() {
    let universe = Universe::from_dimensions(3, 3).unwrap();
    let rows = universe.rows();
    let mut spots = rows[0][0].neighbours().to_vec();
    spots.sort();
    assert_eq!(spots, vec![(0, 1), (0, 2), (1, 0), (1, 1), (1, 2), (2, 0), (2, 1), (2, 2)]);
    assert_eq!(rows[2][1].neighbours().bottom, (1, 0));
    assert_eq!(rows[1][2].neighbours().right, (0, 1));
}

#[test]
fn from_dimensions_without_rows_is_refused() {
    assert_eq!(error_of(Universe::from_dimensions(5, 0)), ValidationError::NoRows);
    assert_eq!(error_of(Universe::from_dimensions(0, 0)), ValidationError::NoRows);
}

#[test]
fn from_dimensions_without_columns_is_refused() {
    assert_eq!(
        error_of(Universe::from_dimensions(0, 5)),
        ValidationError::EmptyRow { row: 0 }
    );
}

#[test]
fn new_takes_a_rectangle() {
    let mut universe = Universe::new(grid(3, 2)).unwrap();
    assert_eq!(universe.summarize(), "...\n...\n");
    assert_eq!(universe.rows().len(), 2);
    assert!(!universe.alive((2, 1)));
}

#[test]
fn new_keeps_the_cells_it_is_given() {
    let mut rows = grid(3, 3);
    rows[1][2] = Cell::new(3, 3, 2, 1, true);
    rows[0][0].increase_heat();
    let mut universe = Universe::new(rows).unwrap();
    assert_eq!(universe.summarize(), "...\n..*\n...\n");
    assert!(universe.alive((2, 1)));
    assert_eq!(universe.rows()[0][0].heat(), HEAT_BASELINE + HEAT_GAIN);
}

#[test]
fn new_starts_paused() {
    let mut rows = grid(3, 3);
    rows[1][1] = Cell::new(3, 3, 1, 1, true);
    let mut universe = Universe::new(rows).unwrap();
    universe.tick();
    assert!(universe.alive((1, 1)));
    universe.pause();
    universe.tick();
    assert!(!universe.alive((1, 1)));
}

#[test]
fn new_refuses_no_rows() {
    assert_eq!(error_of(Universe::new(Vec::new())), ValidationError::NoRows);
}

#[test]
fn new_refuses_an_empty_first_row() {
    let rows = vec![Vec::new(), grid(2, 1).remove(0)];
    assert_eq!(error_of(Universe::new(rows)), ValidationError::EmptyRow { row: 0 });
}

#[test]
fn new_refuses_an_empty_row_and_names_it() {
    let mut rows = grid(2, 3);
    rows[2].clear();
    assert_eq!(error_of(Universe::new(rows)), ValidationError::EmptyRow { row: 2 });
}

#[test]
fn new_refuses_a_longer_row_and_names_both_widths() {
    let mut rows = grid(2, 3);
    rows[1].push(Cell::new(2, 3, 0, 1, false));
    assert_eq!(
        error_of(Universe::new(rows)),
        ValidationError::UnevenRow { row: 1, expected: 2, found: 3 }
    );
}

#[test]
fn new_refuses_a_shorter_row_and_names_both_widths() {
    let mut rows = grid(4, 4);
    rows[3].pop();
    assert_eq!(
        error_of(Universe::new(rows)),
        ValidationError::UnevenRow { row: 3, expected: 4, found: 3 }
    );
}

#[test]
fn new_reports_the_first_row_that_does_not_fit() {
    let mut rows = grid(3, 4);
    rows[1].pop();
    rows[2].clear();
    assert_eq!(
        error_of(Universe::new(rows)),
        ValidationError::UnevenRow { row: 1, expected: 3, found: 2 }
    );

    let mut rows = grid(3, 4);
    rows[1].clear();
    rows[2].pop();
    assert_eq!(error_of(Universe::new(rows)), ValidationError::EmptyRow { row: 1 });
}

#[test]
fn summarize_marks_living_cells_with_a_star() {
    let mut universe = Universe::from_dimensions(4, 3).unwrap();
    universe.set_alive((0, 0), true, 0);
    universe.set_alive((3, 1), true, 0);
    universe.set_alive((1, 2), true, 0);
    universe.set_alive((2, 2), true, 0);
    assert_eq!(universe.summarize(), "*...\n...*\n.**.\n");
}

#[test]
fn summarize_has_a_line_for_each_row() {
    let universe = Universe::from_dimensions(40, 13).unwrap();
    let text = universe.summarize();
    assert_eq!(text.len(), 13 * 41);
    assert_eq!(text.lines().count(), 13);
    for line in text.lines() {
        assert_eq!(line, ".".repeat(40));
    }
    assert!(text.ends_with('\n'));
}

#[test]
fn rows_is_a_copy() {
    let mut universe = Universe::from_dimensions(3, 3).unwrap();
    let mut rows = universe.rows();
    rows[1][1].set_alive(true, 0);
    rows[0].clear();
    assert!(!universe.alive((1, 1)));
    assert_eq!(universe.rows()[0].len(), 3);
    assert_eq!(universe.summarize(), "...\n...\n...\n");
}

#[test]
fn rows_shows_what_was_set() {
    let mut universe = Universe::from_dimensions(3, 2).unwrap();
    universe.set_alive((2, 0), true, 4);
    universe.increase_heat((0, 1));
    let rows = universe.rows();
    assert!(rows[0][2].alive());
    assert_eq!(rows[0][2].ignore(), 4);
    assert_eq!(rows[1][0].heat(), HEAT_BASELINE + HEAT_GAIN);
    assert!(!rows[1][0].alive());
}

#[test]
fn set_alive_takes_column_then_row() {
    let mut universe = Universe::from_dimensions(4, 2).unwrap();
    universe.set_alive((3, 0), true, 0);
    assert!(universe.alive((3, 0)));
    assert!(!universe.alive((0, 1)));
    assert_eq!(universe.summarize(), "...*\n....\n");
}

#[test]
fn set_alive_in_the_universe_is_debounced() {
    let mut universe = Universe::from_dimensions(3, 3).unwrap();
    universe.set_alive((1, 1), true, 2);
    universe.set_alive((1, 1), false, 2);
    assert!(universe.alive((1, 1)));
    assert_eq!(universe.rows()[1][1].ignore(), 1);
    universe.set_alive((1, 1), false, 2);
    assert!(universe.alive((1, 1)));
    assert_eq!(universe.rows()[1][1].ignore(), 0);
    universe.set_alive((1, 1), false, 2);
    assert!(!universe.alive((1, 1)));
    assert_eq!(universe.rows()[1][1].ignore(), 2);
}

#[test]
fn set_alive_touches_one_cell_only() {
    let mut universe = Universe::from_dimensions(3, 3).unwrap();
    universe.set_alive((2, 1), true, 0);
    for (y, row) in universe.rows().iter().enumerate() {
        for (x, cell) in row.iter().enumerate() {
            assert_eq!(cell.alive(), (x, y) == (2, 1));
            assert_eq!(cell.heat(), HEAT_BASELINE);
        }
    }
}

#[test]
fn heat_of_one_cell_goes_up_and_down() {
    let mut universe = Universe::from_dimensions(3, 3).unwrap();
    universe.increase_heat((0, 2));
    universe.increase_heat((0, 2));
    universe.decrease_heat((0, 2));
    assert_eq!(universe.rows()[2][0].heat() as f32 / HEAT_SCALE as f32, 4.5);
    universe.decrease_heat((1, 1));
    assert_eq!(universe.rows()[1][1].heat(), HEAT_BASELINE);
    for _ in 0..600 {
        universe.increase_heat((2, 0));
    }
    assert_eq!(universe.rows()[0][2].heat(), HEAT_CEILING);
}

#[test]
fn reset_then_summarize_shows_only_dots() {
    let mut universe = Universe::from_dimensions(5, 4).unwrap();
    universe.pause();
    universe.set_alive((1, 1), true, 3);
    universe.set_alive((2, 1), true, 0);
    universe.set_alive((3, 1), true, 0);
    universe.tick();
    universe.tick();
    universe.increase_heat((0, 0));
    universe.reset();
    assert_eq!(universe.summarize(), ".....\n.....\n.....\n.....\n");
    for (y, row) in universe.rows().iter().enumerate() {
        for (x, cell) in row.iter().enumerate() {
            assert!(!cell.alive());
            assert_eq!(cell.heat() as f32 / HEAT_SCALE as f32, 1.0);
            assert_eq!(cell.ignore(), 0);
            assert_eq!(cell.coords(), (x, y));
        }
    }
}

#[test]
fn reset_keeps_the_neighbours() {
    let mut universe = Universe::from_dimensions(4, 4).unwrap();
    let before: Vec<_> = universe.rows().iter().flatten().map(|cell| cell.neighbours().to_vec()).collect();
    universe.set_alive((0, 0), true, 0);
    universe.reset();
    let after: Vec<_> = universe.rows().iter().flatten().map(|cell| cell.neighbours().to_vec()).collect();
    assert_eq!(before, after);
}

#[test]
fn reset_leaves_the_pause_flag() {
    let mut universe = Universe::from_dimensions(3, 3).unwrap();
    universe.pause();
    universe.reset();
    universe.set_alive((1, 1), true, 0);
    universe.tick();
    assert!(!universe.alive((1, 1)));

    let mut paused = Universe::from_dimensions(3, 3).unwrap();
    paused.reset();
    paused.set_alive((1, 1), true, 0);
    paused.tick();
    assert!(paused.alive((1, 1)));
}

#[test]
fn pause_toggles() {
    let mut universe = Universe::from_dimensions(3, 3).unwrap();
    universe.set_alive((1, 1), true, 0);
    universe.pause();
    universe.pause();
    universe.tick();
    assert!(universe.alive((1, 1)));
    universe.pause();
    universe.tick();
    assert!(!universe.alive((1, 1)));
}

#[test]
fn default_universe_is_forty_by_thirteen() {
    let mut universe = Universe::default();
    let rows = universe.rows();
    assert_eq!(rows.len(), 13);
    assert!(rows.iter().all(|row| row.len() == 40));
    assert!(rows.iter().flatten().all(|cell| !cell.alive() && cell.heat() == HEAT_BASELINE));
    universe.set_alive((39, 12), true, 0);
    universe.tick();
    assert!(universe.alive((39, 12)));
}

#[test]
fn clone_is_independent() {
    let mut universe = Universe::from_dimensions(3, 3).unwrap();
    universe.set_alive((0, 0), true, 0);
    let mut copy = universe.clone();
    universe.set_alive((1, 1), true, 0);
    universe.pause();
    assert_eq!(copy.summarize(), "*..\n...\n...\n");
    copy.tick();
    assert!(copy.alive((0, 0)));
    assert_eq!(universe.summarize(), "*..\n.*.\n...\n");
}

#[test]
fn has_tells_cells_from_positions_off_the_grid() {
    let universe = Universe::from_dimensions(4, 2).unwrap();
    assert!(universe.has((0, 0)));
    assert!(universe.has((3, 1)));
    assert!(!universe.has((4, 1)));
    assert!(!universe.has((3, 2)));
    assert!(!universe.has((1, 4)));
    assert!(!universe.has((usize::MAX, usize::MAX)));
}

#[test]
fn universe_from_dimensions_is_coherent_and_stays_so() {
    let mut universe = Universe::from_dimensions(6, 5).unwrap();
    assert!(universe.is_coherent());
    universe.set_alive((1, 1), true, 1);
    universe.pause();
    universe.tick();
    universe.increase_heat((0, 0));
    universe.reset();
    assert!(universe.is_coherent());
    assert!(Universe::default().is_coherent());
    assert!(Universe::from_dimensions(1, 1).unwrap().is_coherent());
}

#[test]
fn universe_of_well_placed_rows_is_coherent() {
    assert!(Universe::new(grid(3, 2)).unwrap().is_coherent());
}

#[test]
fn universe_with_a_cell_out_of_place_is_not_coherent() {
    let mut rows = grid(3, 3);
    rows[1][1] = Cell::new(3, 3, 2, 1, false);
    assert!(!Universe::new(rows).unwrap().is_coherent());

    let mut rows = grid(3, 3);
    rows[0][0] = Cell::new(3, 3, 0, 1, false);
    assert!(!Universe::new(rows).unwrap().is_coherent());
}

#[test]
fn universe_with_neighbours_off_the_grid_is_not_coherent() {
    let mut rows = grid(3, 3);
    rows[2][2] = Cell::new(4, 3, 2, 2, false);
    assert!(!Universe::new(rows).unwrap().is_coherent());

    let mut rows = grid(3, 3);
    rows[2][2] = Cell::new(3, 5, 2, 2, false);
    assert!(!Universe::new(rows).unwrap().is_coherent());
}

#[test]
fn universe_with_neighbours_of_a_smaller_grid_is_coherent() {
    let mut rows = grid(3, 3);
    rows[0][0] = Cell::new(2, 2, 0, 0, true);
    let mut universe = Universe::new(rows).unwrap();
    assert!(universe.is_coherent());
    universe.pause();
    universe.tick();
    assert!(!universe.alive((0, 0)));
}
