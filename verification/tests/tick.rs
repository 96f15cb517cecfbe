use torus_life::cell::{HEAT_BASELINE, HEAT_GAIN, HEAT_LOSS, HEAT_SCALE};
use torus_life::Universe;

fn running(width: usize, height: usize, living: &[(usize, usize)]) -> Universe {
    let mut universe = Universe::from_dimensions(width, height).unwrap();
    for spot in living {
        universe.set_alive(*spot, true, 0);
    }
    universe.pause();
    universe
}

fn heat_at(universe: &Universe, x: usize, y: usize) -> f32 {
    universe.rows()[y][x].heat() as f32 / HEAT_SCALE as f32
}

#[test]
fn block_is_a_still_life() {
    let mut universe = running(4, 4, &[(1, 1), (2, 1), (1, 2), (2, 2)]);
    let before = universe.summarize();
    assert_eq!(before, "....\n.**.\n.**.\n....\n");
    for _ in 0..5 {
        universe.tick();
        assert_eq!(universe.summarize(), before);
    }
}

#[test]
fn block_over_the_edges_is_a_still_life() {
    let mut universe = running(6, 5, &[(5, 4), (0, 4), (5, 0), (0, 0)]);
    let before = universe.summarize();
    assert_eq!(before, "*....*\n......\n......\n......\n*....*\n");
    for _ in 0..4 {
        universe.tick();
        assert_eq!(universe.summarize(), before);
    }
}

#[test]
fn block_only_cools() {
    let mut universe = running(4, 4, &[(1, 1), (2, 1), (1, 2), (2, 2)]);
    universe.increase_heat((1, 1));
    universe.increase_heat((3, 3));
    universe.tick();
    assert_eq!(heat_at(&universe, 1, 1), 2.5);
    assert_eq!(heat_at(&universe, 3, 3), 2.5);
    assert_eq!(heat_at(&universe, 2, 2), 1.0);
    assert_eq!(heat_at(&universe, 0, 0), 1.0);
}

#[test]
fn blinker_alternates() {
    let mut universe = running(5, 5, &[(1, 2), (2, 2), (3, 2)]);
    let flat = ".....\n.....\n.***.\n.....\n.....\n";
    let upright = ".....\n..*..\n..*..\n..*..\n.....\n";
    assert_eq!(universe.summarize(), flat);
    universe.tick();
    assert_eq!(universe.summarize(), upright);
    universe.tick();
    assert_eq!(universe.summarize(), flat);
    universe.tick();
    assert_eq!(universe.summarize(), upright);
    universe.tick();
    assert_eq!(universe.summarize(), flat);
}

#[test]
fn blinker_over_the_edge_alternates() {
    let mut universe = running(5, 6, &[(4, 0), (0, 0), (1, 0)]);
    let flat = "**..*\n.....\n.....\n.....\n.....\n.....\n";
    let upright = "*....\n*....\n.....\n.....\n.....\n*....\n";
    assert_eq!(universe.summarize(), flat);
    universe.tick();
    assert_eq!(universe.summarize(), upright);
    universe.tick();
    assert_eq!(universe.summarize(), flat);
}

#[test]
fn blinker_leaves_a_heat_trail() {
    let mut universe = running(5, 5, &[(1, 2), (2, 2), (3, 2)]);
    universe.tick();
    assert_eq!(heat_at(&universe, 2, 1), 3.0);
    assert_eq!(heat_at(&universe, 2, 3), 3.0);
    assert_eq!(heat_at(&universe, 2, 2), 1.0);
    assert_eq!(heat_at(&universe, 1, 2), 1.0);
    assert_eq!(heat_at(&universe, 0, 0), 1.0);
    universe.tick();
    assert_eq!(heat_at(&universe, 2, 1), 2.5);
    assert_eq!(heat_at(&universe, 2, 3), 2.5);
    assert_eq!(heat_at(&universe, 1, 2), 3.0);
    assert_eq!(heat_at(&universe, 3, 2), 3.0);
    universe.tick();
    assert_eq!(heat_at(&universe, 2, 1), 4.5);
    assert_eq!(heat_at(&universe, 1, 2), 2.5);
    assert_eq!(
        universe.rows()[1][2].heat(),
        HEAT_BASELINE + HEAT_GAIN - HEAT_LOSS + HEAT_GAIN
    );
}

#[test]
fn lonely_cell_dies() {
    let mut universe = running(5, 5, &[(2, 2)]);
    universe.tick();
    assert_eq!(universe.summarize(), ".....\n.....\n.....\n.....\n.....\n");
}

#[test]
fn cell_with_one_neighbour_dies() {
    let mut universe = running(5, 5, &[(2, 2), (3, 2)]);
    universe.tick();
    assert!(!universe.alive((2, 2)));
    assert!(!universe.alive((3, 2)));
}

#[test]
fn crowded_cell_dies() {
    let mut universe = running(5, 5, &[(2, 2), (1, 2), (3, 2), (2, 1), (2, 3)]);
    universe.tick();
    assert!(!universe.alive((2, 2)));
    assert_eq!(universe.summarize(), ".....\n.***.\n.*.*.\n.***.\n.....\n");
}

#[test]
fn dead_cell_with_three_neighbours_is_born() {
    let mut universe = running(5, 5, &[(1, 1), (3, 1), (2, 3)]);
    universe.tick();
    assert!(universe.alive((2, 2)));
    assert_eq!(universe.summarize(), ".....\n.....\n..*..\n.....\n.....\n");
    assert_eq!(heat_at(&universe, 2, 2), 3.0);
}

#[test]
fn dead_cell_with_two_or_four_neighbours_stays_dead() {
    let mut two = running(5, 5, &[(1, 1), (3, 3)]);
    two.tick();
    assert!(!two.alive((2, 2)));
    let mut four = running(5, 5, &[(1, 1), (3, 1), (1, 3), (3, 3)]);
    four.tick();
    assert!(!four.alive((2, 2)));
}

#[test]
fn tick_counts_in_the_generation_before() {
    let mut universe = running(6, 6, &[(1, 1), (2, 1), (1, 2)]);
    universe.tick();
    assert_eq!(universe.summarize(), "......\n.**...\n.**...\n......\n......\n......\n");
}

#[test]
fn glider_moves_across_the_edge() {
    let mut universe = running(6, 6, &[(1, 0), (2, 1), (0, 2), (1, 2), (2, 2)]);
    for _ in 0..4 {
        universe.tick();
    }
    assert_eq!(universe.summarize(), "......\n..*...\n...*..\n.***..\n......\n......\n");
    for _ in 0..20 {
        universe.tick();
    }
    assert_eq!(universe.summarize(), ".*....\n..*...\n***...\n......\n......\n......\n");
}

#[test]
fn neighbours_are_counted_over_the_edge() {
    let mut universe = running(5, 5, &[(4, 4), (0, 4), (4, 1)]);
    universe.tick();
    assert!(universe.alive((4, 0)));
    assert!(universe.alive((0, 0)));
    assert_eq!(universe.summarize(), "*...*\n.....\n.....\n.....\n.....\n");
}

#[test]
fn on_a_small_torus_a_spot_counts_as_often_as_it_occurs() {
    let mut universe = running(2, 2, &[(0, 0)]);
    universe.tick();
    assert_eq!(universe.summarize(), "..\n..\n");

    let mut single = running(1, 1, &[(0, 0)]);
    single.tick();
    assert!(!single.alive((0, 0)));

    let mut row = running(3, 1, &[(0, 0)]);
    row.tick();
    assert_eq!(row.summarize(), "***\n");
}

#[test]
fn paused_universe_keeps_every_cell_as_alive_as_it_was() {
    let mut universe = Universe::from_dimensions(5, 5).unwrap();
    universe.set_alive((2, 2), true, 0);
    universe.set_alive((1, 1), true, 0);
    universe.set_alive((3, 1), true, 0);
    universe.set_alive((2, 4), true, 0);
    let before = universe.summarize();
    for _ in 0..10 {
        universe.tick();
        assert_eq!(universe.summarize(), before);
    }
}

#[test]
fn pause_freezes_a_running_universe() {
    let mut universe = running(5, 5, &[(1, 2), (2, 2), (3, 2)]);
    universe.tick();
    universe.pause();
    let frozen = universe.summarize();
    assert_eq!(frozen, ".....\n..*..\n..*..\n..*..\n.....\n");
    for _ in 0..7 {
        universe.tick();
        assert_eq!(universe.summarize(), frozen);
    }
    universe.pause();
    universe.tick();
    assert_eq!(universe.summarize(), ".....\n.....\n.***.\n.....\n.....\n");
}

#[test]
fn heat_decays_to_baseline_while_paused() {
    let mut universe = running(5, 5, &[(1, 2), (2, 2), (3, 2)]);
    universe.tick();
    universe.pause();
    assert_eq!(heat_at(&universe, 2, 1), 3.0);
    let steps = [2.5, 2.0, 1.5, 1.0, 1.0, 1.0];
    for expected in steps {
        universe.tick();
        assert_eq!(heat_at(&universe, 2, 1), expected);
        assert_eq!(heat_at(&universe, 2, 3), expected);
        assert_eq!(heat_at(&universe, 0, 0), 1.0);
    }
}

#[test]
fn paused_tick_leaves_the_budget() {
    let mut universe = Universe::from_dimensions(3, 3).unwrap();
    universe.set_alive((1, 1), true, 2);
    universe.tick();
    universe.tick();
    assert!(universe.alive((1, 1)));
    assert_eq!(universe.rows()[1][1].ignore(), 2);
}

#[test]
fn budget_holds_off_a_death_by_the_rules() {
    let mut universe = Universe::from_dimensions(5, 5).unwrap();
    universe.set_alive((2, 2), true, 2);
    universe.pause();
    universe.tick();
    assert!(universe.alive((2, 2)));
    assert_eq!(universe.rows()[2][2].ignore(), 1);
    universe.tick();
    assert!(universe.alive((2, 2)));
    assert_eq!(universe.rows()[2][2].ignore(), 0);
    universe.tick();
    assert!(!universe.alive((2, 2)));
    assert_eq!(universe.rows()[2][2].ignore(), 0);
}

#[test]
fn birth_by_the_rules_clears_the_budget() {
    let mut universe = Universe::from_dimensions(5, 5).unwrap();
    universe.set_alive((2, 2), true, 3);
    universe.set_alive((2, 2), false, 3);
    universe.set_alive((2, 2), false, 3);
    universe.set_alive((2, 2), false, 3);
    universe.set_alive((2, 2), false, 3);
    assert!(!universe.alive((2, 2)));
    assert_eq!(universe.rows()[2][2].ignore(), 3);
    universe.set_alive((1, 1), true, 0);
    universe.set_alive((3, 1), true, 0);
    universe.set_alive((2, 3), true, 0);
    universe.pause();
    universe.tick();
    assert!(universe.alive((2, 2)));
    assert_eq!(universe.rows()[2][2].ignore(), 0);
}

#[test]
fn tick_keeps_places_and_neighbours() {
    let mut universe = running(5, 4, &[(1, 2), (2, 2), (3, 2)]);
    let before: Vec<_> = universe
        .rows()
        .iter()
        .flatten()
        .map(|cell| (cell.coords(), cell.neighbours().to_vec()))
        .collect();
    universe.tick();
    universe.tick();
    let after: Vec<_> = universe
        .rows()
        .iter()
        .flatten()
        .map(|cell| (cell.coords(), cell.neighbours().to_vec()))
        .collect();
    assert_eq!(before, after);
    assert_eq!(universe.rows().len(), 4);
}
