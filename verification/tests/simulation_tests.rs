use find_food::agents::Prey;
use find_food::grid::Grid;
use find_food::{fresh_start, negate_running, take_step, SimulationConfig, SimulationState};

fn test_config(width: usize, height: usize, max_energy: usize, max_split: usize) -> SimulationConfig {
    SimulationConfig {
        prob_prey: 0,
        prob_food: 0,
        grid_width: width,
        grid_height: height,
        max_energy_prey: max_energy,
        max_energy_predator: max_energy,
        view_distance_prey: 1,
        view_distance_predator: 1,
        max_split_count_prey: max_split,
        max_split_count_predator: max_split,
        energy_gain_predator: max_energy,
    }
}

fn state_with(
    config: SimulationConfig,
    cells: Vec<i8>,
    prey_list: Vec<Prey>,
) -> SimulationState {
    let mut grid = Grid::new(config.grid_width, config.grid_height, 0, 0);
    grid.ternary = cells;
    SimulationState { config, grid, prey_list, running: false }
}

fn no_regrow(n: usize) -> Vec<bool> {
    vec![false; n]
}

#[test]
fn lone_prey_starves_and_is_removed_after_three_ticks() {
    // A 4x4 grid, a single prey at cell 0 with energy 3, and a decision
    // that always stays put: after the third tick its energy is spent
    // and that tick's world update removes it.
    let config = test_config(4, 4, 3, usize::MAX);
    let mut p = Prey::new(0, 1, 3);
    p.view_distance = config.view_distance_prey;
    let mut s = state_with(config, vec![0; 16], vec![p]);

    for expected_energy in [2usize, 1] {
        s.step_agents(&vec![0]);
        let r = s.update_world(&no_regrow(16));
        assert_eq!(s.prey_list.len(), 1);
        assert_eq!(s.prey_list[0].energy, expected_energy);
        assert!(r.removed.is_empty());
    }

    s.step_agents(&vec![0]);
    assert_eq!(s.prey_list[0].energy, 0);
    let r = s.update_world(&no_regrow(16));
    assert_eq!(r.removed, vec![0]);
    assert!(s.prey_list.is_empty());
}

#[test]
fn energy_decreases_by_one_each_tick_without_food() {
    let config = test_config(4, 4, 10, usize::MAX);
    let mut s = state_with(config, vec![0; 16], vec![Prey::new(5, 1, 10)]);
    for expected in [9usize, 8, 7, 6] {
        s.step_agents(&vec![0]);
        s.update_world(&no_regrow(16));
        assert_eq!(s.prey_list[0].energy, expected);
    }
}

#[test]
fn eating_restores_energy_and_advances_split_count() {
    let config = test_config(4, 4, 10, usize::MAX);
    let mut cells = vec![0; 16];
    cells[5] = 1; // food where the prey stands
    let mut s = state_with(config, cells, vec![Prey::new(5, 1, 4)]);
    s.step_agents(&vec![0]);
    assert_eq!(s.prey_list[0].energy, 3);
    s.update_world(&no_regrow(16));
    // the food is consumed and the species maximum is added
    assert_eq!(s.prey_list[0].energy, 13);
    assert_eq!(s.prey_list[0].split_count, 1);
    assert_eq!(s.grid.ternary[5], -1);
}

#[test]
fn reproduction_spawns_at_previous_position_when_empty() {
    let config = test_config(4, 4, 7, 2);
    let mut parent = Prey::new(5, 1, 7);
    parent.prev_position = 9;
    parent.split_count = 2; // at the threshold
    let mut s = state_with(config, vec![0; 16], vec![parent]);
    let r = s.update_world(&no_regrow(16));
    assert_eq!(r.births.len(), 1);
    assert_eq!(r.births[0].parent, 0);
    assert_eq!(r.births[0].position, 9);
    assert!(r.births[0].spawned);
    assert_eq!(s.prey_list.len(), 2);
    assert_eq!(s.prey_list[0].split_count, 0); // reset regardless
    assert_eq!(s.prey_list[1].position, 9);
    assert_eq!(s.prey_list[1].energy, 7); // a newborn starts at full energy
    assert_eq!(s.grid.ternary[9], -1);
}

#[test]
fn reproduction_is_dropped_when_the_cell_is_occupied() {
    let config = test_config(4, 4, 7, 2);
    let mut parent = Prey::new(5, 1, 7);
    parent.prev_position = 5; // the parent still stands there
    parent.split_count = 2;
    let mut s = state_with(config, vec![0; 16], vec![parent]);
    let r = s.update_world(&no_regrow(16));
    assert_eq!(r.births.len(), 1);
    assert!(!r.births[0].spawned);
    assert_eq!(s.prey_list.len(), 1);
    assert_eq!(s.prey_list[0].split_count, 0); // still reset
}

#[test]
fn food_count_is_invariant_without_regrowth() {
    let config = test_config(4, 4, 10, usize::MAX);
    let mut cells = vec![0; 16];
    cells[1] = 1;
    cells[7] = 1;
    cells[12] = 1;
    // the prey stands on an empty cell and stays there
    let mut s = state_with(config, cells, vec![Prey::new(5, 1, 10)]);
    for _ in 0..3 {
        s.step_agents(&vec![0]);
        s.update_world(&no_regrow(16));
        let food = s.grid.ternary.iter().filter(|&&c| c == 1).count();
        assert_eq!(food, 3);
    }
}

#[test]
fn regrowth_fills_exactly_the_flagged_empty_cell() {
    // An 8x8 grid: regrowth forced on for one designated empty cell and
    // off everywhere else. After one update exactly that cell holds food
    // and no other empty cell changed.
    let config = test_config(8, 8, 10, usize::MAX);
    let mut cells = vec![0; 64];
    cells[3] = 1; // pre-existing food persists
    let mut s = state_with(config, cells, vec![]);
    let mut flags = vec![false; 64];
    flags[20] = true;
    s.update_world(&flags);
    for (i, &c) in s.grid.ternary.iter().enumerate() {
        let expected: i8 = if i == 20 || i == 3 { 1 } else { 0 };
        assert_eq!(c, expected, "cell {}", i);
    }
}

#[test]
fn a_flagged_food_cell_does_not_change() {
    let config = test_config(4, 4, 10, usize::MAX);
    let mut cells = vec![0; 16];
    cells[2] = 1;
    let mut s = state_with(config, cells, vec![]);
    let mut flags = vec![false; 16];
    flags[2] = true; // already food: regrowth only touches empty cells
    s.update_world(&flags);
    assert_eq!(s.grid.ternary[2], 1);
    assert_eq!(s.grid.ternary.iter().filter(|&&c| c == 1).count(), 1);
}

#[test]
fn later_prey_wins_a_shared_cell_and_eats_first() {
    // Two prey on the same food cell: the first in population order eats
    // (the food is consumed before its marker is written), the second
    // finds the cell already marked and gains nothing; the cell ends as
    // a prey marker either way.
    let config = test_config(4, 4, 10, usize::MAX);
    let mut cells = vec![0; 16];
    cells[6] = 1;
    let first = Prey::new(6, 1, 5);
    let second = Prey::new(6, 1, 5);
    let mut s = state_with(config, cells, vec![first, second]);
    s.update_world(&no_regrow(16));
    assert_eq!(s.prey_list[0].energy, 15);
    assert_eq!(s.prey_list[0].split_count, 1);
    assert_eq!(s.prey_list[1].energy, 5);
    assert_eq!(s.prey_list[1].split_count, 0);
    assert_eq!(s.grid.ternary[6], -1);
}

#[test]
fn dead_prey_are_removed_from_highest_index_down() {
    let config = test_config(4, 4, 10, usize::MAX);
    let mut a = Prey::new(1, 1, 10);
    a.energy = 0;
    let b = Prey::new(2, 1, 10);
    let mut c = Prey::new(3, 1, 10);
    c.energy = 0;
    let mut s = state_with(config, vec![0; 16], vec![a, b, c]);
    let r = s.update_world(&no_regrow(16));
    assert_eq!(r.removed, vec![0, 2]);
    assert_eq!(s.prey_list.len(), 1);
    assert_eq!(s.prey_list[0].position, 2);
}

#[test]
fn fresh_start_places_one_prey_per_marked_cell() {
    let s = fresh_start();
    assert_eq!(s.config.grid_width, 32);
    assert_eq!(s.config.grid_height, 32);
    assert_eq!(s.grid.ternary.len(), 1024);
    assert!(!s.running);
    let marked: Vec<usize> = s
        .grid
        .ternary
        .iter()
        .enumerate()
        .filter(|(_, &c)| c == -1)
        .map(|(i, _)| i)
        .collect();
    assert_eq!(s.prey_list.len(), marked.len());
    for (p, &cell) in s.prey_list.iter().zip(marked.iter()) {
        assert_eq!(p.position, cell);
        assert_eq!(p.prev_position, cell);
        assert_eq!(p.energy, s.config.max_energy_prey);
        assert_eq!(p.split_count, 0);
    }
}

#[test]
fn take_step_runs_whole_ticks() {
    let mut s = fresh_start();
    for _ in 0..5 {
        let actions = vec![1; s.prey_list.len()];
        take_step(&mut s, &actions);
        assert_eq!(s.grid.ternary.len(), 1024);
        assert!(s.grid.ternary.iter().all(|&c| c == -1 || c == 0 || c == 1));
        for p in &s.prey_list {
            assert!(p.position < 1024);
        }
    }
}

#[test]
fn update_grid_keeps_dimensions_and_config() {
    let config = test_config(4, 4, 10, usize::MAX);
    let mut s = state_with(config, vec![0; 16], vec![Prey::new(0, 1, 10)]);
    s.update_grid();
    assert_eq!(s.grid.width, 4);
    assert_eq!(s.grid.height, 4);
    assert_eq!(s.config, test_config(4, 4, 10, usize::MAX));
    assert_eq!(s.prey_list.len(), 1);
}

#[test]
fn two_births_compete_for_one_cell() {
    // Both parents would spawn into the same empty cell: the first event
    // in population order wins, the second is dropped.
    let config = test_config(4, 4, 7, 1);
    let mut a = Prey::new(5, 1, 7);
    a.prev_position = 9;
    a.split_count = 1;
    let mut b = Prey::new(6, 1, 7);
    b.prev_position = 9;
    b.split_count = 1;
    let mut s = state_with(config, vec![0; 16], vec![a, b]);
    let r = s.update_world(&no_regrow(16));
    assert_eq!(r.births.len(), 2);
    assert!(r.births[0].spawned);
    assert!(!r.births[1].spawned);
    assert_eq!(s.prey_list.len(), 3);
    assert_eq!(s.prey_list[2].position, 9);
}

#[test]
fn negate_running_toggles_the_flag_only() {
    let config = test_config(4, 4, 10, usize::MAX);
    let mut s = state_with(config, vec![0; 16], vec![]);
    assert!(!s.running);
    negate_running(&mut s);
    assert!(s.running);
    negate_running(&mut s);
    assert!(!s.running);
}
