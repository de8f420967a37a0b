use find_food::agents::Prey;
use find_food::grid::Grid;

fn empty_grid(w: usize, h: usize) -> Grid {
    Grid::new(w, h, 0, 0)
}

#[test]
fn look_wraps_at_the_last_cell() {
    // Sensing from the last cell of a 4x4 torus must reach cell 0 going
    // east and wrap on the flat index in every direction.
    let mut g = empty_grid(4, 4);
    g.ternary[0] = 1; // east of 15: (15 + 1) % 16 == 0
    g.ternary[14] = -1; // west of 15: (15 + 16 - 1) % 16 == 14
    g.ternary[3] = 1; // south of 15: (15 + 4) % 16 == 3
    g.ternary[11] = 0; // north of 15: (15 + 12) % 16 == 11
    let mut p = Prey::new(15, 1, 5);
    p.view_distance = 1;
    let view = p.look(&g);
    assert_eq!(view, vec![1, -1, 1, 0]);
}

#[test]
fn look_orders_rays_by_distance_then_direction() {
    let mut g = empty_grid(4, 4);
    for (i, c) in [(1, 1), (15, -1), (4, 1), (12, -1), (2, 1), (14, 1), (8, -1)] {
        g.ternary[i as usize] = c;
    }
    let p = Prey::new(0, 2, 5);
    let view = p.look(&g);
    // distance 1: east g[1], west g[15], south g[4], north g[12];
    // distance 2: east g[2], west g[14], south g[8], north g[(2*12) % 16] == g[8].
    assert_eq!(view, vec![1, -1, 1, -1, 1, 1, -1, -1]);
}

#[test]
fn actions_move_on_the_flat_torus() {
    let g = empty_grid(4, 4);

    let mut p = Prey::new(3, 1, 5);
    p.take_step(&g, 1); // east from the row edge crosses into the next row
    assert_eq!(p.position, 4);
    assert_eq!(p.prev_position, 3);

    let mut p = Prey::new(0, 1, 5);
    p.take_step(&g, 2); // west from cell 0 wraps to the last cell
    assert_eq!(p.position, 15);

    let mut p = Prey::new(14, 1, 5);
    p.take_step(&g, 3); // south from the last row wraps to the first
    assert_eq!(p.position, 2);

    let mut p = Prey::new(2, 1, 5);
    p.take_step(&g, 4); // north from the first row wraps to the last
    assert_eq!(p.position, 14);

    let mut p = Prey::new(5, 1, 5);
    p.take_step(&g, 0); // stay
    assert_eq!(p.position, 5);
    assert_eq!(p.prev_position, 5);
}

#[test]
fn any_action_above_three_moves_north() {
    let g = empty_grid(4, 4);
    let mut p = Prey::new(9, 1, 5);
    p.take_step(&g, 4);
    assert_eq!(p.position, 5);
    let mut q = Prey::new(9, 1, 5);
    q.take_step(&g, 5);
    assert_eq!(q.position, 5);
}

#[test]
fn stepping_spends_one_energy() {
    let g = empty_grid(4, 4);
    let mut p = Prey::new(0, 1, 3);
    p.take_step(&g, 0);
    assert_eq!(p.energy, 2);
    p.take_step(&g, 0);
    assert_eq!(p.energy, 1);
}

#[test]
fn energy_is_clamped_at_zero() {
    let g = empty_grid(4, 4);
    let mut p = Prey::new(0, 1, 1);
    p.take_step(&g, 0);
    assert_eq!(p.energy, 0);
    p.take_step(&g, 0); // an exhausted agent is never decremented further
    assert_eq!(p.energy, 0);
}

#[test]
fn new_prey_records_its_placement() {
    let p = Prey::new(7, 2, 9);
    assert_eq!(p.position, 7);
    assert_eq!(p.prev_position, 7);
    assert_eq!(p.view_distance, 2);
    assert_eq!(p.energy, 9);
    assert_eq!(p.split_count, 0);
}
