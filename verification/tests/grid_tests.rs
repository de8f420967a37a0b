use find_food::grid::Grid;

#[test]
fn new_grid_is_empty_with_zero_probabilities() {
    let g = Grid::new(4, 3, 0, 0);
    assert_eq!(g.width, 4);
    assert_eq!(g.height, 3);
    assert_eq!(g.ternary.len(), 12);
    assert!(g.ternary.iter().all(|&c| c == 0));
}

#[test]
fn fill_from_draws_maps_each_cell() {
    let mut g = Grid::new(2, 2, 0, 0);
    // prey threshold 100: draws below 100 become prey; food threshold 50:
    // draws above u32::MAX - 50 become food.
    let draws = vec![0, 99, u32::MAX, 100];
    g.fill_from_draws(&draws, 100, 50);
    assert_eq!(g.ternary, vec![-1, -1, 1, 0]);
}

#[test]
fn fill_from_draws_keeps_old_cells_on_middle_draws() {
    // A middle-range draw writes nothing: the cell keeps whatever it
    // held before the fill.
    let mut g = Grid::new(2, 2, 0, 0);
    g.ternary = vec![1, -1, 0, 1];
    let draws = vec![500, 500, 50, u32::MAX]; // middle, middle, prey, food
    g.fill_from_draws(&draws, 100, 50);
    assert_eq!(g.ternary, vec![1, -1, -1, 1]);
}

#[test]
fn fill_from_draws_with_zero_probabilities_leaves_all_empty() {
    let mut g = Grid::new(2, 2, 0, 0);
    let draws = vec![0, 1, u32::MAX, u32::MAX - 1];
    g.fill_from_draws(&draws, 0, 0);
    assert_eq!(g.ternary, vec![0, 0, 0, 0]);
}

#[test]
fn show_renders_rows_with_cell_characters() {
    let mut g = Grid::new(3, 2, 0, 0);
    g.ternary = vec![0, 1, -1, 1, 0, 0];
    let out = g.show();
    assert_eq!(String::from_utf8(out).unwrap(), "\n. X O \nX . . \n");
}

#[test]
fn random_fill_produces_only_legal_cells() {
    let g = Grid::new(16, 16, u32::MAX / 2, u32::MAX / 4);
    assert_eq!(g.ternary.len(), 256);
    assert!(g.ternary.iter().all(|&c| c == -1 || c == 0 || c == 1));
}
