use gameoflife::Grid;

fn grid(width: usize, height: usize, cells: Vec<bool>) -> Grid {
    Grid::from_cells(width, height, cells).expect("dimensions must match the buffer")
}

#[test]
fn random_grid_has_width_times_height_cells() {
    let g = Grid::random(7, 5);
    assert_eq!(g.width, 7);
    assert_eq!(g.height, 5);
    assert_eq!(g.cells.len(), 35);
}

#[test]
fn random_grid_with_zero_dimension_is_empty() {
    let g = Grid::random(0, 9);
    assert_eq!(g.cells.len(), 0);
    let g = Grid::random(4, 0);
    assert_eq!(g.cells.len(), 0);
}

#[test]
fn from_cells_rejects_mismatched_buffer() {
    assert!(Grid::from_cells(3, 3, vec![false; 8]).is_none());
    assert!(Grid::from_cells(3, 3, vec![false; 9]).is_some());
    assert!(Grid::from_cells(0, 0, Vec::new()).is_some());
}

#[test]
fn cell_count_is_preserved_by_update() {
    let mut g = Grid::random(6, 4);
    for _ in 0..5 {
        g.update();
        assert_eq!(g.cells.len(), 24);
        assert_eq!(g.width, 6);
        assert_eq!(g.height, 4);
    }
}

#[test]
fn idx_to_coord_splits_row_major_indices() {
    let g = grid(4, 3, vec![false; 12]);
    assert_eq!(g.idx_to_coord(0), (0, 0));
    assert_eq!(g.idx_to_coord(3), (3, 0));
    assert_eq!(g.idx_to_coord(4), (0, 1));
    assert_eq!(g.idx_to_coord(11), (3, 2));
}

#[test]
fn coord_to_idx_rejects_off_grid_positions() {
    let g = grid(4, 3, vec![false; 12]);
    assert_eq!(g.coord_to_idx(0, 0), Some(0));
    assert_eq!(g.coord_to_idx(3, 2), Some(11));
    assert_eq!(g.coord_to_idx(4, 0), None);
    assert_eq!(g.coord_to_idx(0, 3), None);
    assert_eq!(g.coord_to_idx(17, 20), None);
}

#[test]
fn count_living_counts_exactly_the_given_indices() {
    let g = grid(3, 2, vec![true, false, true, true, false, false]);
    assert_eq!(g.count_living(&vec![]), 0);
    assert_eq!(g.count_living(&vec![0, 1, 2]), 2);
    assert_eq!(g.count_living(&vec![0, 2, 3]), 3);
    assert_eq!(g.count_living(&vec![1, 4, 5]), 0);
}

#[test]
fn corner_cell_has_exactly_three_candidate_neighbours() {
    // A fully live 3x3 board: the corner (0, 0) counts only (1, 0),
    // (0, 1) and (1, 1) — nothing wraps around from the far edges.
    let g = grid(3, 3, vec![true; 9]);
    assert_eq!(g.count_living_neighbours(0), 3);
    // An edge cell such as (1, 0) sees five neighbours.
    assert_eq!(g.count_living_neighbours(1), 5);
    // The centre sees all eight.
    assert_eq!(g.count_living_neighbours(4), 8);
}

#[test]
fn neighbour_count_excludes_the_cell_itself() {
    // Only the centre is alive: its own count is 0, not 1.
    let mut cells = vec![false; 9];
    cells[4] = true;
    let g = grid(3, 3, cells);
    assert_eq!(g.count_living_neighbours(4), 0);
    // Every cell around it counts exactly the centre.
    for i in [0, 1, 2, 3, 5, 6, 7, 8] {
        assert_eq!(g.count_living_neighbours(i), 1);
    }
}

#[test]
fn dead_centre_with_three_neighbours_is_born() {
    let mut cells = vec![false; 9];
    cells[0] = true;
    cells[1] = true;
    cells[2] = true;
    let mut g = grid(3, 3, cells);
    assert!(!g.cells[4]);
    g.update();
    assert!(g.cells[4]);
}

#[test]
fn dead_centre_with_two_neighbours_stays_dead() {
    let mut cells = vec![false; 9];
    cells[0] = true;
    cells[1] = true;
    let mut g = grid(3, 3, cells);
    g.update();
    assert!(!g.cells[4]);
}

#[test]
fn live_centre_with_four_neighbours_dies() {
    let mut cells = vec![false; 9];
    cells[0] = true;
    cells[1] = true;
    cells[2] = true;
    cells[3] = true;
    cells[4] = true;
    let mut g = grid(3, 3, cells);
    g.update();
    assert!(!g.cells[4]);
}

#[test]
fn live_centre_with_two_or_three_neighbours_survives() {
    let mut cells = vec![false; 9];
    cells[0] = true;
    cells[1] = true;
    cells[4] = true;
    let mut g = grid(3, 3, cells);
    g.update();
    assert!(g.cells[4]);

    let mut cells = vec![false; 9];
    cells[0] = true;
    cells[1] = true;
    cells[2] = true;
    cells[4] = true;
    let mut g = grid(3, 3, cells);
    g.update();
    assert!(g.cells[4]);
}

#[test]
fn live_centre_with_one_neighbour_dies() {
    let mut cells = vec![false; 9];
    cells[0] = true;
    cells[4] = true;
    let mut g = grid(3, 3, cells);
    g.update();
    assert!(!g.cells[4]);
}

#[test]
fn block_is_a_still_life() {
    // A 2x2 block at (1, 1) on a 4x4 board, one dead cell of margin all
    // around: a classic still life.
    let mut cells = vec![false; 16];
    for i in [5, 6, 9, 10] {
        cells[i] = true;
    }
    let before = cells.clone();
    let mut g = grid(4, 4, cells);
    for _ in 0..10 {
        g.update();
        assert_eq!(g.cells, before);
    }
}

#[test]
fn empty_grid_stays_empty() {
    let mut g = grid(5, 5, vec![false; 25]);
    for _ in 0..3 {
        g.update();
        assert!(g.cells.iter().all(|&c| !c));
    }
}

#[test]
fn update_is_deterministic() {
    let cells = vec![
        true, false, true, false, true, true, false, false, true, false, true, true, false, true,
        false, true, false, false, true, true,
    ];
    let mut g1 = grid(5, 4, cells.clone());
    let mut g2 = grid(5, 4, cells);
    for _ in 0..4 {
        g1.update();
        g2.update();
        assert_eq!(g1.cells, g2.cells);
    }
}

#[test]
fn render_reports_only_cells_inside_a_small_viewport() {
    let g = grid(4, 4, vec![true; 16]);
    let out = g.render(2, 3);
    assert_eq!(out.len(), 6);
    for &(x, y, glyph) in &out {
        assert!(x < 2);
        assert!(y < 3);
        assert_eq!(glyph, 'X');
    }
}

#[test]
fn render_reports_nothing_beyond_the_grid() {
    let g = grid(2, 2, vec![true, false, false, true]);
    let out = g.render(10, 10);
    assert_eq!(out.len(), 4);
    for &(x, y, _) in &out {
        assert!(x < 2);
        assert!(y < 2);
    }
    assert_eq!(out[0], (0, 0, 'X'));
    assert_eq!(out[1], (1, 0, ' '));
    assert_eq!(out[2], (0, 1, ' '));
    assert_eq!(out[3], (1, 1, 'X'));
}

#[test]
fn render_is_row_major_over_the_viewport() {
    let g = grid(3, 2, vec![true, false, true, false, true, false]);
    let out = g.render(3, 2);
    assert_eq!(
        out,
        vec![
            (0, 0, 'X'),
            (1, 0, ' '),
            (2, 0, 'X'),
            (0, 1, ' '),
            (1, 1, 'X'),
            (2, 1, ' '),
        ]
    );
}

#[test]
fn render_does_not_mutate_the_grid() {
    let cells = vec![true, false, false, true];
    let g = grid(2, 2, cells.clone());
    let _ = g.render(2, 2);
    let _ = g.render(100, 1);
    assert_eq!(g.cells, cells);
}

#[test]
fn next_at_matches_update() {
    let cells = vec![
        false, true, false, true, true, false, false, true, false, true, false, false,
    ];
    let g = grid(4, 3, cells);
    let mut advanced = grid(4, 3, g.cells.clone());
    advanced.update();
    for i in 0..12 {
        assert_eq!(g.next_at(i), advanced.cells[i]);
    }
}
