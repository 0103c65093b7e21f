use wasim::{count_neighbors, life_step, ConwaySimulation, Grid, Simulation};

fn grid_from(width: usize, height: usize, live: &[(usize, usize)]) -> Grid<bool> {
    let mut g: Grid<bool> = Grid::new_with_default(width, height, false);
    for &(x, y) in live {
        g.set(x, y, true);
    }
    g
}

#[test]
fn single_live_cell_dies() {
    let g = grid_from(3, 3, &[(1, 1)]);
    let next = life_step(&g);
    assert_eq!(next.len(), 9);
    for b in next {
        assert!(!b);
    }
}

#[test]
fn count_neighbors_sees_wrapped_cells() {
    // A live cell in the top-left corner: on a torus the cell at the
    // opposite corner is one of its 8 neighbours.
    let g = grid_from(4, 4, &[(0, 0)]);
    assert_eq!(count_neighbors(&g, 3, 3), 1);
    assert_eq!(count_neighbors(&g, 1, 1), 1);
    assert_eq!(count_neighbors(&g, 2, 2), 0);
    assert_eq!(count_neighbors(&g, 0, 0), 0);
}

#[test]
fn blinker_flips_simultaneously() {
    // A horizontal row of three live cells must become a vertical row:
    // the batch rule, not a sequential in-place update, decides it.
    let g = grid_from(5, 5, &[(1, 2), (2, 2), (3, 2)]);
    let next = life_step(&g);
    let mut expected = vec![false; 25];
    expected[1 * 5 + 2] = true;
    expected[2 * 5 + 2] = true;
    expected[3 * 5 + 2] = true;
    assert_eq!(next, expected);
}

#[test]
fn block_is_stable_under_repeated_advance() {
    let g = grid_from(6, 6, &[(1, 1), (2, 1), (1, 2), (2, 2)]);
    let mut sim = ConwaySimulation::with_grid(g);
    let before = sim.cells();
    sim.tick();
    assert_eq!(sim.cells(), before);
    sim.tick();
    sim.tick();
    assert_eq!(sim.cells(), before);
}

#[test]
fn advance_changes_state_in_general() {
    let g = grid_from(5, 5, &[(1, 2), (2, 2), (3, 2)]);
    let mut sim = ConwaySimulation::with_grid(g);
    let before = sim.cells();
    sim.tick();
    assert_ne!(sim.cells(), before);
    sim.tick();
    assert_eq!(sim.cells(), before);
}

#[test]
fn advance_preserves_dimensions() {
    let mut sim = ConwaySimulation::new(7, 4);
    assert_eq!(sim.cells().len(), 28);
    sim.tick();
    assert_eq!(sim.cells().len(), 28);
    sim.tick();
    assert_eq!(sim.cells().len(), 28);
}

#[test]
fn cells_export_is_zero_one_bytes() {
    let g = grid_from(3, 2, &[(0, 0), (2, 1)]);
    let sim = ConwaySimulation::with_grid(g);
    assert_eq!(sim.cells(), vec![1u8, 0, 0, 0, 0, 1]);
}

#[test]
fn simulation_alias_forwards_to_conway() {
    let mut sim = Simulation::new(5, 5);
    let cells = sim.cells();
    assert_eq!(cells.len(), 25);
    for c in cells {
        assert!(c == 0 || c == 1);
    }
    sim.tick();
    assert_eq!(sim.cells().len(), 25);
}

#[test]
fn one_by_one_torus_live_cell_dies() {
    // On a 1x1 torus every neighbour lookup wraps back to the cell
    // itself, so a live cell has 8 live neighbours and dies.
    let g = grid_from(1, 1, &[(0, 0)]);
    assert_eq!(count_neighbors(&g, 0, 0), 8);
    let next = life_step(&g);
    assert_eq!(next, vec![false]);
}
