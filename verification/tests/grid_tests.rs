use wasim::Grid;

#[test]
fn new_with_default_has_width_times_height_cells() {
    let g: Grid<u32> = Grid::new_with_default(4, 3, 7);
    assert_eq!(g.width(), 4);
    assert_eq!(g.height(), 3);
    assert_eq!(g.cells().len(), 12);
    for &c in g.cells() {
        assert_eq!(c, 7);
    }
}

#[test]
fn get_returns_initial_fill_value() {
    let g: Grid<bool> = Grid::new_with_default(5, 2, true);
    for y in 0..2 {
        for x in 0..5 {
            assert_eq!(g.get(x, y), Some(true));
        }
    }
}

#[test]
fn get_returns_value_last_written() {
    let mut g: Grid<u8> = Grid::new_with_default(3, 3, 0);
    g.set(1, 2, 9);
    g.set(1, 2, 4);
    assert_eq!(g.get(1, 2), Some(4));
    assert_eq!(g.get(2, 1), Some(0));
    assert_eq!(g.get(0, 0), Some(0));
}

#[test]
fn out_of_range_get_is_absent() {
    let g: Grid<u8> = Grid::new_with_default(3, 2, 1);
    assert_eq!(g.get(3, 0), None);
    assert_eq!(g.get(0, 2), None);
    assert_eq!(g.get(usize::MAX, usize::MAX), None);
}

#[test]
fn out_of_range_set_is_a_no_op() {
    let mut g: Grid<u8> = Grid::new_with_default(3, 2, 1);
    g.set(3, 0, 9);
    g.set(0, 2, 9);
    g.set(usize::MAX, usize::MAX, 9);
    for &c in g.cells() {
        assert_eq!(c, 1);
    }
}

#[test]
fn zero_dimension_yields_empty_grid() {
    let mut g: Grid<u8> = Grid::new_with_default(0, 5, 1);
    assert_eq!(g.cells().len(), 0);
    assert_eq!(g.get(0, 0), None);
    g.set(0, 0, 9);
    assert_eq!(g.cells().len(), 0);
}

#[test]
fn random_bool_grid_has_requested_size() {
    let g: Grid<bool> = Grid::new_random_bool(10, 10);
    assert_eq!(g.width(), 10);
    assert_eq!(g.height(), 10);
    assert_eq!(g.cells().len(), 100);
}
