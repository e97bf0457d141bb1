use horn_shunck_rs::grid::Grid;

#[test]
fn filled_grid_has_shape_and_value() {
    let g = Grid::filled(2, 3, 7u8);
    assert_eq!(g.height(), 2);
    assert_eq!(g.width(), 3);
    for i in 0..2 {
        for j in 0..3 {
            assert_eq!(g.get(i, j), 7);
        }
    }
}

#[test]
fn set_changes_one_cell_only() {
    let mut g = Grid::filled(3, 4, 0i32);
    g.set(1, 2, 5);
    for i in 0..3 {
        for j in 0..4 {
            let expected = if i == 1 && j == 2 { 5 } else { 0 };
            assert_eq!(g.get(i, j), expected);
        }
    }
    assert_eq!(g.cells()[1 * 4 + 2], 5);
}

#[test]
fn from_cells_is_row_major() {
    let g = Grid::from_cells(2, 3, vec![1, 2, 3, 4, 5, 6]).unwrap();
    assert_eq!(g.get(0, 2), 3);
    assert_eq!(g.get(1, 0), 4);
    assert_eq!(g.into_cells(), vec![1, 2, 3, 4, 5, 6]);
}

#[test]
fn from_cells_rejects_wrong_count() {
    assert!(Grid::from_cells(2, 3, vec![1, 2, 3, 4, 5]).is_none());
    assert!(Grid::from_cells(usize::MAX, 2, vec![0u8]).is_none());
    assert!(Grid::<u8>::from_cells(0, 5, vec![]).is_some());
}

#[test]
fn grid_holds_floats() {
    let mut g = Grid::filled(2, 2, 0.0f64);
    g.set(0, 1, 1.5);
    assert_eq!(g.get(0, 1), 1.5);
    assert_eq!(g.get(1, 1), 0.0);
}
