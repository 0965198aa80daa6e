use light_client::sampling::generate_app_specific_cells;
use light_client::sampling::generate_random_cells;
use light_client::sampling::SelectionError;
use light_client::types::Cell;

fn assert_distinct_and_in_bounds(cells: &[Cell], rows: u16, cols: u16) {
    for (i, c) in cells.iter().enumerate() {
        assert!(c.row < rows && c.col < cols);
        for other in &cells[i + 1..] {
            assert!(!(c.row == other.row && c.col == other.col));
        }
    }
}

#[test]
fn random_selection_caps_at_eight() {
    let cells = generate_random_cells(4, 4, 100).unwrap();
    assert_eq!(cells.len(), 8);
    assert_distinct_and_in_bounds(&cells, 4, 4);
    for c in &cells {
        assert_eq!(c.block, 100);
        assert!(c.proof.is_empty());
    }
}

#[test]
fn random_selection_takes_whole_small_matrix() {
    let cells = generate_random_cells(2, 3, 7).unwrap();
    assert_eq!(cells.len(), 6);
    assert_distinct_and_in_bounds(&cells, 2, 3);
}

#[test]
fn random_selection_of_single_cell_matrix() {
    let cells = generate_random_cells(1, 1, 1).unwrap();
    assert_eq!(cells.len(), 1);
    assert_eq!((cells[0].row, cells[0].col), (0, 0));
}

#[test]
fn random_selection_rejects_empty_matrix() {
    assert!(matches!(generate_random_cells(0, 4, 1), Err(SelectionError::EmptyMatrix)));
    assert!(matches!(generate_random_cells(4, 0, 1), Err(SelectionError::EmptyMatrix)));
    assert!(matches!(generate_random_cells(0, 0, 1), Err(SelectionError::EmptyMatrix)));
}

#[test]
fn random_selection_large_matrix_still_eight() {
    let cells = generate_random_cells(256, 256, 42).unwrap();
    assert_eq!(cells.len(), 8);
    assert_distinct_and_in_bounds(&cells, 256, 256);
}

#[test]
fn app_specific_cells_scan_along_columns() {
    let cells = generate_app_specific_cells(3, 5, 4, 4, 9);
    assert_eq!(cells.len(), 3);
    for (i, c) in cells.iter().enumerate() {
        assert_eq!(c.block, 9);
        assert_eq!(c.row, 1); // 5 / 4
        assert_eq!(c.col, 1 + i as u16); // 5 % 4 + i
        assert!(c.proof.is_empty());
    }
}

#[test]
fn app_specific_first_cell_sits_at_offset() {
    let cells = generate_app_specific_cells(1, 10, 4, 4, 0);
    assert_eq!(cells.len(), 1);
    assert_eq!((cells[0].row, cells[0].col), (10 / 4, 10 % 4));
}

#[test]
fn app_specific_empty_request_yields_no_cells() {
    let cells = generate_app_specific_cells(0, 3, 4, 4, 0);
    assert!(cells.is_empty());
}
