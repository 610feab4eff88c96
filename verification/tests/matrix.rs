//! Tests of the dense row-major container itself.

use cosine_sim::matrix::{Matrix, ShapeError};

#[test]
fn from_flat_indexes_row_major() {
    let data: Vec<u64> = vec![1, 2, 3, 4, 5, 6];
    let m: Matrix = Matrix::from_flat(data, 2, 3).unwrap();
    assert_eq!(m.nrows(), 2);
    assert_eq!(m.ncols(), 3);
    assert_eq!(m.entry(0, 0), 1);
    assert_eq!(m.entry(0, 2), 3);
    assert_eq!(m.entry(1, 0), 4);
    assert_eq!(m.entry(1, 2), 6);
}

#[test]
fn from_flat_wrong_length_rejected() {
    let data: Vec<u64> = vec![1, 2, 3];
    let e: ShapeError = Matrix::from_flat(data, 2, 2).unwrap_err();
    assert_eq!(e, ShapeError::FlatLength { rows: 2, cols: 2, found: 3 });
}

#[test]
fn from_flat_empty() {
    let m: Matrix = Matrix::from_flat(Vec::new(), 0, 0).unwrap();
    assert_eq!(m.nrows(), 0);
    assert_eq!(m.ncols(), 0);
}

#[test]
fn from_rows_assembles_in_order() {
    let rows: Vec<Vec<u64>> = vec![vec![7, 8], vec![9, 10], vec![11, 12]];
    let m: Matrix = Matrix::from_rows(rows, 2).unwrap();
    assert_eq!(m.nrows(), 3);
    assert_eq!(m.ncols(), 2);
    assert_eq!(m.entry(0, 0), 7);
    assert_eq!(m.entry(0, 1), 8);
    assert_eq!(m.entry(1, 0), 9);
    assert_eq!(m.entry(1, 1), 10);
    assert_eq!(m.entry(2, 0), 11);
    assert_eq!(m.entry(2, 1), 12);
}

#[test]
fn from_rows_bad_row_rejected() {
    let rows: Vec<Vec<u64>> = vec![vec![7, 8], vec![9]];
    let e: ShapeError = Matrix::from_rows(rows, 2).unwrap_err();
    assert_eq!(e, ShapeError::RowLength { row: 1, expected: 2, found: 1 });
}
