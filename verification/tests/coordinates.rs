//! Tests for the bounds-checked coordinate type and the index iterators.
use multid::BoundedIx2;
use multid::iterators::BoundedIx2Cols;
use multid::iterators::BoundedIx2Rows;
use multid::iterators::Ix2Neighbors;

/// A position in a 3x3 grid.
fn ix(row: usize, col: usize) -> BoundedIx2 {
    BoundedIx2::new(3, 3, row, col).unwrap()
}

#[test]
fn ix_test_north() {
    assert!(ix(0, 0).north().is_none());
    assert_eq!(ix(1, 0).north().unwrap(), ix(0, 0));
}

#[test]
fn ix_test_south() {
    assert!(ix(2, 2).south().is_none());
    assert_eq!(ix(1, 2).south().unwrap(), ix(2, 2));
}

#[test]
fn ix_test_east() {
    assert!(ix(1, 2).east().is_none());
    assert_eq!(ix(1, 1).east().unwrap(), ix(1, 2));
}

#[test]
fn ix_test_west() {
    assert!(ix(1, 0).west().is_none());
    assert_eq!(ix(2, 2).west().unwrap(), ix(2, 1));
}

#[test]
fn ix_test_northwest() {
    assert!(ix(0, 1).northwest().is_none());
    assert!(ix(1, 0).northwest().is_none());
    assert_eq!(ix(2, 2).northwest().unwrap(), ix(1, 1));
}

#[test]
fn ix_test_northeast() {
    assert!(ix(0, 1).northeast().is_none());
    assert!(ix(2, 2).northeast().is_none());
    assert_eq!(ix(2, 0).northeast().unwrap(), ix(1, 1));
}

#[test]
fn ix_test_southwest() {
    assert!(ix(2, 1).southwest().is_none());
    assert!(ix(1, 0).southwest().is_none());
    assert_eq!(ix(0, 2).southwest().unwrap(), ix(1, 1));
}

#[test]
fn ix_test_southeast() {
    assert!(ix(1, 2).southeast().is_none());
    assert!(ix(2, 1).southeast().is_none());
    assert_eq!(ix(0, 0).southeast().unwrap(), ix(1, 1));
}

#[test]
fn test_ord() {
    // positions in a 2x6 grid, so that columns 3 and 5 are constructible
    let b1 = BoundedIx2::new(2, 6, 1, 3).unwrap();
    let b2 = BoundedIx2::new(2, 6, 1, 3).unwrap();
    let actual_cmp = b1.cmp(&b2);
    assert_eq!(std::cmp::Ordering::Equal, actual_cmp);
    let b1 = BoundedIx2::new(2, 6, 1, 3).unwrap();
    let b2 = BoundedIx2::new(2, 6, 1, 5).unwrap();
    let actual_cmp = b1.cmp(&b2);
    assert_eq!(std::cmp::Ordering::Less, actual_cmp);
    let b1 = BoundedIx2::new(2, 6, 1, 3).unwrap();
    let b2 = BoundedIx2::new(2, 6, 1, 1).unwrap();
    let actual_cmp = b1.cmp(&b2);
    assert_eq!(std::cmp::Ordering::Greater, actual_cmp);
    let b1 = BoundedIx2::new(2, 6, 1, 3).unwrap();
    let b2 = BoundedIx2::new(2, 6, 0, 3).unwrap();
    let actual_cmp = b1.cmp(&b2);
    assert_eq!(std::cmp::Ordering::Greater, actual_cmp);
}

#[test]
fn test_neighbors_center() {
    let start = ix(1, 1);
    let expected: Vec<BoundedIx2> = vec![
        ix(0, 0),
        ix(0, 1),
        ix(0, 2),
        ix(1, 0),
        ix(1, 2),
        ix(2, 0),
        ix(2, 1),
        ix(2, 2),
    ];
    let mut actual: Vec<BoundedIx2> = Vec::new();
    let mut it = Ix2Neighbors::new(start);
    while let Some(c) = it.next() {
        actual.push(c);
    }
    assert_eq!(actual, expected);
}

#[test]
fn test_neighbors_side() {
    let start = ix(1, 0);
    let expected: Vec<BoundedIx2> = vec![ix(0, 0), ix(0, 1), ix(1, 1), ix(2, 0), ix(2, 1)];
    let mut actual: Vec<BoundedIx2> = Vec::new();
    let mut it = Ix2Neighbors::new(start);
    while let Some(c) = it.next() {
        actual.push(c);
    }
    assert_eq!(actual, expected);
}

#[test]
fn test_bounded_ix2_rows() {
    let mut rows = BoundedIx2Rows::new(3, 3);
    let expected: Vec<Vec<BoundedIx2>> = vec![
        vec![ix(0, 0), ix(0, 1), ix(0, 2)],
        vec![ix(1, 0), ix(1, 1), ix(1, 2)],
        vec![ix(2, 0), ix(2, 1), ix(2, 2)],
    ];
    let mut actual: Vec<Vec<BoundedIx2>> = Vec::new();
    while let Some(row) = rows.next() {
        actual.push(row);
    }
    assert_eq!(actual, expected);
}

#[test]
fn test_bounded_ix2_cols() {
    let mut cols = BoundedIx2Cols::new(3, 3);
    let expected: Vec<Vec<BoundedIx2>> = vec![
        vec![ix(0, 0), ix(1, 0), ix(2, 0)],
        vec![ix(0, 1), ix(1, 1), ix(2, 1)],
        vec![ix(0, 2), ix(1, 2), ix(2, 2)],
    ];
    let mut actual: Vec<Vec<BoundedIx2>> = Vec::new();
    while let Some(col) = cols.next() {
        actual.push(col);
    }
    assert_eq!(actual, expected);
}
