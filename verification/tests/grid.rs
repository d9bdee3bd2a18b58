//! Tests for the 2d vector type and its value iterators.
use multid::BoundedIx2;
use multid::V2;
use multid::v::V2Cols;
use multid::v::V2Indices;
use multid::v::V2Rows;

/// A position in a 3x3 grid.
fn ix(row: usize, col: usize) -> BoundedIx2 {
    BoundedIx2::new(3, 3, row, col).unwrap()
}

/// A 3x3 grid holding the values 0 through 8 in row-major order.
fn grid() -> V2<u8> {
    V2::new(3, 3, (0..=8).collect()).unwrap()
}

/// Check that a grid's flat contents equal `expected`, by reading every cell.
fn assert_flat_eq(v: &V2<u8>, n_rows: usize, n_cols: usize, expected: &[u8]) {
    assert_eq!(expected.len(), n_rows * n_cols);
    for r in 0..n_rows {
        for c in 0..n_cols {
            let pos = BoundedIx2::new(n_rows, n_cols, r, c).unwrap();
            assert_eq!(*v.get(pos), expected[r * n_cols + c]);
        }
    }
}

#[test]
fn test_add_col() {
    let v = grid();
    let c: Vec<u8> = vec![9, 10, 11];
    let expected = vec![0, 1, 2, 9, 3, 4, 5, 10, 6, 7, 8, 11];
    let actual = v.add_col(c).unwrap();
    assert_flat_eq(&actual, 3, 4, &expected);
}

#[test]
fn test_add_row() {
    let v = grid();
    let r: Vec<u8> = vec![9, 10, 11];
    let expected = vec![0, 1, 2, 3, 4, 5, 6, 7, 8, 9, 10, 11];
    let actual = v.add_row(r).unwrap();
    assert_flat_eq(&actual, 4, 3, &expected);
}

#[test]
fn test_indices() {
    let mut ixs = V2Indices::new(3, 3);
    let expected = vec![
        ix(0, 0),
        ix(0, 1),
        ix(0, 2),
        ix(1, 0),
        ix(1, 1),
        ix(1, 2),
        ix(2, 0),
        ix(2, 1),
        ix(2, 2),
    ];
    let mut actual: Vec<BoundedIx2> = Vec::new();
    while let Some(c) = ixs.next() {
        actual.push(c);
    }
    assert_eq!(expected, actual);
}

#[test]
fn test_rows() {
    let data: Vec<u8> = (0..9).collect();
    let mut rows = V2Rows::new(&data, 3, 3);
    let expected: Vec<&[u8]> = vec![&[0, 1, 2], &[3, 4, 5], &[6, 7, 8]];
    let mut actual: Vec<&[u8]> = Vec::new();
    while let Some(row) = rows.next() {
        actual.push(row);
    }
    assert_eq!(expected, actual);
}

#[test]
fn test_cols() {
    let data: Vec<u8> = (0..9).collect();
    let mut cols = V2Cols::new(&data, 3, 3);
    let expected: Vec<Vec<&u8>> = vec![vec![&0, &3, &6], vec![&1, &4, &7], vec![&2, &5, &8]];
    let mut actual: Vec<Vec<&u8>> = Vec::new();
    while let Some(col) = cols.next() {
        actual.push(col);
    }
    assert_eq!(expected, actual);
}

#[test]
fn test_neighbors() {
    let v2 = grid();

    let expected_upper_left: Vec<u8> = vec![1, 3, 4];
    let mut actual_upper_left: Vec<u8> = Vec::new();
    let mut it = v2.neighbors_of(ix(0, 0));
    while let Some(x) = it.next() {
        actual_upper_left.push(*x);
    }
    assert_eq!(expected_upper_left, actual_upper_left, "upper_left");

    let expected_center: Vec<u8> = vec![0, 1, 2, 3, 5, 6, 7, 8];
    let mut actual_center: Vec<u8> = Vec::new();
    let mut it = v2.neighbors_of(ix(1, 1));
    while let Some(x) = it.next() {
        actual_center.push(*x);
    }
    assert_eq!(expected_center, actual_center, "center");

    let expected_bottom_middle: Vec<u8> = vec![3, 4, 5, 6, 8];
    let mut actual_bottom_middle: Vec<u8> = Vec::new();
    let mut it = v2.neighbors_of(ix(2, 1));
    while let Some(x) = it.next() {
        actual_bottom_middle.push(*x);
    }
    assert_eq!(expected_bottom_middle, actual_bottom_middle, "bottom middle");
}

#[test]
fn test_mutate_at() {
    let mut v = grid();
    let expected = vec![0, 1, 9, 3, 4, 5, 6, 7, 8];
    v.mutate_at(ix(0, 2), |_v: &u8| 9);
    assert_flat_eq(&v, 3, 3, &expected);
}

#[test]
fn test_indexed() {
    let v = grid();
    let expected: Vec<(BoundedIx2, u8)> = vec![
        (ix(0, 0), 0),
        (ix(0, 1), 1),
        (ix(0, 2), 2),
        (ix(1, 0), 3),
        (ix(1, 1), 4),
        (ix(1, 2), 5),
        (ix(2, 0), 6),
        (ix(2, 1), 7),
        (ix(2, 2), 8),
    ];
    let mut actual: Vec<(BoundedIx2, u8)> = Vec::new();
    let mut it = v.indexed();
    while let Some((c, x)) = it.next() {
        actual.push((c, *x));
    }
    assert_eq!(expected, actual);
}

#[test]
fn test_get() {
    let v2 = grid();
    // positions outside the 3x3 bounds cannot even be constructed
    assert!(BoundedIx2::new(3, 3, 2, 3).is_none());
    assert!(BoundedIx2::new(3, 3, 3, 2).is_none());
    assert_eq!(v2.get(ix(2, 2)), &8);
}

#[test]
fn v_test_north() {
    let v2 = grid();
    assert!(v2.north_ix(ix(0, 0)).is_none());
    assert_eq!(v2.north_ix(ix(1, 0)), Some(ix(0, 0)));
}

#[test]
fn v_test_south() {
    let v2 = grid();
    // at the bottom row the southward step leaves the grid
    assert!(v2.south_ix(ix(2, 2)).is_none());
    assert_eq!(v2.south_ix(ix(1, 2)), Some(ix(2, 2)));
}

#[test]
fn v_test_east() {
    let v2 = grid();
    // at the rightmost column the eastward step leaves the grid
    assert!(v2.east_ix(ix(2, 2)).is_none());
    assert_eq!(v2.east_ix(ix(2, 1)), Some(ix(2, 2)));
}

#[test]
fn v_test_west() {
    let v2 = grid();
    assert!(v2.west_ix(ix(0, 0)).is_none());
    assert_eq!(v2.west_ix(ix(2, 2)), Some(ix(2, 1)));
}

#[test]
fn v_test_northwest() {
    let v2 = grid();
    assert!(v2.northwest_of(ix(0, 1)).is_none());
    assert_eq!(v2.northwest_ix(ix(2, 2)), Some(ix(1, 1)));
}

#[test]
fn v_test_northeast() {
    let v2 = grid();
    assert!(v2.northeast_ix(ix(0, 1)).is_none());
    // at the rightmost column the eastward half of the step leaves the grid
    assert!(v2.northeast_ix(ix(2, 2)).is_none());
    assert_eq!(v2.northeast_ix(ix(2, 1)), Some(ix(1, 2)));
}

#[test]
fn v_test_southwest() {
    let v2 = grid();
    // at the bottom row the southward half of the step leaves the grid
    assert!(v2.southwest_ix(ix(2, 2)).is_none());
    assert_eq!(v2.southwest_ix(ix(1, 2)), Some(ix(2, 1)));
}

#[test]
fn v_test_southeast() {
    let v2 = grid();
    // at the bottom-right corner both halves of the step leave the grid
    assert!(v2.southeast_ix(ix(2, 2)).is_none());
    assert_eq!(v2.southeast_ix(ix(1, 1)), Some(ix(2, 2)));
}
