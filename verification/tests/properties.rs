//! Tests for the stated behavior of the library: validated construction,
//! flat addressing, boundary steps, full row-major coverage, deterministic
//! neighbor walks, growth, and the error cases.
use multid::BoundedIx2;
use multid::V2;
use multid::errors::VError;
use multid::iterators::Ix2CardinalNeighbors;
use multid::iterators::Ix2Neighbors;

/// A position in a 3x3 grid.
fn ix(row: usize, col: usize) -> BoundedIx2 {
    BoundedIx2::new(3, 3, row, col).unwrap()
}

/// A 3x3 grid holding the values 0 through 8 in row-major order.
fn grid() -> V2<u8> {
    V2::new(3, 3, (0..=8).collect()).unwrap()
}

#[test]
fn construction_succeeds_in_bounds_and_flattens_row_major() {
    for r in 0..3 {
        for c in 0..5 {
            let pos = BoundedIx2::new(3, 5, r, c).unwrap();
            assert_eq!(pos.y(), r);
            assert_eq!(pos.x(), c);
            assert_eq!(pos.as_usize(), r * 5 + c);
        }
    }
}

#[test]
fn construction_fails_out_of_bounds() {
    assert!(BoundedIx2::new(3, 5, 3, 0).is_none());
    assert!(BoundedIx2::new(3, 5, 0, 5).is_none());
    assert!(BoundedIx2::new(3, 5, 7, 9).is_none());
    assert!(BoundedIx2::new(0, 5, 0, 0).is_none());
    assert!(BoundedIx2::new(5, 0, 0, 0).is_none());
}

#[test]
fn min_and_max_positions() {
    let lo = BoundedIx2::min(3, 4);
    assert_eq!((lo.y(), lo.x()), (0, 0));
    let hi = BoundedIx2::max(3, 4);
    assert_eq!((hi.y(), hi.x()), (2, 3));
    assert_eq!(hi.as_usize(), 11);
}

#[test]
fn boundary_steps_fail_on_every_edge() {
    for c in 0..3 {
        let top = ix(0, c);
        assert!(top.north().is_none());
        assert!(top.northeast().is_none());
        assert!(top.northwest().is_none());
        let bottom = ix(2, c);
        assert!(bottom.south().is_none());
        assert!(bottom.southeast().is_none());
        assert!(bottom.southwest().is_none());
    }
    for r in 0..3 {
        let left = ix(r, 0);
        assert!(left.west().is_none());
        assert!(left.northwest().is_none());
        assert!(left.southwest().is_none());
        let right = ix(r, 2);
        assert!(right.east().is_none());
        assert!(right.northeast().is_none());
        assert!(right.southeast().is_none());
    }
}

#[test]
fn inc_dec_row_col() {
    assert_eq!(ix(1, 1).inc_row(), Some(ix(2, 1)));
    assert_eq!(ix(1, 1).inc_col(), Some(ix(1, 2)));
    assert_eq!(ix(1, 1).dec_row(), Some(ix(0, 1)));
    assert_eq!(ix(1, 1).dec_col(), Some(ix(1, 0)));
    assert!(ix(2, 1).inc_row().is_none());
    assert!(ix(1, 2).inc_col().is_none());
    assert!(ix(0, 1).dec_row().is_none());
    assert!(ix(1, 0).dec_col().is_none());
}

#[test]
fn indices_cover_every_cell_once_in_row_major_order() {
    let v: V2<u8> = V2::new(3, 4, (0..12).collect()).unwrap();
    let mut it = v.indices();
    let mut flat: Vec<usize> = Vec::new();
    while let Some(pos) = it.next() {
        // every yielded coordinate can be read through directly
        let value = *v.get(pos);
        assert_eq!(value as usize, pos.as_usize());
        flat.push(pos.as_usize());
    }
    // exactly rows * cols positions, in row-major order, no duplicates
    assert_eq!(flat.len(), 12);
    for (k, f) in flat.iter().enumerate() {
        assert_eq!(*f, k);
    }
    // the walk is exhausted and stays exhausted
    assert!(it.next().is_none());
    assert!(it.next().is_none());
}

#[test]
fn neighbor_walks_are_deterministic() {
    for r in 0..3 {
        for c in 0..3 {
            let mut first: Vec<BoundedIx2> = Vec::new();
            let mut it = Ix2Neighbors::new(ix(r, c));
            while let Some(p) = it.next() {
                first.push(p);
            }
            let mut second: Vec<BoundedIx2> = Vec::new();
            let mut it = Ix2Neighbors::new(ix(r, c));
            while let Some(p) = it.next() {
                second.push(p);
            }
            assert_eq!(first, second);
        }
    }
}

#[test]
fn cardinal_neighbors_in_north_east_south_west_order() {
    let v2 = grid();

    // values around the center, in N, E, S, W order
    let expected_center: Vec<u8> = vec![1, 5, 7, 3];
    let mut actual_center: Vec<u8> = Vec::new();
    let mut it = v2.cardinal_neighbors_of(ix(1, 1));
    while let Some(x) = it.next() {
        actual_center.push(*x);
    }
    assert_eq!(expected_center, actual_center);

    // at the top-right corner only south and west remain
    let expected_corner: Vec<u8> = vec![5, 1];
    let mut actual_corner: Vec<u8> = Vec::new();
    let mut it = v2.cardinal_neighbors_of(ix(0, 2));
    while let Some(x) = it.next() {
        actual_corner.push(*x);
    }
    assert_eq!(expected_corner, actual_corner);

    // the corresponding coordinates in the same order
    let expected_ixs: Vec<BoundedIx2> = vec![ix(0, 1), ix(1, 2), ix(2, 1), ix(1, 0)];
    let mut actual_ixs: Vec<BoundedIx2> = Vec::new();
    let mut it = Ix2CardinalNeighbors::new(ix(1, 1));
    while let Some(p) = it.next() {
        actual_ixs.push(p);
    }
    assert_eq!(expected_ixs, actual_ixs);
}

#[test]
fn neighbors_of_singleton_grid_is_empty() {
    let v: V2<u8> = V2::new(1, 1, vec![7]).unwrap();
    let only = BoundedIx2::new(1, 1, 0, 0).unwrap();
    let mut it = v.neighbors_of(only);
    assert!(it.next().is_none());
    let mut it = v.cardinal_neighbors_of(only);
    assert!(it.next().is_none());
}

#[test]
fn empty_grid_has_no_positions() {
    let v: V2<u8> = V2::new(0, 3, vec![]).unwrap();
    let mut it = v.indices();
    assert!(it.next().is_none());
    let mut rows = v.rows();
    assert!(rows.next().is_none());
    // no position of a rowless grid can be constructed
    assert!(BoundedIx2::new(0, 3, 0, 0).is_none());
}

#[test]
fn new_rejects_wrong_length() {
    let r: Result<V2<u8>, VError> = V2::new(2, 2, vec![1, 2, 3]);
    match r {
        Err(VError::SizingError { expected, actual }) => {
            assert_eq!(expected, 4);
            assert_eq!(actual, 3);
        }
        Ok(_) => panic!("a 3-element vector must not fill a 2x2 grid"),
    }
}

#[test]
fn add_row_rejects_wrong_length() {
    let v = grid();
    match v.add_row(vec![9, 10]) {
        Err(VError::SizingError { expected, actual }) => {
            assert_eq!(expected, 3);
            assert_eq!(actual, 2);
        }
        Ok(_) => panic!("a 2-element row must not extend a 3-column grid"),
    }
}

#[test]
fn add_col_rejects_wrong_length() {
    let v = grid();
    match v.add_col(vec![9, 10, 11, 12]) {
        Err(VError::SizingError { expected, actual }) => {
            assert_eq!(expected, 3);
            assert_eq!(actual, 4);
        }
        Ok(_) => panic!("a 4-element column must not extend a 3-row grid"),
    }
}

#[test]
fn size_error_carries_both_lengths() {
    let e = VError::size_error(4, 9);
    assert_eq!(e, VError::SizingError { expected: 4, actual: 9 });
}

#[test]
fn add_row_then_add_col() {
    // grow a 2x2 grid in both directions and read back every cell
    let v: V2<u8> = V2::new(2, 2, vec![0, 1, 2, 3]).unwrap();
    let v = v.add_row(vec![4, 5]).unwrap();
    let v = v.add_col(vec![6, 7, 8]).unwrap();
    let expected = vec![0, 1, 6, 2, 3, 7, 4, 5, 8];
    for r in 0..3 {
        for c in 0..3 {
            let pos = BoundedIx2::new(3, 3, r, c).unwrap();
            assert_eq!(*v.get(pos), expected[r * 3 + c]);
        }
    }
}

#[test]
fn get_mut_and_directional_mutation() {
    let mut v = grid();
    *v.get_mut(ix(1, 1)) = 42;
    assert_eq!(*v.get(ix(1, 1)), 42);

    // north of the center is (0, 1)
    if let Some(m) = v.north_of_mut(ix(1, 1)) {
        *m = 100;
    } else {
        panic!("the center has a northern neighbor");
    }
    assert_eq!(*v.get(ix(0, 1)), 100);

    // the bottom row has no southern neighbor, and a failed step mutates
    // nothing
    assert!(v.south_of_mut(ix(2, 0)).is_none());
    assert!(v.southeast_of_mut(ix(2, 0)).is_none());
    assert_eq!(*v.get(ix(2, 0)), 6);
}

#[test]
fn directional_value_accessors() {
    let v = grid();
    assert_eq!(v.north_of(ix(1, 1)), Some(&1));
    assert_eq!(v.south_of(ix(1, 1)), Some(&7));
    assert_eq!(v.east_of(ix(1, 1)), Some(&5));
    assert_eq!(v.west_of(ix(1, 1)), Some(&3));
    assert_eq!(v.northeast_of(ix(1, 1)), Some(&2));
    assert_eq!(v.northwest_of(ix(1, 1)), Some(&0));
    assert_eq!(v.southeast_of(ix(1, 1)), Some(&8));
    assert_eq!(v.southwest_of(ix(1, 1)), Some(&6));
    assert!(v.north_of(ix(0, 0)).is_none());
    assert!(v.west_of(ix(0, 0)).is_none());
    assert!(v.south_of(ix(2, 2)).is_none());
    assert!(v.east_of(ix(2, 2)).is_none());
}

#[test]
fn mutate_at_reads_the_previous_value() {
    let mut v = grid();
    v.mutate_at(ix(2, 0), |x: &u8| x + 10);
    assert_eq!(*v.get(ix(2, 0)), 16);
}

#[test]
fn default_fill_produces_default_values() {
    let v: V2<u8> = V2::default_fill(2, 3);
    for r in 0..2 {
        for c in 0..3 {
            let pos = BoundedIx2::new(2, 3, r, c).unwrap();
            assert_eq!(*v.get(pos), 0);
        }
    }
}

#[test]
fn clone_preserves_shape_and_contents() {
    let v = grid();
    let w = v.clone();
    for r in 0..3 {
        for c in 0..3 {
            assert_eq!(v.get(ix(r, c)), w.get(ix(r, c)));
        }
    }
}
