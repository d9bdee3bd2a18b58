//! An end-to-end walk that reads and mutates a grid of owned values.
use multid::V2;
use multid::iterators::V2Indices;

#[derive(Debug, Clone, PartialEq)]
struct OwnedU8(Box<u8>);

impl OwnedU8 {
    fn new(v: u8) -> Self {
        Self(Box::new(v))
    }
}

#[test]
fn test_owned() {
    let mut data: Vec<OwnedU8> = Vec::with_capacity(9);
    for i in 0..9 {
        data.push(OwnedU8::new(i));
    }
    let mut v2: V2<OwnedU8> = V2::new(3, 3, data).unwrap();
    let mut ixs = V2Indices::new(3, 3);
    while let Some(pos) = ixs.next() {
        if let Some(wix) = pos.west() {
            if let Some(nix) = pos.north() {
                let s = *v2.get(wix).0 + *v2.get(nix).0;
                if s % 3 == 0 {
                    *v2.get_mut(pos).0 += 10;
                }
            }
        }
    }
    let expected = vec![
        OwnedU8::new(0),
        OwnedU8::new(1),
        OwnedU8::new(2),
        OwnedU8::new(3),
        OwnedU8::new(4),
        OwnedU8::new(15),
        OwnedU8::new(6),
        OwnedU8::new(7),
        OwnedU8::new(8),
    ];
    let mut ixs = V2Indices::new(3, 3);
    while let Some(pos) = ixs.next() {
        assert_eq!(*v2.get(pos), expected[pos.as_usize()]);
    }
}
