use octree_store::address::Address;
use octree_store::error::Error;
use octree_store::octant::Octant;

fn path_0202356() -> Vec<Octant> {
    vec![
        Octant::First,
        Octant::Third,
        Octant::First,
        Octant::Third,
        Octant::Fourth,
        Octant::Sixth,
        Octant::Seventh,
    ]
}

#[test]
fn text_round_trip_example() {
    let a = Address::from_octants(path_0202356());
    let text = a.to_text();
    assert_eq!(text, "@0202356");
    assert_eq!(Address::parse(&text).unwrap(), a);
}

#[test]
fn text_round_trip_empty() {
    let a = Address::new();
    assert_eq!(a.to_text(), "@");
    assert_eq!(Address::parse("@").unwrap(), a);
}

#[test]
fn text_round_trip_all_octants() {
    let a = Address::from_octants(vec![
        Octant::First,
        Octant::Second,
        Octant::Third,
        Octant::Fourth,
        Octant::Fifth,
        Octant::Sixth,
        Octant::Seventh,
        Octant::Eighth,
    ]);
    assert_eq!(a.to_text(), "@01234567");
    assert_eq!(Address::parse(&a.to_text()).unwrap(), a);
}

#[test]
fn parse_empty_fails() {
    assert_eq!(Address::parse(""), Err(Error::EmptyNodeAddress));
}

#[test]
fn parse_missing_sentinel_fails() {
    assert_eq!(
        Address::parse("0202356"),
        Err(Error::InvalidNodeAddress { address: "0202356".to_string() })
    );
}

#[test]
fn parse_octant_out_of_range_fails() {
    assert_eq!(Address::parse("@8"), Err(Error::InvalidOctantIndex { index: 8 }));
    assert_eq!(Address::parse("@09"), Err(Error::InvalidOctantIndex { index: 9 }));
}

#[test]
fn parse_non_digit_fails() {
    assert_eq!(
        Address::parse("@0x1"),
        Err(Error::InvalidNodeAddress { address: "@0x1".to_string() })
    );
}

#[test]
fn octant_try_from_bounds() {
    for x in 0u8..=7 {
        let octant = Octant::try_from(x).unwrap();
        assert_eq!(octant.index(), x);
    }
    for x in 8u8..=255 {
        assert_eq!(Octant::try_from(x), Err(Error::InvalidOctantIndex { index: x }));
    }
}

#[test]
fn binary_round_trip_example() {
    let a = Address::from_octants(path_0202356());
    let bytes = a.to_bytes();
    assert_eq!(bytes, vec![0x04, 0x04, 0xca, 0x6f]);
    assert_eq!(Address::from_bytes(&bytes).unwrap(), a);
}

#[test]
fn binary_round_trip_empty() {
    let a = Address::new();
    assert_eq!(a.to_bytes(), Vec::<u8>::new());
    assert_eq!(Address::from_bytes(&[]).unwrap(), a);
}

#[test]
fn binary_round_trip_even_length() {
    let a = Address::from_octants(vec![Octant::First, Octant::Second]);
    let bytes = a.to_bytes();
    assert_eq!(bytes, vec![0x08]);
    assert_eq!(Address::from_bytes(&bytes).unwrap(), a);
}

#[test]
fn binary_padding_only_at_tail() {
    // 0x0f: the all-ones chunk in the middle of the stream is an error.
    assert_eq!(
        Address::from_bytes(&[0x0f, 0x04]),
        Err(Error::InvalidOctantIndex { index: 15 })
    );
    // 0xf0: the all-ones chunk first, with a chunk after it.
    assert_eq!(
        Address::from_bytes(&[0xf0]),
        Err(Error::InvalidOctantIndex { index: 15 })
    );
}

#[test]
fn binary_reserved_bit_fails() {
    // 0x01: the second chunk has its reserved bit set and decodes to 8.
    assert_eq!(Address::from_bytes(&[0x01]), Err(Error::InvalidOctantIndex { index: 8 }));
    // 0x30: the first chunk decodes to 12.
    assert_eq!(
        Address::from_bytes(&[0x30]),
        Err(Error::InvalidOctantIndex { index: 12 })
    );
}

#[test]
fn binary_round_trip_single_octant() {
    let a = Address::from_octants(vec![Octant::Eighth]);
    let bytes = a.to_bytes();
    // Octant 7 encodes as the chunk 1110; one all-ones padding chunk follows.
    assert_eq!(bytes, vec![0xef]);
    assert_eq!(Address::from_bytes(&bytes).unwrap(), a);
}

#[test]
fn address_accessors() {
    let a = Address::from_octants(vec![Octant::Fifth, Octant::Eighth]);
    assert_eq!(a.len(), 2);
    assert_eq!(a.octant_at(0), Octant::Fifth);
    assert_eq!(a.octant_at(1), Octant::Eighth);
}
