use octree_store::attachment::AttachmentKind;
use octree_store::error::Error;
use octree_store::header::{Header, HeaderData};

fn sample_data() -> HeaderData {
    HeaderData {
        schema: vec!["RGBA".to_string()],
        root_node: (0b0000_0011, 0b0000_0001),
        compressed: false,
        building: true,
        metadata: vec![("k".to_string(), "v".to_string())],
    }
}

#[test]
fn header_round_trip() {
    let header = Header::from_data(sample_data()).unwrap();
    assert_eq!(header.schema().as_slice(), [AttachmentKind::Rgba]);
    assert_eq!(header.root_node().octant_mask().value(), 0b0000_0011);
    assert_eq!(header.root_node().branch_mask().value(), 0b0000_0001);
    assert!(header.root_node().pointer().is_far());
    assert!(header.building());
    assert!(!header.compressed());
    assert_eq!(header.metadata().as_slice(), [("k".to_string(), "v".to_string())]);

    let data = header.to_data();
    assert_eq!(data.schema, vec!["RGBA".to_string()]);
    assert_eq!(data.root_node, (0b0000_0011, 0b0000_0001));
    assert!(!data.compressed);
    assert!(data.building);
    assert_eq!(data.metadata, vec![("k".to_string(), "v".to_string())]);
}

#[test]
fn header_round_trip_both_kinds() {
    let data = HeaderData {
        schema: vec!["RGBA".to_string(), "Normal".to_string()],
        root_node: (0xff, 0x0f),
        compressed: true,
        building: false,
        metadata: Vec::new(),
    };
    let header = Header::from_data(data).unwrap();
    assert_eq!(
        header.schema().as_slice(),
        [AttachmentKind::Rgba, AttachmentKind::Normal]
    );
    let back = header.to_data();
    assert_eq!(back.schema, vec!["RGBA".to_string(), "Normal".to_string()]);
    assert_eq!(back.root_node, (0xff, 0x0f));
    assert!(back.compressed);
    assert!(!back.building);
    assert_eq!(back.metadata, Vec::<(String, String)>::new());
}

#[test]
fn unknown_schema_name_fails_whole_header() {
    let data = HeaderData {
        schema: vec!["RGBA".to_string(), "Unknown".to_string()],
        root_node: (0, 0),
        compressed: false,
        building: false,
        metadata: Vec::new(),
    };
    assert_eq!(
        Header::from_data(data).unwrap_err(),
        Error::InvalidAttachmentName { name: "Unknown".to_string() }
    );
}

#[test]
fn first_unknown_schema_name_is_reported() {
    let data = HeaderData {
        schema: vec!["Bad".to_string(), "Worse".to_string()],
        root_node: (0, 0),
        compressed: false,
        building: false,
        metadata: Vec::new(),
    };
    assert_eq!(
        Header::from_data(data).unwrap_err(),
        Error::InvalidAttachmentName { name: "Bad".to_string() }
    );
}
