use octree_store::attachment::{Attachment, AttachmentKind, Averageable, Normal, Type, RGBA};
use octree_store::error::Error;

#[test]
fn rgba_average_two_inputs() {
    let a: Attachment<RGBA> = Attachment::new([10u8, 20, 30, 40]);
    let b: Attachment<RGBA> = Attachment::new([20u8, 30, 40, 60]);
    let averaged = RGBA::averager(&vec![a, b]);
    assert_eq!(averaged.get::<[u8; 4]>(), [15, 25, 35, 50]);
}

#[test]
fn rgba_average_three_inputs_floors() {
    let a: Attachment<RGBA> = Attachment::new([0u8, 0, 0, 0]);
    let b: Attachment<RGBA> = Attachment::new([1u8, 1, 1, 1]);
    let c: Attachment<RGBA> = Attachment::new([2u8, 2, 2, 2]);
    let averaged = RGBA::averager(&vec![a, b, c]);
    assert_eq!(averaged.get::<[u8; 4]>(), [1, 1, 1, 1]);
}

#[test]
fn rgba_average_single_input_is_identity() {
    let a: Attachment<RGBA> = Attachment::new([7u8, 130, 255, 0]);
    let averaged = RGBA::averager(&vec![a]);
    assert_eq!(averaged.get::<[u8; 4]>(), [7, 130, 255, 0]);
}

#[test]
fn rgba_average_no_inputs_is_zero() {
    let averaged = RGBA::averager(&Vec::new());
    assert_eq!(averaged.bits(), 0);
}

#[test]
fn averageable_folds_like_the_kind() {
    let a: Attachment<RGBA> = Attachment::new([10u8, 20, 30, 40]);
    let b: Attachment<RGBA> = Attachment::new([20u8, 30, 40, 60]);
    let averaged = vec![a, b].average();
    assert_eq!(averaged.get::<[u8; 4]>(), [15, 25, 35, 50]);
}

#[test]
fn normal_average_is_zero_placeholder() {
    let a: Attachment<Normal> = Attachment::new(0x12345678u32);
    let averaged = Normal::averager(&vec![a]);
    assert_eq!(averaged.bits(), 0);
}

#[test]
fn payload_round_trip_between_shapes() {
    let a: Attachment<RGBA> = Attachment::new(0x12345678u32);
    assert_eq!(a.get::<u32>(), 0x12345678);
    assert_eq!(a.get::<[u8; 4]>(), [0x78, 0x56, 0x34, 0x12]);
    assert_eq!(a.get::<[u16; 2]>(), [0x5678, 0x1234]);

    let b: Attachment<RGBA> = Attachment::new([0x78u8, 0x56, 0x34, 0x12]);
    assert_eq!(b.bits(), 0x12345678);
    let c: Attachment<RGBA> = Attachment::new([0x5678u16, 0x1234]);
    assert_eq!(c.bits(), 0x12345678);
}

#[test]
fn payload_set_overwrites_bits() {
    let mut a: Attachment<RGBA> = Attachment::new(0u32);
    a.set([1u8, 2, 3, 4]);
    assert_eq!(a.get::<u32>(), 0x04030201);
    a.set(0xffff0000u32);
    assert_eq!(a.get::<[u16; 2]>(), [0x0000, 0xffff]);
}

#[test]
fn kind_names_round_trip() {
    assert_eq!(AttachmentKind::Rgba.name(), "RGBA");
    assert_eq!(AttachmentKind::Normal.name(), "Normal");
    assert_eq!(AttachmentKind::from_name("RGBA"), Ok(AttachmentKind::Rgba));
    assert_eq!(AttachmentKind::from_name("Normal"), Ok(AttachmentKind::Normal));
}

#[test]
fn unknown_kind_name_fails() {
    assert_eq!(
        AttachmentKind::from_name("Unknown"),
        Err(Error::InvalidAttachmentName { name: "Unknown".to_string() })
    );
}

#[test]
fn type_instances_report_their_names() {
    assert_eq!(RGBA.name(), "RGBA");
    assert_eq!(Normal.name(), "Normal");
}
