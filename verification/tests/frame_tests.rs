use rp_can2040::{CanFrame, FrameId};

#[test]
fn new_keeps_id_and_bytes() {
    let f = CanFrame::new(0x123, &[1, 2, 3]).unwrap();
    assert_eq!(f.raw_id(), 0x123);
    assert_eq!(f.dlc(), 3);
    assert_eq!(f.data(), &[1, 2, 3]);
    assert_eq!(f.parts().2, [1, 2, 3, 0, 0, 0, 0, 0]);
}

#[test]
fn new_accepts_empty_and_eight_bytes() {
    let f = CanFrame::new(7, &[]).unwrap();
    assert_eq!(f.dlc(), 0);
    assert_eq!(f.data(), &[] as &[u8]);
    let g = CanFrame::new(7, &[9; 8]).unwrap();
    assert_eq!(g.dlc(), 8);
    assert_eq!(g.data(), &[9; 8]);
}

#[test]
fn new_rejects_more_than_eight_bytes() {
    assert!(CanFrame::new(1, &[0; 9]).is_none());
}

#[test]
fn new_with_dlc_checks_length() {
    assert!(CanFrame::new_with_dlc(1, 16, &[0; 8]).is_none());
    assert!(CanFrame::new_with_dlc(1, 3, &[0; 2]).is_none());
    assert!(CanFrame::new_with_dlc(1, 12, &[0; 4]).is_none());
    let f = CanFrame::new_with_dlc(1, 3, &[4, 5, 6]).unwrap();
    assert_eq!(f.dlc(), 3);
    assert_eq!(f.data(), &[4, 5, 6]);
}

#[test]
fn new_with_dlc_above_eight_carries_eight_bytes() {
    let f = CanFrame::new_with_dlc(0x10, 12, &[1, 2, 3, 4, 5, 6, 7, 8]).unwrap();
    assert_eq!(f.dlc(), 12);
    assert_eq!(f.data().len(), 8);
    assert_eq!(f.data(), &[1, 2, 3, 4, 5, 6, 7, 8]);
    let g = CanFrame::new_with_dlc(0x10, 15, &[0; 8]).unwrap();
    assert_eq!(g.dlc(), 15);
}

#[test]
fn flags_and_arbitration_id() {
    let std_frame = CanFrame::new(0x1234_5678, &[]).unwrap();
    assert!(!std_frame.is_extended());
    assert!(!std_frame.is_remote());
    assert_eq!(std_frame.arb_id(), 0x678);

    let ext_frame = CanFrame::new(0x8000_0123, &[]).unwrap();
    assert!(ext_frame.is_extended());
    assert!(!ext_frame.is_remote());
    assert_eq!(ext_frame.arb_id(), 0x123);

    let ext_remote = CanFrame::new(0xFFFF_FFFF, &[]).unwrap();
    assert!(ext_remote.is_extended());
    assert!(ext_remote.is_remote());
    assert_eq!(ext_remote.arb_id(), 0x1FFF_FFFF);

    let std_remote = CanFrame::new(0x4000_07FF, &[]).unwrap();
    assert!(!std_remote.is_extended());
    assert!(std_remote.is_remote());
    assert_eq!(std_remote.arb_id(), 0x7FF);
}

#[test]
fn frame_id_constructors_check_range() {
    assert_eq!(FrameId::standard(0x7FF), Some(FrameId::Standard(0x7FF)));
    assert_eq!(FrameId::standard(0x800), None);
    assert_eq!(FrameId::standard(0), Some(FrameId::Standard(0)));
    assert_eq!(FrameId::extended(0x1FFF_FFFF), Some(FrameId::Extended(0x1FFF_FFFF)));
    assert_eq!(FrameId::extended(0x2000_0000), None);
    assert_eq!(FrameId::extended(5), Some(FrameId::Extended(5)));
}

#[test]
fn from_id_standard_round_trip() {
    let f = CanFrame::from_id(FrameId::Standard(0x321), &[0xAA, 0xBB]).unwrap();
    assert_eq!(f.raw_id(), 0x321);
    assert!(!f.is_extended());
    assert!(!f.is_remote());
    assert_eq!(f.id(), FrameId::Standard(0x321));
    assert_eq!(f.dlc(), 2);
    assert_eq!(f.payload(), &[0xAA, 0xBB]);
}

#[test]
fn from_id_extended_sets_eff() {
    let f = CanFrame::from_id(FrameId::Extended(0x1ABC_DEF0), &[1]).unwrap();
    assert_eq!(f.raw_id(), 0x9ABC_DEF0);
    assert!(f.is_extended());
    assert_eq!(f.id(), FrameId::Extended(0x1ABC_DEF0));
    assert_eq!(f.arb_id(), 0x1ABC_DEF0);
    assert_eq!(f.payload(), &[1]);
}

#[test]
fn from_id_rejects_long_data() {
    assert!(CanFrame::from_id(FrameId::Standard(1), &[0; 9]).is_none());
}

#[test]
fn new_remote_sets_rtr_and_keeps_dlc() {
    let f = CanFrame::new_remote(FrameId::Standard(0x100), 4).unwrap();
    assert_eq!(f.raw_id(), 0x4000_0100);
    assert!(f.is_remote());
    assert!(!f.is_extended());
    assert_eq!(f.dlc(), 4);
    assert_eq!(f.payload(), &[] as &[u8]);
    assert_eq!(f.data(), &[0, 0, 0, 0]);
    assert_eq!(f.id(), FrameId::Standard(0x100));

    let g = CanFrame::new_remote(FrameId::Extended(0x1FFF_FFFF), 15).unwrap();
    assert_eq!(g.raw_id(), 0xDFFF_FFFF);
    assert!(g.is_remote());
    assert!(g.is_extended());
    assert_eq!(g.dlc(), 15);
    assert_eq!(g.id(), FrameId::Extended(0x1FFF_FFFF));
}

#[test]
fn new_remote_rejects_dlc_above_fifteen() {
    assert!(CanFrame::new_remote(FrameId::Standard(1), 16).is_none());
}

#[test]
fn id_masks_flag_and_unused_bits() {
    let f = CanFrame::from_parts(0x7FFF_F800 | 0x5A5, 1, [0; 8]);
    assert_eq!(f.id(), FrameId::Standard(0x5A5));
    let g = CanFrame::from_parts(0xE000_0042, 1, [0; 8]);
    assert_eq!(g.id(), FrameId::Extended(0x42));
}

#[test]
fn from_parts_round_trip() {
    let f = CanFrame::from_parts(0x8000_0001, 13, [1, 2, 3, 4, 5, 6, 7, 8]);
    assert_eq!(f.parts(), (0x8000_0001, 13, [1, 2, 3, 4, 5, 6, 7, 8]));
    assert_eq!(f.data().len(), 8);
}

#[test]
fn debug_text_of_standard_frame() {
    let f = CanFrame::new(0x123, &[1, 0xAB, 0xFF]).unwrap();
    assert_eq!(
        f.debug_text(),
        "CanFrame { id: 0x123, extended: false, remote: false, data: [1, ab, ff] }"
    );
}

#[test]
fn debug_text_of_extended_remote_frame() {
    let f = CanFrame::new_remote(FrameId::Extended(0x1ABCDEF0), 2).unwrap();
    assert_eq!(
        f.debug_text(),
        "CanFrame { id: 0x1abcdef0, extended: true, remote: true, data: [0, 0] }"
    );
}

#[test]
fn debug_text_of_empty_frame() {
    let f = CanFrame::new(0, &[]).unwrap();
    assert_eq!(f.debug_text(), "CanFrame { id: 0x0, extended: false, remote: false, data: [] }");
}

#[test]
fn debug_text_matches_std_formatting() {
    let f = CanFrame::new(0x8765_4321, &[0x10, 0x0A, 0x00, 0x7F, 0x80]).unwrap();
    let expected = format!(
        "CanFrame {{ id: {:#x}, extended: {}, remote: {}, data: {:x?} }}",
        f.arb_id(),
        f.is_extended(),
        f.is_remote(),
        f.data()
    );
    assert_eq!(f.debug_text(), expected);
}
