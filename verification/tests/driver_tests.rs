use rp_can2040::{
    has_transmit_space, notify_carries_frame, transmit_status, Can2040, CanError, CanFrame, Chip,
    NbError, Notification,
};
use rp_can2040::driver::{NOTIFY_ERROR, NOTIFY_RX, NOTIFY_TX};

fn frame(n: u32) -> CanFrame {
    CanFrame::new(n, &[1, 2]).unwrap()
}

#[test]
fn chip_defaults() {
    assert_eq!(Chip::Rp2040.default_sys_freq(), 125_000_000);
    assert_eq!(Chip::Rp2350.default_sys_freq(), 150_000_000);
    assert_eq!(Chip::Rp2040.max_pio_num(), 1);
    assert_eq!(Chip::Rp2350.max_pio_num(), 2);
}

#[test]
fn rp2350_bus_on_pio2() {
    let mut can: Can2040<4> = Can2040::new(Chip::Rp2350, 2);
    assert_eq!(can.pio_num(), 2);
    assert!(can.on_notify(NOTIFY_RX, Some(frame(9))).is_some());
    assert_eq!(can.receive().unwrap().raw_id(), 9);
}

#[test]
fn only_rx_and_tx_carry_a_frame() {
    assert!(notify_carries_frame(NOTIFY_RX));
    assert!(notify_carries_frame(NOTIFY_TX));
    assert!(!notify_carries_frame(NOTIFY_ERROR));
    assert!(!notify_carries_frame(0));
}

#[test]
fn frame_notification_without_message_is_ignored() {
    let mut can: Can2040<4> = Can2040::new(Chip::Rp2040, 0);
    assert!(can.on_notify(NOTIFY_RX, None).is_none());
    assert!(can.on_notify(NOTIFY_TX, None).is_none());
    assert_eq!(can.receive().err(), Some(NbError::WouldBlock));
}

#[test]
fn new_bus_has_no_frames() {
    let mut can: Can2040<8> = Can2040::new(Chip::Rp2040, 1);
    assert_eq!(can.pio_num(), 1);
    assert_eq!(can.receive().err(), Some(NbError::WouldBlock));
}

#[test]
fn rx_notification_queues_frame() {
    let mut can: Can2040<8> = Can2040::new(Chip::Rp2040, 0);
    let n = can.on_notify(NOTIFY_RX, Some(frame(0x55)));
    assert!(matches!(n, Some(Notification::Rx(f)) if f.raw_id() == 0x55));
    let got = can.receive().unwrap();
    assert_eq!(got.raw_id(), 0x55);
    assert_eq!(got.data(), &[1, 2]);
    assert_eq!(can.receive().err(), Some(NbError::WouldBlock));
}

#[test]
fn tx_and_error_notifications_do_not_queue() {
    let mut can: Can2040<8> = Can2040::new(Chip::Rp2040, 0);
    let n = can.on_notify(NOTIFY_TX, Some(frame(0x66)));
    assert!(matches!(n, Some(Notification::Tx(f)) if f.raw_id() == 0x66));
    let e = can.on_notify(NOTIFY_ERROR, None);
    assert!(matches!(e, Some(Notification::Error)));
    assert_eq!(can.receive().err(), Some(NbError::WouldBlock));
}

#[test]
fn unknown_notification_is_ignored() {
    let mut can: Can2040<8> = Can2040::new(Chip::Rp2040, 0);
    assert!(can.on_notify(0, Some(frame(1))).is_none());
    assert!(can.on_notify(NOTIFY_RX | NOTIFY_TX, Some(frame(1))).is_none());
    assert_eq!(can.receive().err(), Some(NbError::WouldBlock));
}

#[test]
fn received_frames_come_out_in_order_and_overflow_is_dropped() {
    let mut can: Can2040<2> = Can2040::new(Chip::Rp2040, 0);
    for n in 1..=3 {
        let r = can.on_notify(NOTIFY_RX, Some(frame(n)));
        assert!(matches!(r, Some(Notification::Rx(_))));
    }
    assert_eq!(can.receive().unwrap().raw_id(), 1);
    assert_eq!(can.receive().unwrap().raw_id(), 2);
    assert_eq!(can.receive().err(), Some(NbError::WouldBlock));
}

#[test]
fn transmit_status_maps_full_queue_to_would_block() {
    assert_eq!(transmit_status(-1), Err(NbError::WouldBlock));
    assert_eq!(transmit_status(i32::MIN), Err(NbError::WouldBlock));
    assert_eq!(transmit_status(0), Ok(()));
    assert_eq!(transmit_status(3), Ok(()));
}

#[test]
fn transmit_space_is_nonzero_status() {
    assert!(!has_transmit_space(0));
    assert!(has_transmit_space(1));
    assert!(has_transmit_space(-1));
}

#[test]
fn can_error_has_one_variant() {
    let e = CanError::Overrun;
    assert_eq!(format!("{:?}", e), "Overrun");
    assert_eq!(NbError::Other(e), NbError::Other(CanError::Overrun));
}
