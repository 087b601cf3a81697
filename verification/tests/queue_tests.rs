use rp_can2040::{CanFrame, RxQueue};

fn frame(n: u32) -> CanFrame {
    CanFrame::new(n, &[n as u8]).unwrap()
}

#[test]
fn empty_queue_pops_none() {
    let mut q: RxQueue<4> = RxQueue::new();
    assert!(q.pop().is_none());
}

#[test]
fn queue_holds_exactly_n_frames() {
    let mut q: RxQueue<4> = RxQueue::new();
    for n in 0..4 {
        assert!(q.push(frame(n)));
    }
    assert!(!q.push(frame(99)));
    for n in 0..4 {
        assert_eq!(q.pop().unwrap().raw_id(), n);
    }
    assert!(q.pop().is_none());
}

#[test]
fn queue_is_fifo_across_slot_wraparound() {
    let mut q: RxQueue<3> = RxQueue::new();
    let mut next_in: u32 = 0;
    let mut next_out: u32 = 0;
    for round in 0..20u32 {
        for _ in 0..(round % 3 + 1) {
            if q.push(frame(next_in)) {
                next_in += 1;
            }
        }
        for _ in 0..(round % 2 + 1) {
            if let Some(f) = q.pop() {
                assert_eq!(f.raw_id(), next_out);
                next_out += 1;
            }
        }
    }
    while let Some(f) = q.pop() {
        assert_eq!(f.raw_id(), next_out);
        next_out += 1;
    }
    assert_eq!(next_in, next_out);
}

#[test]
fn full_queue_drops_new_frame_and_keeps_old() {
    let mut q: RxQueue<2> = RxQueue::new();
    assert!(q.push(frame(1)));
    assert!(q.push(frame(2)));
    assert!(!q.push(frame(3)));
    assert_eq!(q.pop().unwrap().raw_id(), 1);
    assert!(q.push(frame(4)));
    assert_eq!(q.pop().unwrap().raw_id(), 2);
    assert_eq!(q.pop().unwrap().raw_id(), 4);
    assert!(q.pop().is_none());
}

#[test]
fn queue_keeps_order_over_many_laps() {
    let mut q: RxQueue<3> = RxQueue::new();
    let mut next_in: u32 = 0;
    let mut next_out: u32 = 0;
    for round in 0..1000u32 {
        let pushes = round % 4;
        for _ in 0..pushes {
            if q.push(frame(next_in)) {
                next_in += 1;
            }
        }
        for _ in 0..(round % 3) {
            if let Some(f) = q.pop() {
                assert_eq!(f.raw_id(), next_out);
                next_out += 1;
            }
        }
        assert!(next_in - next_out <= 3);
    }
    while let Some(f) = q.pop() {
        assert_eq!(f.raw_id(), next_out);
        next_out += 1;
    }
    assert_eq!(next_in, next_out);
}
