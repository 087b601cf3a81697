use rp_can2040::CanStatistics;

fn stats(rx: u32, tx: u32, attempt: u32, parse: u32) -> CanStatistics {
    CanStatistics { rx_total: rx, tx_total: tx, tx_attempt: attempt, parse_error: parse }
}

#[test]
fn sub_gives_counter_differences() {
    let d = stats(10, 20, 30, 40) - stats(1, 2, 3, 4);
    assert_eq!((d.rx_total, d.tx_total, d.tx_attempt, d.parse_error), (9, 18, 27, 36));
}

#[test]
fn sub_handles_rollover() {
    let earlier = stats(u32::MAX - 2, u32::MAX, 0, 7);
    let later = stats(5, 0, 0, 7);
    let d = later - earlier;
    assert_eq!((d.rx_total, d.tx_total, d.tx_attempt, d.parse_error), (8, 1, 0, 0));
}

#[test]
fn delta_counts_events_across_rollover() {
    let earlier = stats(u32::MAX, 100, u32::MAX - 10, 0);
    let events = stats(3, 50, 20, u32::MAX);
    let later = stats(
        earlier.rx_total.wrapping_add(events.rx_total),
        earlier.tx_total.wrapping_add(events.tx_total),
        earlier.tx_attempt.wrapping_add(events.tx_attempt),
        earlier.parse_error.wrapping_add(events.parse_error),
    );
    let d = later - earlier;
    assert_eq!((d.rx_total, d.tx_total, d.tx_attempt, d.parse_error), (3, 50, 20, u32::MAX));
}

#[test]
fn snapshot_minus_itself_is_zero() {
    let s = stats(12, 34, 56, 78);
    let d = s - s;
    assert_eq!((d.rx_total, d.tx_total, d.tx_attempt, d.parse_error), (0, 0, 0, 0));
}

#[test]
fn deltas_add_up() {
    let a = stats(u32::MAX - 5, 0, 1, 2);
    let b = stats(3, 10, 1, 2);
    let c = stats(20, 15, 9, 2);
    let ab = b - a;
    let bc = c - b;
    let ac = c - a;
    assert_eq!(ab.rx_total.wrapping_add(bc.rx_total), ac.rx_total);
    assert_eq!(ab.tx_total.wrapping_add(bc.tx_total), ac.tx_total);
    assert_eq!(ab.tx_attempt.wrapping_add(bc.tx_attempt), ac.tx_attempt);
    assert_eq!(ab.parse_error.wrapping_add(bc.parse_error), ac.parse_error);
}

#[test]
fn default_is_zero() {
    let s = CanStatistics::default();
    assert_eq!((s.rx_total, s.tx_total, s.tx_attempt, s.parse_error), (0, 0, 0, 0));
}
