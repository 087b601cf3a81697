//! Snapshots of can2040's bus counters and their differences.

use vstd::prelude::*;
use crate::modular::lemma_mod_one_period;

verus! {

/// Snapshot of can2040 bus counters.
///
/// Counters are only reset when the bus is set up anew. To compute activity
/// over a discrete period, subtract two snapshots; wrapping subtraction
/// handles 32-bit counter rollovers correctly.
#[derive(Debug, Clone, Copy, Default)]
pub struct CanStatistics {
    pub rx_total: u32,
    pub tx_total: u32,
    pub tx_attempt: u32,
    pub parse_error: u32,
}

/// How far a 32-bit counter has moved from `earlier` to `later`, counted
/// modulo 2^32.
pub open spec fn counter_delta(later: u32, earlier: u32) -> u32 {
    ((later - earlier) % 0x1_0000_0000) as u32
}

/// A 32-bit counter at `start` after `steps` more events, modulo 2^32.
pub open spec fn counter_advance(start: u32, steps: u32) -> u32 {
    ((start + steps) % 0x1_0000_0000) as u32
}

/// Field-wise `counter_delta` of two snapshots.
pub open spec fn stats_delta(later: CanStatistics, earlier: CanStatistics) -> CanStatistics {
    CanStatistics {
        rx_total: counter_delta(later.rx_total, earlier.rx_total),
        tx_total: counter_delta(later.tx_total, earlier.tx_total),
        tx_attempt: counter_delta(later.tx_attempt, earlier.tx_attempt),
        parse_error: counter_delta(later.parse_error, earlier.parse_error),
    }
}

/// Field-wise `counter_advance` of a snapshot by per-counter event counts.
pub open spec fn stats_advance(start: CanStatistics, steps: CanStatistics) -> CanStatistics {
    CanStatistics {
        rx_total: counter_advance(start.rx_total, steps.rx_total),
        tx_total: counter_advance(start.tx_total, steps.tx_total),
        tx_attempt: counter_advance(start.tx_attempt, steps.tx_attempt),
        parse_error: counter_advance(start.parse_error, steps.parse_error),
    }
}

fn counter_sub(later: u32, earlier: u32) -> (r: u32)
    ensures
        r == counter_delta(later, earlier),
{
    later.wrapping_sub(earlier)
}

impl core::ops::Sub for CanStatistics {
    type Output = CanStatistics;

    /// Counter-wise wrapping difference `self - rhs`.
    fn sub(self, rhs: CanStatistics) -> (r: CanStatistics) {
        CanStatistics {
            rx_total: counter_sub(self.rx_total, rhs.rx_total),
            tx_total: counter_sub(self.tx_total, rhs.tx_total),
            tx_attempt: counter_sub(self.tx_attempt, rhs.tx_attempt),
            parse_error: counter_sub(self.parse_error, rhs.parse_error),
        }
    }
}

impl vstd::std_specs::ops::SubSpecImpl for CanStatistics {
    open spec fn obeys_sub_spec() -> bool {
        true
    }

    open spec fn sub_req(self, rhs: CanStatistics) -> bool {
        true
    }

    open spec fn sub_spec(self, rhs: CanStatistics) -> CanStatistics {
        stats_delta(self, rhs)
    }
}

proof fn lemma_counter_delta_of_advance(earlier: u32, events: u32)
    ensures
        counter_delta(counter_advance(earlier, events), earlier) == events,
{
    lemma_mod_one_period(earlier + events, 0x1_0000_0000);
    let later = counter_advance(earlier, events);
    lemma_mod_one_period(later - earlier, 0x1_0000_0000);
}

proof fn lemma_counter_advance_by_delta(later: u32, earlier: u32)
    ensures
        counter_advance(earlier, counter_delta(later, earlier)) == later,
{
    lemma_mod_one_period(later - earlier, 0x1_0000_0000);
    let d = counter_delta(later, earlier);
    lemma_mod_one_period(earlier + d, 0x1_0000_0000);
}

proof fn lemma_counter_deltas_add_up(c: u32, b: u32, a: u32)
    ensures
        counter_advance(counter_delta(b, a), counter_delta(c, b)) == counter_delta(c, a),
{
    lemma_mod_one_period(b - a, 0x1_0000_0000);
    lemma_mod_one_period(c - b, 0x1_0000_0000);
    lemma_mod_one_period(c - a, 0x1_0000_0000);
    lemma_mod_one_period(counter_delta(b, a) + counter_delta(c, b), 0x1_0000_0000);
}

/// Subtracting an earlier snapshot from a later one gives exactly the number
/// of events counted in between, modulo 2^32: rollovers of a counter do not
/// disturb the difference.
pub proof fn lemma_delta_counts_events(earlier: CanStatistics, events: CanStatistics)
    ensures
        stats_delta(stats_advance(earlier, events), earlier) == events,
{
    lemma_counter_delta_of_advance(earlier.rx_total, events.rx_total);
    lemma_counter_delta_of_advance(earlier.tx_total, events.tx_total);
    lemma_counter_delta_of_advance(earlier.tx_attempt, events.tx_attempt);
    lemma_counter_delta_of_advance(earlier.parse_error, events.parse_error);
}

/// Adding the difference of two snapshots back to the earlier one gives the
/// later one.
pub proof fn lemma_advance_by_delta(later: CanStatistics, earlier: CanStatistics)
    ensures
        stats_advance(earlier, stats_delta(later, earlier)) == later,
{
    lemma_counter_advance_by_delta(later.rx_total, earlier.rx_total);
    lemma_counter_advance_by_delta(later.tx_total, earlier.tx_total);
    lemma_counter_advance_by_delta(later.tx_attempt, earlier.tx_attempt);
    lemma_counter_advance_by_delta(later.parse_error, earlier.parse_error);
}

/// A snapshot minus itself is all zeros.
pub proof fn lemma_delta_self_is_zero(s: CanStatistics)
    ensures
        stats_delta(s, s) == (CanStatistics { rx_total: 0, tx_total: 0, tx_attempt: 0, parse_error: 0 }),
{
}

/// Differences chain: (c - b) advanced by (b - a) is (c - a).
pub proof fn lemma_deltas_add_up(c: CanStatistics, b: CanStatistics, a: CanStatistics)
    ensures
        stats_advance(stats_delta(b, a), stats_delta(c, b)) == stats_delta(c, a),
{
    lemma_counter_deltas_add_up(c.rx_total, b.rx_total, a.rx_total);
    lemma_counter_deltas_add_up(c.tx_total, b.tx_total, a.tx_total);
    lemma_counter_deltas_add_up(c.tx_attempt, b.tx_attempt, a.tx_attempt);
    lemma_counter_deltas_add_up(c.parse_error, b.parse_error, a.parse_error);
}

/// Each counter of a difference is the same counter of the later snapshot
/// minus that of the earlier one, modulo 2^32.
pub proof fn lemma_delta_fields(later: CanStatistics, earlier: CanStatistics)
    ensures
        stats_delta(later, earlier).rx_total == (later.rx_total - earlier.rx_total) % 0x1_0000_0000,
        stats_delta(later, earlier).tx_total == (later.tx_total - earlier.tx_total) % 0x1_0000_0000,
        stats_delta(later, earlier).tx_attempt == (later.tx_attempt - earlier.tx_attempt)
            % 0x1_0000_0000,
        stats_delta(later, earlier).parse_error == (later.parse_error - earlier.parse_error)
            % 0x1_0000_0000,
{
    lemma_mod_one_period(later.rx_total - earlier.rx_total, 0x1_0000_0000);
    lemma_mod_one_period(later.tx_total - earlier.tx_total, 0x1_0000_0000);
    lemma_mod_one_period(later.tx_attempt - earlier.tx_attempt, 0x1_0000_0000);
    lemma_mod_one_period(later.parse_error - earlier.parse_error, 0x1_0000_0000);
}

} // verus!
