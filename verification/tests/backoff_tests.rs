//! The reconnect wait doubles from a second and holds at a minute.

use ceyrad::portable::backoff::{Backoff, MAX_ATTEMPT, MAX_DELAY_SECS};

#[test]
fn the_delay_doubles_and_then_holds_at_the_ceiling() {
    let mut backoff = Backoff::default();
    let delays: Vec<u64> = (0..9).map(|_| backoff.next_delay()).collect();
    assert_eq!(delays, vec![1, 2, 4, 8, 16, 32, 60, 60, 60]);
}

#[test]
fn a_successful_connection_starts_the_series_over() {
    let mut backoff = Backoff::default();
    for _ in 0..5 {
        backoff.next_delay();
    }
    backoff.reset();
    assert_eq!(backoff.next_delay(), 1);
}

#[test]
fn the_attempt_counter_cannot_run_away() {
    let mut backoff = Backoff::default();
    for _ in 0..1_000 {
        backoff.next_delay();
    }
    assert_eq!(backoff.attempt(), MAX_ATTEMPT);
    assert_eq!(backoff.next_delay(), MAX_DELAY_SECS);
}

#[test]
fn after_k_delays_the_next_is_two_to_the_k_held_at_a_minute() {
    for k in 0..20u32 {
        let mut backoff = Backoff::default();
        for _ in 0..k {
            backoff.next_delay();
        }
        let expected = if k < MAX_ATTEMPT { 1u64 << k } else { MAX_DELAY_SECS };
        assert_eq!(backoff.next_delay(), expected.min(MAX_DELAY_SECS));
    }
}
