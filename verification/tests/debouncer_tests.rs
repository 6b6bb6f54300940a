//! Collapsing a burst of player events into one send, with a ceiling so that
//! an unbroken stream still goes out. Times are milliseconds.

use ceyrad::portable::debouncer::Debouncer;

const DELAY: u64 = 800;
const MAX_DELAY: u64 = 2_000;
const START: u64 = 1_700_000_000_000;

fn debouncer() -> Debouncer {
    Debouncer::new(DELAY, MAX_DELAY)
}

#[test]
fn only_the_last_schedule_of_a_burst_fires() {
    let mut debouncer = debouncer();
    let start = START;

    debouncer.schedule(start);
    debouncer.schedule(start + 400);

    assert!(!debouncer.take_if_due(start + DELAY), "the first deadline was superseded");
    assert!(debouncer.take_if_due(start + 1_200));
}

#[test]
fn cancel_prevents_the_fire() {
    let mut debouncer = debouncer();
    let start = START;
    debouncer.schedule(start);
    debouncer.cancel();

    assert!(!debouncer.is_pending());
    assert!(!debouncer.take_if_due(start + 10_000));
}

#[test]
fn a_scheduled_fire_happens_at_most_once() {
    let mut debouncer = debouncer();
    let start = START;
    debouncer.schedule(start);

    assert!(debouncer.take_if_due(start + DELAY));
    assert!(!debouncer.take_if_due(start + DELAY));
    assert!(!debouncer.is_pending());
}

#[test]
fn nothing_fires_before_the_deadline() {
    let mut debouncer = debouncer();
    let start = START;
    let deadline = debouncer.schedule(start);

    assert_eq!(deadline, start + DELAY);
    assert!(!debouncer.take_if_due(start + 799));
    assert!(debouncer.is_pending());
}

#[test]
fn an_unbroken_stream_of_events_still_fires_at_the_ceiling() {
    let mut debouncer = debouncer();
    let start = START;

    let mut now = start;
    for _ in 0..20 {
        debouncer.schedule(now);
        now += 280;
    }

    assert!(
        debouncer.take_if_due(start + MAX_DELAY),
        "the ceiling is anchored to the first schedule of the burst"
    );
}

#[test]
fn the_ceiling_never_delays_a_fire_past_max_delay() {
    let mut debouncer = debouncer();
    let start = START;

    debouncer.schedule(start);
    let deadline = debouncer.schedule(start + 1_900);

    assert_eq!(deadline, start + MAX_DELAY, "clamped to the ceiling");
}

#[test]
fn a_new_burst_gets_a_full_ceiling_of_its_own() {
    let mut debouncer = debouncer();
    let start = START;

    debouncer.schedule(start);
    assert!(debouncer.take_if_due(start + DELAY));

    let later = start + 60_000;
    let deadline = debouncer.schedule(later);
    assert_eq!(deadline, later + DELAY);
}

#[test]
fn the_deadline_is_reported_while_pending() {
    let mut debouncer = debouncer();
    assert_eq!(debouncer.deadline(), None);
    debouncer.schedule(START);
    assert_eq!(debouncer.deadline(), Some(START + DELAY));
}
