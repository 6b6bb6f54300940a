//! Every deadline the event loop waits on, one slot per timer.

use ceyrad::portable::timers::{Timer, Timers};

const NOW: u64 = 1_700_000_000_000;

#[test]
fn all_stays_in_step_with_count() {
    assert_eq!(Timer::ALL.len(), Timer::COUNT);
    let mut seen: Vec<usize> = Timer::ALL.iter().map(|t| t.index()).collect();
    seen.sort_unstable();
    seen.dedup();
    assert_eq!(seen.len(), Timer::COUNT, "two timers share an index");
    assert!(seen.iter().all(|&i| i < Timer::COUNT));
}

#[test]
fn nothing_armed_means_nothing_to_wait_for() {
    assert_eq!(Timers::default().next(), None);
}

#[test]
fn next_is_the_earliest_of_everything_armed() {
    let now = NOW;
    for timer in Timer::ALL {
        let mut timers = Timers::default();
        for (offset, other) in Timer::ALL.into_iter().enumerate() {
            timers.arm_at(other, now + 10_000 + 1_000 * offset as u64);
        }
        timers.arm_at(timer, now + 1_000);
        assert_eq!(timers.next(), Some(now + 1_000), "{timer:?} was not considered");
    }
}

#[test]
fn a_due_deadline_is_consumed_exactly_once() {
    let now = NOW;
    let mut timers = Timers::default();
    timers.arm_at(Timer::Reconnect, now);

    assert!(timers.take_if_due(Timer::Reconnect, now));
    assert!(!timers.take_if_due(Timer::Reconnect, now), "a fired deadline must not fire again");
    assert!(!timers.is_armed(Timer::Reconnect));
    assert_eq!(timers.next(), None, "a past deadline would spin the loop");
}

#[test]
fn a_future_deadline_is_left_alone() {
    let now = NOW;
    let mut timers = Timers::default();
    timers.arm_at(Timer::PauseHide, now + 60_000);

    assert!(!timers.take_if_due(Timer::PauseHide, now));
    assert!(timers.is_armed(Timer::PauseHide));
}

#[test]
fn timers_do_not_interfere_with_each_other() {
    let now = NOW;
    let mut timers = Timers::default();
    for timer in Timer::ALL {
        timers.arm_at(timer, now);
    }
    assert!(timers.take_if_due(Timer::Handshake, now));
    for timer in Timer::ALL {
        if timer != Timer::Handshake {
            assert!(timers.is_armed(timer), "{timer:?} was cleared too");
        }
    }
}

#[test]
fn cancelling_disarms_only_that_timer() {
    let mut timers = Timers::default();
    timers.arm_at(Timer::UpdateCheck, NOW + 5);
    timers.arm_at(Timer::CatalogRetry, NOW + 9);
    timers.cancel(Timer::UpdateCheck);
    assert!(!timers.is_armed(Timer::UpdateCheck));
    assert_eq!(timers.next(), Some(NOW + 9));
}
