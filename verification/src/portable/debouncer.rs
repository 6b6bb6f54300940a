//! Trailing-edge debounce with a ceiling on how long it may postpone a send.
//!
//! Times are milliseconds on one clock; the caller owns the timer and folds
//! `deadline` into its own wait.
use vstd::prelude::*;

verus! {

/// What one `schedule(now)` does: the burst's ceiling (the one already
/// fixed, or `max_delay` after `now` when this call begins the burst) and
/// the deadline, `delay` after `now` but never past the ceiling.
pub open spec fn scheduled(ceiling: Option<u64>, delay: u64, max_delay: u64, now: u64) -> (u64, u64) {
    let c = match ceiling {
        Some(c) => c,
        None => (now + max_delay) as u64,
    };
    (c, if now + delay < c { (now + delay) as u64 } else { c })
}

/// Scheduling at each of `times` in turn, starting from `ceiling`: the
/// ceiling at the end, and the deadline the last call set.
pub open spec fn burst(ceiling: Option<u64>, delay: u64, max_delay: u64, times: Seq<u64>) -> (Option<u64>, Option<u64>)
    decreases times.len(),
{
    if times.len() == 0 {
        (ceiling, None)
    } else {
        let step = scheduled(ceiling, delay, max_delay, times[0]);
        if times.len() == 1 {
            (Some(step.0), Some(step.1))
        } else {
            burst(Some(step.0), delay, max_delay, times.drop_first())
        }
    }
}

#[derive(Debug)]
pub struct Debouncer {
    delay: u64,
    max_delay: u64,
    deadline: Option<u64>,
    /// The point `deadline` may not be pushed past, fixed by the first
    /// `schedule` of the current burst.
    ceiling: Option<u64>,
}

impl Debouncer {
    pub closed spec fn spec_delay(&self) -> u64 {
        self.delay
    }

    pub closed spec fn spec_max_delay(&self) -> u64 {
        self.max_delay
    }

    /// When the armed fire is due, if one is armed.
    pub closed spec fn spec_deadline(&self) -> Option<u64> {
        self.deadline
    }

    /// The ceiling of the current burst, if one has begun.
    pub closed spec fn spec_ceiling(&self) -> Option<u64> {
        self.ceiling
    }

    pub fn new(delay: u64, max_delay: u64) -> (d: Self)
        ensures
            d.spec_delay() == delay,
            d.spec_max_delay() == max_delay,
            d.spec_deadline() is None,
            d.spec_ceiling() is None,
    {
        Debouncer { delay, max_delay, deadline: None, ceiling: None }
    }

    /// Arms, or re-arms, the trailing edge and returns when it will come due:
    /// `delay` after `now`, but never past the ceiling that the first
    /// `schedule` of the burst fixed at `max_delay` after it.
    pub fn schedule(&mut self, now: u64) -> (deadline: u64)
        requires
            now + old(self).spec_delay() <= u64::MAX,
            now + old(self).spec_max_delay() <= u64::MAX,
        ensures
            final(self).spec_delay() == old(self).spec_delay(),
            final(self).spec_max_delay() == old(self).spec_max_delay(),
            ({
                let step = scheduled(old(self).spec_ceiling(), old(self).spec_delay(), old(self).spec_max_delay(), now);
                &&& final(self).spec_ceiling() == Some(step.0)
                &&& deadline == step.1
            }),
            final(self).spec_deadline() == Some(deadline),
            deadline <= final(self).spec_ceiling()->0,
    {
        let ceiling = match self.ceiling {
            Some(c) => c,
            None => now + self.max_delay,
        };
        let wanted = now + self.delay;
        let deadline = if wanted < ceiling {
            wanted
        } else {
            ceiling
        };
        self.ceiling = Some(ceiling);
        self.deadline = Some(deadline);
        deadline
    }

    /// Disarms without firing, and releases the ceiling so the next burst gets
    /// a full window of its own.
    pub fn cancel(&mut self)
        ensures
            final(self).spec_delay() == old(self).spec_delay(),
            final(self).spec_max_delay() == old(self).spec_max_delay(),
            final(self).spec_deadline() is None,
            final(self).spec_ceiling() is None,
    {
        self.deadline = None;
        self.ceiling = None;
    }

    /// When the armed fire is due, for callers folding this into a wait.
    pub fn deadline(&self) -> (d: Option<u64>)
        ensures
            d == self.spec_deadline(),
    {
        self.deadline
    }

    pub fn is_pending(&self) -> (b: bool)
        ensures
            b == self.spec_deadline() is Some,
    {
        self.deadline.is_some()
    }

    /// True exactly once, on the first call at or after the armed deadline.
    /// Disarms, so a burst collapses to a single fire.
    pub fn take_if_due(&mut self, now: u64) -> (fired: bool)
        ensures
            fired == (old(self).spec_deadline() matches Some(d) && d <= now),
            final(self).spec_delay() == old(self).spec_delay(),
            final(self).spec_max_delay() == old(self).spec_max_delay(),
            fired ==> final(self).spec_deadline() is None && final(self).spec_ceiling() is None,
            !fired ==> final(self).spec_deadline() == old(self).spec_deadline()
                && final(self).spec_ceiling() == old(self).spec_ceiling(),
    {
        match self.deadline {
            Some(deadline) => {
                if deadline <= now {
                    self.cancel();
                    true
                } else {
                    false
                }
            },
            None => false,
        }
    }
}

/// A burst in progress keeps its ceiling, and each call's deadline is
/// `delay` after it, held at that ceiling.
proof fn lemma_burst_under_ceiling(c: u64, delay: u64, max_delay: u64, times: Seq<u64>)
    requires
        times.len() > 0,
    ensures
        burst(Some(c), delay, max_delay, times) == (
            Some(c),
            Some(if times.last() + delay < c { (times.last() + delay) as u64 } else { c }),
        ),
    decreases times.len(),
{
    if times.len() > 1 {
        lemma_burst_under_ceiling(c, delay, max_delay, times.drop_first());
    }
}

/// Over a burst of `schedule` calls at `times` on a debouncer with no burst
/// going (new, cancelled, or just fired), the ceiling is fixed by the first
/// call at `max_delay` after it, and the deadline the last call leaves is
/// `min(last + delay, first + max_delay)`: a steady stream of events still
/// sends within `max_delay` of the first.
pub proof fn lemma_burst_is_held_to_its_first_call(delay: u64, max_delay: u64, times: Seq<u64>)
    requires
        times.len() > 0,
        times[0] + max_delay <= u64::MAX,
    ensures
        ({
            let first = times[0];
            let last = times.last();
            burst(None, delay, max_delay, times) == (
                Some((first + max_delay) as u64),
                Some(
                    if last + delay < first + max_delay {
                        (last + delay) as u64
                    } else {
                        (first + max_delay) as u64
                    },
                ),
            )
        }),
{
    let c = (times[0] + max_delay) as u64;
    if times.len() > 1 {
        lemma_burst_under_ceiling(c, delay, max_delay, times.drop_first());
        assert(times.drop_first().last() == times.last());
    }
}

} // verus!
