//! Every deadline the event loop waits on, in one place.
//!
//! The deadlines live in an array indexed by [`Timer`], so [`Timers::next`]
//! covers every variant by construction. Times are milliseconds on one clock.
use crate::clock;
use vstd::prelude::*;

verus! {

/// One deadline the loop can arm.
#[derive(Debug, Clone, Copy, PartialEq, Eq, Structural)]
pub enum Timer {
    /// When a presence that has been paused long enough should be cleared.
    PauseHide,
    /// When to try Discord again after a connection dropped.
    Reconnect,
    /// How long Discord has left to answer a handshake with READY.
    Handshake,
    /// When to ask GitHub about a newer release.
    UpdateCheck,
    /// When a catalog lookup that failed outright may be retried.
    CatalogRetry,
}

pub const TIMER_COUNT: usize = 5;

/// The slot each timer's deadline occupies.
pub open spec fn timer_index(t: Timer) -> int {
    match t {
        Timer::PauseHide => 0,
        Timer::Reconnect => 1,
        Timer::Handshake => 2,
        Timer::UpdateCheck => 3,
        Timer::CatalogRetry => 4,
    }
}

impl Timer {
    pub const COUNT: usize = 5;

    pub const ALL: [Timer; 5] = [
        Timer::PauseHide,
        Timer::Reconnect,
        Timer::Handshake,
        Timer::UpdateCheck,
        Timer::CatalogRetry,
    ];

    pub fn index(self) -> (i: usize)
        ensures
            i == timer_index(self),
            i < TIMER_COUNT,
    {
        match self {
            Timer::PauseHide => 0,
            Timer::Reconnect => 1,
            Timer::Handshake => 2,
            Timer::UpdateCheck => 3,
            Timer::CatalogRetry => 4,
        }
    }
}

/// No two timers share a slot, and every slot belongs to a timer.
pub proof fn lemma_timer_index_is_a_bijection(a: Timer, b: Timer)
    ensures
        0 <= timer_index(a) < TIMER_COUNT,
        timer_index(a) == timer_index(b) <==> a == b,
{
}

/// The earliest armed deadline of `d`, or `None` when nothing is armed.
pub open spec fn earliest(d: Seq<Option<u64>>) -> Option<u64>
    decreases d.len(),
{
    if d.len() == 0 {
        None
    } else {
        let rest = earliest(d.drop_last());
        match (d.last(), rest) {
            (Some(x), Some(y)) => Some(if x < y { x } else { y }),
            (Some(x), None) => Some(x),
            (None, r) => r,
        }
    }
}

#[derive(Debug)]
pub struct Timers {
    deadlines: Vec<Option<u64>>,
}

impl Timers {
    /// The deadline of every timer, indexed by `timer_index`.
    pub closed spec fn slots(&self) -> Seq<Option<u64>> {
        self.deadlines@
    }

    /// The deadline armed for `t`, if any.
    pub open spec fn deadline_of(&self, t: Timer) -> Option<u64> {
        self.slots()[timer_index(t)]
    }

    /// One slot per timer.
    pub open spec fn wf(&self) -> bool {
        self.slots().len() == TIMER_COUNT
    }

    /// Nothing armed.
    pub fn new() -> (t: Self)
        ensures
            t.wf(),
            forall|i: int| 0 <= i < TIMER_COUNT ==> t.slots()[i] is None,
    {
        let mut deadlines: Vec<Option<u64>> = Vec::new();
        let mut i: usize = 0;
        while i < TIMER_COUNT
            invariant
                i <= TIMER_COUNT,
                deadlines@.len() == i,
                forall|j: int| 0 <= j < i ==> deadlines@[j] is None,
            decreases TIMER_COUNT - i,
        {
            deadlines.push(None);
            i = i + 1;
        }
        Timers { deadlines }
    }

    fn set_slot(&mut self, timer: Timer, value: Option<u64>)
        requires
            old(self).wf(),
        ensures
            final(self).slots() == old(self).slots().update(timer_index(timer), value),
    {
        let i = timer.index();
        self.deadlines.set(i, value);
    }

    pub fn arm_at(&mut self, timer: Timer, at: u64)
        requires
            old(self).wf(),
        ensures
            final(self).slots() == old(self).slots().update(timer_index(timer), Some(at)),
    {
        self.set_slot(timer, Some(at));
    }

    /// Arms `timer` to fire `after` milliseconds from now, by the wall clock.
    pub fn arm_in(&mut self, timer: Timer, after: u64)
        requires
            old(self).wf(),
        ensures
            exists|at: u64| at >= after && final(self).slots() == old(self).slots().update(timer_index(timer), Some(at)),
    {
        let now = clock::now_ms();
        let at = now.saturating_add(after);
        self.arm_at(timer, at);
    }

    pub fn cancel(&mut self, timer: Timer)
        requires
            old(self).wf(),
        ensures
            final(self).slots() == old(self).slots().update(timer_index(timer), None),
    {
        self.set_slot(timer, None);
    }

    pub fn is_armed(&self, timer: Timer) -> (b: bool)
        requires
            self.wf(),
        ensures
            b == self.deadline_of(timer) is Some,
    {
        self.deadlines[timer.index()].is_some()
    }

    /// Whether this deadline has passed, consuming it if so: a deadline read
    /// without being cleared stays in the past and would spin the loop.
    pub fn take_if_due(&mut self, timer: Timer, now: u64) -> (due: bool)
        requires
            old(self).wf(),
        ensures
            due == (old(self).deadline_of(timer) matches Some(at) && at <= now),
            due ==> final(self).slots() == old(self).slots().update(timer_index(timer), None),
            !due ==> final(self).slots() == old(self).slots(),
    {
        let due = match self.deadlines[timer.index()] {
            Some(at) => at <= now,
            None => false,
        };
        if due {
            self.set_slot(timer, None);
        }
        due
    }

    /// The earliest armed deadline, or `None` when the loop may sleep until
    /// something wakes it.
    pub fn next(&self) -> (n: Option<u64>)
        ensures
            n == earliest(self.slots()),
    {
        let mut best: Option<u64> = None;
        let mut i: usize = 0;
        while i < self.deadlines.len()
            invariant
                i <= self.deadlines@.len(),
                best == earliest(self.deadlines@.subrange(0, i as int)),
            decreases self.deadlines@.len() - i,
        {
            proof {
                assert(self.deadlines@.subrange(0, i + 1).drop_last() =~= self.deadlines@.subrange(0, i as int));
            }
            best = match (self.deadlines[i], best) {
                (Some(x), Some(y)) => Some(if x < y { x } else { y }),
                (Some(x), None) => Some(x),
                (None, r) => r,
            };
            i = i + 1;
        }
        proof {
            assert(self.deadlines@.subrange(0, i as int) =~= self.deadlines@);
        }
        best
    }
}

impl Default for Timers {
    fn default() -> (t: Self)
        ensures
            t.wf(),
            forall|i: int| 0 <= i < TIMER_COUNT ==> t.slots()[i] is None,
    {
        Timers::new()
    }
}

/// `earliest` is the minimum of what is armed: it is one of the armed
/// deadlines, no armed deadline is earlier, and it is `None` only when
/// nothing is armed.
pub proof fn lemma_earliest_is_the_minimum(d: Seq<Option<u64>>)
    ensures
        earliest(d) is None <==> forall|i: int| 0 <= i < d.len() ==> #[trigger] d[i] is None,
        earliest(d) matches Some(m) ==> exists|i: int| 0 <= i < d.len() && #[trigger] d[i] == Some(m),
        earliest(d) matches Some(m) ==> forall|i: int|
            0 <= i < d.len() && (#[trigger] d[i]) is Some ==> m <= d[i]->0,
    decreases d.len(),
{
    if d.len() > 0 {
        let init = d.drop_last();
        lemma_earliest_is_the_minimum(init);
        assert forall|i: int| 0 <= i < init.len() implies #[trigger] init[i] == d[i] by {}
        if earliest(d) is None {
            assert forall|i: int| 0 <= i < d.len() implies #[trigger] d[i] is None by {
                if i < d.len() - 1 {
                    assert(init[i] == d[i]);
                }
            }
        }
        match earliest(d) {
            Some(m) => {
                if d.last() == Some(m) {
                    assert(d[d.len() - 1] == Some(m));
                } else {
                    let i = choose|i: int| 0 <= i < init.len() && #[trigger] init[i] == Some(m);
                    assert(d[i] == Some(m));
                }
                assert forall|i: int| 0 <= i < d.len() && (#[trigger] d[i]) is Some implies m <= d[i]->0 by {
                    if i < d.len() - 1 {
                        assert(init[i] == d[i]);
                    }
                }
            },
            None => {},
        }
    }
}

} // verus!
