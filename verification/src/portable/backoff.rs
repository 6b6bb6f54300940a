//! Exponential backoff for reconnecting to Discord.
//!
//! Discord may be closed, restarting, or updating, so the wait doubles and
//! then holds at a ceiling.
use vstd::arithmetic::power2::{lemma2_to64, pow2};
use vstd::prelude::*;

verus! {

/// 1s doubling to this ceiling.
pub const MAX_DELAY_SECS: u64 = 60;

/// 2^6 = 64s is already past the ceiling, so counting further buys nothing.
pub const MAX_ATTEMPT: u32 = 6;

/// The delay, in seconds, that the attempt numbered `attempt` waits:
/// `2^attempt`, held at the ceiling.
pub open spec fn delay_for(attempt: nat) -> nat {
    if pow2(attempt) < MAX_DELAY_SECS {
        pow2(attempt)
    } else {
        MAX_DELAY_SECS as nat
    }
}

#[derive(Debug, Default)]
pub struct Backoff {
    attempt: u32,
}

impl Backoff {
    /// How many attempts have been counted since the last reset, capped.
    pub closed spec fn attempts(&self) -> nat {
        self.attempt as nat
    }

    #[verifier::type_invariant]
    closed spec fn attempt_is_capped(&self) -> bool {
        self.attempt <= MAX_ATTEMPT
    }

    /// A backoff that has not waited yet.
    pub fn new() -> (b: Self)
        ensures
            b.attempts() == 0,
    {
        Backoff { attempt: 0 }
    }

    /// How long to wait before the next attempt, in seconds, and count this one.
    pub fn next_delay(&mut self) -> (secs: u64)
        ensures
            secs == delay_for(old(self).attempts()),
            old(self).attempts() <= MAX_ATTEMPT,
            final(self).attempts() == if old(self).attempts() < MAX_ATTEMPT {
                old(self).attempts() + 1
            } else {
                MAX_ATTEMPT as nat
            },
    {
        proof {
            use_type_invariant(&*self);
            lemma2_to64();
            vstd::bits::lemma_u64_shl_is_mul(1, self.attempt as u64);
        }
        let shifted: u64 = 1u64 << (self.attempt as u64);
        let delay = if shifted < MAX_DELAY_SECS {
            shifted
        } else {
            MAX_DELAY_SECS
        };
        if self.attempt < MAX_ATTEMPT {
            self.attempt = self.attempt + 1;
        }
        delay
    }

    /// How many attempts have been counted since the last reset.
    pub fn attempt(&self) -> (a: u32)
        ensures
            a == self.attempts(),
            a <= MAX_ATTEMPT,
    {
        proof {
            use_type_invariant(self);
        }
        self.attempt
    }

    /// Something worked, so the next failure starts over at one second.
    pub fn reset(&mut self)
        ensures
            final(self).attempts() == 0,
    {
        self.attempt = 0;
    }
}

/// The delays double from one second and then hold at the ceiling: each delay
/// is twice the one before it, unless that would pass the ceiling, in which
/// case it is the ceiling.
pub proof fn lemma_delay_doubles_then_holds(attempt: nat)
    requires
        attempt < MAX_ATTEMPT,
    ensures
        delay_for(0) == 1,
        delay_for(attempt + 1) == if 2 * delay_for(attempt) < MAX_DELAY_SECS {
            2 * delay_for(attempt)
        } else {
            MAX_DELAY_SECS as nat
        },
        delay_for(MAX_ATTEMPT as nat) == MAX_DELAY_SECS,
{
    lemma2_to64();
}

/// The attempts a fresh backoff has counted once `k` delays were taken from
/// it with no reset in between, each `next_delay` counting one more up to
/// the cap.
pub open spec fn attempts_after(k: nat) -> nat
    decreases k,
{
    if k == 0 {
        0
    } else {
        let before = attempts_after((k - 1) as nat);
        if before < MAX_ATTEMPT {
            before + 1
        } else {
            MAX_ATTEMPT as nat
        }
    }
}

/// From a fresh backoff, after `k` delays were taken with no reset, the next
/// delay is `2^k` seconds while that is under the ceiling and the ceiling
/// from then on, however many delays follow: 1, 2, 4, 8, 16, 32, then 60
/// for good.
pub proof fn lemma_delays_from_a_fresh_backoff(k: nat)
    ensures
        attempts_after(k) == if k < MAX_ATTEMPT {
            k
        } else {
            MAX_ATTEMPT as nat
        },
        k < MAX_ATTEMPT ==> delay_for(attempts_after(k)) == pow2(k),
        k >= MAX_ATTEMPT ==> delay_for(attempts_after(k)) == MAX_DELAY_SECS,
    decreases k,
{
    lemma2_to64();
    if k > 0 {
        lemma_delays_from_a_fresh_backoff((k - 1) as nat);
    }
}

} // verus!
