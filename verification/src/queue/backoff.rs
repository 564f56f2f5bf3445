//! When a failed job is tried again: exponential backoff with a cap and
//! jitter.

use vstd::prelude::*;
use super::job::{add_duration, time_after};

verus! {

/// `base` doubled `times` times.
pub open spec fn doubled(base: nat, times: nat) -> nat
    decreases times,
{
    if times == 0 {
        base
    } else {
        2 * doubled(base, (times - 1) as nat)
    }
}

/// Doubling more often never gives less.
pub proof fn lemma_doubled_monotonic(base: nat, m: nat, n: nat)
    requires
        m <= n,
    ensures
        doubled(base, m) <= doubled(base, n),
    decreases n,
{
    if m < n {
        lemma_doubled_monotonic(base, m, (n - 1) as nat);
    }
}

/// Nothing doubled is nothing.
pub proof fn lemma_doubled_zero(times: nat)
    ensures
        doubled(0, times) == 0,
    decreases times,
{
    if times > 0 {
        lemma_doubled_zero((times - 1) as nat);
    }
}

/// How long a failed job waits before it is tried again.
///
/// After the first failed attempt the job waits `base_delay`; the wait
/// doubles with each further attempt and never exceeds `max_delay`. On top
/// comes a jitter of at most `max_jitter`, drawn by the caller, so that jobs
/// that failed together do not all come back at the same instant.
#[derive(Clone, Copy, Debug, PartialEq, Eq, Structural)]
pub struct BackoffPolicy {
    pub base_delay: u64,
    pub max_delay: u64,
    pub max_jitter: u64,
}

impl BackoffPolicy {
    /// The wait after `attempts` attempts, without jitter:
    /// `base_delay * 2^(attempts - 1)`, capped at `max_delay`.
    pub open spec fn delay(self, attempts: u32) -> u64 {
        let times: nat = if attempts == 0 {
            0
        } else {
            (attempts - 1) as nat
        };
        let raw = doubled(self.base_delay as nat, times);
        if raw > self.max_delay {
            self.max_delay
        } else {
            raw as u64
        }
    }

    /// The jitter that the random number `entropy` stands for: `entropy`
    /// reduced to the range from 0 to `max_jitter`, both included.
    pub open spec fn jitter(self, entropy: u64) -> u64 {
        if self.max_jitter == u64::MAX {
            entropy
        } else {
            (entropy % ((self.max_jitter + 1) as u64)) as u64
        }
    }

    /// When a job that failed at `now`, after `attempts` attempts, is due
    /// again.
    pub open spec fn retry_at(self, attempts: u32, now: u64, entropy: u64) -> u64 {
        time_after(time_after(now, self.delay(attempts)), self.jitter(entropy))
    }

    /// The wait never exceeds the cap, and grows with the attempts.
    pub proof fn lemma_delay_bounds(self, a: u32, b: u32)
        requires
            a <= b,
        ensures
            self.delay(a) <= self.delay(b) <= self.max_delay,
            self.delay(1) == if self.base_delay > self.max_delay {
                self.max_delay
            } else {
                self.base_delay
            },
    {
        let ta: nat = if a == 0 { 0 } else { (a - 1) as nat };
        let tb: nat = if b == 0 { 0 } else { (b - 1) as nat };
        lemma_doubled_monotonic(self.base_delay as nat, ta, tb);
    }

    /// Below the cap each further attempt doubles the wait.
    pub proof fn lemma_delay_doubles(self, attempts: u32)
        requires
            1 <= attempts < u32::MAX,
            2 * self.delay(attempts) <= self.max_delay,
            self.max_delay > 0,
        ensures
            self.delay((attempts + 1) as u32) == 2 * self.delay(attempts),
    {
        assert(doubled(self.base_delay as nat, attempts as nat) == 2 * doubled(
            self.base_delay as nat,
            (attempts - 1) as nat,
        ));
    }

    /// The jitter never exceeds `max_jitter`.
    pub proof fn lemma_jitter_bound(self, entropy: u64)
        ensures
            self.jitter(entropy) <= self.max_jitter,
    {
    }

    /// The wait after `attempts` attempts, without jitter.
    pub fn delay_for(&self, attempts: u32) -> (r: u64)
        ensures
            r == self.delay(attempts),
    {
        if self.base_delay == 0 {
            proof {
                lemma_doubled_zero(
                    if attempts == 0 {
                        0
                    } else {
                        (attempts - 1) as nat
                    },
                );
            }
            return 0;
        }
        let mut delay: u64 = if self.base_delay > self.max_delay {
            self.max_delay
        } else {
            self.base_delay
        };
        let mut i: u32 = 1;
        while i < attempts && delay < self.max_delay
            invariant
                1 <= i,
                attempts >= 1 ==> i <= attempts,
                attempts == 0 ==> i == 1,
                delay <= self.max_delay,
                delay < self.max_delay ==> delay == doubled(
                    self.base_delay as nat,
                    (i - 1) as nat,
                ),
                delay == self.max_delay ==> doubled(self.base_delay as nat, (i - 1) as nat)
                    >= self.max_delay,
            decreases attempts - i,
        {
            assert(doubled(self.base_delay as nat, i as nat) == 2 * doubled(
                self.base_delay as nat,
                (i - 1) as nat,
            ));
            if delay > self.max_delay / 2 {
                delay = self.max_delay;
            } else {
                delay = delay * 2;
            }
            i = i + 1;
        }
        proof {
            if attempts >= 1 {
                lemma_doubled_monotonic(
                    self.base_delay as nat,
                    (i - 1) as nat,
                    (attempts - 1) as nat,
                );
            }
        }
        delay
    }

    /// The jitter that the random number `entropy` stands for.
    pub fn jitter_for(&self, entropy: u64) -> (r: u64)
        ensures
            r == self.jitter(entropy),
            r <= self.max_jitter,
    {
        if self.max_jitter == u64::MAX {
            entropy
        } else {
            entropy % (self.max_jitter + 1)
        }
    }

    /// When a job that failed at `now`, after `attempts` attempts, is due
    /// again: `now`, plus the wait, plus the jitter.
    pub fn next_attempt_at(&self, attempts: u32, now: u64, entropy: u64) -> (r: u64)
        ensures
            r == self.retry_at(attempts, now, entropy),
            r >= now,
    {
        let base = add_duration(now, self.delay_for(attempts));
        add_duration(base, self.jitter_for(entropy))
    }
}

} // verus!
