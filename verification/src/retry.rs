//! When to try a statement again that the database refused, and when to
//! give up.

use vstd::prelude::*;

verus! {

/// The delay after the first failure, in milliseconds.
pub const INTERVAL: u64 = 100;

/// The longest delay between two attempts, in milliseconds.
pub const MAX_DELAY_TIME: u64 = 120_000;

/// The number of attempts that a statement is given.
pub const RETRY_COUNT: usize = 10;

/// The delay that follows a delay: twice as long, but never longer than
/// [`MAX_DELAY_TIME`].
pub open spec fn next_delay(delay: nat) -> nat {
    if 2 * delay < MAX_DELAY_TIME {
        2 * delay
    } else {
        MAX_DELAY_TIME as nat
    }
}

/// The delay after the failure with this number, counted from zero.
pub open spec fn delay_after(failures: nat) -> nat
    decreases failures,
{
    if failures == 0 {
        INTERVAL as nat
    } else {
        next_delay(delay_after((failures - 1) as nat))
    }
}

/// The attempts made on one statement and the delay before the next.
#[derive(Clone, Copy, Debug, PartialEq, Eq)]
pub struct Retry {
    retry_count: usize,
    attempts: usize,
    interval: u64,
}

/// What a [`Retry`] stands for.
pub struct RetryView {
    /// The number of attempts that the statement is given.
    pub retry_count: nat,
    /// The number of attempts made.
    pub attempts: nat,
    /// The delay after the next failure, in milliseconds.
    pub interval: nat,
}

impl View for Retry {
    type V = RetryView;

    closed spec fn view(&self) -> RetryView {
        RetryView {
            retry_count: self.retry_count as nat,
            attempts: self.attempts as nat,
            interval: self.interval as nat,
        }
    }
}

impl RetryView {
    /// No more attempts were made than are given, and the delay is between
    /// the first and the longest.
    pub open spec fn well_formed(self) -> bool {
        &&& self.attempts <= self.retry_count
        &&& INTERVAL <= self.interval <= MAX_DELAY_TIME
    }
}

impl Retry {
    /// A retry is well-formed at all times.
    #[verifier::type_invariant]
    pub open spec fn always_well_formed(self) -> bool {
        self@.well_formed()
    }

    /// Before the first attempt on a statement that is given `retry_count`
    /// attempts.
    pub fn new(retry_count: usize) -> (retry: Retry)
        ensures
            retry@ == (RetryView { retry_count: retry_count as nat, attempts: 0, interval: INTERVAL as nat }),
    {
        Retry { retry_count, attempts: 0, interval: INTERVAL }
    }

    /// Whether another attempt may be made. If so, it counts as made; if
    /// not, the statement has failed for good.
    pub fn next_attempt(&mut self) -> (go_on: bool)
        ensures
            go_on == (old(self)@.attempts < old(self)@.retry_count),
            final(self)@ == if go_on {
                RetryView { attempts: old(self)@.attempts + 1, ..old(self)@ }
            } else {
                old(self)@
            },
            final(self)@.well_formed(),
    {
        proof {
            use_type_invariant(&*self);
        }
        if self.attempts == self.retry_count {
            false
        } else {
            self.attempts = self.attempts + 1;
            true
        }
    }

    /// After a failed attempt: the milliseconds to wait before the next
    /// one. The delay after that is twice as long, up to the longest.
    pub fn failed(&mut self) -> (delay: u64)
        ensures
            delay == old(self)@.interval,
            final(self)@ == (RetryView { interval: next_delay(old(self)@.interval), ..old(self)@ }),
            final(self)@.well_formed(),
    {
        proof {
            use_type_invariant(&*self);
        }
        let delay = self.interval;
        self.interval = if delay < MAX_DELAY_TIME / 2 {
            2 * delay
        } else {
            MAX_DELAY_TIME
        };
        delay
    }
}

/// The delays double from the first one on until they reach the longest,
/// and stay there.
pub proof fn lemma_delays(failures: nat)
    ensures
        INTERVAL <= delay_after(failures) <= MAX_DELAY_TIME,
        delay_after(failures) <= delay_after(failures + 1),
        failures >= 11 ==> delay_after(failures) == MAX_DELAY_TIME,
        failures < 11 ==> delay_after(failures + 1) == if failures == 10 {
            MAX_DELAY_TIME as nat
        } else {
            2 * delay_after(failures)
        },
    decreases failures,
{
    reveal_with_fuel(delay_after, 13);
    if failures > 11 {
        lemma_delays((failures - 1) as nat);
    }
}

} // verus!
