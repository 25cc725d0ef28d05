//! The mathematical model of the key-press log.
//!
//! A log is a sequence of timestamps, newest first, together with the idle
//! timeout after which it is considered abandoned.  Timestamps and durations are
//! natural numbers of nanoseconds.

use vstd::prelude::*;

verus! {

/// The largest number of key presses a log retains.
pub const MAX_KEY_PRESSES: usize = 700;

/// `count`, or the capacity if `count` is larger.
pub open spec fn capped(count: nat) -> nat {
    if count <= MAX_KEY_PRESSES {
        count
    } else {
        MAX_KEY_PRESSES as nat
    }
}

/// Time that has passed at `now` since the instant `at`.
///
/// The clock is monotonic, so an instant that is not in the past has age zero.
pub open spec fn age(now: nat, at: nat) -> nat {
    if at <= now {
        (now - at) as nat
    } else {
        0
    }
}

/// The test a timestamp passes if, at `now`, it is younger than `timespan`.
/// An age equal to `timespan` does not pass.
pub open spec fn younger_than(now: nat, timespan: nat) -> spec_fn(nat) -> bool {
    |at: nat| age(now, at) < timespan
}

/// Abstract state of a tracker.
#[verifier::ext_equal]
pub struct PressLog {
    /// Timestamps of the retained key presses; index 0 is the latest one recorded.
    pub times: Seq<nat>,
    /// Idle time after which the whole log is dropped.
    pub timeout: nat,
}

impl PressLog {
    /// The log of a tracker that has seen no key press yet.
    pub open spec fn fresh(timeout: nat) -> PressLog {
        PressLog { times: Seq::empty(), timeout }
    }

    /// The log holds no more entries than it may retain.
    pub open spec fn within_capacity(self) -> bool {
        self.times.len() <= MAX_KEY_PRESSES
    }

    /// At `now`, the latest recorded press lies further back than the timeout.
    ///
    /// Only the front entry is looked at; an empty log is never stale.
    pub open spec fn is_stale(self, now: nat) -> bool {
        self.times.len() > 0 && age(now, self.times[0]) > self.timeout
    }

    /// The entries that survive the staleness check made at `now`: none of them
    /// if the log is stale, all of them otherwise.
    pub open spec fn surviving(self, now: nat) -> Seq<nat> {
        if self.is_stale(now) {
            Seq::empty()
        } else {
            self.times
        }
    }

    /// The log after a key press at `now`: the new timestamp goes in front of the
    /// surviving entries, and the oldest entries beyond the capacity are cut off.
    pub open spec fn press(self, now: nat) -> PressLog {
        let grown = seq![now] + self.surviving(now);
        PressLog {
            times: if grown.len() <= MAX_KEY_PRESSES {
                grown
            } else {
                grown.take(MAX_KEY_PRESSES as int)
            },
            timeout: self.timeout,
        }
    }

    /// The log after one key press at each of `times`, in that order.
    pub open spec fn press_all(self, times: Seq<nat>) -> PressLog
        decreases times.len(),
    {
        if times.len() == 0 {
            self
        } else {
            self.press_all(times.drop_last()).press(times.last())
        }
    }

    /// The retained timestamps that, at `now`, are younger than `timespan`, in
    /// log order.  A press whose age equals `timespan` is not among them.
    pub open spec fn within(self, now: nat, timespan: nat) -> Seq<nat> {
        self.times.filter(younger_than(now, timespan))
    }
}

} // verus!
