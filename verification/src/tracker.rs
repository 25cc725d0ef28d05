//! The tracker: a bounded, newest-first log of key presses.

use std::time::Instant;
use vstd::prelude::*;
use crate::laws::lemma_empty_window;
use crate::model::{age, younger_than, PressLog, MAX_KEY_PRESSES};
use crate::speed::TypingSpeed;

verus! {

/// One key-down event.
#[derive(Clone, Copy, Debug)]
pub struct KeyPress {
    /// When the key went down, in nanoseconds on the tracker's clock.
    pub time: u128,
}

impl KeyPress {
    /// Time that has passed at `now` since this key press.
    pub fn elapsed_at(&self, now: u128) -> (elapsed: u128)
        ensures
            elapsed == age(now as nat, self.time as nat),
    {
        if self.time <= now {
            now - self.time
        } else {
            0
        }
    }
}

/// The timestamps of a sequence of key presses.
pub open spec fn times_of(presses: Seq<KeyPress>) -> Seq<nat> {
    presses.map_values(|press: KeyPress| press.time as nat)
}

/// The timestamps of a sequence of borrowed key presses.
pub open spec fn times_of_refs(presses: Seq<&KeyPress>) -> Seq<nat> {
    presses.map_values(|press: &KeyPress| press.time as nat)
}

/// Records key presses and answers how many of them are recent.
pub struct TypingSpeedTracker {
    key_presses: Vec<KeyPress>,
    timeout: u128,
    started: Instant,
}

impl View for TypingSpeedTracker {
    type V = PressLog;

    closed spec fn view(&self) -> PressLog {
        PressLog { times: times_of(self.key_presses@), timeout: self.timeout as nat }
    }
}

impl TypingSpeedTracker {
    #[verifier::type_invariant]
    spec fn retains_at_most_capacity(&self) -> bool {
        self.key_presses@.len() <= MAX_KEY_PRESSES
    }

    /// A tracker with an empty log.  `timeout` is the idle time, in nanoseconds,
    /// after which the log is dropped; the tracker's clock starts at zero now.
    pub fn new(timeout: u128) -> (tracker: Self)
        ensures
            tracker@ == PressLog::fresh(timeout as nat),
    {
        let tracker = TypingSpeedTracker {
            key_presses: Vec::with_capacity(MAX_KEY_PRESSES),
            timeout,
            started: Instant::now(),
        };
        assert(tracker@.times =~= Seq::empty());
        tracker
    }

    /// The idle time, in nanoseconds, after which the log is dropped.
    pub fn timeout(&self) -> (timeout: u128)
        ensures
            timeout == self@.timeout,
    {
        self.timeout
    }

    /// The retained key presses, latest first.  There are never more of them
    /// than [`MAX_KEY_PRESSES`].
    pub fn key_presses(&self) -> (presses: &Vec<KeyPress>)
        ensures
            times_of(presses@) == self@.times,
            presses@.len() <= MAX_KEY_PRESSES,
    {
        proof {
            use_type_invariant(self);
        }
        &self.key_presses
    }

    /// The number of retained key presses.
    pub fn len(&self) -> (len: usize)
        ensures
            len == self@.times.len(),
            len <= MAX_KEY_PRESSES,
    {
        proof {
            use_type_invariant(self);
        }
        self.key_presses.len()
    }

    /// The current reading of the tracker's clock: nanoseconds since the tracker
    /// was made.
    fn now(&self) -> u128 {
        self.started.elapsed().as_nanos()
    }

    /// Records a key press at `now`, a reading of the clock on which the earlier
    /// presses were taken.
    ///
    /// If the latest recorded press is older than the timeout, the whole log is
    /// dropped first.  The new press then goes to the front, and the log is cut
    /// back to its capacity from the tail.
    pub fn press_key_at(&mut self, now: u128)
        ensures
            final(self)@ == old(self)@.press(now as nat),
            final(self)@.timeout == old(self)@.timeout,
            0 < final(self)@.times.len() <= MAX_KEY_PRESSES,
            final(self)@.times[0] == now,
    {
        let mut key_presses: Vec<KeyPress> = Vec::new();
        std::mem::swap(&mut key_presses, &mut self.key_presses);

        if key_presses.len() > 0 {
            let last_key_press = &key_presses[0];
            if last_key_press.elapsed_at(now) > self.timeout {
                key_presses.clear();
            }
        }
        key_presses.insert(0, KeyPress { time: now });
        if key_presses.len() >= MAX_KEY_PRESSES {
            key_presses.truncate(MAX_KEY_PRESSES);
        }
        assert(times_of(key_presses@) =~= old(self)@.press(now as nat).times);
        self.key_presses = key_presses;
    }

    /// Records a key press at the current reading of the tracker's clock.
    ///
    /// The reading is not known in advance; whatever it is, the log changes as
    /// [`press_key_at`](Self::press_key_at) describes for it.
    pub fn press_key(&mut self)
        ensures
            exists|now: nat| final(self)@ == #[trigger] old(self)@.press(now),
            final(self)@.timeout == old(self)@.timeout,
            0 < final(self)@.times.len() <= MAX_KEY_PRESSES,
    {
        let now: u128 = self.now();
        self.press_key_at(now);
    }

    /// The retained key presses that, at the clock reading `now`, are younger
    /// than `timespan` nanoseconds, in log order.
    pub fn get_presses_within_timespan(&self, now: u128, timespan: u128) -> (presses: Vec<
        &KeyPress,
    >)
        ensures
            times_of_refs(presses@) == self@.within(now as nat, timespan as nat),
    {
        let ghost young = younger_than(now as nat, timespan as nat);
        let mut presses: Vec<&KeyPress> = Vec::new();
        let mut i: usize = 0;
        assert(times_of(self.key_presses@.take(0)) =~= Seq::empty());
        assert(Seq::<nat>::empty().filter(young) =~= Seq::empty()) by {
            reveal(Seq::filter);
        }
        while i < self.key_presses.len()
            invariant
                i <= self.key_presses.len(),
                young == younger_than(now as nat, timespan as nat),
                times_of_refs(presses@) == times_of(self.key_presses@.take(i as int)).filter(
                    young,
                ),
            decreases self.key_presses.len() - i,
        {
            let key = &self.key_presses[i];
            proof {
                let seen = times_of(self.key_presses@.take(i as int));
                assert(times_of(self.key_presses@.take(i + 1)) =~= seen.push(key.time as nat));
                seen.lemma_filter_push(key.time as nat, young);
            }
            if key.elapsed_at(now) < timespan {
                let ghost before = presses@;
                presses.push(key);
                assert(times_of_refs(presses@) =~= times_of_refs(before).push(key.time as nat));
            }
            i += 1;
        }
        assert(self.key_presses@.take(i as int) =~= self.key_presses@);
        presses
    }

    /// The typing speed over the `timespan` nanoseconds that end at the clock
    /// reading `now`: the window's length and the number of retained key presses
    /// younger than it.
    pub fn typing_speed_within_timespan_at(&self, now: u128, timespan: u128) -> (speed:
        TypingSpeed)
        ensures
            speed.duration() == timespan,
            speed.keys_pressed() == self@.within(now as nat, timespan as nat).len(),
            speed.keys_pressed() <= self@.times.len() <= MAX_KEY_PRESSES,
            timespan == 0 ==> speed.keys_pressed() == 0,
    {
        proof {
            use_type_invariant(self);
            self@.times.lemma_filter_len(younger_than(now as nat, timespan as nat));
            lemma_empty_window(self@, now as nat);
        }
        let keys_pressed = self.get_presses_within_timespan(now, timespan);
        TypingSpeed::new(timespan, keys_pressed.len())
    }

    /// The typing speed over the last `timespan` nanoseconds, measured at the
    /// current reading of the tracker's clock.
    ///
    /// The reading is not known in advance; whatever it is, the result is the
    /// one that [`typing_speed_within_timespan_at`](Self::typing_speed_within_timespan_at)
    /// gives for it.
    pub fn typing_speed_within_timespan(&self, timespan: u128) -> (speed: TypingSpeed)
        ensures
            speed.duration() == timespan,
            exists|now: nat|
                speed.keys_pressed() == (#[trigger] self@.within(now, timespan as nat)).len(),
            speed.keys_pressed() <= self@.times.len() <= MAX_KEY_PRESSES,
            timespan == 0 ==> speed.keys_pressed() == 0,
    {
        let now: u128 = self.now();
        self.typing_speed_within_timespan_at(now, timespan)
    }
}

} // verus!
