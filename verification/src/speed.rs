//! The result of a windowed query: how many keys were pressed in how much time.

use vstd::prelude::*;

verus! {

/// A number of key presses observed over a window of `duration` nanoseconds.
#[derive(Clone, Copy, Debug)]
pub struct TypingSpeed {
    duration: u128,
    keys_pressed: usize,
}

impl TypingSpeed {
    /// Pairs a window length, in nanoseconds, with the number of presses seen in it.
    pub fn new(duration: u128, keys_pressed: usize) -> (speed: Self)
        ensures
            speed.duration() == duration,
            speed.keys_pressed() == keys_pressed,
    {
        TypingSpeed { duration, keys_pressed }
    }

    /// Length of the window, in nanoseconds.
    #[verifier::when_used_as_spec(spec_duration)]
    pub fn duration(&self) -> (nanos: u128)
        ensures
            nanos == self.duration(),
    {
        self.duration
    }

    /// Number of key presses counted inside the window.
    #[verifier::when_used_as_spec(spec_keys_pressed)]
    pub fn keys_pressed(&self) -> (count: usize)
        ensures
            count == self.keys_pressed(),
    {
        self.keys_pressed
    }

    pub closed spec fn spec_duration(&self) -> u128 {
        self.duration
    }

    pub closed spec fn spec_keys_pressed(&self) -> usize {
        self.keys_pressed
    }
}

} // verus!
