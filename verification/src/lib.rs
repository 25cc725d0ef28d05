//! A sliding-window typing-speed meter.
//!
//! The tracker keeps a bounded, newest-first log of key-press timestamps and
//! counts how many of them fall inside a look-back window.  All times are whole
//! nanoseconds on one monotonic clock.

pub mod clock;
pub mod laws;
pub mod model;
pub mod speed;
pub mod tracker;

pub use crate::speed::TypingSpeed;
pub use crate::tracker::{KeyPress, TypingSpeedTracker};
