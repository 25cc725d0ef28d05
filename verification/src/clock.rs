//! The monotonic clock of the standard library, as far as the tracker uses it.
//!
//! Nothing in this file is proved.  A clock reading depends on when it is made,
//! so none of the declarations below promises anything about the value returned;
//! the tracker is verified for every reading the clock may give.

use vstd::prelude::*;

verus! {

/// `std::time::Instant`, a point on the monotonic clock.  Opaque to the verifier.
#[verifier::external_type_specification]
#[verifier::external_body]
pub struct ExInstant(std::time::Instant);

/// `Instant::now` reads the monotonic clock.  No claim is made about the instant
/// it returns.
pub assume_specification[ std::time::Instant::now ]() -> (instant: std::time::Instant)
;

/// `Instant::elapsed` measures the time from `instant` to the present.  No claim
/// is made about the duration it returns.
pub assume_specification[ std::time::Instant::elapsed ](instant: &std::time::Instant) -> (elapsed:
    std::time::Duration)
;

/// `Duration::as_nanos` gives the length of `duration` in whole nanoseconds.  The
/// verifier knows nothing of how long a `Duration` is, so no claim is made about
/// the number it returns.
pub assume_specification[ std::time::Duration::as_nanos ](duration: &std::time::Duration) -> (nanos:
    u128)
;

} // verus!
