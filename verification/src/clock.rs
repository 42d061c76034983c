//! The monotonic clock that the address cache is aged by.

use vstd::prelude::*;

verus! {

/// `time::Instant`, a reading of the monotonic clock, carried as it is.
#[verifier::external_type_specification]
#[verifier::external_body]
#[allow(deprecated)]
pub struct ExInstant(time::Instant);

/// A clock that counts the milliseconds since it was started.
#[allow(deprecated)]
pub struct Clock {
    origin: time::Instant,
}

/// `time::Instant::now`: a reading of the monotonic clock. Nothing is
/// claimed of it.
#[verifier::external_body]
#[allow(deprecated)]
fn instant_now() -> (t: time::Instant) {
    time::Instant::now()
}

/// `time::Instant::elapsed` in whole milliseconds: the time that has passed
/// since `since` was read. Nothing is claimed of the number. The call
/// panics only where the difference of two readings exceeds the range of a
/// signed duration, some hundred thousand million years.
#[verifier::external_body]
#[allow(deprecated)]
fn elapsed_millis(since: &time::Instant) -> (ms: i128) {
    since.elapsed().whole_milliseconds()
}

/// A number of milliseconds as a clock reading: negative numbers count as
/// zero, and numbers beyond the range as its end.
pub fn clamp_millis(ms: i128) -> (r: u64)
    ensures
        ms < 0 ==> r == 0,
        0 <= ms <= u64::MAX ==> r == ms,
        ms > u64::MAX ==> r == u64::MAX,
{
    if ms < 0 {
        0
    } else if ms > 0xffff_ffff_ffff_ffff {
        0xffff_ffff_ffff_ffff
    } else {
        ms as u64
    }
}

impl Clock {
    /// A clock that starts now.
    pub fn start() -> Clock {
        Clock { origin: instant_now() }
    }

    /// The milliseconds since the clock was started. The reading depends
    /// on when it is taken; `clamp_millis` says how it is cut to size.
    pub fn now_ms(&self) -> u64 {
        clamp_millis(elapsed_millis(&self.origin))
    }
}

} // verus!
