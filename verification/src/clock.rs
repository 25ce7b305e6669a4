//! Instants as the library handles them: integer counts since the Unix
//! epoch, bounded by the calendar range the server's date types represent
//! (years -262143 through 262142).
use vstd::prelude::*;

verus! {

/// Earliest representable instant, in Unix milliseconds.
pub const MIN_INSTANT_MS: i64 = -8_334_601_228_800_000;

/// Latest representable instant, in Unix milliseconds.
pub const MAX_INSTANT_MS: i64 = 8_210_266_876_799_999;

/// Earliest representable instant, in Unix seconds.
pub const MIN_INSTANT_S: i64 = -8_334_601_228_800;

/// Latest representable instant, in Unix seconds.
pub const MAX_INSTANT_S: i64 = 8_210_266_876_799;

/// `a + b`, or the nearest bound of `i64` where that overflows.
pub open spec fn saturated(value: int) -> i64 {
    if value > i64::MAX {
        i64::MAX
    } else if value < i64::MIN {
        i64::MIN
    } else {
        value as i64
    }
}

/// `a + b`, saturating at the bounds of `i64`.
pub fn saturating_add(a: i64, b: i64) -> (sum: i64)
    ensures
        sum == saturated(a + b),
{
    match a.checked_add(b) {
        Some(sum) => sum,
        None => if b > 0 {
            i64::MAX
        } else {
            i64::MIN
        },
    }
}

/// `a - b`, saturating at the bounds of `i64`.
pub fn saturating_sub(a: i64, b: i64) -> (difference: i64)
    ensures
        difference == saturated(a - b),
{
    match a.checked_sub(b) {
        Some(difference) => difference,
        None => if b < 0 {
            i64::MAX
        } else {
            i64::MIN
        },
    }
}

/// Nanoseconds in a second.
pub const NANOS_PER_SECOND: i64 = 1_000_000_000;

/// An instant to the nanosecond: whole Unix seconds, and the nanoseconds
/// past them (below [`NANOS_PER_SECOND`] for any instant a clock reads).
#[derive(Debug, Clone, Copy, PartialEq, Eq, Structural)]
pub struct Moment {
    pub seconds: i64,
    pub nanos: u32,
}

impl Moment {
    /// Nanoseconds since the Unix epoch.
    pub open spec fn since_epoch(self) -> int {
        self.seconds * NANOS_PER_SECOND + self.nanos
    }

    /// The start of a whole second.
    pub fn at_second(seconds: i64) -> (moment: Moment)
        ensures
            moment == (Moment { seconds, nanos: 0 }),
    {
        Moment { seconds, nanos: 0 }
    }
}

/// The time from `earlier` to `later`, in nanoseconds, exactly.
pub fn nanos_between(earlier: Moment, later: Moment) -> (elapsed: i128)
    ensures
        elapsed == later.since_epoch() - earlier.since_epoch(),
{
    ((later.seconds as i128) - (earlier.seconds as i128)) * 1_000_000_000 + (later.nanos as i128)
        - (earlier.nanos as i128)
}

/// A signed span of nanoseconds in whole seconds, truncated toward zero.
pub open spec fn whole_seconds(nanos: int) -> int {
    if nanos >= 0 {
        nanos / NANOS_PER_SECOND as int
    } else {
        -((-nanos) / NANOS_PER_SECOND as int)
    }
}

} // verus!
