//! Points in time and spans of time.

use vstd::prelude::*;

verus! {

/// A span of time. A negative span points into the past.
#[derive(Debug, PartialEq, Eq, Structural, Clone, Copy)]
pub enum Time {
    Microseconds(i64),
    Milliseconds(i64),
    Seconds(i64),
}

impl Time {
    /// The span in microseconds.
    pub open spec fn microseconds(&self) -> int {
        match *self {
            Time::Microseconds(n) => n as int,
            Time::Milliseconds(n) => n * 1_000,
            Time::Seconds(n) => n * 1_000_000,
        }
    }
}

/// A point in time: the microseconds that have passed since the kernel
/// started its clock.
#[derive(Debug, PartialEq, Eq, Structural, Clone, Copy)]
pub struct Timestamp {
    pub microseconds: u64,
}

/// The point in time `span` after `at`, kept within what a timestamp holds:
/// a point before the start of the clock is the start, a point beyond the
/// last timestamp is the last timestamp.
pub open spec fn offset_of(at: Timestamp, span: Time) -> Timestamp {
    let sum = at.microseconds + span.microseconds();
    if sum < 0 {
        Timestamp { microseconds: 0 }
    } else if sum > u64::MAX {
        Timestamp { microseconds: u64::MAX }
    } else {
        Timestamp { microseconds: sum as u64 }
    }
}

impl Timestamp {
    /// The point in time of the given number of microseconds.
    pub fn from_microseconds(microseconds: u64) -> (at: Timestamp)
        ensures
            at.microseconds == microseconds,
    {
        Timestamp { microseconds }
    }

    /// The point in time of the given number of milliseconds; the last
    /// timestamp if that is beyond it.
    pub fn from_milliseconds(milliseconds: u64) -> (at: Timestamp)
        ensures
            at.microseconds == if milliseconds * 1_000 <= u64::MAX {
                (milliseconds * 1_000) as u64
            } else {
                u64::MAX
            },
    {
        if milliseconds <= u64::MAX / 1_000 {
            Timestamp { microseconds: milliseconds * 1_000 }
        } else {
            Timestamp { microseconds: u64::MAX }
        }
    }

    /// Moves the point in time by the span; see [`offset_of`].
    pub fn offset(&mut self, span: Time)
        ensures
            *final(self) == offset_of(*old(self), span),
    {
        let wide: i128 = match span {
            Time::Microseconds(n) => n as i128,
            Time::Milliseconds(n) => n as i128 * 1_000,
            Time::Seconds(n) => n as i128 * 1_000_000,
        };
        let sum: i128 = self.microseconds as i128 + wide;
        if sum < 0 {
            self.microseconds = 0;
        } else if sum > u64::MAX as i128 {
            self.microseconds = u64::MAX;
        } else {
            self.microseconds = sum as u64;
        }
    }

    /// Whether this point in time is not after `other`.
    pub fn is_at_or_before(&self, other: &Timestamp) -> (r: bool)
        ensures
            r == (self.microseconds <= other.microseconds),
    {
        self.microseconds <= other.microseconds
    }
}

} // verus!
