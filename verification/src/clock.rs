//! Time as the supervisor sees it. Nothing else in the library reads a clock:
//! every operation that depends on time takes a [`Moment`], so that it is
//! specified for each value of it.

use std::time::{Duration, Instant};
use vstd::prelude::*;

verus! {

#[verifier::external_type_specification]
#[verifier::external_body]
pub struct ExInstant(std::time::Instant);

/// Nanoseconds in one second.
pub const NANOS_PER_SECOND: u64 = 1_000_000_000;

/// One reading of both clocks.
#[derive(Clone, Copy, Debug, PartialEq, Eq, Structural)]
pub struct Moment {
    /// Nanoseconds on a clock that never runs backwards, counted from the
    /// start of the [`Clock`] that was read.
    pub monotonic: u64,
    /// Nanoseconds of wall-clock time since 1970-01-01T00:00:00 UTC.
    pub wall: i64,
}

/// The source of [`Moment`]s.
pub struct Clock {
    origin: Instant,
}

/// `Instant::now` of std. Nothing is claimed of the instant that it returns.
#[verifier::external_body]
fn instant_now() -> (now: Instant) {
    Instant::now()
}

/// `Instant::elapsed` of std: the time that has gone by since `origin`.
/// Nothing is claimed of it: it depends on when the call is made.
#[verifier::external_body]
fn elapsed_since(origin: &Instant) -> (span: Duration) {
    origin.elapsed()
}

/// `Duration::as_nanos` of std: the whole nanoseconds of `span`. Nothing is
/// claimed of the number.
#[verifier::external_body]
fn whole_nanos(span: Duration) -> (nanos: u128) {
    span.as_nanos()
}

/// `chrono::Utc::now` and `DateTime::timestamp_nanos_opt`: the wall clock in
/// nanoseconds since the Unix epoch, `None` where an `i64` cannot hold them.
/// Nothing is claimed of the number. chrono takes the system clock to stand
/// at or after the epoch.
#[verifier::external_body]
fn utc_now_nanos() -> (nanos: Option<i64>) {
    chrono::Utc::now().timestamp_nanos_opt()
}

/// The RFC 3339 text that chrono writes for the instant `nanos` nanoseconds
/// after the Unix epoch, in UTC.
pub uninterp spec fn rfc3339_text(nanos: i64) -> Seq<char>;

/// `chrono::DateTime::from_timestamp_nanos` followed by
/// `DateTime::to_rfc3339`. Both are total, and the text depends on `nanos`
/// alone.
#[verifier::external_body]
pub(crate) fn rfc3339_of(nanos: i64) -> (text: String)
    ensures
        text@ == rfc3339_text(nanos),
{
    chrono::DateTime::from_timestamp_nanos(nanos).to_rfc3339()
}

impl Clock {
    /// A clock whose monotonic count starts now.
    pub fn new() -> (clock: Clock) {
        Clock { origin: instant_now() }
    }

    /// Reads both clocks. Nanoseconds that the fields of a [`Moment`] cannot
    /// hold read as the largest that they can. Reading the wall clock is
    /// chrono's part, and chrono gives up with a panic where the system
    /// clock stands before 1970.
    pub fn now(&self) -> (moment: Moment) {
        let monotonic = whole_nanos(elapsed_since(&self.origin));
        let wall = utc_now_nanos();
        Moment::from_readings(monotonic, wall)
    }
}

impl Moment {
    /// The moment that two readings make: the nanoseconds of both, and the
    /// largest value of the field where a reading is beyond what the field
    /// can hold.
    pub open spec fn of_readings(monotonic: u128, wall: Option<i64>) -> Moment {
        Moment {
            monotonic: if monotonic > u64::MAX {
                u64::MAX
            } else {
                monotonic as u64
            },
            wall: match wall {
                Some(nanos) => nanos,
                None => i64::MAX,
            },
        }
    }

    /// The moment that two readings make.
    pub fn from_readings(monotonic: u128, wall: Option<i64>) -> (moment: Moment)
        ensures
            moment == Moment::of_readings(monotonic, wall),
    {
        let monotonic: u64 = if monotonic > u64::MAX as u128 {
            u64::MAX
        } else {
            monotonic as u64
        };
        let wall = match wall {
            Some(nanos) => nanos,
            None => i64::MAX,
        };
        Moment { monotonic, wall }
    }
}

/// Nanoseconds from `since` to `now` on the monotonic clock, none where
/// `now` is the earlier.
pub open spec fn elapsed(since: u64, now: u64) -> u64 {
    if now >= since {
        (now - since) as u64
    } else {
        0
    }
}

/// The RFC 3339 text of a wall-clock instant.
pub fn rfc3339(nanos: i64) -> (text: String)
    ensures
        text@ == rfc3339_text(nanos),
{
    rfc3339_of(nanos)
}

} // verus!
