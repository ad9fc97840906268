//! Instants on the UTC time line, to the nanosecond, and the two things the
//! library asks of the calendar: how many whole minutes lie between two
//! instants, and how an instant is written down.

use chrono::DateTime;
use vstd::prelude::*;

verus! {

/// Seconds from the epoch to 0000-01-01T00:00:00Z, the first instant that can
/// be written with a four-digit year.
pub const MIN_SECONDS: i64 = -62_167_219_200;

/// Seconds from the epoch to 9999-12-31T23:59:59Z, the last second that can be
/// written with a four-digit year.
pub const MAX_SECONDS: i64 = 253_402_300_799;

/// Nanoseconds in one second.
pub const NANOS_PER_SECOND: u32 = 1_000_000_000;

/// Nanoseconds in one minute.
pub open spec fn nanos_per_minute() -> int {
    60_000_000_000
}

/// Whether a count of seconds since the epoch and a count of nanoseconds into
/// that second name an instant that a [`Timestamp`] can hold.
pub open spec fn representable(secs: int, nanos: int) -> bool {
    MIN_SECONDS <= secs <= MAX_SECONDS && 0 <= nanos < NANOS_PER_SECOND
}

/// The whole minutes in a span of `nanos` nanoseconds, rounded towards zero.
pub open spec fn whole_minutes(nanos: int) -> int {
    if nanos >= 0 {
        nanos / nanos_per_minute()
    } else {
        -((-nanos) / nanos_per_minute())
    }
}

/// The RFC 3339 text of the instant `nanos` nanoseconds after the second
/// `secs` since the epoch, in UTC.
pub uninterp spec fn rfc3339_text(secs: int, nanos: int) -> Seq<char>;

/// An instant in UTC between the years 0 and 9999, without leap seconds.
#[derive(Clone, Copy, Debug, PartialEq, Eq, Structural)]
pub struct Timestamp {
    secs: i64,
    nanos: u32,
}

impl Timestamp {
    /// Whole seconds since the epoch.
    pub closed spec fn seconds(self) -> int {
        self.secs as int
    }

    /// Nanoseconds since the last whole second.
    pub closed spec fn subsec_nanos(self) -> int {
        self.nanos as int
    }

    /// The value is one that [`Timestamp::new`] could have made.
    #[verifier::type_invariant]
    pub closed spec fn wf(self) -> bool {
        representable(self.secs as int, self.nanos as int)
    }

    /// Nanoseconds since the epoch.
    pub open spec fn view(self) -> int {
        self.seconds() * NANOS_PER_SECOND + self.subsec_nanos()
    }

    /// Makes the instant `nanos` nanoseconds after the second `secs`, where
    /// there is one.
    pub fn new(secs: i64, nanos: u32) -> (made: Option<Timestamp>)
        ensures
            made.is_some() <==> representable(secs as int, nanos as int),
            made matches Some(t) ==> t.wf() && t.seconds() == secs && t.subsec_nanos() == nanos,
    {
        if MIN_SECONDS <= secs && secs <= MAX_SECONDS && nanos < NANOS_PER_SECOND {
            Some(Timestamp { secs, nanos })
        } else {
            None
        }
    }

    /// Whole seconds since the epoch.
    pub fn secs(&self) -> (secs: i64)
        ensures
            secs == self.seconds(),
            MIN_SECONDS <= secs <= MAX_SECONDS,
    {
        proof {
            use_type_invariant(self);
        }
        self.secs
    }

    /// Nanoseconds since the last whole second.
    pub fn nanos(&self) -> (nanos: u32)
        ensures
            nanos == self.subsec_nanos(),
            nanos < NANOS_PER_SECOND,
    {
        proof {
            use_type_invariant(self);
        }
        self.nanos
    }

    /// Whether `self` is the later of the two instants.
    pub fn is_after(&self, other: &Timestamp) -> (later: bool)
        ensures
            later == (self@ > other@),
    {
        proof {
            use_type_invariant(self);
            use_type_invariant(other);
        }
        self.secs > other.secs || (self.secs == other.secs && self.nanos > other.nanos)
    }

    /// The whole minutes from `earlier` to `self`, rounded towards zero;
    /// negative where `earlier` is the later of the two.
    pub fn minutes_since(&self, earlier: &Timestamp) -> (minutes: i64)
        ensures
            minutes == whole_minutes(self@ - earlier@),
    {
        proof {
            use_type_invariant(self);
            use_type_invariant(earlier);
        }
        minutes_between(self.secs, self.nanos, earlier.secs, earlier.nanos)
    }

    /// The instant as RFC 3339 text.
    pub fn to_rfc3339(&self) -> (text: String)
        ensures
            text@ == rfc3339_text(self.seconds(), self.subsec_nanos()),
    {
        proof {
            use_type_invariant(self);
        }
        format_rfc3339(self.secs, self.nanos)
    }
}

/// Calls chrono's `DateTime::from_timestamp` on each pair, then
/// `DateTime::signed_duration_since` and `TimeDelta::num_minutes`. For two
/// instants without leap seconds chrono's difference is the exact span
/// between them, and `num_minutes` drops the part of it that is less than a
/// minute, towards zero. Every pair that the contract admits is one that
/// `from_timestamp` accepts.
#[verifier::external_body]
fn minutes_between(secs: i64, nanos: u32, earlier_secs: i64, earlier_nanos: u32) -> (minutes: i64)
    requires
        representable(secs as int, nanos as int),
        representable(earlier_secs as int, earlier_nanos as int),
    ensures
        minutes == whole_minutes(
            (secs * NANOS_PER_SECOND + nanos) - (earlier_secs * NANOS_PER_SECOND + earlier_nanos),
        ),
{
    let later = DateTime::from_timestamp(secs, nanos).unwrap_or_default();
    let earlier = DateTime::from_timestamp(earlier_secs, earlier_nanos).unwrap_or_default();
    later.signed_duration_since(earlier).num_minutes()
}

/// Calls chrono's `DateTime::from_timestamp` and `DateTime::to_rfc3339`. The
/// text depends on the instant alone: the zone is UTC and no locale is read.
/// Every pair that the contract admits is one that `from_timestamp` accepts.
#[verifier::external_body]
fn format_rfc3339(secs: i64, nanos: u32) -> (text: String)
    requires
        representable(secs as int, nanos as int),
    ensures
        text@ == rfc3339_text(secs as int, nanos as int),
{
    DateTime::from_timestamp(secs, nanos).unwrap_or_default().to_rfc3339()
}

} // verus!
