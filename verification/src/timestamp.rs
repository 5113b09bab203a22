//! Points in time, counted in nanoseconds from the Unix epoch.

use vstd::prelude::*;

verus! {

/// The earliest supported instant: the first nanosecond of the year
/// -9999, UTC.
pub const MIN_UNIX_NANOS: i128 = -377_705_116_800_000_000_000;

/// The latest supported instant: the last nanosecond of the year 9999, UTC.
pub const MAX_UNIX_NANOS: i128 = 253_402_300_799_999_999_999;

/// The instants that a `Timestamp` can hold.
pub open spec fn supported(nanos: int) -> bool {
    MIN_UNIX_NANOS <= nanos <= MAX_UNIX_NANOS
}

/// An instant in UTC, as a whole number of nanoseconds since
/// 1970-01-01T00:00:00Z. Every value is one that `time::OffsetDateTime`
/// can hold.
#[derive(Clone, Copy, Debug, PartialEq, Eq, PartialOrd, Ord, Hash)]
pub struct Timestamp {
    nanos: i128,
}

impl View for Timestamp {
    type V = int;

    closed spec fn view(&self) -> int {
        self.nanos as int
    }
}

/// `time::OffsetDateTime::from_unix_timestamp_nanos`, asked only whether
/// it accepts `nanos`. Built without the crate's `large-dates` feature, it
/// accepts the instants whose whole second lies between the first second
/// of the year -9999 and the last second of the year 9999, and no others.
#[verifier::external_body]
fn representable(nanos: i128) -> (ok: bool)
    ensures
        ok == supported(nanos as int),
{
    ::time::OffsetDateTime::from_unix_timestamp_nanos(nanos).is_ok()
}

impl Timestamp {
    #[verifier::type_invariant]
    spec fn in_range(self) -> bool {
        supported(self.nanos as int)
    }

    /// The instant `nanos` nanoseconds after the epoch, if it is supported.
    pub fn from_unix_nanos(nanos: i128) -> (r: Option<Timestamp>)
        ensures
            r.is_some() <==> supported(nanos as int),
            r matches Some(t) ==> t@ == nanos,
    {
        if representable(nanos) {
            Some(Timestamp { nanos })
        } else {
            None
        }
    }

    /// Nanoseconds since the epoch.
    pub fn unix_nanos(&self) -> (n: i128)
        ensures
            n == self@,
            supported(n as int),
    {
        proof {
            use_type_invariant(self);
        }
        self.nanos
    }
}

} // verus!
