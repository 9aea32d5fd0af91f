use vstd::prelude::*;

verus! {

/// An instant, in whole seconds since the Unix epoch and the nanoseconds past
/// that second. Instants are ordered by seconds, then by nanoseconds.
#[derive(Clone, Copy, Debug, PartialEq, Eq, Structural, Hash, PartialOrd, Ord)]
pub struct Timestamp {
    pub secs: i64,
    pub nanos: u32,
}

impl Timestamp {
    /// `self` is not later than `other`.
    pub open spec fn at_or_before(self, other: Timestamp) -> bool {
        self.secs < other.secs || (self.secs == other.secs && self.nanos <= other.nanos)
    }

    pub fn no_later_than(&self, other: &Timestamp) -> (r: bool)
        ensures
            r == self.at_or_before(*other),
    {
        self.secs < other.secs || (self.secs == other.secs && self.nanos <= other.nanos)
    }
}

/// The later of two instants.
pub open spec fn latest(a: Timestamp, b: Timestamp) -> Timestamp {
    if a.at_or_before(b) {
        b
    } else {
        a
    }
}

pub fn later_of(a: Timestamp, b: Timestamp) -> (r: Timestamp)
    ensures
        r == latest(a, b),
        a.at_or_before(r),
        b.at_or_before(r),
{
    if a.no_later_than(&b) {
        b
    } else {
        a
    }
}

/// Relies on chrono's `From<SystemTime> for DateTime<Utc>` to read std's
/// `SystemTime::now`, and on `DateTime::timestamp` and
/// `DateTime::timestamp_subsec_nanos` to read the result back. Unlike
/// `Utc::now`, that conversion also takes instants before the Unix epoch. The
/// system clock may go backwards, so nothing is promised of the value.
#[verifier::external_body]
pub(crate) fn now() -> (r: Timestamp) {
    let t = chrono::DateTime::<chrono::Utc>::from(std::time::SystemTime::now());
    Timestamp { secs: t.timestamp(), nanos: t.timestamp_subsec_nanos() }
}

} // verus!
