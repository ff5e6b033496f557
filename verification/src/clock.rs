//! Points in time and spans of time, as plain integers.
use vstd::prelude::*;

verus! {

/// A point in time: seconds since the start of 1970, and nanoseconds.
#[derive(Clone, Copy, Debug, PartialEq, Eq, Structural)]
pub struct Timestamp {
    pub secs: i64,
    pub nanos: u32,
}

impl Timestamp {
    /// Nanoseconds since the start of 1970.
    pub open spec fn as_nanos(&self) -> int {
        self.secs * 1_000_000_000 + self.nanos
    }

    /// How much later this is than `earlier`, in nanoseconds.
    pub open spec fn since(&self, earlier: Timestamp) -> int {
        self.as_nanos() - earlier.as_nanos()
    }

    /// Whether this is earlier than `other`. A leap second keeps its own second
    /// and runs its nanoseconds on past the end of it.
    pub open spec fn before(&self, other: Timestamp) -> bool {
        self.secs < other.secs || (self.secs == other.secs && self.nanos < other.nanos)
    }

    /// A point in time is later by as much as its seconds and nanoseconds say, and
    /// points with less than a second of nanoseconds are in the order of the time
    /// that has passed.
    pub proof fn time_adds_up(self, other: Timestamp)
        ensures
            self.since(other) == -other.since(self),
            self.secs == other.secs ==> self.since(other) == self.nanos - other.nanos,
            self.nanos == other.nanos ==> self.since(other) == (self.secs - other.secs)
                * 1_000_000_000,
            self.nanos < 1_000_000_000 && other.nanos < 1_000_000_000 ==> (self.before(other)
                <==> self.since(other) < 0),
            self.before(other) ==> !other.before(self),
            !self.before(other) && !other.before(self) ==> self == other,
    {
    }

    pub fn is_before(&self, other: &Timestamp) -> (r: bool)
        ensures
            r == self.before(*other),
    {
        self.secs < other.secs || (self.secs == other.secs && self.nanos < other.nanos)
    }

    /// How much later this is than `earlier`, in nanoseconds.
    pub fn nanos_since(&self, earlier: &Timestamp) -> (r: i128)
        ensures
            r == self.since(*earlier),
    {
        (self.secs as i128 - earlier.secs as i128) * 1_000_000_000i128 + (self.nanos as i128
            - earlier.nanos as i128)
    }

    /// Whether more than `secs` seconds have passed since `earlier`.
    pub fn is_older_than(&self, earlier: &Timestamp, secs: i64) -> (r: bool)
        ensures
            r == (self.since(*earlier) > secs * 1_000_000_000),
    {
        self.nanos_since(earlier) > (secs as i128) * 1_000_000_000i128
    }
}

/// The current time, from `chrono::Utc::now`.
///
/// Trusted: the time is not before 1970, and its nanoseconds are less than a
/// second. The call panics if the system's clock stands before 1970.
#[verifier::external_body]
pub(crate) fn utc_now() -> (r: Timestamp)
    ensures
        r.secs >= 0,
        r.nanos < 1_000_000_000,
{
    let now = chrono::Utc::now();
    Timestamp { secs: now.timestamp(), nanos: now.timestamp_subsec_nanos() }
}

/// The longest span that `chrono` can hold, in whole seconds.
pub const MAX_SPAN_SECS: u64 = 9_223_372_036_854_775;

/// A span of `secs` whole seconds as `chrono::Duration::from_std` takes it over
/// from the standard library.
///
/// Trusted: the span keeps its length, and is refused exactly if it is longer
/// than `i64::MAX` milliseconds.
#[verifier::external_body]
pub(crate) fn span_from_std(secs: u64) -> (r: Option<i64>)
    ensures
        match r {
            Some(span) => secs <= MAX_SPAN_SECS && span == secs,
            None => secs > MAX_SPAN_SECS,
        },
{
    let span = chrono::Duration::from_std(std::time::Duration::from_secs(secs));
    span.ok().map(|span| span.num_seconds())
}

} // verus!
