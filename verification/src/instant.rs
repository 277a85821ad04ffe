//! Points in time, their order, and how they are read from text.

use vstd::prelude::*;

verus! {

/// Seconds in a day.
pub const SECONDS_PER_DAY: i64 = 86_400;

/// A point on the UTC time line.
///
/// `secs` counts the whole non-leap seconds since 1970-01-01T00:00:00Z and
/// `nanos` the nanoseconds past that second. A leap second is held in the
/// second before it, with `nanos` of 1_000_000_000 or more, so it sorts after
/// every ordinary instant of that second and before the next second.
#[derive(Clone, Copy, Debug, PartialEq, Eq, Structural)]
pub struct Instant {
    pub secs: i64,
    pub nanos: u32,
}

impl Instant {
    /// `self` lies strictly after `other`: by seconds first, then by
    /// nanoseconds.
    pub open spec fn later_than(self, other: Instant) -> bool {
        self.secs > other.secs || (self.secs == other.secs && self.nanos > other.nanos)
    }

    /// The second count of the instant that lies `days` days of 86 400
    /// seconds before `self`, as a mathematical integer.
    pub open spec fn secs_days_before(self, days: u16) -> int {
        self.secs - SECONDS_PER_DAY * days
    }

    /// The instant `nanos` nanoseconds past the second `secs`.
    pub fn new(secs: i64, nanos: u32) -> (t: Instant)
        ensures
            t.secs == secs,
            t.nanos == nanos,
    {
        Instant { secs, nanos }
    }

    /// Tells whether `self` lies strictly after `other`. Equal instants are
    /// not after one another.
    pub fn is_after(&self, other: &Instant) -> (r: bool)
        ensures
            r == self.later_than(*other),
    {
        self.secs > other.secs || (self.secs == other.secs && self.nanos > other.nanos)
    }

    /// The cutoff that lies `days` days before `self`: the same nanoseconds,
    /// `86_400 * days` seconds earlier. `None` when that second count does not
    /// fit in an `i64`.
    pub fn days_before(&self, days: u16) -> (r: Option<Instant>)
        ensures
            match r {
                Some(t) => t.secs == self.secs_days_before(days) && t.nanos == self.nanos,
                None => self.secs_days_before(days) < i64::MIN,
            },
    {
        let span: i64 = SECONDS_PER_DAY * (days as i64);
        match self.secs.checked_sub(span) {
            Some(secs) => Some(Instant { secs, nanos: self.nanos }),
            None => None,
        }
    }
}

/// What `chrono::DateTime::parse_from_rfc3339` makes of a text: `None`
/// where it rejects the text, else the instant that it read, as the UTC
/// seconds since the epoch (`DateTime::timestamp`) and the nanoseconds past
/// that second (`DateTime::timestamp_subsec_nanos`).
pub uninterp spec fn rfc3339_reading(text: Seq<char>) -> Option<(i64, u32)>;

/// Calls `chrono::DateTime::parse_from_rfc3339` and takes the UTC second and
/// nanosecond counts of what it returns. Nothing is proved of the parser:
/// the contract only names its result, which depends on the text alone.
#[verifier::external_body]
fn read_rfc3339(text: &str) -> (r: Option<(i64, u32)>)
    ensures
        r == rfc3339_reading(text@),
{
    match chrono::DateTime::parse_from_rfc3339(text) {
        Ok(stamp) => Some((stamp.timestamp(), stamp.timestamp_subsec_nanos())),
        Err(_) => None,
    }
}

/// The instant that a text stands for as an RFC 3339 timestamp, if it is one.
pub open spec fn parsed_instant(text: Seq<char>) -> Option<Instant> {
    match rfc3339_reading(text) {
        Some((secs, nanos)) => Some(Instant { secs, nanos }),
        None => None,
    }
}

/// Reads an RFC 3339 timestamp such as `2020-03-01T12:00:00Z`. `None` when
/// the text is not one.
pub fn parse_instant(text: &str) -> (r: Option<Instant>)
    ensures
        r == parsed_instant(text@),
{
    match read_rfc3339(text) {
        Some((secs, nanos)) => Some(Instant { secs, nanos }),
        None => None,
    }
}

/// `later_than` is a strict total order: no instant is after itself, of two
/// different instants exactly one is after the other, and the relation is
/// transitive.
pub proof fn lemma_later_than_is_strict_total_order(a: Instant, b: Instant, c: Instant)
    ensures
        !a.later_than(a),
        a.later_than(b) ==> !b.later_than(a),
        a != b ==> a.later_than(b) || b.later_than(a),
        a.later_than(b) && b.later_than(c) ==> a.later_than(c),
{
}

} // verus!
