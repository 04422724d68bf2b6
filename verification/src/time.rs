//! Points in time.
use vstd::prelude::*;

verus! {

/// A point in time: whole seconds since the Unix epoch, and the nanoseconds
/// after them.
#[derive(Clone, Copy, Debug, PartialEq, Eq, Structural)]
pub struct Timestamp {
    pub secs: i64,
    pub nanos: u32,
}

impl Timestamp {
    /// The number by which timestamps are ordered.
    pub open spec fn rank(self) -> int {
        self.secs * 0x1_0000_0000 + self.nanos
    }

    /// Whether `self` is earlier than `other`.
    pub open spec fn before(self, other: Timestamp) -> bool {
        self.secs < other.secs || (self.secs == other.secs && self.nanos < other.nanos)
    }

    /// The number by which timestamps are ordered.
    pub fn order_key(&self) -> (r: i128)
        ensures
            r == self.rank(),
            -0x8000_0000_0000_0000_0000_0000 <= r < 0x8000_0000_0000_0000_0000_0000,
    {
        self.secs as i128 * 0x1_0000_0000i128 + self.nanos as i128
    }
}

/// Ordering by rank is ordering by seconds, then by nanoseconds.
pub proof fn lemma_rank_orders(a: Timestamp, b: Timestamp)
    ensures
        a.before(b) <==> a.rank() < b.rank(),
        a == b <==> a.rank() == b.rank(),
{
}

/// Of two points in time, one that has fewer seconds is earlier, and so is one that
/// has as many and fewer nanoseconds; nothing else makes it earlier.
pub proof fn law_time_goes_by_seconds_then_nanoseconds(a: Timestamp, b: Timestamp)
    ensures
        a.secs < b.secs ==> a.before(b) && !b.before(a),
        a.secs == b.secs && a.nanos < b.nanos ==> a.before(b) && !b.before(a),
        a == b ==> !a.before(b),
{
}

/// The RFC 3339 rendering in UTC of a point in time, where there is one.
pub uninterp spec fn rfc3339_text(secs: i64, nanos: u32) -> Option<Seq<char>>;

/// `DateTime::<Utc>::from_timestamp`, then `to_rfc3339`, of `chrono`.
///
/// Claimed: what comes back depends on the two numbers alone; `None` is for a
/// point in time that `chrono` cannot represent.
#[verifier::external_body]
pub(crate) fn rfc3339(secs: i64, nanos: u32) -> (r: Option<String>)
    ensures
        crate::text::opt_text(r) == rfc3339_text(secs, nanos),
{
    chrono::DateTime::<chrono::Utc>::from_timestamp(secs, nanos).map(|t| t.to_rfc3339())
}

} // verus!
