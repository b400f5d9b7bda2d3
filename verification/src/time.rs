//! Points in time, as distances from the Unix epoch.

use std::time::{SystemTime, UNIX_EPOCH};

use vstd::prelude::*;

verus! {

/// Nanoseconds in a second.
pub const NANOS_PER_SEC: u32 = 1_000_000_000;

/// A point in time: how far it lies from the Unix epoch, and on which side.
#[derive(Clone, Copy, Debug, PartialEq, Eq, Structural)]
pub struct Timestamp {
    /// Whether it lies before the epoch.
    pub before_epoch: bool,
    /// Whole seconds from the epoch.
    pub secs: u64,
    /// Nanoseconds beyond the whole seconds.
    pub nanos: u32,
}

impl Timestamp {
    /// The nanoseconds are less than a second.
    pub open spec fn wf(self) -> bool {
        self.nanos < NANOS_PER_SEC
    }

    /// The distance from the epoch in nanoseconds.
    pub open spec fn distance(self) -> nat {
        (self.secs * NANOS_PER_SEC + self.nanos) as nat
    }
}

impl View for Timestamp {
    type V = int;

    /// Nanoseconds since the epoch; negative before it.
    open spec fn view(&self) -> int {
        if self.before_epoch {
            -(self.distance() as int)
        } else {
            self.distance() as int
        }
    }
}

/// Calls `SystemTime::now` and takes the result's distance from `UNIX_EPOCH`.
///
/// Trusted of it: the sub-second part is less than a second. What time it is,
/// and whether a later call gives a later time, is left open.
#[verifier::external_body]
pub(crate) fn now() -> (r: Timestamp)
    ensures
        r.wf(),
{
    match SystemTime::now().duration_since(UNIX_EPOCH) {
        Ok(d) => Timestamp { before_epoch: false, secs: d.as_secs(), nanos: d.subsec_nanos() },
        Err(e) => Timestamp {
            before_epoch: true,
            secs: e.duration().as_secs(),
            nanos: e.duration().subsec_nanos(),
        },
    }
}

/// Whether the system clock showed this time when it was read.
pub closed spec fn clock_showed(t: Timestamp) -> bool {
    call_ensures(now, (), t)
}

/// The time that the system clock shows.
pub(crate) fn read_clock() -> (r: Timestamp)
    ensures
        r.wf(),
        clock_showed(r),
{
    now()
}

/// What the clock showed is a time with less than a second beyond whole ones.
pub proof fn law_clock_shows_times(t: Timestamp)
    requires
        clock_showed(t),
    ensures
        t.nanos < 1_000_000_000,
{
}

impl Timestamp {
    /// The distance from the epoch in nanoseconds.
    fn nanos_from_epoch(&self) -> (r: u128)
        ensures
            r == self.distance(),
    {
        assert(self.secs * NANOS_PER_SEC <= u64::MAX * NANOS_PER_SEC) by (nonlinear_arith)
            requires
                self.secs <= u64::MAX,
        ;
        self.secs as u128 * NANOS_PER_SEC as u128 + self.nanos as u128
    }

    /// The time since the epoch in nanoseconds, if the point does not lie
    /// before it.
    pub fn since_epoch(&self) -> (r: Option<u128>)
        ensures
            r == (if self@ >= 0 {
                Some(self@ as u128)
            } else {
                None
            }),
    {
        let n: u128 = self.nanos_from_epoch();
        if self.before_epoch && n > 0 {
            None
        } else {
            Some(n)
        }
    }

    /// The time since an earlier point in nanoseconds, if it is not later.
    pub fn since(&self, earlier: &Timestamp) -> (r: Option<u128>)
        ensures
            r == (if self@ >= earlier@ {
                Some((self@ - earlier@) as u128)
            } else {
                None
            }),
    {
        let a: u128 = self.nanos_from_epoch();
        let b: u128 = earlier.nanos_from_epoch();
        proof {
            lemma_distance_bound(*self);
            lemma_distance_bound(*earlier);
        }
        if self.before_epoch && earlier.before_epoch {
            if b >= a {
                Some(b - a)
            } else {
                None
            }
        } else if self.before_epoch {
            if a == 0 && b == 0 {
                Some(0)
            } else {
                None
            }
        } else if earlier.before_epoch {
            Some(a + b)
        } else if a >= b {
            Some(a - b)
        } else {
            None
        }
    }

    /// Whether this point is not earlier than the other.
    pub fn at_least(&self, other: &Timestamp) -> (r: bool)
        ensures
            r == (self@ >= other@),
    {
        self.since(other).is_some()
    }
}

pub proof fn lemma_distance_bound(t: Timestamp)
    ensures
        t.distance() <= 0x1_0000_0000_0000_0000_0000_0000,
{
    assert(t.secs * NANOS_PER_SEC <= 0xffff_ffff_ffff_ffff * 0x4000_0000) by (nonlinear_arith)
        requires
            t.secs <= 0xffff_ffff_ffff_ffff,
            NANOS_PER_SEC <= 0x4000_0000,
    ;
}

/// A time is its whole seconds and the nanoseconds beyond them, counted away from
/// the epoch on its side.
pub proof fn law_timestamp_counts_nanos(t: Timestamp)
    ensures
        !t.before_epoch ==> t@ == t.secs * 1_000_000_000 + t.nanos,
        t.before_epoch ==> t@ == -(t.secs * 1_000_000_000 + t.nanos),
{
}

/// A time that the clock showed is one that reading it gave.
pub(crate) proof fn law_clock_is_read(t: Timestamp)
    ensures
        clock_showed(t) <==> call_ensures(now, (), t),
{
}

/// Whatever time passed between two points is the difference of their distances
/// from the epoch, and there is none where the second comes first.
pub proof fn law_elapsed_time(a: Timestamp, b: Timestamp, r: Option<u128>)
    ensures
        call_ensures(Timestamp::since, (&b, &a), r) ==> (r is Some <==> a@ <= b@),
        call_ensures(Timestamp::since, (&b, &a), r) ==> (r matches Some(n) ==> a@ + n == b@),
        call_ensures(Timestamp::since_epoch, (&b,), r) ==> (r is Some <==> b@ >= 0),
        call_ensures(Timestamp::since_epoch, (&b,), r) ==> (r matches Some(n) ==> n == b@),
{
    lemma_distance_bound(a);
    lemma_distance_bound(b);
}

} // verus!
