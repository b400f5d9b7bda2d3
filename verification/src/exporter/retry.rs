//! Retry timing for exports.
//!
//! Full-jitter exponential backoff: before retry `n`, counted from one, the
//! delay is a uniform sample of `[0, ceiling]`, where the ceiling is
//! `base * 2^(n-1)`, but at most the cap.

use std::time::Duration;

use vstd::arithmetic::power2::*;
use vstd::prelude::*;

verus! {

/// The parts of a whole in which a jitter fraction is counted: two to the power
/// of 53.
pub const JITTER_PARTS: u64 = 0x20_0000_0000_0000;

/// Nanoseconds in a millisecond.
pub const NANOS_PER_MS: u64 = 1_000_000;

/// Backoff schedule for export retries.
#[derive(Clone, Copy, Debug, PartialEq, Eq, Structural)]
pub struct Backoff {
    /// Delay ceiling for the first retry, in milliseconds; doubles with each
    /// further attempt.
    pub base_ms: u64,
    /// Most that any single delay takes, in milliseconds.
    pub cap_ms: u64,
    /// How many retries follow the initial attempt.
    pub max_retries: u32,
}

impl Default for Backoff {
    /// A base of 100 ms, a cap of 5 s and 2 retries, so 3 attempts in all.
    fn default() -> (r: Backoff)
        ensures
            r == (Backoff { base_ms: 100, cap_ms: 5000, max_retries: 2 }),
    {
        Backoff { base_ms: 100, cap_ms: 5000, max_retries: 2 }
    }
}

/// The factor on the base before retry `attempt`: a power of two, as far as 32
/// bits hold it.
pub open spec fn factor(attempt: u32) -> nat {
    if attempt <= 32 {
        pow2((attempt - 1) as nat)
    } else {
        u32::MAX as nat
    }
}

/// The delay ceiling before retry `attempt`, in milliseconds; none outside the
/// retry budget.
pub open spec fn ceiling(backoff: Backoff, attempt: u32) -> Option<u64> {
    if attempt == 0 || attempt > backoff.max_retries {
        None
    } else if backoff.base_ms * factor(attempt) < backoff.cap_ms {
        Some((backoff.base_ms * factor(attempt)) as u64)
    } else {
        Some(backoff.cap_ms)
    }
}

/// A jitter fraction in parts, where more than the whole counts as the whole.
pub open spec fn clamped(jitter: u64) -> nat {
    if jitter < JITTER_PARTS {
        jitter as nat
    } else {
        JITTER_PARTS as nat
    }
}

/// The delay before retry `attempt`, in nanoseconds, rounded to the nearest: the
/// given fraction of the ceiling; none outside the retry budget.
pub open spec fn delay(backoff: Backoff, attempt: u32, jitter: u64) -> Option<nat> {
    match ceiling(backoff, attempt) {
        Some(ms) => Some(
            ((ms * NANOS_PER_MS) * clamped(jitter) + JITTER_PARTS / 2) as nat
                / JITTER_PARTS as nat,
        ),
        None => None,
    }
}

impl Backoff {
    /// The delay ceiling for the first retry.
    pub fn base(&self) -> (r: Duration)
        ensures
            r == crate::config::millis(self.base_ms),
    {
        Duration::from_millis(self.base_ms)
    }

    /// Most that any single delay takes.
    pub fn cap(&self) -> (r: Duration)
        ensures
            r == crate::config::millis(self.cap_ms),
    {
        Duration::from_millis(self.cap_ms)
    }

    /// Retries permitted after the initial attempt.
    pub fn max_retries(&self) -> (r: u32)
        ensures
            r == self.max_retries,
    {
        self.max_retries
    }

    /// The delay ceiling before retry `attempt`, in milliseconds, or nothing
    /// once the retry budget is exhausted.
    pub fn ceiling_for(&self, attempt: u32) -> (r: Option<u64>)
        ensures
            r == ceiling(*self, attempt),
    {
        if attempt == 0 || attempt > self.max_retries {
            return None;
        }
        let multiplier: u128 = factor_of(attempt) as u128;
        assert(self.base_ms * multiplier <= u64::MAX * u32::MAX) by (nonlinear_arith)
            requires
                self.base_ms <= u64::MAX,
                multiplier <= u32::MAX,
        ;
        let raw: u128 = self.base_ms as u128 * multiplier;
        if raw < self.cap_ms as u128 {
            Some(raw as u64)
        } else {
            Some(self.cap_ms)
        }
    }
}

impl Backoff {
    /// The delay before retry `attempt`, in nanoseconds, or nothing once the
    /// retry budget is exhausted. `jitter` is a fraction in parts of
    /// [`JITTER_PARTS`], supplied by the caller; more than the whole counts as
    /// the whole.
    pub fn delay_for(&self, attempt: u32, jitter: u64) -> (r: Option<u128>)
        ensures
            match r {
                Some(n) => delay(*self, attempt, jitter) == Some(n as nat),
                None => delay(*self, attempt, jitter) is None,
            },
    {
        let parts: u64 = if jitter < JITTER_PARTS {
            jitter
        } else {
            JITTER_PARTS
        };
        match self.ceiling_for(attempt) {
            None => None,
            Some(ms) => Some(scaled(ms, parts)),
        }
    }
}

/// A fraction of some milliseconds, in nanoseconds, rounded to the nearest.
fn scaled(ms: u64, parts: u64) -> (r: u128)
    requires
        parts <= JITTER_PARTS,
    ensures
        r == ((ms * NANOS_PER_MS) * parts + JITTER_PARTS / 2) / (JITTER_PARTS as int),
        r <= ms * NANOS_PER_MS,
{
    let whole: u128 = JITTER_PARTS as u128;
    assert(ms * 1_000_000 <= 0xffff_ffff_ffff_ffff * 1_000_000);
    let nanos: u128 = ms as u128 * 1_000_000u128;
    let quotient: u128 = nanos / whole;
    let rest: u128 = nanos % whole;
    let ghost n = nanos as int;
    let ghost p = parts as int;
    let ghost w = JITTER_PARTS as int;
    proof {
        vstd::arithmetic::div_mod::lemma_fundamental_div_mod(n, w);
        assert(n == ms * 1_000_000);
        assert(n <= 0x1_0000_0000_0000_0000 * 0x10_0000);
        assert(quotient == n / 0x20_0000_0000_0000);
        assert(quotient * p <= 0xffff_ffff_ffff * w) by (nonlinear_arith)
            requires
                0 <= quotient <= 0xffff_ffff_ffff,
                0 <= p <= w,
        ;
        assert(rest * p <= w * w) by (nonlinear_arith)
            requires
                0 <= rest <= w,
                0 <= p <= w,
        ;
        assert(n * p + w / 2 == (rest * p + w / 2) + w * (quotient * p)) by (nonlinear_arith)
            requires
                n == w * quotient + rest,
        ;
        vstd::arithmetic::div_mod::lemma_hoist_over_denominator(
            rest * p + w / 2,
            quotient * p,
            w as nat,
        );
        assert(w * (quotient * p) == (quotient * p) * w) by (nonlinear_arith);
        lemma_at_most_whole(n, p, w);
    }
    quotient * parts as u128 + (rest * parts as u128 + whole / 2) / whole
}

proof fn lemma_at_most_whole(n: int, p: int, w: int)
    requires
        0 <= n,
        0 <= p <= w,
        w > 1,
    ensures
        (n * p + w / 2) / w <= n,
{
    assert(n * p + w / 2 < (n + 1) * w) by (nonlinear_arith)
        requires
            0 <= n,
            0 <= p <= w,
            w > 1,
    ;
    assert((n * p + w / 2) / w < n + 1) by (nonlinear_arith)
        requires
            n * p + w / 2 < (n + 1) * w,
            w > 1,
    ;
}

fn factor_of(attempt: u32) -> (r: u32)
    requires
        attempt > 0,
    ensures
        r == factor(attempt),
{
    if attempt > 32 {
        return u32::MAX;
    }
    let mut out: u32 = 1;
    let mut i: u32 = 1;
    proof {
        lemma2_to64();
    }
    while i < attempt
        invariant
            1 <= i <= attempt <= 32,
            out == pow2((i - 1) as nat),
        decreases attempt - i,
    {
        proof {
            lemma_pow2_unfold(i as nat);
            lemma2_to64();
            if i < 31 {
                lemma_pow2_strictly_increases(i as nat, 31);
            }
        }
        out = out * 2;
        i += 1;
    }
    out
}

/// The number that eight bytes write, the lowest first.
pub open spec fn little_endian(bytes: Seq<u8>) -> int {
    bytes[0] + bytes[1] * 0x100 + bytes[2] * 0x1_0000 + bytes[3] * 0x100_0000 + bytes[4]
        * 0x1_0000_0000 + bytes[5] * 0x100_0000_0000 + bytes[6] * 0x1_0000_0000_0000 + bytes[7]
        * 0x100_0000_0000_0000
}

/// The jitter fraction that a draw from the random source gives, in parts of
/// [`JITTER_PARTS`]: the top 53 bits of the number drawn. Where the source
/// failed it is almost the whole.
pub open spec fn jitter_of(filled: bool, bytes: Seq<u8>) -> int {
    if filled {
        little_endian(bytes) / 0x800
    } else {
        JITTER_PARTS - 2
    }
}

/// The jitter fraction that a draw from the random source gives, in parts of
/// [`JITTER_PARTS`]: the top 53 bits of the number drawn. Where the source
/// failed it is almost the whole.
pub fn jitter_from_draw(filled: bool, bytes: [u8; 8]) -> (r: u64)
    ensures
        r < JITTER_PARTS,
        r == (if filled {
            little_endian(bytes@) / 0x800
        } else {
            JITTER_PARTS - 2
        }),
        r == jitter_of(filled, bytes@),
{
    if !filled {
        return JITTER_PARTS - 2;
    }
    let drawn: u64 = bytes[0] as u64 + bytes[1] as u64 * 0x100 + bytes[2] as u64 * 0x1_0000
        + bytes[3] as u64 * 0x100_0000 + bytes[4] as u64 * 0x1_0000_0000 + bytes[5] as u64
        * 0x100_0000_0000 + bytes[6] as u64 * 0x1_0000_0000_0000 + bytes[7] as u64
        * 0x100_0000_0000_0000;
    drawn / 0x800
}

/// A uniform jitter fraction in `[0, 1)` from the operating system's random
/// source, in parts of [`JITTER_PARTS`].
pub fn jitter_parts() -> (r: u64)
    ensures
        r < JITTER_PARTS,
        exists|filled: bool, bytes: Seq<u8>|
            #[trigger] crate::context::drew_eight(filled, bytes) && r == jitter_of(filled, bytes),
{
    let (filled, bytes) = crate::context::random_eight();
    jitter_from_draw(filled, bytes)
}

/// The ceiling never exceeds the cap, never shrinks from one attempt to the
/// next, and exists exactly for the attempts in the budget.
pub proof fn law_ceiling_grows_to_cap(backoff: Backoff, attempt: u32)
    requires
        0 < attempt < backoff.max_retries,
    ensures
        ceiling(backoff, attempt) is Some,
        ceiling(backoff, (attempt + 1) as u32) is Some,
        ceiling(backoff, attempt)->0 <= ceiling(backoff, (attempt + 1) as u32)->0 <= backoff.cap_ms,
        attempt < 32 && 2 * ceiling(backoff, attempt)->0 < backoff.cap_ms ==> ceiling(
            backoff,
            (attempt + 1) as u32,
        )->0 == 2 * ceiling(backoff, attempt)->0,
{
    lemma2_to64();
    let next = (attempt + 1) as u32;
    let a = factor(attempt);
    let b = factor(next);
    if attempt < 32 {
        lemma_pow2_unfold(attempt as nat);
        assert(b == 2 * a);
    } else if attempt == 32 {
        assert(a == pow2(31));
    }
    assert(a <= b);
    let base = backoff.base_ms as nat;
    assert(base * a <= base * b) by (nonlinear_arith)
        requires
            a <= b,
    ;
    if b == 2 * a {
        assert(base * b == 2 * (base * a)) by (nonlinear_arith)
            requires
                b == 2 * a,
        ;
    }
}

/// The delay lies between nothing and the ceiling: no jitter gives no delay, and
/// the whole gives the ceiling.
pub proof fn law_delay_within_ceiling(backoff: Backoff, attempt: u32, jitter: u64)
    requires
        ceiling(backoff, attempt) is Some,
    ensures
        delay(backoff, attempt, jitter) is Some,
        delay(backoff, attempt, jitter)->0 <= ceiling(backoff, attempt)->0 * NANOS_PER_MS,
        delay(backoff, attempt, 0) == Some(0nat),
        jitter >= JITTER_PARTS ==> delay(backoff, attempt, jitter) == Some(
            (ceiling(backoff, attempt)->0 * NANOS_PER_MS) as nat,
        ),
{
    let n = ceiling(backoff, attempt)->0 * NANOS_PER_MS;
    let w = JITTER_PARTS as int;
    assert(0 <= n) by (nonlinear_arith)
        requires
            n == ceiling(backoff, attempt)->0 * NANOS_PER_MS,
    ;
    lemma_at_most_whole(n, clamped(jitter) as int, w);
    assert(n * clamped(jitter) >= 0) by (nonlinear_arith)
        requires
            0 <= n,
            0 <= clamped(jitter),
    ;
    assert(n * 0 == 0) by (nonlinear_arith);
    if jitter >= JITTER_PARTS {
        vstd::arithmetic::div_mod::lemma_hoist_over_denominator(w / 2, n, w as nat);
    }
}

/// The first retry waits for the base at most, or for the cap where that is less,
/// and there is no delay for an attempt outside the budget.
pub proof fn law_first_ceiling(backoff: Backoff, attempt: u32)
    ensures
        backoff.max_retries >= 1 ==> ceiling(backoff, 1) == Some(
            if backoff.base_ms < backoff.cap_ms {
                backoff.base_ms
            } else {
                backoff.cap_ms
            },
        ),
        attempt == 0 || attempt > backoff.max_retries ==> ceiling(backoff, attempt) is None,
        0 < attempt <= backoff.max_retries ==> ceiling(backoff, attempt) is Some,
{
    lemma2_to64();
    assert(backoff.base_ms * 1 == backoff.base_ms) by (nonlinear_arith);
}

/// The delay is the fraction of the ceiling that the jitter says, to the nearest
/// nanosecond.
pub proof fn law_delay_is_fraction(backoff: Backoff, attempt: u32, jitter: u64)
    requires
        ceiling(backoff, attempt) is Some,
        jitter <= 0x20_0000_0000_0000,
    ensures
        ({
            let whole = 0x20_0000_0000_0000int;
            let exact = ceiling(backoff, attempt)->0 * 1_000_000 * jitter;
            let nanos = delay(backoff, attempt, jitter)->0;
            &&& delay(backoff, attempt, jitter) is Some
            &&& 2 * (nanos * whole - exact) <= whole
            &&& 2 * (exact - nanos * whole) <= whole
        }),
{
    let w = JITTER_PARTS as int;
    let n = ceiling(backoff, attempt)->0 * NANOS_PER_MS;
    let exact = n * jitter;
    assert(0 <= exact) by (nonlinear_arith)
        requires
            exact == n * jitter,
            n == ceiling(backoff, attempt)->0 * NANOS_PER_MS,
    ;
    assert(exact == ceiling(backoff, attempt)->0 * 1_000_000 * jitter);
    vstd::arithmetic::div_mod::lemma_fundamental_div_mod(exact + w / 2, w);
    let nanos = delay(backoff, attempt, jitter)->0;
    assert(nanos == (exact + w / 2) / w);
    assert(w * nanos == nanos * w) by (nonlinear_arith);
}

/// The delay never shrinks with the jitter.
pub proof fn law_delay_grows_with_jitter(backoff: Backoff, attempt: u32, a: u64, b: u64)
    requires
        ceiling(backoff, attempt) is Some,
        a <= b,
    ensures
        delay(backoff, attempt, a)->0 <= delay(backoff, attempt, b)->0,
{
    let w = JITTER_PARTS as int;
    let n = ceiling(backoff, attempt)->0 * NANOS_PER_MS;
    let x = clamped(a) as int;
    let y = clamped(b) as int;
    assert(0 <= n * x <= n * y) by (nonlinear_arith)
        requires
            0 <= x <= y,
            n == ceiling(backoff, attempt)->0 * NANOS_PER_MS,
    ;
    vstd::arithmetic::div_mod::lemma_div_is_ordered(n * x + w / 2, n * y + w / 2, w);
}

/// The jitter of a draw orders like the number that its bytes write, the last
/// byte the highest, down to the five upper bits of the second byte; the lower
/// ones and the first byte make no difference.
pub proof fn law_jitter_takes_top_bits(a: Seq<u8>, b: Seq<u8>, at: int)
    requires
        a.len() == 8,
        b.len() == 8,
    ensures
        2 <= at < 8 && a[at] < b[at] && (forall|k: int| at < k < 8 ==> a[k] == b[k]) ==> jitter_of(
            true,
            a,
        ) < jitter_of(true, b),
        a[1] / 8 < b[1] / 8 && (forall|k: int| 1 < k < 8 ==> a[k] == b[k]) ==> jitter_of(true, a)
            < jitter_of(true, b),
        a[1] / 8 == b[1] / 8 && (forall|k: int| 1 < k < 8 ==> a[k] == b[k]) ==> jitter_of(true, a)
            == jitter_of(true, b),
        (forall|k: int| 0 <= k < 8 ==> a[k] == 0) ==> jitter_of(true, a) == 0,
        (forall|k: int| 0 <= k < 8 ==> a[k] == 0xff) ==> jitter_of(true, a)
            == 0x1f_ffff_ffff_ffff,
        0 <= jitter_of(true, a) < 0x20_0000_0000_0000,
        jitter_of(false, a) == 0x1f_ffff_ffff_fffe,
{
    lemma_jitter_digits(a);
    lemma_jitter_digits(b);
    if 2 <= at < 8 {
        assert(at == 2 || at == 3 || at == 4 || at == 5 || at == 6 || at == 7);
    }
}

/// The jitter of a draw, with the five upper bits of the second byte as its
/// lowest digit.
proof fn lemma_jitter_digits(bytes: Seq<u8>)
    requires
        bytes.len() == 8,
    ensures
        jitter_of(true, bytes) == bytes[1] as int / 8 + bytes[2] * 0x20 + bytes[3] * 0x2000 + bytes[4]
            * 0x20_0000 + bytes[5] * 0x2000_0000 + bytes[6] * 0x20_0000_0000 + bytes[7]
            * 0x2000_0000_0000,
{
    let q = bytes[1] as int / 8;
    let r = bytes[1] as int % 8;
    let high = bytes[2] * 0x20 + bytes[3] * 0x2000 + bytes[4] * 0x20_0000 + bytes[5] * 0x2000_0000
        + bytes[6] * 0x20_0000_0000 + bytes[7] * 0x2000_0000_0000;
    let low = bytes[0] + r * 0x100;
    assert(bytes[1] == 8 * q + r);
    assert(0 <= low < 0x800);
    assert(little_endian(bytes) == 0x800 * (q + high) + low);
}

} // verus!
