//! Fixed-point conventions shared by the whole model.
//!
//! Money is counted in millionths of a currency unit and held in a `u64`.
//! Probabilities and other fractions are counted in parts per million.
use vstd::prelude::*;

verus! {

/// An amount of money, in millionths of a currency unit.
pub type Money = u64;

/// A fraction in parts per million: `RATIO_ONE` stands for 1.
pub type Ratio = u64;

/// One whole currency unit.
pub const UNIT: u64 = 1_000_000;

/// One hundredth of a currency unit.
pub const CENT: u64 = 10_000;

/// One tenth of a currency unit.
pub const TENTH: u64 = 100_000;

/// The fraction 1, in parts per million.
pub const RATIO_ONE: u64 = 1_000_000;

/// No price bound ever exceeds this amount (a billion currency units).
pub const MAX_PRICE: u64 = 1_000_000_000_000_000;

/// `x` rounded to the nearest multiple of a cent, halves rounded up.
pub open spec fn round_cent(x: int) -> int {
    ((x + 5_000) / 10_000) * 10_000
}

/// The smaller of two integers.
pub open spec fn min_int(a: int, b: int) -> int {
    if a <= b { a } else { b }
}

/// The larger of two integers.
pub open spec fn max_int(a: int, b: int) -> int {
    if a >= b { a } else { b }
}

/// A pair of bounds forced into a proper price range: the lower bound lies in
/// `[0, MAX_PRICE - gap]`, the upper bound lies at least `gap` above it and
/// at most at `MAX_PRICE`.
pub open spec fn clamp_range(lo: int, hi: int, gap: int) -> (u64, u64) {
    let l = max_int(0, min_int(lo, MAX_PRICE - gap));
    let h = max_int(l + gap, min_int(hi, MAX_PRICE as int));
    (l as u64, h as u64)
}

/// Whether `r` is a proper price range: its upper bound is strictly above
/// its lower bound and within `MAX_PRICE`.
pub open spec fn valid_range(r: (u64, u64)) -> bool {
    r.0 < r.1 && r.1 <= MAX_PRICE
}

/// Every clamped range is a proper range whose width is at least `gap`.
pub proof fn lemma_clamp_range_valid(lo: int, hi: int, gap: int)
    requires
        0 < gap <= MAX_PRICE,
    ensures
        valid_range(clamp_range(lo, hi, gap)),
        clamp_range(lo, hi, gap).1 - clamp_range(lo, hi, gap).0 >= gap,
{
}

/// Clamping leaves a range alone when it is already proper and wide enough.
pub proof fn lemma_clamp_range_identity(lo: int, hi: int, gap: int)
    requires
        0 < gap,
        0 <= lo,
        lo + gap <= hi <= MAX_PRICE,
    ensures
        clamp_range(lo, hi, gap) == (lo as u64, hi as u64),
{
}

/// Computes [`clamp_range`] on amounts that were widened to avoid overflow.
pub fn clamp_range_exec(lo: u128, hi: u128, gap: u64) -> (r: (u64, u64))
    requires
        0 < gap <= MAX_PRICE,
    ensures
        r == clamp_range(lo as int, hi as int, gap as int),
        valid_range(r),
        r.1 - r.0 >= gap,
{
    let top: u128 = (MAX_PRICE - gap) as u128;
    let l: u64 = if lo <= top { lo as u64 } else { MAX_PRICE - gap };
    let capped: u64 = if hi <= MAX_PRICE as u128 { hi as u64 } else { MAX_PRICE };
    let h: u64 = if capped >= l + gap { capped } else { l + gap };
    (l, h)
}

/// `a + b`, or `u64::MAX` where the sum does not fit.
pub open spec fn sat_add(a: int, b: int) -> int {
    min_int(a + b, u64::MAX as int)
}

/// A product of two integers that are not negative is not negative.
pub proof fn lemma_mul_nonneg(a: int, b: int)
    requires
        0 <= a,
        0 <= b,
    ensures
        0 <= a * b,
{
    assert(0 <= a * b) by (nonlinear_arith)
        requires
            0 <= a,
            0 <= b,
    ;
}

/// A product is monotone in both non-negative factors.
pub proof fn lemma_mul_le(a: int, b: int, c: int, d: int)
    requires
        0 <= a <= c,
        0 <= b <= d,
    ensures
        a * b <= c * d,
{
    assert(a * b <= c * d) by (nonlinear_arith)
        requires
            0 <= a <= c,
            0 <= b <= d,
    ;
}

} // verus!
