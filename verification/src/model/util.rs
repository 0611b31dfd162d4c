//! Interval arithmetic on price ranges.
use crate::fixed::{clamp_range, clamp_range_exec, lemma_mul_le, lemma_mul_nonneg};
use crate::fixed::{max_int, round_cent, valid_range, CENT, RATIO_ONE};
use crate::random::random_in_range;
use vstd::prelude::*;

verus! {

/// Whether the point `x` lies in the closed interval `i`.
pub open spec fn lies_in(x: int, i: (u64, u64)) -> bool {
    i.0 <= x <= i.1
}

/// The intersection of two closed intervals: it runs from the larger of the
/// lower ends to the smaller of the upper ends, and is absent where these
/// cross.
pub open spec fn spec_interval_intersection(a: (u64, u64), b: (u64, u64)) -> Option<(u64, u64)> {
    let left = if a.0 >= b.0 { a.0 } else { b.0 };
    let right = if a.1 <= b.1 { a.1 } else { b.1 };
    if left <= right {
        Some((left, right))
    } else {
        None
    }
}

/// The intersection of two closed intervals, `None` where they share no point.
pub fn interval_intersection(interval1: (u64, u64), interval2: (u64, u64)) -> (r: Option<
    (u64, u64),
>)
    ensures
        r == spec_interval_intersection(interval1, interval2),
{
    let (a1, a2) = interval1;
    let (b1, b2) = interval2;
    let left = if a1 >= b1 { a1 } else { b1 };
    let right = if a2 <= b2 { a2 } else { b2 };
    if left <= right {
        Some((left, right))
    } else {
        None
    }
}

/// A point lies in the intersection exactly when it lies in both intervals,
/// and the intersection is absent exactly when no point does.
pub proof fn lemma_intersection_is_common_part(a: (u64, u64), b: (u64, u64), x: int)
    ensures
        match spec_interval_intersection(a, b) {
            Some(c) => lies_in(x, c) <==> (lies_in(x, a) && lies_in(x, b)),
            None => !(lies_in(x, a) && lies_in(x, b)),
        },
{
}

/// The intersection does not depend on the order of the two intervals.
pub proof fn lemma_intersection_commutes(a: (u64, u64), b: (u64, u64))
    ensures
        spec_interval_intersection(a, b) == spec_interval_intersection(b, a),
{
}

/// Rounds an amount to the nearest cent, halves rounded up.
pub fn round_to_nearest_cent(x: u64) -> (r: u64)
    ensures
        r == round_cent(x as int),
        r % CENT == 0,
        r - x <= 5_000,
        x - r < 5_000,
{
    let q: u64 = x / 10_000;
    let rest: u64 = x % 10_000;
    if rest >= 5_000 {
        (q + 1) * 10_000
    } else {
        q * 10_000
    }
}

/// The factor, in parts per million, by which a shift of `rate` parts per
/// million multiplies a bound. A shift below -100% counts as -100%.
pub open spec fn growth_factor(rate: int) -> int {
    max_int(0, RATIO_ONE + rate)
}

/// `x` multiplied by `1 + rate`, rounded down to a whole amount.
pub open spec fn scaled_by_rate(x: int, rate: int) -> int {
    (x * growth_factor(rate)) / (RATIO_ONE as int)
}

/// A range with both bounds multiplied by `1 + rate` and rounded to the cent,
/// kept a proper range at least one cent wide.
pub open spec fn spec_shift_range_by_ratio(old_range: (u64, u64), rate: int) -> (u64, u64) {
    clamp_range(
        round_cent(scaled_by_rate(old_range.0 as int, rate)),
        round_cent(scaled_by_rate(old_range.1 as int, rate)),
        CENT as int,
    )
}

/// `round_cent` on an amount that was widened to avoid overflow.
fn round_cent_wide(x: u128) -> (r: u128)
    requires
        x <= 0x1_0000_0000_0000_0000_0000_0000_0000,
    ensures
        r == round_cent(x as int),
{
    ((x + 5_000) / 10_000) * 10_000
}

/// `x` scaled by `1 + rate`, computed without overflow.
fn scale_by_rate(x: u64, rate: i64) -> (r: u128)
    ensures
        r == scaled_by_rate(x as int, rate as int),
        r <= 0x1_0000_0000_0000_0000_0000_0000_0000,
{
    let shifted: i128 = 1_000_000i128 + rate as i128;
    let factor: u128 = if shifted < 0 { 0 } else { shifted as u128 };
    proof {
        lemma_mul_nonneg(x as int, factor as int);
        lemma_mul_le(x as int, factor as int, u64::MAX as int, 0x8000_0000_0010_0000);
    }
    let product: u128 = (x as u128) * factor;
    product / 1_000_000
}

/// Moves both bounds of `old_range` by `rate` parts per million (negative
/// rates move it down) and rounds them to the cent.
pub fn shift_range_by_ratio(old_range: (u64, u64), rate: i64) -> (r: (u64, u64))
    ensures
        r == spec_shift_range_by_ratio(old_range, rate as int),
        valid_range(r),
        r.1 - r.0 >= CENT,
{
    let low: u128 = scale_by_rate(old_range.0, rate);
    let high: u128 = scale_by_rate(old_range.1, rate);
    let new_min: u128 = round_cent_wide(low);
    let new_max: u128 = round_cent_wide(high);
    clamp_range_exec(new_min, new_max, CENT)
}

/// A range that was moved is a proper range at least one cent wide.
pub proof fn lemma_shifted_range_is_proper(old_range: (u64, u64), rate: int)
    ensures
        valid_range(spec_shift_range_by_ratio(old_range, rate)),
        spec_shift_range_by_ratio(old_range, rate).1 - spec_shift_range_by_ratio(old_range, rate).0
            >= CENT,
{
    crate::fixed::lemma_clamp_range_valid(
        round_cent(scaled_by_rate(old_range.0 as int, rate)),
        round_cent(scaled_by_rate(old_range.1 as int, rate)),
        CENT as int,
    );
}

/// A range that was rebuilt around a price is a proper range at least one
/// cent wide.
pub proof fn lemma_rebuilt_range_is_proper(price: u64, old_range: (u64, u64), shrink_rate: int)
    ensures
        valid_range(spec_gen_new_range_with_price(price, old_range, shrink_rate)),
        spec_gen_new_range_with_price(price, old_range, shrink_rate).1
            - spec_gen_new_range_with_price(price, old_range, shrink_rate).0 >= CENT,
{
    let half = new_half_width(old_range, shrink_rate);
    let low = if price >= half { round_cent(price - half) } else { 0 };
    crate::fixed::lemma_clamp_range_valid(low, round_cent(price + half), CENT as int);
}

/// The width of `old_range`, rounded to the cent. A range whose bounds are
/// crossed counts as empty.
pub open spec fn rounded_width(old_range: (u64, u64)) -> int {
    round_cent(max_int(0, old_range.1 - old_range.0))
}

/// Half of the rounded width of `old_range`, multiplied by `shrink_rate`
/// parts per million and rounded to the cent.
pub open spec fn new_half_width(old_range: (u64, u64), shrink_rate: int) -> int {
    round_cent((rounded_width(old_range) * shrink_rate) / (2 * RATIO_ONE))
}

/// The range centred on `price` whose half-width is [`new_half_width`], with
/// both bounds rounded to the cent, the lower bound kept at zero or above
/// and the range kept at least one cent wide.
pub open spec fn spec_gen_new_range_with_price(
    price: u64,
    old_range: (u64, u64),
    shrink_rate: int,
) -> (u64, u64) {
    let half = new_half_width(old_range, shrink_rate);
    let low = if price >= half { round_cent(price - half) } else { 0 };
    clamp_range(low, round_cent(price + half), CENT as int)
}

/// Rebuilds a range around `price`: the new range is as wide as the old one
/// multiplied by `shrink_rate` parts per million.
pub fn gen_new_range_with_price(price: u64, old_range: (u64, u64), shrink_rate: u64) -> (r: (
    u64,
    u64,
))
    ensures
        r == spec_gen_new_range_with_price(price, old_range, shrink_rate as int),
        valid_range(r),
        r.1 - r.0 >= CENT,
{
    let (old_min, old_max) = old_range;
    let raw_width: u64 = if old_max >= old_min { old_max - old_min } else { 0 };
    let width: u64 = round_to_nearest_cent(raw_width);
    proof {
        lemma_mul_nonneg(width as int, shrink_rate as int);
        lemma_mul_le(width as int, shrink_rate as int, u64::MAX as int, u64::MAX as int);
    }
    let product: u128 = (width as u128) * (shrink_rate as u128);
    let half: u128 = round_cent_wide(product / 2_000_000);
    let new_min: u128 = if price as u128 >= half {
        round_cent_wide(price as u128 - half)
    } else {
        0
    };
    let new_max: u128 = round_cent_wide(price as u128 + half);
    clamp_range_exec(new_min, new_max, CENT)
}

/// The price that comes of a draw `draw` from `range` for a buyer who holds
/// `cash`: a draw above the cash is replaced by the cash where the cash lies
/// in the range and given up otherwise; a price under one cent is given up;
/// what is left is rounded to the cent.
pub open spec fn spec_price_from_draw(draw: u64, range: (u64, u64), cash: u64) -> Option<u64> {
    let price = if draw > cash {
        if range.0 <= cash < range.1 {
            Some(cash)
        } else {
            None
        }
    } else {
        Some(draw)
    };
    match price {
        Some(p) => if p < CENT {
            None
        } else {
            Some(round_cent(p as int) as u64)
        },
        None => None,
    }
}

/// Turns a draw from `range` into a price the buyer can pay, if there is one.
pub fn price_from_draw(draw: u64, range: (u64, u64), cash: u64) -> (r: Option<u64>)
    ensures
        r == spec_price_from_draw(draw, range, cash),
{
    let (min, max) = range;
    let price = if draw > cash {
        if min <= cash && cash < max {
            Some(cash)
        } else {
            None
        }
    } else {
        Some(draw)
    };
    match price {
        Some(p) => {
            if p < CENT {
                None
            } else {
                Some(round_to_nearest_cent(p))
            }
        },
        None => None,
    }
}

/// Whether `draw` can come out of a uniform draw from `range`: the lower
/// bound itself where the range is a single point, else a point of the
/// half-open range.
pub open spec fn drawn_from(draw: u64, range: (u64, u64)) -> bool {
    if range.0 == range.1 {
        draw == range.0
    } else {
        range.0 <= draw < range.1
    }
}

/// Draws a price from `range` at random and fits it to the buyer's `cash`.
/// The bounds of `range` must not be crossed.
pub fn gen_price_in_range(range: (u64, u64), cash: u64) -> (r: Option<u64>)
    requires
        range.0 <= range.1,
    ensures
        exists|draw: u64| drawn_from(draw, range) && r == spec_price_from_draw(draw, range, cash),
{
    let (min, max) = range;
    let draw = if min == max { min } else { random_in_range(min, max) };
    assert(drawn_from(draw, range));
    price_from_draw(draw, range, cash)
}

/// A bound given as a signed amount, with negative amounts counted as zero.
pub open spec fn floor_at_zero(x: i64) -> u64 {
    if x > 0 { x as u64 } else { 0 }
}

/// The range that comes of a raw pair of draws: its upper bound is moved one
/// cent above the lower one where the draws left it at or below, and is kept
/// within `max` where `max` is positive.
pub open spec fn spec_finish_random_range(range_min: u64, range_max: u64, max: u64) -> (u64, u64) {
    let candidate = if range_max <= range_min { range_min + CENT } else { range_max as int };
    let upper = if max > 0 && candidate > max { max as int } else { candidate };
    (range_min, upper as u64)
}

/// Settles the upper bound of a freshly drawn range.
pub fn finish_random_range(range_min: u64, range_max: u64, max: u64) -> (r: (u64, u64))
    requires
        range_min <= i64::MAX,
    ensures
        r == spec_finish_random_range(range_min, range_max, max),
{
    let candidate: u64 = if range_max <= range_min { range_min + CENT } else { range_max };
    let upper: u64 = if max > 0 && candidate > max { max } else { candidate };
    (range_min, upper)
}

/// What [`generate_random_range`] may return for the wished bounds `min` and
/// `max`, whatever the draws.
pub open spec fn random_range_outcome(min: i64, max: i64, r: (u64, u64)) -> bool {
    let top = floor_at_zero(max);
    let bottom = if floor_at_zero(min) <= top { floor_at_zero(min) } else { top };
    if top <= bottom {
        r == (0u64, if top > 0 { top } else { CENT })
    } else if top - bottom < CENT {
        r == (bottom, top)
    } else {
        &&& bottom <= r.0 < top
        &&& r.0 < r.1 <= top
        &&& r.0 == bottom || r.0 < top / 2
    }
}

/// Draws a range at random between the wished bounds. Negative bounds count
/// as zero. The range is never empty: it is at least as wide as the wished
/// bounds allow, up to one cent.
pub fn generate_random_range(min: i64, max: i64) -> (r: (u64, u64))
    ensures
        random_range_outcome(min, max, r),
        r.0 < r.1,
        max > 0 ==> r.1 <= max,
        max <= 0 ==> r == (0u64, CENT),
{
    let top: u64 = if max > 0 { max as u64 } else { 0 };
    let wished: u64 = if min > 0 { min as u64 } else { 0 };
    let bottom: u64 = if wished <= top { wished } else { top };
    if top <= bottom {
        let upper: u64 = if top >= CENT { top } else { CENT };
        finish_random_range(0, upper, top)
    } else if top - bottom < CENT {
        finish_random_range(bottom, top, top)
    } else {
        let half: u64 = top / 2;
        let range_min: u64 = if half <= bottom { bottom } else { random_in_range(bottom, half) };
        let range_max: u64 = random_in_range(range_min, top);
        finish_random_range(range_min, range_max, top)
    }
}

/// A move of a bound as a share of a width, in parts per million, rounded
/// toward zero. A width of zero or less gives zero.
pub open spec fn change_ratio(change: int, width: int) -> int {
    if width <= 0 {
        0
    } else if change >= 0 {
        (change * RATIO_ONE) / width
    } else {
        -(((-change) * RATIO_ONE) / width)
    }
}

/// How a range moved: the move of each bound as a share of the old width,
/// the move of the sum of both bounds, and the move of each bound.
pub struct RangeChange {
    /// The move of the lower bound as a share of the old width, in parts per
    /// million.
    pub lower_change_ratio: i128,
    /// The move of the upper bound as a share of the old width, in parts per
    /// million.
    pub upper_change_ratio: i128,
    /// By how much the sum of both bounds moved.
    pub total_change: i128,
    /// By how much the lower bound moved.
    pub lower_change: i128,
    /// By how much the upper bound moved.
    pub upper_change: i128,
}

/// The move from `old_range` to `new_range`.
pub open spec fn spec_range_change(old_range: (u64, u64), new_range: (u64, u64)) -> RangeChange {
    let width = old_range.1 - old_range.0;
    RangeChange {
        lower_change_ratio: change_ratio(new_range.0 - old_range.0, width) as i128,
        upper_change_ratio: change_ratio(new_range.1 - old_range.1, width) as i128,
        total_change: ((new_range.0 + new_range.1) - (old_range.0 + old_range.1)) as i128,
        lower_change: (new_range.0 - old_range.0) as i128,
        upper_change: (new_range.1 - old_range.1) as i128,
    }
}

/// Computes [`change_ratio`] for a move between two amounts.
fn ratio_of_change(from: u64, to: u64, width: u64) -> (r: i128)
    ensures
        r == change_ratio(to - from, width as int),
        -0x1_0000_0000_0000_0000_0000_0000 <= r <= 0x1_0000_0000_0000_0000_0000_0000,
{
    if width == 0 {
        return 0;
    }
    let size: u64 = if to >= from { to - from } else { from - to };
    proof {
        lemma_mul_nonneg(size as int, RATIO_ONE as int);
        lemma_mul_le(size as int, RATIO_ONE as int, u64::MAX as int, RATIO_ONE as int);
    }
    let share: u128 = ((size as u128) * (RATIO_ONE as u128)) / (width as u128);
    if to >= from {
        share as i128
    } else {
        -(share as i128)
    }
}

/// Measures the move from `old_range` to `new_range`.
pub fn get_range_change_info(old_range: (u64, u64), new_range: (u64, u64)) -> (r: RangeChange)
    ensures
        r == spec_range_change(old_range, new_range),
{
    let (lower, upper) = old_range;
    let (new_lower, new_upper) = new_range;
    let width: u64 = if upper > lower { upper - lower } else { 0 };
    let lower_change: i128 = new_lower as i128 - lower as i128;
    let upper_change: i128 = new_upper as i128 - upper as i128;
    let total_change: i128 = (new_lower as i128 + new_upper as i128) - (lower as i128
        + upper as i128);
    RangeChange {
        lower_change_ratio: ratio_of_change(lower, new_lower, width),
        upper_change_ratio: ratio_of_change(upper, new_upper, width),
        total_change,
        lower_change,
        upper_change,
    }
}

} // verus!
