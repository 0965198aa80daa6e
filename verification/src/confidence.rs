//! Confidence arithmetic.
//!
//! A block whose availability has been confirmed by `count` independent
//! sample verifications is available with probability `1 - 2^-count`; the
//! client reports this as a percentage in `[0, 100)`. All arithmetic here is
//! fixed point: a percentage is scaled by `10^7`, so the full scale is
//! `10^9` and the reported factor is `floor(10^9 * (1 - 2^-count))`.
//!
//! The fixed-point representation saturates: from 30 verified samples on the
//! remaining gap to certainty is below the scale's resolution, so every
//! count of 30 or more yields the factor `10^9 - 1`.

use vstd::prelude::*;

use crate::numerals::spec_decimal;
use crate::numerals::decimal_string;

verus! {

/// `ceil(10^9 / 2^count)`: the fixed-point gap between the confidence after
/// `count` verified samples and certainty. Halving (rounding up) once per
/// sample is exact: ceiling divisions by two compose into the ceiling
/// division by the power of two.
pub open spec fn confidence_gap(count: nat) -> int
    decreases count,
{
    if count == 0 {
        1_000_000_000
    } else {
        (confidence_gap((count - 1) as nat) + 1) / 2
    }
}

/// The confidence percentage scaled by `10^7`, as an integer:
/// `floor(10^9 * (1 - 2^-count))`.
pub open spec fn spec_confidence_factor(count: nat) -> int {
    1_000_000_000 - confidence_gap(count)
}

/// The gap never vanishes: confidence stays strictly below 100%.
pub proof fn lemma_gap_bounds(count: nat)
    ensures
        1 <= confidence_gap(count) <= 1_000_000_000,
    decreases count,
{
    if count > 0 {
        lemma_gap_bounds((count - 1) as nat);
    }
}

/// Every verified sample shrinks the gap while the gap is still above the
/// fixed-point resolution.
proof fn lemma_gap_step(count: nat)
    requires
        confidence_gap(count) >= 2,
    ensures
        confidence_gap(count + 1) < confidence_gap(count),
        confidence_gap(count + 1) >= 1,
{
    lemma_gap_bounds(count + 1);
}

/// Up to 29 samples the gap still exceeds the resolution; it reaches its
/// floor of 1 exactly at 30 samples.
proof fn lemma_gap_above_resolution(count: nat)
    requires
        count <= 29,
    ensures
        confidence_gap(count) >= 2,
    decreases 29 - count,
{
    if count < 29 {
        lemma_gap_above_resolution(count + 1);
        lemma_gap_bounds(count);
        assert(confidence_gap(count + 1) == (confidence_gap(count) + 1) / 2);
    } else {
        reveal_with_fuel(confidence_gap, 30);
        assert(confidence_gap(29) == 2);
    }
}

/// A block with no verified samples has zero confidence.
pub proof fn lemma_confidence_zero()
    ensures
        spec_confidence_factor(0) == 0,
{
}

/// Confidence is always strictly below 100% (the factor stays below the
/// full scale `10^9`), and never negative.
pub proof fn lemma_confidence_below_certainty(count: nat)
    ensures
        0 <= spec_confidence_factor(count) < 1_000_000_000,
{
    lemma_gap_bounds(count);
}

/// Confidence is strictly increasing in the verified-sample count, up to
/// the saturation point of the fixed-point scale at 30 samples.
pub proof fn lemma_confidence_strictly_increasing(c1: nat, c2: nat)
    requires
        c1 < c2 <= 30,
    ensures
        spec_confidence_factor(c1) < spec_confidence_factor(c2),
    decreases c2 - c1,
{
    lemma_gap_above_resolution((c2 - 1) as nat);
    lemma_gap_step((c2 - 1) as nat);
    if c1 < c2 - 1 {
        lemma_confidence_strictly_increasing(c1, (c2 - 1) as nat);
    }
}

/// Saturation: beyond 30 verified samples the factor no longer moves.
pub proof fn lemma_confidence_saturates(count: nat)
    requires
        count >= 30,
    ensures
        spec_confidence_factor(count) == spec_confidence_factor(30),
    decreases count,
{
    if count > 30 {
        lemma_confidence_saturates((count - 1) as nat);
        lemma_gap_bounds((count - 1) as nat);
        if confidence_gap((count - 1) as nat) == 1 {
            assert(confidence_gap(count) == 1);
        } else {
            lemma_gap_at_30_is_floor();
            lemma_gap_monotone(30, (count - 1) as nat);
        }
    }
}

/// The gap is (weakly) decreasing in the sample count.
proof fn lemma_gap_monotone(c1: nat, c2: nat)
    requires
        c1 <= c2,
    ensures
        confidence_gap(c2) <= confidence_gap(c1),
    decreases c2 - c1,
{
    if c1 < c2 {
        lemma_gap_monotone(c1, (c2 - 1) as nat);
        lemma_gap_bounds((c2 - 1) as nat);
    }
}

/// At 30 samples the gap has reached its floor of 1.
proof fn lemma_gap_at_30_is_floor()
    ensures
        confidence_gap(30) == 1,
{
    reveal_with_fuel(confidence_gap, 31);
}

/// Computes the confidence derived from `count` verified samples, as the
/// percentage scaled by `10^7`: `floor(10^9 * (1 - 2^-count))`. Total in
/// `count`; from 30 samples up the result saturates at `10^9 - 1`.
pub fn calculate_confidence(count: u32) -> (factor: u64)
    ensures
        factor == spec_confidence_factor(count as nat),
        factor < 1_000_000_000,
{
    let mut gap: u64 = 1_000_000_000;
    let mut i: u32 = 0;
    while i < count
        invariant
            i <= count,
            gap == confidence_gap(i as nat),
            1 <= gap <= 1_000_000_000,
        decreases count - i,
    {
        gap = (gap + 1) / 2;
        i = i + 1;
        proof {
            lemma_gap_bounds(i as nat);
        }
    }
    proof {
        lemma_gap_bounds(count as nat);
    }
    1_000_000_000 - gap
}

/// The block number and the confidence factor packed into one integer:
/// the block number shifted left by 32 bits, with the factor in the low
/// 32 bits. A 64-bit block number shifted by 32 needs 96 bits, so the
/// packed value lives in 128-bit arithmetic, which holds it for every
/// possible block number.
pub open spec fn spec_encoded_confidence(block: u64, factor: u64) -> int {
    block * 0x1_0000_0000 + factor
}

/// Packs `block` and `factor` and renders the result in decimal. The
/// factor must fit its 32-bit slot, which every value of
/// [`spec_confidence_factor`] does.
pub fn serialised_confidence(block: u64, factor: u64) -> (s: String)
    requires
        factor < 0x1_0000_0000,
    ensures
        s@ == spec_decimal(spec_encoded_confidence(block, factor) as nat),
{
    let encoded: u128 = (block as u128) * 0x1_0000_0000 + (factor as u128);
    decimal_string(encoded)
}

/// Packing is lossless: the block number comes back out of the high bits
/// and the factor out of the low 32, for every block number and every
/// factor that fits its slot.
pub proof fn lemma_encoding_round_trip(block: u64, factor: u64)
    requires
        factor < 0x1_0000_0000,
    ensures
        (spec_encoded_confidence(block, factor) as u128) >> 32 == block,
        (spec_encoded_confidence(block, factor) as u128) & 0xFFFF_FFFF == factor,
{
    let e = spec_encoded_confidence(block, factor) as u128;
    assert(spec_encoded_confidence(block, factor) <= 0xFFFF_FFFF_FFFF_FFFF * 0x1_0000_0000
        + 0xFFFF_FFFF);
    assert(e == block * 0x1_0000_0000 + factor);
    lemma_u128_shift32_is_div(e);
    lemma_u128_mask32_is_mod(e);
    vstd::arithmetic::div_mod::lemma_fundamental_div_mod_converse(
        e as int,
        0x1_0000_0000,
        block as int,
        factor as int,
    );
}

/// Shifting a 128-bit value right by 32 divides it by `2^32`.
proof fn lemma_u128_shift32_is_div(x: u128)
    by (bit_vector)
    ensures
        x >> 32 == x / 0x1_0000_0000,
{
}

/// Masking a 128-bit value to its low 32 bits takes it modulo `2^32`.
proof fn lemma_u128_mask32_is_mod(x: u128)
    by (bit_vector)
    ensures
        x & 0xFFFF_FFFF == x % 0x1_0000_0000,
{
}

} // verus!
