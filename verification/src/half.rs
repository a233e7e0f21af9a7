//! Halves of small integers as IEEE 754 binary64 bit patterns.
use vstd::arithmetic::power2::{
    lemma2_to64, lemma2_to64_rest, lemma_pow2_adds, lemma_pow2_pos, lemma_pow2_unfold, pow2,
};
use vstd::prelude::*;

verus! {

/// The weight of the lowest bit of the exponent field, two to the power of 52.
pub const FRACTION_UNIT: u64 = 0x10_0000_0000_0000;

/// The exponent of the largest power of two that is not above `k`.
pub open spec fn exponent(k: nat) -> nat
    decreases k,
{
    if k < 2 {
        0
    } else {
        1 + exponent(k / 2)
    }
}

/// The bit pattern of `k / 2`: zero, or the biased exponent of the leading bit in front of
/// the bits below it.
pub open spec fn half_pattern(k: nat) -> int {
    if k == 0 {
        0
    } else {
        let lead = pow2(exponent(k));
        (1022 + exponent(k)) * FRACTION_UNIT + (k - lead) * (FRACTION_UNIT as int / lead as int)
    }
}

proof fn lemma_exponent(k: nat, e: nat)
    requires
        pow2(e) <= k < pow2(e + 1),
    ensures
        exponent(k) == e,
    decreases k,
{
    lemma_pow2_pos(e);
    lemma_pow2_unfold(e + 1);
    if k < 2 {
        if e > 0 {
            lemma_pow2_unfold(e);
            lemma_pow2_pos((e - 1) as nat);
        }
    } else {
        assert(e > 0) by {
            lemma2_to64();
        }
        lemma_pow2_unfold(e);
        lemma_exponent(k / 2, (e - 1) as nat);
    }
}

/// The bit pattern of `k / 2` as a binary64 number.
pub fn half_bits(k: u64) -> (bits: u64)
    requires
        k < 0x400,
    ensures
        bits == half_pattern(k as nat),
{
    if k == 0 {
        return 0;
    }
    let mut lead: u64 = 1;
    let mut power: u64 = 0;
    let mut scale: u64 = FRACTION_UNIT;
    proof {
        lemma2_to64();
    }
    while lead <= k / 2
        invariant
            0 < lead <= k < 0x400,
            power < 10,
            lead == pow2(power as nat),
            lead * scale == FRACTION_UNIT,
        decreases k - lead,
    {
        proof {
            lemma2_to64();
            lemma_pow2_unfold((power + 1) as nat);
            if power >= 9 {
                lemma_pow2_adds(9, (power - 9) as nat);
                lemma_pow2_pos((power - 9) as nat);
                assert(pow2(9) * pow2((power - 9) as nat) >= 512) by (nonlinear_arith)
                    requires
                        pow2(9) == 512,
                        pow2((power - 9) as nat) >= 1,
                ;
            }
            assert(scale % 2 == 0 && (2 * lead) * (scale / 2) == FRACTION_UNIT) by {
                lemma_scale_even(lead, power, scale);
            }
        }
        lead = lead * 2;
        power = power + 1;
        scale = scale / 2;
    }
    proof {
        lemma_pow2_unfold((power + 1) as nat);
        lemma_exponent(k as nat, power as nat);
        assert(FRACTION_UNIT as int / lead as int == scale) by (nonlinear_arith)
            requires
                lead * scale == FRACTION_UNIT,
                lead > 0,
        ;
        assert((k - lead) * scale < FRACTION_UNIT) by (nonlinear_arith)
            requires
                lead * scale == FRACTION_UNIT,
                0 < lead <= k,
                k - lead < lead,
        ;
        assert(0 <= (k - lead) * scale) by (nonlinear_arith)
            requires
                lead <= k,
        ;
    }
    (1022 + power) * FRACTION_UNIT + (k - lead) * scale
}

proof fn lemma_scale_even(lead: u64, power: u64, scale: u64)
    requires
        power < 10,
        lead == pow2(power as nat),
        lead * scale == FRACTION_UNIT,
    ensures
        scale % 2 == 0,
        (2 * lead) * (scale / 2) == FRACTION_UNIT,
{
    lemma2_to64();
    lemma2_to64_rest();
    let rest = pow2((52 - power) as nat);
    let half = pow2((51 - power) as nat);
    lemma_pow2_adds(power as nat, (52 - power) as nat);
    lemma_pow2_unfold((52 - power) as nat);
    lemma_pow2_pos(power as nat);
    assert(scale == rest) by (nonlinear_arith)
        requires
            lead * scale == FRACTION_UNIT,
            lead * rest == FRACTION_UNIT,
            lead > 0,
    ;
    assert((2 * lead) * half == lead * rest) by (nonlinear_arith)
        requires
            rest == 2 * half,
    ;
}

/// The pattern has the exponent and fraction fields of a normal number, and that number is
/// half of `k`: with the hidden bit in front, the fraction scaled by the exponent gives `k`
/// in units of the fraction.
pub proof fn law_half_pattern(k: nat)
    requires
        0 < k < 0x400,
    ensures
        ({
            let field = half_pattern(k) / FRACTION_UNIT as int;
            let fraction = half_pattern(k) % FRACTION_UNIT as int;
            &&& 1022 <= field < 1032
            &&& (FRACTION_UNIT + fraction) * pow2((field - 1022) as nat) == k * FRACTION_UNIT
        }),
{
    let e = exponent(k);
    let lead = pow2(e) as int;
    lemma_exponent_bounds(k);
    lemma_pow2_pos(e);
    assert(e < 10) by {
        if e >= 10 {
            lemma2_to64();
            lemma_pow2_adds(10, (e - 10) as nat);
            lemma_pow2_pos((e - 10) as nat);
            assert(pow2(10) * pow2((e - 10) as nat) >= 1024) by (nonlinear_arith)
                requires
                    pow2(10) == 1024,
                    pow2((e - 10) as nat) >= 1,
            ;
        }
    }
    let scale = pow2((52 - e) as nat) as int;
    lemma2_to64();
    lemma2_to64_rest();
    lemma_pow2_adds(e, (52 - e) as nat);
    assert(FRACTION_UNIT as int / lead == scale) by (nonlinear_arith)
        requires
            lead * scale == FRACTION_UNIT,
            lead > 0,
    ;
    let fraction = (k - lead) * scale;
    assert(0 <= fraction < FRACTION_UNIT) by (nonlinear_arith)
        requires
            lead * scale == FRACTION_UNIT,
            0 < lead <= k,
            k < 2 * lead,
            fraction == (k - lead) * scale,
    ;
    assert((FRACTION_UNIT + fraction) * lead == k * FRACTION_UNIT) by (nonlinear_arith)
        requires
            lead * scale == FRACTION_UNIT,
            fraction == (k - lead) * scale,
    ;
}

proof fn lemma_exponent_bounds(k: nat)
    requires
        k > 0,
    ensures
        pow2(exponent(k)) <= k < 2 * pow2(exponent(k)),
    decreases k,
{
    if k < 2 {
        lemma2_to64();
    } else {
        lemma_exponent_bounds(k / 2);
        lemma_pow2_unfold(exponent(k));
    }
}

} // verus!
