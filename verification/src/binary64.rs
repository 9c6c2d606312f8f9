//! IEEE 754 binary64 values, read through their bit patterns.
//!
//! A pattern has a sign bit, eleven exponent bits and fifty-two fraction
//! bits. A finite pattern denotes the rational number
//! `(-1)^sign * magnitude * 2^-1074`, where `magnitude` is a natural number.
//! Whatever this module decides about a pattern is stated over that number.

use vstd::prelude::*;
use vstd::arithmetic::power2::pow2;

verus! {

/// The pattern with only the sign bit set, which is also that of `-0.0`.
pub const SIGN_BIT: u64 = 0x8000_0000_0000_0000;

/// The lowest bit of the exponent field, which is also the significand's
/// implicit leading bit.
pub const HIDDEN_BIT: u64 = 0x0010_0000_0000_0000;

/// The fifty-two fraction bits.
pub const FRACTION_MASK: u64 = 0x000F_FFFF_FFFF_FFFF;

/// The pattern of `1.0`.
pub const ONE: u64 = 0x3FF0_0000_0000_0000;

/// Whether the sign bit is set.
pub open spec fn is_negative(bits: u64) -> bool {
    bits >= SIGN_BIT
}

/// The biased exponent field.
pub open spec fn exponent(bits: u64) -> nat {
    ((bits / HIDDEN_BIT) % 2048) as nat
}

/// The fraction field.
pub open spec fn fraction(bits: u64) -> nat {
    (bits % HIDDEN_BIT) as nat
}

/// Whether the pattern is a NaN.
pub open spec fn is_nan(bits: u64) -> bool {
    exponent(bits) == 2047 && fraction(bits) != 0
}

/// Whether the pattern is an infinity.
pub open spec fn is_infinite(bits: u64) -> bool {
    exponent(bits) == 2047 && fraction(bits) == 0
}

/// Whether the pattern denotes a number.
pub open spec fn is_finite(bits: u64) -> bool {
    exponent(bits) < 2047
}

/// The absolute value that a finite pattern denotes, in units of `2^-1074`.
pub open spec fn magnitude(bits: u64) -> nat {
    if exponent(bits) == 0 {
        fraction(bits)
    } else {
        ((HIDDEN_BIT + fraction(bits)) * pow2((exponent(bits) - 1) as nat)) as nat
    }
}

/// The number one in units of `2^-1074`.
pub open spec fn unit() -> nat {
    pow2(1074)
}

/// The pattern denotes zero, of either sign.
pub open spec fn denotes_zero(bits: u64) -> bool {
    is_finite(bits) && magnitude(bits) == 0
}

/// The pattern denotes one.
pub open spec fn denotes_one(bits: u64) -> bool {
    is_finite(bits) && !is_negative(bits) && magnitude(bits) == unit()
}

/// The pattern denotes a number in the closed interval from zero to one.
pub open spec fn denotes_probability(bits: u64) -> bool {
    is_finite(bits) && (magnitude(bits) == 0 || (!is_negative(bits) && magnitude(bits)
        <= unit()))
}

/// The whole part of the absolute value that a finite pattern denotes.
pub open spec fn whole_part(bits: u64) -> nat {
    magnitude(bits) / unit()
}

/// The count that a pattern stands for: the whole part of a number that is
/// not negative, held to the range of `u32`. A negative number counts as
/// zero, positive infinity and every NaN as the largest count.
pub open spec fn count_of(bits: u64) -> u32 {
    if is_nan(bits) {
        u32::MAX
    } else if is_negative(bits) {
        0
    } else if is_infinite(bits) || whole_part(bits) > u32::MAX {
        u32::MAX
    } else {
        whole_part(bits) as u32
    }
}

/// A pattern with a nonzero exponent field lies between two neighbouring
/// powers of two.
pub proof fn lemma_magnitude_bounds(bits: u64)
    requires
        exponent(bits) >= 1,
    ensures
        pow2(51 + exponent(bits)) <= magnitude(bits) < pow2(52 + exponent(bits)),
{
    let e = exponent(bits);
    let f = fraction(bits);
    let scale = pow2((e - 1) as nat);
    vstd::arithmetic::power2::lemma2_to64_rest();
    vstd::arithmetic::power2::lemma_pow2_pos((e - 1) as nat);
    vstd::arithmetic::power2::lemma_pow2_adds(52, (e - 1) as nat);
    vstd::arithmetic::power2::lemma_pow2_adds(53, (e - 1) as nat);
    assert(HIDDEN_BIT * scale <= (HIDDEN_BIT + f) * scale < (2 * HIDDEN_BIT) * scale)
        by (nonlinear_arith)
        requires
            0 <= f < HIDDEN_BIT,
            scale > 0,
    ;
}

/// Zero has two patterns.
pub proof fn lemma_zero_patterns(bits: u64)
    ensures
        denotes_zero(bits) <==> (bits == 0 || bits == SIGN_BIT),
{
    if exponent(bits) >= 1 {
        lemma_magnitude_bounds(bits);
        vstd::arithmetic::power2::lemma_pow2_pos(51 + exponent(bits));
    }
}

/// How the magnitude compares with one, by the exponent field: below that
/// of one it is smaller, above it larger, and at it the magnitude starts at
/// one and grows with the fraction field.
pub proof fn lemma_magnitude_against_unit(bits: u64)
    ensures
        exponent(bits) < 1023 ==> magnitude(bits) < unit(),
        exponent(bits) == 1023 ==> magnitude(bits) >= unit() && (magnitude(bits) == unit()
            <==> fraction(bits) == 0),
        exponent(bits) > 1023 ==> magnitude(bits) > unit(),
{
    let e = exponent(bits);
    let f = fraction(bits);
    vstd::arithmetic::power2::lemma2_to64_rest();
    if e == 0 {
        vstd::arithmetic::power2::lemma_pow2_strictly_increases(52, 1074);
    } else if e < 1023 {
        lemma_magnitude_bounds(bits);
        if 52 + e < 1074 {
            vstd::arithmetic::power2::lemma_pow2_strictly_increases(52 + e, 1074);
        }
    } else if e > 1023 {
        lemma_magnitude_bounds(bits);
        vstd::arithmetic::power2::lemma_pow2_strictly_increases(1074, 51 + e);
    } else {
        let scale = pow2(1022);
        vstd::arithmetic::power2::lemma_pow2_pos(1022);
        vstd::arithmetic::power2::lemma_pow2_adds(52, 1022);
        assert((HIDDEN_BIT + f) * scale == HIDDEN_BIT * scale + f * scale) by (nonlinear_arith);
        assert(f > 0 ==> f * scale > 0) by (nonlinear_arith)
            requires
                scale > 0,
        ;
        assert(f == 0 ==> f * scale == 0) by (nonlinear_arith);
    }
}

/// One has a single pattern.
pub proof fn lemma_one_pattern(bits: u64)
    ensures
        denotes_one(bits) <==> bits == ONE,
{
    lemma_magnitude_against_unit(bits);
}

/// No pattern denotes both zero and one.
pub proof fn lemma_zero_is_not_one(bits: u64)
    ensures
        !(denotes_zero(bits) && denotes_one(bits)),
{
    vstd::arithmetic::power2::lemma_pow2_pos(1074);
}

/// The patterns of the unit interval are those from `0.0` up to `1.0`, and
/// that of `-0.0`.
pub proof fn lemma_probability_patterns(bits: u64)
    ensures
        denotes_probability(bits) <==> (bits <= ONE || bits == SIGN_BIT),
{
    lemma_zero_patterns(bits);
    lemma_magnitude_against_unit(bits);
}

/// Whether the pattern denotes zero.
pub fn is_zero(bits: u64) -> (zero: bool)
    ensures
        zero == denotes_zero(bits),
{
    proof {
        lemma_zero_patterns(bits);
    }
    bits == 0 || bits == SIGN_BIT
}

/// Whether the pattern denotes one.
pub fn is_one(bits: u64) -> (one: bool)
    ensures
        one == denotes_one(bits),
{
    proof {
        lemma_one_pattern(bits);
    }
    bits == ONE
}

/// Whether the pattern denotes a number from zero to one, both included.
pub fn is_probability(bits: u64) -> (valid: bool)
    ensures
        valid == denotes_probability(bits),
{
    proof {
        lemma_probability_patterns(bits);
    }
    bits <= ONE || bits == SIGN_BIT
}

/// The exponent and fraction fields, cut out by shifting and masking.
proof fn lemma_fields(bits: u64)
    ensures
        ((bits >> 52) & 0x7FF) == exponent(bits),
        (bits & FRACTION_MASK) == fraction(bits),
        (HIDDEN_BIT | (bits & FRACTION_MASK)) == HIDDEN_BIT + fraction(bits),
{
    assert(((bits >> 52) & 0x7FF) == (bits / 0x0010_0000_0000_0000) % 2048) by (bit_vector);
    assert((bits & 0x000F_FFFF_FFFF_FFFF) == bits % 0x0010_0000_0000_0000) by (bit_vector);
    assert((0x0010_0000_0000_0000 | (bits & 0x000F_FFFF_FFFF_FFFF))
        == 0x0010_0000_0000_0000 + (bits & 0x000F_FFFF_FFFF_FFFF)) by (bit_vector);
}

/// A pattern whose exponent field is below that of one denotes less than one.
pub proof fn lemma_whole_part_below_one(bits: u64)
    requires
        exponent(bits) < 1023,
    ensures
        whole_part(bits) == 0,
{
    lemma_magnitude_against_unit(bits);
    vstd::arithmetic::div_mod::lemma_basic_div(magnitude(bits) as int, unit() as int);
}

/// A pattern whose exponent field is thirty-two or more above that of one
/// denotes at least `2^32`.
pub proof fn lemma_whole_part_beyond_count(bits: u64)
    requires
        exponent(bits) > 1054,
    ensures
        whole_part(bits) > u32::MAX,
{
    let e = exponent(bits);
    let floor = pow2(32) * unit();
    lemma_magnitude_bounds(bits);
    vstd::arithmetic::power2::lemma2_to64();
    vstd::arithmetic::power2::lemma_pow2_pos(1074);
    vstd::arithmetic::power2::lemma_pow2_adds(32, 1074);
    if 51 + e > 1106 {
        vstd::arithmetic::power2::lemma_pow2_strictly_increases(1106, 51 + e);
    }
    vstd::arithmetic::div_mod::lemma_div_is_ordered(
        floor as int,
        magnitude(bits) as int,
        unit() as int,
    );
    vstd::arithmetic::div_mod::lemma_div_by_multiple(pow2(32) as int, unit() as int);
}

/// Between one and `2^32` the whole part is the significand without its low
/// bits.
pub proof fn lemma_whole_part_by_shift(bits: u64)
    requires
        1023 <= exponent(bits) <= 1054,
    ensures
        whole_part(bits) == (HIDDEN_BIT + fraction(bits)) / pow2(
            (1075 - exponent(bits)) as nat,
        ) as int,
{
    let e = exponent(bits);
    let significand = HIDDEN_BIT + fraction(bits);
    let scale = pow2((e - 1) as nat);
    let cut = pow2((1075 - e) as nat);
    vstd::arithmetic::power2::lemma_pow2_pos((e - 1) as nat);
    vstd::arithmetic::power2::lemma_pow2_pos((1075 - e) as nat);
    vstd::arithmetic::power2::lemma_pow2_adds((e - 1) as nat, (1075 - e) as nat);
    vstd::arithmetic::div_mod::lemma_div_multiples_vanish_quotient(
        scale as int,
        significand as int,
        cut as int,
    );
    assert(scale * significand == significand * scale) by (nonlinear_arith);
}

/// The count that the pattern stands for.
pub fn to_count(bits: u64) -> (count: u32)
    ensures
        count == count_of(bits),
{
    let exponent_field: u64 = (bits >> 52) & 0x7FF;
    let fraction_field: u64 = bits & FRACTION_MASK;
    proof {
        lemma_fields(bits);
    }
    if exponent_field == 0x7FF {
        if fraction_field != 0 || bits < SIGN_BIT {
            u32::MAX
        } else {
            0
        }
    } else if bits >= SIGN_BIT {
        0
    } else if exponent_field > 1054 {
        proof {
            lemma_whole_part_beyond_count(bits);
        }
        u32::MAX
    } else if exponent_field < 1023 {
        proof {
            lemma_whole_part_below_one(bits);
        }
        0
    } else {
        let shift: u64 = 1075 - exponent_field;
        let significand: u64 = HIDDEN_BIT | fraction_field;
        let whole: u64 = significand >> shift;
        proof {
            lemma_whole_part_by_shift(bits);
            vstd::bits::lemma_u64_shr_is_div(significand, shift);
            assert(whole <= 0xFFFF_FFFF) by (bit_vector)
                requires
                    whole == significand >> shift,
                    significand < 0x0020_0000_0000_0000,
                    21 <= shift <= 52,
            ;
        }
        whole as u32
    }
}

} // verus!
