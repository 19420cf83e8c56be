//! Doubles by their IEEE 754 bit patterns: telling the finite ones, comparing,
//! naming those that are not finite, and rounding toward zero.

use vstd::arithmetic::power2::{
    lemma2_to64, lemma2_to64_rest, lemma_pow2_adds, lemma_pow2_pos, lemma_pow2_strictly_increases,
    pow2,
};
use vstd::bits::{lemma_u64_shl_is_mul, lemma_u64_shr_is_div};
use vstd::prelude::*;

verus! {

/// The eleven exponent bits of an IEEE 754 double, given by its bit pattern.
pub open spec fn exponent_field(bits: u64) -> int {
    (bits as int / 0x10_0000_0000_0000) % 0x800
}

/// The fifty-two fraction bits of an IEEE 754 double.
pub open spec fn fraction_field(bits: u64) -> int {
    bits as int % 0x10_0000_0000_0000
}

/// Whether the sign bit of the double is set.
pub open spec fn sign_set(bits: u64) -> bool {
    bits >= 0x8000_0000_0000_0000
}

/// A double is finite unless all its exponent bits are set.
pub open spec fn is_finite(bits: u64) -> bool {
    exponent_field(bits) != 0x7ff
}

/// A double is not a number when all exponent bits are set and the fraction
/// is not zero.
pub open spec fn is_nan(bits: u64) -> bool {
    exponent_field(bits) == 0x7ff && fraction_field(bits) != 0
}

/// Tells from the bit pattern of a double whether it is finite.
pub fn is_finite_bits(bits: u64) -> (finite: bool)
    ensures
        finite == is_finite(bits),
{
    let exponent: u64 = (bits >> 52) & 0x7ff;
    assert((bits >> 52) & 0x7ff == (bits / 0x10_0000_0000_0000) % 0x800) by (bit_vector);
    exponent != 0x7ff
}

/// Whether a double is zero, of either sign.
pub open spec fn is_zero(bits: u64) -> bool {
    bits == 0 || bits == 0x8000_0000_0000_0000
}

/// Whether two doubles are equal as numbers: neither is not a number, and
/// they have the same bit pattern or are both zero.
pub open spec fn same_double(a: u64, b: u64) -> bool {
    &&& !is_nan(a)
    &&& !is_nan(b)
    &&& a == b || (is_zero(a) && is_zero(b))
}

/// Tells from their bit patterns whether two doubles are equal as numbers.
pub fn doubles_equal(a: u64, b: u64) -> (equal: bool)
    ensures
        equal == same_double(a, b),
{
    let a_is_nan: bool = (a & 0x7fff_ffff_ffff_ffff) > 0x7ff0_0000_0000_0000;
    let b_is_nan: bool = (b & 0x7fff_ffff_ffff_ffff) > 0x7ff0_0000_0000_0000;
    assert(((a & 0x7fff_ffff_ffff_ffff) > 0x7ff0_0000_0000_0000) == ((a / 0x10_0000_0000_0000)
        % 0x800 == 0x7ff && a % 0x10_0000_0000_0000 != 0)) by (bit_vector);
    assert(((b & 0x7fff_ffff_ffff_ffff) > 0x7ff0_0000_0000_0000) == ((b / 0x10_0000_0000_0000)
        % 0x800 == 0x7ff && b % 0x10_0000_0000_0000 != 0)) by (bit_vector);
    assert(((a & 0x7fff_ffff_ffff_ffff) == 0) == (a == 0 || a == 0x8000_0000_0000_0000))
        by (bit_vector);
    assert(((b & 0x7fff_ffff_ffff_ffff) == 0) == (b == 0 || b == 0x8000_0000_0000_0000))
        by (bit_vector);
    if a_is_nan || b_is_nan {
        false
    } else {
        a == b || ((a & 0x7fff_ffff_ffff_ffff) == 0 && (b & 0x7fff_ffff_ffff_ffff) == 0)
    }
}

/// The text that stands for a double that is not finite: `NaN`, `inf` or
/// `-inf`.
pub open spec fn non_finite_text(bits: u64) -> Seq<char> {
    if is_nan(bits) {
        seq!['N', 'a', 'N']
    } else if sign_set(bits) {
        seq!['-', 'i', 'n', 'f']
    } else {
        seq!['i', 'n', 'f']
    }
}

/// The whole part of the absolute value of a finite double: its
/// significand, scaled by the power of two that its exponent names, and
/// rounded down.
pub open spec fn whole_magnitude(bits: u64) -> int {
    let exponent = exponent_field(bits);
    let significand = 0x10_0000_0000_0000 + fraction_field(bits);
    if exponent == 0 {
        0
    } else if exponent < 1075 {
        significand / (pow2((1075 - exponent) as nat) as int)
    } else {
        significand * pow2((exponent - 1075) as nat)
    }
}

/// The double rounded toward zero to a signed 64-bit integer. What lies
/// beyond the integers of that type, an infinity too, goes to the nearest
/// of them; what is not a number goes to zero.
pub open spec fn truncated(bits: u64) -> int {
    if is_nan(bits) {
        0
    } else if !is_finite(bits) {
        if sign_set(bits) {
            i64::MIN as int
        } else {
            i64::MAX as int
        }
    } else {
        let whole = if sign_set(bits) {
            -whole_magnitude(bits)
        } else {
            whole_magnitude(bits)
        };
        if whole < i64::MIN {
            i64::MIN as int
        } else if whole > i64::MAX {
            i64::MAX as int
        } else {
            whole
        }
    }
}

/// Names a double that is not finite, as text; a finite double gets no
/// name.
pub fn non_finite_to_string(bits: u64) -> (name: Option<String>)
    ensures
        is_finite(bits) ==> name is None,
        !is_finite(bits) ==> (name matches Some(text) && text@ == non_finite_text(bits)),
{
    if is_finite_bits(bits) {
        return None;
    }
    let fraction: u64 = bits & 0xf_ffff_ffff_ffff;
    let negative: bool = (bits >> 63) == 1;
    assert(bits & 0xf_ffff_ffff_ffff == bits % 0x10_0000_0000_0000) by (bit_vector);
    assert(((bits >> 63) == 1) == (bits >= 0x8000_0000_0000_0000)) by (bit_vector);
    proof {
        reveal_strlit("NaN");
        reveal_strlit("-inf");
        reveal_strlit("inf");
    }
    let text = if fraction != 0 {
        "NaN".to_owned()
    } else if negative {
        "-inf".to_owned()
    } else {
        "inf".to_owned()
    };
    assert(text@ =~= non_finite_text(bits));
    Some(text)
}

/// Rounds a double toward zero to a signed 64-bit integer.
pub fn truncate_to_i64(bits: u64) -> (whole: i64)
    ensures
        whole as int == truncated(bits),
{
    let exponent: u64 = (bits >> 52) & 0x7ff;
    let fraction: u64 = bits & 0xf_ffff_ffff_ffff;
    let negative: bool = (bits >> 63) == 1;
    assert((bits >> 52) & 0x7ff == (bits / 0x10_0000_0000_0000) % 0x800) by (bit_vector);
    assert(bits & 0xf_ffff_ffff_ffff == bits % 0x10_0000_0000_0000) by (bit_vector);
    assert(((bits >> 63) == 1) == (bits >= 0x8000_0000_0000_0000)) by (bit_vector);
    assert(exponent < 0x800 && fraction < 0x10_0000_0000_0000);
    proof {
        lemma2_to64();
        lemma2_to64_rest();
    }
    if exponent == 0x7ff {
        if fraction != 0 {
            0
        } else if negative {
            i64::MIN
        } else {
            i64::MAX
        }
    } else if exponent < 1023 {
        proof {
            if exponent > 0 {
                let shift = (1075 - exponent) as nat;
                lemma_pow2_strictly_increases(52, shift);
                let significand = 0x10_0000_0000_0000 + fraction as int;
                assert(pow2(shift) > pow2(52));
                assert(significand < 2 * pow2(52));
                lemma_pow2_adds(1, 52);
                lemma_pow2_strictly_increases(53, shift + 1);
                if shift > 53 {
                    lemma_pow2_strictly_increases(53, shift);
                }
                assert(pow2(shift) >= pow2(53));
                assert(significand / (pow2(shift) as int) == 0) by (nonlinear_arith)
                    requires
                        0 <= significand < pow2(shift),
                ;
            }
        }
        0
    } else if exponent >= 1086 {
        proof {
            let shift = (exponent - 1075) as nat;
            let significand = 0x10_0000_0000_0000 + fraction as int;
            if shift > 11 {
                lemma_pow2_strictly_increases(11, shift);
            }
            assert(pow2(shift) >= 0x800);
            assert(significand * pow2(shift) >= 0x8000_0000_0000_0000) by (nonlinear_arith)
                requires
                    significand >= 0x10_0000_0000_0000,
                    pow2(shift) >= 0x800,
            ;
        }
        if negative {
            i64::MIN
        } else {
            i64::MAX
        }
    } else {
        let significand: u64 = fraction | 0x10_0000_0000_0000;
        assert(fraction | 0x10_0000_0000_0000 == fraction + 0x10_0000_0000_0000) by (bit_vector)
            requires
                fraction < 0x10_0000_0000_0000,
        ;
        let magnitude: u64 = if exponent < 1075 {
            let shift: u64 = 1075 - exponent;
            proof {
                lemma_u64_shr_is_div(significand, shift);
            }
            significand >> shift
        } else {
            let shift: u64 = exponent - 1075;
            proof {
                if shift < 10 {
                    lemma_pow2_strictly_increases(shift as nat, 10);
                }
                lemma_pow2_pos(shift as nat);
                assert(significand * pow2(shift as nat) < 0x8000_0000_0000_0000)
                    by (nonlinear_arith)
                    requires
                        significand < 0x20_0000_0000_0000,
                        0 < pow2(shift as nat) <= 0x400,
                ;
                lemma_u64_shl_is_mul(significand, shift);
            }
            significand << shift
        };
        assert(magnitude as int == whole_magnitude(bits));
        assert(magnitude < 0x8000_0000_0000_0000) by {
            if exponent < 1075 {
                let shift = (1075 - exponent) as nat;
                lemma_pow2_pos(shift);
                assert(significand as int / (pow2(shift) as int) <= significand as int)
                    by (nonlinear_arith)
                    requires
                        significand >= 0,
                        pow2(shift) > 0,
                ;
            }
        }
        if negative {
            -(magnitude as i64)
        } else {
            magnitude as i64
        }
    }
}

} // verus!
