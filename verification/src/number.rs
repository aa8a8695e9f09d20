//! The numbers that literals denote.

use vstd::prelude::*;
use std::num::ParseIntError;
use vstd::arithmetic::div_mod::{lemma_basic_div, lemma_div_is_ordered_by_denominator};
use vstd::arithmetic::mul::{lemma_mul_inequality, lemma_mul_upper_bound};
use vstd::arithmetic::power2::{
    lemma2_to64, lemma2_to64_rest, lemma_pow2_pos, lemma_pow2_strictly_increases, pow2,
};
use vstd::bits::{lemma_u64_shl_is_mul, lemma_u64_shr_is_div};

verus! {

/// Whether `c` is one of the ten decimal digits.
pub open spec fn is_digit(c: char) -> bool {
    '0' <= c <= '9'
}

/// The number that a sequence of decimal digits denotes.
pub open spec fn digits_value(s: Seq<char>) -> nat
    decreases s.len(),
{
    if s.len() == 0 {
        0
    } else {
        (10 * digits_value(s.drop_last()) + (s.last() as u32 - '0' as u32)) as nat
    }
}

/// The 64-bit signed integer that `s` denotes: an optional sign, `+` or
/// `-`, and then one or more decimal digits and nothing else. A text of
/// another form, or one whose number does not fit, denotes none.
pub open spec fn integer_value(s: Seq<char>) -> Option<i64> {
    let signed = s.len() > 0 && (s[0] == '-' || s[0] == '+');
    let digits = if signed {
        s.subrange(1, s.len() as int)
    } else {
        s
    };
    let magnitude = digits_value(digits) as int;
    let value = if signed && s[0] == '-' {
        -magnitude
    } else {
        magnitude
    };
    if digits.len() > 0 && (forall|i: int| 0 <= i < digits.len() ==> is_digit(#[trigger] digits[i]))
        && i64::MIN <= value <= i64::MAX {
        Some(value as i64)
    } else {
        None
    }
}

/// `std::num::ParseIntError`, the failure of `str::parse::<i64>`. Nothing
/// is claimed of what it holds.
#[verifier::external_type_specification]
#[verifier::external_body]
pub struct ExParseIntError(ParseIntError);

/// `str::parse::<i64>`: succeeds exactly on an optional sign followed by
/// decimal digits whose number fits in 64 bits, and then returns that
/// number.
#[verifier::external_body]
pub(crate) fn parse_integer(text: &str) -> (r: Result<i64, ParseIntError>)
    ensures
        match r {
            Ok(n) => integer_value(text@) == Some(n),
            Err(_) => integer_value(text@) is None,
        },
{
    text.parse::<i64>()
}

/// The index that follows `i`; past the largest it wraps to the smallest.
pub open spec fn following(i: i64) -> i64 {
    if i == i64::MAX {
        i64::MIN
    } else {
        (i + 1) as i64
    }
}

/// The index that follows `i`, see [`following`].
pub fn next_index(i: i64) -> (r: i64)
    ensures
        r == following(i),
{
    if i == i64::MAX {
        i64::MIN
    } else {
        i + 1
    }
}

/// Whether the binary64 number with the bit pattern `bits` has the sign
/// bit set: the highest of its 64 bits.
pub open spec fn sign_bit(bits: u64) -> bool {
    bits >= 0x8000_0000_0000_0000
}

/// The exponent field of a binary64 bit pattern: the eleven bits below the
/// sign bit.
pub open spec fn exponent_field(bits: u64) -> nat {
    ((bits / 0x10_0000_0000_0000) % 0x800) as nat
}

/// The fraction field of a binary64 bit pattern: its lowest 52 bits.
pub open spec fn fraction_field(bits: u64) -> nat {
    (bits % 0x10_0000_0000_0000) as nat
}

/// The integer part of the magnitude of a binary64 number that is no
/// NaN. With the exponent field `e` and the fraction field `f`, the
/// magnitude is `(2^52 + f) * 2^(e - 1075)`; below `e = 1` it is smaller
/// still.
pub open spec fn integer_part(bits: u64) -> nat {
    let significand = 0x10_0000_0000_0000 + fraction_field(bits);
    let e = exponent_field(bits);
    if e >= 1075 {
        significand * pow2((e - 1075) as nat)
    } else {
        significand / pow2((1075 - e) as nat)
    }
}

/// The binary64 number with the bit pattern `bits`, rounded toward zero to
/// a 64-bit signed integer: its integer part with its sign, the nearest
/// bound where that does not fit, and 0 for a NaN, whose exponent field
/// is all ones over a fraction field that is not zero.
pub open spec fn truncated(bits: u64) -> i64 {
    let magnitude = integer_part(bits);
    if exponent_field(bits) == 0x7ff && fraction_field(bits) != 0 {
        0
    } else if sign_bit(bits) {
        if magnitude >= 0x8000_0000_0000_0000 {
            i64::MIN
        } else {
            (-magnitude) as i64
        }
    } else {
        if magnitude > i64::MAX {
            i64::MAX
        } else {
            magnitude as i64
        }
    }
}

/// Rounds a binary64 number toward zero, see [`truncated`].
pub fn truncate(bits: u64) -> (r: i64)
    ensures
        r == truncated(bits),
{
    let negative = (bits >> 63) == 1;
    let exponent = (bits >> 52) & 0x7ff;
    let fraction = bits & 0xf_ffff_ffff_ffff;
    let significand = fraction | 0x10_0000_0000_0000;
    proof {
        assert(((bits >> 63) == 1) == (bits >= 0x8000_0000_0000_0000)) by (bit_vector);
        assert((bits >> 52) & 0x7ff == (bits / 0x10_0000_0000_0000) % 0x800) by (bit_vector);
        assert(bits & 0xf_ffff_ffff_ffff == bits % 0x10_0000_0000_0000) by (bit_vector);
        assert(fraction | 0x10_0000_0000_0000 == fraction + 0x10_0000_0000_0000) by (bit_vector)
            requires
                fraction == bits & 0xf_ffff_ffff_ffff,
        ;
        assert(negative == sign_bit(bits));
        assert(exponent == exponent_field(bits));
        assert(fraction == fraction_field(bits));
        assert(0x10_0000_0000_0000 <= significand < 0x20_0000_0000_0000);
        lemma2_to64();
        lemma2_to64_rest();
    }
    if exponent == 0x7ff && fraction != 0 {
        0
    } else if exponent < 1023 {
        proof {
            let k = (1075 - exponent) as nat;
            if k > 53 {
                lemma_pow2_strictly_increases(53, k);
            }
            lemma_basic_div(significand as int, pow2(k) as int);
        }
        0
    } else if exponent >= 1023 + 63 {
        proof {
            let k = (exponent - 1075) as nat;
            if k > 11 {
                lemma_pow2_strictly_increases(11, k);
            }
            lemma_mul_inequality(0x800, pow2(k) as int, significand as int);
            lemma_mul_inequality(0x10_0000_0000_0000, significand as int, 0x800);
            assert(integer_part(bits) >= 0x8000_0000_0000_0000) by (nonlinear_arith)
                requires
                    integer_part(bits) == significand * pow2(k),
                    0x800 * significand <= pow2(k) * significand,
                    0x10_0000_0000_0000 * 0x800 <= significand * 0x800,
            ;
        }
        if negative {
            i64::MIN
        } else {
            i64::MAX
        }
    } else {
        let magnitude: u64 = if exponent >= 1023 + 52 {
            let shift: u64 = exponent - 1075;
            proof {
                if shift < 10 {
                    lemma_pow2_strictly_increases(shift as nat, 10);
                }
                lemma_mul_upper_bound(
                    significand as int,
                    0x1f_ffff_ffff_ffff,
                    pow2(shift as nat) as int,
                    0x400,
                );
                lemma_u64_shl_is_mul(significand, shift);
            }
            significand << shift
        } else {
            let shift: u64 = 1075 - exponent;
            proof {
                lemma_u64_shr_is_div(significand, shift);
                lemma_pow2_pos(shift as nat);
                lemma_div_is_ordered_by_denominator(significand as int, 1, pow2(shift as nat) as int);
            }
            significand >> shift
        };
        assert(magnitude == integer_part(bits));
        assert(magnitude < 0x8000_0000_0000_0000);
        if negative {
            -(magnitude as i64)
        } else {
            magnitude as i64
        }
    }
}

} // verus!
