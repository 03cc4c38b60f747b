//! Bit-level view of the language's numbers.
//!
//! A number of the language is an IEEE-754 double, carried everywhere as its
//! 64-bit pattern: one sign bit, an 11-bit exponent, a 52-bit mantissa.  The
//! operations that are decided by the bits alone — negation, the zero test,
//! and the four orderings — are implemented and specified here.  Addition,
//! subtraction, multiplication and division are not functions of a fixed
//! number of bits' worth of table lookups and are left to the embedder, which
//! the virtual machine asks for them (see [`crate::vm`]).

use vstd::prelude::*;

verus! {

/// The sign bit of a double's bit pattern.
pub open spec fn sign_bits(b: u64) -> bool {
    b & 0x8000_0000_0000_0000 != 0
}

/// The magnitude (exponent and mantissa) of a double's bit pattern.
pub open spec fn mag_bits(b: u64) -> u64 {
    b & 0x7fff_ffff_ffff_ffff
}

/// A pattern encodes NaN when the exponent is all ones and the mantissa is
/// not zero.
pub open spec fn nan_bits(b: u64) -> bool {
    (b >> 52) & 0x7ff == 0x7ff && b & 0x000f_ffff_ffff_ffff != 0
}

/// IEEE-754 doubles order as sign-and-magnitude integers: for patterns that
/// are not NaN, the encoded value of `a` is below the encoded value of `b`
/// exactly when `num_key(a) < num_key(b)`.  Both zeros map to key 0, so the
/// two zeros compare equal, as the standard asks.
pub open spec fn num_key(b: u64) -> int {
    if sign_bits(b) {
        -(mag_bits(b) as int)
    } else {
        mag_bits(b) as int
    }
}

/// The `<` ordering on numbers.  Any comparison with NaN is false.
pub open spec fn num_lt(a: u64, b: u64) -> bool {
    !nan_bits(a) && !nan_bits(b) && num_key(a) < num_key(b)
}

/// The `<=` ordering on numbers.  Any comparison with NaN is false.
pub open spec fn num_le(a: u64, b: u64) -> bool {
    !nan_bits(a) && !nan_bits(b) && num_key(a) <= num_key(b)
}

/// A number is the value zero when its magnitude is zero; this holds of the
/// patterns of both `0.0` and `-0.0`.
pub open spec fn num_is_zero(b: u64) -> bool {
    mag_bits(b) == 0
}

/// Negating a double flips exactly its sign bit.
pub open spec fn negate_bits(b: u64) -> u64 {
    b ^ 0x8000_0000_0000_0000
}

/// Decides whether a pattern encodes NaN.
pub fn num_is_nan(b: u64) -> (r: bool)
    ensures
        r == nan_bits(b),
{
    (b >> 52) & 0x7ff == 0x7ff && b & 0x000f_ffff_ffff_ffff != 0
}

/// Negates a number: the sign bit is flipped, whatever the pattern encodes.
pub fn num_negate(b: u64) -> (r: u64)
    ensures
        r == negate_bits(b),
{
    b ^ 0x8000_0000_0000_0000
}

/// Decides whether a number is the value zero (either sign).
pub fn num_zero_test(b: u64) -> (r: bool)
    ensures
        r == num_is_zero(b),
{
    b & 0x7fff_ffff_ffff_ffff == 0
}

proof fn lemma_mag_bound(b: u64)
    ensures
        mag_bits(b) <= 0x7fff_ffff_ffff_ffff,
        sign_bits(b) || b == mag_bits(b),
{
    assert(b & 0x7fff_ffff_ffff_ffff <= 0x7fff_ffff_ffff_ffff) by (bit_vector);
    assert(b & 0x8000_0000_0000_0000 == 0 ==> b & 0x7fff_ffff_ffff_ffff == b) by (bit_vector);
}

/// Decides the `<` ordering on numbers.
pub fn num_less(a: u64, b: u64) -> (r: bool)
    ensures
        r == num_lt(a, b),
{
    if num_is_nan(a) || num_is_nan(b) {
        return false;
    }
    let sa = a & 0x8000_0000_0000_0000 != 0;
    let sb = b & 0x8000_0000_0000_0000 != 0;
    let ma = a & 0x7fff_ffff_ffff_ffff;
    let mb = b & 0x7fff_ffff_ffff_ffff;
    proof {
        lemma_mag_bound(a);
        lemma_mag_bound(b);
    }
    if sa {
        if sb {
            mb < ma
        } else {
            !(ma == 0 && mb == 0)
        }
    } else {
        if sb {
            false
        } else {
            ma < mb
        }
    }
}

/// Decides the `<=` ordering on numbers.
pub fn num_less_eq(a: u64, b: u64) -> (r: bool)
    ensures
        r == num_le(a, b),
{
    if num_is_nan(a) || num_is_nan(b) {
        return false;
    }
    let sa = a & 0x8000_0000_0000_0000 != 0;
    let sb = b & 0x8000_0000_0000_0000 != 0;
    let ma = a & 0x7fff_ffff_ffff_ffff;
    let mb = b & 0x7fff_ffff_ffff_ffff;
    proof {
        lemma_mag_bound(a);
        lemma_mag_bound(b);
    }
    if sa {
        if sb {
            mb <= ma
        } else {
            true
        }
    } else {
        if sb {
            ma == 0 && mb == 0
        } else {
            ma <= mb
        }
    }
}

} // verus!
