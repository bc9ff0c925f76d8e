use vstd::prelude::*;

verus! {

// Prices are held as the bit patterns of IEEE-754 binary64 values.

/// The sign bit.
pub const SIGN_BIT: u64 = 0x8000_0000_0000_0000;

/// All bits but the sign.
pub const MAGNITUDE_MASK: u64 = 0x7fff_ffff_ffff_ffff;

/// The fraction bits.
pub const FRACTION_MASK: u64 = 0x000f_ffff_ffff_ffff;

/// The exponent bits of a value that is infinite or not a number.
pub const EXPONENT_MASK: u64 = 0x7ff0_0000_0000_0000;

/// The bit pattern is that of a NaN: every exponent bit set and a fraction that is not zero.
pub open spec fn is_nan_bits(b: u64) -> bool {
    b & EXPONENT_MASK == EXPONENT_MASK && b & FRACTION_MASK != 0
}

/// An integer that orders the values that are not NaN as the numbers they denote: the magnitude
/// bits grow with the magnitude, and the sign flips them. Both zeros get the key 0, so they are
/// equal, as they are as numbers.
pub open spec fn float_order_key(b: u64) -> int {
    if b & SIGN_BIT == 0 {
        (b & MAGNITUDE_MASK) as int
    } else {
        -((b & MAGNITUDE_MASK) as int)
    }
}

/// Whether a bit pattern is that of a NaN.
pub fn is_nan(b: u64) -> (res: bool)
    ensures
        res == is_nan_bits(b),
{
    b & EXPONENT_MASK == EXPONENT_MASK && b & FRACTION_MASK != 0
}

/// The order key of a bit pattern.
pub fn order_key(b: u64) -> (k: i64)
    ensures
        k as int == float_order_key(b),
{
    let mag = b & MAGNITUDE_MASK;
    assert(mag <= 0x7fff_ffff_ffff_ffffu64) by (bit_vector)
        requires
            mag == b & 0x7fff_ffff_ffff_ffffu64,
    ;
    if b & SIGN_BIT == 0 {
        mag as i64
    } else {
        -(mag as i64)
    }
}

} // verus!
