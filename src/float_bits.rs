use vstd::prelude::*;

verus! {

/// Bit pattern of positive infinity in IEEE-754 single precision.
pub const F32_POS_INF_BITS: u32 = 0x7F80_0000;

/// Bit pattern of negative infinity.
pub const F32_NEG_INF_BITS: u32 = 0xFF80_0000;

/// Bit pattern of the largest finite single-precision value.
pub const F32_MAX_BITS: u32 = 0x7F7F_FFFF;

/// Bit pattern of the smallest (most negative) finite single-precision value.
pub const F32_MIN_BITS: u32 = 0xFF7F_FFFF;

/// Bit pattern of positive zero.
pub const F32_ZERO_BITS: u32 = 0;

/// The exponent field is all ones: an infinity or a not-a-number.
pub open spec fn is_non_finite(b: u32) -> bool {
    b & 0x7F80_0000 == 0x7F80_0000
}

/// A not-a-number: all-ones exponent with a non-zero mantissa.
pub open spec fn is_nan(b: u32) -> bool {
    is_non_finite(b) && b & 0x007F_FFFF != 0
}

/// The finite pattern a raw pattern normalises to.
pub open spec fn normalized(raw: u32) -> u32 {
    if !is_non_finite(raw) {
        raw
    } else if raw & 0x007F_FFFF != 0 {
        F32_ZERO_BITS
    } else if raw & 0x8000_0000 == 0 {
        F32_MAX_BITS
    } else {
        F32_MIN_BITS
    }
}

/// A single-precision value whose bit pattern is always finite.
#[derive(Debug, Clone, Copy, PartialEq, Eq, Structural)]
pub struct FiniteF32 {
    pub bits: u32,
}

impl FiniteF32 {
    pub open spec fn wf(&self) -> bool {
        !is_non_finite(self.bits)
    }

    /// Maps a raw sampled bit pattern to a finite one: positive infinity to
    /// the largest finite value, negative infinity to the smallest, any
    /// not-a-number to zero; every finite pattern passes through unchanged.
    pub fn normalize(raw: u32) -> (r: FiniteF32)
        ensures
            r.wf(),
            r.bits == normalized(raw),
            raw == F32_POS_INF_BITS ==> r.bits == F32_MAX_BITS,
            raw == F32_NEG_INF_BITS ==> r.bits == F32_MIN_BITS,
            is_nan(raw) ==> r.bits == F32_ZERO_BITS,
            !is_non_finite(raw) ==> r.bits == raw,
    {
        let exp_all_ones = raw & 0x7F80_0000 == 0x7F80_0000;
        let bits = if !exp_all_ones {
            raw
        } else if raw & 0x007F_FFFF != 0 {
            F32_ZERO_BITS
        } else if raw & 0x8000_0000 == 0 {
            F32_MAX_BITS
        } else {
            F32_MIN_BITS
        };
        assert(F32_MAX_BITS & 0x7F80_0000 != 0x7F80_0000) by (bit_vector);
        assert(F32_MIN_BITS & 0x7F80_0000 != 0x7F80_0000) by (bit_vector);
        assert(0u32 & 0x7F80_0000 != 0x7F80_0000) by (bit_vector);
        assert(raw == 0x7F80_0000u32 ==> raw & 0x7F80_0000 == 0x7F80_0000 && raw & 0x007F_FFFF
            == 0 && raw & 0x8000_0000 == 0) by (bit_vector);
        assert(raw == 0xFF80_0000u32 ==> raw & 0x7F80_0000 == 0x7F80_0000 && raw & 0x007F_FFFF
            == 0 && raw & 0x8000_0000 != 0) by (bit_vector);
        FiniteF32 { bits }
    }
}

} // verus!
