//! Floating-point values modelled by their IEEE 754 representation.
//!
//! Matchers in this library decide over plain values; a floating-point
//! actual value enters as its raw bit pattern, in single or double
//! precision.  Infinitude is a property of the bits alone: the
//! exponent field is all ones and the significand is zero.

use vstd::prelude::*;

verus! {

/// A single-precision floating-point value, held as its raw bits.
#[derive(Clone, Copy, Debug, PartialEq, Eq, Structural)]
pub struct Float32Bits {
    pub bits: u32,
}

/// A double-precision floating-point value, held as its raw bits.
#[derive(Clone, Copy, Debug, PartialEq, Eq, Structural)]
pub struct Float64Bits {
    pub bits: u64,
}

/// Whether a single-precision bit pattern denotes an infinity: its
/// magnitude bits equal those of positive infinity.
pub open spec fn f32_bits_infinite(bits: u32) -> bool {
    bits & 0x7fff_ffff == 0x7f80_0000
}

/// Whether a double-precision bit pattern denotes an infinity.
pub open spec fn f64_bits_infinite(bits: u64) -> bool {
    bits & 0x7fff_ffff_ffff_ffff == 0x7ff0_0000_0000_0000
}

impl Float32Bits {
    /// Wrap a raw single-precision bit pattern.
    pub fn from_bits(bits: u32) -> (r: Float32Bits)
        ensures
            r == (Float32Bits { bits }),
    {
        Float32Bits { bits }
    }

    /// Whether this value is positive or negative infinity.
    pub fn is_infinite(&self) -> (r: bool)
        ensures
            r == f32_bits_infinite(self.bits),
    {
        self.bits & 0x7fff_ffff == 0x7f80_0000
    }
}

impl Float64Bits {
    /// Wrap a raw double-precision bit pattern.
    pub fn from_bits(bits: u64) -> (r: Float64Bits)
        ensures
            r == (Float64Bits { bits }),
    {
        Float64Bits { bits }
    }

    /// Whether this value is positive or negative infinity.
    pub fn is_infinite(&self) -> (r: bool)
        ensures
            r == f64_bits_infinite(self.bits),
    {
        self.bits & 0x7fff_ffff_ffff_ffff == 0x7ff0_0000_0000_0000
    }
}

} // verus!
