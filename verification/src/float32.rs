use vstd::prelude::*;

use rustc_apfloat::Float;

verus! {

/// A single-precision IEEE-754 value, carried as its raw bit pattern.
///
/// The codec transports these values and the record layer rearranges
/// them; neither ever interprets the bits, except through the named
/// arithmetic operations below.
#[derive(Debug, Clone, Copy, PartialEq, Eq, Structural)]
pub struct F32Bits {
    pub bits: u32,
}

impl F32Bits {
    /// Wraps a raw bit pattern.
    pub fn new(bits: u32) -> (r: F32Bits)
        ensures
            r.bits == bits,
    {
        F32Bits { bits }
    }
}

/// The bit pattern of the IEEE-754 binary32 sum of two bit patterns,
/// rounded to nearest, ties to even.
pub uninterp spec fn f32_add(a: u32, b: u32) -> u32;

/// The bit pattern of the IEEE-754 binary32 difference of two bit
/// patterns, rounded to nearest, ties to even.
pub uninterp spec fn f32_sub(a: u32, b: u32) -> u32;

/// Relies on rustc_apfloat's `Float::add_r` on `ieee::Single` with
/// round-to-nearest-ties-to-even: IEEE-754 binary32 addition, a pure
/// function of the two operand bit patterns.
#[verifier::external_body]
pub fn f32_add_bits(a: F32Bits, b: F32Bits) -> (r: F32Bits)
    ensures
        r.bits == f32_add(a.bits, b.bits),
{
    let x = rustc_apfloat::ieee::Single::from_bits(a.bits as u128);
    let y = rustc_apfloat::ieee::Single::from_bits(b.bits as u128);
    let sum = x.add_r(y, rustc_apfloat::Round::NearestTiesToEven).value;
    F32Bits { bits: sum.to_bits() as u32 }
}

/// Relies on rustc_apfloat's `Float::sub_r` on `ieee::Single` with
/// round-to-nearest-ties-to-even: IEEE-754 binary32 subtraction, a
/// pure function of the two operand bit patterns.
#[verifier::external_body]
pub fn f32_sub_bits(a: F32Bits, b: F32Bits) -> (r: F32Bits)
    ensures
        r.bits == f32_sub(a.bits, b.bits),
{
    let x = rustc_apfloat::ieee::Single::from_bits(a.bits as u128);
    let y = rustc_apfloat::ieee::Single::from_bits(b.bits as u128);
    let diff = x.sub_r(y, rustc_apfloat::Round::NearestTiesToEven).value;
    F32Bits { bits: diff.to_bits() as u32 }
}

} // verus!
