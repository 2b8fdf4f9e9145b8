//! Double-precision numbers as the databases store them.
//!
//! The library moves such numbers between a database and its callers and
//! never computes with them, so it holds each by its IEEE 754 bit pattern.

use vstd::prelude::*;

verus! {

/// A double-precision number, held by its IEEE 754 binary64 bit pattern.
#[derive(Debug, Clone, Copy, PartialEq, Eq, Structural, Hash)]
pub struct Float64 {
    bits: u64,
}

impl View for Float64 {
    type V = u64;

    closed spec fn view(&self) -> u64 {
        self.bits
    }
}

impl Float64 {
    /// The number with the given bit pattern.
    pub fn from_bits(bits: u64) -> (x: Float64)
        ensures
            x@ == bits,
    {
        Float64 { bits }
    }

    /// The bit pattern of the number.
    pub fn to_bits(&self) -> (bits: u64)
        ensures
            bits == self@,
    {
        self.bits
    }

    /// Zero.
    pub fn zero() -> (x: Float64)
        ensures
            x@ == 0,
    {
        Float64 { bits: 0 }
    }

    /// One.
    pub fn one() -> (x: Float64)
        ensures
            x@ == 0x3ff0_0000_0000_0000,
    {
        Float64 { bits: 0x3ff0_0000_0000_0000 }
    }

    /// Two.
    pub fn two() -> (x: Float64)
        ensures
            x@ == 0x4000_0000_0000_0000,
    {
        Float64 { bits: 0x4000_0000_0000_0000 }
    }

    /// One hundred.
    pub fn hundred() -> (x: Float64)
        ensures
            x@ == 0x4059_0000_0000_0000,
    {
        Float64 { bits: 0x4059_0000_0000_0000 }
    }
}

/// Numbers with the same bit pattern are the same number.
pub proof fn lemma_float_by_bits(a: Float64, b: Float64)
    requires
        a@ == b@,
    ensures
        a == b,
{
}

} // verus!
