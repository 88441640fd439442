//! Unsigned fixed-point numbers as they appear in the container format:
//! 32-bit values with 16 integer and 16 fractional bits, and 16-bit values
//! with 8 integer and 8 fractional bits.
//!
//! The raw encoding is kept as the representation; the represented value is
//! `raw / 2^16` (or `raw / 2^8`).  Splitting a value into integer part and
//! fraction numerator and re-encoding the parts is proved to be the
//! identity in both directions, so no information is lost either way.

use vstd::prelude::*;

verus! {

/// A 16.16 unsigned fixed-point value; represents `raw / 0x1_0000`.
#[derive(Clone, Copy, Debug, PartialEq, Eq, Structural)]
pub struct Fixed1616 {
    pub raw: u32,
}

/// An 8.8 unsigned fixed-point value; represents `raw / 0x100`.
#[derive(Clone, Copy, Debug, PartialEq, Eq, Structural)]
pub struct Fixed88 {
    pub raw: u16,
}

impl Fixed1616 {
    /// The integer part of the represented value.
    pub open spec fn spec_integer_part(self) -> int {
        self.raw as int / 0x1_0000
    }

    /// The numerator of the fractional part, over a denominator of
    /// `0x1_0000`.
    pub open spec fn spec_fraction(self) -> int {
        self.raw as int % 0x1_0000
    }

    pub fn new(raw: u32) -> (r: Self)
        ensures
            r.raw == raw,
    {
        Fixed1616 { raw }
    }

    pub fn integer_part(&self) -> (r: u16)
        ensures
            r == self.spec_integer_part(),
    {
        (self.raw / 0x1_0000) as u16
    }

    pub fn fraction(&self) -> (r: u16)
        ensures
            r == self.spec_fraction(),
    {
        (self.raw % 0x1_0000) as u16
    }

    /// Encode an integer part and a fraction numerator.
    pub fn from_parts(int_part: u16, frac: u16) -> (r: Self)
        ensures
            r.raw == int_part * 0x1_0000 + frac,
    {
        Fixed1616 { raw: (int_part as u32) * 0x1_0000 + (frac as u32) }
    }
}

impl Fixed88 {
    /// The integer part of the represented value.
    pub open spec fn spec_integer_part(self) -> int {
        self.raw as int / 0x100
    }

    /// The numerator of the fractional part, over a denominator of `0x100`.
    pub open spec fn spec_fraction(self) -> int {
        self.raw as int % 0x100
    }

    pub fn new(raw: u16) -> (r: Self)
        ensures
            r.raw == raw,
    {
        Fixed88 { raw }
    }

    pub fn integer_part(&self) -> (r: u8)
        ensures
            r == self.spec_integer_part(),
    {
        (self.raw / 0x100) as u8
    }

    pub fn fraction(&self) -> (r: u8)
        ensures
            r == self.spec_fraction(),
    {
        (self.raw % 0x100) as u8
    }

    /// Encode an integer part and a fraction numerator.
    pub fn from_parts(int_part: u8, frac: u8) -> (r: Self)
        ensures
            r.raw == int_part * 0x100 + frac,
    {
        Fixed88 { raw: (int_part as u16) * 0x100 + (frac as u16) }
    }
}

/// Decoding a 16.16 value into its parts and re-encoding the parts yields
/// the original encoding: no fixed-point value is altered by a round trip.
pub proof fn lemma_fixed1616_decode_encode(x: Fixed1616)
    ensures
        x.spec_integer_part() * 0x1_0000 + x.spec_fraction() == x.raw,
        0 <= x.spec_integer_part() < 0x1_0000,
        0 <= x.spec_fraction() < 0x1_0000,
{
}

/// Encoding an integer part and a fraction numerator and decoding the
/// result yields the original parts.
pub proof fn lemma_fixed1616_encode_decode(int_part: u16, frac: u16)
    ensures
        (Fixed1616 { raw: (int_part * 0x1_0000 + frac) as u32 }).spec_integer_part() == int_part,
        (Fixed1616 { raw: (int_part * 0x1_0000 + frac) as u32 }).spec_fraction() == frac,
{
    let raw = (int_part * 0x1_0000 + frac) as u32;
    assert(raw == int_part * 0x1_0000 + frac);
    assert(raw / 0x1_0000 == int_part && raw % 0x1_0000 == frac) by (nonlinear_arith)
        requires
            raw == int_part * 0x1_0000 + frac,
            0 <= frac < 0x1_0000,
            0 <= int_part < 0x1_0000,
    ;
}

/// Decoding an 8.8 value into its parts and re-encoding the parts yields
/// the original encoding.
pub proof fn lemma_fixed88_decode_encode(x: Fixed88)
    ensures
        x.spec_integer_part() * 0x100 + x.spec_fraction() == x.raw,
        0 <= x.spec_integer_part() < 0x100,
        0 <= x.spec_fraction() < 0x100,
{
}

/// Encoding an integer part and a fraction numerator and decoding the
/// result yields the original parts.
pub proof fn lemma_fixed88_encode_decode(int_part: u8, frac: u8)
    ensures
        (Fixed88 { raw: (int_part * 0x100 + frac) as u16 }).spec_integer_part() == int_part,
        (Fixed88 { raw: (int_part * 0x100 + frac) as u16 }).spec_fraction() == frac,
{
    let raw = (int_part * 0x100 + frac) as u16;
    assert(raw == int_part * 0x100 + frac);
    assert(raw / 0x100 == int_part && raw % 0x100 == frac) by (nonlinear_arith)
        requires
            raw == int_part * 0x100 + frac,
            0 <= frac < 0x100,
            0 <= int_part < 0x100,
    ;
}

} // verus!
