//! The calculator's native 16-bit color format and the conversion into it.

use vstd::prelude::*;

verus! {

/// One palette color: 8 bits per channel, alpha already flattened away.
#[derive(Clone, Copy, Debug, PartialEq, Eq, Structural)]
pub struct Color {
    pub r: u8,
    pub g: u8,
    pub b: u8,
}

/// Scale an 8-bit channel onto 5 bits: round(c / 255 * 31).
///
/// `c * 62 + 255` over 510 is the same value with the rounding folded in;
/// no input lands exactly halfway between two 5-bit values.
pub open spec fn scale5(c: u8) -> int {
    (c * 62 + 255) / 510
}

/// Scale an 8-bit channel onto 6 bits: round(c / 255 * 63).
pub open spec fn scale6(c: u8) -> int {
    (c * 126 + 255) / 510
}

/// The packed value: G[0] at bit 15, then R[4..0], G[5..1], B[4..0].
///
/// Multiplications stand in for the shifts: bit 15 is 32768, bit 10 is
/// 1024, and dropping green's low bit before shifting it up by 4 leaves
/// `(g / 2) * 32`.
pub open spec fn pack_grgb1555(c: Color) -> int {
    (scale6(c.g) % 2) * 32768 + scale5(c.r) * 1024 + (scale6(c.g) / 2) * 32 + scale5(c.b)
}

/// 16-bit color format natively used by the calculator.
///
/// A rearranged RGB565: 5 bits of red and blue, 6 of green, with the
/// least-significant bit of green moved to bit 15:
///
/// ```text
/// G0 R4 R3 R2 R1 R0 G5 G4 G3 G2 G1 B4 B3 B2 B1 B0
/// 15 14 13 12 11 10  9  8  7  6  5  4  3  2  1  0
/// ```
#[derive(Clone, Copy, Debug, PartialEq, Eq, Structural)]
pub struct GRGB1555(pub u16);

impl GRGB1555 {
    /// Convert from 24-bit RGB; this is lossy and one-way.
    pub fn from_color(c: Color) -> (result: GRGB1555)
        ensures
            result.0 == pack_grgb1555(c),
    {
        let r: u16 = ((c.r as u32 * 62 + 255) / 510) as u16;
        let g: u16 = ((c.g as u32 * 126 + 255) / 510) as u16;
        let b: u16 = ((c.b as u32 * 62 + 255) / 510) as u16;
        GRGB1555((g % 2) * 32768 + r * 1024 + (g / 2) * 32 + b)
    }

    /// The little-endian byte pair written into the binary streams.
    pub fn to_le_bytes(self) -> (result: (u8, u8))
        ensures
            result.0 == self.0 as int % 256,
            result.1 == self.0 as int / 256,
    {
        ((self.0 % 256) as u8, (self.0 / 256) as u8)
    }
}

} // verus!
