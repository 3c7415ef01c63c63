//! Real numbers and canvas positions, as the library holds them.
//!
//! The library stores such numbers and hands them back unchanged. It never
//! computes with them, so a number is kept as the 64 bits of its binary64
//! representation.

use vstd::prelude::*;

verus! {

/// A real number, kept as the bits of its binary64 representation.
#[derive(Debug, Copy, Clone)]
pub struct Scalar {
    pub bits: u64,
}

/// A point of the canvas or of the grid.
#[derive(Debug, Copy, Clone)]
pub struct Coord(pub Scalar, pub Scalar);

/// The bits of the number one.
pub const ONE_BITS: u64 = 0x3FF0_0000_0000_0000;

/// The bits of the number two.
pub const TWO_BITS: u64 = 0x4000_0000_0000_0000;

/// The bits of the number thirty-five.
pub const THIRTY_FIVE_BITS: u64 = 0x4041_8000_0000_0000;

impl Scalar {
    /// The number with the given binary64 representation.
    pub fn from_bits(bits: u64) -> (r: Self)
        ensures
            r.bits == bits,
    {
        Scalar { bits }
    }

    /// The binary64 representation of this number.
    pub fn to_bits(self) -> (r: u64)
        ensures
            r == self.bits,
    {
        self.bits
    }
}

impl Coord {
    /// The point whose two axes have the given binary64 representations.
    pub fn from_bits(x: u64, y: u64) -> (r: Self)
        ensures
            r == Coord(Scalar { bits: x }, Scalar { bits: y }),
    {
        Coord(Scalar { bits: x }, Scalar { bits: y })
    }
}

impl Default for Coord {
    /// The origin.
    fn default() -> (r: Self)
        ensures
            r == Coord(Scalar { bits: 0 }, Scalar { bits: 0 }),
    {
        Coord(Scalar { bits: 0 }, Scalar { bits: 0 })
    }
}

} // verus!
