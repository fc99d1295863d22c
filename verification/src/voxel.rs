//! A voxel cell value: a 32-bit RGBA color, red in the most significant
//! byte, alpha in the least significant byte. All-zero means empty.

use vstd::prelude::*;

verus! {

/// One cell of the voxel world, packed as `0xRRGGBBAA`.
#[derive(Clone, Copy, PartialEq, Eq, Structural, Debug)]
pub struct Voxel {
    color: u32,
}

/// The packed form of the four channels: red in the most significant
/// byte, then green, then blue, with alpha in the least significant byte.
pub open spec fn pack_rgba(r: u8, g: u8, b: u8, a: u8) -> u32 {
    (a + b * 0x100 + g * 0x1_0000 + r * 0x100_0000) as u32
}

impl Voxel {
    /// The packed 32-bit value this voxel stores.
    pub closed spec fn bits(self) -> u32 {
        self.color
    }

    /// The empty sentinel: all channels zero, fully transparent.
    pub open spec fn is_empty(self) -> bool {
        self.bits() == 0
    }

    /// A fully opaque voxel of the given color.
    pub fn new(r: u8, g: u8, b: u8) -> (v: Voxel)
        ensures
            v.bits() == pack_rgba(r, g, b, 255),
            !v.is_empty(),
    {
        Self::new_alpha(r, g, b, 255)
    }

    /// A voxel of the given color and alpha.
    pub fn new_alpha(r: u8, g: u8, b: u8, a: u8) -> (v: Voxel)
        ensures
            v.bits() == pack_rgba(r, g, b, a),
            v.is_empty() <==> (r == 0 && g == 0 && b == 0 && a == 0),
    {
        proof {
            assert(pack_rgba(r, g, b, a) == 0 <==> (r == 0 && g == 0 && b == 0 && a == 0))
                by (bit_vector);
            assert(a as u32 + ((b as u32) << 8) + ((g as u32) << 16) + ((r as u32) << 24)
                == a + b * 0x100 + g * 0x1_0000 + r * 0x100_0000) by (bit_vector);
            assert(a + b * 0x100 + g * 0x1_0000 + r * 0x100_0000 <= u32::MAX) by (bit_vector);
        }
        let color = a as u32 + ((b as u32) << 8) + ((g as u32) << 16) + ((r as u32) << 24);
        Self { color }
    }

    /// The empty voxel, the only deletion mechanism the world offers.
    pub fn clear() -> (v: Voxel)
        ensures
            v.bits() == 0,
            v.is_empty(),
    {
        Self { color: 0 }
    }

    /// The packed value, for storage and serialization.
    pub fn packed(self) -> (c: u32)
        ensures
            c == self.bits(),
    {
        self.color
    }

    /// A voxel from an already packed value.
    pub fn from_packed(c: u32) -> (v: Voxel)
        ensures
            v.bits() == c,
    {
        Self { color: c }
    }
}

impl Default for Voxel {
    /// The default voxel is empty.
    fn default() -> (v: Voxel)
        ensures
            v.is_empty(),
    {
        Self { color: 0 }
    }
}

} // verus!
