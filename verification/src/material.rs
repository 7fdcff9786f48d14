//! PBR material definition.
//!
//! Colors and factors are held as the IEEE-754 bit patterns of their `f32`
//! values.
use vstd::prelude::*;

verus! {

/// PBR material properties.
#[derive(Clone, Copy, Debug)]
pub struct MaterialDef {
    /// Base color (RGBA, linear), as `f32` bits.
    pub color: [u32; 4],
    /// Metallic factor (0.0 = dielectric, 1.0 = metal), as `f32` bits.
    pub metallic: u32,
    /// Roughness factor (0.0 = mirror, 1.0 = matte), as `f32` bits.
    pub roughness: u32,
    /// Emissive color (RGBA, linear), as `f32` bits; non-zero glows.
    pub emissive: [u32; 4],
}

/// The bits of `0.8f32`.
pub const POINT_EIGHT_F32_BITS: u32 = 0x3F4C_CCCD;

/// The bits of `0.5f32`.
pub const HALF_F32_BITS: u32 = 0x3F00_0000;

/// The bits of `1.0f32`.
pub const ONE_F32_BITS: u32 = 0x3F80_0000;

/// The default material: light grey, opaque, not metallic, half rough, not
/// emissive.
pub open spec fn default_material() -> MaterialDef {
    MaterialDef {
        color: [POINT_EIGHT_F32_BITS, POINT_EIGHT_F32_BITS, POINT_EIGHT_F32_BITS, ONE_F32_BITS],
        metallic: 0,
        roughness: HALF_F32_BITS,
        emissive: [0u32, 0u32, 0u32, 0u32],
    }
}

impl Default for MaterialDef {
    /// Light grey, opaque, not metallic, half rough, not emissive.
    fn default() -> (m: Self)
        ensures
            m == default_material(),
    {
        MaterialDef { color: default_color(), metallic: 0, roughness: default_roughness(), emissive: [0, 0, 0, 0] }
    }
}

/// The color of a material whose definition does not give one: RGBA
/// (0.8, 0.8, 0.8, 1.0).
pub fn default_color() -> (c: [u32; 4])
    ensures
        c == [POINT_EIGHT_F32_BITS, POINT_EIGHT_F32_BITS, POINT_EIGHT_F32_BITS, ONE_F32_BITS],
{
    [POINT_EIGHT_F32_BITS, POINT_EIGHT_F32_BITS, POINT_EIGHT_F32_BITS, ONE_F32_BITS]
}

/// The roughness of a material whose definition does not give one: 0.5.
pub fn default_roughness() -> (r: u32)
    ensures
        r == HALF_F32_BITS,
{
    HALF_F32_BITS
}

} // verus!
