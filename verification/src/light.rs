//! Light definitions: directional, point and spot lights.
//!
//! Colors, intensities and directions are held as the IEEE-754 bit patterns
//! of their `f32` values.
use vstd::prelude::*;

verus! {

/// Light source attached to an entity.
#[derive(Clone, Copy, Debug)]
pub struct LightDef {
    /// Type of light source.
    pub light_type: LightType,
    /// Light color (RGBA, linear), as `f32` bits.
    pub color: [u32; 4],
    /// Intensity (lumens for point and spot lights, lux for directional
    /// ones), as `f32` bits.
    pub intensity: u32,
    /// Direction vector for directional and spot lights, as `f32` bits.
    pub direction: Option<[u32; 3]>,
    /// Whether this light casts shadows.
    pub shadows: bool,
}

/// The bits of `1.0f32`.
pub const ONE_F32_BITS: u32 = 0x3F80_0000;

/// The bits of `1000.0f32`.
pub const THOUSAND_F32_BITS: u32 = 0x447A_0000;

impl Default for LightDef {
    /// A white directional light of intensity 1000 that casts shadows.
    fn default() -> (l: Self)
        ensures
            l.light_type == LightType::Directional,
            l.color == [ONE_F32_BITS, ONE_F32_BITS, ONE_F32_BITS, ONE_F32_BITS],
            l.intensity == THOUSAND_F32_BITS,
            l.direction is None,
            l.shadows,
    {
        LightDef {
            light_type: LightType::default(),
            color: default_white(),
            intensity: default_intensity(),
            direction: None,
            shadows: default_true(),
        }
    }
}

/// Opaque white: RGBA all 1.0.
pub fn default_white() -> (c: [u32; 4])
    ensures
        c == [ONE_F32_BITS, ONE_F32_BITS, ONE_F32_BITS, ONE_F32_BITS],
{
    [ONE_F32_BITS, ONE_F32_BITS, ONE_F32_BITS, ONE_F32_BITS]
}

/// The intensity of a light whose definition does not give one: 1000.0.
pub fn default_intensity() -> (i: u32)
    ensures
        i == THOUSAND_F32_BITS,
{
    THOUSAND_F32_BITS
}

/// Light source type.
#[derive(Clone, Copy, PartialEq, Eq, Structural, Debug)]
pub enum LightType {
    Directional,
    Point,
    Spot,
}

impl Default for LightType {
    /// Lights are directional unless said otherwise.
    fn default() -> (r: Self)
        ensures
            r == LightType::Directional,
    {
        LightType::Directional
    }
}

/// Whether a light casts shadows when its definition does not say.
pub fn default_true() -> (b: bool)
    ensures
        b,
{
    true
}

} // verus!
