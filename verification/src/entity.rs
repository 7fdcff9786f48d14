//! Entity identity and the plain-value parts of entities, environment and
//! camera that the world logic carries.
//!
//! Real-valued quantities (positions, colours, intensities) are held as the
//! IEEE-754 bit patterns of their `f32` values: the logic here only carries
//! them, and a bit pattern stands for exactly one `f32`.
use vstd::prelude::*;

use crate::behaviors::BehaviorKind;
use crate::light::LightDef;
use crate::material::{default_material, MaterialDef};

verus! {

/// Stable identity of an entity in a world.
#[derive(Clone, Copy, PartialEq, Eq, Structural, Debug)]
pub struct EntityId(pub u64);

/// Where an entity stands: position, rotation in degrees (XYZ Euler),
/// scale, as `f32` bits, and whether it is shown.
#[derive(Clone, Copy, Debug)]
pub struct WorldTransform {
    pub position: [u32; 3],
    pub rotation_degrees: [u32; 3],
    pub scale: [u32; 3],
    pub visible: bool,
}

/// The bits of `1.0f32`.
pub const UNIT_SCALE_BITS: u32 = 0x3F80_0000;

impl WorldTransform {
    /// The identity transform: at the origin, unrotated, unit scale, shown.
    pub fn identity() -> (t: WorldTransform)
        ensures
            t == (WorldTransform {
                position: [0u32, 0u32, 0u32],
                rotation_degrees: [0u32, 0u32, 0u32],
                scale: [UNIT_SCALE_BITS, UNIT_SCALE_BITS, UNIT_SCALE_BITS],
                visible: true,
            }),
    {
        WorldTransform {
            position: [0, 0, 0],
            rotation_degrees: [0, 0, 0],
            scale: [UNIT_SCALE_BITS, UNIT_SCALE_BITS, UNIT_SCALE_BITS],
            visible: true,
        }
    }
}

/// The kind of a sound attached to an entity.
#[derive(Clone, Copy, PartialEq, Eq, Structural, Debug)]
pub enum AudioKind {
    /// A background layer, heard everywhere when it has no radius.
    Ambient,
    /// A sound effect placed in the world.
    Sfx,
}

/// A sound attached to an entity: its kind, its volume (as `f32` bits) and
/// the radius it is heard within (as `f32` bits), if it has one.
#[derive(Clone, Copy, Debug)]
pub struct AudioDef {
    pub kind: AudioKind,
    pub volume: u32,
    pub radius: Option<u32>,
}

/// The part of an entity that the world logic reads.
pub struct WorldEntity {
    /// Stable identity.
    pub id: EntityId,
    /// Human-readable name.
    pub name: String,
    /// Where the entity stands.
    pub transform: WorldTransform,
    /// Triangle estimate of the entity's parametric shape, if it has one.
    pub shape_triangles: Option<usize>,
    /// Surface material, if the entity has one.
    pub material: Option<MaterialDef>,
    /// Light source, if the entity has one.
    pub light: Option<LightDef>,
    /// Sound, if the entity has one.
    pub audio: Option<AudioDef>,
    /// The kinds of the behaviors attached to the entity, in order.
    pub behaviors: Vec<BehaviorKind>,
    /// The entity this one is attached to, if any.
    pub parent: Option<EntityId>,
}

/// An entity as a plain value.
pub ghost struct EntityView {
    pub id: EntityId,
    pub name: Seq<char>,
    pub transform: WorldTransform,
    pub shape_triangles: Option<usize>,
    pub material: Option<MaterialDef>,
    pub light: Option<LightDef>,
    pub audio: Option<AudioDef>,
    pub behaviors: Seq<BehaviorKind>,
    pub parent: Option<EntityId>,
}

impl View for WorldEntity {
    type V = EntityView;

    open spec fn view(&self) -> EntityView {
        EntityView {
            id: self.id,
            name: self.name@,
            transform: self.transform,
            shape_triangles: self.shape_triangles,
            material: self.material,
            light: self.light,
            audio: self.audio,
            behaviors: self.behaviors@,
            parent: self.parent,
        }
    }
}

/// The entity that `WorldEntity::new(id, name)` makes, as a plain value.
pub open spec fn fresh_entity(id: u64, name: Seq<char>) -> EntityView {
    EntityView {
        id: EntityId(id),
        name,
        transform: WorldTransform {
            position: [0u32, 0u32, 0u32],
            rotation_degrees: [0u32, 0u32, 0u32],
            scale: [UNIT_SCALE_BITS, UNIT_SCALE_BITS, UNIT_SCALE_BITS],
            visible: true,
        },
        shape_triangles: None,
        material: None,
        light: None,
        audio: None,
        behaviors: Seq::empty(),
        parent: None,
    }
}

impl WorldEntity {
    /// A new entity with the given ID and name, the identity transform, and
    /// no shape, material, light, sound, behaviors or parent.
    pub fn new(id: u64, name: &str) -> (e: WorldEntity)
        ensures
            e@ == fresh_entity(id, name@),
    {
        let e = WorldEntity {
            id: EntityId(id),
            name: name.to_string(),
            transform: WorldTransform::identity(),
            shape_triangles: None,
            material: None,
            light: None,
            audio: None,
            behaviors: Vec::new(),
            parent: None,
        };
        assert(e@ == fresh_entity(id, name@));
        e
    }

    /// The same entity with a shape whose triangle estimate is `triangles`.
    pub fn with_shape_triangles(self, triangles: usize) -> (e: WorldEntity)
        ensures
            e == (WorldEntity { shape_triangles: Some(triangles), ..self }),
    {
        WorldEntity { shape_triangles: Some(triangles), ..self }
    }

    /// The same entity attached to the entity `parent`.
    pub fn with_parent(self, parent: EntityId) -> (e: WorldEntity)
        ensures
            e == (WorldEntity { parent: Some(parent), ..self }),
    {
        WorldEntity { parent: Some(parent), ..self }
    }

    /// The same entity with the material `material`.
    pub fn with_material(self, material: MaterialDef) -> (e: WorldEntity)
        ensures
            e == (WorldEntity { material: Some(material), ..self }),
    {
        WorldEntity { material: Some(material), ..self }
    }

    /// The same entity with the light `light`.
    pub fn with_light(self, light: LightDef) -> (e: WorldEntity)
        ensures
            e == (WorldEntity { light: Some(light), ..self }),
    {
        WorldEntity { light: Some(light), ..self }
    }

    /// The same entity with the sound `audio`.
    pub fn with_audio(self, audio: AudioDef) -> (e: WorldEntity)
        ensures
            e == (WorldEntity { audio: Some(audio), ..self }),
    {
        WorldEntity { audio: Some(audio), ..self }
    }

    /// The same entity with one more behavior of kind `kind`.
    pub fn with_behavior(self, kind: BehaviorKind) -> (e: WorldEntity)
        ensures
            e@ == (EntityView { behaviors: self@.behaviors.push(kind), ..self@ }),
    {
        let mut e = self;
        e.behaviors.push(kind);
        e
    }
}

impl Clone for WorldEntity {
    fn clone(&self) -> (r: Self)
        ensures
            r@ == self@,
    {
        let mut behaviors: Vec<BehaviorKind> = Vec::new();
        let mut i: usize = 0;
        while i < self.behaviors.len()
            invariant
                i <= self.behaviors@.len(),
                behaviors@ == self.behaviors@.take(i as int),
            decreases self.behaviors@.len() - i,
        {
            behaviors.push(self.behaviors[i]);
            assert(behaviors@ =~= self.behaviors@.take(i + 1));
            i += 1;
        }
        assert(behaviors@ =~= self.behaviors@);
        WorldEntity {
            id: self.id,
            name: self.name.clone(),
            transform: self.transform,
            shape_triangles: self.shape_triangles,
            material: self.material,
            light: self.light,
            audio: self.audio,
            behaviors,
            parent: self.parent,
        }
    }
}

/// Changes to apply to an entity; `None` leaves a property as it is.
#[derive(Clone, Copy, Debug)]
pub struct EntityPatch {
    pub position: Option<[u32; 3]>,
    pub rotation_degrees: Option<[u32; 3]>,
    pub scale: Option<[u32; 3]>,
    pub visible: Option<bool>,
    pub color: Option<[u32; 4]>,
    pub metallic: Option<u32>,
    pub roughness: Option<u32>,
    pub emissive: Option<[u32; 4]>,
}

/// The value an optional change gives: the new value where there is one.
pub open spec fn changed<T>(new: Option<T>, old: T) -> T {
    match new {
        Some(v) => v,
        None => old,
    }
}

/// The material after a patch: untouched when the patch names no material
/// property; otherwise the entity's material (or the default one) with the
/// named properties replaced.
pub open spec fn patched_material(p: EntityPatch, m: Option<MaterialDef>) -> Option<MaterialDef> {
    if p.color is None && p.metallic is None && p.roughness is None && p.emissive is None {
        m
    } else {
        let base = match m {
            Some(x) => x,
            None => default_material(),
        };
        Some(
            MaterialDef {
                color: changed(p.color, base.color),
                metallic: changed(p.metallic, base.metallic),
                roughness: changed(p.roughness, base.roughness),
                emissive: changed(p.emissive, base.emissive),
            },
        )
    }
}

/// An entity after a patch: each property the patch names replaces the
/// entity's; identity, name, shape, light, sound, behaviors and parent stay.
pub open spec fn patched(p: EntityPatch, e: EntityView) -> EntityView {
    EntityView {
        transform: WorldTransform {
            position: changed(p.position, e.transform.position),
            rotation_degrees: changed(p.rotation_degrees, e.transform.rotation_degrees),
            scale: changed(p.scale, e.transform.scale),
            visible: changed(p.visible, e.transform.visible),
        },
        material: patched_material(p, e.material),
        ..e
    }
}

impl EntityPatch {
    /// Apply the patch to an entity: each property the patch names replaces
    /// the entity's; identity, name, shape and parent stay.
    pub fn apply(&self, we: &mut WorldEntity)
        ensures
            final(we)@ == patched(*self, old(we)@),
            final(we).name == old(we).name,
    {
        if let Some(pos) = self.position {
            we.transform.position = pos;
        }
        if let Some(rot) = self.rotation_degrees {
            we.transform.rotation_degrees = rot;
        }
        if let Some(scale) = self.scale {
            we.transform.scale = scale;
        }
        if let Some(visible) = self.visible {
            we.transform.visible = visible;
        }
        if self.color.is_some() || self.metallic.is_some() || self.roughness.is_some() || self.emissive.is_some() {
            let mut mat = match we.material {
                Some(m) => m,
                None => MaterialDef::default(),
            };
            if let Some(color) = self.color {
                mat.color = color;
            }
            if let Some(metallic) = self.metallic {
                mat.metallic = metallic;
            }
            if let Some(roughness) = self.roughness {
                mat.roughness = roughness;
            }
            if let Some(emissive) = self.emissive {
                mat.emissive = emissive;
            }
            we.material = Some(mat);
        }
    }
}

/// Environment settings.
pub struct EnvironmentDef {
    pub background_color: Option<[u32; 4]>,
    pub ambient_intensity: Option<u32>,
    pub ambient_color: Option<[u32; 4]>,
    pub fog_density: Option<u32>,
    pub fog_color: Option<[u32; 4]>,
}

/// Camera definition.
pub struct CameraDef {
    /// Camera position [x, y, z], as `f32` bits.
    pub position: [u32; 3],
    /// Camera look-at target [x, y, z], as `f32` bits.
    pub look_at: [u32; 3],
    /// Vertical field of view in degrees, as `f32` bits.
    pub fov_degrees: u32,
}

/// The bits of `5.0f32`.
pub const FIVE_F32_BITS: u32 = 0x40A0_0000;

/// The bits of `45.0f32`.
pub const FORTY_FIVE_F32_BITS: u32 = 0x4234_0000;

impl Default for CameraDef {
    /// At (5, 5, 5), looking at the origin, with a 45 degree field of view.
    fn default() -> (c: Self)
        ensures
            c.position == default_camera_position(),
            c.look_at == [0u32, 0u32, 0u32],
            c.fov_degrees == FORTY_FIVE_F32_BITS,
    {
        CameraDef { position: default_camera_pos(), look_at: [0, 0, 0], fov_degrees: default_fov() }
    }
}

/// The camera position that a definition without one gets: (5, 5, 5).
pub open spec fn default_camera_position() -> [u32; 3] {
    [FIVE_F32_BITS, FIVE_F32_BITS, FIVE_F32_BITS]
}

/// The camera position that a definition without one gets: (5, 5, 5).
pub fn default_camera_pos() -> (p: [u32; 3])
    ensures
        p == default_camera_position(),
{
    [FIVE_F32_BITS, FIVE_F32_BITS, FIVE_F32_BITS]
}

/// The field of view that a definition without one gets: 45 degrees.
pub fn default_fov() -> (f: u32)
    ensures
        f == FORTY_FIVE_F32_BITS,
{
    FORTY_FIVE_F32_BITS
}

} // verus!
