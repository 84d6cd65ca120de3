//! The loaded scene: entities, meshes, materials, animation and skeleton
//! state, lights and cameras, as plain data the per-frame systems walk.
//!
//! Scalars are 16.16 fixed point. Parsing a binary scene bundle into this
//! form is the asset pipeline's job, not this library's.
use vstd::prelude::*;

use crate::math3d::{Mat4, Quat, Vec3};

verus! {

/// Capability bitmask of an entity.
pub type ComponentMask = u32;

/// Which transform property an animation channel drives.
#[derive(Debug, Clone, Copy, PartialEq, Eq, Structural)]
pub enum TargetProperty {
    Position,
    Rotation,
    Scale,
}

/// How samples between two keyframes are combined. Cubic-spline data is
/// deliberately evaluated with linear interpolation.
#[derive(Debug, Clone, Copy, PartialEq, Eq, Structural)]
pub enum InterpolationMode {
    Step,
    Linear,
    CubicSpline,
}

/// Runtime transform state, mutated by animation.
#[derive(Debug, Clone, Copy, PartialEq, Eq, Structural)]
pub struct TransformState {
    pub position: Vec3,
    pub rotation: Quat,
    pub scale: Vec3,
    pub dirty: bool,
}

/// A loaded entity with component data.
#[derive(Debug, Clone)]
pub struct Entity {
    pub id: u64,
    pub parent_index: Option<usize>,
    pub transform: TransformState,
    pub world_transform: Mat4,
    pub mesh_index: Option<usize>,
    pub material_index: Option<usize>,
    pub mask: ComponentMask,
}

impl Entity {
    /// A parent always precedes its children in the entity array, and the
    /// cached world matrix is well-formed.
    pub open spec fn wf(&self, own_index: int) -> bool {
        &&& (self.parent_index matches Some(p) ==> (p as int) < own_index)
        &&& self.world_transform.wf()
    }
}

/// Loaded mesh data, ready for upload.
#[derive(Debug, Clone)]
pub struct MeshData {
    pub positions: Vec<i64>,
    pub normals: Vec<i64>,
    pub uvs: Vec<i64>,
    pub indices: Vec<u32>,
    pub bone_weights: Option<Vec<i64>>,
    pub bone_indices: Option<Vec<u16>>,
}

/// Loaded material data.
#[derive(Debug, Clone)]
pub struct MaterialInfo {
    pub color: [i64; 4],
    pub metallic: i64,
    pub roughness: i64,
    pub opacity: i64,
    pub alpha_cutoff: i64,
    pub emissive: [i64; 3],
    pub clearcoat: i64,
    pub subsurface: i64,
    pub texture_indices: [i32; 7],
}

/// Loaded texture data.
#[derive(Debug, Clone)]
pub struct TextureData {
    pub width: u32,
    pub height: u32,
    pub channels: u32,
    pub compression: u32,
    pub data: Vec<u8>,
}

/// One animated property of one entity: a keyframe timeline and the flat
/// value buffer it indexes (3 scalars per key for vectors, 4 for
/// rotations in w-x-y-z order).
#[derive(Debug, Clone)]
pub struct AnimationChannel {
    pub target_entity_index: usize,
    pub target_property: TargetProperty,
    pub interpolation: InterpolationMode,
    pub times: Vec<i64>,
    pub values: Vec<i64>,
}

/// Animation clip for runtime playback.
#[derive(Debug, Clone)]
pub struct AnimationClip {
    pub name: String,
    pub duration: i64,
    pub channels: Vec<AnimationChannel>,
}

/// Animation playback state for an entity.
#[derive(Debug, Clone)]
pub struct AnimationState {
    pub clips: Vec<AnimationClip>,
    pub active_clip: i32,
    pub current_time: i64,
    pub playing: bool,
    pub looping: bool,
    pub speed: i64,
}

/// Skeleton runtime data: bone entity indices with one inverse-bind and
/// one output matrix per bone, matched by position.
#[derive(Debug, Clone)]
pub struct SkeletonData {
    /// Index of the entity this skeleton is attached to.
    pub entity_index: usize,
    /// Indices into the entity array for each bone.
    pub bone_entity_indices: Vec<usize>,
    /// Inverse bind matrices, one per bone.
    pub inverse_bind_matrices: Vec<Mat4>,
    /// Computed bone matrices, refilled every frame.
    pub bone_matrices: Vec<Mat4>,
}

impl SkeletonData {
    pub open spec fn wf(&self) -> bool {
        &&& forall|i: int|
            0 <= i < self.inverse_bind_matrices@.len() ==> (
            #[trigger] self.inverse_bind_matrices@[i]).wf()
        &&& forall|i: int|
            0 <= i < self.bone_matrices@.len() ==> (#[trigger] self.bone_matrices@[i]).wf()
    }
}

/// Point light data.
#[derive(Debug, Clone)]
pub struct PointLight {
    pub position: [i64; 3],
    pub color: [i64; 3],
    pub intensity: i64,
    pub range: i64,
}

/// Directional light data.
#[derive(Debug, Clone)]
pub struct DirLight {
    pub direction: [i64; 3],
    pub color: [i64; 3],
    pub intensity: i64,
}

/// Camera data.
#[derive(Debug, Clone)]
pub struct Camera {
    pub fov: i64,
    pub near: i64,
    pub far: i64,
    pub aspect: i64,
}

/// Complete loaded scene.
pub struct LoadedScene {
    pub entities: Vec<Entity>,
    pub meshes: Vec<MeshData>,
    pub materials: Vec<MaterialInfo>,
    pub textures: Vec<TextureData>,
    pub animations: Vec<AnimationState>,
    pub skeletons: Vec<SkeletonData>,
    pub point_lights: Vec<PointLight>,
    pub dir_lights: Vec<DirLight>,
    pub cameras: Vec<Camera>,
}

impl LoadedScene {
    /// Entities are in parent-before-child order and all cached matrices
    /// are well-formed.
    pub open spec fn wf(&self) -> bool {
        &&& forall|i: int| 0 <= i < self.entities@.len() ==> (#[trigger] self.entities@[i]).wf(i)
        &&& forall|i: int| 0 <= i < self.skeletons@.len() ==> (#[trigger] self.skeletons@[i]).wf()
    }

    pub fn num_entities(&self) -> (r: usize)
        ensures
            r == self.entities@.len(),
    {
        self.entities.len()
    }

    pub fn num_meshes(&self) -> (r: usize)
        ensures
            r == self.meshes@.len(),
    {
        self.meshes.len()
    }

    pub fn num_textures(&self) -> (r: usize)
        ensures
            r == self.textures@.len(),
    {
        self.textures.len()
    }
}

} // verus!
