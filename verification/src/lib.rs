//! Runtime simulation core of a 3D scene player.
//!
//! Given a parsed scene (entity hierarchy, animation clips, skeletons,
//! particle emitter configs), the library advances simulated time and
//! produces render-ready state for one frame: world-space transforms,
//! skinning matrices and particle billboard vertex buffers.
//!
//! All scalar quantities are carried in signed 16.16 fixed-point form
//! (an `i64` holding `value * 65536`), so that every arithmetic step has
//! an exact, machine-checkable meaning. Saturating operations are used
//! throughout: a frame tick never panics, whatever the input.
use vstd::prelude::*;

use crate::animation::run_states_spec;
use crate::scene::LoadedScene;

pub mod animation;
pub mod cli;
pub mod fixed;
pub mod handle;
pub mod math;
pub mod math3d;
pub mod particles;
pub mod project;
pub mod scene;
pub mod skinning;
pub mod state;
pub mod transform;

verus! {

/// Advance the whole scene by one frame: sample animations, resolve
/// world transforms parents-first, then refill every skeleton's bone
/// matrices. The three stages run in their required order; their
/// combined effect is pinned by the stage specs below.
pub fn tick(scene: &mut LoadedScene, dt: i64)
    requires
        old(scene).wf(),
    ensures
        final(scene).wf(),
        final(scene).entities@.len() == old(scene).entities@.len(),
        final(scene).animations@ == run_states_spec(
            old(scene).entities@,
            old(scene).animations@,
            dt,
            old(scene).animations@.len() as int,
        ).1,
        forall|i: int|
            0 <= i < final(scene).entities@.len() ==> {
                let mid = run_states_spec(
                    old(scene).entities@,
                    old(scene).animations@,
                    dt,
                    old(scene).animations@.len() as int,
                ).0;
                let e = #[trigger] final(scene).entities@[i];
                &&& e.transform.position == mid[i].transform.position
                &&& e.transform.rotation == mid[i].transform.rotation
                &&& e.transform.scale == mid[i].transform.scale
                &&& !e.transform.dirty
                &&& e.world_transform.m@ == crate::transform::resolved_world_spec(
                    mid,
                    final(scene).entities@,
                    i,
                )
            },
        final(scene).skeletons@.len() == old(scene).skeletons@.len(),
        forall|s: int|
            0 <= s < old(scene).skeletons@.len() ==> {
                let osk = old(scene).skeletons@[s];
                let nsk = #[trigger] final(scene).skeletons@[s];
                &&& nsk.entity_index == osk.entity_index
                &&& nsk.bone_entity_indices@ == osk.bone_entity_indices@
                &&& nsk.inverse_bind_matrices@ == osk.inverse_bind_matrices@
                &&& if (osk.entity_index as int) < final(scene).entities@.len() {
                    let inv_world = crate::math3d::mat_inverse_affine_spec(
                        final(scene).entities@[osk.entity_index as int].world_transform.m@,
                    );
                    &&& nsk.bone_matrices@.len() == crate::skinning::bone_count_spec(osk)
                    &&& forall|b: int|
                        0 <= b < nsk.bone_matrices@.len() ==> (
                        #[trigger] nsk.bone_matrices@[b]).m@ == crate::skinning::bone_matrix_spec(
                            final(scene).entities@,
                            osk,
                            inv_world,
                            b,
                        )
                } else {
                    nsk.bone_matrices@ == osk.bone_matrices@
                }
            },
{
    crate::animation::update_animations(scene, dt);
    crate::transform::compute_world_transforms(scene);
    crate::skinning::update_skinned_meshes(scene);
}

} // verus!
