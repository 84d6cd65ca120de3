//! Skinning evaluation: combine world transforms and inverse-bind
//! matrices into the bone matrices a GPU skinning shader consumes.
//!
//! Each bone matrix expresses the bone relative to the mesh's own space:
//! `inverse(mesh_world) * bone_world * inverse_bind`. Invalid indices
//! degrade to identity matrices rather than failing the frame.
use vstd::prelude::*;

use crate::math3d::{mat_identity_spec, mat_inverse_affine_spec, Mat4};
use crate::scene::{Entity, LoadedScene, SkeletonData};
use crate::transform::mat_mul_seq_spec;

verus! {

/// Hard cap on bones evaluated per skeleton.
pub const MAX_BONES: usize = 128;

/// The identity matrix as stored entries.
pub open spec fn identity_seq_spec() -> Seq<i64> {
    Seq::new(16, |i: int| mat_identity_spec()[i] as i64)
}

/// The matrix computed for bone `i` of a skeleton whose owning mesh has
/// the given inverted world matrix: identity when the bone entity index
/// or the inverse-bind entry is missing, else
/// `inv_mesh_world * bone_world * inverse_bind`.
pub open spec fn bone_matrix_spec(
    entities: Seq<Entity>,
    sk: SkeletonData,
    inv_mesh_world: Seq<i64>,
    i: int,
) -> Seq<i64> {
    let b = sk.bone_entity_indices@[i] as int;
    if b >= entities.len() || i >= sk.inverse_bind_matrices@.len() {
        identity_seq_spec()
    } else {
        mat_mul_seq_spec(
            mat_mul_seq_spec(inv_mesh_world, entities[b].world_transform.m@),
            sk.inverse_bind_matrices@[i].m@,
        )
    }
}

/// Number of bones a skeleton is evaluated with: its bone list length,
/// capped at `MAX_BONES`.
pub open spec fn bone_count_spec(sk: SkeletonData) -> int {
    if sk.bone_entity_indices@.len() <= MAX_BONES as int {
        sk.bone_entity_indices@.len() as int
    } else {
        MAX_BONES as int
    }
}

/// Update bone matrices for all skeletons from the current world
/// transforms; skeletons whose owning entity index is out of range are
/// left untouched.
#[verifier::rlimit(100)]
pub fn update_skinned_meshes(scene: &mut LoadedScene)
    requires
        old(scene).wf(),
    ensures
        final(scene).wf(),
        final(scene).entities@ == old(scene).entities@,
        final(scene).meshes@ == old(scene).meshes@,
        final(scene).materials@ == old(scene).materials@,
        final(scene).textures@ == old(scene).textures@,
        final(scene).animations@ == old(scene).animations@,
        final(scene).point_lights@ == old(scene).point_lights@,
        final(scene).dir_lights@ == old(scene).dir_lights@,
        final(scene).cameras@ == old(scene).cameras@,
        final(scene).skeletons@.len() == old(scene).skeletons@.len(),
        forall|s: int|
            0 <= s < old(scene).skeletons@.len() ==> {
                let osk = old(scene).skeletons@[s];
                let nsk = #[trigger] final(scene).skeletons@[s];
                &&& nsk.entity_index == osk.entity_index
                &&& nsk.bone_entity_indices@ == osk.bone_entity_indices@
                &&& nsk.inverse_bind_matrices@ == osk.inverse_bind_matrices@
                &&& if (osk.entity_index as int) < old(scene).entities@.len() {
                    let inv_world = mat_inverse_affine_spec(
                        old(scene).entities@[osk.entity_index as int].world_transform.m@,
                    );
                    &&& nsk.bone_matrices@.len() == bone_count_spec(osk)
                    &&& forall|i: int|
                        0 <= i < nsk.bone_matrices@.len() ==> (
                        #[trigger] nsk.bone_matrices@[i]).m@ == bone_matrix_spec(
                            old(scene).entities@,
                            osk,
                            inv_world,
                            i,
                        )
                } else {
                    nsk.bone_matrices@ == osk.bone_matrices@
                }
            },
{
    let num_skel = scene.skeletons.len();
    let mut skel_idx: usize = 0;
    while skel_idx < num_skel
        invariant
            old(scene).wf(),
            scene.wf(),
            num_skel == old(scene).skeletons@.len(),
            scene.skeletons@.len() == num_skel,
            skel_idx <= num_skel,
            scene.entities@ == old(scene).entities@,
            scene.meshes@ == old(scene).meshes@,
            scene.materials@ == old(scene).materials@,
            scene.textures@ == old(scene).textures@,
            scene.animations@ == old(scene).animations@,
            scene.point_lights@ == old(scene).point_lights@,
            scene.dir_lights@ == old(scene).dir_lights@,
            scene.cameras@ == old(scene).cameras@,
            forall|s: int|
                skel_idx <= s < num_skel ==> #[trigger] scene.skeletons@[s] == old(
                    scene,
                ).skeletons@[s],
            forall|s: int|
                0 <= s < skel_idx ==> {
                    let osk = old(scene).skeletons@[s];
                    let nsk = #[trigger] scene.skeletons@[s];
                    &&& nsk.entity_index == osk.entity_index
                    &&& nsk.bone_entity_indices@ == osk.bone_entity_indices@
                    &&& nsk.inverse_bind_matrices@ == osk.inverse_bind_matrices@
                    &&& if (osk.entity_index as int) < old(scene).entities@.len() {
                        let inv_world = mat_inverse_affine_spec(
                            old(scene).entities@[osk.entity_index as int].world_transform.m@,
                        );
                        &&& nsk.bone_matrices@.len() == bone_count_spec(osk)
                        &&& forall|i: int|
                            0 <= i < nsk.bone_matrices@.len() ==> (
                            #[trigger] nsk.bone_matrices@[i]).m@ == bone_matrix_spec(
                                old(scene).entities@,
                                osk,
                                inv_world,
                                i,
                            )
                    } else {
                        nsk.bone_matrices@ == osk.bone_matrices@
                    }
                },
        decreases num_skel - skel_idx,
    {
        let entity_idx = scene.skeletons[skel_idx].entity_index;
        if entity_idx < scene.entities.len() {
            let inv_mesh_world = scene.entities[entity_idx].world_transform.inverse_affine();
            let total_bones = scene.skeletons[skel_idx].bone_entity_indices.len();
            let bone_count = if total_bones < MAX_BONES {
                total_bones
            } else {
                MAX_BONES
            };
            let mut matrices: Vec<Mat4> = Vec::new();
            let mut i: usize = 0;
            while i < bone_count
                invariant
                    old(scene).wf(),
                    scene.wf(),
                    skel_idx < scene.skeletons@.len(),
                    scene.entities@ == old(scene).entities@,
                    entity_idx < scene.entities@.len(),
                    inv_mesh_world.wf(),
                    inv_mesh_world.m@ == mat_inverse_affine_spec(
                        scene.entities@[entity_idx as int].world_transform.m@,
                    ),
                    bone_count <= scene.skeletons@[skel_idx as int].bone_entity_indices@.len(),
                    i <= bone_count,
                    matrices@.len() == i,
                    forall|j: int|
                        0 <= j < i ==> (#[trigger] matrices@[j]).wf() && matrices@[j].m@
                            == bone_matrix_spec(
                            scene.entities@,
                            scene.skeletons@[skel_idx as int],
                            inv_mesh_world.m@,
                            j,
                        ),
                decreases bone_count - i,
            {
                let bone_entity_idx = scene.skeletons[skel_idx].bone_entity_indices[i];
                let have_bind = i < scene.skeletons[skel_idx].inverse_bind_matrices.len();
                if bone_entity_idx >= scene.entities.len() || !have_bind {
                    let ident = Mat4::identity();
                    proof {
                        assert(ident.m@ =~= identity_seq_spec());
                    }
                    matrices.push(ident);
                } else {
                    let bone_world = &scene.entities[bone_entity_idx].world_transform;
                    let step = inv_mesh_world.mul(bone_world);
                    proof {
                        assert(step.m@ =~= mat_mul_seq_spec(inv_mesh_world.m@, bone_world.m@));
                    }
                    let bm = step.mul(&scene.skeletons[skel_idx].inverse_bind_matrices[i]);
                    proof {
                        assert(bm.m@ =~= mat_mul_seq_spec(
                            step.m@,
                            scene.skeletons@[skel_idx as int].inverse_bind_matrices@[i as int].m@,
                        ));
                    }
                    matrices.push(bm);
                }
                i = i + 1;
            }
            let sk = &mut scene.skeletons[skel_idx];
            sk.bone_matrices = matrices;
        }
        skel_idx = skel_idx + 1;
    }
}

} // verus!
