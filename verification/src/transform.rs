//! World transform resolution: compose each entity's local matrix from
//! position, rotation and scale, and chain it onto the parent's world
//! matrix in one forward pass.
//!
//! Entities are stored depth-first with parents before children, so a
//! single linear pass resolves the whole hierarchy; an entity whose
//! parent index is out of order is handled defensively by using the
//! parent's previously cached matrix.
use vstd::prelude::*;

use crate::fixed::{fx_add, fx_add_spec, fx_mul, fx_mul_spec, fx_sub, fx_sub_spec, SCALE};
use crate::math3d::{mat_mul_entry_spec, Mat4, Quat, Vec3};
use crate::scene::LoadedScene;

verus! {

/// Entry `i` (column-major) of the local transform matrix composed from
/// scale, rotation and translation, rotation applied via the standard
/// quaternion-to-matrix form.
#[verifier::opaque]
pub open spec fn compose_entry_spec(p: Vec3, q: Quat, s: Vec3, i: int) -> int {
    let x2 = fx_add_spec(q.x as int, q.x as int);
    let y2 = fx_add_spec(q.y as int, q.y as int);
    let z2 = fx_add_spec(q.z as int, q.z as int);
    let xx = fx_mul_spec(q.x as int, x2);
    let xy = fx_mul_spec(q.x as int, y2);
    let xz = fx_mul_spec(q.x as int, z2);
    let yy = fx_mul_spec(q.y as int, y2);
    let yz = fx_mul_spec(q.y as int, z2);
    let zz = fx_mul_spec(q.z as int, z2);
    let wx = fx_mul_spec(q.w as int, x2);
    let wy = fx_mul_spec(q.w as int, y2);
    let wz = fx_mul_spec(q.w as int, z2);
    if i == 0 {
        fx_mul_spec(fx_sub_spec(SCALE as int, fx_add_spec(yy, zz)), s.x as int)
    } else if i == 1 {
        fx_mul_spec(fx_add_spec(xy, wz), s.x as int)
    } else if i == 2 {
        fx_mul_spec(fx_sub_spec(xz, wy), s.x as int)
    } else if i == 3 {
        0
    } else if i == 4 {
        fx_mul_spec(fx_sub_spec(xy, wz), s.y as int)
    } else if i == 5 {
        fx_mul_spec(fx_sub_spec(SCALE as int, fx_add_spec(xx, zz)), s.y as int)
    } else if i == 6 {
        fx_mul_spec(fx_add_spec(yz, wx), s.y as int)
    } else if i == 7 {
        0
    } else if i == 8 {
        fx_mul_spec(fx_add_spec(xz, wy), s.z as int)
    } else if i == 9 {
        fx_mul_spec(fx_sub_spec(yz, wx), s.z as int)
    } else if i == 10 {
        fx_mul_spec(fx_sub_spec(SCALE as int, fx_add_spec(xx, yy)), s.z as int)
    } else if i == 11 {
        0
    } else if i == 12 {
        p.x as int
    } else if i == 13 {
        p.y as int
    } else if i == 14 {
        p.z as int
    } else if i == 15 {
        SCALE as int
    } else {
        0
    }
}

/// The local transform matrix as a sequence of 16 entries.
pub open spec fn compose_mat_spec(p: Vec3, q: Quat, s: Vec3) -> Seq<i64> {
    Seq::new(16, |i: int| compose_entry_spec(p, q, s, i) as i64)
}

/// The matrix product as a sequence of 16 entries.
pub open spec fn mat_mul_seq_spec(a: Seq<i64>, b: Seq<i64>) -> Seq<i64> {
    Seq::new(16, |i: int| mat_mul_entry_spec(a, b, i / 4, i % 4) as i64)
}

/// Compose a local transform matrix from position, rotation and scale.
pub fn compose_local_transform(position: &Vec3, rotation: &Quat, scale: &Vec3) -> (r: Mat4)
    ensures
        r.wf(),
        r.m@ == compose_mat_spec(*position, *rotation, *scale),
{
    let x2 = fx_add(rotation.x, rotation.x);
    let y2 = fx_add(rotation.y, rotation.y);
    let z2 = fx_add(rotation.z, rotation.z);
    let xx = fx_mul(rotation.x, x2);
    let xy = fx_mul(rotation.x, y2);
    let xz = fx_mul(rotation.x, z2);
    let yy = fx_mul(rotation.y, y2);
    let yz = fx_mul(rotation.y, z2);
    let zz = fx_mul(rotation.z, z2);
    let wx = fx_mul(rotation.w, x2);
    let wy = fx_mul(rotation.w, y2);
    let wz = fx_mul(rotation.w, z2);
    let mut m: Vec<i64> = Vec::new();
    m.push(fx_mul(fx_sub(SCALE, fx_add(yy, zz)), scale.x));
    m.push(fx_mul(fx_add(xy, wz), scale.x));
    m.push(fx_mul(fx_sub(xz, wy), scale.x));
    m.push(0);
    m.push(fx_mul(fx_sub(xy, wz), scale.y));
    m.push(fx_mul(fx_sub(SCALE, fx_add(xx, zz)), scale.y));
    m.push(fx_mul(fx_add(yz, wx), scale.y));
    m.push(0);
    m.push(fx_mul(fx_add(xz, wy), scale.z));
    m.push(fx_mul(fx_sub(yz, wx), scale.z));
    m.push(fx_mul(fx_sub(SCALE, fx_add(xx, yy)), scale.z));
    m.push(0);
    m.push(position.x);
    m.push(position.y);
    m.push(position.z);
    m.push(SCALE);
    proof {
        reveal(compose_entry_spec);
        assert(m@ =~= compose_mat_spec(*position, *rotation, *scale));
    }
    Mat4 { m }
}

/// The world matrix entity `i` receives in the forward pass: its local
/// matrix, chained onto the world matrix of its parent if it has one.
/// A parent processed earlier in the pass contributes its fresh world
/// matrix; an out-of-order or out-of-range parent index degrades to the
/// cached value or the bare local matrix.
pub open spec fn resolved_world_spec(pre: Seq<crate::scene::Entity>, cur: Seq<
    crate::scene::Entity,
>, i: int) -> Seq<i64> {
    let olde = pre[i];
    let loc = compose_mat_spec(
        olde.transform.position,
        olde.transform.rotation,
        olde.transform.scale,
    );
    match olde.parent_index {
        Some(p) => {
            if (p as int) < pre.len() {
                let pw = if (p as int) < i {
                    cur[p as int].world_transform.m@
                } else {
                    pre[p as int].world_transform.m@
                };
                mat_mul_seq_spec(pw, loc)
            } else {
                loc
            }
        },
        None => loc,
    }
}

/// Compute world transform matrices for all entities, parents first, and
/// clear the dirty flags animation set.
#[verifier::rlimit(100)]
pub fn compute_world_transforms(scene: &mut LoadedScene)
    requires
        old(scene).wf(),
    ensures
        final(scene).wf(),
        final(scene).entities@.len() == old(scene).entities@.len(),
        final(scene).meshes@ == old(scene).meshes@,
        final(scene).materials@ == old(scene).materials@,
        final(scene).textures@ == old(scene).textures@,
        final(scene).animations@ == old(scene).animations@,
        final(scene).skeletons@ == old(scene).skeletons@,
        final(scene).point_lights@ == old(scene).point_lights@,
        final(scene).dir_lights@ == old(scene).dir_lights@,
        final(scene).cameras@ == old(scene).cameras@,
        forall|i: int|
            0 <= i < old(scene).entities@.len() ==> {
                let olde = old(scene).entities@[i];
                let newe = #[trigger] final(scene).entities@[i];
                &&& newe.id == olde.id
                &&& newe.parent_index == olde.parent_index
                &&& newe.mesh_index == olde.mesh_index
                &&& newe.material_index == olde.material_index
                &&& newe.mask == olde.mask
                &&& newe.transform.position == olde.transform.position
                &&& newe.transform.rotation == olde.transform.rotation
                &&& newe.transform.scale == olde.transform.scale
                &&& !newe.transform.dirty
                &&& newe.world_transform.wf()
                &&& newe.world_transform.m@ == resolved_world_spec(
                    old(scene).entities@,
                    final(scene).entities@,
                    i,
                )
            },
{
    let n = scene.entities.len();
    let mut i: usize = 0;
    while i < n
        invariant
            old(scene).wf(),
            n == old(scene).entities@.len(),
            scene.entities@.len() == n,
            i <= n,
            scene.meshes@ == old(scene).meshes@,
            scene.materials@ == old(scene).materials@,
            scene.textures@ == old(scene).textures@,
            scene.animations@ == old(scene).animations@,
            scene.skeletons@ == old(scene).skeletons@,
            scene.point_lights@ == old(scene).point_lights@,
            scene.dir_lights@ == old(scene).dir_lights@,
            scene.cameras@ == old(scene).cameras@,
            forall|j: int| i <= j < n ==> #[trigger] scene.entities@[j] == old(scene).entities@[j],
            forall|j: int|
                0 <= j < i ==> {
                    let olde = old(scene).entities@[j];
                    let newe = #[trigger] scene.entities@[j];
                    &&& newe.id == olde.id
                    &&& newe.parent_index == olde.parent_index
                    &&& newe.mesh_index == olde.mesh_index
                    &&& newe.material_index == olde.material_index
                    &&& newe.mask == olde.mask
                    &&& newe.transform.position == olde.transform.position
                    &&& newe.transform.rotation == olde.transform.rotation
                    &&& newe.transform.scale == olde.transform.scale
                    &&& !newe.transform.dirty
                    &&& newe.world_transform.wf()
                    &&& newe.world_transform.m@ == resolved_world_spec(
                        old(scene).entities@,
                        scene.entities@,
                        j,
                    )
                },
        decreases n - i,
    {
        let ghost pre_loop = scene.entities@;
        let local = compose_local_transform(
            &scene.entities[i].transform.position,
            &scene.entities[i].transform.rotation,
            &scene.entities[i].transform.scale,
        );
        let world = match scene.entities[i].parent_index {
            Some(parent_idx) => {
                if parent_idx < n {
                    let w = scene.entities[parent_idx].world_transform.mul(&local);
                    proof {
                        assert(w.m@ =~= mat_mul_seq_spec(
                            scene.entities@[parent_idx as int].world_transform.m@,
                            local.m@,
                        ));
                    }
                    w
                } else {
                    local
                }
            },
            None => local,
        };
        let ent = &mut scene.entities[i];
        ent.world_transform = world;
        ent.transform.dirty = false;
        proof {
            assert(scene.entities@[i as int].world_transform.m@ == resolved_world_spec(
                old(scene).entities@,
                scene.entities@,
                i as int,
            )) by {
                assert(forall|p: int|
                    0 <= p < i ==> (#[trigger] scene.entities@[p]).world_transform.m@
                        == pre_loop[p].world_transform.m@);
            }
            assert(forall|j: int|
                0 <= j < i ==> resolved_world_spec(old(scene).entities@, scene.entities@, j)
                    == resolved_world_spec(old(scene).entities@, pre_loop, j));
        }
        i = i + 1;
    }
}

/// For a three-level chain (root, child, grandchild) the resolver's
/// contract yields exactly the left-to-right product of the three local
/// matrices: the grandchild's world matrix is `(root * child) * grand`.
pub proof fn lemma_world_chain(
    w0: Seq<i64>,
    w1: Seq<i64>,
    w2: Seq<i64>,
    l0: Seq<i64>,
    l1: Seq<i64>,
    l2: Seq<i64>,
)
    requires
        w0 == l0,
        w1 == mat_mul_seq_spec(w0, l1),
        w2 == mat_mul_seq_spec(w1, l2),
    ensures
        w2 == mat_mul_seq_spec(mat_mul_seq_spec(l0, l1), l2),
{
}

/// Resolving a second time without touching any transform reproduces the
/// same world matrices: on a well-formed scene the resolver is
/// idempotent.
pub proof fn lemma_resolve_idempotent(
    pre: Seq<crate::scene::Entity>,
    a: Seq<crate::scene::Entity>,
    b: Seq<crate::scene::Entity>,
    i: int,
)
    requires
        a.len() == pre.len(),
        b.len() == pre.len(),
        0 <= i < pre.len(),
        forall|j: int|
            0 <= j < pre.len() ==> ((#[trigger] pre[j].parent_index) matches Some(p) ==> (p as int)
                < j),
        // `a` is the result of resolving `pre`, `b` of resolving `a`.
        forall|j: int|
            0 <= j < pre.len() ==> {
                &&& (#[trigger] a[j]).parent_index == pre[j].parent_index
                &&& a[j].transform.position == pre[j].transform.position
                &&& a[j].transform.rotation == pre[j].transform.rotation
                &&& a[j].transform.scale == pre[j].transform.scale
                &&& a[j].world_transform.m@ == resolved_world_spec(pre, a, j)
            },
        forall|j: int|
            0 <= j < pre.len() ==> {
                &&& (#[trigger] b[j]).parent_index == a[j].parent_index
                &&& b[j].transform.position == a[j].transform.position
                &&& b[j].transform.rotation == a[j].transform.rotation
                &&& b[j].transform.scale == a[j].transform.scale
                &&& b[j].world_transform.m@ == resolved_world_spec(a, b, j)
            },
    ensures
        b[i].world_transform.m@ == a[i].world_transform.m@,
    decreases i,
{
    match pre[i].parent_index {
        Some(p) => {
            lemma_resolve_idempotent(pre, a, b, p as int);
        },
        None => {
        },
    }
}

} // verus!
