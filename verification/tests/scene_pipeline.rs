use openreality::fixed::{fx_add, fx_div, fx_mul, fx_sub, SCALE};
use openreality::math3d::{fx_sqrt, Mat4, Quat, Vec3};
use openreality::project::{classify_project_dir, ProjectKind};
use openreality::scene::{
    AnimationChannel, AnimationClip, AnimationState, Entity, InterpolationMode, LoadedScene,
    SkeletonData, TargetProperty, TransformState,
};
use openreality::tick;
use openreality::transform::{compose_local_transform, compute_world_transforms};
use openreality::skinning::update_skinned_meshes;

const S: i64 = 65536;

fn fx(v: f64) -> i64 {
    (v * 65536.0).round() as i64
}

fn entity_at(parent: Option<usize>, pos: Vec3) -> Entity {
    Entity {
        id: 0,
        parent_index: parent,
        transform: TransformState {
            position: pos,
            rotation: Quat { x: 0, y: 0, z: 0, w: S },
            scale: Vec3 { x: S, y: S, z: S },
            dirty: true,
        },
        world_transform: Mat4::identity(),
        mesh_index: None,
        material_index: None,
        mask: 0,
    }
}

fn scene_of(entities: Vec<Entity>) -> LoadedScene {
    LoadedScene {
        entities,
        meshes: vec![],
        materials: vec![],
        textures: vec![],
        animations: vec![],
        skeletons: vec![],
        point_lights: vec![],
        dir_lights: vec![],
        cameras: vec![],
    }
}

#[test]
fn test_fixed_point_ops_exact() {
    assert_eq!(fx_add(fx(1.5), fx(2.25)), fx(3.75));
    assert_eq!(fx_sub(fx(1.0), fx(3.0)), fx(-2.0));
    assert_eq!(fx_mul(fx(1.5), fx(2.0)), fx(3.0));
    assert_eq!(fx_div(fx(3.0), fx(2.0)), fx(1.5));
    assert_eq!(fx_sqrt(fx(4.0)), fx(2.0));
    assert_eq!(SCALE, 65536);
}

#[test]
fn test_fixed_point_saturates_instead_of_overflowing() {
    assert_eq!(fx_add(i64::MAX, 1), i64::MAX);
    assert_eq!(fx_sub(i64::MIN, 1), i64::MIN);
    assert_eq!(fx_mul(i64::MAX, i64::MAX), i64::MAX);
    assert_eq!(fx_mul(i64::MIN, i64::MAX), i64::MIN);
}

#[test]
fn test_compose_identity_transform() {
    let m = compose_local_transform(
        &Vec3 { x: 0, y: 0, z: 0 },
        &Quat { x: 0, y: 0, z: 0, w: S },
        &Vec3 { x: S, y: S, z: S },
    );
    let ident = Mat4::identity();
    for i in 0..16 {
        assert_eq!(m.get(i), ident.get(i), "entry {i}");
    }
}

#[test]
fn test_transform_chain_matches_matrix_product() {
    // Three-level chain: the grandchild's world transform is the
    // left-to-right product of the three local matrices.
    let root = entity_at(None, Vec3 { x: fx(1.0), y: 0, z: 0 });
    let child = entity_at(Some(0), Vec3 { x: 0, y: fx(2.0), z: 0 });
    let grand = entity_at(Some(1), Vec3 { x: 0, y: 0, z: fx(3.0) });
    let locals: Vec<Mat4> = [&root, &child, &grand]
        .iter()
        .map(|e| {
            compose_local_transform(
                &e.transform.position,
                &e.transform.rotation,
                &e.transform.scale,
            )
        })
        .collect();
    let mut scene = scene_of(vec![root, child, grand]);
    compute_world_transforms(&mut scene);
    let product = locals[0].mul(&locals[1]).mul(&locals[2]);
    for i in 0..16 {
        assert_eq!(scene.entities[2].world_transform.get(i), product.get(i), "entry {i}");
    }
    // With identity rotations the chain translation is just the sum.
    assert_eq!(scene.entities[2].world_transform.get(12), fx(1.0));
    assert_eq!(scene.entities[2].world_transform.get(13), fx(2.0));
    assert_eq!(scene.entities[2].world_transform.get(14), fx(3.0));
    assert!(!scene.entities[2].transform.dirty);
}

#[test]
fn test_transform_resolution_is_idempotent() {
    let root = entity_at(None, Vec3 { x: fx(1.0), y: 0, z: 0 });
    let child = entity_at(Some(0), Vec3 { x: 0, y: fx(2.0), z: 0 });
    let mut scene = scene_of(vec![root, child]);
    compute_world_transforms(&mut scene);
    let first: Vec<Vec<i64>> = scene
        .entities
        .iter()
        .map(|e| (0..16).map(|i| e.world_transform.get(i)).collect())
        .collect();
    compute_world_transforms(&mut scene);
    let second: Vec<Vec<i64>> = scene
        .entities
        .iter()
        .map(|e| (0..16).map(|i| e.world_transform.get(i)).collect())
        .collect();
    assert_eq!(first, second);
}

#[test]
fn test_skinning_bone_matrices() {
    let mesh = entity_at(None, Vec3 { x: 0, y: 0, z: 0 });
    let bone = entity_at(None, Vec3 { x: fx(1.0), y: 0, z: 0 });
    let mut scene = scene_of(vec![mesh, bone]);
    scene.skeletons = vec![SkeletonData {
        entity_index: 0,
        bone_entity_indices: vec![1],
        inverse_bind_matrices: vec![Mat4::identity()],
        bone_matrices: vec![],
    }];
    compute_world_transforms(&mut scene);
    update_skinned_meshes(&mut scene);
    // Identity mesh world and identity bind: the bone matrix is the
    // bone's world transform.
    assert_eq!(scene.skeletons[0].bone_matrices.len(), 1);
    assert_eq!(scene.skeletons[0].bone_matrices[0].get(12), fx(1.0));
}

#[test]
fn test_skinning_invalid_bone_degrades_to_identity() {
    let mesh = entity_at(None, Vec3 { x: 0, y: 0, z: 0 });
    let mut scene = scene_of(vec![mesh]);
    scene.skeletons = vec![SkeletonData {
        entity_index: 0,
        bone_entity_indices: vec![7],
        inverse_bind_matrices: vec![Mat4::identity()],
        bone_matrices: vec![],
    }];
    compute_world_transforms(&mut scene);
    update_skinned_meshes(&mut scene);
    let ident = Mat4::identity();
    for i in 0..16 {
        assert_eq!(scene.skeletons[0].bone_matrices[0].get(i), ident.get(i));
    }
}

fn animated_scene(looping: bool) -> LoadedScene {
    let target = entity_at(None, Vec3 { x: 0, y: 0, z: 0 });
    let mut scene = scene_of(vec![target]);
    scene.animations = vec![AnimationState {
        clips: vec![AnimationClip {
            name: "move".to_string(),
            duration: fx(2.0),
            channels: vec![AnimationChannel {
                target_entity_index: 0,
                target_property: TargetProperty::Position,
                interpolation: InterpolationMode::Linear,
                times: vec![0, fx(2.0)],
                values: vec![0, 0, 0, fx(10.0), 0, 0],
            }],
        }],
        active_clip: 0,
        current_time: 0,
        playing: true,
        looping,
        speed: S,
    }];
    scene
}

#[test]
fn test_tick_samples_resolves_and_clears_dirty() {
    let mut scene = animated_scene(false);
    tick(&mut scene, fx(1.0));
    assert_eq!(scene.animations[0].current_time, fx(1.0));
    assert!(scene.animations[0].playing);
    assert_eq!(scene.entities[0].transform.position.x, fx(5.0));
    assert_eq!(scene.entities[0].world_transform.get(12), fx(5.0));
    assert!(!scene.entities[0].transform.dirty);
}

#[test]
fn test_animation_clamps_and_stops_at_end() {
    let mut scene = animated_scene(false);
    tick(&mut scene, fx(3.0));
    assert_eq!(scene.animations[0].current_time, fx(2.0));
    assert!(!scene.animations[0].playing);
    assert_eq!(scene.entities[0].transform.position.x, fx(10.0));
}

#[test]
fn test_animation_wraps_when_looping() {
    let mut scene = animated_scene(true);
    tick(&mut scene, fx(3.0));
    assert_eq!(scene.animations[0].current_time, fx(1.0));
    assert!(scene.animations[0].playing);
    assert_eq!(scene.entities[0].transform.position.x, fx(5.0));
}

#[test]
fn test_animation_skips_out_of_range_target() {
    let mut scene = animated_scene(false);
    scene.animations[0].clips[0].channels[0].target_entity_index = 9;
    tick(&mut scene, fx(1.0));
    // The malformed channel is skipped; the clock still advances.
    assert_eq!(scene.animations[0].current_time, fx(1.0));
    assert_eq!(scene.entities[0].transform.position.x, 0);
}

#[test]
fn test_animation_skips_short_value_buffer() {
    let mut scene = animated_scene(false);
    scene.animations[0].clips[0].channels[0].values = vec![0, 0];
    tick(&mut scene, fx(1.0));
    assert_eq!(scene.entities[0].transform.position.x, 0);
}

#[test]
fn test_scene_counts() {
    let scene = scene_of(vec![entity_at(None, Vec3 { x: 0, y: 0, z: 0 })]);
    assert_eq!(scene.num_entities(), 1);
    assert_eq!(scene.num_meshes(), 0);
    assert_eq!(scene.num_textures(), 0);
}

#[test]
fn test_classify_project_dir() {
    assert_eq!(classify_project_dir(true, true, false), Some(ProjectKind::EngineDev));
    assert_eq!(classify_project_dir(true, true, true), Some(ProjectKind::EngineDev));
    assert_eq!(classify_project_dir(false, false, true), Some(ProjectKind::UserProject));
    assert_eq!(classify_project_dir(true, false, false), None);
    assert_eq!(classify_project_dir(false, false, false), None);
}
