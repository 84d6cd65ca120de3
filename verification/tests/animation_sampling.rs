use openreality::animation::{find_keyframe_index, get_quat, get_vec3, lerp_vec3, slerp_quat};
use openreality::math3d::{Quat, Vec3};

const S: i64 = 65536;

fn fx(v: f64) -> i64 {
    (v * 65536.0).round() as i64
}

fn to_f(v: i64) -> f64 {
    v as f64 / 65536.0
}

fn rot_y(angle: f64) -> Quat {
    let half = angle / 2.0;
    Quat { x: 0, y: fx(half.sin()), z: 0, w: fx(half.cos()) }
}

fn quat_len(q: Quat) -> f64 {
    let (x, y, z, w) = (to_f(q.x), to_f(q.y), to_f(q.z), to_f(q.w));
    (x * x + y * y + z * z + w * w).sqrt()
}

#[test]
fn test_empty_times() {
    assert_eq!(find_keyframe_index(&vec![], fx(1.0)), None);
}

#[test]
fn test_single_keyframe() {
    let result = find_keyframe_index(&vec![0], fx(0.5));
    assert_eq!(result, Some((0, 0, 0)));
}

#[test]
fn test_before_first_keyframe() {
    let result = find_keyframe_index(&vec![fx(1.0), fx(2.0), fx(3.0)], fx(0.5));
    assert_eq!(result, Some((0, 0, 0)));
}

#[test]
fn test_after_last_keyframe() {
    let result = find_keyframe_index(&vec![fx(1.0), fx(2.0), fx(3.0)], fx(5.0));
    assert_eq!(result, Some((2, 2, 0)));
}

#[test]
fn test_exact_keyframe() {
    let result = find_keyframe_index(&vec![0, fx(1.0), fx(2.0)], fx(1.0));
    let (i0, i1, t) = result.unwrap();
    // At the exact keyframe the interval is [1, 2] with factor 0.
    assert_eq!(i0, 1);
    assert_eq!(i1, 2);
    assert_eq!(t, 0);
}

#[test]
fn test_midpoint_interpolation() {
    let result = find_keyframe_index(&vec![0, fx(2.0)], fx(1.0));
    let (i0, i1, t) = result.unwrap();
    assert_eq!(i0, 0);
    assert_eq!(i1, 1);
    assert_eq!(t, S / 2);
}

#[test]
fn test_many_keyframes_binary_search() {
    let times: Vec<i64> = (0..20).map(|i| (i as i64) * S).collect();
    let result = find_keyframe_index(&times, fx(10.5));
    let (i0, i1, t) = result.unwrap();
    assert_eq!(i0, 10);
    assert_eq!(i1, 11);
    assert_eq!(t, S / 2);
}

#[test]
fn test_lerp_vec3_zero() {
    let a = Vec3 { x: fx(1.0), y: fx(2.0), z: fx(3.0) };
    let b = Vec3 { x: fx(4.0), y: fx(5.0), z: fx(6.0) };
    let result = lerp_vec3(a, b, 0);
    assert_eq!(result, a);
}

#[test]
fn test_lerp_vec3_one() {
    let a = Vec3 { x: fx(1.0), y: fx(2.0), z: fx(3.0) };
    let b = Vec3 { x: fx(4.0), y: fx(5.0), z: fx(6.0) };
    let result = lerp_vec3(a, b, S);
    assert_eq!(result, b);
}

#[test]
fn test_lerp_vec3_half() {
    let a = Vec3 { x: 0, y: 0, z: 0 };
    let b = Vec3 { x: fx(10.0), y: fx(20.0), z: fx(30.0) };
    let result = lerp_vec3(a, b, S / 2);
    assert_eq!(result, Vec3 { x: fx(5.0), y: fx(10.0), z: fx(15.0) });
}

#[test]
fn test_get_vec3_index_zero() {
    let values = vec![fx(1.0), fx(2.0), fx(3.0), fx(4.0), fx(5.0), fx(6.0)];
    let v = get_vec3(&values, 0);
    assert_eq!(v, Vec3 { x: fx(1.0), y: fx(2.0), z: fx(3.0) });
}

#[test]
fn test_get_vec3_index_one() {
    let values = vec![fx(1.0), fx(2.0), fx(3.0), fx(4.0), fx(5.0), fx(6.0)];
    let v = get_vec3(&values, 1);
    assert_eq!(v, Vec3 { x: fx(4.0), y: fx(5.0), z: fx(6.0) });
}

#[test]
fn test_get_quat_identity() {
    // The value buffer stores w, x, y, z.
    let values = vec![S, 0, 0, 0];
    let q = get_quat(&values, 0);
    assert_eq!(q.w, S);
    assert_eq!(q.x, 0);
    assert_eq!(q.y, 0);
    assert_eq!(q.z, 0);
}

#[test]
fn test_get_quat_swizzle() {
    // Buffer order w, x, y, z maps into the quaternion's named fields.
    let values = vec![fx(0.707), 0, fx(0.707), 0];
    let q = get_quat(&values, 0);
    assert_eq!(q.x, 0);
    assert_eq!(q.y, fx(0.707));
    assert_eq!(q.z, 0);
    assert_eq!(q.w, fx(0.707));
}

#[test]
fn test_slerp_zero() {
    let a = Quat { x: 0, y: 0, z: 0, w: S };
    let b = rot_y(std::f64::consts::FRAC_PI_2);
    let result = slerp_quat(a, b, 0);
    assert_eq!(result, a);
}

#[test]
fn test_slerp_one() {
    let a = Quat { x: 0, y: 0, z: 0, w: S };
    let b = rot_y(std::f64::consts::FRAC_PI_2);
    let result = slerp_quat(a, b, S);
    assert_eq!(result, b);
}

#[test]
fn test_slerp_result_normalized() {
    let a = Quat { x: 0, y: 0, z: 0, w: S };
    let b = rot_y(std::f64::consts::FRAC_PI_2);
    for i in 0..=10 {
        let t = (i * S) / 10;
        let result = slerp_quat(a, b, t);
        let len = quat_len(result);
        assert!((len - 1.0).abs() < 0.01, "not normalized at t={i}/10: len={len}");
    }
}

#[test]
fn test_slerp_nearly_identical() {
    // Very close rotations take the normalized-linear fallback.
    let a = Quat { x: 0, y: 0, z: 0, w: S };
    let b = rot_y(0.0001);
    let result = slerp_quat(a, b, S / 2);
    let len = quat_len(result);
    assert!((len - 1.0).abs() < 0.01, "near-identity fallback not normalized: len={len}");
}

#[test]
fn test_slerp_shortest_path() {
    // A negated-hemisphere twin is folded back before interpolating.
    let a = Quat { x: 0, y: 0, z: 0, w: S };
    let b = Quat { x: 0, y: 0, z: 0, w: -S };
    let result = slerp_quat(a, b, S / 2);
    let len = quat_len(result);
    assert!((len - 1.0).abs() < 0.01);
}

#[test]
fn test_slerp_quarter_turn_midpoint() {
    // Halfway through a quarter turn about Y sits the eighth turn.
    let a = Quat { x: 0, y: 0, z: 0, w: S };
    let b = rot_y(std::f64::consts::FRAC_PI_2);
    let result = slerp_quat(a, b, S / 2);
    let expected = rot_y(std::f64::consts::FRAC_PI_4);
    assert!((to_f(result.y) - to_f(expected.y)).abs() < 0.02);
    assert!((to_f(result.w) - to_f(expected.w)).abs() < 0.02);
}

#[test]
fn test_slerp_hemisphere_fold_matches_negated_input() {
    // Interpolating towards an opposite-hemisphere twin equals
    // interpolating towards its negation.
    let a = Quat { x: 0, y: 0, z: 0, w: S };
    let b0 = rot_y(std::f64::consts::FRAC_PI_2);
    let b = Quat { x: -b0.x, y: -b0.y, z: -b0.z, w: -b0.w };
    for i in 0..=10 {
        let t = (i * S) / 10;
        assert_eq!(slerp_quat(a, b, t), slerp_quat(a, b0, t));
    }
}
