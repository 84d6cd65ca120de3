use openreality::math::{
    compute_cascade_splits, distribution_ggx, extract_frustum_planes, geometry_schlick_ggx,
    sphere_in_frustum,
};
use openreality::math3d::{Mat4, Vec3};

const S: i64 = 65536;
const PI: f64 = std::f64::consts::PI;

fn fx(v: f64) -> i64 {
    (v * 65536.0).round() as i64
}

fn to_f(v: i64) -> f64 {
    v as f64 / 65536.0
}

/// Column-major perspective projection (OpenGL convention) in plain f64.
fn perspective(fov_y: f64, aspect: f64, near: f64, far: f64) -> [f64; 16] {
    let f = 1.0 / (fov_y / 2.0).tan();
    let mut m = [0.0; 16];
    m[0] = f / aspect;
    m[5] = f;
    m[10] = (far + near) / (near - far);
    m[11] = -1.0;
    m[14] = 2.0 * far * near / (near - far);
    m
}

/// Column-major right-handed look-at view matrix in plain f64.
fn look_at(eye: [f64; 3], target: [f64; 3], up: [f64; 3]) -> [f64; 16] {
    let fwd = norm3(sub3(target, eye));
    let right = norm3(cross3(fwd, up));
    let u = cross3(right, fwd);
    let mut m = [0.0; 16];
    m[0] = right[0];
    m[4] = right[1];
    m[8] = right[2];
    m[1] = u[0];
    m[5] = u[1];
    m[9] = u[2];
    m[2] = -fwd[0];
    m[6] = -fwd[1];
    m[10] = -fwd[2];
    m[12] = -dot3(right, eye);
    m[13] = -dot3(u, eye);
    m[14] = dot3(fwd, eye);
    m[15] = 1.0;
    m
}

fn sub3(a: [f64; 3], b: [f64; 3]) -> [f64; 3] {
    [a[0] - b[0], a[1] - b[1], a[2] - b[2]]
}

fn dot3(a: [f64; 3], b: [f64; 3]) -> f64 {
    a[0] * b[0] + a[1] * b[1] + a[2] * b[2]
}

fn cross3(a: [f64; 3], b: [f64; 3]) -> [f64; 3] {
    [
        a[1] * b[2] - a[2] * b[1],
        a[2] * b[0] - a[0] * b[2],
        a[0] * b[1] - a[1] * b[0],
    ]
}

fn norm3(a: [f64; 3]) -> [f64; 3] {
    let l = dot3(a, a).sqrt();
    [a[0] / l, a[1] / l, a[2] / l]
}

fn mat_mul_f64(a: &[f64; 16], b: &[f64; 16]) -> [f64; 16] {
    let mut c = [0.0; 16];
    for col in 0..4 {
        for row in 0..4 {
            let mut acc = 0.0;
            for k in 0..4 {
                acc += a[k * 4 + row] * b[col * 4 + k];
            }
            c[col * 4 + row] = acc;
        }
    }
    c
}

fn to_mat4(m: &[f64; 16]) -> Mat4 {
    Mat4::from_entries(m.iter().map(|&v| fx(v)).collect())
}

#[test]
fn test_frustum_planes_normalized() {
    let proj = perspective(PI / 4.0, 16.0 / 9.0, 0.5, 10.0);
    let planes = extract_frustum_planes(&to_mat4(&proj));
    for plane in &planes {
        let len = (to_f(plane.a).powi(2) + to_f(plane.b).powi(2) + to_f(plane.c).powi(2)).sqrt();
        assert!((len - 1.0).abs() < 0.01, "plane normal not unit length: {len}");
    }
}

#[test]
fn test_frustum_planes_identity() {
    let planes = extract_frustum_planes(&Mat4::identity());
    assert_eq!(planes.len(), 6);
    for plane in &planes {
        let len = (to_f(plane.a).powi(2) + to_f(plane.b).powi(2) + to_f(plane.c).powi(2)).sqrt();
        assert!(len > 0.0, "degenerate plane normal");
    }
}

#[test]
fn test_sphere_inside_frustum() {
    let proj = perspective(PI / 4.0, 1.0, 0.5, 20.0);
    let view = look_at([0.0, 0.0, 5.0], [0.0, 0.0, 0.0], [0.0, 1.0, 0.0]);
    let vp = mat_mul_f64(&proj, &view);
    let planes = extract_frustum_planes(&to_mat4(&vp));
    // The look-at target sits in front of the camera.
    assert!(sphere_in_frustum(&planes, Vec3 { x: 0, y: 0, z: 0 }, fx(0.5)));
}

#[test]
fn test_sphere_outside_frustum() {
    let proj = perspective(PI / 4.0, 1.0, 0.5, 20.0);
    let view = look_at([0.0, 0.0, 5.0], [0.0, 0.0, 0.0], [0.0, 1.0, 0.0]);
    let vp = mat_mul_f64(&proj, &view);
    let planes = extract_frustum_planes(&to_mat4(&vp));
    // Far behind the camera.
    assert!(!sphere_in_frustum(&planes, Vec3 { x: 0, y: 0, z: fx(200.0) }, fx(1.0)));
}

#[test]
fn test_sphere_straddling_plane() {
    let proj = perspective(PI / 4.0, 1.0, 0.5, 20.0);
    let view = look_at([0.0, 0.0, 5.0], [0.0, 0.0, 0.0], [0.0, 1.0, 0.0]);
    let vp = mat_mul_f64(&proj, &view);
    let planes = extract_frustum_planes(&to_mat4(&vp));
    // Far to the side but with a radius that reaches into the frustum.
    assert!(sphere_in_frustum(&planes, Vec3 { x: fx(50.0), y: 0, z: 0 }, fx(100.0)));
}

#[test]
fn test_cascade_splits_boundaries() {
    let near = fx(0.1);
    let far = fx(100.0);
    let splits = compute_cascade_splits(near, far, 4, S / 2);
    assert_eq!(splits.len(), 5);
    assert_eq!(splits[0], near);
    assert_eq!(splits[4], far);
}

#[test]
fn test_cascade_splits_monotonic() {
    let splits = compute_cascade_splits(fx(0.1), fx(500.0), 4, fx(0.75));
    for i in 1..splits.len() {
        assert!(splits[i] > splits[i - 1], "splits not monotonically increasing");
    }
}

#[test]
fn test_cascade_splits_lambda_zero_linear() {
    let near = fx(1.0);
    let far = fx(101.0);
    let splits = compute_cascade_splits(near, far, 4, 0);
    // Zero lambda places every split linearly.
    for (i, &split) in splits.iter().enumerate() {
        let expected = near + (far - near) / 4 * i as i64;
        assert_eq!(split, expected, "splits[{i}]");
    }
}

#[test]
fn test_cascade_splits_lambda_one_logarithmic() {
    let near = fx(1.0);
    let far = fx(100.0);
    let splits = compute_cascade_splits(near, far, 4, S);
    // Full lambda approximates the logarithmic placement; the base-two
    // power is piecewise linear, so allow a few percent.
    for i in 0..=4 {
        let expected = 1.0 * 100.0_f64.powf(i as f64 / 4.0);
        let got = to_f(splits[i]);
        let rel = (got - expected).abs() / expected;
        assert!(rel < 0.08, "splits[{i}]={got} expected~{expected}");
    }
}

#[test]
fn test_ggx_peak_at_aligned() {
    let roughness = fx(0.5);
    let a = 0.25_f64;
    let a2 = a * a;
    let expected = 1.0 / (std::f64::consts::PI * a2);
    let result = to_f(distribution_ggx(S, roughness));
    assert!((result - expected).abs() / expected < 0.01, "D={result} expected={expected}");
}

#[test]
fn test_ggx_non_negative() {
    for &roughness in &[fx(0.1), fx(0.25), fx(0.5), fx(0.75), S] {
        for &n_dot_h in &[0, fx(0.25), fx(0.5), fx(0.75), S] {
            assert!(distribution_ggx(n_dot_h, roughness) >= 0);
        }
    }
}

#[test]
fn test_schlick_ggx_aligned() {
    assert_eq!(geometry_schlick_ggx(S, fx(0.5)), S);
}

#[test]
fn test_schlick_ggx_grazing_approaches_zero() {
    let result = to_f(geometry_schlick_ggx(fx(0.001), fx(0.5)));
    assert!(result < 0.01, "G at a grazing angle should be near zero, got {result}");
}

#[test]
fn test_schlick_ggx_range() {
    for &roughness in &[fx(0.1), fx(0.5), S] {
        for &n_dot_v in &[0, fx(0.25), fx(0.5), fx(0.75), S] {
            let result = geometry_schlick_ggx(n_dot_v, roughness);
            assert!(result >= 0 && result <= S, "G out of range: {result}");
        }
    }
}
