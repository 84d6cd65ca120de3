use openreality::math3d::Vec3;
use openreality::particles::{Particle, ParticleConfig, ParticlePool, Xorshift};

const S: i64 = 65536;

fn fx(v: f64) -> i64 {
    (v * 65536.0).round() as i64
}

fn origin() -> Vec3 {
    Vec3 { x: 0, y: 0, z: 0 }
}

fn cam_right() -> Vec3 {
    Vec3 { x: S, y: 0, z: 0 }
}

fn cam_up() -> Vec3 {
    Vec3 { x: 0, y: S, z: 0 }
}

fn quiet_config(max: usize) -> ParticleConfig {
    let mut c = ParticleConfig::default();
    c.max_particles = max;
    c.emission_rate = 0;
    c
}

#[test]
fn test_burst_emission_conservation() {
    let mut pool = ParticlePool::new(16);
    let mut config = quiet_config(16);
    config.burst_count = 5;
    pool.update(0, origin(), &mut config, origin(), cam_right(), cam_up());
    assert_eq!(pool.alive_count, 5);
    assert_eq!(config.burst_count, 0);
}

#[test]
fn test_burst_never_exceeds_capacity() {
    let mut pool = ParticlePool::new(4);
    let mut config = quiet_config(4);
    config.burst_count = 100;
    pool.update(0, origin(), &mut config, origin(), cam_right(), cam_up());
    assert_eq!(pool.alive_count, 4);
}

#[test]
fn test_burst_is_not_replayed() {
    let mut pool = ParticlePool::new(8);
    let mut config = quiet_config(8);
    config.burst_count = 3;
    pool.update(0, origin(), &mut config, origin(), cam_right(), cam_up());
    assert_eq!(pool.alive_count, 3);
    pool.update(0, origin(), &mut config, origin(), cam_right(), cam_up());
    assert_eq!(pool.alive_count, 3);
}

#[test]
fn test_continuous_emission_accumulates() {
    let mut pool = ParticlePool::new(32);
    let mut config = quiet_config(32);
    config.emission_rate = fx(20.0);
    pool.update(fx(0.25), origin(), &mut config, origin(), cam_right(), cam_up());
    assert_eq!(pool.alive_count, 5);
}

#[test]
fn test_lifetime_decay_kills_particles() {
    let mut pool = ParticlePool::new(8);
    let mut config = quiet_config(8);
    config.burst_count = 3;
    pool.update(0, origin(), &mut config, origin(), cam_right(), cam_up());
    assert_eq!(pool.alive_count, 3);
    // Default lifetimes stay within two seconds.
    pool.update(fx(3.0), origin(), &mut config, origin(), cam_right(), cam_up());
    assert_eq!(pool.alive_count, 0);
}

#[test]
fn test_vertex_buffer_tracks_alive_count() {
    let mut pool = ParticlePool::new(16);
    let mut config = quiet_config(16);
    config.burst_count = 4;
    pool.update(0, origin(), &mut config, origin(), cam_right(), cam_up());
    assert_eq!(pool.vertex_count, 6 * pool.alive_count);
    assert_eq!(pool.vertex_data.len(), 16 * 54);
}

#[test]
fn test_resize_grows_with_dead_slots() {
    let mut pool = ParticlePool::new(2);
    pool.resize(5);
    assert_eq!(pool.particles.len(), 5);
    assert_eq!(pool.vertex_data.len(), 5 * 54);
    assert!(pool.particles.iter().all(|p| !p.alive));
}

#[test]
fn test_depth_sort_orders_back_to_front() {
    let mut pool = ParticlePool::new(3);
    let near = Particle {
        position: Vec3 { x: fx(1.0), y: 0, z: 0 },
        velocity: origin(),
        lifetime: S,
        max_lifetime: S,
        size: S,
        alive: true,
    };
    let far = Particle { position: Vec3 { x: fx(9.0), y: 0, z: 0 }, ..near };
    let dead = Particle { alive: false, ..near };
    pool.particles[0] = near;
    pool.particles[1] = dead;
    pool.particles[2] = far;
    pool.sort_back_to_front(origin());
    assert!(pool.particles[0].alive && pool.particles[0].position.x == fx(9.0));
    assert!(pool.particles[1].alive && pool.particles[1].position.x == fx(1.0));
    assert!(!pool.particles[2].alive);
}

#[test]
fn test_xorshift_is_deterministic_per_pool() {
    let mut a = Xorshift::new(12345);
    let mut b = Xorshift::new(12345);
    for _ in 0..16 {
        assert_eq!(a.rand_unit(), b.rand_unit());
    }
}

#[test]
fn test_rand_range_stays_in_interval() {
    let mut rng = Xorshift::new(99);
    for _ in 0..64 {
        let v = rng.rand_range(fx(1.0), fx(2.0));
        assert!(v >= fx(1.0) && v <= fx(2.0), "sample out of range: {v}");
    }
}

#[test]
fn test_emitted_particles_start_at_origin_with_full_life() {
    let mut pool = ParticlePool::new(4);
    let mut config = quiet_config(4);
    config.burst_count = 2;
    let at = Vec3 { x: fx(3.0), y: fx(4.0), z: 0 };
    pool.update(0, at, &mut config, origin(), cam_right(), cam_up());
    for p in pool.particles.iter().filter(|p| p.alive) {
        assert_eq!(p.position, at);
        assert_eq!(p.lifetime, p.max_lifetime);
        assert!(p.max_lifetime >= config.lifetime_min);
        assert!(p.max_lifetime <= config.lifetime_max);
    }
}
