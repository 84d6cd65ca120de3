//! Particle simulation: per-emitter pools that burst, emit continuously,
//! integrate under gravity and damping, depth-sort, and rasterize into a
//! billboard vertex buffer.
//!
//! Randomness comes from a xorshift generator owned by each pool, so a
//! pool's evolution is a deterministic function of its state and inputs,
//! and pools never share mutable state.
use vstd::prelude::*;

use crate::fixed::{
    fx_add, fx_add_spec, fx_clamp, fx_div, fx_div_spec, fx_mul, fx_mul_spec, fx_sub, fx_sub_spec,
    SCALE,
};
use crate::animation::{fx_lerp, fx_lerp_spec};
use crate::math3d::{vdist_sq, vdist_sq_spec, Vec3};

verus! {

/// Downward gravity, in fixed point, applied per second.
pub open spec fn gravity_spec() -> Vec3 {
    Vec3 { x: 0i64, y: -642908i64, z: 0i64 }
}

/// Configuration for one particle emitter.
#[derive(Debug, Clone, Copy, PartialEq, Eq)]
pub struct ParticleConfig {
    pub max_particles: usize,
    pub emission_rate: i64,
    pub burst_count: i32,
    pub lifetime_min: i64,
    pub lifetime_max: i64,
    pub velocity_min: Vec3,
    pub velocity_max: Vec3,
    pub gravity_modifier: i64,
    pub damping: i64,
    pub start_size_min: i64,
    pub start_size_max: i64,
    pub end_size: i64,
    pub start_color: [i64; 3],
    pub end_color: [i64; 3],
    pub start_alpha: i64,
    pub end_alpha: i64,
    pub additive: bool,
}

impl Default for ParticleConfig {
    /// A modest white emitter: 256 slots, twenty particles a second,
    /// one-to-two-second lifetimes, upward spread, full gravity.
    fn default() -> (r: Self)
        ensures
            r.max_particles == 256,
            r.emission_rate == 20 * SCALE,
            r.burst_count == 0,
            r.lifetime_min == SCALE && r.lifetime_max == 2 * SCALE,
            r.velocity_min == (Vec3 { x: -32768i64, y: SCALE, z: -32768i64 }),
            r.velocity_max == (Vec3 { x: 32768i64, y: 196608i64, z: 32768i64 }),
            r.gravity_modifier == SCALE,
            r.damping == 0,
            r.start_size_min == 6554 && r.start_size_max == 19661 && r.end_size == 0,
            r.start_color@ =~= seq![SCALE, SCALE, SCALE],
            r.end_color@ =~= seq![SCALE, SCALE, SCALE],
            r.start_alpha == SCALE && r.end_alpha == 0,
            !r.additive,
    {
        ParticleConfig {
            max_particles: 256,
            emission_rate: 1310720,
            burst_count: 0,
            lifetime_min: 65536,
            lifetime_max: 131072,
            velocity_min: Vec3 { x: -32768, y: 65536, z: -32768 },
            velocity_max: Vec3 { x: 32768, y: 196608, z: 32768 },
            gravity_modifier: 65536,
            damping: 0,
            start_size_min: 6554,
            start_size_max: 19661,
            end_size: 0,
            start_color: [65536, 65536, 65536],
            end_color: [65536, 65536, 65536],
            start_alpha: 65536,
            end_alpha: 0,
            additive: false,
        }
    }
}

/// One particle slot.
#[derive(Debug, Clone, Copy, PartialEq, Eq, Structural)]
pub struct Particle {
    pub position: Vec3,
    pub velocity: Vec3,
    pub lifetime: i64,
    pub max_lifetime: i64,
    pub size: i64,
    pub alive: bool,
}

/// The state every fresh or reclaimed slot starts in.
pub open spec fn dead_particle_spec() -> Particle {
    Particle {
        position: Vec3 { x: 0i64, y: 0i64, z: 0i64 },
        velocity: Vec3 { x: 0i64, y: 0i64, z: 0i64 },
        lifetime: 0i64,
        max_lifetime: SCALE,
        size: 0i64,
        alive: false,
    }
}

fn dead_particle() -> (r: Particle)
    ensures
        r == dead_particle_spec(),
{
    Particle {
        position: Vec3 { x: 0, y: 0, z: 0 },
        velocity: Vec3 { x: 0, y: 0, z: 0 },
        lifetime: 0,
        max_lifetime: SCALE,
        size: 0,
        alive: false,
    }
}

/// One xorshift step.
pub open spec fn xorshift_spec(s: u32) -> u32 {
    let a = s ^ (s << 13);
    let b = a ^ (a >> 17);
    b ^ (b << 5)
}

/// A fixed-point sample in `[0, 1)` drawn from the next generator state.
pub open spec fn rand_unit_spec(s: u32) -> int {
    (xorshift_spec(s) >> 16) as int
}

/// A sample in the interval `[lo, hi]`: `lo + (hi - lo) * u`.
pub open spec fn rand_range_spec(lo: int, hi: int, s: u32) -> int {
    fx_add_spec(lo, fx_mul_spec(fx_sub_spec(hi, lo), rand_unit_spec(s)))
}

/// Xorshift pseudo-random generator, one instance owned per pool.
#[derive(Debug, Clone, Copy, PartialEq, Eq, Structural)]
pub struct Xorshift {
    pub state: u32,
}

impl Xorshift {
    pub fn new(seed: u32) -> (r: Self)
        ensures
            r.state == seed,
    {
        Xorshift { state: seed }
    }

    /// Advance the state and return a fixed-point sample in `[0, 1)`.
    pub fn rand_unit(&mut self) -> (r: i64)
        ensures
            final(self).state == xorshift_spec(old(self).state),
            r == rand_unit_spec(old(self).state),
            0 <= r < SCALE,
    {
        let s0 = self.state;
        let a = s0 ^ (s0 << 13u32);
        let b = a ^ (a >> 17u32);
        let c = b ^ (b << 5u32);
        self.state = c;
        let r = (c >> 16u32) as i64;
        proof {
            assert((c >> 16u32) < 65536u32) by (bit_vector);
        }
        r
    }

    /// A sample uniformly placed in `[lo, hi]` (when `lo <= hi`).
    pub fn rand_range(&mut self, lo: i64, hi: i64) -> (r: i64)
        ensures
            final(self).state == xorshift_spec(old(self).state),
            r == rand_range_spec(lo as int, hi as int, old(self).state),
    {
        let u = self.rand_unit();
        fx_add(lo, fx_mul(fx_sub(hi, lo), u))
    }
}

/// Number of alive slots in a particle sequence.
pub open spec fn count_alive(s: Seq<Particle>) -> int
    decreases s.len(),
{
    if s.len() == 0 {
        0
    } else {
        count_alive(s.drop_last()) + if s.last().alive {
            1int
        } else {
            0int
        }
    }
}

/// Counting alive slots never exceeds the slot count.
pub proof fn lemma_count_alive_le_len(s: Seq<Particle>)
    ensures
        0 <= count_alive(s) <= s.len(),
    decreases s.len(),
{
    if s.len() > 0 {
        lemma_count_alive_le_len(s.drop_last());
    }
}

/// How an update at one slot moves the alive count.
pub proof fn lemma_count_alive_update(s: Seq<Particle>, i: int, p: Particle)
    requires
        0 <= i < s.len(),
    ensures
        count_alive(s.update(i, p)) == count_alive(s) - (if s[i].alive {
            1int
        } else {
            0int
        }) + (if p.alive {
            1int
        } else {
            0int
        }),
    decreases s.len(),
{
    let s2 = s.update(i, p);
    if i == s.len() - 1 {
        assert(s2.drop_last() =~= s.drop_last());
    } else {
        assert(s2.drop_last() =~= s.drop_last().update(i, p));
        lemma_count_alive_update(s.drop_last(), i, p);
    }
}

/// Extending the prefix by one slot adds its contribution to the count.
pub proof fn lemma_count_alive_take_succ(s: Seq<Particle>, i: int)
    requires
        0 <= i < s.len(),
    ensures
        count_alive(s.take(i + 1)) == count_alive(s.take(i)) + if s[i].alive {
            1int
        } else {
            0int
        },
{
    assert(s.take(i + 1).drop_last() =~= s.take(i));
}

/// A sequence that is alive up to `w` and dead from `w` on has exactly
/// `w` alive slots.
pub proof fn lemma_count_alive_partition(s: Seq<Particle>, w: int)
    requires
        0 <= w <= s.len(),
        forall|i: int| 0 <= i < w ==> (#[trigger] s[i]).alive,
        forall|i: int| w <= i < s.len() ==> !(#[trigger] s[i]).alive,
    ensures
        count_alive(s) == w,
    decreases s.len(),
{
    if s.len() > 0 {
        if w == s.len() {
            lemma_count_alive_partition(s.drop_last(), w - 1);
        } else {
            lemma_count_alive_partition(s.drop_last(), w);
        }
    }
}

/// Index of the first dead slot at or after `i`, or `-1` when every slot
/// from `i` on is alive.
pub open spec fn first_dead_from_spec(s: Seq<Particle>, i: int) -> int
    decreases s.len() - i,
{
    if i < 0 || i >= s.len() {
        -1
    } else if !s[i].alive {
        i
    } else {
        first_dead_from_spec(s, i + 1)
    }
}

/// The generator state after the five draws one emission makes.
pub open spec fn rng_after_emit_spec(s: u32) -> u32 {
    xorshift_spec(xorshift_spec(xorshift_spec(xorshift_spec(xorshift_spec(s)))))
}

/// The particle one emission writes: velocity, lifetime and size drawn
/// from the configured ranges, in that order, full lifetime remaining.
pub open spec fn emitted_particle_spec(origin: Vec3, config: ParticleConfig, s0: u32) -> Particle {
    let s1 = xorshift_spec(s0);
    let s2 = xorshift_spec(s1);
    let s3 = xorshift_spec(s2);
    let s4 = xorshift_spec(s3);
    let vx = rand_range_spec(config.velocity_min.x as int, config.velocity_max.x as int, s0);
    let vy = rand_range_spec(config.velocity_min.y as int, config.velocity_max.y as int, s1);
    let vz = rand_range_spec(config.velocity_min.z as int, config.velocity_max.z as int, s2);
    let life = rand_range_spec(config.lifetime_min as int, config.lifetime_max as int, s3);
    let size = rand_range_spec(config.start_size_min as int, config.start_size_max as int, s4);
    Particle {
        position: origin,
        velocity: Vec3 { x: vx as i64, y: vy as i64, z: vz as i64 },
        lifetime: life as i64,
        max_lifetime: life as i64,
        size: size as i64,
        alive: true,
    }
}

/// A particle pool for one emitter: fixed-capacity slots, an emission
/// accumulator, a billboard vertex buffer (six vertices of nine scalars
/// per alive particle), and the pool's own random generator.
pub struct ParticlePool {
    pub particles: Vec<Particle>,
    pub emit_accumulator: i64,
    /// Flat vertex data: 6 vertices per particle, 9 scalars per vertex.
    pub vertex_data: Vec<i64>,
    pub vertex_count: usize,
    pub alive_count: usize,
    pub rng: Xorshift,
}

impl ParticlePool {
    /// The vertex buffer always holds 54 scalars per slot.
    pub open spec fn wf(&self) -> bool {
        self.vertex_data@.len() == self.particles@.len() * 54
    }

    pub fn new(max_particles: usize) -> (r: Self)
        requires
            max_particles <= usize::MAX / 54,
        ensures
            r.wf(),
            r.particles@.len() == max_particles,
            forall|i: int|
                0 <= i < max_particles ==> #[trigger] r.particles@[i] == dead_particle_spec(),
            r.emit_accumulator == 0,
            r.vertex_count == 0,
            r.alive_count == 0,
            r.rng.state == 12345,
            count_alive(r.particles@) == 0,
            forall|i: int| 0 <= i < r.vertex_data@.len() ==> #[trigger] r.vertex_data@[i] == 0,
    {
        let mut particles: Vec<Particle> = Vec::new();
        let mut i: usize = 0;
        while i < max_particles
            invariant
                i <= max_particles,
                particles@.len() == i,
                forall|j: int| 0 <= j < i ==> #[trigger] particles@[j] == dead_particle_spec(),
            decreases max_particles - i,
        {
            particles.push(dead_particle());
            i = i + 1;
        }
        let total = max_particles * 54;
        let mut vertex_data: Vec<i64> = Vec::new();
        let mut j: usize = 0;
        while j < total
            invariant
                j <= total,
                vertex_data@.len() == j,
                forall|k: int| 0 <= k < j ==> #[trigger] vertex_data@[k] == 0,
            decreases total - j,
        {
            vertex_data.push(0);
            j = j + 1;
        }
        proof {
            lemma_count_alive_partition(particles@, 0);
        }
        ParticlePool {
            particles,
            emit_accumulator: 0,
            vertex_data,
            vertex_count: 0,
            alive_count: 0,
            rng: Xorshift { state: 12345 },
        }
    }

    /// Grow or shrink the pool to `max_particles` slots: surviving slots
    /// keep their contents, new slots start dead, and the vertex buffer
    /// follows at 54 scalars per slot.
    pub fn resize(&mut self, max_particles: usize)
        requires
            old(self).wf(),
            max_particles <= usize::MAX / 54,
        ensures
            final(self).wf(),
            final(self).particles@.len() == max_particles,
            forall|i: int|
                0 <= i < max_particles && i < old(self).particles@.len()
                    ==> #[trigger] final(self).particles@[i] == old(self).particles@[i],
            forall|i: int|
                old(self).particles@.len() <= i < max_particles
                    ==> #[trigger] final(self).particles@[i] == dead_particle_spec(),
            final(self).emit_accumulator == old(self).emit_accumulator,
            final(self).vertex_count == old(self).vertex_count,
            final(self).alive_count == old(self).alive_count,
            final(self).rng == old(self).rng,
            forall|i: int|
                0 <= i < max_particles * 54 && i < old(self).vertex_data@.len()
                    ==> #[trigger] final(self).vertex_data@[i] == old(self).vertex_data@[i],
            forall|i: int|
                old(self).vertex_data@.len() <= i < max_particles * 54
                    ==> #[trigger] final(self).vertex_data@[i] == 0,
    {
        while self.particles.len() > max_particles
            invariant
                self.particles@ == old(self).particles@.take(self.particles@.len() as int),
                self.particles@.len() <= old(self).particles@.len(),
                max_particles <= self.particles@.len() || self.particles@.len() == old(
                    self,
                ).particles@.len(),
                self.emit_accumulator == old(self).emit_accumulator,
                self.vertex_data@ == old(self).vertex_data@,
                self.vertex_count == old(self).vertex_count,
                self.alive_count == old(self).alive_count,
                self.rng == old(self).rng,
            decreases self.particles@.len(),
        {
            self.particles.pop();
            proof {
                assert(self.particles@ =~= old(self).particles@.take(
                    self.particles@.len() as int,
                ));
            }
        }
        while self.particles.len() < max_particles
            invariant
                self.particles@.len() <= max_particles,
                old(self).particles@.len() <= self.particles@.len() || max_particles
                    <= self.particles@.len(),
                forall|i: int|
                    0 <= i < self.particles@.len() && i < old(self).particles@.len()
                        ==> #[trigger] self.particles@[i] == old(self).particles@[i],
                forall|i: int|
                    old(self).particles@.len() <= i < self.particles@.len() ==> #[trigger] self
                        .particles@[i] == dead_particle_spec(),
                self.emit_accumulator == old(self).emit_accumulator,
                self.vertex_data@ == old(self).vertex_data@,
                self.vertex_count == old(self).vertex_count,
                self.alive_count == old(self).alive_count,
                self.rng == old(self).rng,
            decreases max_particles - self.particles@.len(),
        {
            self.particles.push(dead_particle());
        }
        let total = max_particles * 54;
        while self.vertex_data.len() > total
            invariant
                total <= self.vertex_data@.len() || self.vertex_data@.len()
                    == old(self).vertex_data@.len(),
                self.vertex_data@.len() <= old(self).vertex_data@.len(),
                self.particles@.len() == max_particles,
                forall|i: int|
                    0 <= i < max_particles && i < old(self).particles@.len() ==> #[trigger] self
                        .particles@[i] == old(self).particles@[i],
                forall|i: int|
                    old(self).particles@.len() <= i < max_particles ==> #[trigger] self
                        .particles@[i] == dead_particle_spec(),
                forall|i: int|
                    0 <= i < self.vertex_data@.len() ==> #[trigger] self.vertex_data@[i] == old(
                        self,
                    ).vertex_data@[i],
                self.emit_accumulator == old(self).emit_accumulator,
                self.vertex_count == old(self).vertex_count,
                self.alive_count == old(self).alive_count,
                self.rng == old(self).rng,
            decreases self.vertex_data@.len(),
        {
            self.vertex_data.pop();
        }
        while self.vertex_data.len() < total
            invariant
                total == max_particles * 54,
                self.vertex_data@.len() <= total,
                self.particles@.len() == max_particles,
                forall|i: int|
                    0 <= i < max_particles && i < old(self).particles@.len() ==> #[trigger] self
                        .particles@[i] == old(self).particles@[i],
                forall|i: int|
                    old(self).particles@.len() <= i < max_particles ==> #[trigger] self
                        .particles@[i] == dead_particle_spec(),
                forall|i: int|
                    0 <= i < self.vertex_data@.len() && i < old(self).vertex_data@.len()
                        ==> #[trigger] self.vertex_data@[i] == old(self).vertex_data@[i],
                forall|i: int|
                    old(self).vertex_data@.len() <= i < self.vertex_data@.len()
                        ==> #[trigger] self.vertex_data@[i] == 0,
                old(self).vertex_data@.len() <= self.vertex_data@.len() || total
                    <= self.vertex_data@.len(),
                self.emit_accumulator == old(self).emit_accumulator,
                self.vertex_count == old(self).vertex_count,
                self.alive_count == old(self).alive_count,
                self.rng == old(self).rng,
            decreases total - self.vertex_data@.len(),
        {
            self.vertex_data.push(0);
        }
    }

    /// Emit one particle at `origin` into the first dead slot; report
    /// whether a slot was free.
    pub fn emit(&mut self, origin: Vec3, config: &ParticleConfig) -> (r: bool)
        ensures
            r == (first_dead_from_spec(old(self).particles@, 0) >= 0),
            r ==> final(self).particles@ == old(self).particles@.update(
                first_dead_from_spec(old(self).particles@, 0),
                emitted_particle_spec(origin, *config, old(self).rng.state),
            ) && final(self).rng.state == rng_after_emit_spec(old(self).rng.state),
            !r ==> final(self).particles@ == old(self).particles@
                && final(self).rng == old(self).rng,
            count_alive(final(self).particles@) == count_alive(old(self).particles@) + if r {
                1int
            } else {
                0int
            },
            final(self).vertex_data@ == old(self).vertex_data@,
            final(self).vertex_count == old(self).vertex_count,
            final(self).alive_count == old(self).alive_count,
            final(self).emit_accumulator == old(self).emit_accumulator,
            final(self).particles@.len() == old(self).particles@.len(),
    {
        let n = self.particles.len();
        let mut i: usize = 0;
        while i < n
            invariant
                self == old(self),
                n == self.particles@.len(),
                i <= n,
                forall|j: int| 0 <= j < i ==> (#[trigger] self.particles@[j]).alive,
                first_dead_from_spec(self.particles@, 0) == first_dead_from_spec(
                    self.particles@,
                    i as int,
                ),
            decreases n - i,
        {
            if !self.particles[i].alive {
                let vx = self.rng.rand_range(config.velocity_min.x, config.velocity_max.x);
                let vy = self.rng.rand_range(config.velocity_min.y, config.velocity_max.y);
                let vz = self.rng.rand_range(config.velocity_min.z, config.velocity_max.z);
                let life = self.rng.rand_range(config.lifetime_min, config.lifetime_max);
                let size = self.rng.rand_range(config.start_size_min, config.start_size_max);
                let p = Particle {
                    position: origin,
                    velocity: Vec3 { x: vx, y: vy, z: vz },
                    lifetime: life,
                    max_lifetime: life,
                    size,
                    alive: true,
                };
                let slot = &mut self.particles[i];
                *slot = p;
                proof {
                    lemma_count_alive_update(old(self).particles@, i as int, p);
                }
                return true;
            }
            i = i + 1;
        }
        false
    }

    /// One integration step of a single slot: the lifetime shrinks by
    /// `dt` (an expired slot dies), gravity scaled by the modifier
    /// accelerates the velocity, damping shrinks it, and the position
    /// advances by the velocity.
    pub open spec fn sim_particle_spec(
        p: Particle,
        dt: i64,
        gravity_modifier: i64,
        damping: i64,
    ) -> Particle {
        if !p.alive {
            p
        } else {
            let life = fx_sub_spec(p.lifetime as int, dt as int);
            if life <= 0 {
                Particle { lifetime: life as i64, alive: false, ..p }
            } else {
                let g = gravity_spec();
                let gstep = Vec3 {
                    x: fx_mul_spec(
                        fx_mul_spec(g.x as int, gravity_modifier as int),
                        dt as int,
                    ) as i64,
                    y: fx_mul_spec(
                        fx_mul_spec(g.y as int, gravity_modifier as int),
                        dt as int,
                    ) as i64,
                    z: fx_mul_spec(
                        fx_mul_spec(g.z as int, gravity_modifier as int),
                        dt as int,
                    ) as i64,
                };
                let v1 = Vec3 {
                    x: fx_add_spec(p.velocity.x as int, gstep.x as int) as i64,
                    y: fx_add_spec(p.velocity.y as int, gstep.y as int) as i64,
                    z: fx_add_spec(p.velocity.z as int, gstep.z as int) as i64,
                };
                let damp = fx_sub_spec(SCALE as int, fx_mul_spec(damping as int, dt as int));
                let v2 = Vec3 {
                    x: fx_mul_spec(v1.x as int, damp) as i64,
                    y: fx_mul_spec(v1.y as int, damp) as i64,
                    z: fx_mul_spec(v1.z as int, damp) as i64,
                };
                let pos = Vec3 {
                    x: fx_add_spec(p.position.x as int, fx_mul_spec(v2.x as int, dt as int)) as i64,
                    y: fx_add_spec(p.position.y as int, fx_mul_spec(v2.y as int, dt as int)) as i64,
                    z: fx_add_spec(p.position.z as int, fx_mul_spec(v2.z as int, dt as int)) as i64,
                };
                Particle { position: pos, velocity: v2, lifetime: life as i64, ..p }
            }
        }
    }

    /// Integrate every alive slot by `dt` and recount the survivors.
    pub fn simulate(&mut self, dt: i64, gravity_modifier: i64, damping: i64)
        ensures
            final(self).particles@.len() == old(self).particles@.len(),
            forall|i: int|
                0 <= i < old(self).particles@.len() ==> #[trigger] final(self).particles@[i]
                    == Self::sim_particle_spec(
                    old(self).particles@[i],
                    dt,
                    gravity_modifier,
                    damping,
                ),
            final(self).alive_count == count_alive(final(self).particles@),
            final(self).vertex_data@ == old(self).vertex_data@,
            final(self).vertex_count == old(self).vertex_count,
            final(self).emit_accumulator == old(self).emit_accumulator,
            final(self).rng == old(self).rng,
    {
        let n = self.particles.len();
        let mut alive: usize = 0;
        let mut i: usize = 0;
        while i < n
            invariant
                n == self.particles@.len(),
                n == old(self).particles@.len(),
                i <= n,
                forall|j: int|
                    0 <= j < i ==> #[trigger] self.particles@[j] == Self::sim_particle_spec(
                        old(self).particles@[j],
                        dt,
                        gravity_modifier,
                        damping,
                    ),
                forall|j: int|
                    i <= j < n ==> #[trigger] self.particles@[j] == old(self).particles@[j],
                alive == count_alive(self.particles@.take(i as int)),
                alive <= i,
                self.vertex_data@ == old(self).vertex_data@,
                self.vertex_count == old(self).vertex_count,
                self.emit_accumulator == old(self).emit_accumulator,
                self.rng == old(self).rng,
            decreases n - i,
        {
            let ghost pre = self.particles@;
            let p = self.particles[i];
            if p.alive {
                let life = fx_sub(p.lifetime, dt);
                if life <= 0 {
                    let slot = &mut self.particles[i];
                    slot.lifetime = life;
                    slot.alive = false;
                } else {
                    let gm = gravity_modifier;
                    let gx = fx_mul(fx_mul(0, gm), dt);
                    let gy = fx_mul(fx_mul(-642908, gm), dt);
                    let gz = fx_mul(fx_mul(0, gm), dt);
                    let v1 = Vec3 {
                        x: fx_add(p.velocity.x, gx),
                        y: fx_add(p.velocity.y, gy),
                        z: fx_add(p.velocity.z, gz),
                    };
                    let damp = fx_sub(SCALE, fx_mul(damping, dt));
                    let v2 = Vec3 {
                        x: fx_mul(v1.x, damp),
                        y: fx_mul(v1.y, damp),
                        z: fx_mul(v1.z, damp),
                    };
                    let pos = Vec3 {
                        x: fx_add(p.position.x, fx_mul(v2.x, dt)),
                        y: fx_add(p.position.y, fx_mul(v2.y, dt)),
                        z: fx_add(p.position.z, fx_mul(v2.z, dt)),
                    };
                    let slot = &mut self.particles[i];
                    slot.position = pos;
                    slot.velocity = v2;
                    slot.lifetime = life;
                    alive = alive + 1;
                }
            }
            proof {
                assert(self.particles@[i as int] == Self::sim_particle_spec(
                    old(self).particles@[i as int],
                    dt,
                    gravity_modifier,
                    damping,
                ));
                lemma_count_alive_take_succ(self.particles@, i as int);
                assert(self.particles@.take(i as int) =~= pre.take(i as int));
            }
            i = i + 1;
        }
        proof {
            assert(self.particles@.take(n as int) =~= self.particles@);
        }
        self.alive_count = alive;
    }
}

/// Whether a slot is alive (for partitioning).
pub open spec fn alive_filter() -> spec_fn(Particle) -> bool {
    |p: Particle| p.alive
}

/// Whether a slot is dead (for partitioning).
pub open spec fn dead_filter() -> spec_fn(Particle) -> bool {
    |p: Particle| !p.alive
}

/// Depth-sort key: squared distance from the camera.
pub open spec fn depth_key_spec(p: Particle, cam: Vec3) -> int {
    vdist_sq_spec(p.position, cam)
}

/// Position at which a particle of key `kp` is inserted into a
/// descending-ordered run: before the first element with a smaller key.
pub open spec fn insert_pos_spec(s: Seq<Particle>, kp: int, cam: Vec3) -> int
    decreases s.len(),
{
    if s.len() == 0 {
        0
    } else if depth_key_spec(s[0], cam) < kp {
        0
    } else {
        1 + insert_pos_spec(s.drop_first(), kp, cam)
    }
}

proof fn lemma_insert_pos_bounds(s: Seq<Particle>, kp: int, cam: Vec3)
    ensures
        0 <= insert_pos_spec(s, kp, cam) <= s.len(),
    decreases s.len(),
{
    if s.len() > 0 && !(depth_key_spec(s[0], cam) < kp) {
        lemma_insert_pos_bounds(s.drop_first(), kp, cam);
    }
}

/// A scan that saw only keys at least `kp` before `i`, and a smaller key
/// or the end at `i`, has found the insertion position.
proof fn lemma_insert_pos_is(s: Seq<Particle>, kp: int, cam: Vec3, i: int)
    requires
        0 <= i <= s.len(),
        forall|j: int| 0 <= j < i ==> depth_key_spec(#[trigger] s[j], cam) >= kp,
        i == s.len() || depth_key_spec(s[i], cam) < kp,
    ensures
        insert_pos_spec(s, kp, cam) == i,
    decreases i,
{
    if i > 0 {
        assert(forall|j: int|
            0 <= j < i - 1 ==> depth_key_spec(#[trigger] s.drop_first()[j], cam) >= kp);
        lemma_insert_pos_is(s.drop_first(), kp, cam, i - 1);
    } else {
        if s.len() > 0 {
        }
    }
}

/// A particle inserted into a descending run, keeping the order.
pub open spec fn insert_desc_spec(s: Seq<Particle>, p: Particle, cam: Vec3) -> Seq<Particle> {
    let pos = insert_pos_spec(s, depth_key_spec(p, cam), cam);
    s.take(pos) + seq![p] + s.skip(pos)
}

/// The alive run sorted farthest-from-camera first, built by repeated
/// insertion.
pub open spec fn sort_desc_spec(s: Seq<Particle>, cam: Vec3) -> Seq<Particle>
    decreases s.len(),
{
    if s.len() == 0 {
        Seq::<Particle>::empty()
    } else {
        insert_desc_spec(sort_desc_spec(s.drop_last(), cam), s.last(), cam)
    }
}

proof fn lemma_insert_desc_len_alive(s: Seq<Particle>, p: Particle, cam: Vec3)
    requires
        forall|i: int| 0 <= i < s.len() ==> (#[trigger] s[i]).alive,
        p.alive,
    ensures
        insert_desc_spec(s, p, cam).len() == s.len() + 1,
        forall|i: int|
            0 <= i < s.len() + 1 ==> (#[trigger] insert_desc_spec(s, p, cam)[i]).alive,
{
    lemma_insert_pos_bounds(s, depth_key_spec(p, cam), cam);
}

/// Sorting keeps the length and keeps every slot alive.
pub proof fn lemma_sort_desc_len_alive(s: Seq<Particle>, cam: Vec3)
    requires
        forall|i: int| 0 <= i < s.len() ==> (#[trigger] s[i]).alive,
    ensures
        sort_desc_spec(s, cam).len() == s.len(),
        forall|i: int| 0 <= i < s.len() ==> (#[trigger] sort_desc_spec(s, cam)[i]).alive,
    decreases s.len(),
{
    if s.len() > 0 {
        lemma_sort_desc_len_alive(s.drop_last(), cam);
        lemma_insert_desc_len_alive(sort_desc_spec(s.drop_last(), cam), s.last(), cam);
    }
}

/// Insertion keeps a descending run descending.
proof fn lemma_insert_desc_sorted(s: Seq<Particle>, p: Particle, cam: Vec3)
    requires
        forall|i: int, j: int|
            0 <= i < j < s.len() ==> depth_key_spec(#[trigger] s[i], cam) >= depth_key_spec(
                #[trigger] s[j],
                cam,
            ),
    ensures
        ({
            let out = insert_desc_spec(s, p, cam);
            forall|i: int, j: int|
                0 <= i < j < out.len() ==> depth_key_spec(#[trigger] out[i], cam)
                    >= depth_key_spec(#[trigger] out[j], cam)
        }),
    decreases s.len(),
{
    let kp = depth_key_spec(p, cam);
    let pos = insert_pos_spec(s, kp, cam);
    lemma_insert_pos_bounds(s, kp, cam);
    lemma_insert_pos_splits(s, kp, cam);
    let out = insert_desc_spec(s, p, cam);
    assert(forall|i: int|
        0 <= i < out.len() ==> #[trigger] out[i] == if i < pos {
            s[i]
        } else if i == pos {
            p
        } else {
            s[i - 1]
        });
}

/// Everything before the insertion position keys at least as high as
/// the inserted particle, everything from it on keys lower.
proof fn lemma_insert_pos_splits(s: Seq<Particle>, kp: int, cam: Vec3)
    requires
        forall|i: int, j: int|
            0 <= i < j < s.len() ==> depth_key_spec(#[trigger] s[i], cam) >= depth_key_spec(
                #[trigger] s[j],
                cam,
            ),
    ensures
        forall|i: int|
            0 <= i < insert_pos_spec(s, kp, cam) ==> depth_key_spec(#[trigger] s[i], cam) >= kp,
        forall|i: int|
            insert_pos_spec(s, kp, cam) <= i < s.len() ==> depth_key_spec(#[trigger] s[i], cam)
                < kp,
    decreases s.len(),
{
    lemma_insert_pos_bounds(s, kp, cam);
    if s.len() > 0 {
        if depth_key_spec(s[0], cam) < kp {
            // the whole run keys below the head, so below `kp` too
            assert forall|i: int| 1 <= i < s.len() implies depth_key_spec(
                #[trigger] s[i],
                cam,
            ) < kp by {
                assert(depth_key_spec(s[0], cam) >= depth_key_spec(s[i], cam));
            }
        } else {
            lemma_insert_pos_splits(s.drop_first(), kp, cam);
            assert(forall|i: int|
                1 <= i < s.len() ==> #[trigger] s[i] == s.drop_first()[i - 1]);
        }
    }
}

/// The depth sort produces a descending run.
pub proof fn lemma_sort_desc_sorted(s: Seq<Particle>, cam: Vec3)
    ensures
        ({
            let out = sort_desc_spec(s, cam);
            forall|i: int, j: int|
                0 <= i < j < out.len() ==> depth_key_spec(#[trigger] out[i], cam)
                    >= depth_key_spec(#[trigger] out[j], cam)
        }),
    decreases s.len(),
{
    if s.len() > 0 {
        lemma_sort_desc_sorted(s.drop_last(), cam);
        lemma_insert_desc_sorted(sort_desc_spec(s.drop_last(), cam), s.last(), cam);
    }
}

/// Every slot is either alive or dead: the two partitions cover the
/// sequence.
proof fn lemma_filter_split_len(s: Seq<Particle>)
    ensures
        s.filter(alive_filter()).len() + s.filter(dead_filter()).len() == s.len(),
    decreases s.len(),
{
    reveal(Seq::filter);
    if s.len() > 0 {
        lemma_filter_split_len(s.drop_last());
    }
}

/// The alive count is the length of the alive partition.
pub proof fn lemma_count_alive_is_filter_len(s: Seq<Particle>, cam: Vec3)
    ensures
        count_alive(s) == s.filter(alive_filter()).len(),
    decreases s.len(),
{
    reveal(Seq::filter);
    if s.len() > 0 {
        lemma_count_alive_is_filter_len(s.drop_last(), cam);
    }
}

fn insert_desc(v: &Vec<Particle>, p: Particle, cam: Vec3) -> (r: Vec<Particle>)
    ensures
        r@ == insert_desc_spec(v@, p, cam),
{
    let n = v.len();
    let kp = vdist_sq(p.position, cam);
    let mut idx: usize = 0;
    loop
        invariant_except_break
            n == v@.len(),
            idx <= n,
            kp == depth_key_spec(p, cam),
            forall|j: int| 0 <= j < idx ==> depth_key_spec(#[trigger] v@[j], cam) >= kp,
        ensures
            n == v@.len(),
            idx <= n,
            forall|j: int| 0 <= j < idx ==> depth_key_spec(#[trigger] v@[j], cam) >= kp,
            idx == n || depth_key_spec(v@[idx as int], cam) < kp,
        decreases n - idx,
    {
        if idx >= n {
            break ;
        }
        let k = vdist_sq(v[idx].position, cam);
        if k < kp {
            break ;
        }
        idx = idx + 1;
    }
    proof {
        lemma_insert_pos_is(v@, depth_key_spec(p, cam), cam, idx as int);
    }
    let mut out: Vec<Particle> = Vec::new();
    let mut i: usize = 0;
    while i < idx
        invariant
            idx <= n,
            n == v@.len(),
            i <= idx,
            out@ == v@.take(i as int),
        decreases idx - i,
    {
        out.push(v[i]);
        proof {
            assert(out@ =~= v@.take(i + 1));
        }
        i = i + 1;
    }
    out.push(p);
    let mut k: usize = idx;
    while k < n
        invariant
            idx <= k <= n,
            n == v@.len(),
            out@ == v@.take(idx as int) + seq![p] + v@.subrange(idx as int, k as int),
        decreases n - k,
    {
        out.push(v[k]);
        proof {
            assert(out@ =~= v@.take(idx as int) + seq![p] + v@.subrange(idx as int, k + 1));
        }
        k = k + 1;
    }
    proof {
        assert(v@.subrange(idx as int, n as int) =~= v@.skip(idx as int));
        assert(out@ =~= insert_desc_spec(v@, p, cam));
    }
    out
}

impl ParticlePool {
    /// Move alive slots to the front, ordered farthest from the camera
    /// first, dead slots after them; the alive count is unchanged.
    pub fn sort_back_to_front(&mut self, cam_pos: Vec3)
        ensures
            final(self).particles@ == sort_desc_spec(
                old(self).particles@.filter(alive_filter()),
                cam_pos,
            ) + old(self).particles@.filter(dead_filter()),
            final(self).particles@.len() == old(self).particles@.len(),
            count_alive(final(self).particles@) == count_alive(old(self).particles@),
            final(self).vertex_data@ == old(self).vertex_data@,
            final(self).vertex_count == old(self).vertex_count,
            final(self).alive_count == old(self).alive_count,
            final(self).emit_accumulator == old(self).emit_accumulator,
            final(self).rng == old(self).rng,
    {
        let n = self.particles.len();
        let mut alive_v: Vec<Particle> = Vec::new();
        let mut dead_v: Vec<Particle> = Vec::new();
        let mut i: usize = 0;
        proof {
            reveal(Seq::filter);
            assert(self.particles@.take(0).filter(alive_filter()) =~= Seq::<Particle>::empty());
            assert(self.particles@.take(0).filter(dead_filter()) =~= Seq::<Particle>::empty());
        }
        while i < n
            invariant
                n == self.particles@.len(),
                i <= n,
                alive_v@ == self.particles@.take(i as int).filter(alive_filter()),
                dead_v@ == self.particles@.take(i as int).filter(dead_filter()),
            decreases n - i,
        {
            let p = self.particles[i];
            if p.alive {
                alive_v.push(p);
            } else {
                dead_v.push(p);
            }
            i = i + 1;
            proof {
                reveal(Seq::filter);
                let s1 = self.particles@.take(i as int);
                assert(s1.drop_last() =~= self.particles@.take(i as int - 1));
                assert(s1.last() == self.particles@[i as int - 1]);
            }
        }
        proof {
            assert(self.particles@.take(n as int) =~= self.particles@);
        }
        let na = alive_v.len();
        let mut sorted: Vec<Particle> = Vec::new();
        let mut k: usize = 0;
        while k < na
            invariant
                na == alive_v@.len(),
                k <= na,
                sorted@ == sort_desc_spec(alive_v@.take(k as int), cam_pos),
            decreases na - k,
        {
            sorted = insert_desc(&sorted, alive_v[k], cam_pos);
            k = k + 1;
            proof {
                let s1 = alive_v@.take(k as int);
                assert(s1.drop_last() =~= alive_v@.take(k as int - 1));
                assert(s1.last() == alive_v@[k as int - 1]);
            }
        }
        proof {
            assert(alive_v@.take(na as int) =~= alive_v@);
        }
        let nd = dead_v.len();
        let mut out = sorted;
        let ghost sorted_seq = out@;
        let mut d: usize = 0;
        while d < nd
            invariant
                nd == dead_v@.len(),
                d <= nd,
                out@ == sorted_seq + dead_v@.subrange(0, d as int),
            decreases nd - d,
        {
            out.push(dead_v[d]);
            proof {
                assert(out@ =~= sorted_seq + dead_v@.subrange(0, d + 1));
            }
            d = d + 1;
        }
        proof {
            assert(dead_v@.subrange(0, nd as int) =~= dead_v@);
            assert(out@ =~= sort_desc_spec(self.particles@.filter(alive_filter()), cam_pos)
                + self.particles@.filter(dead_filter()));
        }
        self.particles = out;
        proof {
            let av = old(self).particles@.filter(alive_filter());
            let dv = old(self).particles@.filter(dead_filter());
            broadcast use vstd::prelude::Seq::lemma_filter_len;
            broadcast use vstd::prelude::Seq::lemma_filter_pred;

            assert(forall|j: int| 0 <= j < av.len() ==> (#[trigger] av[j]).alive);
            lemma_sort_desc_len_alive(av, cam_pos);
            let sv = sort_desc_spec(av, cam_pos);
            assert(forall|j: int| 0 <= j < dv.len() ==> !(#[trigger] dv[j]).alive);
            assert(forall|j: int|
                0 <= j < self.particles@.len() ==> self.particles@[j] == if j < sv.len() {
                    sv[j]
                } else {
                    dv[j - sv.len()]
                });
            lemma_count_alive_partition(self.particles@, sv.len() as int);
            lemma_count_alive_is_filter_len(old(self).particles@, cam_pos);
            lemma_filter_split_len(old(self).particles@);
        }
    }
}

/// Componentwise fixed-point helpers over vectors.
pub open spec fn v3scale_spec(a: Vec3, s: int) -> Vec3 {
    Vec3 {
        x: fx_mul_spec(a.x as int, s) as i64,
        y: fx_mul_spec(a.y as int, s) as i64,
        z: fx_mul_spec(a.z as int, s) as i64,
    }
}

pub open spec fn v3add_spec(a: Vec3, b: Vec3) -> Vec3 {
    Vec3 {
        x: fx_add_spec(a.x as int, b.x as int) as i64,
        y: fx_add_spec(a.y as int, b.y as int) as i64,
        z: fx_add_spec(a.z as int, b.z as int) as i64,
    }
}

pub open spec fn v3sub_spec(a: Vec3, b: Vec3) -> Vec3 {
    Vec3 {
        x: fx_sub_spec(a.x as int, b.x as int) as i64,
        y: fx_sub_spec(a.y as int, b.y as int) as i64,
        z: fx_sub_spec(a.z as int, b.z as int) as i64,
    }
}

/// One billboard vertex: position, texture coordinates and color.
pub open spec fn vertex9_spec(pos: Vec3, u: i64, v: i64, cr: i64, cg: i64, cb: i64, ca: i64) -> Seq<
    i64,
> {
    seq![pos.x, pos.y, pos.z, u, v, cr, cg, cb, ca]
}

/// Normalized age of a particle: zero when fresh, one when expired.
pub open spec fn age_spec(p: Particle) -> int {
    let ratio = if p.max_lifetime <= 0 {
        0
    } else {
        fx_div_spec(p.lifetime as int, p.max_lifetime as int)
    };
    let clamped = if ratio < 0 {
        0
    } else if ratio > SCALE as int {
        SCALE as int
    } else {
        ratio
    };
    fx_sub_spec(SCALE as int, clamped)
}

/// The 54 scalars of one particle's camera-facing quad: two triangles
/// spanned by the camera basis scaled to half the aged size, colored by
/// the configured start-to-end ramps.
pub open spec fn billboard54_spec(
    p: Particle,
    config: ParticleConfig,
    cam_right: Vec3,
    cam_up: Vec3,
) -> Seq<i64> {
    let t = age_spec(p);
    let size = fx_lerp_spec(p.size as int, config.end_size as int, t);
    let half = fx_mul_spec(size, 32768);
    let right = v3scale_spec(cam_right, half);
    let up = v3scale_spec(cam_up, half);
    let bl = v3sub_spec(v3sub_spec(p.position, right), up);
    let br = v3sub_spec(v3add_spec(p.position, right), up);
    let tr = v3add_spec(v3add_spec(p.position, right), up);
    let tl = v3add_spec(v3sub_spec(p.position, right), up);
    let cr = fx_lerp_spec(config.start_color@[0] as int, config.end_color@[0] as int, t) as i64;
    let cg = fx_lerp_spec(config.start_color@[1] as int, config.end_color@[1] as int, t) as i64;
    let cb = fx_lerp_spec(config.start_color@[2] as int, config.end_color@[2] as int, t) as i64;
    let ca = fx_lerp_spec(config.start_alpha as int, config.end_alpha as int, t) as i64;
    vertex9_spec(bl, 0, 0, cr, cg, cb, ca) + vertex9_spec(br, SCALE, 0, cr, cg, cb, ca)
        + vertex9_spec(tr, SCALE, SCALE, cr, cg, cb, ca) + vertex9_spec(bl, 0, 0, cr, cg, cb, ca)
        + vertex9_spec(tr, SCALE, SCALE, cr, cg, cb, ca) + vertex9_spec(
        tl,
        0,
        SCALE,
        cr,
        cg,
        cb,
        ca,
    )
}

/// Billboard scalars of the first `k` slots, alive slots only, in order.
pub open spec fn billboards_prefix_spec(
    s: Seq<Particle>,
    k: int,
    config: ParticleConfig,
    cam_right: Vec3,
    cam_up: Vec3,
) -> Seq<i64>
    decreases k,
{
    if k <= 0 {
        Seq::<i64>::empty()
    } else {
        billboards_prefix_spec(s, k - 1, config, cam_right, cam_up) + if s[k - 1].alive {
            billboard54_spec(s[k - 1], config, cam_right, cam_up)
        } else {
            Seq::<i64>::empty()
        }
    }
}

/// The billboard buffer holds 54 scalars for each alive slot.
pub proof fn lemma_billboards_prefix_len(
    s: Seq<Particle>,
    k: int,
    config: ParticleConfig,
    cam_right: Vec3,
    cam_up: Vec3,
)
    requires
        0 <= k <= s.len(),
    ensures
        billboards_prefix_spec(s, k, config, cam_right, cam_up).len() == 54 * count_alive(
            s.take(k),
        ),
    decreases k,
{
    if k == 0 {
        assert(s.take(0) =~= Seq::<Particle>::empty());
    } else {
        lemma_billboards_prefix_len(s, k - 1, config, cam_right, cam_up);
        lemma_count_alive_take_succ(s, k - 1);
        lemma_count_alive_le_len(s.take(k - 1));
    }
}

/// Append one vertex to a scalar buffer.
fn push_vertex(out: &mut Vec<i64>, pos: Vec3, u: i64, v: i64, cr: i64, cg: i64, cb: i64, ca: i64)
    ensures
        final(out)@ == old(out)@ + vertex9_spec(pos, u, v, cr, cg, cb, ca),
{
    out.push(pos.x);
    out.push(pos.y);
    out.push(pos.z);
    out.push(u);
    out.push(v);
    out.push(cr);
    out.push(cg);
    out.push(cb);
    out.push(ca);
    proof {
        assert(out@ =~= old(out)@ + vertex9_spec(pos, u, v, cr, cg, cb, ca));
    }
}

/// Append the billboard quad of one particle.
fn push_billboard(
    out: &mut Vec<i64>,
    p: Particle,
    config: &ParticleConfig,
    cam_right: Vec3,
    cam_up: Vec3,
)
    ensures
        final(out)@ == old(out)@ + billboard54_spec(p, *config, cam_right, cam_up),
{
    let ratio = if p.max_lifetime <= 0 {
        0
    } else {
        fx_div(p.lifetime, p.max_lifetime)
    };
    let clamped = fx_clamp(ratio, 0, SCALE);
    let t = fx_sub(SCALE, clamped);
    let size = fx_lerp(p.size, config.end_size, t);
    let half = fx_mul(size, 32768);
    let right = Vec3 {
        x: fx_mul(cam_right.x, half),
        y: fx_mul(cam_right.y, half),
        z: fx_mul(cam_right.z, half),
    };
    let up = Vec3 { x: fx_mul(cam_up.x, half), y: fx_mul(cam_up.y, half), z: fx_mul(cam_up.z, half) };
    let pr = Vec3 {
        x: fx_add(p.position.x, right.x),
        y: fx_add(p.position.y, right.y),
        z: fx_add(p.position.z, right.z),
    };
    let ml = Vec3 {
        x: fx_sub(p.position.x, right.x),
        y: fx_sub(p.position.y, right.y),
        z: fx_sub(p.position.z, right.z),
    };
    let bl = Vec3 { x: fx_sub(ml.x, up.x), y: fx_sub(ml.y, up.y), z: fx_sub(ml.z, up.z) };
    let br = Vec3 { x: fx_sub(pr.x, up.x), y: fx_sub(pr.y, up.y), z: fx_sub(pr.z, up.z) };
    let tr = Vec3 { x: fx_add(pr.x, up.x), y: fx_add(pr.y, up.y), z: fx_add(pr.z, up.z) };
    let tl = Vec3 { x: fx_add(ml.x, up.x), y: fx_add(ml.y, up.y), z: fx_add(ml.z, up.z) };
    let cr = fx_lerp(config.start_color[0], config.end_color[0], t);
    let cg = fx_lerp(config.start_color[1], config.end_color[1], t);
    let cb = fx_lerp(config.start_color[2], config.end_color[2], t);
    let ca = fx_lerp(config.start_alpha, config.end_alpha, t);
    push_vertex(out, bl, 0, 0, cr, cg, cb, ca);
    push_vertex(out, br, SCALE, 0, cr, cg, cb, ca);
    push_vertex(out, tr, SCALE, SCALE, cr, cg, cb, ca);
    push_vertex(out, bl, 0, 0, cr, cg, cb, ca);
    push_vertex(out, tr, SCALE, SCALE, cr, cg, cb, ca);
    push_vertex(out, tl, 0, SCALE, cr, cg, cb, ca);
    proof {
        assert(out@ =~= old(out)@ + billboard54_spec(p, *config, cam_right, cam_up));
    }
}

impl ParticlePool {
    /// Rewrite the vertex buffer with one camera-facing quad per alive
    /// slot, in storage order; scalars beyond the written prefix keep
    /// their previous values.
    pub fn build_billboards(&mut self, config: &ParticleConfig, cam_right: Vec3, cam_up: Vec3)
        requires
            old(self).wf(),
        ensures
            final(self).wf(),
            final(self).particles@ == old(self).particles@,
            final(self).alive_count == old(self).alive_count,
            final(self).emit_accumulator == old(self).emit_accumulator,
            final(self).rng == old(self).rng,
            final(self).vertex_count == 6 * count_alive(old(self).particles@),
            final(self).vertex_data@.len() == old(self).vertex_data@.len(),
            final(self).vertex_data@ == billboards_prefix_spec(
                old(self).particles@,
                old(self).particles@.len() as int,
                *config,
                cam_right,
                cam_up,
            ) + old(self).vertex_data@.skip(54 * count_alive(old(self).particles@)),
    {
        let n = self.particles.len();
        let buf_len = self.vertex_data.len();
        let mut out: Vec<i64> = Vec::new();
        let mut vert_count: usize = 0;
        let mut i: usize = 0;
        proof {
            assert(self.particles@.take(0) =~= Seq::<Particle>::empty());
        }
        while i < n
            invariant
                self == old(self),
                n == self.particles@.len(),
                buf_len == self.vertex_data@.len(),
                buf_len == n * 54,
                i <= n,
                out@ == billboards_prefix_spec(self.particles@, i as int, *config, cam_right, cam_up),
                out@.len() == 54 * count_alive(self.particles@.take(i as int)),
                vert_count == 6 * count_alive(self.particles@.take(i as int)),
            decreases n - i,
        {
            let p = self.particles[i];
            proof {
                lemma_count_alive_take_succ(self.particles@, i as int);
                lemma_count_alive_le_len(self.particles@.take(i as int));
            }
            if p.alive {
                push_billboard(&mut out, p, config, cam_right, cam_up);
                vert_count = vert_count + 6;
            }
            i = i + 1;
        }
        proof {
            assert(self.particles@.take(n as int) =~= self.particles@);
            lemma_count_alive_le_len(self.particles@);
        }
        let written = out.len();
        let mut k: usize = written;
        let ghost head = out@;
        while k < buf_len
            invariant
                self == old(self),
                buf_len == self.vertex_data@.len(),
                written <= k <= buf_len,
                out@ == head + self.vertex_data@.subrange(written as int, k as int),
            decreases buf_len - k,
        {
            out.push(self.vertex_data[k]);
            proof {
                assert(out@ =~= head + self.vertex_data@.subrange(written as int, k + 1));
            }
            k = k + 1;
        }
        proof {
            assert(head + self.vertex_data@.subrange(written as int, buf_len as int) =~= head
                + self.vertex_data@.skip(written as int));
        }
        self.vertex_data = out;
        self.vertex_count = vert_count;
    }

    /// The pool after resizing to `max` slots.
    pub open spec fn resize_particles_spec(s: Seq<Particle>, max: int) -> Seq<Particle> {
        if s.len() >= max {
            s.take(max)
        } else {
            s + Seq::new((max - s.len()) as nat, |i: int| dead_particle_spec())
        }
    }

    /// Slots and generator state after up to `n` burst emissions; the
    /// burst stops early once no dead slot remains.
    pub open spec fn burst_spec(
        s: Seq<Particle>,
        rng: u32,
        origin: Vec3,
        config: ParticleConfig,
        n: int,
    ) -> (Seq<Particle>, u32)
        decreases n,
    {
        if n <= 0 {
            (s, rng)
        } else {
            let fd = first_dead_from_spec(s, 0);
            if fd < 0 {
                (s, rng)
            } else {
                Self::burst_spec(
                    s.update(fd, emitted_particle_spec(origin, config, rng)),
                    rng_after_emit_spec(rng),
                    origin,
                    config,
                    n - 1,
                )
            }
        }
    }

    /// Slots, generator state and remaining accumulator after continuous
    /// emission: one particle per whole unit accumulated, stopping early
    /// when the pool is full.
    pub open spec fn continuous_spec(
        s: Seq<Particle>,
        rng: u32,
        acc: int,
        origin: Vec3,
        config: ParticleConfig,
    ) -> (Seq<Particle>, u32, int)
        decreases acc,
    {
        if acc >= SCALE as int && first_dead_from_spec(s, 0) >= 0 {
            Self::continuous_spec(
                s.update(
                    first_dead_from_spec(s, 0),
                    emitted_particle_spec(origin, config, rng),
                ),
                rng_after_emit_spec(rng),
                acc - SCALE as int,
                origin,
                config,
            )
        } else {
            (s, rng, acc)
        }
    }

    /// Full per-frame update: resize to the configured capacity, burst,
    /// emit continuously, integrate, depth-sort and rebuild the billboard
    /// buffer. The burst request is consumed; each stage's effect is
    /// pinned by its stage spec.
    pub fn update(
        &mut self,
        dt: i64,
        origin: Vec3,
        config: &mut ParticleConfig,
        cam_pos: Vec3,
        cam_right: Vec3,
        cam_up: Vec3,
    )
        requires
            old(self).wf(),
            old(config).max_particles <= usize::MAX / 54,
        ensures
            final(self).wf(),
            *final(config) == (ParticleConfig {
                burst_count: if old(config).burst_count > 0 {
                    0i32
                } else {
                    old(config).burst_count
                },
                ..*old(config)
            }),
            final(self).particles@.len() == old(config).max_particles,
            final(self).alive_count <= old(config).max_particles,
            ({
                let s0 = Self::resize_particles_spec(
                    old(self).particles@,
                    old(config).max_particles as int,
                );
                let b = Self::burst_spec(
                    s0,
                    old(self).rng.state,
                    origin,
                    *old(config),
                    if old(config).burst_count > 0 {
                        old(config).burst_count as int
                    } else {
                        0
                    },
                );
                let acc1 = fx_add_spec(
                    old(self).emit_accumulator as int,
                    fx_mul_spec(old(config).emission_rate as int, dt as int),
                );
                let c = Self::continuous_spec(b.0, b.1, acc1, origin, *final(config));
                let simmed = Seq::new(
                    c.0.len(),
                    |i: int|
                        Self::sim_particle_spec(
                            c.0[i],
                            dt,
                            old(config).gravity_modifier,
                            old(config).damping,
                        ),
                );
                &&& final(self).rng.state == c.1
                &&& final(self).emit_accumulator == c.2
                &&& final(self).alive_count == count_alive(simmed)
                &&& final(self).alive_count == count_alive(final(self).particles@)
                &&& final(self).particles@ == sort_desc_spec(
                    simmed.filter(alive_filter()),
                    cam_pos,
                ) + simmed.filter(dead_filter())
                &&& final(self).vertex_count == 6 * count_alive(final(self).particles@)
                &&& final(self).vertex_data@ == billboards_prefix_spec(
                    final(self).particles@,
                    final(self).particles@.len() as int,
                    *final(config),
                    cam_right,
                    cam_up,
                ) + final(self).vertex_data@.skip(
                    54 * count_alive(final(self).particles@),
                )
            }),
    {
        self.resize(config.max_particles);
        proof {
            assert(self.particles@ =~= Self::resize_particles_spec(
                old(self).particles@,
                config.max_particles as int,
            ));
        }
        let ghost s0 = self.particles@;
        let ghost rng0 = self.rng.state;
        let ghost cfg0 = *config;
        let ghost burst_total: int = if config.burst_count > 0 {
            config.burst_count as int
        } else {
            0
        };
        if config.burst_count > 0 {
            let burst_n = config.burst_count;
            let mut j: i32 = 0;
            loop
                invariant_except_break
                    0 <= j <= burst_n,
                    *config == cfg0,
                    burst_total == burst_n as int,
                    Self::burst_spec(s0, rng0, origin, cfg0, burst_total) == Self::burst_spec(
                        self.particles@,
                        self.rng.state,
                        origin,
                        cfg0,
                        burst_total - j as int,
                    ),
                    self.particles@.len() == s0.len(),
                    self.vertex_data@.len() == s0.len() * 54,
                    self.vertex_count == old(self).vertex_count,
                    self.alive_count == old(self).alive_count,
                    self.emit_accumulator == old(self).emit_accumulator,
                ensures
                    *config == cfg0,
                    (self.particles@, self.rng.state) == Self::burst_spec(
                        s0,
                        rng0,
                        origin,
                        cfg0,
                        burst_total,
                    ),
                    self.particles@.len() == s0.len(),
                    self.vertex_data@.len() == s0.len() * 54,
                    self.vertex_count == old(self).vertex_count,
                    self.alive_count == old(self).alive_count,
                    self.emit_accumulator == old(self).emit_accumulator,
                decreases burst_n - j,
            {
                if j >= burst_n {
                    break ;
                }
                let ok = self.emit(origin, config);
                if !ok {
                    break ;
                }
                j = j + 1;
            }
            config.burst_count = 0;
        }
        let ghost cfg1 = *config;
        self.emit_accumulator = fx_add(self.emit_accumulator, fx_mul(config.emission_rate, dt));
        let ghost b = Self::burst_spec(s0, rng0, origin, cfg0, burst_total);
        let ghost acc1 = self.emit_accumulator as int;
        loop
            invariant_except_break
                *config == cfg1,
                Self::continuous_spec(b.0, b.1, acc1, origin, cfg1) == Self::continuous_spec(
                    self.particles@,
                    self.rng.state,
                    self.emit_accumulator as int,
                    origin,
                    cfg1,
                ),
                self.particles@.len() == s0.len(),
                self.vertex_data@.len() == s0.len() * 54,
                self.vertex_count == old(self).vertex_count,
                self.alive_count == old(self).alive_count,
            ensures
                *config == cfg1,
                ({
                    let c = Self::continuous_spec(b.0, b.1, acc1, origin, cfg1);
                    &&& self.particles@ == c.0
                    &&& self.rng.state == c.1
                    &&& self.emit_accumulator as int == c.2
                }),
                self.particles@.len() == s0.len(),
                self.vertex_data@.len() == s0.len() * 54,
                self.vertex_count == old(self).vertex_count,
                self.alive_count == old(self).alive_count,
            decreases self.emit_accumulator,
        {
            if self.emit_accumulator < SCALE {
                break ;
            }
            let ok = self.emit(origin, config);
            if !ok {
                break ;
            }
            self.emit_accumulator = fx_sub(self.emit_accumulator, SCALE);
        }
        let ghost c = Self::continuous_spec(b.0, b.1, acc1, origin, cfg1);
        self.simulate(dt, config.gravity_modifier, config.damping);
        proof {
            assert(self.particles@ =~= Seq::new(
                c.0.len(),
                |i: int|
                    Self::sim_particle_spec(c.0[i], dt, cfg0.gravity_modifier, cfg0.damping),
            ));
        }
        self.sort_back_to_front(cam_pos);
        let ghost pre_buffer = self.vertex_data@;
        self.build_billboards(config, cam_right, cam_up);
        proof {
            let n2 = self.particles@.len() as int;
            lemma_billboards_prefix_len(self.particles@, n2, *config, cam_right, cam_up);
            assert(self.particles@.take(n2) =~= self.particles@);
            let head = billboards_prefix_spec(self.particles@, n2, *config, cam_right, cam_up);
            let w = 54 * count_alive(self.particles@);
            assert(self.vertex_data@.skip(w) =~= pre_buffer.skip(w));
            assert(self.vertex_data@ =~= head + self.vertex_data@.skip(w));
            lemma_count_alive_le_len(self.particles@);
        }
    }
}

/// On a run that is alive up to `w` and dead afterwards, the first dead
/// slot is exactly `w`.
proof fn lemma_first_dead_partitioned(s: Seq<Particle>, w: int, i: int)
    requires
        0 <= i <= w < s.len(),
        forall|j: int| 0 <= j < w ==> (#[trigger] s[j]).alive,
        !s[w].alive,
    ensures
        first_dead_from_spec(s, i) == w,
    decreases w - i,
{
    if i < w {
        lemma_first_dead_partitioned(s, w, i + 1);
    }
}

/// Bursting `n` particles into a pool whose first `w` slots are alive and
/// whose remaining slots are free fills exactly `n` more slots, in order.
pub proof fn lemma_burst_fills(
    s: Seq<Particle>,
    rng: u32,
    origin: Vec3,
    config: ParticleConfig,
    n: int,
    w: int,
)
    requires
        0 <= w,
        0 <= n,
        w + n <= s.len(),
        forall|j: int| 0 <= j < w ==> (#[trigger] s[j]).alive,
        forall|j: int| w <= j < s.len() ==> !(#[trigger] s[j]).alive,
    ensures
        ParticlePool::burst_spec(s, rng, origin, config, n).0.len() == s.len(),
        count_alive(ParticlePool::burst_spec(s, rng, origin, config, n).0) == w + n,
    decreases n,
{
    if n <= 0 {
        lemma_count_alive_partition(s, w);
    } else {
        lemma_first_dead_partitioned(s, w, 0);
        let p = emitted_particle_spec(origin, config, rng);
        let s2 = s.update(w, p);
        lemma_burst_fills(s2, rng_after_emit_spec(rng), origin, config, n - 1, w + 1);
    }
}

/// Particle emission conservation: a burst of `n` into a pool with every
/// slot free yields exactly `n` alive particles.
pub proof fn lemma_burst_emission_conservation(
    s: Seq<Particle>,
    rng: u32,
    origin: Vec3,
    config: ParticleConfig,
    n: int,
)
    requires
        0 <= n <= s.len(),
        forall|j: int| 0 <= j < s.len() ==> !(#[trigger] s[j]).alive,
    ensures
        count_alive(ParticlePool::burst_spec(s, rng, origin, config, n).0) == n,
{
    lemma_burst_fills(s, rng, origin, config, n, 0);
}

/// Emission never lifts the alive count beyond the pool's capacity,
/// however large the burst request.
pub proof fn lemma_burst_never_exceeds_capacity(
    s: Seq<Particle>,
    rng: u32,
    origin: Vec3,
    config: ParticleConfig,
    n: int,
)
    ensures
        ParticlePool::burst_spec(s, rng, origin, config, n).0.len() == s.len(),
        count_alive(ParticlePool::burst_spec(s, rng, origin, config, n).0) <= s.len(),
    decreases n,
{
    if n <= 0 || first_dead_from_spec(s, 0) < 0 {
        lemma_count_alive_le_len(s);
    } else {
        let fd = first_dead_from_spec(s, 0);
        lemma_first_dead_in_range(s, 0);
        let p = emitted_particle_spec(origin, config, rng);
        lemma_burst_never_exceeds_capacity(
            s.update(fd, p),
            rng_after_emit_spec(rng),
            origin,
            config,
            n - 1,
        );
    }
}

/// Continuous emission also never lifts the alive count beyond the
/// pool's capacity, however much time has accumulated.
pub proof fn lemma_continuous_never_exceeds_capacity(
    s: Seq<Particle>,
    rng: u32,
    acc: int,
    origin: Vec3,
    config: ParticleConfig,
)
    ensures
        ParticlePool::continuous_spec(s, rng, acc, origin, config).0.len() == s.len(),
        count_alive(ParticlePool::continuous_spec(s, rng, acc, origin, config).0) <= s.len(),
    decreases acc,
{
    if acc >= SCALE as int && first_dead_from_spec(s, 0) >= 0 {
        let fd = first_dead_from_spec(s, 0);
        lemma_first_dead_in_range(s, 0);
        let p = emitted_particle_spec(origin, config, rng);
        lemma_continuous_never_exceeds_capacity(
            s.update(fd, p),
            rng_after_emit_spec(rng),
            acc - SCALE as int,
            origin,
            config,
        );
    } else {
        lemma_count_alive_le_len(s);
    }
}

/// The first dead slot, when there is one, lies inside the sequence.
proof fn lemma_first_dead_in_range(s: Seq<Particle>, i: int)
    requires
        0 <= i,
        first_dead_from_spec(s, i) >= 0,
    ensures
        i <= first_dead_from_spec(s, i) < s.len(),
        !s[first_dead_from_spec(s, i)].alive,
    decreases s.len() - i,
{
    if i < s.len() && s[i].alive {
        lemma_first_dead_in_range(s, i + 1);
    }
}

} // verus!
