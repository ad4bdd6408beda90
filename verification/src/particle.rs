//! One simulated point mass and the fixed-step integrator that advances it
//! under constant gravity with elastic reflection off the arena boundary.

use vstd::prelude::*;
use crate::num::{SCALE, tdiv, sqrt_ceil, lemma_tdiv_bounds, lemma_tdiv_sq, lemma_sqrt_ceil_bounds,
    div_trunc, isqrt_up};
use crate::vector::Vector2;
use crate::disk::{Disk, DISK_LIMIT};

verus! {

/// Magnitude bound on particle positions accepted by `step`.
pub const POS_LIMIT: i64 = 10_000_000_000;

/// Magnitude bound on particle velocities accepted by `step`.
pub const VEL_LIMIT: i64 = 10_000_000_000;

/// Magnitude bound on the acceleration accepted by `step`.
pub const ACC_LIMIT: i64 = 10_000_000_000;

/// Largest accepted time step: two world time units.
pub const DT_LIMIT: i64 = 2_000;

/// Magnitude bound that `step` guarantees on the returned velocity.
pub const VEL_OUT_LIMIT: i64 = 50_000_000_000;

/// Magnitude bound that `step` guarantees on the returned position.
pub const POS_OUT_LIMIT: i64 = 2_000_000_000;

/// Position and velocity of one simulated point, with the fixed initial
/// position used as its phase-space coordinate.
#[derive(Clone, Copy, PartialEq, Eq, Structural, Debug)]
pub struct ParticleState {
    pub position: Vector2,
    pub velocity: Vector2,
    pub initial_position: Vector2,
}

impl ParticleState {
    /// Bounds under which `step` accepts the state.
    pub open spec fn bounded(self) -> bool {
        &&& -POS_LIMIT <= self.position.x <= POS_LIMIT
        &&& -POS_LIMIT <= self.position.y <= POS_LIMIT
        &&& -VEL_LIMIT <= self.velocity.x <= VEL_LIMIT
        &&& -VEL_LIMIT <= self.velocity.y <= VEL_LIMIT
    }

    /// A fresh particle captures its creation position as the phase-space
    /// coordinate.
    pub fn new(position: Vector2, velocity: Vector2) -> (r: ParticleState)
        ensures
            r.position == position,
            r.velocity == velocity,
            r.initial_position == position,
    {
        ParticleState { position, velocity, initial_position: position }
    }
}

/// What one integrator step computes: semi-implicit Euler under constant
/// acceleration, then, strictly outside the legal region, a specular
/// reflection of the velocity and a clamp of the position onto the
/// boundary. Divisions round toward zero; the boundary distance is the
/// integer square root rounded up, so the clamp never leaves the region.
pub open spec fn step_rel(
    pre: ParticleState,
    arena: Disk,
    particle_radius: int,
    acc: Vector2,
    dt: int,
    post: ParticleState,
) -> bool {
    let vx = pre.velocity.x + tdiv(acc.x * dt, SCALE as int);
    let vy = pre.velocity.y + tdiv(acc.y * dt, SCALE as int);
    let px = pre.position.x + tdiv(vx * dt, SCALE as int);
    let py = pre.position.y + tdiv(vy * dt, SCALE as int);
    let ux = px - arena.center.x;
    let uy = py - arena.center.y;
    let d2 = ux * ux + uy * uy;
    let limit = arena.radius - particle_radius;
    &&& post.initial_position == pre.initial_position
    &&& if d2 > limit * limit && d2 != 0 {
        let d = sqrt_ceil(d2 as nat) as int;
        let t = vx * ux + vy * uy;
        &&& post.velocity.x == tdiv(d2 * vx - 2 * t * ux, d2)
        &&& post.velocity.y == tdiv(d2 * vy - 2 * t * uy, d2)
        &&& post.position.x == arena.center.x + tdiv(limit * ux, d)
        &&& post.position.y == arena.center.y + tdiv(limit * uy, d)
    } else {
        &&& post.velocity.x == vx
        &&& post.velocity.y == vy
        &&& post.position.x == px
        &&& post.position.y == py
    }
}

/// The state that one integrator step yields, as a value.
pub open spec fn step_post(
    pre: ParticleState,
    arena: Disk,
    particle_radius: int,
    acc: Vector2,
    dt: int,
) -> ParticleState {
    let vx = pre.velocity.x + tdiv(acc.x * dt, SCALE as int);
    let vy = pre.velocity.y + tdiv(acc.y * dt, SCALE as int);
    let px = pre.position.x + tdiv(vx * dt, SCALE as int);
    let py = pre.position.y + tdiv(vy * dt, SCALE as int);
    let ux = px - arena.center.x;
    let uy = py - arena.center.y;
    let d2 = ux * ux + uy * uy;
    let limit = arena.radius - particle_radius;
    if d2 > limit * limit && d2 != 0 {
        let d = sqrt_ceil(d2 as nat) as int;
        let t = vx * ux + vy * uy;
        ParticleState {
            position: Vector2 {
                x: (arena.center.x + tdiv(limit * ux, d)) as i64,
                y: (arena.center.y + tdiv(limit * uy, d)) as i64,
            },
            velocity: Vector2 {
                x: tdiv(d2 * vx - 2 * t * ux, d2) as i64,
                y: tdiv(d2 * vy - 2 * t * uy, d2) as i64,
            },
            initial_position: pre.initial_position,
        }
    } else {
        ParticleState {
            position: Vector2 { x: px as i64, y: py as i64 },
            velocity: Vector2 { x: vx as i64, y: vy as i64 },
            initial_position: pre.initial_position,
        }
    }
}

/// Advance one particle by one fixed time step under constant acceleration,
/// reflecting it off the arena boundary. The returned state always lies
/// within the legal region: its distance to the arena center is at most
/// `arena.radius - particle_radius`, stated exactly on the squares.
pub fn step(
    state: &ParticleState,
    arena: &Disk,
    particle_radius: i64,
    acceleration: &Vector2,
    dt: i64,
) -> (r: ParticleState)
    requires
        arena.wf(),
        0 <= particle_radius <= DISK_LIMIT,
        state.bounded(),
        -ACC_LIMIT <= acceleration.x <= ACC_LIMIT,
        -ACC_LIMIT <= acceleration.y <= ACC_LIMIT,
        0 < dt <= DT_LIMIT,
    ensures
        step_rel(*state, *arena, particle_radius as int, *acceleration, dt as int, r),
        r == step_post(*state, *arena, particle_radius as int, *acceleration, dt as int),
        r.initial_position == state.initial_position,
        ({
            let ux = r.position.x - arena.center.x;
            let uy = r.position.y - arena.center.y;
            let limit = arena.radius - particle_radius;
            ux * ux + uy * uy <= limit * limit
        }),
        -POS_OUT_LIMIT <= r.position.x <= POS_OUT_LIMIT,
        -POS_OUT_LIMIT <= r.position.y <= POS_OUT_LIMIT,
        -VEL_OUT_LIMIT <= r.velocity.x <= VEL_OUT_LIMIT,
        -VEL_OUT_LIMIT <= r.velocity.y <= VEL_OUT_LIMIT,
{
    // Gravity impulse, then the position update, in exact i128 arithmetic.
    proof {
        lemma_step_product_bounds(acceleration.x as int, dt as int, ACC_LIMIT as int);
        lemma_step_product_bounds(acceleration.y as int, dt as int, ACC_LIMIT as int);
    }
    let advx = div_trunc((acceleration.x as i128) * (dt as i128), SCALE as i128);
    let advy = div_trunc((acceleration.y as i128) * (dt as i128), SCALE as i128);
    let vx: i64 = state.velocity.x + (advx as i64);
    let vy: i64 = state.velocity.y + (advy as i64);
    proof {
        lemma_step_product_bounds(vx as int, dt as int, 30_000_000_000);
        lemma_step_product_bounds(vy as int, dt as int, 30_000_000_000);
    }
    let pdx = div_trunc((vx as i128) * (dt as i128), SCALE as i128);
    let pdy = div_trunc((vy as i128) * (dt as i128), SCALE as i128);
    let px: i64 = state.position.x + (pdx as i64);
    let py: i64 = state.position.y + (pdy as i64);

    // Boundary check against the squared clearance.
    let ux: i64 = px - arena.center.x;
    let uy: i64 = py - arena.center.y;
    let limit: i64 = arena.radius - particle_radius;
    proof {
        let big: int = 10_000_000_000_000_000_000_000_000;
        assert(0 <= (ux as int) * (ux as int) <= big && 0 <= (uy as int) * (uy as int) <= big
            && 0 <= (limit as int) * (limit as int) <= big) by (nonlinear_arith)
            requires
                -80_000_000_000 <= ux <= 80_000_000_000,
                -80_000_000_000 <= uy <= 80_000_000_000,
                -2_000_000_000 <= limit <= 2_000_000_000,
                big == 10_000_000_000_000_000_000_000_000,
        ;
    }
    let d2: i128 = (ux as i128) * (ux as i128) + (uy as i128) * (uy as i128);
    let lim2: i128 = (limit as i128) * (limit as i128);
    if d2 > lim2 && d2 != 0 {
        // Reflect the velocity about the outward radial direction.
        let vel = Vector2 { x: vx, y: vy };
        let axis = Vector2 { x: ux, y: uy };
        proof {
            assert(ux != 0 || uy != 0) by (nonlinear_arith)
                requires
                    (ux as int) * (ux as int) + (uy as int) * (uy as int) != 0,
            ;
        }
        let new_vel = vel.reflect(&axis);
        proof {
            let s2 = (vx as int) * (vx as int) + (vy as int) * (vy as int);
            assert(s2 <= 1_800_000_000_000_000_000_000) by (nonlinear_arith)
                requires
                    -30_000_000_000 <= vx <= 30_000_000_000,
                    -30_000_000_000 <= vy <= 30_000_000_000,
                    s2 == (vx as int) * (vx as int) + (vy as int) * (vy as int),
            ;
            let nx = new_vel.x as int;
            let ny = new_vel.y as int;
            assert(nx * nx >= 0 && ny * ny >= 0) by (nonlinear_arith);
            assert(-50_000_000_000 <= nx <= 50_000_000_000 && -50_000_000_000 <= ny
                <= 50_000_000_000) by (nonlinear_arith)
                requires
                    nx * nx + ny * ny <= 1_800_000_000_000_000_000_000,
                    nx * nx >= 0,
                    ny * ny >= 0,
            ;
        }

        // Clamp the position onto the boundary circle along the outward
        // direction, with the radial distance rounded up so the result
        // stays inside.
        let d_up128 = isqrt_up(d2 as u128) as i128;
        proof {
            assert((d2 as u128) as nat == d2 as nat);
            lemma_sqrt_ceil_bounds(d2 as nat);
            let big2: int = 200_000_000_000_000_000_000;
            assert(-big2 <= (limit as int) * (ux as int) <= big2 && -big2 <= (limit as int) * (
            uy as int) <= big2) by (nonlinear_arith)
                requires
                    -80_000_000_000 <= ux <= 80_000_000_000,
                    -80_000_000_000 <= uy <= 80_000_000_000,
                    -2_000_000_000 <= limit <= 2_000_000_000,
                    big2 == 200_000_000_000_000_000_000,
        ;
        }
        let cox = div_trunc((limit as i128) * (ux as i128), d_up128);
        let coy = div_trunc((limit as i128) * (uy as i128), d_up128);
        proof {
            lemma_clamp_in_bounds(
                limit as int,
                ux as int,
                uy as int,
                d_up128 as int,
                cox as int,
                coy as int,
            );
            assert(-1_000_000_000 <= cox <= 1_000_000_000 && -1_000_000_000 <= coy
                <= 1_000_000_000) by (nonlinear_arith)
                requires
                    (cox as int) * (cox as int) <= (limit as int) * (limit as int),
                    (coy as int) * (coy as int) <= (limit as int) * (limit as int),
                    -1_000_000_000 <= limit <= 1_000_000_000,
            ;
        }
        let rx: i64 = arena.center.x + (cox as i64);
        let ry: i64 = arena.center.y + (coy as i64);
        ParticleState {
            position: Vector2 { x: rx, y: ry },
            velocity: new_vel,
            initial_position: state.initial_position,
        }
    } else {
        proof {
            assert((ux as int) * (ux as int) >= 0 && (uy as int) * (uy as int) >= 0)
                by (nonlinear_arith);
            assert(-1_000_000_000 <= ux <= 1_000_000_000 && -1_000_000_000 <= uy
                <= 1_000_000_000) by (nonlinear_arith)
                requires
                    (ux as int) * (ux as int) + (uy as int) * (uy as int) <= (limit as int) * (
                    limit as int),
                    -1_000_000_000 <= limit <= 1_000_000_000,
                    (ux as int) * (ux as int) >= 0,
                    (uy as int) * (uy as int) >= 0,
            ;
        }
        ParticleState {
            position: Vector2 { x: px, y: py },
            velocity: Vector2 { x: vx, y: vy },
            initial_position: state.initial_position,
        }
    }
}

/// Boundary containment, for every particle and every tick: whatever
/// bounded state a particle is in, after one integrator step its distance
/// to the arena center is at most the clearance `arena.radius -
/// particle_radius`, stated exactly on the squares.
pub proof fn lemma_step_post_in_region(
    pre: ParticleState,
    arena: Disk,
    particle_radius: int,
    acc: Vector2,
    dt: int,
)
    requires
        arena.wf(),
        0 <= particle_radius <= DISK_LIMIT,
        pre.bounded(),
        -ACC_LIMIT <= acc.x <= ACC_LIMIT,
        -ACC_LIMIT <= acc.y <= ACC_LIMIT,
        0 < dt <= DT_LIMIT,
    ensures
        ({
            let post = step_post(pre, arena, particle_radius, acc, dt);
            let ux = post.position.x - arena.center.x;
            let uy = post.position.y - arena.center.y;
            let limit = arena.radius - particle_radius;
            ux * ux + uy * uy <= limit * limit
        }),
{
    let vx = pre.velocity.x + tdiv(acc.x * dt, SCALE as int);
    let vy = pre.velocity.y + tdiv(acc.y * dt, SCALE as int);
    let px = pre.position.x + tdiv(vx * dt, SCALE as int);
    let py = pre.position.y + tdiv(vy * dt, SCALE as int);
    let ux = px - arena.center.x;
    let uy = py - arena.center.y;
    let d2 = ux * ux + uy * uy;
    let limit = arena.radius - particle_radius;
    lemma_step_product_bounds(acc.x as int, dt, ACC_LIMIT as int);
    lemma_step_product_bounds(acc.y as int, dt, ACC_LIMIT as int);
    lemma_step_product_bounds(vx, dt, 30_000_000_000);
    lemma_step_product_bounds(vy, dt, 30_000_000_000);
    assert(-80_000_000_000 <= ux <= 80_000_000_000);
    assert(-80_000_000_000 <= uy <= 80_000_000_000);
    assert(limit * limit >= 0) by (nonlinear_arith);
    assert(ux * ux >= 0 && uy * uy >= 0) by (nonlinear_arith);
    if d2 > limit * limit && d2 != 0 {
        let d = sqrt_ceil(d2 as nat) as int;
        lemma_sqrt_ceil_bounds(d2 as nat);
        assert(d >= 1);
        assert(d2 <= d * d);
        let cox = tdiv(limit * ux, d);
        let coy = tdiv(limit * uy, d);
        lemma_clamp_in_bounds(limit, ux, uy, d, cox, coy);
        assert(-1_000_000_000 <= cox <= 1_000_000_000 && -1_000_000_000 <= coy
            <= 1_000_000_000) by (nonlinear_arith)
            requires
                cox * cox <= limit * limit,
                coy * coy <= limit * limit,
                -1_000_000_000 <= limit <= 1_000_000_000,
        ;
        let post = step_post(pre, arena, particle_radius, acc, dt);
        assert(post.position.x as int == arena.center.x + cox);
        assert(post.position.y as int == arena.center.y + coy);
    } else {
        let post = step_post(pre, arena, particle_radius, acc, dt);
        assert(post.position.x as int == px && post.position.y as int == py);
        assert(d2 <= limit * limit);
    }
}

/// Bound on a product divided by the scale, used for the overflow side
/// conditions of the integrator.
proof fn lemma_step_product_bounds(a: int, dt: int, lim: int)
    requires
        0 < dt <= DT_LIMIT,
        0 < lim,
        -lim <= a <= lim,
    ensures
        -2000 * lim <= a * dt <= 2000 * lim,
        -2 * lim <= tdiv(a * dt, SCALE as int) <= 2 * lim,
{
    assert(-2000 * lim <= a * dt <= 2000 * lim) by (nonlinear_arith)
        requires
            0 < dt <= 2000,
            -lim <= a <= lim,
            0 < lim,
    ;
    lemma_tdiv_bounds(a * dt, SCALE as int);
    let q = tdiv(a * dt, SCALE as int);
    if a * dt >= 0 {
        assert(q <= 2 * lim) by (nonlinear_arith)
            requires
                0 <= q * 1000 <= a * dt,
                a * dt <= 2000 * lim,
                0 < lim,
        ;
    } else {
        assert(q >= -2 * lim) by (nonlinear_arith)
            requires
                a * dt <= q * 1000 <= 0,
                -2000 * lim <= a * dt,
                0 < lim,
        ;
    }
}

/// The clamped offset keeps its squared length within the squared
/// clearance, because the divisor is an upper bound on the radial distance
/// and the divisions round toward zero.
proof fn lemma_clamp_in_bounds(limit: int, ux: int, uy: int, d: int, cox: int, coy: int)
    requires
        d > 0,
        ux * ux + uy * uy <= d * d,
        cox == tdiv(limit * ux, d),
        coy == tdiv(limit * uy, d),
    ensures
        cox * cox + coy * coy <= limit * limit,
        cox * cox <= limit * limit,
        coy * coy <= limit * limit,
{
    lemma_tdiv_sq(limit * ux, d);
    lemma_tdiv_sq(limit * uy, d);
    assert((limit * ux) * (limit * ux) == (limit * limit) * (ux * ux)) by (nonlinear_arith);
    assert((limit * uy) * (limit * uy) == (limit * limit) * (uy * uy)) by (nonlinear_arith);
    assert(limit * limit >= 0) by (nonlinear_arith);
    assert((limit * limit) * (ux * ux) + (limit * limit) * (uy * uy) == (limit * limit) * (ux * ux
        + uy * uy)) by (nonlinear_arith);
    assert((limit * limit) * (ux * ux + uy * uy) <= (limit * limit) * (d * d))
        by (nonlinear_arith)
        requires
            ux * ux + uy * uy <= d * d,
            limit * limit >= 0,
    ;
    assert((cox * d) * (cox * d) + (coy * d) * (coy * d) <= (limit * limit) * (d * d));
    lemma_cancel_square(cox, coy, limit * limit, d);
    assert(cox * cox >= 0 && coy * coy >= 0) by (nonlinear_arith);
    assert(cox * cox <= limit * limit && coy * coy <= limit * limit);
}

/// Cancel a common positive square factor from a sum of squares bound.
proof fn lemma_cancel_square(p: int, q: int, ll: int, d: int)
    requires
        d > 0,
        (p * d) * (p * d) + (q * d) * (q * d) <= ll * (d * d),
    ensures
        p * p + q * q <= ll,
{
    assert((p * d) * (p * d) == (p * p) * (d * d)) by (nonlinear_arith);
    assert((q * d) * (q * d) == (q * q) * (d * d)) by (nonlinear_arith);
    assert((p * p) * (d * d) + (q * q) * (d * d) == (p * p + q * q) * (d * d))
        by (nonlinear_arith);
    assert(d * d > 0) by (nonlinear_arith)
        requires
            d > 0,
    ;
    assert(p * p + q * q <= ll) by (nonlinear_arith)
        requires
            (p * p + q * q) * (d * d) <= ll * (d * d),
            d * d > 0,
    ;
}

} // verus!
