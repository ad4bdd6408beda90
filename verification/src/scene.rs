//! Scene orchestration: owns the particles of one running scene, advances
//! all of them by the integrator once per tick, and renders them into a
//! frame under one of three drawing policies.

use vstd::prelude::*;
use crate::num::SCALE;
use crate::vector::Vector2;
use crate::disk::{Disk, DISK_LIMIT};
use crate::particle::{ParticleState, step, step_post, POS_LIMIT, VEL_LIMIT, ACC_LIMIT, DT_LIMIT};
use crate::raster::{Frame, Rgba, clear_frame, draw_circle, set_pixel, map_to_channel, MAX_DIM,
    painted_pixels, filled, channel_spec, map_range_spec};
use crate::num::{rdiv, round_units};

verus! {

/// How `render` draws the particles: solid disks, or one pixel per
/// particle at its initial position whose color encodes its current
/// position or velocity.
#[derive(Clone, Copy, PartialEq, Eq, Structural, Debug)]
pub enum DrawPolicy {
    SolidParticles,
    PositionPhaseSpace,
    VelocityPhaseSpace,
}

/// Fixed drawing configuration of a scene.
#[derive(Clone, Copy, PartialEq, Eq, Structural, Debug)]
pub struct SceneConfig {
    pub clear_color: Rgba,
    pub arena_color: Rgba,
    pub ball_color: Rgba,
    /// Upper end of the velocity range mapped onto a color channel.
    pub velocity_span: i64,
    /// Channel range that the phase-space colors map onto.
    pub channel_low: i64,
    pub channel_high: i64,
}

/// All mutable state of one running scene, with its fixed arena, gravity
/// and drawing policy.
pub struct SceneOrchestrator {
    pub arena: Disk,
    pub particle_radius: i64,
    pub acceleration: Vector2,
    pub policy: DrawPolicy,
    pub config: SceneConfig,
    pub particles: Vec<ParticleState>,
}

/// What one tick does to one particle: a particle within the integrator's
/// machine bounds advances by one step; one outside them is left alone.
pub open spec fn tick_post(
    p: ParticleState,
    arena: Disk,
    particle_radius: int,
    acc: Vector2,
    dt: int,
) -> ParticleState {
    if p.bounded() {
        step_post(p, arena, particle_radius, acc, dt)
    } else {
        p
    }
}

/// Boundary containment at the scene level: every particle within the
/// integrator's machine bounds lies inside the legal region after a tick,
/// at squared distance at most the squared clearance from the arena
/// center.
pub proof fn lemma_tick_keeps_particle_in_region(
    p: ParticleState,
    arena: Disk,
    particle_radius: int,
    acc: Vector2,
    dt: int,
)
    requires
        arena.wf(),
        0 <= particle_radius <= DISK_LIMIT,
        p.bounded(),
        -ACC_LIMIT <= acc.x <= ACC_LIMIT,
        -ACC_LIMIT <= acc.y <= ACC_LIMIT,
        0 < dt <= DT_LIMIT,
    ensures
        ({
            let post = tick_post(p, arena, particle_radius, acc, dt);
            let ux = post.position.x - arena.center.x;
            let uy = post.position.y - arena.center.y;
            let limit = arena.radius - particle_radius;
            ux * ux + uy * uy <= limit * limit
        }),
{
    crate::particle::lemma_step_post_in_region(p, arena, particle_radius, acc, dt);
}

/// One particle of the collection after the tick has advanced the first
/// `k` of them.
pub open spec fn ticked_at(
    opart: Seq<ParticleState>,
    arena: Disk,
    particle_radius: int,
    acc: Vector2,
    dt: int,
    k: int,
    j: int,
) -> ParticleState {
    if j < k {
        tick_post(opart[j], arena, particle_radius, acc, dt)
    } else {
        opart[j]
    }
}

/// The collection after the tick has advanced the first `k` particles.
pub open spec fn ticked_upto(
    opart: Seq<ParticleState>,
    arena: Disk,
    particle_radius: int,
    acc: Vector2,
    dt: int,
    k: int,
) -> Seq<ParticleState> {
    Seq::new(opart.len(), |j: int| ticked_at(opart, arena, particle_radius, acc, dt, k, j))
}

impl ParticleState {
    /// Runtime check of the integrator's machine bounds.
    pub fn check_bounded(&self) -> (b: bool)
        ensures
            b == self.bounded(),
    {
        -POS_LIMIT <= self.position.x && self.position.x <= POS_LIMIT && -POS_LIMIT
            <= self.position.y && self.position.y <= POS_LIMIT && -VEL_LIMIT <= self.velocity.x
            && self.velocity.x <= VEL_LIMIT && -VEL_LIMIT <= self.velocity.y && self.velocity.y
            <= VEL_LIMIT
    }
}

impl SceneOrchestrator {
    /// Bounds on the fixed scene parameters under which `tick` and
    /// `render` accept the scene.
    pub open spec fn wf(self) -> bool {
        &&& self.arena.wf()
        &&& 0 <= self.particle_radius <= DISK_LIMIT
        &&& -ACC_LIMIT <= self.acceleration.x <= ACC_LIMIT
        &&& -ACC_LIMIT <= self.acceleration.y <= ACC_LIMIT
        &&& 0 < self.config.velocity_span <= 1_000_000_000
        &&& 0 <= self.config.channel_low < self.config.channel_high <= 1_000_000_000
    }

    /// Advance every owned particle by one fixed time step, in order.
    ///
    /// A particle outside the integrator's machine bounds
    /// (`ParticleState::bounded`) is left unchanged by the tick, exactly as
    /// `tick_post` states: it freezes rather than overflowing. `step`
    /// guarantees outputs only within `VEL_OUT_LIMIT`, which exceeds the
    /// accepted `VEL_LIMIT`, so after very many ticks under constant
    /// gravity a particle's velocity can in principle leave the accepted
    /// bounds and the particle then stops moving.
    pub fn tick(&mut self, dt: i64)
        requires
            old(self).wf(),
            0 < dt <= DT_LIMIT,
        ensures
            final(self).arena == old(self).arena,
            final(self).particle_radius == old(self).particle_radius,
            final(self).acceleration == old(self).acceleration,
            final(self).policy == old(self).policy,
            final(self).config == old(self).config,
            final(self).wf(),
            final(self).particles@ == ticked_upto(
                old(self).particles@,
                old(self).arena,
                old(self).particle_radius as int,
                old(self).acceleration,
                dt as int,
                old(self).particles@.len() as int,
            ),
    {
        let ghost opart = self.particles@;
        let n: usize = self.particles.len();
        let mut i: usize = 0;
        proof {
            assert(self.particles@ =~= ticked_upto(
                opart,
                self.arena,
                self.particle_radius as int,
                self.acceleration,
                dt as int,
                0,
            ));
        }
        while i < n
            invariant
                self.wf(),
                self.arena == old(self).arena,
                self.particle_radius == old(self).particle_radius,
                self.acceleration == old(self).acceleration,
                self.policy == old(self).policy,
                self.config == old(self).config,
                self.particles.len() == n,
                n == opart.len(),
                opart == old(self).particles@,
                i <= n,
                0 < dt <= DT_LIMIT,
                self.particles@ == ticked_upto(
                    opart,
                    old(self).arena,
                    old(self).particle_radius as int,
                    old(self).acceleration,
                    dt as int,
                    i as int,
                ),
            decreases n - i,
        {
            proof {
                assert(self.particles@[i as int] == ticked_at(
                    opart,
                    old(self).arena,
                    old(self).particle_radius as int,
                    old(self).acceleration,
                    dt as int,
                    i as int,
                    i as int,
                ));
            }
            let p: ParticleState = self.particles[i];
            if p.check_bounded() {
                let stepped = step(&p, &self.arena, self.particle_radius, &self.acceleration, dt);
                self.particles[i] = stepped;
            }
            proof {
                assert(self.particles@ =~= ticked_upto(
                    opart,
                    old(self).arena,
                    old(self).particle_radius as int,
                    old(self).acceleration,
                    dt as int,
                    i as int + 1,
                ));
            }
            i = i + 1;
        }
    }

    /// Render the scene into the frame: clear it, then apply the drawing
    /// policy. Solid scenes fill the arena and then each particle's disk
    /// in creation order (later particles occlude earlier ones);
    /// phase-space scenes plot one pixel per particle at its initial
    /// position, colored by its current position or velocity. The exact
    /// frame contents are `render_spec`.
    #[verifier::loop_isolation(false)]
    pub fn render(&self, frame: &mut Frame)
        requires
            self.wf(),
            old(frame).wf(),
        ensures
            final(frame).wf(),
            final(frame).width == old(frame).width,
            final(frame).height == old(frame).height,
            final(frame).pixels@ == render_spec(
                *self,
                old(frame).width as int,
                old(frame).height as int,
            ),
    {
        let ghost w = old(frame).width as int;
        let ghost h = old(frame).height as int;
        clear_frame(&self.config.clear_color, frame);
        proof {
            assert(frame.pixels@ == filled((w * h) as nat, self.config.clear_color));
        }
        match self.policy {
            DrawPolicy::SolidParticles => {
                draw_circle(&self.arena, &self.config.arena_color, frame);
                let ghost base = painted_pixels(
                    self.arena,
                    w,
                    h,
                    filled((w * h) as nat, self.config.clear_color),
                    self.config.arena_color,
                );
                let ghost ball = self.config.ball_color;
                let ghost parts = self.particles@;
                proof {
                    assert(frame.pixels@ == solid_layers(
                        parts,
                        self.particle_radius,
                        w,
                        h,
                        base,
                        ball,
                        0,
                    ));
                }
                let n: usize = self.particles.len();
                let mut i: usize = 0;
                while i < n
                    invariant
                        frame.wf(),
                        frame.width == old(frame).width,
                        frame.height == old(frame).height,
                        i <= n,
                        frame.pixels@ == solid_layers(
                            parts,
                            self.particle_radius,
                            w,
                            h,
                            base,
                            ball,
                            i as int,
                        ),
                    decreases n - i,
                {
                    let p: ParticleState = self.particles[i];
                    if -DISK_LIMIT <= p.position.x && p.position.x <= DISK_LIMIT && -DISK_LIMIT
                        <= p.position.y && p.position.y <= DISK_LIMIT {
                        let disk = Disk::new(p.position, self.particle_radius);
                        proof {
                            assert(disk.radius_squared as int == self.particle_radius as int
                                * self.particle_radius as int);
                            assert(disk == footprint(p, self.particle_radius));
                        }
                        draw_circle(&disk, &self.config.ball_color, frame);
                        proof {
                            assert(frame.pixels@ == solid_layers(
                                parts,
                                self.particle_radius,
                                w,
                                h,
                                base,
                                ball,
                                i as int + 1,
                            ));
                        }
                    } else {
                        proof {
                            assert(!drawable(p));
                            assert(frame.pixels@ == solid_layers(
                                parts,
                                self.particle_radius,
                                w,
                                h,
                                base,
                                ball,
                                i as int + 1,
                            ));
                        }
                    }
                    i = i + 1;
                }
            },
            DrawPolicy::PositionPhaseSpace => {
                let ghost base = filled((w * h) as nat, self.config.clear_color);
                let ghost parts = self.particles@;
                proof {
                    assert(frame.pixels@ == position_layers(parts, self.arena, w, h, base, 0));
                }
                let n: usize = self.particles.len();
                let mut i: usize = 0;
                while i < n
                    invariant
                        frame.wf(),
                        frame.width == old(frame).width,
                        frame.height == old(frame).height,
                        i <= n,
                        frame.pixels@ == position_layers(parts, self.arena, w, h, base, i as int),
                    decreases n - i,
                {
                    let p: ParticleState = self.particles[i];
                    let lo_x: i64 = self.arena.center.x - self.arena.radius;
                    let hi_x: i64 = self.arena.center.x + self.arena.radius;
                    let lo_y: i64 = self.arena.center.y - self.arena.radius;
                    let hi_y: i64 = self.arena.center.y + self.arena.radius;
                    if self.arena.radius > 0 && -CHANNEL_VALUE_LIMIT <= p.position.x && p.position.x
                        <= CHANNEL_VALUE_LIMIT && -CHANNEL_VALUE_LIMIT <= p.position.y
                        && p.position.y <= CHANNEL_VALUE_LIMIT && -INIT_PLOT_LIMIT
                        <= p.initial_position.x && p.initial_position.x <= INIT_PLOT_LIMIT
                        && -INIT_PLOT_LIMIT <= p.initial_position.y && p.initial_position.y
                        <= INIT_PLOT_LIMIT {
                        let red = map_to_channel(p.position.x, lo_x, hi_x, 0, 255 * SCALE);
                        let green = map_to_channel(p.position.y, lo_y, hi_y, 0, 255 * SCALE);
                        let color = Rgba { r: red, g: green, b: 0, a: 255 };
                        proof {
                            assert(color == position_color(p, self.arena));
                        }
                        plot_initial(&p, &color, frame);
                        proof {
                            assert(frame.pixels@ == position_layers(
                                parts,
                                self.arena,
                                w,
                                h,
                                base,
                                i as int + 1,
                            ));
                        }
                    } else {
                        proof {
                            assert(!pos_plottable(p, self.arena));
                            assert(frame.pixels@ == position_layers(
                                parts,
                                self.arena,
                                w,
                                h,
                                base,
                                i as int + 1,
                            ));
                        }
                    }
                    i = i + 1;
                }
            },
            DrawPolicy::VelocityPhaseSpace => {
                let ghost base = filled((w * h) as nat, self.config.clear_color);
                let ghost parts = self.particles@;
                proof {
                    assert(frame.pixels@ == velocity_layers(parts, self.config, w, h, base, 0));
                }
                let n: usize = self.particles.len();
                let mut i: usize = 0;
                while i < n
                    invariant
                        frame.wf(),
                        frame.width == old(frame).width,
                        frame.height == old(frame).height,
                        i <= n,
                        frame.pixels@ == velocity_layers(parts, self.config, w, h, base, i as int),
                    decreases n - i,
                {
                    let p: ParticleState = self.particles[i];
                    if -CHANNEL_VALUE_LIMIT <= p.velocity.x && p.velocity.x <= CHANNEL_VALUE_LIMIT
                        && -CHANNEL_VALUE_LIMIT <= p.velocity.y && p.velocity.y
                        <= CHANNEL_VALUE_LIMIT && -INIT_PLOT_LIMIT <= p.initial_position.x
                        && p.initial_position.x <= INIT_PLOT_LIMIT && -INIT_PLOT_LIMIT
                        <= p.initial_position.y && p.initial_position.y <= INIT_PLOT_LIMIT {
                        let green = map_to_channel(
                            p.velocity.x,
                            0,
                            self.config.velocity_span,
                            self.config.channel_low,
                            self.config.channel_high,
                        );
                        let blue = map_to_channel(
                            p.velocity.y,
                            0,
                            self.config.velocity_span,
                            self.config.channel_low,
                            self.config.channel_high,
                        );
                        let color = Rgba { r: 0, g: green, b: blue, a: 255 };
                        proof {
                            assert(color == velocity_color(p, self.config));
                        }
                        plot_initial(&p, &color, frame);
                        proof {
                            assert(frame.pixels@ == velocity_layers(
                                parts,
                                self.config,
                                w,
                                h,
                                base,
                                i as int + 1,
                            ));
                        }
                    } else {
                        proof {
                            assert(!vel_plottable(p));
                            assert(frame.pixels@ == velocity_layers(
                                parts,
                                self.config,
                                w,
                                h,
                                base,
                                i as int + 1,
                            ));
                        }
                    }
                    i = i + 1;
                }
            },
        }
    }
}

/// Whether `render` can draw a particle's solid footprint: its center
/// lies within the disk coordinate bounds.
pub open spec fn drawable(p: ParticleState) -> bool {
    &&& -DISK_LIMIT <= p.position.x <= DISK_LIMIT
    &&& -DISK_LIMIT <= p.position.y <= DISK_LIMIT
}

/// The visual footprint disk of a particle.
pub open spec fn footprint(p: ParticleState, radius: i64) -> Disk {
    Disk { center: p.position, radius: radius, radius_squared: (radius * radius) as i128 }
}

/// Frame contents after the first `m` particles are drawn as solid disks
/// over `base`, in order, so that later particles occlude earlier ones.
pub open spec fn solid_layers(
    parts: Seq<ParticleState>,
    radius: i64,
    w: int,
    h: int,
    base: Seq<Rgba>,
    ball: Rgba,
    m: int,
) -> Seq<Rgba>
    decreases m,
{
    if m <= 0 {
        base
    } else {
        let prev = solid_layers(parts, radius, w, h, base, ball, m - 1);
        if drawable(parts[m - 1]) {
            painted_pixels(footprint(parts[m - 1], radius), w, h, prev, ball)
        } else {
            prev
        }
    }
}

/// The pixel column at which a particle's phase-space sample is plotted:
/// the initial position rounded to the nearest pixel, negatives clamped
/// to zero.
pub open spec fn plot_col(p: ParticleState) -> int {
    let v = rdiv(p.initial_position.x as int, SCALE as int);
    if v < 0 {
        0
    } else {
        v
    }
}

/// The pixel row of a particle's phase-space sample.
pub open spec fn plot_row(p: ParticleState) -> int {
    let v = rdiv(p.initial_position.y as int, SCALE as int);
    if v < 0 {
        0
    } else {
        v
    }
}

/// Machine bound on initial positions whose plot coordinates `render`
/// computes.
pub const INIT_PLOT_LIMIT: i64 = 100_000_000_000_000;

/// Whether a particle's initial position is within the plotting bounds.
pub open spec fn plot_in_bounds(p: ParticleState) -> bool {
    &&& -INIT_PLOT_LIMIT <= p.initial_position.x <= INIT_PLOT_LIMIT
    &&& -INIT_PLOT_LIMIT <= p.initial_position.y <= INIT_PLOT_LIMIT
}

/// One pixel plotted into the frame contents, if its cell is in bounds;
/// off-screen samples leave the frame unchanged.
pub open spec fn plotted(
    s: Seq<Rgba>,
    w: int,
    h: int,
    row: int,
    col: int,
    color: Rgba,
) -> Seq<Rgba> {
    if 0 <= col < w && 0 <= row < h {
        s.update(row * w + col, color)
    } else {
        s
    }
}

/// Whether the position phase space plots this particle: a non-degenerate
/// arena span and values within the machine bounds.
pub open spec fn pos_plottable(p: ParticleState, arena: Disk) -> bool {
    &&& arena.radius > 0
    &&& -CHANNEL_VALUE_LIMIT <= p.position.x <= CHANNEL_VALUE_LIMIT
    &&& -CHANNEL_VALUE_LIMIT <= p.position.y <= CHANNEL_VALUE_LIMIT
    &&& plot_in_bounds(p)
}

/// Whether the velocity phase space plots this particle.
pub open spec fn vel_plottable(p: ParticleState) -> bool {
    &&& -CHANNEL_VALUE_LIMIT <= p.velocity.x <= CHANNEL_VALUE_LIMIT
    &&& -CHANNEL_VALUE_LIMIT <= p.velocity.y <= CHANNEL_VALUE_LIMIT
    &&& plot_in_bounds(p)
}

/// The color encoding a particle's current position against the arena's
/// diameter span.
pub open spec fn position_color(p: ParticleState, arena: Disk) -> Rgba {
    Rgba {
        r: channel_spec(
            map_range_spec(
                p.position.x as int,
                arena.center.x - arena.radius,
                arena.center.x + arena.radius,
                0,
                255 * SCALE,
            ),
        ) as u8,
        g: channel_spec(
            map_range_spec(
                p.position.y as int,
                arena.center.y - arena.radius,
                arena.center.y + arena.radius,
                0,
                255 * SCALE,
            ),
        ) as u8,
        b: 0u8,
        a: 255u8,
    }
}

/// The color encoding a particle's current velocity against the
/// configured span.
pub open spec fn velocity_color(p: ParticleState, config: SceneConfig) -> Rgba {
    Rgba {
        r: 0u8,
        g: channel_spec(
            map_range_spec(
                p.velocity.x as int,
                0,
                config.velocity_span as int,
                config.channel_low as int,
                config.channel_high as int,
            ),
        ) as u8,
        b: channel_spec(
            map_range_spec(
                p.velocity.y as int,
                0,
                config.velocity_span as int,
                config.channel_low as int,
                config.channel_high as int,
            ),
        ) as u8,
        a: 255u8,
    }
}

/// Frame contents after the first `m` particles are plotted in the
/// position phase space.
pub open spec fn position_layers(
    parts: Seq<ParticleState>,
    arena: Disk,
    w: int,
    h: int,
    base: Seq<Rgba>,
    m: int,
) -> Seq<Rgba>
    decreases m,
{
    if m <= 0 {
        base
    } else {
        let prev = position_layers(parts, arena, w, h, base, m - 1);
        let p = parts[m - 1];
        if pos_plottable(p, arena) {
            plotted(prev, w, h, plot_row(p), plot_col(p), position_color(p, arena))
        } else {
            prev
        }
    }
}

/// Frame contents after the first `m` particles are plotted in the
/// velocity phase space.
pub open spec fn velocity_layers(
    parts: Seq<ParticleState>,
    config: SceneConfig,
    w: int,
    h: int,
    base: Seq<Rgba>,
    m: int,
) -> Seq<Rgba>
    decreases m,
{
    if m <= 0 {
        base
    } else {
        let prev = velocity_layers(parts, config, w, h, base, m - 1);
        let p = parts[m - 1];
        if vel_plottable(p) {
            plotted(prev, w, h, plot_row(p), plot_col(p), velocity_color(p, config))
        } else {
            prev
        }
    }
}

/// The frame contents `render` produces for a scene on a `w` by `h`
/// frame: the clear color everywhere, then the policy's drawing.
pub open spec fn render_spec(scene: SceneOrchestrator, w: int, h: int) -> Seq<Rgba> {
    let cleared = filled((w * h) as nat, scene.config.clear_color);
    match scene.policy {
        DrawPolicy::SolidParticles => solid_layers(
            scene.particles@,
            scene.particle_radius,
            w,
            h,
            painted_pixels(scene.arena, w, h, cleared, scene.config.arena_color),
            scene.config.ball_color,
            scene.particles@.len() as int,
        ),
        DrawPolicy::PositionPhaseSpace => position_layers(
            scene.particles@,
            scene.arena,
            w,
            h,
            cleared,
            scene.particles@.len() as int,
        ),
        DrawPolicy::VelocityPhaseSpace => velocity_layers(
            scene.particles@,
            scene.config,
            w,
            h,
            cleared,
            scene.particles@.len() as int,
        ),
    }
}

/// Magnitude bound on values handed to the color-channel mapping.
/// Magnitude bound on values handed to the color-channel mapping.
pub const CHANNEL_VALUE_LIMIT: i64 = 1_000_000_000_000;

/// Plot one pixel at the particle's initial position, rounded to the
/// nearest pixel with negative coordinates clamped to zero; off-screen
/// samples are dropped.
fn plot_initial(p: &ParticleState, color: &Rgba, frame: &mut Frame)
    requires
        old(frame).wf(),
        plot_in_bounds(*p),
    ensures
        final(frame).wf(),
        final(frame).width == old(frame).width,
        final(frame).height == old(frame).height,
        final(frame).pixels@ == plotted(
            old(frame).pixels@,
            old(frame).width as int,
            old(frame).height as int,
            plot_row(*p),
            plot_col(*p),
            *color,
        ),
{
    let cx: i64 = round_units(p.initial_position.x);
    let cy: i64 = round_units(p.initial_position.y);
    let col: i64 = if cx < 0 {
        0
    } else {
        cx
    };
    let row: i64 = if cy < 0 {
        0
    } else {
        cy
    };
    proof {
        assert(col as int == plot_col(*p));
        assert(row as int == plot_row(*p));
    }
    if col < frame.width as i64 && row < frame.height as i64 {
        set_pixel(col as usize, row as usize, color, frame);
    }
}

/// Whether the center of grid cell/// Whether the center of grid cell `c` (row-major, `w` cells per row)
/// lies strictly inside the arena.
pub open spec fn cell_inside(arena: Disk, w: int, c: int) -> bool {
    arena.contains((c % w) * SCALE, (c / w) * SCALE)
}

/// The particle resting at the center of grid cell `c` with zero velocity.
pub open spec fn cell_particle(w: int, c: int) -> ParticleState {
    ParticleState {
        position: Vector2 { x: ((c % w) * SCALE) as i64, y: ((c / w) * SCALE) as i64 },
        velocity: Vector2 { x: 0i64, y: 0i64 },
        initial_position: Vector2 { x: ((c % w) * SCALE) as i64, y: ((c / w) * SCALE) as i64 },
    }
}

/// The row-major sequence of particles for every grid cell among the
/// first `k` whose center lies strictly inside the arena.
pub open spec fn interior_population(arena: Disk, w: int, k: int) -> Seq<ParticleState>
    decreases k,
{
    if k <= 0 {
        Seq::empty()
    } else {
        let rest = interior_population(arena, w, k - 1);
        if cell_inside(arena, w, k - 1) {
            rest.push(cell_particle(w, k - 1))
        } else {
            rest
        }
    }
}

/// One particle per integer grid cell whose center lies strictly inside
/// the arena, resting at its cell with zero velocity, in row-major order.
pub fn populate_interior(arena: &Disk, width: usize, height: usize) -> (r: Vec<ParticleState>)
    requires
        arena.wf(),
        width <= MAX_DIM,
        height <= MAX_DIM,
    ensures
        r@ == interior_population(*arena, width as int, (width * height) as int),
{
    proof {
        crate::raster::lemma_frame_cells(width as int, height as int);
    }
    let n: usize = width * height;
    let ghost w = width as int;
    let mut particles: Vec<ParticleState> = Vec::new();
    let mut k: usize = 0;
    proof {
        assert(particles@ =~= interior_population(*arena, w, 0));
    }
    while k < n
        invariant
            arena.wf(),
            width <= MAX_DIM,
            height <= MAX_DIM,
            n == width * height,
            w == width as int,
            k <= n,
            particles@ == interior_population(*arena, w, k as int),
        decreases n - k,
    {
        proof {
            assert(w >= 1 && height as int >= 1) by (nonlinear_arith)
                requires
                    w * (height as int) >= 1,
                    w >= 0,
                    height as int >= 0,
            ;
        }
        let col: usize = k % width;
        let row: usize = k / width;
        proof {
            vstd::arithmetic::div_mod::lemma_fundamental_div_mod(k as int, w);
            vstd::arithmetic::div_mod::lemma_mod_division_less_than_divisor(k as int, w);
            assert((row as int) < height as int) by (nonlinear_arith)
                requires
                    k as int == w * (row as int) + (col as int),
                    0 <= (col as int) < w,
                    (k as int) < w * (height as int),
                    w >= 1,
                    height as int >= 0,
            ;
        }
        let x: i64 = (col as i64) * SCALE;
        let y: i64 = (row as i64) * SCALE;
        let inside = arena.contains_point(x, y);
        proof {
            assert(cell_inside(*arena, w, k as int) == inside);
        }
        if inside {
            let p = ParticleState::new(Vector2 { x, y }, Vector2 { x: 0, y: 0 });
            proof {
                assert(p == cell_particle(w, k as int));
            }
            particles.push(p);
            proof {
                assert(particles@ == interior_population(*arena, w, k as int + 1));
            }
        } else {
            proof {
                assert(particles@ == interior_population(*arena, w, k as int + 1));
            }
        }
        k = k + 1;
    }
    particles
}

/// The population of the chaotic preset: `n` balls at the arena center
/// whose horizontal velocities are one tenth of a unit apart.
pub open spec fn chaos_population(center: Vector2, n: int) -> Seq<ParticleState>
    decreases n,
{
    if n <= 0 {
        Seq::empty()
    } else {
        chaos_population(center, n - 1).push(
            ParticleState {
                position: center,
                velocity: Vector2 { x: (100 * (n - 1)) as i64, y: 0i64 },
                initial_position: center,
            },
        )
    }
}

/// The population of the single-ball preset: one ball at the arena center
/// moving right at ten units per second.
pub open spec fn single_ball(center: Vector2) -> Seq<ParticleState> {
    seq![
        ParticleState {
            position: center,
            velocity: Vector2 { x: 10000i64, y: 0i64 },
            initial_position: center,
        },
    ]
}

/// The configured velocity span of the presets: two and a half times a
/// tenth of the screen width, floored at one unit.
pub open spec fn preset_velocity_span(width: int) -> int {
    let s0 = (width / 10) * (2 * SCALE) + (width / 10) * (SCALE / 2);
    if s0 < SCALE {
        SCALE as int
    } else {
        s0
    }
}

/// The preset scene for a selector: a single ball, a small chaotic
/// population, a solid ball per interior cell, or one of the two
/// phase-space views over that per-cell population. Unrecognized
/// selectors fall back to the single-ball scene. The arena fills the
/// frame; gravity points down at 9.8 units per second squared.
pub fn preset_scene(selector: u64, width: usize, height: usize) -> (r: SceneOrchestrator)
    requires
        2 <= width <= MAX_DIM,
        2 <= height <= MAX_DIM,
    ensures
        r.wf(),
        r.policy == (match selector {
            1u64 => DrawPolicy::SolidParticles,
            2u64 => DrawPolicy::SolidParticles,
            3u64 => DrawPolicy::SolidParticles,
            4u64 => DrawPolicy::PositionPhaseSpace,
            5u64 => DrawPolicy::VelocityPhaseSpace,
            _ => DrawPolicy::SolidParticles,
        }),
        r.arena.center.x as int == (width as int / 2) * SCALE,
        r.arena.center.y as int == (height as int / 2) * SCALE,
        r.arena.radius as int == (width as int / 2) * SCALE,
        r.acceleration == (Vector2 { x: 0i64, y: 9800i64 }),
        r.config.clear_color == (Rgba { r: 0, g: 0, b: 0, a: 255 }),
        r.config.arena_color == (Rgba { r: 100, g: 100, b: 100, a: 255 }),
        r.config.ball_color == (Rgba { r: 255, g: 255, b: 255, a: 255 }),
        r.config.velocity_span as int == preset_velocity_span(width as int),
        r.config.channel_low == 100 * SCALE,
        r.config.channel_high == 255 * SCALE,
        r.particle_radius as int == (if 3 <= selector <= 5 {
            SCALE as int
        } else {
            (width as int / 100) * SCALE
        }),
        selector == 2 ==> r.particles@ == chaos_population(r.arena.center, 10),
        3 <= selector <= 5 ==> r.particles@ == interior_population(
            r.arena,
            width as int,
            (width * height) as int,
        ),
        !(2 <= selector <= 5) ==> r.particles@ == single_ball(r.arena.center),
{
    let half: i64 = ((width / 2) as i64) * SCALE;
    let half_y: i64 = ((height / 2) as i64) * SCALE;
    let center = Vector2 { x: half, y: half_y };
    let arena = Disk::new(center, half);
    let span0: i64 = ((width / 10) as i64) * (2 * SCALE) + ((width / 10) as i64) * (SCALE / 2);
    let config = SceneConfig {
        clear_color: Rgba { r: 0, g: 0, b: 0, a: 255 },
        arena_color: Rgba { r: 100, g: 100, b: 100, a: 255 },
        ball_color: Rgba { r: 255, g: 255, b: 255, a: 255 },
        velocity_span: if span0 < SCALE {
            SCALE
        } else {
            span0
        },
        channel_low: 100 * SCALE,
        channel_high: 255 * SCALE,
    };
    let gravity = Vector2 { x: 0, y: 9800 };
    let ball_radius: i64 = ((width / 100) as i64) * SCALE;
    if selector == 2 {
        let mut particles: Vec<ParticleState> = Vec::new();
        let mut i: usize = 0;
        proof {
            assert(particles@ =~= chaos_population(center, 0));
        }
        while i < 10
            invariant
                i <= 10,
                particles@ == chaos_population(center, i as int),
            decreases 10 - i,
        {
            let p = ParticleState::new(center, Vector2 { x: 100 * (i as i64), y: 0 });
            particles.push(p);
            proof {
                assert(particles@ == chaos_population(center, i as int + 1));
            }
            i = i + 1;
        }
        SceneOrchestrator {
            arena,
            particle_radius: ball_radius,
            acceleration: gravity,
            policy: DrawPolicy::SolidParticles,
            config,
            particles,
        }
    } else if selector == 3 || selector == 4 || selector == 5 {
        let particles = populate_interior(&arena, width, height);
        let policy = if selector == 3 {
            DrawPolicy::SolidParticles
        } else if selector == 4 {
            DrawPolicy::PositionPhaseSpace
        } else {
            DrawPolicy::VelocityPhaseSpace
        };
        SceneOrchestrator {
            arena,
            particle_radius: SCALE,
            acceleration: gravity,
            policy,
            config,
            particles,
        }
    } else {
        let mut particles: Vec<ParticleState> = Vec::new();
        particles.push(ParticleState::new(center, Vector2 { x: 10 * SCALE, y: 0 }));
        proof {
            assert(particles@ =~= single_ball(center));
        }
        SceneOrchestrator {
            arena,
            particle_radius: ball_radius,
            acceleration: gravity,
            policy: DrawPolicy::SolidParticles,
            config,
            particles,
        }
    }
}

} // verus!