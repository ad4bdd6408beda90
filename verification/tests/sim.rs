use arena_sim::disk::Disk;
use arena_sim::num::SCALE;
use arena_sim::particle::{step, ParticleState};
use arena_sim::raster::{
    clear_frame, draw_circle, map_to_channel, map_to_range, set_pixel, Frame, Rgba,
};
use arena_sim::scene::{populate_interior, preset_scene, DrawPolicy};
use arena_sim::vector::Vector2;

fn black() -> Rgba {
    Rgba {
        r: 0,
        g: 0,
        b: 0,
        a: 255,
    }
}

fn white() -> Rgba {
    Rgba {
        r: 255,
        g: 255,
        b: 255,
        a: 255,
    }
}

#[test]
fn step_from_center_no_reflection() {
    // A particle at the arena center with velocity (10, 0) under gravity
    // (0, 9.8) and dt 0.1 moves to (1.0, 0.098) relative to the center
    // with velocity (10.0, 0.98), and no reflection triggers.
    let center = Vector2 {
        x: 200 * SCALE,
        y: 200 * SCALE,
    };
    let arena = Disk::new(center, 200 * SCALE);
    let state = ParticleState::new(center, Vector2 { x: 10 * SCALE, y: 0 });
    let gravity = Vector2 { x: 0, y: 9800 };
    let after = step(&state, &arena, 4 * SCALE, &gravity, 100);
    assert_eq!(after.velocity.x, 10 * SCALE);
    assert_eq!(after.velocity.y, 980);
    assert_eq!(after.position.x, center.x + 1000);
    assert_eq!(after.position.y, center.y + 98);
    assert_eq!(after.initial_position.x, center.x);
    assert_eq!(after.initial_position.y, center.y);
}

#[test]
fn step_radial_reflection_on_boundary() {
    // A particle exactly at the legal radius moving radially outward is
    // reflected: the radial velocity flips sign and the position lands
    // exactly on the boundary circle.
    let center = Vector2 {
        x: 200 * SCALE,
        y: 200 * SCALE,
    };
    let arena = Disk::new(center, 200 * SCALE);
    let start = Vector2 {
        x: center.x + 196 * SCALE,
        y: center.y,
    };
    let state = ParticleState::new(start, Vector2 { x: 10 * SCALE, y: 0 });
    let no_gravity = Vector2 { x: 0, y: 0 };
    let after = step(&state, &arena, 4 * SCALE, &no_gravity, 100);
    assert_eq!(after.velocity.x, -10 * SCALE);
    assert_eq!(after.velocity.y, 0);
    assert_eq!(after.position.x, center.x + 196 * SCALE);
    assert_eq!(after.position.y, center.y);
}

#[test]
fn step_keeps_particle_inside() {
    // Wherever the particle starts and however fast it moves, after one
    // step its squared distance to the center is at most the squared
    // clearance.
    let center = Vector2 {
        x: 200 * SCALE,
        y: 200 * SCALE,
    };
    let arena = Disk::new(center, 200 * SCALE);
    let gravity = Vector2 { x: 0, y: 9800 };
    let radius = 4 * SCALE;
    let limit = (200 - 4) * SCALE as i128;
    let mut state = ParticleState::new(
        Vector2 {
            x: center.x + 150 * SCALE,
            y: center.y - 80 * SCALE,
        },
        Vector2 {
            x: 90 * SCALE,
            y: -120 * SCALE,
        },
    );
    for _ in 0..200 {
        state = step(&state, &arena, radius, &gravity, 100);
        let dx = (state.position.x - center.x) as i128;
        let dy = (state.position.y - center.y) as i128;
        assert!(dx * dx + dy * dy <= limit * limit);
    }
}

#[test]
fn dot_product_is_exact() {
    let a = Vector2 { x: 3000, y: -4000 };
    let b = Vector2 { x: 2000, y: 500 };
    assert_eq!(a.dot_product(&b), 3000i128 * 2000 - 4000 * 500);
}

#[test]
fn reflection_preserves_speed() {
    // An axis-aligned reflection flips one component exactly, keeping the
    // squared speed unchanged.
    let v = Vector2 { x: 3000, y: 4000 };
    let axis = Vector2 { x: 1000, y: 0 };
    let r = v.reflect(&axis);
    assert_eq!(r.x, -3000);
    assert_eq!(r.y, 4000);
    let before = (v.x as i128) * (v.x as i128) + (v.y as i128) * (v.y as i128);
    let after = (r.x as i128) * (r.x as i128) + (r.y as i128) * (r.y as i128);
    assert_eq!(before, after);
}

#[test]
fn map_range_identity_and_rounding() {
    // The identity transform returns its input exactly; 127.5 rounds up
    // to channel value 128.
    assert_eq!(map_to_range(127500, 0, 255 * SCALE, 0, 255 * SCALE), 127500);
    assert_eq!(map_to_channel(127500, 0, 255 * SCALE, 0, 255 * SCALE), 128);
}

#[test]
fn map_range_round_trip() {
    // Mapping into a range and back returns the original value when the
    // target range is at least as wide as the source range.
    let v = 123456;
    let w = map_to_range(v, 0, 1_000_000, 0, 500_000);
    let back = map_to_range(w, 0, 500_000, 0, 1_000_000);
    assert!((back - v).abs() <= 2);

    let v2 = 77777;
    let w2 = map_to_range(v2, -400_000, 400_000, 0, 800_000);
    let back2 = map_to_range(w2, 0, 800_000, -400_000, 400_000);
    assert_eq!(back2, v2);
}

#[test]
fn map_channel_clamps() {
    assert_eq!(map_to_channel(-500 * SCALE, 0, 255 * SCALE, 0, 255 * SCALE), 0);
    assert_eq!(map_to_channel(900 * SCALE, 0, 255 * SCALE, 0, 255 * SCALE), 255);
}

#[test]
fn clear_frame_overwrites_everything() {
    let mut frame = Frame::new(8, 6, black());
    clear_frame(&white(), &mut frame);
    assert_eq!(frame.pixels.len(), 48);
    for p in frame.pixels.iter() {
        assert_eq!(*p, white());
    }
}

#[test]
fn set_pixel_in_and_out_of_bounds() {
    let mut frame = Frame::new(8, 6, black());
    set_pixel(3, 2, &white(), &mut frame);
    assert_eq!(frame.pixels[2 * 8 + 3], white());
    let snapshot: Vec<Rgba> = frame.pixels.clone();
    set_pixel(8, 0, &white(), &mut frame);
    set_pixel(0, 6, &white(), &mut frame);
    assert_eq!(frame.pixels, snapshot);
}

#[test]
fn fill_disk_pixel_count_approximates_area() {
    // The number of lit pixels of a disk of radius 50 approximates the
    // disk's area within a small relative error.
    let mut frame = Frame::new(128, 128, black());
    let disk = Disk::new(
        Vector2 {
            x: 64 * SCALE,
            y: 64 * SCALE,
        },
        50 * SCALE,
    );
    draw_circle(&disk, &white(), &mut frame);
    let count = frame.pixels.iter().filter(|p| **p == white()).count();
    let area = std::f64::consts::PI * 50.0 * 50.0;
    let rel = (count as f64 - area).abs() / area;
    assert!(rel < 0.02, "count {} area {}", count, rel);
}

#[test]
fn degenerate_disk_lights_exactly_one_pixel() {
    // A disk of radius 0.3 at a non-integer center covers no pixel
    // center, so the fallback plots exactly the rounded center pixel.
    let mut frame = Frame::new(32, 32, black());
    let disk = Disk::new(Vector2 { x: 10400, y: 10600 }, 300);
    draw_circle(&disk, &white(), &mut frame);
    let count = frame.pixels.iter().filter(|p| **p == white()).count();
    assert_eq!(count, 1);
    assert_eq!(frame.pixels[11 * 32 + 10], white());
}

#[test]
fn populate_interior_counts_cells() {
    // An arena of radius 2 centered at (2, 2) strictly contains exactly
    // the nine cells around its center.
    let arena = Disk::new(
        Vector2 {
            x: 2 * SCALE,
            y: 2 * SCALE,
        },
        2 * SCALE,
    );
    let particles = populate_interior(&arena, 5, 5);
    assert_eq!(particles.len(), 9);
    for p in particles.iter() {
        assert_eq!(p.velocity.x, 0);
        assert_eq!(p.velocity.y, 0);
        assert_eq!(p.initial_position, p.position);
    }
}

#[test]
fn reflection_preserves_speed_diagonal() {
    // A reflection about a diagonal axis that happens to divide evenly is
    // exact: (3, 4) about (1, 1) becomes (-4, -3).
    let v = Vector2 { x: 3000, y: 4000 };
    let axis = Vector2 { x: 1000, y: 1000 };
    let r = v.reflect(&axis);
    assert_eq!(r.x, -4000);
    assert_eq!(r.y, -3000);
    let before = (v.x as i128) * (v.x as i128) + (v.y as i128) * (v.y as i128);
    let after = (r.x as i128) * (r.x as i128) + (r.y as i128) * (r.y as i128);
    assert_eq!(before, after);
}

#[test]
fn per_cell_presets_use_unit_radius() {
    // The per-cell scenes (solid and both phase spaces) give every
    // particle a footprint of one world unit.
    assert_eq!(preset_scene(3, 400, 400).particle_radius, SCALE);
    assert_eq!(preset_scene(4, 400, 400).particle_radius, SCALE);
    assert_eq!(preset_scene(5, 400, 400).particle_radius, SCALE);
    assert_eq!(preset_scene(1, 400, 400).particle_radius, 4 * SCALE);
}

#[test]
fn preset_scene_selection_and_fallback() {
    let s1 = preset_scene(1, 400, 400);
    assert_eq!(s1.policy, DrawPolicy::SolidParticles);
    assert_eq!(s1.particles.len(), 1);
    assert_eq!(s1.particles[0].velocity.x, 10 * SCALE);
    let s2 = preset_scene(2, 400, 400);
    assert_eq!(s2.particles.len(), 10);
    let s4 = preset_scene(4, 400, 400);
    assert_eq!(s4.policy, DrawPolicy::PositionPhaseSpace);
    let s5 = preset_scene(5, 400, 400);
    assert_eq!(s5.policy, DrawPolicy::VelocityPhaseSpace);
    let fallback = preset_scene(42, 400, 400);
    assert_eq!(fallback.policy, DrawPolicy::SolidParticles);
    assert_eq!(fallback.particles.len(), 1);
}

#[test]
fn tick_advances_all_particles() {
    let mut scene = preset_scene(1, 400, 400);
    let center_x = 200 * SCALE;
    let center_y = 200 * SCALE;
    scene.tick(100);
    assert_eq!(scene.particles[0].position.x, center_x + 1000);
    assert_eq!(scene.particles[0].position.y, center_y + 98);
    assert_eq!(scene.particles[0].velocity.y, 980);
}

#[test]
fn render_solid_scene_draws_arena() {
    let mut scene = preset_scene(1, 64, 64);
    let mut frame = Frame::new(64, 64, black());
    scene.tick(100);
    scene.render(&mut frame);
    // The arena fill must have recolored the frame center.
    let center_pixel = frame.pixels[32 * 64 + 32];
    assert_ne!(center_pixel, black());
}
