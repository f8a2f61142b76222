//! Tests of the simulation model: the tick pipeline, pausing, reset,
//! speed changes, and the overlap pass.

use gravity_sim::fixed::FX_SCALE;
use gravity_sim::sim::{resolve_overlaps, Model};
use gravity_sim::structs::{velocity, Particle, Vec2};
use gravity_sim::util::{calculate_kinetic_energy, calculate_total_energy};

fn unit(x: i64) -> i128 {
    x as i128 * FX_SCALE
}

fn particle(px: i128, py: i128, vx: i128, vy: i128, mass: i128, radius: i128, dt: i128) -> Particle {
    Particle::new(
        Vec2 { x: px, y: py },
        Vec2 { x: vx, y: vy },
        mass,
        radius,
        dt,
        String::from("/"),
    )
}

#[test]
fn three_body_line_accumulates_exact_forces() {
    let dt = FX_SCALE;
    // Masses 4, 1, 4 at x = 0, 2, 4 with g = 1.  The middle body feels
    // nothing by symmetry; each outer body feels 4*1/4 + 4*4/16 = 2 units
    // toward the center, and all the fixed-point divisions are exact.
    let mut particles = vec![
        particle(0, 0, 0, 0, unit(4), 0, dt),
        particle(unit(2), 0, 0, 0, unit(1), 0, dt),
        particle(unit(4), 0, 0, 0, unit(4), 0, dt),
    ];
    gravity_sim::sim::accumulate_forces(&mut particles, 1, 1);
    assert_eq!(particles[0].force, Vec2 { x: unit(2), y: 0 });
    assert_eq!(particles[1].force, Vec2 { x: 0, y: 0 });
    assert_eq!(particles[2].force, Vec2 { x: -unit(2), y: 0 });
}

#[test]
fn disabling_collisions_skips_separation_and_impulses() {
    let dt = FX_SCALE;
    // Two overlapping bodies at rest: with collisions disabled the
    // overlap pass does not run, and gravity between a pair in contact is
    // zeroed, so nothing moves at all.
    let defaults = vec![
        particle(0, 0, 0, 0, unit(1), unit(2), dt),
        particle(unit(1), 0, 0, 0, unit(1), unit(2), dt),
    ];
    let mut model = Model::new(defaults, dt, 1, 1, false, FX_SCALE, String::from("toy"));
    model.toggle_running();
    model.step();
    assert_eq!(model.particles[0].position, Vec2 { x: 0, y: 0 });
    assert_eq!(model.particles[1].position, Vec2 { x: unit(1), y: 0 });
}

#[test]
fn paused_model_does_not_advance() {
    let dt = FX_SCALE;
    let defaults = vec![particle(0, 0, unit(1), 0, unit(1), 0, dt)];
    let mut model = Model::new(defaults, dt, 1, 1, false, FX_SCALE, String::from("toy"));
    assert!(!model.running);
    let before = model.particles[0].position;
    model.step();
    assert_eq!(model.particles[0].position, before);
    assert_eq!(model.elapsed, 0);
}

#[test]
fn step_advances_elapsed_time() {
    let dt = unit(2);
    let defaults = vec![particle(0, 0, unit(1), 0, unit(1), 0, dt)];
    let mut model = Model::new(defaults, dt, 1, 1, false, FX_SCALE, String::from("toy"));
    model.toggle_running();
    model.step();
    model.step();
    model.step();
    assert_eq!(model.elapsed, unit(6));
    // A free particle drifts by v * dt each tick.
    assert_eq!(model.particles[0].position, Vec2 { x: unit(6), y: 0 });
}

#[test]
fn reset_restores_the_initial_snapshot() {
    let dt = FX_SCALE;
    let defaults = vec![
        particle(0, 0, unit(1), 0, unit(1), 0, dt),
        particle(unit(10), 0, 0, unit(1), unit(2), 0, dt),
    ];
    let mut model = Model::new(defaults, dt, 1, 2, false, FX_SCALE, String::from("toy"));
    model.toggle_running();
    model.step();
    model.step();
    model.change_speed(unit(3));
    assert_ne!(model.particles[0].position, Vec2 { x: 0, y: 0 });
    model.reset();
    assert!(!model.running);
    assert_eq!(model.elapsed, 0);
    assert_eq!(model.delta_t, dt);
    assert_eq!(model.particles.len(), 2);
    assert_eq!(model.particles[0].position, Vec2 { x: 0, y: 0 });
    assert_eq!(model.particles[1].position, Vec2 { x: unit(10), y: 0 });
    assert_eq!(model.particles[0].name, "/");
}

#[test]
fn change_speed_preserves_apparent_velocity() {
    let dt = FX_SCALE;
    let defaults = vec![particle(unit(5), unit(5), unit(2), unit(-3), unit(4), 0, dt)];
    let mut model = Model::new(defaults, dt, 1, 1, false, FX_SCALE, String::from("toy"));
    let v_before = velocity(&model.particles[0], model.delta_t);
    model.change_speed(unit(2));
    assert_eq!(model.delta_t, unit(2));
    let v_after = velocity(&model.particles[0], model.delta_t);
    assert_eq!(v_before, v_after);
    // Position is untouched by a speed change.
    assert_eq!(model.particles[0].position, Vec2 { x: unit(5), y: unit(5) });
}

#[test]
fn overlap_resolution_separates_by_inverse_mass() {
    let dt = FX_SCALE;
    // Radii 2 + 2 against distance 2: overlap of 2 units; the light body
    // (mass 1) takes three quarters of it, the heavy one (mass 3) one
    // quarter.
    let mut particles = vec![
        particle(0, 0, 0, 0, unit(3), unit(2), dt),
        particle(unit(2), 0, 0, 0, unit(1), unit(2), dt),
    ];
    resolve_overlaps(&mut particles);
    assert_eq!(particles[0].position, Vec2 { x: -FX_SCALE / 2, y: 0 });
    assert_eq!(particles[1].position, Vec2 { x: unit(2) + FX_SCALE * 3 / 2, y: 0 });
    // Previous positions are untouched: the correction is velocity-free
    // only in the sense that it mutates position alone.
    assert_eq!(particles[0].previous_position, Vec2 { x: 0, y: 0 });
}

#[test]
fn overlap_resolution_is_idempotent_once_separated() {
    let dt = FX_SCALE;
    let mut particles = vec![
        particle(0, 0, 0, 0, unit(3), unit(1), dt),
        particle(unit(2), 0, 0, 0, unit(1), unit(1), dt),
        particle(unit(10), unit(10), 0, 0, unit(5), unit(1), dt),
    ];
    let snapshot: Vec<(i128, i128)> = particles.iter().map(|p| (p.position.x, p.position.y)).collect();
    resolve_overlaps(&mut particles);
    let after: Vec<(i128, i128)> = particles.iter().map(|p| (p.position.x, p.position.y)).collect();
    assert_eq!(snapshot, after);
}

#[test]
fn coincident_particles_survive_a_full_tick() {
    let dt = FX_SCALE;
    // Two bodies at exactly the same point, collisions on: force, overlap
    // and impulse all degrade to no-ops, and the tick completes with
    // well-defined positions.
    let defaults = vec![
        particle(unit(1), unit(1), 0, 0, unit(1), unit(1), dt),
        particle(unit(1), unit(1), 0, 0, unit(2), unit(1), dt),
    ];
    let mut model = Model::new(defaults, dt, 6674, 100_000_000_000_000, true, FX_SCALE, String::from("toy"));
    model.toggle_running();
    model.step();
    assert_eq!(model.particles[0].position, Vec2 { x: unit(1), y: unit(1) });
    assert_eq!(model.particles[1].position, Vec2 { x: unit(1), y: unit(1) });
}

#[test]
fn elastic_collision_through_a_full_tick() {
    let dt = FX_SCALE;
    // Contact without overlap (distance equals the radii sum), no gravity:
    // after one tick the moving body has stopped and the resting body
    // carries its velocity.
    let defaults = vec![
        particle(0, 0, unit(1), 0, unit(1), unit(1), dt),
        particle(unit(2), 0, 0, 0, unit(1), unit(1), dt),
    ];
    let mut model = Model::new(defaults, dt, 0, 1, true, FX_SCALE, String::from("toy"));
    let ke_before = calculate_kinetic_energy(&model.particles, model.delta_t);
    model.toggle_running();
    model.step();
    assert_eq!(model.particles[0].position, Vec2 { x: 0, y: 0 });
    assert_eq!(model.particles[1].position, Vec2 { x: unit(3), y: 0 });
    let v0 = velocity(&model.particles[0], model.delta_t);
    let v1 = velocity(&model.particles[1], model.delta_t);
    assert_eq!(v0, Vec2 { x: 0, y: 0 });
    assert_eq!(v1, Vec2 { x: unit(1), y: 0 });
    // A perfectly elastic head-on swap preserves kinetic energy exactly.
    let ke_after = calculate_kinetic_energy(&model.particles, model.delta_t);
    assert_eq!(ke_before, ke_after);
}

#[test]
fn inelastic_collision_dissipates_kinetic_energy() {
    let dt = FX_SCALE;
    let defaults = vec![
        particle(0, 0, unit(1), 0, unit(1), unit(1), dt),
        particle(unit(2), 0, 0, 0, unit(1), unit(1), dt),
    ];
    // Restitution one half.
    let mut model = Model::new(defaults, dt, 0, 1, true, FX_SCALE / 2, String::from("toy"));
    let ke_before = calculate_kinetic_energy(&model.particles, model.delta_t);
    model.toggle_running();
    model.step();
    let ke_after = calculate_kinetic_energy(&model.particles, model.delta_t);
    assert!(ke_after < ke_before);
    assert!(ke_after > 0);
    let e_total = calculate_total_energy(&model.particles, model.g_num, model.g_den, model.delta_t);
    assert_eq!(e_total, ke_after);
}
