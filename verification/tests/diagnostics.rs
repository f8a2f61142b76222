//! Exact expected values for the read-only diagnostic queries.

use gravity_sim::fixed::FX_SCALE;
use gravity_sim::sim::Model;
use gravity_sim::structs::{Particle, Vec2};
use gravity_sim::util::{
    calculate_angular_momentum, calculate_kinetic_energy, calculate_linear_momentum,
    calculate_potential_energy, calculate_total_energy,
};

fn unit(x: i64) -> i128 {
    x as i128 * FX_SCALE
}

fn particle(px: i128, py: i128, vx: i128, vy: i128, mass: i128, dt: i128) -> Particle {
    Particle::new(
        Vec2 { x: px, y: py },
        Vec2 { x: vx, y: vy },
        mass,
        0,
        dt,
        String::from("/"),
    )
}

#[test]
fn kinetic_energy_of_a_3_4_5_velocity() {
    let dt = FX_SCALE;
    // One particle of mass 2 with speed 5: energy m v^2 / 2 = 25.
    let particles = vec![particle(0, 0, unit(3), unit(4), unit(2), dt)];
    assert_eq!(calculate_kinetic_energy(&particles, dt), unit(25));
}

#[test]
fn potential_energy_of_one_pair() {
    let dt = FX_SCALE;
    // Masses 2 and 3 at distance 2 with g = 1: energy -m1 m2 / d = -3.
    let particles = vec![
        particle(0, 0, 0, 0, unit(2), dt),
        particle(unit(2), 0, 0, 0, unit(3), dt),
    ];
    assert_eq!(calculate_potential_energy(&particles, 1, 1), -unit(3));
    // The gravitational constant scales it: g = 1/2 halves the energy.
    assert_eq!(calculate_potential_energy(&particles, 1, 2), -unit(3) / 2);
    // A coincident pair contributes nothing rather than diverging.
    let coincident = vec![
        particle(unit(5), unit(5), 0, 0, unit(2), dt),
        particle(unit(5), unit(5), 0, 0, unit(3), dt),
    ];
    assert_eq!(calculate_potential_energy(&coincident, 1, 1), 0);
}

#[test]
fn total_energy_is_kinetic_plus_potential() {
    let dt = FX_SCALE;
    let particles = vec![
        particle(0, 0, unit(3), unit(4), unit(2), dt),
        particle(unit(2), 0, 0, 0, unit(3), dt),
    ];
    let ke = calculate_kinetic_energy(&particles, dt);
    let pe = calculate_potential_energy(&particles, 1, 1);
    assert_eq!(calculate_total_energy(&particles, 1, 1, dt), ke + pe);
    assert_eq!(ke, unit(25));
    assert_eq!(pe, -unit(3));
}

#[test]
fn linear_momentum_is_mass_times_velocity() {
    let dt = FX_SCALE;
    let particles = vec![
        particle(0, 0, unit(3), unit(4), unit(2), dt),
        particle(unit(9), 0, unit(-1), 0, unit(5), dt),
    ];
    let p = calculate_linear_momentum(&particles, dt);
    assert_eq!(p.x, unit(6) - unit(5));
    assert_eq!(p.y, unit(8));
}

#[test]
fn angular_momentum_of_a_symmetric_spinner() {
    let dt = FX_SCALE;
    // Two unit masses at (-1, 0) and (1, 0) moving (0, -1) and (0, 1):
    // the center of mass is the origin and L = 2 (counterclockwise).
    let particles = vec![
        particle(unit(-1), 0, 0, unit(-1), unit(1), dt),
        particle(unit(1), 0, 0, unit(1), unit(1), dt),
    ];
    assert_eq!(calculate_angular_momentum(&particles, dt), unit(2));
    // Reversing both velocities flips the sign.
    let reversed = vec![
        particle(unit(-1), 0, 0, unit(1), unit(1), dt),
        particle(unit(1), 0, 0, unit(-1), unit(1), dt),
    ];
    assert_eq!(calculate_angular_momentum(&reversed, dt), -unit(2));
}

#[test]
fn diagnostics_of_an_empty_ensemble_are_zero() {
    let dt = FX_SCALE;
    let particles: Vec<Particle> = Vec::new();
    assert_eq!(calculate_kinetic_energy(&particles, dt), 0);
    assert_eq!(calculate_potential_energy(&particles, 1, 1), 0);
    assert_eq!(calculate_total_energy(&particles, 1, 1, dt), 0);
    let p = calculate_linear_momentum(&particles, dt);
    assert_eq!((p.x, p.y), (0, 0));
    assert_eq!(calculate_angular_momentum(&particles, dt), 0);
}

#[test]
fn stepping_an_empty_model_only_advances_time() {
    let dt = unit(3);
    let mut model = Model::new(Vec::new(), dt, 1, 1, true, FX_SCALE, String::from("empty"));
    model.toggle_running();
    model.step();
    assert_eq!(model.elapsed, unit(3));
    assert_eq!(model.particles.len(), 0);
}
