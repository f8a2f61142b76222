//! Tests of the fixed-point arithmetic and the pairwise physics.

use gravity_sim::fixed::{fx_div, fx_hypot, fx_mul, muldiv, sat_add, sat_sub, FX_MAX, FX_MIN, FX_SCALE};
use gravity_sim::interactions::{resolve_collision, resolve_gravitation_force};
use gravity_sim::structs::{velocity, Particle, Vec2};
use gravity_sim::util::{check_collision, distance};

fn unit(x: i64) -> i128 {
    x as i128 * FX_SCALE
}

fn particle(px: i128, py: i128, vx: i128, vy: i128, mass: i128, radius: i128, dt: i128) -> Particle {
    Particle::new(
        Vec2 { x: px, y: py },
        Vec2 { x: vx, y: vy },
        mass,
        radius,
        dt,
        String::from("/"),
    )
}

#[test]
fn muldiv_is_exact_and_truncates_toward_zero() {
    assert_eq!(muldiv(6, 7, 2), 21);
    assert_eq!(muldiv(7, 1, 2), 3);
    assert_eq!(muldiv(-7, 1, 2), -3);
    assert_eq!(muldiv(7, -1, 2), -3);
    assert_eq!(muldiv(-7, -1, 2), 3);
}

#[test]
fn muldiv_uses_wide_intermediates() {
    // The product overflows i128 but the quotient is exact.
    let a: i128 = 5_972_000_000_000_000_000_000_000_000_000;
    let b: i128 = 73_476_730_900_000_000_000_000_000_000;
    let q = muldiv(a, b, a);
    assert_eq!(q, b);
}

#[test]
fn arithmetic_saturates_symmetrically() {
    assert_eq!(muldiv(FX_MAX, FX_MAX, 1), FX_MAX);
    assert_eq!(muldiv(FX_MIN, FX_MAX, 1), FX_MIN);
    assert_eq!(sat_add(FX_MAX, 1), FX_MAX);
    assert_eq!(sat_add(FX_MIN, -1), FX_MIN);
    assert_eq!(sat_sub(FX_MIN, 1), FX_MIN);
    assert_eq!(sat_sub(FX_MAX, -1), FX_MAX);
    assert_eq!(sat_add(5, 7), 12);
    assert_eq!(sat_sub(5, 7), -2);
}

#[test]
fn fixed_point_products_and_quotients() {
    assert_eq!(fx_mul(unit(3), unit(4)), unit(12));
    assert_eq!(fx_div(unit(12), unit(4)), unit(3));
    // Half a unit times half a unit is a quarter unit.
    assert_eq!(fx_mul(FX_SCALE / 2, FX_SCALE / 2), FX_SCALE / 4);
}

#[test]
fn hypotenuse_of_a_3_4_triangle_is_5() {
    assert_eq!(fx_hypot(unit(3), unit(4)), unit(5));
    assert_eq!(fx_hypot(unit(-3), unit(4)), unit(5));
    assert_eq!(fx_hypot(0, 0), 0);
    let a = Vec2 { x: 0, y: 0 };
    let b = Vec2 { x: unit(3), y: unit(4) };
    assert_eq!(distance(a, b), unit(5));
    assert_eq!(distance(b, a), unit(5));
}

#[test]
fn gravitational_force_is_equal_and_opposite() {
    // Newton's third law on an asymmetric pair, exactly.
    let dt = FX_SCALE;
    let p1 = particle(unit(-3), unit(7), 0, 0, unit(5), 0, dt);
    let p2 = particle(unit(11), unit(-2), 0, 0, unit(40), 0, dt);
    let f12 = resolve_gravitation_force(1, 1, &p1, &p2);
    let f21 = resolve_gravitation_force(1, 1, &p2, &p1);
    assert_eq!(f12.x, -f21.x);
    assert_eq!(f12.y, -f21.y);
    assert!(f12.x != 0 || f12.y != 0);
    // The force on the first particle points toward the second.
    assert!(f12.x > 0 && f12.y < 0);
}

#[test]
fn coincident_particles_produce_zero_force_and_zero_impulse() {
    let dt = FX_SCALE;
    let p1 = particle(unit(2), unit(2), 0, 0, unit(5), unit(1), dt);
    let p2 = particle(unit(2), unit(2), 0, 0, unit(7), unit(1), dt);
    let f = resolve_gravitation_force(6674, 100_000_000_000_000, &p1, &p2);
    assert_eq!((f.x, f.y), (0, 0));
    let (a1, a2) = resolve_collision(&p1, &p2, FX_SCALE, dt);
    assert_eq!((a1.x, a1.y, a2.x, a2.y), (0, 0, 0, 0));
}

#[test]
fn separating_pair_receives_no_impulse() {
    let dt = FX_SCALE;
    // The second particle is moving away from the first.
    let p1 = particle(0, 0, 0, 0, unit(1), unit(1), dt);
    let p2 = particle(unit(2), 0, unit(3), 0, unit(1), unit(1), dt);
    let (a1, a2) = resolve_collision(&p1, &p2, FX_SCALE, dt);
    assert_eq!((a1.x, a1.y, a2.x, a2.y), (0, 0, 0, 0));
}

#[test]
fn contact_test_matches_radii() {
    let dt = FX_SCALE;
    let p1 = particle(0, 0, 0, 0, unit(1), unit(1), dt);
    let near = particle(unit(2), 0, 0, 0, unit(1), unit(1), dt);
    let far = particle(unit(3), 0, 0, 0, unit(1), unit(1), dt);
    assert!(check_collision(&p1, &near));
    assert!(!check_collision(&p1, &far));
}

#[test]
fn constructor_round_trips_velocity() {
    // Building with velocity v and stepping once with zero force moves the
    // particle by exactly v * dt, and the derived velocity is v again.
    let dt = FX_SCALE;
    let mut p = particle(unit(10), unit(-4), unit(3), unit(-2), unit(5), 0, dt);
    assert_eq!(p.force, Vec2 { x: 0, y: 0 });
    let v0 = velocity(&p, dt);
    assert_eq!(v0, Vec2 { x: unit(3), y: unit(-2) });
    let before = p.position;
    p.update(dt);
    assert_eq!(p.position.x - before.x, unit(3));
    assert_eq!(p.position.y - before.y, unit(-2));
    let v1 = velocity(&p, dt);
    assert_eq!(v1, Vec2 { x: unit(3), y: unit(-2) });
}

#[test]
fn round_trip_with_longer_tick() {
    // dt of 4 units: displacement per tick is v * dt.
    let dt = unit(4);
    let mut p = particle(0, 0, unit(3), unit(-1), unit(5), 0, dt);
    let before = p.position;
    p.update(dt);
    assert_eq!(p.position.x - before.x, unit(12));
    assert_eq!(p.position.y - before.y, unit(-4));
}

#[test]
fn elastic_head_on_collision_swaps_velocities() {
    let dt = FX_SCALE;
    // Equal whole-unit masses; the first moves 1 unit per tick toward the
    // second, which rests exactly at contact distance.
    let p1 = particle(0, 0, unit(1), 0, unit(1), unit(1), dt);
    let p2 = particle(unit(2), 0, 0, 0, unit(1), unit(1), dt);
    let (a1, a2) = resolve_collision(&p1, &p2, FX_SCALE, dt);
    assert_eq!((a1.x, a1.y), (-unit(1), 0));
    assert_eq!((a2.x, a2.y), (unit(1), 0));
}

#[test]
fn inelastic_head_on_collision_halves_the_speed() {
    let dt = FX_SCALE;
    let p1 = particle(0, 0, unit(1), 0, unit(1), unit(1), dt);
    let p2 = particle(unit(2), 0, 0, 0, unit(1), unit(1), dt);
    // Restitution 0: perfectly inelastic, both bodies end at w / 2.
    let (a1, a2) = resolve_collision(&p1, &p2, 0, dt);
    assert_eq!((a1.x, a1.y), (-FX_SCALE / 2, 0));
    assert_eq!((a2.x, a2.y), (FX_SCALE / 2, 0));
}
