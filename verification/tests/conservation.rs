//! Conservation properties over many ticks, and the Earth-Moon golden
//! scenario.

use gravity_sim::fixed::{fx_mul, muldiv, FX_SCALE};
use gravity_sim::sim::Model;
use gravity_sim::structs::{Particle, Vec2};
use gravity_sim::util::{
    calculate_angular_momentum, calculate_linear_momentum, calculate_total_energy,
};

fn unit(x: i64) -> i128 {
    x as i128 * FX_SCALE
}

fn particle(px: i128, py: i128, vx: i128, vy: i128, mass: i128, dt: i128) -> Particle {
    Particle::new(
        Vec2 { x: px, y: py },
        Vec2 { x: vx, y: vy },
        mass,
        0,
        dt,
        String::from("/"),
    )
}

/// A symmetric two-body orbit in toy units: equal whole-unit masses of
/// 1000, separation 200, tangential speeds for a near-circular orbit.
fn two_body_orbit() -> Model {
    let dt = FX_SCALE;
    let m = unit(1000);
    // v = sqrt(g * m / (2 d_half)) with g = 1, d = 200: about 1.581139.
    let v: i128 = 1_581_139;
    let defaults = vec![
        particle(unit(-100), 0, 0, -v, m, dt),
        particle(unit(100), 0, 0, v, m, dt),
    ];
    Model::new(defaults, dt, 1, 1, false, FX_SCALE, String::from("orbit"))
}

#[test]
fn linear_momentum_is_exactly_conserved() {
    let mut model = two_body_orbit();
    let p0 = calculate_linear_momentum(&model.particles, model.delta_t);
    assert_eq!((p0.x, p0.y), (0, 0));
    model.toggle_running();
    for _ in 0..500 {
        model.step();
    }
    let p1 = calculate_linear_momentum(&model.particles, model.delta_t);
    assert_eq!(p1.x, p0.x);
    assert_eq!(p1.y, p0.y);
}

#[test]
fn momentum_conservation_with_net_drift() {
    // The same orbit boosted by a common velocity: total momentum is
    // nonzero and still exactly conserved (equal whole-unit masses).
    let dt = FX_SCALE;
    let m = unit(1000);
    let v: i128 = 1_581_139;
    let boost = unit(7);
    let defaults = vec![
        particle(unit(-100), 0, boost, -v, m, dt),
        particle(unit(100), 0, boost, v, m, dt),
    ];
    let mut model = Model::new(defaults, dt, 1, 1, false, FX_SCALE, String::from("orbit"));
    let p0 = calculate_linear_momentum(&model.particles, model.delta_t);
    assert_eq!(p0.x, 2 * 1000 * boost);
    model.toggle_running();
    for _ in 0..200 {
        model.step();
    }
    let p1 = calculate_linear_momentum(&model.particles, model.delta_t);
    assert_eq!(p1.x, p0.x);
    assert_eq!(p1.y, p0.y);
}

#[test]
fn energy_and_angular_momentum_drift_stays_small() {
    let mut model = two_body_orbit();
    let e0 = calculate_total_energy(&model.particles, model.g_num, model.g_den, model.delta_t);
    let l0 = calculate_angular_momentum(&model.particles, model.delta_t);
    assert!(e0 < 0, "a bound orbit has negative total energy");
    assert!(l0 != 0);
    model.toggle_running();
    for _ in 0..500 {
        model.step();
    }
    let e1 = calculate_total_energy(&model.particles, model.g_num, model.g_den, model.delta_t);
    let l1 = calculate_angular_momentum(&model.particles, model.delta_t);
    // Symplectic integration keeps both within a few percent over many
    // ticks.
    let e_drift = (e1 - e0).abs();
    let l_drift = (l1 - l0).abs();
    assert!(e_drift * 10 <= e0.abs(), "energy drift {} of {}", e_drift, e0);
    assert!(l_drift * 10 <= l0.abs(), "angular momentum drift {} of {}", l_drift, l0);
}

#[test]
fn earth_moon_golden_tick() {
    // Earth and Moon in SI units: masses 5.972e24 and 7.34767309e22 kg,
    // separation 3.844e8 m, tangential lunar speed 1018.26616017 m/s,
    // g = 6.674e-11, one tick of 1000 s, collisions disabled.
    let dt: i128 = 1000 * FX_SCALE;
    let g_num: i128 = 6674;
    let g_den: i128 = 100_000_000_000_000;
    let m_earth: i128 = 5_972_000_000_000_000_000_000_000_000_000;
    let m_moon: i128 = 73_476_730_900_000_000_000_000_000_000;
    let d: i128 = 384_400_000_000_000;
    let v_moon: i128 = 1_018_266_160;
    let defaults = vec![
        particle(0, 0, 0, 0, m_earth, dt),
        particle(d, 0, 0, v_moon, m_moon, dt),
    ];
    let mut model = Model::new(
        defaults,
        dt,
        g_num,
        g_den,
        false,
        FX_SCALE,
        String::from("earth-moon"),
    );
    model.toggle_running();
    model.step();

    // Direct application of the force formula with the same fixed-point
    // operations: F = g * m_e * m_m / d^2, each body shifted by
    // F * dt^2 / m along the line of centers, the Moon also by v * dt
    // tangentially.
    let d2 = fx_mul(d, d);
    let force = muldiv(muldiv(m_earth, m_moon, d2), g_num, g_den);
    let dt2 = fx_mul(dt, dt);
    let earth_shift = muldiv(force, dt2, m_earth);
    let moon_shift = muldiv(force, dt2, m_moon);
    let moon_drift = fx_mul(v_moon, dt);
    assert_eq!(model.particles[0].position, Vec2 { x: earth_shift, y: 0 });
    assert_eq!(model.particles[1].position, Vec2 { x: d - moon_shift, y: moon_drift });

    // Cross-check the same step against ordinary floating-point physics:
    // the two must agree to well under a tenth of one percent.
    let g = 6.674e-11_f64;
    let me = 5.972e24_f64;
    let mm = 7.347673090e22_f64;
    let dist = 3.844e8_f64;
    let dtf = 1000.0_f64;
    let f = g * me * mm / (dist * dist);
    let expect_earth = f / me * dtf * dtf;
    let expect_moon = f / mm * dtf * dtf;
    let got_earth = earth_shift as f64 / FX_SCALE as f64;
    let got_moon = moon_shift as f64 / FX_SCALE as f64;
    assert!((got_earth - expect_earth).abs() <= expect_earth * 1e-3);
    assert!((got_moon - expect_moon).abs() <= expect_moon * 1e-3);
    let got_drift = moon_drift as f64 / FX_SCALE as f64;
    let expect_drift = 1018.26616017 * dtf;
    assert!((got_drift - expect_drift).abs() <= 1.0);
}
