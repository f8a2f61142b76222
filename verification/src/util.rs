//! Geometry helpers and read-only diagnostics over the particle ensemble.

use vstd::prelude::*;

use crate::fixed::{
    clamp, fx_hypot, fxmul_s, fxdiv_s, in_range, muldiv_s, sat_add, sat_add_s, sat_sub, sat_sub_s,
    sqrt_s, FX_SCALE,
};
use crate::structs::{Particle, Vec2};

verus! {

/// The fixed-point Euclidean distance between two points: the floor square
/// root of the sum of squared (saturating) coordinate differences.
pub open spec fn dist_s(a: Vec2, b: Vec2) -> int {
    clamp(
        sqrt_s(
            sat_sub_s(a.x as int, b.x as int) * sat_sub_s(a.x as int, b.x as int)
                + sat_sub_s(a.y as int, b.y as int) * sat_sub_s(a.y as int, b.y as int),
        ),
    )
}

/// Distance between two points.
pub fn distance(point_a: Vec2, point_b: Vec2) -> (r: i128)
    requires
        crate::structs::v2_in_range(point_a),
        crate::structs::v2_in_range(point_b),
    ensures
        r as int == dist_s(point_a, point_b),
        r >= 0,
        in_range(r as int),
{
    let dx = sat_sub(point_a.x, point_b.x);
    let dy = sat_sub(point_a.y, point_b.y);
    fx_hypot(dx, dy)
}

/// Distance is symmetric in its two endpoints.
pub proof fn lemma_dist_symmetric(a: Vec2, b: Vec2)
    ensures
        dist_s(a, b) == dist_s(b, a),
{
    crate::fixed::lemma_clamp_neg(a.x - b.x);
    crate::fixed::lemma_clamp_neg(a.y - b.y);
    let dx = sat_sub_s(a.x as int, b.x as int);
    let dy = sat_sub_s(a.y as int, b.y as int);
    assert((-dx) * (-dx) == dx * dx && (-dy) * (-dy) == dy * dy) by (nonlinear_arith);
}

/// Two particles are in contact when their distance does not exceed the sum
/// of their radii.
pub open spec fn contact_s(p1: Particle, p2: Particle) -> bool {
    dist_s(p1.position, p2.position) <= sat_add_s(p1.radius as int, p2.radius as int)
}

/// Contact test.
pub fn check_collision(p1: &Particle, p2: &Particle) -> (r: bool)
    requires
        p1.wf(),
        p2.wf(),
    ensures
        r == contact_s(*p1, *p2),
{
    let d = distance(p1.position, p2.position);
    d <= sat_add(p1.radius, p2.radius)
}

/// The kinetic-energy term of one particle: `m * |v|^2 / 2`.
pub open spec fn ke_term_s(p: Particle, dt: int) -> int {
    let vx = crate::structs::vel_x_s(p, dt);
    let vy = crate::structs::vel_y_s(p, dt);
    muldiv_s(p.mass as int, sat_add_s(fxmul_s(vx, vx), fxmul_s(vy, vy)), 2 * FX_SCALE as int)
}

/// Kinetic energy accumulated over the first `n` particles.
pub open spec fn ke_upto_s(s: Seq<Particle>, dt: int, n: int) -> int
    decreases n,
{
    if n <= 0 {
        0int
    } else {
        sat_add_s(ke_upto_s(s, dt, n - 1), ke_term_s(s[n - 1], dt))
    }
}

/// Total kinetic energy of the ensemble, `sum of m * |v|^2 / 2`.
pub open spec fn kinetic_energy_s(s: Seq<Particle>, dt: int) -> int {
    ke_upto_s(s, dt, s.len() as int)
}

/// Total kinetic energy.
pub fn calculate_kinetic_energy(particles: &Vec<Particle>, delta_t: i128) -> (r: i128)
    requires
        crate::sim::particles_wf(particles@),
        in_range(delta_t as int),
        delta_t > 0,
    ensures
        r as int == kinetic_energy_s(particles@, delta_t as int),
        in_range(r as int),
{
    let n = particles.len();
    let mut total: i128 = 0;
    let mut k: usize = 0;
    while k < n
        invariant
            crate::sim::particles_wf(particles@),
            particles@.len() == n,
            in_range(delta_t as int),
            delta_t > 0,
            k <= n,
            total as int == ke_upto_s(particles@, delta_t as int, k as int),
            in_range(total as int),
        decreases n - k,
    {
        let v = crate::structs::velocity(&particles[k], delta_t);
        let v2 = sat_add(crate::fixed::fx_mul(v.x, v.x), crate::fixed::fx_mul(v.y, v.y));
        let term = crate::fixed::muldiv(particles[k].mass, v2, 2 * FX_SCALE);
        total = sat_add(total, term);
        k = k + 1;
    }
    total
}

/// The potential-energy term of one pair: `-g * m_i * m_j / d`, zero for a
/// coincident pair.
pub open spec fn pe_term_s(g_num: int, g_den: int, pi: Particle, pj: Particle) -> int {
    let d = dist_s(pi.position, pj.position);
    if d > 0 {
        -muldiv_s(muldiv_s(pi.mass as int, pj.mass as int, d), g_num, g_den)
    } else {
        0int
    }
}

/// Fold the pair potential over the unordered pairs from `(i, j)` on, in
/// index order, starting from `acc`.
pub open spec fn pe_fold_s(s: Seq<Particle>, g_num: int, g_den: int, acc: int, i: int, j: int) -> int
    decreases s.len() - i, s.len() - j,
{
    if i < 0 || j <= i || s.len() > usize::MAX as int {
        acc
    } else if i >= s.len() {
        acc
    } else if j >= s.len() {
        pe_fold_s(s, g_num, g_den, acc, i + 1, i + 2)
    } else {
        pe_fold_s(s, g_num, g_den, sat_add_s(acc, pe_term_s(g_num, g_den, s[i], s[j])), i, j + 1)
    }
}

/// Total potential energy: `sum over unordered pairs of -g m_i m_j / d`.
pub open spec fn potential_energy_s(s: Seq<Particle>, g_num: int, g_den: int) -> int {
    pe_fold_s(s, g_num, g_den, 0, 0, 1)
}

/// Total gravitational potential energy.
pub fn calculate_potential_energy(particles: &Vec<Particle>, g_num: i128, g_den: i128) -> (r: i128)
    requires
        crate::sim::particles_wf(particles@),
        in_range(g_num as int),
        g_den > 0,
    ensures
        r as int == potential_energy_s(particles@, g_num as int, g_den as int),
        in_range(r as int),
{
    let n = particles.len();
    let mut total: i128 = 0;
    let mut i: usize = 0;
    while i < n
        invariant
            crate::sim::particles_wf(particles@),
            particles@.len() == n,
            in_range(g_num as int),
            g_den > 0,
            i <= n,
            in_range(total as int),
            potential_energy_s(particles@, g_num as int, g_den as int) == pe_fold_s(
                particles@,
                g_num as int,
                g_den as int,
                total as int,
                i as int,
                i as int + 1,
            ),
        decreases n - i,
    {
        let mut j: usize = i + 1;
        while j < n
            invariant
                crate::sim::particles_wf(particles@),
                particles@.len() == n,
                in_range(g_num as int),
                g_den > 0,
                i < n,
                i < j,
                in_range(total as int),
                potential_energy_s(particles@, g_num as int, g_den as int) == pe_fold_s(
                    particles@,
                    g_num as int,
                    g_den as int,
                    total as int,
                    i as int,
                    j as int,
                ),
            decreases n - j,
        {
            let d = distance(particles[i].position, particles[j].position);
            if d > 0 {
                let t = crate::fixed::muldiv(
                    crate::fixed::muldiv(particles[i].mass, particles[j].mass, d),
                    g_num,
                    g_den,
                );
                total = sat_add(total, -t);
            }
            j = j + 1;
        }
        i = i + 1;
    }
    total
}

/// Linear momentum accumulated over the first `n` particles.
pub open spec fn momentum_upto_s(s: Seq<Particle>, dt: int, n: int) -> (int, int)
    decreases n,
{
    if n <= 0 {
        (0int, 0int)
    } else {
        let prev = momentum_upto_s(s, dt, n - 1);
        let p = s[n - 1];
        (
            sat_add_s(prev.0, fxmul_s(p.mass as int, crate::structs::vel_x_s(p, dt))),
            sat_add_s(prev.1, fxmul_s(p.mass as int, crate::structs::vel_y_s(p, dt))),
        )
    }
}

/// Total linear momentum, `sum of m * v`, as a 2-vector.
pub open spec fn linear_momentum_s(s: Seq<Particle>, dt: int) -> (int, int) {
    momentum_upto_s(s, dt, s.len() as int)
}

/// Total linear momentum.
pub fn calculate_linear_momentum(particles: &Vec<Particle>, delta_t: i128) -> (r: Vec2)
    requires
        crate::sim::particles_wf(particles@),
        in_range(delta_t as int),
        delta_t > 0,
    ensures
        r.x as int == linear_momentum_s(particles@, delta_t as int).0,
        r.y as int == linear_momentum_s(particles@, delta_t as int).1,
        crate::structs::v2_in_range(r),
{
    let n = particles.len();
    let mut total = Vec2 { x: 0, y: 0 };
    let mut k: usize = 0;
    while k < n
        invariant
            crate::sim::particles_wf(particles@),
            particles@.len() == n,
            in_range(delta_t as int),
            delta_t > 0,
            k <= n,
            total.x as int == momentum_upto_s(particles@, delta_t as int, k as int).0,
            total.y as int == momentum_upto_s(particles@, delta_t as int, k as int).1,
            crate::structs::v2_in_range(total),
        decreases n - k,
    {
        let v = crate::structs::velocity(&particles[k], delta_t);
        total = Vec2 {
            x: sat_add(total.x, crate::fixed::fx_mul(particles[k].mass, v.x)),
            y: sat_add(total.y, crate::fixed::fx_mul(particles[k].mass, v.y)),
        };
        k = k + 1;
    }
    total
}

/// Total mass of the first `n` particles.
pub open spec fn mass_upto_s(s: Seq<Particle>, n: int) -> int
    decreases n,
{
    if n <= 0 {
        0int
    } else {
        sat_add_s(mass_upto_s(s, n - 1), s[n - 1].mass as int)
    }
}

/// Mass-weighted position sums of the first `n` particles.
pub open spec fn weighted_pos_upto_s(s: Seq<Particle>, n: int) -> (int, int)
    decreases n,
{
    if n <= 0 {
        (0int, 0int)
    } else {
        let prev = weighted_pos_upto_s(s, n - 1);
        (
            sat_add_s(prev.0, fxmul_s(s[n - 1].position.x as int, s[n - 1].mass as int)),
            sat_add_s(prev.1, fxmul_s(s[n - 1].position.y as int, s[n - 1].mass as int)),
        )
    }
}

/// A saturating sum of positive masses stays positive.
pub proof fn lemma_mass_upto_pos(s: Seq<Particle>, n: int)
    requires
        crate::sim::particles_wf(s),
        0 < n <= s.len(),
    ensures
        mass_upto_s(s, n) > 0,
    decreases n,
{
    assert(s[n - 1].wf());
    if n > 1 {
        lemma_mass_upto_pos(s, n - 1);
    }
    assert(mass_upto_s(s, n - 1) >= 0);
    assert(mass_upto_s(s, n) == sat_add_s(mass_upto_s(s, n - 1), s[n - 1].mass as int));
    assert(sat_add_s(mass_upto_s(s, n - 1), s[n - 1].mass as int) > 0);
}

/// The angular-momentum term of one particle about the point `(cx, cy)`:
/// `m * (r x v)` with `r` the offset from that point.
pub open spec fn am_term_s(p: Particle, dt: int, cx: int, cy: int) -> int {
    let rx = sat_sub_s(p.position.x as int, cx);
    let ry = sat_sub_s(p.position.y as int, cy);
    let vx = crate::structs::vel_x_s(p, dt);
    let vy = crate::structs::vel_y_s(p, dt);
    fxmul_s(p.mass as int, sat_sub_s(fxmul_s(rx, vy), fxmul_s(ry, vx)))
}

/// Angular momentum about `(cx, cy)` accumulated over the first `n`
/// particles.
pub open spec fn am_upto_s(s: Seq<Particle>, dt: int, cx: int, cy: int, n: int) -> int
    decreases n,
{
    if n <= 0 {
        0int
    } else {
        sat_add_s(am_upto_s(s, dt, cx, cy, n - 1), am_term_s(s[n - 1], dt, cx, cy))
    }
}

/// Total angular momentum about the mass-weighted center of mass; zero for
/// an empty ensemble.
pub open spec fn angular_momentum_s(s: Seq<Particle>, dt: int) -> int {
    if s.len() == 0 {
        0int
    } else {
        let m = mass_upto_s(s, s.len() as int);
        let w = weighted_pos_upto_s(s, s.len() as int);
        am_upto_s(s, dt, fxdiv_s(w.0, m), fxdiv_s(w.1, m), s.len() as int)
    }
}

/// Total angular momentum about the center of mass (a scalar in 2-D).
pub fn calculate_angular_momentum(particles: &Vec<Particle>, delta_t: i128) -> (r: i128)
    requires
        crate::sim::particles_wf(particles@),
        in_range(delta_t as int),
        delta_t > 0,
    ensures
        r as int == angular_momentum_s(particles@, delta_t as int),
        in_range(r as int),
{
    let n = particles.len();
    if n == 0 {
        return 0;
    }
    let mut total_mass: i128 = 0;
    let mut wx: i128 = 0;
    let mut wy: i128 = 0;
    let mut k: usize = 0;
    while k < n
        invariant
            crate::sim::particles_wf(particles@),
            particles@.len() == n,
            k <= n,
            total_mass as int == mass_upto_s(particles@, k as int),
            wx as int == weighted_pos_upto_s(particles@, k as int).0,
            wy as int == weighted_pos_upto_s(particles@, k as int).1,
            in_range(total_mass as int),
            in_range(wx as int),
            in_range(wy as int),
        decreases n - k,
    {
        total_mass = sat_add(total_mass, particles[k].mass);
        wx = sat_add(wx, crate::fixed::fx_mul(particles[k].position.x, particles[k].mass));
        wy = sat_add(wy, crate::fixed::fx_mul(particles[k].position.y, particles[k].mass));
        k = k + 1;
    }
    proof {
        lemma_mass_upto_pos(particles@, n as int);
    }
    let cx = crate::fixed::fx_div(wx, total_mass);
    let cy = crate::fixed::fx_div(wy, total_mass);
    let mut total: i128 = 0;
    let mut k2: usize = 0;
    while k2 < n
        invariant
            crate::sim::particles_wf(particles@),
            particles@.len() == n,
            in_range(delta_t as int),
            delta_t > 0,
            in_range(cx as int),
            in_range(cy as int),
            k2 <= n,
            total as int == am_upto_s(particles@, delta_t as int, cx as int, cy as int, k2 as int),
            in_range(total as int),
        decreases n - k2,
    {
        let p = &particles[k2];
        let rx = sat_sub(p.position.x, cx);
        let ry = sat_sub(p.position.y, cy);
        let v = crate::structs::velocity(p, delta_t);
        let cross = sat_sub(crate::fixed::fx_mul(rx, v.y), crate::fixed::fx_mul(ry, v.x));
        total = sat_add(total, crate::fixed::fx_mul(p.mass, cross));
        k2 = k2 + 1;
    }
    total
}

/// Total energy: kinetic plus potential.
pub open spec fn total_energy_s(s: Seq<Particle>, g_num: int, g_den: int, dt: int) -> int {
    sat_add_s(kinetic_energy_s(s, dt), potential_energy_s(s, g_num, g_den))
}

/// Total energy of the ensemble.
pub fn calculate_total_energy(
    particles: &Vec<Particle>,
    g_num: i128,
    g_den: i128,
    delta_t: i128,
) -> (r: i128)
    requires
        crate::sim::particles_wf(particles@),
        in_range(g_num as int),
        g_den > 0,
        in_range(delta_t as int),
        delta_t > 0,
    ensures
        r as int == total_energy_s(particles@, g_num as int, g_den as int, delta_t as int),
        in_range(r as int),
{
    let kinetic_energy = calculate_kinetic_energy(particles, delta_t);
    let potential_energy = calculate_potential_energy(particles, g_num, g_den);
    sat_add(kinetic_energy, potential_energy)
}

} // verus!
