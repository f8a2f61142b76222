//! Pairwise interactions: gravitational attraction and collision impulses.
//!
//! The gravitational constant is carried as an exact rational
//! `g_num / g_den`, because realistic values are far below the fixed-point
//! resolution.  Force direction is obtained by scaling the separation
//! vector with `magnitude / distance`, which equals the magnitude times the
//! cosine and sine of the separation angle; the quadrant bookkeeping of a
//! reference-angle decomposition reduces to exactly these two ratios.

use vstd::prelude::*;

use crate::fixed::{
    clamp, fx_div, fx_mul, fxdiv_s, fxmul_s, in_range, muldiv, muldiv_s, sat_add, sat_add_s,
    sat_sub, sat_sub_s, sqrt_s, FX_SCALE,
};
use crate::structs::{vel_x_s, vel_y_s, velocity, Particle, Vec2};

verus! {

/// The gravitational force on `pi` due to `pj`, over the saturating
/// fixed-point operations: magnitude `g * m_i * m_j / d^2` directed from
/// `pi` toward `pj`, and zero whenever the squared distance truncates to
/// zero (coincident or sub-resolution separation).
pub open spec fn gravity_s(g_num: int, g_den: int, pi: Particle, pj: Particle) -> (int, int) {
    let dx = sat_sub_s(pj.position.x as int, pi.position.x as int);
    let dy = sat_sub_s(pj.position.y as int, pi.position.y as int);
    let d = clamp(sqrt_s(dx * dx + dy * dy));
    let d2 = fxmul_s(d, d);
    if d2 <= 0 {
        (0int, 0int)
    } else {
        let f = muldiv_s(muldiv_s(pi.mass as int, pj.mass as int, d2), g_num, g_den);
        (muldiv_s(f, dx, d), muldiv_s(f, dy, d))
    }
}

/// Gravitational force of `particle_j` on `particle_i`.
pub fn resolve_gravitation_force(
    g_num: i128,
    g_den: i128,
    particle_i: &Particle,
    particle_j: &Particle,
) -> (f: Vec2)
    requires
        particle_i.wf(),
        particle_j.wf(),
        in_range(g_num as int),
        g_den > 0,
    ensures
        f.x as int == gravity_s(g_num as int, g_den as int, *particle_i, *particle_j).0,
        f.y as int == gravity_s(g_num as int, g_den as int, *particle_i, *particle_j).1,
        crate::structs::v2_in_range(f),
{
    let dx = sat_sub(particle_j.position.x, particle_i.position.x);
    let dy = sat_sub(particle_j.position.y, particle_i.position.y);
    let d = crate::fixed::fx_hypot(dx, dy);
    let d2 = fx_mul(d, d);
    if d2 <= 0 {
        Vec2 { x: 0, y: 0 }
    } else {
        proof {
            // A positive truncated square forces a positive root.
            crate::fixed::lemma_tdiv_pos_dividend(d as int * d as int, FX_SCALE as int);
            assert(d as int * d as int > 0 ==> d != 0) by (nonlinear_arith);
        }
        let f = muldiv(muldiv(particle_i.mass, particle_j.mass, d2), g_num, g_den);
        Vec2 { x: muldiv(f, dx, d), y: muldiv(f, dy, d) }
    }
}

/// Newton's third law: the force on `a` due to `b` is exactly the negative
/// of the force on `b` due to `a`.  Exact, not just up to tolerance: every
/// saturating operation involved is odd-symmetric.
pub proof fn lemma_gravity_newton_third_law(g_num: int, g_den: int, a: Particle, b: Particle)
    requires
        g_den > 0,
    ensures
        gravity_s(g_num, g_den, a, b).0 == -gravity_s(g_num, g_den, b, a).0,
        gravity_s(g_num, g_den, a, b).1 == -gravity_s(g_num, g_den, b, a).1,
{
    let dx = sat_sub_s(b.position.x as int, a.position.x as int);
    let dy = sat_sub_s(b.position.y as int, a.position.y as int);
    crate::fixed::lemma_clamp_neg(b.position.x - a.position.x);
    crate::fixed::lemma_clamp_neg(b.position.y - a.position.y);
    assert(sat_sub_s(a.position.x as int, b.position.x as int) == -dx);
    assert(sat_sub_s(a.position.y as int, b.position.y as int) == -dy);
    assert((-dx) * (-dx) == dx * dx && (-dy) * (-dy) == dy * dy) by (nonlinear_arith);
    assert(dx * dx + dy * dy >= 0) by (nonlinear_arith);
    crate::fixed::lemma_sqrt_exists(dx * dx + dy * dy);
    let d = clamp(sqrt_s(dx * dx + dy * dy));
    let d2 = fxmul_s(d, d);
    if d2 > 0 {
        crate::fixed::lemma_tdiv_pos_dividend(d * d, FX_SCALE as int);
        assert(d * d > 0 ==> d != 0) by (nonlinear_arith);
        assert(d > 0);
        crate::fixed::lemma_muldiv_s_comm(a.mass as int, b.mass as int, d2);
        let f = muldiv_s(muldiv_s(a.mass as int, b.mass as int, d2), g_num, g_den);
        crate::fixed::lemma_muldiv_s_neg_right(f, dx, d);
        crate::fixed::lemma_muldiv_s_neg_right(f, dy, d);
    }
}

/// The impulse-based collision response, expressed as the two
/// `previous_position` adjustments that the tick subtracts (first for the
/// first particle, then for the second).  Zero when the centers coincide or
/// the pair is already separating.  The impulse scalar
/// `-(1 + e) * v_n / (1/m1 + 1/m2)` is computed in the equivalent product
/// form `-(1 + e) * v_n * m1 * m2 / (m1 + m2)`, which the fixed-point range
/// can represent.
pub open spec fn collision_s(p1: Particle, p2: Particle, e: int, dt: int) -> (
    (int, int),
    (int, int),
) {
    let nx0 = sat_sub_s(p2.position.x as int, p1.position.x as int);
    let ny0 = sat_sub_s(p2.position.y as int, p1.position.y as int);
    let d = clamp(sqrt_s(nx0 * nx0 + ny0 * ny0));
    if d == 0 {
        ((0int, 0int), (0int, 0int))
    } else {
        let nx = fxdiv_s(nx0, d);
        let ny = fxdiv_s(ny0, d);
        let rvx = sat_sub_s(vel_x_s(p2, dt), vel_x_s(p1, dt));
        let rvy = sat_sub_s(vel_y_s(p2, dt), vel_y_s(p1, dt));
        let van = sat_add_s(fxmul_s(rvx, nx), fxmul_s(rvy, ny));
        if van > 0 {
            ((0int, 0int), (0int, 0int))
        } else {
            let impulse = -muldiv_s(
                muldiv_s(fxmul_s(sat_add_s(FX_SCALE as int, e), van), p1.mass as int,
                    sat_add_s(p1.mass as int, p2.mass as int)),
                p2.mass as int,
                FX_SCALE as int,
            );
            let ix = fxmul_s(impulse, nx);
            let iy = fxmul_s(impulse, ny);
            (
                (fxmul_s(-fxdiv_s(ix, p1.mass as int), dt), fxmul_s(
                    -fxdiv_s(iy, p1.mass as int),
                    dt,
                )),
                (fxmul_s(fxdiv_s(ix, p2.mass as int), dt), fxmul_s(
                    fxdiv_s(iy, p2.mass as int),
                    dt,
                )),
            )
        }
    }
}

/// Impulse resolution for a contacting pair: returns the two
/// `previous_position` adjustments (to be subtracted), first particle's
/// first.
pub fn resolve_collision(p1: &Particle, p2: &Particle, restitution: i128, delta_t: i128) -> (adj: (
    Vec2,
    Vec2,
))
    requires
        p1.wf(),
        p2.wf(),
        in_range(restitution as int),
        restitution >= 0,
        in_range(delta_t as int),
        delta_t > 0,
    ensures
        adj.0.x as int == collision_s(*p1, *p2, restitution as int, delta_t as int).0.0,
        adj.0.y as int == collision_s(*p1, *p2, restitution as int, delta_t as int).0.1,
        adj.1.x as int == collision_s(*p1, *p2, restitution as int, delta_t as int).1.0,
        adj.1.y as int == collision_s(*p1, *p2, restitution as int, delta_t as int).1.1,
        crate::structs::v2_in_range(adj.0),
        crate::structs::v2_in_range(adj.1),
{
    let nx0 = sat_sub(p2.position.x, p1.position.x);
    let ny0 = sat_sub(p2.position.y, p1.position.y);
    let d = crate::fixed::fx_hypot(nx0, ny0);
    if d == 0 {
        (Vec2 { x: 0, y: 0 }, Vec2 { x: 0, y: 0 })
    } else {
        let nx = fx_div(nx0, d);
        let ny = fx_div(ny0, d);
        let v1 = velocity(p1, delta_t);
        let v2 = velocity(p2, delta_t);
        let rvx = sat_sub(v2.x, v1.x);
        let rvy = sat_sub(v2.y, v1.y);
        let van = sat_add(fx_mul(rvx, nx), fx_mul(rvy, ny));
        if van > 0 {
            (Vec2 { x: 0, y: 0 }, Vec2 { x: 0, y: 0 })
        } else {
            let t = fx_mul(sat_add(FX_SCALE, restitution), van);
            let msum = sat_add(p1.mass, p2.mass);
            let t2 = muldiv(t, p1.mass, msum);
            let impulse = -muldiv(t2, p2.mass, FX_SCALE);
            let ix = fx_mul(impulse, nx);
            let iy = fx_mul(impulse, ny);
            let a1 = Vec2 {
                x: fx_mul(-fx_div(ix, p1.mass), delta_t),
                y: fx_mul(-fx_div(iy, p1.mass), delta_t),
            };
            let a2 = Vec2 {
                x: fx_mul(fx_div(ix, p2.mass), delta_t),
                y: fx_mul(fx_div(iy, p2.mass), delta_t),
            };
            (a1, a2)
        }
    }
}

} // verus!
