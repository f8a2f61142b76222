//! The physical laws the kernel obeys, stated and proved once and for all
//! inputs their hypotheses admit.  Newton's third law itself is
//! `crate::interactions::lemma_gravity_newton_third_law`.

use vstd::prelude::*;

use crate::fixed::{
    clamp, fxdiv_s, fxmul_s, in_range, is_sqrt, muldiv_s, sat_add_s, sat_sub_s, sqrt_s, tdiv,
    FX_SCALE,
};
use crate::interactions::{collision_s, gravity_s};
use crate::sim::{
    force_on_s, gravity_contrib_s, overlap_from_s, overlap_pair_s, overlap_pass_s,
    overlap_shifts_s, particles_wf, with_position,
};
use crate::structs::{vel_x_s, vel_y_s, verlet_next_s, Particle};
use crate::util::{contact_s, dist_s};

verus! {

/// No two distinct particles of the sequence interpenetrate: every pair is
/// separated by at least the sum of its radii.
pub open spec fn no_overlaps_s(s: Seq<Particle>) -> bool {
    forall|a: int, b: int|
        0 <= a < b < s.len() ==> dist_s((#[trigger] s[a]).position, (#[trigger] s[b]).position)
            >= sat_add_s(s[a].radius as int, s[b].radius as int)
}

/// A separated pair receives no overlap correction.
proof fn lemma_overlap_pair_noop(s: Seq<Particle>, i: int, j: int)
    requires
        particles_wf(s),
        0 <= i < s.len(),
        0 <= j < s.len(),
        dist_s(s[i].position, s[j].position) >= sat_add_s(s[i].radius as int, s[j].radius as int),
    ensures
        overlap_pair_s(s, i, j) == s,
{
    let sh = overlap_shifts_s(s[i], s[j]);
    assert(sh == ((0int, 0int), (0int, 0int)));
    assert(s[i].wf());
    assert(s[j].wf());
    assert(with_position(
        s[i],
        sat_add_s(s[i].position.x as int, 0),
        sat_add_s(s[i].position.y as int, 0),
    ) == s[i]);
    assert(with_position(
        s[j],
        sat_add_s(s[j].position.x as int, 0),
        sat_add_s(s[j].position.y as int, 0),
    ) == s[j]);
    assert(s.update(i, s[i]).update(j, s[j]) =~= s);
}

/// Folding the overlap pass over a fully separated ensemble changes
/// nothing, from any starting pair on.
proof fn lemma_overlap_from_noop(s: Seq<Particle>, i: int, j: int)
    requires
        particles_wf(s),
        no_overlaps_s(s),
    ensures
        overlap_from_s(s, i, j) == s,
    decreases s.len() - i, s.len() - j,
{
    if i < 0 || j <= i || s.len() > usize::MAX as int {
    } else if i >= s.len() {
    } else if j >= s.len() {
        lemma_overlap_from_noop(s, i + 1, i + 2);
    } else {
        lemma_overlap_pair_noop(s, i, j);
        lemma_overlap_from_noop(s, i, j + 1);
    }
}

/// Overlap resolution is idempotent once no pair overlaps: running the
/// pass over a fully separated ensemble changes nothing at all.
pub proof fn lemma_overlap_resolution_idempotent(s: Seq<Particle>)
    requires
        particles_wf(s),
        no_overlaps_s(s),
    ensures
        overlap_pass_s(s) == s,
{
    lemma_overlap_from_noop(s, 0, 1);
}

/// Round trip of the velocity encoding: a particle built from position
/// `p` and velocity `v` and stepped once with zero force moves by exactly
/// `v * dt` (the hypotheses keep the doubled position and the step inside
/// the representable range, where no saturation fires).
pub proof fn lemma_velocity_round_trip(p: Particle, dt: int)
    requires
        p.wf(),
        dt > 0,
        in_range(dt),
        p.force.x == 0,
        p.force.y == 0,
        in_range(2 * p.position.x),
        in_range(2 * p.position.y),
        in_range(2 * p.position.x - p.previous_position.x),
        in_range(2 * p.position.y - p.previous_position.y),
    ensures
        verlet_next_s(p.position.x as int, p.previous_position.x as int, 0, dt, p.mass as int)
            - p.position.x == p.position.x - p.previous_position.x,
        verlet_next_s(p.position.y as int, p.previous_position.y as int, 0, dt, p.mass as int)
            - p.position.y == p.position.y - p.previous_position.y,
{
    let m = p.mass as int;
    let dt2 = fxmul_s(dt, dt);
    assert(0int * dt2 == 0 * m) by (nonlinear_arith);
    crate::fixed::lemma_muldiv_s_of_product(0, dt2, m, 0);
    assert(muldiv_s(0, dt2, m) == 0);
}

/// With the tick duration equal to one time unit, the velocity encoded at
/// construction is reproduced exactly: `fxmul_s` by `FX_SCALE` and
/// `fxdiv_s` by `FX_SCALE` are both the identity on in-range values.
pub proof fn lemma_unit_dt_velocity_exact(v: int)
    requires
        in_range(v),
    ensures
        fxmul_s(v, FX_SCALE as int) == v,
        fxdiv_s(v, FX_SCALE as int) == v,
{
    crate::fixed::lemma_muldiv_s_cancel(v, FX_SCALE as int);
    assert(v * FX_SCALE == FX_SCALE * v) by (nonlinear_arith);
    crate::fixed::lemma_tdiv_exact(v, FX_SCALE as int);
}

/// Two exactly coincident particles degrade to a no-op everywhere: zero
/// gravity, no overlap correction, and a zero collision impulse.  (The
/// executable pipeline is verified panic-free in any case; this law states
/// that the degenerate geometry also produces well-defined zero effects.)
pub proof fn lemma_coincident_pair_degrades(
    p1: Particle,
    p2: Particle,
    g_num: int,
    g_den: int,
    e: int,
    dt: int,
)
    requires
        p1.position == p2.position,
        g_den > 0,
    ensures
        gravity_s(g_num, g_den, p1, p2) == (0int, 0int),
        overlap_shifts_s(p1, p2) == ((0int, 0int), (0int, 0int)),
        collision_s(p1, p2, e, dt) == ((0int, 0int), (0int, 0int)),
{
    assert(is_sqrt(0, 0)) by (nonlinear_arith);
    crate::fixed::lemma_sqrt_unique(0, 0);
    assert(sat_sub_s(p2.position.x as int, p1.position.x as int) == 0);
    assert(sat_sub_s(p2.position.y as int, p1.position.y as int) == 0);
    assert(dist_s(p1.position, p2.position) == 0);
    assert(fxmul_s(0, 0) == clamp(tdiv(0, FX_SCALE as int)));
    assert(0int * 0 == 0 * FX_SCALE) by (nonlinear_arith);
    crate::fixed::lemma_muldiv_s_of_product(0, 0, FX_SCALE as int, 0);
}

/// In a two-body ensemble the accumulated forces cancel exactly: the net
/// force on the pair is zero, which is why the integrator conserves
/// momentum (no external force).
pub proof fn lemma_two_body_forces_cancel(s: Seq<Particle>, g_num: int, g_den: int)
    requires
        s.len() == 2,
        g_den > 0,
    ensures
        force_on_s(s, 0, g_num, g_den, 2).0 == -force_on_s(s, 1, g_num, g_den, 2).0,
        force_on_s(s, 0, g_num, g_den, 2).1 == -force_on_s(s, 1, g_num, g_den, 2).1,
{
    crate::util::lemma_dist_symmetric(s[0].position, s[1].position);
    assert(contact_s(s[0], s[1]) == contact_s(s[1], s[0]));
    crate::interactions::lemma_gravity_newton_third_law(g_num, g_den, s[0], s[1]);
    let c01 = gravity_contrib_s(g_num, g_den, s[0], s[1]);
    let c10 = gravity_contrib_s(g_num, g_den, s[1], s[0]);
    assert(c01.0 == -c10.0 && c01.1 == -c10.1);
    crate::fixed::lemma_clamp_neg(c10.0);
    crate::fixed::lemma_clamp_neg(c10.1);
    assert(force_on_s(s, 0, g_num, g_den, 0) == (0int, 0int));
    assert(force_on_s(s, 1, g_num, g_den, 0) == (0int, 0int));
    assert(force_on_s(s, 0, g_num, g_den, 1) == (0int, 0int));
    assert(force_on_s(s, 1, g_num, g_den, 1) == (sat_add_s(0, c10.0), sat_add_s(0, c10.1)));
    assert(force_on_s(s, 0, g_num, g_den, 2) == (sat_add_s(0, c01.0), sat_add_s(0, c01.1)));
    assert(force_on_s(s, 1, g_num, g_den, 2) == force_on_s(s, 1, g_num, g_den, 1));
}

/// The two ensembles list the same bodies: equal length, and the identity
/// of every particle (mass, radius, label) unchanged.
pub open spec fn same_roster(s1: Seq<Particle>, s2: Seq<Particle>) -> bool {
    &&& s1.len() == s2.len()
    &&& forall|k: int|
        0 <= k < s1.len() ==> (#[trigger] s1[k]).mass == s2[k].mass && s1[k].radius
            == s2[k].radius && s1[k].name == s2[k].name
}

/// The overlap fold touches positions only.
proof fn lemma_overlap_from_roster(s: Seq<Particle>, i: int, j: int)
    ensures
        same_roster(s, overlap_from_s(s, i, j)),
    decreases s.len() - i, s.len() - j,
{
    if i < 0 || j <= i || s.len() > usize::MAX as int {
    } else if i >= s.len() {
    } else if j >= s.len() {
        lemma_overlap_from_roster(s, i + 1, i + 2);
    } else {
        let s2 = overlap_pair_s(s, i, j);
        assert(same_roster(s, s2));
        lemma_overlap_from_roster(s2, i, j + 1);
    }
}

/// The collision fold touches previous positions only.
proof fn lemma_collision_from_roster(s: Seq<Particle>, i: int, j: int, e: int, dt: int)
    ensures
        same_roster(s, crate::sim::collision_from_s(s, i, j, e, dt)),
    decreases s.len() - i, s.len() - j,
{
    if i < 0 || j <= i || s.len() > usize::MAX as int {
    } else if i >= s.len() {
    } else if j >= s.len() {
        lemma_collision_from_roster(s, i + 1, i + 2, e, dt);
    } else {
        let s2 = crate::sim::collision_pair_s(s, i, j, e, dt);
        assert(same_roster(s, s2));
        lemma_collision_from_roster(s2, i, j + 1, e, dt);
    }
}

/// A tick never creates, destroys, or transmutes a body: the ensemble
/// after `tick_s` has the same length, and every particle keeps its mass,
/// its radius and its label.  Only positions and force accumulators move.
pub proof fn lemma_tick_preserves_roster(
    s: Seq<Particle>,
    g_num: int,
    g_den: int,
    e: int,
    dt: int,
    do_collisions: bool,
)
    ensures
        same_roster(s, crate::sim::tick_s(s, g_num, g_den, e, dt, do_collisions)),
{
    let s1 = if do_collisions {
        overlap_pass_s(s)
    } else {
        s
    };
    if do_collisions {
        lemma_overlap_from_roster(s, 0, 1);
    }
    let s2 = crate::sim::with_forces_s(s1, g_num, g_den);
    assert(same_roster(s1, s2));
    let s3 = if do_collisions {
        crate::sim::collision_pass_s(s2, e, dt)
    } else {
        s2
    };
    if do_collisions {
        lemma_collision_from_roster(s2, 0, 1, e, dt);
    }
    let s4 = crate::sim::integrated_s(s3, dt);
    assert(same_roster(s3, s4));
}

/// Componentwise sum of two force vectors (exact, no saturation).
pub open spec fn add2(a: (int, int), b: (int, int)) -> (int, int) {
    (a.0 + b.0, a.1 + b.1)
}

/// The gravity contribution of `s[j]` to `s[i]` (zero in contact).
pub open spec fn contrib_s(s: Seq<Particle>, g_num: int, g_den: int, i: int, j: int) -> (
    int,
    int,
) {
    gravity_contrib_s(g_num, g_den, s[i], s[j])
}

/// Row sum: the exact (unsaturated) total of the contributions to body
/// `i` from the bodies `j < n`, `j != i`.
pub open spec fn urow_s(s: Seq<Particle>, g_num: int, g_den: int, i: int, n: int) -> (int, int)
    decreases n,
{
    if n <= 0 {
        (0int, 0int)
    } else if n - 1 == i {
        urow_s(s, g_num, g_den, i, n - 1)
    } else {
        add2(urow_s(s, g_num, g_den, i, n - 1), contrib_s(s, g_num, g_den, i, n - 1))
    }
}

/// Column sum: the exact total of the contributions of body `i` to the
/// bodies `j < n`, `j != i`.
pub open spec fn ucol_s(s: Seq<Particle>, g_num: int, g_den: int, i: int, n: int) -> (int, int)
    decreases n,
{
    if n <= 0 {
        (0int, 0int)
    } else if n - 1 == i {
        ucol_s(s, g_num, g_den, i, n - 1)
    } else {
        add2(ucol_s(s, g_num, g_den, i, n - 1), contrib_s(s, g_num, g_den, n - 1, i))
    }
}

/// The exact net force over the bodies `i < k`, each row summed up to
/// `m`.
pub open spec fn utotal_s(s: Seq<Particle>, g_num: int, g_den: int, m: int, k: int) -> (int, int)
    decreases k,
{
    if k <= 0 {
        (0int, 0int)
    } else {
        add2(utotal_s(s, g_num, g_den, m, k - 1), urow_s(s, g_num, g_den, k - 1, m))
    }
}

/// One contribution is the exact negative of its mirror.
proof fn lemma_contrib_antisymmetric(s: Seq<Particle>, g_num: int, g_den: int, i: int, j: int)
    requires
        g_den > 0,
    ensures
        contrib_s(s, g_num, g_den, i, j).0 == -contrib_s(s, g_num, g_den, j, i).0,
        contrib_s(s, g_num, g_den, i, j).1 == -contrib_s(s, g_num, g_den, j, i).1,
{
    crate::util::lemma_dist_symmetric(s[i].position, s[j].position);
    assert(contact_s(s[i], s[j]) == contact_s(s[j], s[i]));
    crate::interactions::lemma_gravity_newton_third_law(g_num, g_den, s[i], s[j]);
}

/// What body `i` receives from the first `n` bodies is the exact negative
/// of what it gives them.
proof fn lemma_row_col_cancel(s: Seq<Particle>, g_num: int, g_den: int, i: int, n: int)
    requires
        g_den > 0,
    ensures
        ucol_s(s, g_num, g_den, i, n).0 == -urow_s(s, g_num, g_den, i, n).0,
        ucol_s(s, g_num, g_den, i, n).1 == -urow_s(s, g_num, g_den, i, n).1,
    decreases n,
{
    if n > 0 {
        lemma_row_col_cancel(s, g_num, g_den, i, n - 1);
        if n - 1 != i {
            lemma_contrib_antisymmetric(s, g_num, g_den, i, n - 1);
        }
    }
}

/// Extending every row of a partial net-force sum by one more body adds
/// exactly that body's column.
proof fn lemma_utotal_extend(s: Seq<Particle>, g_num: int, g_den: int, m: int, k: int)
    requires
        0 <= k <= m,
    ensures
        utotal_s(s, g_num, g_den, m + 1, k) == add2(
            utotal_s(s, g_num, g_den, m, k),
            ucol_s(s, g_num, g_den, m, k),
        ),
    decreases k,
{
    if k > 0 {
        lemma_utotal_extend(s, g_num, g_den, m, k - 1);
        assert(urow_s(s, g_num, g_den, k - 1, m + 1) == add2(
            urow_s(s, g_num, g_den, k - 1, m),
            contrib_s(s, g_num, g_den, k - 1, m),
        ));
    }
}

/// Newton's third law summed over the whole ensemble: the exact net
/// gravitational force over all ordered pairs is zero, for any number of
/// bodies.  This is why a tick exerts no net push on the system: total
/// linear momentum is conserved up to the per-body rounding of the
/// saturating accumulator.
pub proof fn lemma_net_force_zero(s: Seq<Particle>, g_num: int, g_den: int, m: int)
    requires
        g_den > 0,
        0 <= m,
    ensures
        utotal_s(s, g_num, g_den, m, m) == (0int, 0int),
    decreases m,
{
    if m > 0 {
        lemma_net_force_zero(s, g_num, g_den, m - 1);
        lemma_utotal_extend(s, g_num, g_den, m - 1, m - 1);
        lemma_row_col_cancel(s, g_num, g_den, m - 1, m - 1);
        assert(urow_s(s, g_num, g_den, m - 1, m) == urow_s(s, g_num, g_den, m - 1, m - 1));
        assert(utotal_s(s, g_num, g_den, m, m) == add2(
            utotal_s(s, g_num, g_den, m, m - 1),
            urow_s(s, g_num, g_den, m - 1, m),
        ));
    }
}

/// Wherever the saturating accumulation never clamps, the accumulated
/// force of the tick equals the exact row sum.
pub proof fn lemma_force_on_matches_exact(s: Seq<Particle>, g_num: int, g_den: int, i: int, n: int)
    requires
        forall|k: int|
            0 <= k <= n ==> in_range(#[trigger] urow_s(s, g_num, g_den, i, k).0) && in_range(
                urow_s(s, g_num, g_den, i, k).1,
            ),
        0 <= n,
    ensures
        force_on_s(s, i, g_num, g_den, n) == urow_s(s, g_num, g_den, i, n),
    decreases n,
{
    if n > 0 {
        lemma_force_on_matches_exact(s, g_num, g_den, i, n - 1);
    }
}

/// The moderate range within which the momentum-conservation law below
/// keeps every intermediate value away from saturation.
pub open spec fn moderate(x: int) -> bool {
    -0x1000000000000000 <= x <= 0x1000000000000000
}

/// Every stored coordinate of the particle is moderate.
pub open spec fn moderate_particle(p: Particle) -> bool {
    &&& moderate(p.position.x as int)
    &&& moderate(p.position.y as int)
    &&& moderate(p.previous_position.x as int)
    &&& moderate(p.previous_position.y as int)
    &&& p.mass <= 0x1000000000000000
}

/// For a two-body system with no collisions, total linear momentum is
/// conserved exactly by one whole tick.  Hypotheses: the two masses are
/// equal and a whole number of units, the tick lasts one time unit, and
/// positions, velocities and accumulated forces are moderate, so that no
/// saturation fires.  The heart of the proof is that the accumulated
/// forces cancel exactly (no external force) and every remaining rounding
/// error is mass-symmetric.
pub proof fn lemma_two_body_momentum_conserved(
    s: Seq<Particle>,
    g_num: int,
    g_den: int,
    e: int,
    dt: int,
)
    requires
        s.len() == 2,
        particles_wf(s),
        g_den > 0,
        dt == FX_SCALE as int,
        s[0].mass == s[1].mass,
        s[0].mass as int % (FX_SCALE as int) == 0,
        moderate_particle(s[0]),
        moderate_particle(s[1]),
        moderate(force_on_s(s, 0, g_num, g_den, 2).0),
        moderate(force_on_s(s, 0, g_num, g_den, 2).1),
    ensures
        crate::util::linear_momentum_s(
            crate::sim::tick_s(s, g_num, g_den, e, dt, false),
            dt,
        ) == crate::util::linear_momentum_s(s, dt),
{
    let sc = FX_SCALE as int;
    let m = s[0].mass as int;
    let mu = m / sc;
    vstd::arithmetic::div_mod::lemma_fundamental_div_mod(m, sc);
    assert(m == sc * mu);
    assert(1 <= mu <= 0x100000000000) by (nonlinear_arith)
        requires m == sc * mu, 0 < m <= 0x1000000000000000, sc == 1_000_000int;

    let f0 = force_on_s(s, 0, g_num, g_den, 2);
    let f1 = force_on_s(s, 1, g_num, g_den, 2);
    lemma_two_body_forces_cancel(s, g_num, g_den);
    assert(f1.0 == -f0.0 && f1.1 == -f0.1);

    let s2 = crate::sim::with_forces_s(s, g_num, g_den);
    assert(s2.len() == 2);
    assert(s2[0].force.x as int == f0.0 && s2[0].force.y as int == f0.1);
    assert(s2[1].force.x as int == f1.0 && s2[1].force.y as int == f1.1);
    assert(s2[0].position == s[0].position && s2[0].previous_position == s[0].previous_position
        && s2[0].mass == s[0].mass);
    assert(s2[1].position == s[1].position && s2[1].previous_position == s[1].previous_position
        && s2[1].mass == s[1].mass);

    // One time unit squared is one time unit.
    crate::fixed::lemma_muldiv_s_cancel(sc, sc);
    assert(fxmul_s(sc, sc) == sc);

    // The acceleration displacements are exact (no clamping) and opposite.
    let d0x = tdiv(f0.0 * sc, m);
    let d0y = tdiv(f0.1 * sc, m);
    crate::fixed::lemma_tdiv_scale_le(f0.0, sc, m);
    crate::fixed::lemma_tdiv_scale_le(f0.1, sc, m);
    crate::fixed::lemma_tdiv_scale_le(f1.0, sc, m);
    crate::fixed::lemma_tdiv_scale_le(f1.1, sc, m);
    assert(muldiv_s(f0.0, sc, m) == d0x && muldiv_s(f0.1, sc, m) == d0y);
    assert((-f0.0) * sc == -(f0.0 * sc) && (-f0.1) * sc == -(f0.1 * sc)) by (nonlinear_arith);
    crate::fixed::lemma_tdiv_neg(f0.0 * sc, m);
    crate::fixed::lemma_tdiv_neg(f0.1 * sc, m);
    assert(muldiv_s(f1.0, sc, m) == -d0x && muldiv_s(f1.1, sc, m) == -d0y);
    assert(moderate(d0x) && moderate(d0y));

    // The Verlet chains never clamp under the moderate bounds.
    let s3 = crate::sim::tick_s(s, g_num, g_den, e, dt, false);
    assert(s3 == crate::sim::integrated_s(s2, dt));
    assert(s3.len() == 2);
    let p0x = s[0].position.x as int;
    let p0y = s[0].position.y as int;
    let q0x = s[0].previous_position.x as int;
    let q0y = s[0].previous_position.y as int;
    let p1x = s[1].position.x as int;
    let p1y = s[1].position.y as int;
    let q1x = s[1].previous_position.x as int;
    let q1y = s[1].previous_position.y as int;
    assert(s3[0].position.x as int == 2 * p0x - q0x + d0x);
    assert(s3[0].position.y as int == 2 * p0y - q0y + d0y);
    assert(s3[1].position.x as int == 2 * p1x - q1x - d0x);
    assert(s3[1].position.y as int == 2 * p1y - q1y - d0y);
    assert(s3[0].previous_position == s[0].position);
    assert(s3[1].previous_position == s[1].position);
    assert(s3[0].mass == s[0].mass && s3[1].mass == s[1].mass);

    // Velocities before and after, all divisions exact under the unit
    // tick.
    crate::fixed::lemma_muldiv_s_cancel(p0x - q0x, sc);
    crate::fixed::lemma_muldiv_s_cancel(p0y - q0y, sc);
    crate::fixed::lemma_muldiv_s_cancel(p1x - q1x, sc);
    crate::fixed::lemma_muldiv_s_cancel(p1y - q1y, sc);
    assert(vel_x_s(s[0], dt) == p0x - q0x);
    assert(vel_y_s(s[0], dt) == p0y - q0y);
    assert(vel_x_s(s[1], dt) == p1x - q1x);
    assert(vel_y_s(s[1], dt) == p1y - q1y);
    crate::fixed::lemma_muldiv_s_cancel(p0x - q0x + d0x, sc);
    crate::fixed::lemma_muldiv_s_cancel(p0y - q0y + d0y, sc);
    crate::fixed::lemma_muldiv_s_cancel(p1x - q1x - d0x, sc);
    crate::fixed::lemma_muldiv_s_cancel(p1y - q1y - d0y, sc);
    assert(vel_x_s(s3[0], dt) == p0x - q0x + d0x);
    assert(vel_y_s(s3[0], dt) == p0y - q0y + d0y);
    assert(vel_x_s(s3[1], dt) == p1x - q1x - d0x);
    assert(vel_y_s(s3[1], dt) == p1y - q1y - d0y);

    // Whole-unit masses make every momentum term exact: m * v / scale is
    // mu * v, and the per-body rounding cancels in the sum.
    let v0x = p0x - q0x;
    let v0y = p0y - q0y;
    let v1x = p1x - q1x;
    let v1y = p1y - q1y;
    lemma_momentum_term_exact(m, mu, v0x);
    lemma_momentum_term_exact(m, mu, v0y);
    lemma_momentum_term_exact(m, mu, v1x);
    lemma_momentum_term_exact(m, mu, v1y);
    lemma_momentum_term_exact(m, mu, v0x + d0x);
    lemma_momentum_term_exact(m, mu, v0y + d0y);
    lemma_momentum_term_exact(m, mu, v1x - d0x);
    lemma_momentum_term_exact(m, mu, v1y - d0y);

    let before = crate::util::momentum_upto_s(s, dt, 2);
    let after = crate::util::momentum_upto_s(s3, dt, 2);
    assert(crate::util::momentum_upto_s(s, dt, 0) == (0int, 0int));
    assert(crate::util::momentum_upto_s(s3, dt, 0) == (0int, 0int));
    assert(crate::util::momentum_upto_s(s, dt, 1) == (
        sat_add_s(0, mu * v0x),
        sat_add_s(0, mu * v0y),
    ));
    assert(crate::util::momentum_upto_s(s3, dt, 1) == (
        sat_add_s(0, mu * (v0x + d0x)),
        sat_add_s(0, mu * (v0y + d0y)),
    ));
    assert(mu * (v0x + d0x) + mu * (v1x - d0x) == mu * v0x + mu * v1x) by (nonlinear_arith);
    assert(mu * (v0y + d0y) + mu * (v1y - d0y) == mu * v0y + mu * v1y) by (nonlinear_arith);
    assert(-0x2000000000000000 <= v0x <= 0x2000000000000000);
    assert(-0x2000000000000000 <= v0y <= 0x2000000000000000);
    assert(-0x2000000000000000 <= v1x <= 0x2000000000000000);
    assert(-0x2000000000000000 <= v1y <= 0x2000000000000000);
    let big = i128::MAX as int;
    assert(-big <= mu * v0x <= big && -big <= mu * v0y <= big && -big <= mu * v1x <= big
        && -big <= mu * v1y <= big && -big <= mu * (v0x + d0x) <= big && -big <= mu * (v0y
        + d0y) <= big && -big <= mu * (v1x - d0x) <= big && -big <= mu * (v1y - d0y) <= big)
        by (nonlinear_arith)
        requires
            big == i128::MAX as int,
            1 <= mu <= 0x100000000000,
            -0x2000000000000000 <= v0x <= 0x2000000000000000,
            -0x2000000000000000 <= v0y <= 0x2000000000000000,
            -0x2000000000000000 <= v1x <= 0x2000000000000000,
            -0x2000000000000000 <= v1y <= 0x2000000000000000,
            moderate(d0x),
            moderate(d0y);
    assert(after.0 == before.0 && after.1 == before.1);
    assert(crate::util::linear_momentum_s(s3, dt) == after);
    assert(crate::util::linear_momentum_s(s, dt) == before);
}

/// With a whole-unit mass `m == mu * FX_SCALE`, the momentum term
/// `m * v / FX_SCALE` is exactly `mu * v`.
proof fn lemma_momentum_term_exact(m: int, mu: int, v: int)
    requires
        m == FX_SCALE as int * mu,
        1 <= mu <= 0x100000000000,
        -0x4000000000000000 <= v <= 0x4000000000000000,
    ensures
        muldiv_s(m, v, FX_SCALE as int) == mu * v,
{
    assert(m * v == (mu * v) * FX_SCALE as int) by (nonlinear_arith)
        requires m == FX_SCALE as int * mu;
    assert(-(i128::MAX as int) <= mu * v <= i128::MAX as int) by (nonlinear_arith)
        requires
            1 <= mu <= 0x100000000000,
            -0x4000000000000000 <= v <= 0x4000000000000000;
    crate::fixed::lemma_muldiv_s_of_product(m, v, FX_SCALE as int, mu * v);
}

/// A clean head-on elastic collision between equal masses swaps the
/// velocities: the moving body stops and the resting body departs with the
/// incoming velocity, exactly.  Hypotheses pin down the clean case: the
/// pair is aligned on the x axis, the second body is at rest, the first
/// moves toward it with speed `w` per tick, the tick lasts one time unit,
/// restitution is one, and the two equal masses are a whole number of
/// units, with magnitudes small enough that no saturation fires.
pub proof fn lemma_elastic_head_on_swap(p1: Particle, p2: Particle, e: int, dt: int)
    requires
        p1.wf(),
        p2.wf(),
        dt == FX_SCALE as int,
        e == FX_SCALE as int,
        p1.mass == p2.mass,
        p1.mass as int % (FX_SCALE as int) == 0,
        p1.mass <= 0x1000000000000000,
        p1.position.y == p2.position.y,
        p2.previous_position == p2.position,
        p1.previous_position.y == p1.position.y,
        0 < p2.position.x - p1.position.x <= i128::MAX as int,
        0 < p1.position.x - p1.previous_position.x <= 0x1000000000000000,
    ensures
        collision_s(p1, p2, e, dt) == (
            (-(p1.position.x - p1.previous_position.x), 0int),
            ((p1.position.x - p1.previous_position.x), 0int),
        ),
{
    let s = FX_SCALE as int;
    let m = p1.mass as int;
    let mu = m / s;
    let dx = p2.position.x - p1.position.x;
    let w = p1.position.x - p1.previous_position.x;
    vstd::arithmetic::div_mod::lemma_fundamental_div_mod(m, s);
    assert(m == s * mu);
    assert(mu >= 1) by (nonlinear_arith)
        requires m == s * mu, m > 0, s == 1_000_000int;
    assert(mu <= 0x100000000000) by (nonlinear_arith)
        requires m == s * mu, m <= 0x1000000000000000, s == 1_000_000int;

    // The separation is purely horizontal, so the distance is dx itself
    // and the unit normal is exactly (1, 0) in fixed point.
    assert(sat_sub_s(p2.position.x as int, p1.position.x as int) == dx);
    assert(sat_sub_s(p2.position.y as int, p1.position.y as int) == 0);
    assert(is_sqrt(dx * dx + 0 * 0, dx)) by (nonlinear_arith)
        requires dx > 0;
    crate::fixed::lemma_sqrt_unique(dx * dx + 0 * 0, dx);
    let d = clamp(sqrt_s(dx * dx + 0 * 0));
    assert(d == dx);
    assert(dx * s == s * dx) by (nonlinear_arith);
    crate::fixed::lemma_muldiv_s_of_product(dx, s, dx, s);
    assert(fxdiv_s(dx, d) == s);
    assert(0int * s == 0 * dx) by (nonlinear_arith);
    crate::fixed::lemma_muldiv_s_of_product(0, s, dx, 0);
    assert(fxdiv_s(0, d) == 0);

    // Velocities under the unit tick: the first body moves by w, the
    // second is at rest.
    crate::fixed::lemma_muldiv_s_cancel(w, s);
    assert(vel_x_s(p1, dt) == w);
    assert(sat_sub_s(p1.position.y as int, p1.previous_position.y as int) == 0);
    assert(0int * s == 0 * s) by (nonlinear_arith);
    crate::fixed::lemma_muldiv_s_of_product(0, s, s, 0);
    assert(vel_y_s(p1, dt) == 0);
    assert(vel_x_s(p2, dt) == 0);
    assert(vel_y_s(p2, dt) == 0);

    // Relative velocity along the normal is -w: the pair is approaching.
    crate::fixed::lemma_muldiv_s_cancel(-w, s);
    assert(fxmul_s(-w, s) == -w);
    crate::fixed::lemma_muldiv_s_cancel(0, s);
    let van = sat_add_s(fxmul_s(sat_sub_s(0, w), s), fxmul_s(sat_sub_s(0, 0), s));
    assert(van == -w);

    // The impulse scalar comes out as exactly m * w (in fixed point,
    // w * mu raw): -(1 + 1) * (-w) * m * m / (2 m) / scale.
    let ope = sat_add_s(s, e);
    assert(ope == 2 * s);
    assert((2 * s) * (-w) == (-(2 * w)) * s) by (nonlinear_arith);
    crate::fixed::lemma_muldiv_s_of_product(2 * s, -w, s, -(2 * w));
    let t = fxmul_s(ope, van);
    assert(t == -(2 * w));
    let msum = sat_add_s(m, m);
    assert(msum == 2 * m);
    assert((-(2 * w)) * m == (-w) * (2 * m)) by (nonlinear_arith);
    crate::fixed::lemma_muldiv_s_of_product(-(2 * w), m, 2 * m, -w);
    let t2 = muldiv_s(t, m, msum);
    assert(t2 == -w);
    assert((-w) * m == (-(w * mu)) * s) by (nonlinear_arith)
        requires m == s * mu;
    assert(-(i128::MAX as int) <= -(w * mu) <= i128::MAX as int) by (nonlinear_arith)
        requires
            0 < w <= 0x1000000000000000,
            1 <= mu <= 0x100000000000;
    crate::fixed::lemma_muldiv_s_of_product(-w, m, s, -(w * mu));
    let impulse = -muldiv_s(t2, m, s);
    assert(impulse == w * mu);

    // The impulse vector is horizontal, and dividing by either (equal)
    // mass returns exactly w.
    crate::fixed::lemma_muldiv_s_cancel(w * mu, s);
    let ix = fxmul_s(impulse, s);
    assert(ix == w * mu);
    assert((w * mu) * 0 == 0 * s) by (nonlinear_arith);
    crate::fixed::lemma_muldiv_s_of_product(w * mu, 0, s, 0);
    let iy = fxmul_s(impulse, 0);
    assert(iy == 0);
    assert((w * mu) * s == w * m) by (nonlinear_arith)
        requires m == s * mu;
    crate::fixed::lemma_muldiv_s_of_product(w * mu, s, m, w);
    assert(fxdiv_s(ix, m) == w);
    assert(0int * s == 0 * m) by (nonlinear_arith);
    crate::fixed::lemma_muldiv_s_of_product(0, s, m, 0);
    assert(fxdiv_s(iy, m) == 0);
    crate::fixed::lemma_muldiv_s_cancel(-w, s);
    assert(fxmul_s(-w, s) == -w);
    crate::fixed::lemma_muldiv_s_cancel(w, s);
    assert(fxmul_s(w, s) == w);
    assert(-0int == 0);
    assert(fxmul_s(0, s) == 0);
}

/// For any restitution between zero and one, a head-on collision between
/// equal whole-unit masses never increases kinetic energy: both bodies
/// receive equal and opposite velocity corrections of magnitude `a` with
/// `0 <= a <= w`, so the squared speeds afterward sum to no more than
/// before: `(w - a)^2 + a^2 <= w^2`.  (Restitution one gives `a == w`,
/// the exact swap of `lemma_elastic_head_on_swap`; restitution zero gives
/// `a == w / 2`, the perfectly inelastic merge.)
pub proof fn lemma_head_on_collision_never_gains_energy(
    p1: Particle,
    p2: Particle,
    e: int,
    dt: int,
)
    requires
        p1.wf(),
        p2.wf(),
        dt == FX_SCALE as int,
        0 <= e <= FX_SCALE as int,
        p1.mass == p2.mass,
        p1.mass as int % (FX_SCALE as int) == 0,
        p1.mass <= 0x1000000000000000,
        p1.position.y == p2.position.y,
        p2.previous_position == p2.position,
        p1.previous_position.y == p1.position.y,
        0 < p2.position.x - p1.position.x <= i128::MAX as int,
        0 < p1.position.x - p1.previous_position.x <= 0x1000000000000000,
    ensures
        ({
            let w = p1.position.x - p1.previous_position.x;
            let a = collision_s(p1, p2, e, dt).1.0;
            &&& collision_s(p1, p2, e, dt).0.0 == -a
            &&& collision_s(p1, p2, e, dt).0.1 == 0
            &&& collision_s(p1, p2, e, dt).1.1 == 0
            &&& 0 <= a <= w
            &&& (w - a) * (w - a) + a * a <= w * w
        }),
{
    let s = FX_SCALE as int;
    let m = p1.mass as int;
    let mu = m / s;
    let dx = p2.position.x - p1.position.x;
    let w = p1.position.x - p1.previous_position.x;
    vstd::arithmetic::div_mod::lemma_fundamental_div_mod(m, s);
    assert(m == s * mu);
    assert(1 <= mu <= 0x100000000000) by (nonlinear_arith)
        requires m == s * mu, 0 < m <= 0x1000000000000000, s == 1_000_000int;

    // Geometry: purely horizontal separation, unit normal (1, 0).
    assert(sat_sub_s(p2.position.x as int, p1.position.x as int) == dx);
    assert(sat_sub_s(p2.position.y as int, p1.position.y as int) == 0);
    assert(is_sqrt(dx * dx + 0 * 0, dx)) by (nonlinear_arith)
        requires dx > 0;
    crate::fixed::lemma_sqrt_unique(dx * dx + 0 * 0, dx);
    assert(clamp(sqrt_s(dx * dx + 0 * 0)) == dx);
    assert(dx * s == s * dx) by (nonlinear_arith);
    crate::fixed::lemma_muldiv_s_of_product(dx, s, dx, s);
    assert(0int * s == 0 * dx) by (nonlinear_arith);
    crate::fixed::lemma_muldiv_s_of_product(0, s, dx, 0);

    // Approach speed w along the normal.
    crate::fixed::lemma_muldiv_s_cancel(w, s);
    crate::fixed::lemma_muldiv_s_cancel(-w, s);
    crate::fixed::lemma_muldiv_s_cancel(0, s);
    assert(0int * s == 0 * s) by (nonlinear_arith);
    crate::fixed::lemma_muldiv_s_of_product(0, s, s, 0);
    assert(vel_x_s(p1, dt) == w && vel_y_s(p1, dt) == 0);
    assert(vel_x_s(p2, dt) == 0 && vel_y_s(p2, dt) == 0);
    let van = sat_add_s(fxmul_s(sat_sub_s(0, w), s), fxmul_s(sat_sub_s(0, 0), s));
    assert(van == -w);

    // The magnitude chain: q1 in [w, 2w], q2 in [0, w], and the final
    // per-body correction is exactly q2.
    let ope = sat_add_s(s, e);
    assert(ope == s + e);
    let q1 = tdiv(ope * w, s);
    assert((s + e) * (-w) == -(ope * w)) by (nonlinear_arith)
        requires ope == s + e;
    crate::fixed::lemma_tdiv_neg(ope * w, s);
    assert(0 <= ope * w <= (2 * s) * w) by (nonlinear_arith)
        requires s <= ope <= 2 * s, w > 0;
    crate::fixed::lemma_tdiv_monotone(ope * w, (2 * s) * w, s);
    assert((2 * s) * w == (2 * w) * s) by (nonlinear_arith);
    crate::fixed::lemma_tdiv_exact(2 * w, s);
    assert(q1 <= 2 * w);
    assert(s * w <= ope * w) by (nonlinear_arith)
        requires s <= ope, w > 0;
    crate::fixed::lemma_tdiv_monotone(s * w, ope * w, s);
    assert(s * w == w * s) by (nonlinear_arith);
    crate::fixed::lemma_tdiv_exact(w, s);
    assert(w <= q1);
    let t = fxmul_s(ope, van);
    assert(t == -q1);

    let q2 = tdiv(q1 * m, 2 * m);
    assert((-q1) * m == -(q1 * m)) by (nonlinear_arith);
    crate::fixed::lemma_tdiv_neg(q1 * m, 2 * m);
    assert(0 <= q1 * m <= (2 * w) * m) by (nonlinear_arith)
        requires 0 <= q1 <= 2 * w, m > 0;
    crate::fixed::lemma_tdiv_monotone(q1 * m, (2 * w) * m, 2 * m);
    assert((2 * w) * m == w * (2 * m)) by (nonlinear_arith);
    crate::fixed::lemma_tdiv_exact(w, 2 * m);
    assert(0 <= q2 <= w);
    let msum = sat_add_s(m, m);
    assert(msum == 2 * m);
    let t2 = muldiv_s(t, m, msum);
    assert(t2 == -q2);

    assert((-q2) * m == (-(q2 * mu)) * s) by (nonlinear_arith)
        requires m == s * mu;
    assert(-(i128::MAX as int) <= q2 * mu <= i128::MAX as int) by (nonlinear_arith)
        requires 0 <= q2, q2 <= 0x1000000000000000, 1 <= mu <= 0x100000000000;
    crate::fixed::lemma_muldiv_s_of_product(-q2, m, s, -(q2 * mu));
    let impulse = -muldiv_s(t2, m, s);
    assert(impulse == q2 * mu);

    crate::fixed::lemma_muldiv_s_cancel(q2 * mu, s);
    let ix = fxmul_s(impulse, s);
    assert(ix == q2 * mu);
    assert((q2 * mu) * 0 == 0 * s) by (nonlinear_arith);
    crate::fixed::lemma_muldiv_s_of_product(q2 * mu, 0, s, 0);
    let iy = fxmul_s(impulse, 0);
    assert(iy == 0);
    assert((q2 * mu) * s == q2 * m) by (nonlinear_arith)
        requires m == s * mu;
    crate::fixed::lemma_muldiv_s_of_product(q2 * mu, s, m, q2);
    assert(fxdiv_s(ix, m) == q2);
    assert(0int * s == 0 * m) by (nonlinear_arith);
    crate::fixed::lemma_muldiv_s_of_product(0, s, m, 0);
    assert(fxdiv_s(iy, m) == 0);
    crate::fixed::lemma_muldiv_s_cancel(-q2, s);
    crate::fixed::lemma_muldiv_s_cancel(q2, s);

    assert(collision_s(p1, p2, e, dt).1.0 == q2);
    assert(collision_s(p1, p2, e, dt).0.0 == -q2);
    assert((w - q2) * (w - q2) + q2 * q2 <= w * w) by (nonlinear_arith)
        requires 0 <= q2 <= w;
}

} // verus!
