//! The per-tick pipeline over the whole ensemble, and the simulation model.
//!
//! One tick runs, in order: overlap separation over unordered pairs,
//! force accumulation over ordered pairs (gravity zeroed for pairs in
//! contact), impulse resolution over unordered pairs, and the Verlet
//! position update, then the elapsed-time counter advances.
//!
//! Pair passes visit each unordered pair exactly once, in index order, and
//! apply a pair's correction before the next pair is examined; both choices
//! are deliberate policies (the impulse is applied once per physical
//! contact, never double-counted, and the visit order is fixed and
//! documented by the spec functions below).

use vstd::prelude::*;

use crate::fixed::{
    fx_mul, fxdiv_s, fxmul_s, in_range, muldiv, muldiv_s, sat_add, sat_add_s, sat_sub, sat_sub_s,
};
use crate::structs::{v2_in_range, Particle, Vec2};
use crate::util::{contact_s, dist_s, distance};

verus! {

/// Every particle of the sequence is well-formed.
pub open spec fn particles_wf(s: Seq<Particle>) -> bool {
    forall|k: int| 0 <= k < s.len() ==> (#[trigger] s[k]).wf()
}

/// A particle moved to a new position, everything else unchanged.
pub open spec fn with_position(p: Particle, x: int, y: int) -> Particle {
    Particle { position: Vec2 { x: x as i128, y: y as i128 }, ..p }
}

/// A particle with a new previous position, everything else unchanged.
pub open spec fn with_previous(p: Particle, x: int, y: int) -> Particle {
    Particle { previous_position: Vec2 { x: x as i128, y: y as i128 }, ..p }
}

/// The position corrections that separate an interpenetrating pair: each
/// body moves along the line of centers, away from the other, by the
/// overlap split in inverse proportion to mass (the heavier body moves
/// less).  No movement when the pair does not overlap, and none when the
/// centers coincide (no direction to separate along).
pub open spec fn overlap_shifts_s(pi: Particle, pj: Particle) -> ((int, int), (int, int)) {
    let d = dist_s(pi.position, pj.position);
    let rsum = sat_add_s(pi.radius as int, pj.radius as int);
    if d < rsum && d > 0 {
        let ux = fxdiv_s(sat_sub_s(pj.position.x as int, pi.position.x as int), d);
        let uy = fxdiv_s(sat_sub_s(pj.position.y as int, pi.position.y as int), d);
        let overlap = sat_sub_s(rsum, d);
        let msum = sat_add_s(pi.mass as int, pj.mass as int);
        let ti = muldiv_s(overlap, pj.mass as int, msum);
        let tj = muldiv_s(overlap, pi.mass as int, msum);
        ((-fxmul_s(ux, ti), -fxmul_s(uy, ti)), (fxmul_s(ux, tj), fxmul_s(uy, tj)))
    } else {
        ((0int, 0int), (0int, 0int))
    }
}

/// Apply the overlap correction of the pair `(i, j)` to the sequence.
pub open spec fn overlap_pair_s(s: Seq<Particle>, i: int, j: int) -> Seq<Particle> {
    let sh = overlap_shifts_s(s[i], s[j]);
    let pi2 = with_position(
        s[i],
        sat_add_s(s[i].position.x as int, sh.0.0),
        sat_add_s(s[i].position.y as int, sh.0.1),
    );
    let pj2 = with_position(
        s[j],
        sat_add_s(s[j].position.x as int, sh.1.0),
        sat_add_s(s[j].position.y as int, sh.1.1),
    );
    s.update(i, pi2).update(j, pj2)
}

/// Fold the overlap corrections over the unordered pairs from `(i, j)` on,
/// in index order, each pair seeing the corrections applied before it.
pub open spec fn overlap_from_s(s: Seq<Particle>, i: int, j: int) -> Seq<Particle>
    decreases s.len() - i, s.len() - j,
{
    if i < 0 || j <= i || s.len() > usize::MAX as int {
        s
    } else if i >= s.len() {
        s
    } else if j >= s.len() {
        overlap_from_s(s, i + 1, i + 2)
    } else {
        overlap_from_s(overlap_pair_s(s, i, j), i, j + 1)
    }
}

/// One whole overlap-separation pass.
pub open spec fn overlap_pass_s(s: Seq<Particle>) -> Seq<Particle> {
    overlap_from_s(s, 0, 1)
}

/// The overlap corrections of the pair `(pi, pj)`, first particle's first.
fn overlap_shifts(pi: &Particle, pj: &Particle) -> (sh: (Vec2, Vec2))
    requires
        pi.wf(),
        pj.wf(),
    ensures
        sh.0.x as int == overlap_shifts_s(*pi, *pj).0.0,
        sh.0.y as int == overlap_shifts_s(*pi, *pj).0.1,
        sh.1.x as int == overlap_shifts_s(*pi, *pj).1.0,
        sh.1.y as int == overlap_shifts_s(*pi, *pj).1.1,
        v2_in_range(sh.0),
        v2_in_range(sh.1),
{
    let d = distance(pi.position, pj.position);
    let rsum = sat_add(pi.radius, pj.radius);
    if d < rsum && d > 0 {
        let ux = crate::fixed::fx_div(sat_sub(pj.position.x, pi.position.x), d);
        let uy = crate::fixed::fx_div(sat_sub(pj.position.y, pi.position.y), d);
        let overlap = sat_sub(rsum, d);
        let msum = sat_add(pi.mass, pj.mass);
        let ti = muldiv(overlap, pj.mass, msum);
        let tj = muldiv(overlap, pi.mass, msum);
        (
            Vec2 { x: -fx_mul(ux, ti), y: -fx_mul(uy, ti) },
            Vec2 { x: fx_mul(ux, tj), y: fx_mul(uy, tj) },
        )
    } else {
        (Vec2 { x: 0, y: 0 }, Vec2 { x: 0, y: 0 })
    }
}

/// Separate every interpenetrating pair, in index order.
pub fn resolve_overlaps(particles: &mut Vec<Particle>)
    requires
        particles_wf(old(particles)@),
    ensures
        final(particles)@ == overlap_pass_s(old(particles)@),
        particles_wf(final(particles)@),
        final(particles)@.len() == old(particles)@.len(),
{
    let n = particles.len();
    let mut i: usize = 0;
    while i < n
        invariant
            particles_wf(particles@),
            particles@.len() == n,
            i <= n,
            overlap_pass_s(old(particles)@) == overlap_from_s(particles@, i as int, i as int + 1),
        decreases n - i,
    {
        let mut j: usize = i + 1;
        while j < n
            invariant
                particles_wf(particles@),
                particles@.len() == n,
                i < n,
                i < j,
                overlap_pass_s(old(particles)@) == overlap_from_s(
                    particles@,
                    i as int,
                    j as int,
                ),
            decreases n - j,
        {
            let ghost pre = particles@;
            let sh = overlap_shifts(&particles[i], &particles[j]);
            let new_pi = Vec2 {
                x: sat_add(particles[i].position.x, sh.0.x),
                y: sat_add(particles[i].position.y, sh.0.y),
            };
            let new_pj = Vec2 {
                x: sat_add(particles[j].position.x, sh.1.x),
                y: sat_add(particles[j].position.y, sh.1.y),
            };
            particles[i].position = new_pi;
            particles[j].position = new_pj;
            proof {
                assert(particles@ =~= overlap_pair_s(pre, i as int, j as int));
            }
            j = j + 1;
        }
        i = i + 1;
    }
}

/// The gravity contribution of `pj` to `pi`: zero for a pair currently in
/// contact (overlapping bodies exert no gravity on each other), the full
/// pairwise force otherwise.
pub open spec fn gravity_contrib_s(g_num: int, g_den: int, pi: Particle, pj: Particle) -> (
    int,
    int,
) {
    if contact_s(pi, pj) {
        (0int, 0int)
    } else {
        crate::interactions::gravity_s(g_num, g_den, pi, pj)
    }
}

/// The force accumulated on particle `i` from the particles `j < n`,
/// `j != i`, summed with saturating addition in index order.
pub open spec fn force_on_s(s: Seq<Particle>, i: int, g_num: int, g_den: int, n: int) -> (
    int,
    int,
)
    decreases n,
{
    if n <= 0 {
        (0int, 0int)
    } else {
        let prev = force_on_s(s, i, g_num, g_den, n - 1);
        if n - 1 == i {
            prev
        } else {
            let c = gravity_contrib_s(g_num, g_den, s[i], s[n - 1]);
            (sat_add_s(prev.0, c.0), sat_add_s(prev.1, c.1))
        }
    }
}

/// Two sequences agree on everything gravity and contact read: position,
/// mass and radius of every particle.
pub open spec fn same_bodies(s1: Seq<Particle>, s2: Seq<Particle>) -> bool {
    &&& s1.len() == s2.len()
    &&& forall|k: int|
        0 <= k < s1.len() ==> (#[trigger] s1[k]).position == s2[k].position
            && s1[k].mass == s2[k].mass && s1[k].radius == s2[k].radius
}

/// Accumulated force reads only positions, masses and radii.
pub proof fn lemma_force_on_same_bodies(
    s1: Seq<Particle>,
    s2: Seq<Particle>,
    i: int,
    g_num: int,
    g_den: int,
    n: int,
)
    requires
        same_bodies(s1, s2),
        0 <= i < s1.len(),
        n <= s1.len(),
    ensures
        force_on_s(s1, i, g_num, g_den, n) == force_on_s(s2, i, g_num, g_den, n),
    decreases n,
{
    if n > 0 {
        lemma_force_on_same_bodies(s1, s2, i, g_num, g_den, n - 1);
    }
}

/// The total force on particle `i` from every other particle.
fn compute_force(particles: &Vec<Particle>, i: usize, g_num: i128, g_den: i128) -> (f: Vec2)
    requires
        particles_wf(particles@),
        i < particles@.len(),
        in_range(g_num as int),
        g_den > 0,
    ensures
        f.x as int == force_on_s(
            particles@,
            i as int,
            g_num as int,
            g_den as int,
            particles@.len() as int,
        ).0,
        f.y as int == force_on_s(
            particles@,
            i as int,
            g_num as int,
            g_den as int,
            particles@.len() as int,
        ).1,
        v2_in_range(f),
{
    let n = particles.len();
    let mut f = Vec2 { x: 0, y: 0 };
    let mut j: usize = 0;
    while j < n
        invariant
            particles_wf(particles@),
            particles@.len() == n,
            i < n,
            in_range(g_num as int),
            g_den > 0,
            j <= n,
            f.x as int == force_on_s(particles@, i as int, g_num as int, g_den as int, j as int).0,
            f.y as int == force_on_s(particles@, i as int, g_num as int, g_den as int, j as int).1,
            v2_in_range(f),
        decreases n - j,
    {
        if j != i {
            let g = crate::interactions::resolve_gravitation_force(
                g_num,
                g_den,
                &particles[i],
                &particles[j],
            );
            let overlapping = crate::util::check_collision(&particles[i], &particles[j]);
            if !overlapping {
                f = Vec2 { x: sat_add(f.x, g.x), y: sat_add(f.y, g.y) };
            }
        }
        j = j + 1;
    }
    f
}

/// The ensemble after a force-accumulation pass: every particle carries the
/// total gravity it feels, computed from the pass-start positions.
pub open spec fn with_forces_s(s: Seq<Particle>, g_num: int, g_den: int) -> Seq<Particle> {
    Seq::new(
        s.len(),
        |i: int|
            Particle {
                force: Vec2 {
                    x: force_on_s(s, i, g_num, g_den, s.len() as int).0 as i128,
                    y: force_on_s(s, i, g_num, g_den, s.len() as int).1 as i128,
                },
                ..s[i]
            },
    )
}

/// Zero every force accumulator, then accumulate gravity over all ordered
/// pairs.  Positions never change during this pass, so the result does not
/// depend on the visit order.
pub fn accumulate_forces(particles: &mut Vec<Particle>, g_num: i128, g_den: i128)
    requires
        particles_wf(old(particles)@),
        in_range(g_num as int),
        g_den > 0,
    ensures
        final(particles)@ == with_forces_s(old(particles)@, g_num as int, g_den as int),
        particles_wf(final(particles)@),
        final(particles)@.len() == old(particles)@.len(),
{
    let n = particles.len();
    let mut i: usize = 0;
    while i < n
        invariant
            particles_wf(particles@),
            particles@.len() == n,
            in_range(g_num as int),
            g_den > 0,
            i <= n,
            same_bodies(particles@, old(particles)@),
            forall|k: int|
                0 <= k < i ==> #[trigger] particles@[k] == with_forces_s(
                    old(particles)@,
                    g_num as int,
                    g_den as int,
                )[k],
            forall|k: int| i <= k < n ==> #[trigger] particles@[k] == old(particles)@[k],
        decreases n - i,
    {
        let f = compute_force(particles, i, g_num, g_den);
        proof {
            lemma_force_on_same_bodies(
                particles@,
                old(particles)@,
                i as int,
                g_num as int,
                g_den as int,
                n as int,
            );
        }
        particles[i].force = f;
        i = i + 1;
    }
    proof {
        assert(particles@ =~= with_forces_s(old(particles)@, g_num as int, g_den as int));
    }
}

/// Apply the impulse of the pair `(i, j)`, if it is in contact: both
/// `previous_position`s take their adjustment (an instantaneous velocity
/// change encoded into the Verlet history).
pub open spec fn collision_pair_s(s: Seq<Particle>, i: int, j: int, e: int, dt: int) -> Seq<
    Particle,
> {
    if contact_s(s[i], s[j]) {
        let adj = crate::interactions::collision_s(s[i], s[j], e, dt);
        let pi2 = with_previous(
            s[i],
            sat_sub_s(s[i].previous_position.x as int, adj.0.0),
            sat_sub_s(s[i].previous_position.y as int, adj.0.1),
        );
        let pj2 = with_previous(
            s[j],
            sat_sub_s(s[j].previous_position.x as int, adj.1.0),
            sat_sub_s(s[j].previous_position.y as int, adj.1.1),
        );
        s.update(i, pi2).update(j, pj2)
    } else {
        s
    }
}

/// Fold the impulse resolution over the unordered pairs from `(i, j)` on,
/// in index order; each physical contact receives its impulse exactly once.
pub open spec fn collision_from_s(s: Seq<Particle>, i: int, j: int, e: int, dt: int) -> Seq<
    Particle,
>
    decreases s.len() - i, s.len() - j,
{
    if i < 0 || j <= i || s.len() > usize::MAX as int {
        s
    } else if i >= s.len() {
        s
    } else if j >= s.len() {
        collision_from_s(s, i + 1, i + 2, e, dt)
    } else {
        collision_from_s(collision_pair_s(s, i, j, e, dt), i, j + 1, e, dt)
    }
}

/// One whole impulse-resolution pass.
pub open spec fn collision_pass_s(s: Seq<Particle>, e: int, dt: int) -> Seq<Particle> {
    collision_from_s(s, 0, 1, e, dt)
}

/// Detect and resolve every contacting pair, in index order.
pub fn resolve_collisions(particles: &mut Vec<Particle>, restitution: i128, delta_t: i128)
    requires
        particles_wf(old(particles)@),
        in_range(restitution as int),
        restitution >= 0,
        in_range(delta_t as int),
        delta_t > 0,
    ensures
        final(particles)@ == collision_pass_s(
            old(particles)@,
            restitution as int,
            delta_t as int,
        ),
        particles_wf(final(particles)@),
        final(particles)@.len() == old(particles)@.len(),
{
    let n = particles.len();
    let mut i: usize = 0;
    while i < n
        invariant
            particles_wf(particles@),
            particles@.len() == n,
            in_range(restitution as int),
            restitution >= 0,
            in_range(delta_t as int),
            delta_t > 0,
            i <= n,
            collision_pass_s(old(particles)@, restitution as int, delta_t as int)
                == collision_from_s(
                particles@,
                i as int,
                i as int + 1,
                restitution as int,
                delta_t as int,
            ),
        decreases n - i,
    {
        let mut j: usize = i + 1;
        while j < n
            invariant
                particles_wf(particles@),
                particles@.len() == n,
                in_range(restitution as int),
                restitution >= 0,
                in_range(delta_t as int),
                delta_t > 0,
                i < n,
                i < j,
                collision_pass_s(old(particles)@, restitution as int, delta_t as int)
                    == collision_from_s(
                    particles@,
                    i as int,
                    j as int,
                    restitution as int,
                    delta_t as int,
                ),
            decreases n - j,
        {
            let ghost pre = particles@;
            if crate::util::check_collision(&particles[i], &particles[j]) {
                let adj = crate::interactions::resolve_collision(
                    &particles[i],
                    &particles[j],
                    restitution,
                    delta_t,
                );
                let new_pi = Vec2 {
                    x: sat_sub(particles[i].previous_position.x, adj.0.x),
                    y: sat_sub(particles[i].previous_position.y, adj.0.y),
                };
                let new_pj = Vec2 {
                    x: sat_sub(particles[j].previous_position.x, adj.1.x),
                    y: sat_sub(particles[j].previous_position.y, adj.1.y),
                };
                particles[i].previous_position = new_pi;
                particles[j].previous_position = new_pj;
            }
            proof {
                assert(particles@ =~= collision_pair_s(
                    pre,
                    i as int,
                    j as int,
                    restitution as int,
                    delta_t as int,
                ));
            }
            j = j + 1;
        }
        i = i + 1;
    }
}

/// The ensemble after the Verlet update: every particle steps once.
pub open spec fn integrated_s(s: Seq<Particle>, dt: int) -> Seq<Particle> {
    Seq::new(
        s.len(),
        |i: int|
            Particle {
                position: Vec2 {
                    x: crate::structs::verlet_next_s(
                        s[i].position.x as int,
                        s[i].previous_position.x as int,
                        s[i].force.x as int,
                        dt,
                        s[i].mass as int,
                    ) as i128,
                    y: crate::structs::verlet_next_s(
                        s[i].position.y as int,
                        s[i].previous_position.y as int,
                        s[i].force.y as int,
                        dt,
                        s[i].mass as int,
                    ) as i128,
                },
                previous_position: s[i].position,
                ..s[i]
            },
    )
}

/// Advance every particle by one Verlet step.
pub fn integrate(particles: &mut Vec<Particle>, delta_t: i128)
    requires
        particles_wf(old(particles)@),
        in_range(delta_t as int),
        delta_t > 0,
    ensures
        final(particles)@ == integrated_s(old(particles)@, delta_t as int),
        particles_wf(final(particles)@),
        final(particles)@.len() == old(particles)@.len(),
{
    let n = particles.len();
    let mut i: usize = 0;
    while i < n
        invariant
            particles_wf(particles@),
            particles@.len() == n,
            old(particles)@.len() == n,
            in_range(delta_t as int),
            delta_t > 0,
            i <= n,
            forall|k: int|
                0 <= k < i ==> #[trigger] particles@[k] == integrated_s(
                    old(particles)@,
                    delta_t as int,
                )[k],
            forall|k: int| i <= k < n ==> #[trigger] particles@[k] == old(particles)@[k],
        decreases n - i,
    {
        particles[i].update(delta_t);
        i = i + 1;
    }
    proof {
        assert(particles@ =~= integrated_s(old(particles)@, delta_t as int));
    }
}

/// One whole tick over the ensemble: overlap separation (when collisions
/// are enabled), force accumulation, impulse resolution (when enabled),
/// then integration.
pub open spec fn tick_s(
    s: Seq<Particle>,
    g_num: int,
    g_den: int,
    e: int,
    dt: int,
    do_collisions: bool,
) -> Seq<Particle> {
    let s1 = if do_collisions { overlap_pass_s(s) } else { s };
    let s2 = with_forces_s(s1, g_num, g_den);
    let s3 = if do_collisions { collision_pass_s(s2, e, dt) } else { s2 };
    integrated_s(s3, dt)
}

/// A verified element-wise copy of a particle vector.
pub fn duplicate_particles(v: &Vec<Particle>) -> (r: Vec<Particle>)
    ensures
        r@ == v@,
{
    let mut r: Vec<Particle> = Vec::new();
    let mut i: usize = 0;
    while i < v.len()
        invariant
            i <= v@.len(),
            r@.len() == i,
            forall|k: int| 0 <= k < i ==> #[trigger] r@[k] == v@[k],
        decreases v@.len() - i,
    {
        r.push(v[i].duplicate());
        i = i + 1;
    }
    proof {
        assert(r@ =~= v@);
    }
    r
}

/// The ensemble rebuilt for a new tick duration: every particle keeps its
/// current position and its current velocity (as measured with the old
/// `delta_t`), and its previous position is re-derived against the new
/// `delta_t`, so that changing the tick duration does not change apparent
/// velocity.  Force accumulators are cleared, as construction clears them.
pub open spec fn respeed_s(s: Seq<Particle>, old_dt: int, new_dt: int) -> Seq<Particle> {
    Seq::new(
        s.len(),
        |k: int|
            Particle {
                previous_position: Vec2 {
                    x: sat_sub_s(
                        s[k].position.x as int,
                        fxmul_s(crate::structs::vel_x_s(s[k], old_dt), new_dt),
                    ) as i128,
                    y: sat_sub_s(
                        s[k].position.y as int,
                        fxmul_s(crate::structs::vel_y_s(s[k], old_dt), new_dt),
                    ) as i128,
                },
                force: Vec2 { x: 0 as i128, y: 0 as i128 },
                ..s[k]
            },
    )
}

/// The whole simulation: the particle ensemble, its initial snapshot, and
/// the global constants of the tick pipeline.
pub struct Model {
    /// The live ensemble.
    pub particles: Vec<Particle>,
    /// The snapshot that `reset` restores.
    pub default_particles: Vec<Particle>,
    /// Current tick duration (raw seconds), strictly positive.
    pub delta_t: i128,
    /// The tick duration that `reset` restores.
    pub default_delta_t: i128,
    /// Gravitational constant, held exactly as `g_num / g_den`.
    pub g_num: i128,
    /// Positive denominator of the gravitational constant.
    pub g_den: i128,
    /// Whether overlap separation and impulse resolution run at all.
    pub do_collisions: bool,
    /// Collision elasticity: 0 fully inelastic, `FX_SCALE` perfectly
    /// elastic.
    pub restitution: i128,
    /// Simulated time elapsed since the last reset (raw seconds).
    pub elapsed: i128,
    /// Paused (false) or running (true); `step` only advances when
    /// running.
    pub running: bool,
    /// Display name of the configuration.
    pub name: String,
}

impl Model {
    /// Well-formedness of the whole simulation state.
    pub open spec fn wf(self) -> bool {
        &&& particles_wf(self.particles@)
        &&& particles_wf(self.default_particles@)
        &&& in_range(self.delta_t as int)
        &&& self.delta_t > 0
        &&& in_range(self.default_delta_t as int)
        &&& self.default_delta_t > 0
        &&& in_range(self.g_num as int)
        &&& self.g_den > 0
        &&& in_range(self.restitution as int)
        &&& self.restitution >= 0
        &&& in_range(self.elapsed as int)
    }

    /// Build a paused simulation over the given initial ensemble.
    pub fn new(
        defaults: Vec<Particle>,
        delta_t: i128,
        g_num: i128,
        g_den: i128,
        do_collisions: bool,
        restitution: i128,
        name: String,
    ) -> (r: Model)
        requires
            particles_wf(defaults@),
            in_range(delta_t as int),
            delta_t > 0,
            in_range(g_num as int),
            g_den > 0,
            in_range(restitution as int),
            restitution >= 0,
        ensures
            r.particles@ == defaults@,
            r.default_particles@ == defaults@,
            r.delta_t == delta_t,
            r.default_delta_t == delta_t,
            r.g_num == g_num,
            r.g_den == g_den,
            r.do_collisions == do_collisions,
            r.restitution == restitution,
            r.elapsed == 0,
            r.running == false,
            r.name == name,
            r.wf(),
    {
        let particles = duplicate_particles(&defaults);
        Model {
            particles,
            default_particles: defaults,
            delta_t,
            default_delta_t: delta_t,
            g_num,
            g_den,
            do_collisions,
            restitution,
            elapsed: 0,
            running: false,
            name,
        }
    }

    /// Restore the initial snapshot and the default tick duration; the
    /// simulation returns to the paused state with zero elapsed time.
    pub fn reset(&mut self)
        requires
            old(self).wf(),
        ensures
            final(self).particles@ == old(self).default_particles@,
            final(self).delta_t == old(self).default_delta_t,
            final(self).elapsed == 0,
            final(self).running == false,
            final(self).default_particles@ == old(self).default_particles@,
            final(self).default_delta_t == old(self).default_delta_t,
            final(self).g_num == old(self).g_num,
            final(self).g_den == old(self).g_den,
            final(self).do_collisions == old(self).do_collisions,
            final(self).restitution == old(self).restitution,
            final(self).name == old(self).name,
            final(self).wf(),
    {
        self.particles = duplicate_particles(&self.default_particles);
        self.delta_t = self.default_delta_t;
        self.elapsed = 0;
        self.running = false;
    }

    /// Change the tick duration without changing apparent velocities:
    /// every particle is rebuilt from its current position and its current
    /// velocity under the old duration.
    pub fn change_speed(&mut self, delta_t: i128)
        requires
            old(self).wf(),
            in_range(delta_t as int),
            delta_t > 0,
        ensures
            final(self).particles@ == respeed_s(
                old(self).particles@,
                old(self).delta_t as int,
                delta_t as int,
            ),
            final(self).delta_t == delta_t,
            final(self).default_particles@ == old(self).default_particles@,
            final(self).default_delta_t == old(self).default_delta_t,
            final(self).g_num == old(self).g_num,
            final(self).g_den == old(self).g_den,
            final(self).do_collisions == old(self).do_collisions,
            final(self).restitution == old(self).restitution,
            final(self).elapsed == old(self).elapsed,
            final(self).running == old(self).running,
            final(self).name == old(self).name,
            final(self).wf(),
    {
        let n = self.particles.len();
        let mut adjusted: Vec<Particle> = Vec::new();
        let mut i: usize = 0;
        while i < n
            invariant
                old(self).wf(),
                self == old(self),
                self.particles@.len() == n,
                in_range(delta_t as int),
                delta_t > 0,
                i <= n,
                adjusted@.len() == i,
                forall|k: int|
                    0 <= k < i ==> #[trigger] adjusted@[k] == respeed_s(
                        old(self).particles@,
                        old(self).delta_t as int,
                        delta_t as int,
                    )[k],
            decreases n - i,
        {
            let v = crate::structs::velocity(&self.particles[i], self.delta_t);
            let p = Particle::new(
                self.particles[i].position,
                v,
                self.particles[i].mass,
                self.particles[i].radius,
                delta_t,
                self.particles[i].name.clone(),
            );
            adjusted.push(p);
            i = i + 1;
        }
        proof {
            assert(adjusted@ =~= respeed_s(
                old(self).particles@,
                old(self).delta_t as int,
                delta_t as int,
            ));
        }
        self.particles = adjusted;
        self.delta_t = delta_t;
    }

    /// Flip between paused and running.
    pub fn toggle_running(&mut self)
        requires
            old(self).wf(),
        ensures
            final(self).running == !old(self).running,
            final(self).particles@ == old(self).particles@,
            final(self).default_particles@ == old(self).default_particles@,
            final(self).delta_t == old(self).delta_t,
            final(self).default_delta_t == old(self).default_delta_t,
            final(self).g_num == old(self).g_num,
            final(self).g_den == old(self).g_den,
            final(self).do_collisions == old(self).do_collisions,
            final(self).restitution == old(self).restitution,
            final(self).elapsed == old(self).elapsed,
            final(self).name == old(self).name,
            final(self).wf(),
    {
        self.running = !self.running;
    }

    /// Advance the simulation by one tick when running; do nothing when
    /// paused.
    pub fn step(&mut self)
        requires
            old(self).wf(),
        ensures
            final(self).wf(),
            !old(self).running ==> *final(self) == *old(self),
            old(self).running ==> final(self).particles@ == tick_s(
                old(self).particles@,
                old(self).g_num as int,
                old(self).g_den as int,
                old(self).restitution as int,
                old(self).delta_t as int,
                old(self).do_collisions,
            ),
            old(self).running ==> final(self).elapsed as int == sat_add_s(
                old(self).elapsed as int,
                old(self).delta_t as int,
            ),
            final(self).default_particles@ == old(self).default_particles@,
            final(self).delta_t == old(self).delta_t,
            final(self).default_delta_t == old(self).default_delta_t,
            final(self).g_num == old(self).g_num,
            final(self).g_den == old(self).g_den,
            final(self).do_collisions == old(self).do_collisions,
            final(self).restitution == old(self).restitution,
            final(self).running == old(self).running,
            final(self).name == old(self).name,
    {
        if !self.running {
            return ;
        }
        if self.do_collisions {
            resolve_overlaps(&mut self.particles);
        }
        accumulate_forces(&mut self.particles, self.g_num, self.g_den);
        if self.do_collisions {
            resolve_collisions(&mut self.particles, self.restitution, self.delta_t);
        }
        integrate(&mut self.particles, self.delta_t);
        self.elapsed = sat_add(self.elapsed, self.delta_t);
    }
}

} // verus!
