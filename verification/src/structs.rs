//! Particles and the simulation model.
//!
//! A particle carries no explicit velocity: the pair (position,
//! previous position) is the velocity representation, and the constructor
//! derives `previous_position = position - velocity * dt` so that the first
//! Verlet step reproduces the requested initial velocity.

use vstd::prelude::*;

use crate::fixed::{
    fx_div, fx_mul, fxdiv_s, fxmul_s, in_range, muldiv_s, sat_add, sat_add_s, sat_sub, sat_sub_s,
};

verus! {

/// A fixed-point 2-D vector (raw components).
#[derive(Clone, Copy, PartialEq, Eq, Structural, Debug)]
pub struct Vec2 {
    pub x: i128,
    pub y: i128,
}

/// Both components lie in the saturation range.
pub open spec fn v2_in_range(v: Vec2) -> bool {
    in_range(v.x as int) && in_range(v.y as int)
}

/// A point mass with a Verlet position history and a per-tick force
/// accumulator.
#[derive(Debug)]
pub struct Particle {
    /// Current location (raw meters).
    pub position: Vec2,
    /// Location one tick ago; `(position - previous_position) / dt` is the
    /// velocity.
    pub previous_position: Vec2,
    /// Collision extent; zero for idealized point masses.
    pub radius: i128,
    /// Per-tick force accumulator, cleared before each accumulation pass.
    pub force: Vec2,
    /// Strictly positive mass.
    pub mass: i128,
    /// Display label; no physical role.
    pub name: String,
}

impl Particle {
    /// Well-formedness: every quantity in range, mass positive, radius
    /// non-negative.
    pub open spec fn wf(self) -> bool {
        &&& v2_in_range(self.position)
        &&& v2_in_range(self.previous_position)
        &&& v2_in_range(self.force)
        &&& in_range(self.radius as int)
        &&& self.radius >= 0
        &&& in_range(self.mass as int)
        &&& self.mass > 0
    }

    /// Build a particle from an initial position and velocity; the previous
    /// position is set one velocity step behind so that the first tick moves
    /// the particle by exactly `velocity * dt`.
    pub fn new(
        position: Vec2,
        velocity: Vec2,
        mass: i128,
        radius: i128,
        time_step: i128,
        name: String,
    ) -> (r: Particle)
        requires
            v2_in_range(position),
            v2_in_range(velocity),
            in_range(mass as int),
            mass > 0,
            in_range(radius as int),
            radius >= 0,
            in_range(time_step as int),
            time_step > 0,
        ensures
            r.position == position,
            r.previous_position.x as int == sat_sub_s(
                position.x as int,
                fxmul_s(velocity.x as int, time_step as int),
            ),
            r.previous_position.y as int == sat_sub_s(
                position.y as int,
                fxmul_s(velocity.y as int, time_step as int),
            ),
            r.radius == radius,
            r.mass == mass,
            r.force.x == 0 && r.force.y == 0,
            r.name == name,
            r.wf(),
    {
        let step = Vec2 { x: fx_mul(velocity.x, time_step), y: fx_mul(velocity.y, time_step) };
        let previous_position = Vec2 {
            x: sat_sub(position.x, step.x),
            y: sat_sub(position.y, step.y),
        };
        Particle {
            position,
            previous_position,
            radius,
            force: Vec2 { x: 0, y: 0 },
            mass,
            name,
        }
    }

    /// A verified copy: every field of the result equals the original.
    pub fn duplicate(&self) -> (r: Particle)
        ensures
            r == *self,
    {
        Particle {
            position: self.position,
            previous_position: self.previous_position,
            radius: self.radius,
            force: self.force,
            mass: self.mass,
            name: self.name.clone(),
        }
    }

    /// The Stoermer-Verlet step:
    /// `new = 2 * position - previous_position + (force / mass) * dt^2`,
    /// with the acceleration term computed as one fused `force * dt^2 / mass`
    /// quotient so no precision is lost before the final truncation.  Then
    /// the history shifts: the old position becomes the previous one.
    pub fn update(&mut self, delta_t: i128)
        requires
            old(self).wf(),
            in_range(delta_t as int),
            delta_t > 0,
        ensures
            final(self).position.x as int == verlet_next_s(
                old(self).position.x as int,
                old(self).previous_position.x as int,
                old(self).force.x as int,
                delta_t as int,
                old(self).mass as int,
            ),
            final(self).position.y as int == verlet_next_s(
                old(self).position.y as int,
                old(self).previous_position.y as int,
                old(self).force.y as int,
                delta_t as int,
                old(self).mass as int,
            ),
            final(self).previous_position == old(self).position,
            final(self).radius == old(self).radius,
            final(self).mass == old(self).mass,
            final(self).force == old(self).force,
            final(self).name == old(self).name,
            final(self).wf(),
    {
        let dt2 = fx_mul(delta_t, delta_t);
        proof {
            assert(dt2 >= 0);
        }
        let disp = Vec2 {
            x: crate::fixed::muldiv(self.force.x, dt2, self.mass),
            y: crate::fixed::muldiv(self.force.y, dt2, self.mass),
        };
        let new_position = Vec2 {
            x: sat_add(sat_sub(sat_add(self.position.x, self.position.x), self.previous_position.x), disp.x),
            y: sat_add(sat_sub(sat_add(self.position.y, self.position.y), self.previous_position.y), disp.y),
        };
        self.previous_position = self.position;
        self.position = new_position;
    }
}

/// One Verlet coordinate update, over the saturating operations.
pub open spec fn verlet_next_s(p: int, pp: int, f: int, dt: int, m: int) -> int {
    sat_add_s(sat_sub_s(sat_add_s(p, p), pp), muldiv_s(f, fxmul_s(dt, dt), m))
}

/// The x velocity encoded by a particle's position history.
pub open spec fn vel_x_s(p: Particle, dt: int) -> int {
    fxdiv_s(sat_sub_s(p.position.x as int, p.previous_position.x as int), dt)
}

/// The y velocity encoded by a particle's position history.
pub open spec fn vel_y_s(p: Particle, dt: int) -> int {
    fxdiv_s(sat_sub_s(p.position.y as int, p.previous_position.y as int), dt)
}

/// Derive the velocity of a particle from its position history.
pub fn velocity(p: &Particle, delta_t: i128) -> (v: Vec2)
    requires
        p.wf(),
        in_range(delta_t as int),
        delta_t > 0,
    ensures
        v.x as int == vel_x_s(*p, delta_t as int),
        v.y as int == vel_y_s(*p, delta_t as int),
        v2_in_range(v),
{
    Vec2 {
        x: fx_div(sat_sub(p.position.x, p.previous_position.x), delta_t),
        y: fx_div(sat_sub(p.position.y, p.previous_position.y), delta_t),
    }
}

} // verus!
