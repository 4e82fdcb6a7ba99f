//! Per-body motion state and the force and impulse operations on it.
use vstd::prelude::*;
use crate::fixed::{
    div0, div_toward_zero, velocity_change, AXIS_SCALE, MICROS_PER_SECOND,
};
use crate::vector::Vector;

verus! {

/// Whether `x` fits in an `i32`.
pub open spec fn fits_i32(x: int) -> bool {
    i32::MIN <= x <= i32::MAX
}

/// Whether `x` fits in an `i64`.
pub open spec fn fits_i64(x: int) -> bool {
    i64::MIN <= x <= i64::MAX
}

/// The dot product of two vectors.
pub open spec fn dot(a: Vector, b: Vector) -> int {
    a.x * b.x + a.y * b.y
}

/// The cross product `a × b`; positive when `b` lies counter-clockwise of `a`.
pub open spec fn cross(a: Vector, b: Vector) -> int {
    a.x * b.y - a.y * b.x
}

/// Whether `axis` is a unit vector, a unit being `AXIS_SCALE`, up to the
/// rounding of its components: its length is within 2 of `AXIS_SCALE`.
pub open spec fn is_axis(axis: Vector) -> bool {
    &&& -AXIS_SCALE <= axis.x <= AXIS_SCALE
    &&& -AXIS_SCALE <= axis.y <= AXIS_SCALE
    &&& (AXIS_SCALE - 2) * (AXIS_SCALE - 2) <= dot(axis, axis) <= (AXIS_SCALE + 2) * (AXIS_SCALE + 2)
}

/// The sign of a nonzero integer.
pub open spec fn sign(x: int) -> int {
    if x > 0 {
        1
    } else {
        -1
    }
}

/// The physical state of one moving body.
///
/// Velocities are in world units per second, the heading in microradians
/// and the angular rate in microradians per second. Time steps are given
/// in microseconds. Directions along the heading are passed in as unit
/// vectors of length `AXIS_SCALE`, as the caller computes them from the
/// heading.
#[derive(Clone, Copy, Debug)]
pub struct InertiaVolume {
    pub velocity: Vector,
    pub rotation: i64,
    pub rotation_velocity: i64,
    pub mass: u32,
    pub radius: u32,
}

impl InertiaVolume {
    /// A body can be pushed: its mass is positive.
    pub open spec fn valid(&self) -> bool {
        self.mass > 0
    }

    /// The velocity after `f`, in units of `1 / scale`, acts for `dt`.
    pub open spec fn pushed(&self, f: Vector, scale: int, dt: int) -> Vector {
        Vector {
            x: (self.velocity.x + velocity_change(f.x as int, scale, dt, self.mass as int)) as i32,
            y: (self.velocity.y + velocity_change(f.y as int, scale, dt, self.mass as int)) as i32,
        }
    }

    /// Whether that velocity can be stored.
    pub open spec fn can_push(&self, f: Vector, scale: int, dt: int) -> bool {
        &&& fits_i32(self.velocity.x + velocity_change(f.x as int, scale, dt, self.mass as int))
        &&& fits_i32(self.velocity.y + velocity_change(f.y as int, scale, dt, self.mass as int))
    }

    /// The velocity after a thrust of `magnitude` along `axis` for `dt`.
    pub open spec fn thrusted(&self, axis: Vector, magnitude: int, dt: int) -> Vector {
        Vector {
            x: (self.velocity.x + velocity_change(axis.x * magnitude, AXIS_SCALE as int, dt, self.mass as int)) as i32,
            y: (self.velocity.y + velocity_change(axis.y * magnitude, AXIS_SCALE as int, dt, self.mass as int)) as i32,
        }
    }

    /// Whether that velocity can be stored.
    pub open spec fn can_thrust(&self, axis: Vector, magnitude: int, dt: int) -> bool {
        &&& fits_i32(self.velocity.x + velocity_change(axis.x * magnitude, AXIS_SCALE as int, dt, self.mass as int))
        &&& fits_i32(self.velocity.y + velocity_change(axis.y * magnitude, AXIS_SCALE as int, dt, self.mass as int))
    }

    /// The forward speed along `axis`, times `AXIS_SCALE`.
    pub open spec fn forward_speed(&self, axis: Vector) -> int {
        dot(self.velocity, axis)
    }

    /// The forward speed along `axis`, times `AXIS_SCALE`, that a thrust of
    /// `magnitude` for `dt` would give.
    pub open spec fn forward_speed_after_thrust(&self, axis: Vector, magnitude: int, dt: int) -> int {
        let dx = velocity_change(axis.x * magnitude, AXIS_SCALE as int, dt, self.mass as int);
        let dy = velocity_change(axis.y * magnitude, AXIS_SCALE as int, dt, self.mass as int);
        (self.velocity.x + dx) * axis.x + (self.velocity.y + dy) * axis.y
    }

    /// Whether a thrust of `magnitude` would push the forward speed along
    /// `axis` past `limit` (below `-limit` for a negative thrust).
    pub open spec fn thrust_blocked(&self, axis: Vector, magnitude: int, limit: int, dt: int) -> bool {
        ||| magnitude > 0 && self.forward_speed_after_thrust(axis, magnitude, dt) > limit * AXIS_SCALE
        ||| magnitude < 0 && self.forward_speed_after_thrust(axis, magnitude, dt) < -limit * AXIS_SCALE
    }

    /// The velocity after a limited thrust.
    pub open spec fn thrusted_limited(&self, axis: Vector, magnitude: int, limit: int, dt: int) -> Vector {
        if self.thrust_blocked(axis, magnitude, limit, dt) {
            self.velocity
        } else {
            self.thrusted(axis, magnitude, dt)
        }
    }

    /// The speed across `axis` toward its right-hand side, times `AXIS_SCALE`.
    pub open spec fn tangential_speed(&self, axis: Vector) -> int {
        cross(self.velocity, axis)
    }

    /// The braking force across `axis`, in units of `1 / AXIS_SCALE`: it
    /// points against the tangential motion.
    pub open spec fn braking_force(&self, axis: Vector, braking: int) -> (int, int) {
        let s = sign(self.tangential_speed(axis));
        (-s * axis.y * braking, s * axis.x * braking)
    }

    /// The velocity after braking.
    pub open spec fn braked(&self, axis: Vector, braking: int, dt: int) -> Vector {
        let f = self.braking_force(axis, braking);
        Vector {
            x: (self.velocity.x + velocity_change(f.0, AXIS_SCALE as int, dt, self.mass as int)) as i32,
            y: (self.velocity.y + velocity_change(f.1, AXIS_SCALE as int, dt, self.mass as int)) as i32,
        }
    }

    /// Whether that velocity can be stored.
    pub open spec fn can_brake(&self, axis: Vector, braking: int, dt: int) -> bool {
        let f = self.braking_force(axis, braking);
        self.tangential_speed(axis) != 0 ==> {
            &&& fits_i32(self.velocity.x + velocity_change(f.0, AXIS_SCALE as int, dt, self.mass as int))
            &&& fits_i32(self.velocity.y + velocity_change(f.1, AXIS_SCALE as int, dt, self.mass as int))
        }
    }

    /// A body at rest with heading zero.
    pub fn new(mass: u32, radius: u32) -> (r: InertiaVolume)
        requires
            mass > 0,
        ensures
            r.valid(),
            r.velocity == Vector::zero_spec(),
            r.rotation == 0,
            r.rotation_velocity == 0,
            r.mass == mass,
            r.radius == radius,
    {
        InertiaVolume { velocity: Vector::zero(), rotation: 0, rotation_velocity: 0, mass, radius }
    }

    /// The heading, in microradians.
    pub fn rotation(&self) -> (r: i64)
        ensures
            r == self.rotation,
    {
        self.rotation
    }

    /// Adds `f * dt / (scale * mass)` to the velocity, each component
    /// rounded toward zero.
    fn push(&mut self, fx: i128, fy: i128, scale: i128, dt: u32)
        requires
            old(self).valid(),
            1 <= scale <= AXIS_SCALE,
            -AXIS_SCALE * 0x8000_0000 <= fx <= AXIS_SCALE * 0x8000_0000,
            -AXIS_SCALE * 0x8000_0000 <= fy <= AXIS_SCALE * 0x8000_0000,
            fits_i32(old(self).velocity.x + velocity_change(fx as int, scale as int, dt as int, old(self).mass as int)),
            fits_i32(old(self).velocity.y + velocity_change(fy as int, scale as int, dt as int, old(self).mass as int)),
        ensures
            final(self).velocity.x == old(self).velocity.x + velocity_change(fx as int, scale as int, dt as int, old(self).mass as int),
            final(self).velocity.y == old(self).velocity.y + velocity_change(fy as int, scale as int, dt as int, old(self).mass as int),
            final(self).rotation == old(self).rotation,
            final(self).rotation_velocity == old(self).rotation_velocity,
            final(self).mass == old(self).mass,
            final(self).radius == old(self).radius,
    {
        let dx = velocity_delta(fx, scale, self.mass, dt);
        let dy = velocity_delta(fy, scale, self.mass, dt);
        self.velocity = Vector {
            x: (self.velocity.x as i128 + dx) as i32,
            y: (self.velocity.y as i128 + dy) as i32,
        };
    }

    /// Changes the velocity by `impulse / mass`, rounded toward zero.
    pub fn apply_impulse(&mut self, impulse: Vector)
        requires
            old(self).valid(),
            fits_i32(old(self).velocity.x + div0(impulse.x as int, old(self).mass as int)),
            fits_i32(old(self).velocity.y + div0(impulse.y as int, old(self).mass as int)),
        ensures
            final(self).velocity.x == old(self).velocity.x + div0(impulse.x as int, old(self).mass as int),
            final(self).velocity.y == old(self).velocity.y + div0(impulse.y as int, old(self).mass as int),
            final(self).rotation == old(self).rotation,
            final(self).rotation_velocity == old(self).rotation_velocity,
            final(self).mass == old(self).mass,
            final(self).radius == old(self).radius,
    {
        let dx = div_toward_zero(impulse.x as i128, self.mass as i128);
        let dy = div_toward_zero(impulse.y as i128, self.mass as i128);
        self.velocity = Vector {
            x: (self.velocity.x as i128 + dx) as i32,
            y: (self.velocity.y as i128 + dy) as i32,
        };
    }

    /// Changes the velocity by `force / mass * dt`, `dt` in microseconds,
    /// each component rounded toward zero.
    pub fn apply_force(&mut self, force: Vector, dt: u32)
        requires
            old(self).valid(),
            old(self).can_push(force, 1, dt as int),
        ensures
            final(self).velocity == old(self).pushed(force, 1, dt as int),
            final(self).rotation == old(self).rotation,
            final(self).rotation_velocity == old(self).rotation_velocity,
            final(self).mass == old(self).mass,
            final(self).radius == old(self).radius,
    {
        self.push(force.x as i128, force.y as i128, 1, dt);
    }

    /// Pushes the body with a force of `magnitude` along `axis`, the unit
    /// vector of its heading.
    pub fn apply_thrust_force(&mut self, magnitude: i32, axis: Vector, dt: u32)
        requires
            old(self).valid(),
            is_axis(axis),
            old(self).can_thrust(axis, magnitude as int, dt as int),
        ensures
            final(self).velocity == old(self).thrusted(axis, magnitude as int, dt as int),
            final(self).rotation == old(self).rotation,
            final(self).rotation_velocity == old(self).rotation_velocity,
            final(self).mass == old(self).mass,
            final(self).radius == old(self).radius,
    {
        proof {
            lemma_axis_force_bounds(axis, magnitude as int);
        }
        self.push((axis.x as i128) * (magnitude as i128), (axis.y as i128) * (magnitude as i128), AXIS_SCALE, dt);
    }

    /// Thrusts along the heading axis unless that would take the forward
    /// speed past `limit` in the direction of the thrust.
    pub fn apply_thrust_force_limited(&mut self, magnitude: i32, axis: Vector, limit: i32, dt: u32)
        requires
            old(self).valid(),
            is_axis(axis),
            !old(self).thrust_blocked(axis, magnitude as int, limit as int, dt as int)
                ==> old(self).can_thrust(axis, magnitude as int, dt as int),
        ensures
            final(self).velocity == old(self).thrusted_limited(axis, magnitude as int, limit as int, dt as int),
            final(self).rotation == old(self).rotation,
            final(self).rotation_velocity == old(self).rotation_velocity,
            final(self).mass == old(self).mass,
            final(self).radius == old(self).radius,
    {
        self.apply_offset_thrust_force_limited(magnitude, axis, limit, dt);
    }

    /// Thrusts along `axis`, the heading turned by some offset, unless that
    /// would take the speed along the axis past `limit` in the direction of
    /// the thrust; then nothing changes. A body below the limit thus comes
    /// near it but never passes it.
    pub fn apply_offset_thrust_force_limited(&mut self, magnitude: i32, axis: Vector, limit: i32, dt: u32)
        requires
            old(self).valid(),
            is_axis(axis),
            !old(self).thrust_blocked(axis, magnitude as int, limit as int, dt as int)
                ==> old(self).can_thrust(axis, magnitude as int, dt as int),
        ensures
            final(self).velocity == old(self).thrusted_limited(axis, magnitude as int, limit as int, dt as int),
            final(self).rotation == old(self).rotation,
            final(self).rotation_velocity == old(self).rotation_velocity,
            final(self).mass == old(self).mass,
            final(self).radius == old(self).radius,
    {
        proof {
            lemma_axis_force_bounds(axis, magnitude as int);
        }
        let dx = velocity_delta((axis.x as i128) * (magnitude as i128), AXIS_SCALE, self.mass, dt);
        let dy = velocity_delta((axis.y as i128) * (magnitude as i128), AXIS_SCALE, self.mass, dt);
        let vx: i128 = self.velocity.x as i128 + dx;
        let vy: i128 = self.velocity.y as i128 + dy;
        assert(-0x10_0000_0000_0000_0000_0000_0000 <= vx * axis.x <= 0x10_0000_0000_0000_0000_0000_0000) by (nonlinear_arith)
            requires
                -0x2_0000_0000_0000_0000_0000 <= vx <= 0x2_0000_0000_0000_0000_0000,
                -AXIS_SCALE <= axis.x <= AXIS_SCALE,
        ;
        assert(-0x10_0000_0000_0000_0000_0000_0000 <= vy * axis.y <= 0x10_0000_0000_0000_0000_0000_0000) by (nonlinear_arith)
            requires
                -0x2_0000_0000_0000_0000_0000 <= vy <= 0x2_0000_0000_0000_0000_0000,
                -AXIS_SCALE <= axis.y <= AXIS_SCALE,
        ;
        let forward: i128 = vx * (axis.x as i128) + vy * (axis.y as i128);
        let bound: i128 = (limit as i128) * AXIS_SCALE;
        if magnitude > 0 && forward > bound {
            return;
        } else if magnitude < 0 && forward < -bound {
            return;
        }
        self.velocity = Vector { x: vx as i32, y: vy as i32 };
    }

    /// Brakes the motion across the heading axis; see
    /// `apply_offset_thrust_braking`.
    pub fn apply_thrust_braking(&mut self, braking: i32, axis: Vector, dt: u32) -> (r: i64)
        requires
            old(self).valid(),
            is_axis(axis),
            old(self).can_brake(axis, braking as int, dt as int),
        ensures
            old(self).tangential_speed(axis) == 0 ==> r == 0 && final(self).velocity == old(self).velocity,
            old(self).tangential_speed(axis) != 0 ==> final(self).velocity == old(self).braked(axis, braking as int, dt as int),
            r == old(self).tangential_speed(axis),
            final(self).rotation == old(self).rotation,
            final(self).rotation_velocity == old(self).rotation_velocity,
            final(self).mass == old(self).mass,
            final(self).radius == old(self).radius,
    {
        self.apply_offset_thrust_braking(braking, axis, dt)
    }

    /// Splits the velocity into its part along `axis` and its tangential
    /// part. Without tangential motion nothing changes and 0 is returned.
    /// Otherwise a force of `braking` acts against the tangential motion.
    /// The result is the tangential speed times `AXIS_SCALE`: positive
    /// toward the right of the axis, negative toward its left, and 0 exactly
    /// when there is no tangential motion.
    pub fn apply_offset_thrust_braking(&mut self, braking: i32, axis: Vector, dt: u32) -> (r: i64)
        requires
            old(self).valid(),
            is_axis(axis),
            old(self).can_brake(axis, braking as int, dt as int),
        ensures
            old(self).tangential_speed(axis) == 0 ==> r == 0 && final(self).velocity == old(self).velocity,
            old(self).tangential_speed(axis) != 0 ==> final(self).velocity == old(self).braked(axis, braking as int, dt as int),
            r == old(self).tangential_speed(axis),
            final(self).rotation == old(self).rotation,
            final(self).rotation_velocity == old(self).rotation_velocity,
            final(self).mass == old(self).mass,
            final(self).radius == old(self).radius,
    {
        proof {
            lemma_axis_dot_bounds(self.velocity, axis);
        }
        let tangent: i64 = (self.velocity.x as i64) * (axis.y as i64) - (self.velocity.y as i64) * (axis.x as i64);
        if tangent == 0 {
            return 0;
        }
        proof {
            lemma_axis_force_bounds(axis, braking as int);
        }
        let py: i128 = (axis.y as i128) * (braking as i128);
        let px: i128 = (axis.x as i128) * (braking as i128);
        let fx: i128 = if tangent > 0 { -py } else { py };
        let fy: i128 = if tangent > 0 { px } else { -px };
        proof {
            let sg = sign(tangent as int);
            assert(fx == -sg * axis.y * braking && fy == sg * axis.x * braking) by (nonlinear_arith)
                requires
                    sg == 1 || sg == -1,
                    sg == 1 ==> fx == -py && fy == px,
                    sg == -1 ==> fx == py && fy == -px,
                    py == axis.y * braking,
                    px == axis.x * braking,
            ;
        }
        self.push(fx, fy, AXIS_SCALE, dt);
        tangent
    }

    /// Turns the heading by `angular_rate * dt`, rounded toward zero; the
    /// rate is in microradians per second.
    pub fn apply_rotation_force(&mut self, angular_rate: i64, dt: u32)
        requires
            fits_i64(old(self).rotation + div0(angular_rate * dt, MICROS_PER_SECOND as int)),
        ensures
            final(self).rotation == old(self).rotation + div0(angular_rate * dt, MICROS_PER_SECOND as int),
            final(self).velocity == old(self).velocity,
            final(self).rotation_velocity == old(self).rotation_velocity,
            final(self).mass == old(self).mass,
            final(self).radius == old(self).radius,
    {
        assert(-0x8000_0000_0000_0000 * 0x1_0000_0000 <= (angular_rate as i128) * (dt as i128) <= 0x8000_0000_0000_0000 * 0x1_0000_0000) by (nonlinear_arith)
            requires
                i64::MIN <= angular_rate <= i64::MAX,
                0 <= dt < 0x1_0000_0000,
        ;
        let d = div_toward_zero((angular_rate as i128) * (dt as i128), MICROS_PER_SECOND);
        self.rotation = (self.rotation as i128 + d) as i64;
    }
}

/// The velocity change `f * dt / (scale * mass)`, rounded toward zero.
fn velocity_delta(f: i128, scale: i128, mass: u32, dt: u32) -> (r: i128)
    requires
        mass > 0,
        1 <= scale <= AXIS_SCALE,
        -AXIS_SCALE * 0x8000_0000 <= f <= AXIS_SCALE * 0x8000_0000,
    ensures
        r == velocity_change(f as int, scale as int, dt as int, mass as int),
        -AXIS_SCALE * 0x8000_0000 * 0x1_0000_0000 <= r <= AXIS_SCALE * 0x8000_0000 * 0x1_0000_0000,
{
    let m = mass as i128;
    assert(1 <= scale * m <= AXIS_SCALE * 0x1_0000_0000) by (nonlinear_arith)
        requires
            1 <= scale <= AXIS_SCALE,
            1 <= m < 0x1_0000_0000,
    ;
    let denom: i128 = scale * m * MICROS_PER_SECOND;
    assert(-AXIS_SCALE * 0x8000_0000 * 0x1_0000_0000 <= f * (dt as i128) <= AXIS_SCALE * 0x8000_0000 * 0x1_0000_0000) by (nonlinear_arith)
        requires
            -AXIS_SCALE * 0x8000_0000 <= f <= AXIS_SCALE * 0x8000_0000,
            0 <= dt < 0x1_0000_0000,
    ;
    proof {
        crate::fixed::lemma_div0_bounds(f * dt, denom as int);
    }
    div_toward_zero(f * (dt as i128), denom)
}

/// A force changes each velocity component by `force / mass * dt`, rounded
/// toward zero: the change falls short of the exact one by less than one
/// unit, and never overshoots it.
pub proof fn lemma_force_changes_velocity(body: InertiaVolume, force: Vector, dt: u32)
    requires
        body.valid(),
        body.can_push(force, 1, dt as int),
    ensures
        ({
            let d = body.mass * MICROS_PER_SECOND;
            let dx = body.pushed(force, 1, dt as int).x - body.velocity.x;
            let dy = body.pushed(force, 1, dt as int).y - body.velocity.y;
            &&& force.x * dt >= 0 ==> 0 <= force.x * dt - dx * d < d
            &&& force.x * dt < 0 ==> 0 <= dx * d - force.x * dt < d
            &&& force.y * dt >= 0 ==> 0 <= force.y * dt - dy * d < d
            &&& force.y * dt < 0 ==> 0 <= dy * d - force.y * dt < d
        }),
{
    let d = body.mass * MICROS_PER_SECOND;
    assert(1 * body.mass * MICROS_PER_SECOND == d);
    lemma_rounding_error(force.x * dt, d);
    lemma_rounding_error(force.y * dt, d);
}

/// A velocity that is a multiple of the axis has no tangential part, so
/// braking along that axis returns 0 and leaves the velocity as it is.
pub proof fn lemma_no_tangent_along_axis(body: InertiaVolume, axis: Vector, s: int)
    requires
        body.velocity.x == s * axis.x,
        body.velocity.y == s * axis.y,
    ensures
        body.tangential_speed(axis) == 0,
{
    assert(s * axis.x * axis.y - s * axis.y * axis.x == 0) by (nonlinear_arith);
}

/// Division rounded toward zero misses the exact quotient by less than one.
proof fn lemma_rounding_error(a: int, d: int)
    requires
        d > 0,
    ensures
        a >= 0 ==> 0 <= a - div0(a, d) * d < d,
        a < 0 ==> 0 <= div0(a, d) * d - a < d,
{
    let n = if a >= 0 { a } else { -a };
    vstd::arithmetic::div_mod::lemma_fundamental_div_mod(n, d);
    vstd::arithmetic::div_mod::lemma_mod_pos_bound(n, d);
    let q = n / d;
    assert(q * d == d * q) by (nonlinear_arith);
    assert((-q) * d == -(q * d)) by (nonlinear_arith);
}

/// Limited thrust never takes the forward speed past the limit: if the
/// forward speed along `axis` is within `±limit` before a limited thrust, it
/// is within it afterwards, so no number of calls gets it past the limit.
/// Speeds are compared times `AXIS_SCALE`.
pub proof fn lemma_thrust_limited_keeps_cap(body: InertiaVolume, magnitude: i32, axis: Vector, limit: i32, dt: u32)
    requires
        body.valid(),
        is_axis(axis),
        !body.thrust_blocked(axis, magnitude as int, limit as int, dt as int)
            ==> body.can_thrust(axis, magnitude as int, dt as int),
        -limit * AXIS_SCALE <= body.forward_speed(axis) <= limit * AXIS_SCALE,
    ensures
        ({
            let after = InertiaVolume {
                velocity: body.thrusted_limited(axis, magnitude as int, limit as int, dt as int),
                ..body
            };
            -limit * AXIS_SCALE <= after.forward_speed(axis) <= limit * AXIS_SCALE
        }),
{
    if !body.thrust_blocked(axis, magnitude as int, limit as int, dt as int) {
        let e = AXIS_SCALE * body.mass * MICROS_PER_SECOND;
        let q = magnitude * dt;
        assert(e > 0) by (nonlinear_arith)
            requires
                e == AXIS_SCALE * body.mass * MICROS_PER_SECOND,
                body.mass > 0,
        ;
        assert(axis.x * magnitude * dt == axis.x * q) by (nonlinear_arith)
            requires
                q == magnitude * dt,
        ;
        assert(axis.y * magnitude * dt == axis.y * q) by (nonlinear_arith)
            requires
                q == magnitude * dt,
        ;
        let dvx = velocity_change(axis.x * magnitude, AXIS_SCALE as int, dt as int, body.mass as int);
        let dvy = velocity_change(axis.y * magnitude, AXIS_SCALE as int, dt as int, body.mass as int);
        lemma_step_sign(axis.x as int, q, e, dvx);
        lemma_step_sign(axis.y as int, q, e, dvy);
        let f0 = body.forward_speed(axis);
        let f1 = body.forward_speed_after_thrust(axis, magnitude as int, dt as int);
        assert(f1 == f0 + dvx * axis.x + dvy * axis.y) by (nonlinear_arith)
            requires
                f1 == (body.velocity.x + dvx) * axis.x + (body.velocity.y + dvy) * axis.y,
                f0 == body.velocity.x * axis.x + body.velocity.y * axis.y,
        ;
        assert(magnitude > 0 ==> q >= 0) by (nonlinear_arith)
            requires
                q == magnitude * dt,
                dt >= 0,
        ;
        assert(magnitude < 0 ==> q <= 0) by (nonlinear_arith)
            requires
                q == magnitude * dt,
                dt >= 0,
        ;
        assert(magnitude == 0 ==> q == 0) by (nonlinear_arith)
            requires
                q == magnitude * dt,
        ;
    }
}

/// A thrust component, taken along the same component of the axis, has the
/// sign of the thrust.
proof fn lemma_step_sign(a: int, q: int, e: int, dv: int)
    requires
        e > 0,
        dv == div0(a * q, e),
    ensures
        q >= 0 ==> dv * a >= 0,
        q <= 0 ==> dv * a <= 0,
{
    crate::fixed::lemma_div0_bounds(a * q, e);
    if a >= 0 && q >= 0 {
        assert(a * q >= 0) by (nonlinear_arith) requires a >= 0, q >= 0;
        assert(dv * a >= 0) by (nonlinear_arith) requires dv >= 0, a >= 0;
    } else if a < 0 && q < 0 {
        assert(a * q > 0) by (nonlinear_arith) requires a < 0, q < 0;
        assert(dv * a <= 0) by (nonlinear_arith) requires dv >= 0, a < 0;
    } else if a >= 0 && q < 0 {
        assert(a * q <= 0) by (nonlinear_arith) requires a >= 0, q < 0;
        assert(dv <= 0);
        assert(dv * a <= 0) by (nonlinear_arith) requires dv <= 0, a >= 0;
    } else {
        assert(a * q <= 0) by (nonlinear_arith) requires a < 0, q >= 0;
        assert(dv <= 0);
        assert(dv * a >= 0) by (nonlinear_arith) requires dv <= 0, a < 0;
    }
    if q == 0 {
        assert(a * q == 0);
        assert(dv == 0);
    }
}

/// A component of an axis times a 32-bit magnitude stays within the bounds
/// that a push accepts.
proof fn lemma_axis_force_bounds(axis: Vector, magnitude: int)
    requires
        is_axis(axis),
        i32::MIN <= magnitude <= i32::MAX,
    ensures
        -AXIS_SCALE * 0x8000_0000 <= axis.x * magnitude <= AXIS_SCALE * 0x8000_0000,
        -AXIS_SCALE * 0x8000_0000 <= axis.y * magnitude <= AXIS_SCALE * 0x8000_0000,
{
    assert(-AXIS_SCALE * 0x8000_0000 <= axis.x * magnitude <= AXIS_SCALE * 0x8000_0000) by (nonlinear_arith)
        requires
            -AXIS_SCALE <= axis.x <= AXIS_SCALE,
            -0x8000_0000 <= magnitude < 0x8000_0000,
    ;
    assert(-AXIS_SCALE * 0x8000_0000 <= axis.y * magnitude <= AXIS_SCALE * 0x8000_0000) by (nonlinear_arith)
        requires
            -AXIS_SCALE <= axis.y <= AXIS_SCALE,
            -0x8000_0000 <= magnitude < 0x8000_0000,
    ;
}

/// Products of a velocity with an axis fit in an `i64`.
proof fn lemma_axis_dot_bounds(v: Vector, axis: Vector)
    requires
        is_axis(axis),
    ensures
        -0x8000_0000 * AXIS_SCALE <= v.x * axis.x <= 0x8000_0000 * AXIS_SCALE,
        -0x8000_0000 * AXIS_SCALE <= v.y * axis.y <= 0x8000_0000 * AXIS_SCALE,
        -0x8000_0000 * AXIS_SCALE <= v.x * axis.y <= 0x8000_0000 * AXIS_SCALE,
        -0x8000_0000 * AXIS_SCALE <= v.y * axis.x <= 0x8000_0000 * AXIS_SCALE,
{
    lemma_axis_force_bounds(axis, v.x as int);
    lemma_axis_force_bounds(axis, v.y as int);
    assert(v.x * axis.x == axis.x * v.x) by (nonlinear_arith);
    assert(v.y * axis.y == axis.y * v.y) by (nonlinear_arith);
    assert(v.x * axis.y == axis.y * v.x) by (nonlinear_arith);
    assert(v.y * axis.x == axis.x * v.y) by (nonlinear_arith);
}

} // verus!
