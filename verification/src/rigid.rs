//! A minimal rigid-body impulse model, independent of the particle system:
//! a body with orientation takes an instantaneous force and torque at a
//! point, not a force integrated over a tick.

use vstd::prelude::*;
use crate::fixed::{
    LIMIT, SCALE, div_fx, div_trunc, div_trunc_i128, fits_limit_i128, isqrt_u128, lemma_mul_mag,
    mag, mul_fx, mul_fx_i128, sqrt_floor,
};
use crate::state::{ConfigurationError, Vec2};

verus! {

/// The shape descriptor that selects a body's moment-of-inertia formula.
#[derive(Clone, Copy, Debug, PartialEq, Eq, Structural)]
pub enum Shape {
    Circle { radius: i64 },
    Rectangle { width: i64, height: i64 },
}

impl Shape {
    pub open spec fn wf(self) -> bool {
        match self {
            Shape::Circle { radius } => 0 <= radius <= LIMIT,
            Shape::Rectangle { width, height } => 0 <= width <= LIMIT && 0 <= height <= LIMIT,
        }
    }
}

/// A rigid body, mutated only by impulse application.
#[derive(Clone, Copy, Debug, PartialEq, Eq, Structural)]
pub struct RigidBody {
    pub position: Vec2,
    pub velocity: Vec2,
    pub rotation: i64,
    pub angular_velocity: i64,
    pub mass: i64,
    pub shape: Shape,
}

/// An instantaneous impulse: a force vector and the torque it exerts about
/// the body's center. Produced by `get_displacement`, consumed at once by
/// `apply_displacement`.
#[derive(Clone, Copy, Debug, PartialEq, Eq, Structural)]
pub struct ForceTorque {
    pub force: Vec2,
    pub torque: i64,
}

impl ForceTorque {
    pub open spec fn wf(self) -> bool {
        self.force.in_range() && mag(self.torque as int) <= LIMIT
    }
}

/// The squared characteristic size of a shape: `radius^2` for a circle,
/// `width^2 + height^2` for a rectangle.
pub open spec fn shape_sq(shape: Shape) -> int {
    match shape {
        Shape::Circle { radius } => mul_fx(radius as int, radius as int),
        Shape::Rectangle { width, height } => mul_fx(width as int, width as int) + mul_fx(
            height as int,
            height as int,
        ),
    }
}

/// The divisor of the moment-of-inertia formula: 2 for a circle,
/// 12 for a rectangle.
pub open spec fn moi_divisor(shape: Shape) -> int {
    match shape {
        Shape::Circle { .. } => 2,
        Shape::Rectangle { .. } => 12,
    }
}

/// The moment of inertia: `mass * radius^2 / 2` for a circle,
/// `mass * (width^2 + height^2) / 12` for a rectangle.
pub open spec fn moi_of(shape: Shape, mass: int) -> int {
    div_trunc(mul_fx(mass, shape_sq(shape)), moi_divisor(shape))
}

/// Whether the moment of inertia stays within the representable range.
pub open spec fn moi_representable(shape: Shape, mass: int) -> bool {
    shape_sq(shape) <= LIMIT && moi_of(shape, mass) <= LIMIT
}

impl RigidBody {
    /// The body's invariant: positive bounded mass, well-formed shape,
    /// bounded kinematic state.
    pub open spec fn wf(self) -> bool {
        &&& 0 < self.mass <= LIMIT
        &&& self.shape.wf()
        &&& self.position.in_range()
        &&& self.velocity.in_range()
        &&& mag(self.rotation as int) <= LIMIT
        &&& mag(self.angular_velocity as int) <= LIMIT
    }

    /// Which error, if any, refuses this body configuration: a mass of zero
    /// or less is rejected outright, then any scalar out of range.
    pub open spec fn create_error(
        position: Vec2,
        velocity: Vec2,
        rotation: i64,
        angular_velocity: i64,
        mass: i64,
        shape: Shape,
    ) -> Option<ConfigurationError> {
        if mass <= 0 {
            Some(ConfigurationError::NonPositiveMass)
        } else if mass > LIMIT || !shape.wf() || !position.in_range() || !velocity.in_range()
            || mag(rotation as int) > LIMIT || mag(angular_velocity as int) > LIMIT {
            Some(ConfigurationError::OutOfRange)
        } else {
            None
        }
    }

    /// Builds a rigid body, rejecting a non-positive mass and any scalar
    /// outside the representable range.
    pub fn create(
        position: Vec2,
        velocity: Vec2,
        rotation: i64,
        angular_velocity: i64,
        mass: i64,
        shape: Shape,
    ) -> (r: Result<RigidBody, ConfigurationError>)
        ensures
            match Self::create_error(position, velocity, rotation, angular_velocity, mass, shape) {
                Some(e) => r == Result::<RigidBody, ConfigurationError>::Err(e),
                None => r == Result::<RigidBody, ConfigurationError>::Ok(
                    RigidBody { position, velocity, rotation, angular_velocity, mass, shape },
                ),
            },
            r matches Ok(b) ==> b.wf(),
    {
        if mass <= 0 {
            return Err(ConfigurationError::NonPositiveMass);
        }
        let shape_ok = match shape {
            Shape::Circle { radius } => 0 <= radius && radius <= LIMIT,
            Shape::Rectangle { width, height } => 0 <= width && width <= LIMIT && 0 <= height
                && height <= LIMIT,
        };
        if mass > LIMIT || !shape_ok || position.x > LIMIT || position.x < -LIMIT || position.y
            > LIMIT || position.y < -LIMIT || velocity.x > LIMIT || velocity.x < -LIMIT
            || velocity.y > LIMIT || velocity.y < -LIMIT || rotation > LIMIT || rotation < -LIMIT
            || angular_velocity > LIMIT || angular_velocity < -LIMIT {
            return Err(ConfigurationError::OutOfRange);
        }
        Ok(RigidBody { position, velocity, rotation, angular_velocity, mass, shape })
    }

    /// The moment of inertia of this body, or `None` where the value exceeds
    /// the representable range.
    pub fn moment_of_inertia(&self) -> (r: Option<i64>)
        requires
            self.wf(),
        ensures
            moi_representable(self.shape, self.mass as int) <==> r is Some,
            r matches Some(m) ==> m as int == moi_of(self.shape, self.mass as int) && 0 <= m
                <= LIMIT,
    {
        proof {
            match self.shape {
                Shape::Circle { radius } => {
                    lemma_mul_mag(radius as int, radius as int, LIMIT as int, LIMIT as int);
                }
                Shape::Rectangle { width, height } => {
                    lemma_mul_mag(width as int, width as int, LIMIT as int, LIMIT as int);
                    lemma_mul_mag(height as int, height as int, LIMIT as int, LIMIT as int);
                }
            }
        }
        let sq: i128 = match self.shape {
            Shape::Circle { radius } => mul_fx_i128(radius as i128, radius as i128),
            Shape::Rectangle { width, height } => {
                mul_fx_i128(width as i128, width as i128) + mul_fx_i128(
                    height as i128,
                    height as i128,
                )
            }
        };
        proof {
            crate::fixed::lemma_div_trunc_mag(
                match self.shape {
                    Shape::Circle { radius } => radius as int * radius as int,
                    Shape::Rectangle { width, height } => width as int * width as int,
                },
                SCALE as int,
            );
            match self.shape {
                Shape::Circle { radius } => {
                    assert(radius as int * radius as int >= 0) by (nonlinear_arith);
                }
                Shape::Rectangle { width, height } => {
                    assert(width as int * width as int >= 0 && height as int * height as int >= 0)
                        by (nonlinear_arith);
                    crate::fixed::lemma_div_trunc_mag(height as int * height as int, SCALE as int);
                }
            }
        }
        assert(sq as int == shape_sq(self.shape) && sq >= 0);
        if !fits_limit_i128(sq) {
            return None;
        }
        proof {
            lemma_mul_mag(self.mass as int, sq as int, LIMIT as int, LIMIT as int);
        }
        let msq: i128 = (self.mass as i128) * sq;
        let m1: i128 = div_trunc_i128(msq, SCALE as i128);
        let d: i128 = match self.shape {
            Shape::Circle { .. } => 2,
            Shape::Rectangle { .. } => 12,
        };
        let moi: i128 = div_trunc_i128(m1, d);
        proof {
            crate::fixed::lemma_div_trunc_mag(msq as int, SCALE as int);
            crate::fixed::lemma_div_trunc_mag(m1 as int, d as int);
        }
        assert(moi as int == moi_of(self.shape, self.mass as int) && moi >= 0);
        if !fits_limit_i128(moi) {
            return None;
        }
        Some(moi as i64)
    }
}

/// The lever arm from the body's center to the application point, crossed
/// with the force: `dx * fy - dy * fx` in fixed point.
pub open spec fn lever_cross(body: RigidBody, application_point: Vec2, force: Vec2) -> int {
    let dx = application_point.x - body.position.x;
    let dy = application_point.y - body.position.y;
    mul_fx(dx, force.y as int) - mul_fx(dy, force.x as int)
}

/// The length of the lever arm from the body's center to the application
/// point.
pub open spec fn lever_len(body: RigidBody, application_point: Vec2) -> int {
    let dx = application_point.x - body.position.x;
    let dy = application_point.y - body.position.y;
    sqrt_floor((dx * dx + dy * dy) as nat) as int
}

/// The torque of a force applied at a point: the cross product scaled once
/// more by the lever-arm length, so it grows with the square of the distance.
/// That second factor is a deliberate trait of this model, kept as designed.
pub open spec fn torque_of(body: RigidBody, application_point: Vec2, force: Vec2) -> int {
    mul_fx(lever_cross(body, application_point, force), lever_len(body, application_point))
}

/// Whether the cross product and torque of this application stay within the
/// representable range.
pub open spec fn displacement_representable(
    body: RigidBody,
    application_point: Vec2,
    force: Vec2,
) -> bool {
    mag(lever_cross(body, application_point, force)) <= LIMIT && mag(
        torque_of(body, application_point, force),
    ) <= LIMIT
}

impl RigidBody {
    /// The impulse a force exerts when applied at a point: the force itself,
    /// and its torque about the body's center.
    pub fn get_displacement(&self, application_point: Vec2, force: Vec2) -> (r: Option<ForceTorque>)
        requires
            self.wf(),
            application_point.in_range(),
            force.in_range(),
        ensures
            displacement_representable(*self, application_point, force) <==> r is Some,
            r matches Some(ft) ==> ft.force == force && ft.torque as int == torque_of(
                *self,
                application_point,
                force,
            ) && ft.wf(),
    {
        let dx: i128 = application_point.x as i128 - self.position.x as i128;
        let dy: i128 = application_point.y as i128 - self.position.y as i128;
        proof {
            lemma_mul_mag(dx as int, force.y as int, 2 * LIMIT as int, LIMIT as int);
            lemma_mul_mag(dy as int, force.x as int, 2 * LIMIT as int, LIMIT as int);
        }
        let cx: i128 = mul_fx_i128(dx, force.y as i128);
        let cy: i128 = mul_fx_i128(dy, force.x as i128);
        proof {
            crate::fixed::lemma_div_trunc_mag(dx as int * force.y as int, SCALE as int);
            crate::fixed::lemma_div_trunc_mag(dy as int * force.x as int, SCALE as int);
        }
        let cross: i128 = cx - cy;
        assert(cross as int == lever_cross(*self, application_point, force));
        if !fits_limit_i128(cross) {
            return None;
        }
        proof {
            lemma_mul_mag(dx as int, dx as int, 2 * LIMIT as int, 2 * LIMIT as int);
            lemma_mul_mag(dy as int, dy as int, 2 * LIMIT as int, 2 * LIMIT as int);
            assert(dx as int * dx as int >= 0 && dy as int * dy as int >= 0) by (nonlinear_arith);
        }
        let d2: u128 = (dx * dx + dy * dy) as u128;
        let dist: u128 = isqrt_u128(d2);
        proof {
            if dist > 4 * LIMIT as int {
                assert((dist as int) * (dist as int) > (4 * LIMIT as int) * (4 * LIMIT as int))
                    by (nonlinear_arith)
                    requires
                        dist as int > 4 * LIMIT as int,
                        LIMIT > 0,
                ;
                assert(false);
            }
            lemma_mul_mag(cross as int, dist as int, LIMIT as int, 4 * LIMIT as int);
        }
        let torque: i128 = mul_fx_i128(cross, dist as i128);
        assert(torque as int == torque_of(*self, application_point, force));
        if !fits_limit_i128(torque) {
            return None;
        }
        Some(ForceTorque { force, torque: torque as i64 })
    }
}

/// The body after an impulse: velocity grows by `force / mass`, angular
/// velocity by `torque / moment_of_inertia`; `None` where a stored scalar
/// would leave the representable range. A moment of inertia of zero is
/// degenerate geometry: the angular velocity is then left unchanged.
pub open spec fn applied(body: RigidBody, ft: ForceTorque) -> Option<RigidBody> {
    let vx = body.velocity.x + div_fx(ft.force.x as int, body.mass as int);
    let vy = body.velocity.y + div_fx(ft.force.y as int, body.mass as int);
    if mag(vx) > LIMIT || mag(vy) > LIMIT {
        None
    } else if !moi_representable(body.shape, body.mass as int) {
        None
    } else {
        let moi = moi_of(body.shape, body.mass as int);
        let w = if moi > 0 {
            body.angular_velocity + div_trunc(ft.torque * SCALE, moi)
        } else {
            body.angular_velocity as int
        };
        if mag(w) > LIMIT {
            None
        } else {
            Some(
                RigidBody {
                    position: body.position,
                    velocity: Vec2 { x: vx as i64, y: vy as i64 },
                    rotation: body.rotation,
                    angular_velocity: w as i64,
                    mass: body.mass,
                    shape: body.shape,
                },
            )
        }
    }
}

impl RigidBody {
    /// Applies an impulse in place. Atomic: on an error the body is
    /// unchanged.
    pub fn apply_displacement(&mut self, ft: &ForceTorque) -> (r: Result<(), ConfigurationError>)
        requires
            old(self).wf(),
            ft.wf(),
        ensures
            final(self).wf(),
            match applied(*old(self), *ft) {
                Some(b) => r == Result::<(), ConfigurationError>::Ok(()) && *final(self) == b,
                None => r == Result::<(), ConfigurationError>::Err(ConfigurationError::OutOfRange)
                    && *final(self) == *old(self),
            },
    {
        let dvx: i128 = div_trunc_i128((ft.force.x as i128) * (SCALE as i128), self.mass as i128);
        let dvy: i128 = div_trunc_i128((ft.force.y as i128) * (SCALE as i128), self.mass as i128);
        let vx: i128 = self.velocity.x as i128 + dvx;
        let vy: i128 = self.velocity.y as i128 + dvy;
        if !fits_limit_i128(vx) || !fits_limit_i128(vy) {
            return Err(ConfigurationError::OutOfRange);
        }
        let moi = match self.moment_of_inertia() {
            Some(m) => m,
            None => {
                return Err(ConfigurationError::OutOfRange);
            }
        };
        let w: i128 = if moi > 0 {
            self.angular_velocity as i128 + div_trunc_i128(
                (ft.torque as i128) * (SCALE as i128),
                moi as i128,
            )
        } else {
            self.angular_velocity as i128
        };
        if !fits_limit_i128(w) {
            return Err(ConfigurationError::OutOfRange);
        }
        self.velocity = Vec2 { x: vx as i64, y: vy as i64 };
        self.angular_velocity = w as i64;
        Ok(())
    }
}

} // verus!

