//! The simulation's data model: particles, distance constraints, and the
//! per-tick configuration, together with their well-formedness predicates.

use vstd::prelude::*;
use crate::fixed::{LIMIT, SCALE, mag};

verus! {

/// A 2D vector of fixed-point scalars.
#[derive(Clone, Copy, Debug, PartialEq, Eq, Structural)]
pub struct Vec2 {
    pub x: i64,
    pub y: i64,
}

impl Vec2 {
    /// Both components are within the representable range.
    pub open spec fn in_range(self) -> bool {
        mag(self.x as int) <= LIMIT && mag(self.y as int) <= LIMIT
    }

}

/// How the integrator advances a world's particles.
#[derive(Clone, Copy, Debug, PartialEq, Eq, Structural)]
pub enum IntegrationMode {
    /// Particles carry an explicit velocity; the solver corrects velocities.
    SemiImplicitEuler,
    /// Particles carry their previous position and the velocity is implicit;
    /// the solver corrects positions.
    PositionHistory,
}

/// The per-particle kinematic state that the integration mode selects:
/// an explicit velocity, or the position before the last tick.
#[derive(Clone, Copy, Debug, PartialEq, Eq, Structural)]
pub enum Motion {
    Velocity(Vec2),
    History(Vec2),
}

impl Motion {
    pub open spec fn vector(self) -> Vec2 {
        match self {
            Motion::Velocity(v) => v,
            Motion::History(v) => v,
        }
    }

    /// The motion variant agrees with the integration mode.
    pub open spec fn matches_mode(self, mode: IntegrationMode) -> bool {
        match self {
            Motion::Velocity(_) => mode == IntegrationMode::SemiImplicitEuler,
            Motion::History(_) => mode == IntegrationMode::PositionHistory,
        }
    }
}

/// A point mass.
#[derive(Clone, Copy, Debug, PartialEq, Eq, Structural)]
pub struct Particle {
    pub position: Vec2,
    pub motion: Motion,
    pub radius: i64,
    pub mass: i64,
    pub friction: i64,
}

impl Particle {
    /// The particle's invariant: positive bounded mass, nonnegative bounded
    /// radius, damping coefficient in (0, 1], bounded position and motion.
    pub open spec fn wf(self) -> bool {
        &&& 0 < self.mass <= LIMIT
        &&& 0 <= self.radius <= LIMIT
        &&& 0 < self.friction <= SCALE
        &&& self.position.in_range()
        &&& self.motion.vector().in_range()
    }
}

/// A rule holding two distinct particles toward a target separation.
#[derive(Clone, Copy, Debug, PartialEq, Eq, Structural)]
pub struct Constraint {
    pub a: usize,
    pub b: usize,
    pub rest_length: i64,
    pub strength: i64,
}

impl Constraint {
    /// The constraint's invariant: distinct endpoints, nonnegative bounded
    /// rest length, correction fraction in (0, 1].
    pub open spec fn wf(self) -> bool {
        &&& self.a != self.b
        &&& 0 <= self.rest_length <= LIMIT
        &&& 0 < self.strength <= SCALE
    }

    /// Both endpoints name existing particles. A constraint that fails this
    /// is a data fault: the tick skips it and reports it.
    pub open spec fn resolvable(self, n_particles: int) -> bool {
        self.a < n_particles && self.b < n_particles
    }
}

impl Particle {
    /// The particle's velocity along `x`: stored, or implicit in the
    /// position history.
    pub open spec fn velocity_x(self) -> int {
        match self.motion {
            Motion::Velocity(v) => v.x as int,
            Motion::History(prev) => self.position.x - prev.x,
        }
    }

    /// The particle's velocity along `y`: stored, or implicit in the
    /// position history.
    pub open spec fn velocity_y(self) -> int {
        match self.motion {
            Motion::Velocity(v) => v.y as int,
            Motion::History(prev) => self.position.y - prev.y,
        }
    }

    /// Where the particle stands after one application of its current
    /// velocity: its position plus its stored or implicit velocity.
    pub fn future_position(&self) -> (r: Vec2)
        requires
            self.wf(),
        ensures
            r.x as int == self.position.x + self.velocity_x(),
            r.y as int == self.position.y + self.velocity_y(),
    {
        match &self.motion {
            Motion::Velocity(v) => Vec2 { x: self.position.x + v.x, y: self.position.y + v.y },
            Motion::History(prev) => Vec2 {
                x: self.position.x + (self.position.x - prev.x),
                y: self.position.y + (self.position.y - prev.y),
            },
        }
    }

    /// The vector a solver correction lands on: the stored velocity where
    /// there is one, else the position itself.
    pub open spec fn correction_target(self, mode: IntegrationMode) -> Vec2 {
        match mode {
            IntegrationMode::SemiImplicitEuler => self.motion.vector(),
            IntegrationMode::PositionHistory => self.position,
        }
    }

    /// The particle with its correction target replaced.
    pub open spec fn with_correction_target(self, mode: IntegrationMode, v: Vec2) -> Particle {
        match mode {
            IntegrationMode::SemiImplicitEuler => Particle {
                position: self.position,
                motion: Motion::Velocity(v),
                radius: self.radius,
                mass: self.mass,
                friction: self.friction,
            },
            IntegrationMode::PositionHistory => Particle {
                position: v,
                motion: self.motion,
                radius: self.radius,
                mass: self.mass,
                friction: self.friction,
            },
        }
    }

    /// Reads the correction target.
    pub fn read_correction_target(&self, mode: IntegrationMode) -> (v: Vec2)
        ensures
            v == self.correction_target(mode),
    {
        match mode {
            IntegrationMode::SemiImplicitEuler => match &self.motion {
                Motion::Velocity(v) => *v,
                Motion::History(v) => *v,
            },
            IntegrationMode::PositionHistory => self.position,
        }
    }

    /// Replaces the correction target.
    pub fn write_correction_target(&self, mode: IntegrationMode, v: Vec2) -> (p: Particle)
        ensures
            p == self.with_correction_target(mode, v),
    {
        match mode {
            IntegrationMode::SemiImplicitEuler => Particle {
                position: self.position,
                motion: Motion::Velocity(v),
                radius: self.radius,
                mass: self.mass,
                friction: self.friction,
            },
            IntegrationMode::PositionHistory => Particle {
                position: v,
                motion: self.motion,
                radius: self.radius,
                mass: self.mass,
                friction: self.friction,
            },
        }
    }
}

/// Every particle is well formed and carries the motion variant that the
/// world's integration mode selects.
pub open spec fn particles_wf(ps: Seq<Particle>, mode: IntegrationMode) -> bool {
    forall|i: int|
        0 <= i < ps.len() ==> (#[trigger] ps[i]).wf() && ps[i].motion.matches_mode(mode)
}

/// Every constraint is well formed.
pub open spec fn constraints_wf(cs: Seq<Constraint>) -> bool {
    forall|i: int| 0 <= i < cs.len() ==> (#[trigger] cs[i]).wf()
}

/// Why a construction call or a tick was refused.
#[derive(Clone, Copy, Debug, PartialEq, Eq, Structural)]
pub enum ConfigurationError {
    /// A particle was given a mass of zero or less.
    NonPositiveMass,
    /// A constraint was given the same particle for both endpoints.
    EqualEndpoints,
    /// A friction or strength coefficient lay outside (0, 1].
    CoefficientOutOfRange,
    /// A particle identifier names no existing particle.
    UnknownParticle,
    /// A scalar magnitude exceeds the representable range, either in an
    /// argument or in a value the tick would have had to store.
    OutOfRange,
    /// A tick was configured with a negative time step, a correction
    /// multiplier outside its range, or a negative domain half-extent.
    InvalidTick,
}

/// The simulation domain for the boundary resolver: half-extents per axis
/// around the origin, and the velocity fraction kept on contact.
#[derive(Clone, Copy, Debug, PartialEq, Eq, Structural)]
pub struct Bounds {
    pub half_x: i64,
    pub half_y: i64,
    pub restitution: i64,
}

impl Bounds {
    pub open spec fn valid(self) -> bool {
        &&& 0 <= self.half_x <= LIMIT
        &&& 0 <= self.half_y <= LIMIT
        &&& mag(self.restitution as int) <= SCALE
    }
}

/// Fixed configuration of one tick. `dt` never comes from a wall clock: the
/// caller passes the same constant every tick, so trajectories depend only on
/// how many ticks elapse.
#[derive(Clone, Copy, Debug, PartialEq, Eq, Structural)]
pub struct TickConfig {
    /// Length of the tick, in fixed-point seconds.
    pub dt: i64,
    /// How many relaxation passes the constraint solver makes.
    pub iterations: usize,
    /// Fraction of each constraint correction actually applied, on top of the
    /// constraint's own strength; `SCALE` applies it plainly, `2 * SCALE`
    /// doubles it (the customary factor when correcting velocities).
    pub multiplier: i64,
    /// Externally supplied acceleration for the tick, accumulated into the
    /// velocity by the semi-implicit Euler integrator.
    pub acceleration: Vec2,
    /// Domain to clamp particles into; `None` leaves positions unbounded.
    pub bounds: Option<Bounds>,
}

impl TickConfig {
    pub open spec fn valid(self) -> bool {
        &&& 0 <= self.dt <= LIMIT
        &&& 0 < self.multiplier <= 8 * SCALE
        &&& self.acceleration.in_range()
        &&& match self.bounds {
            Some(b) => b.valid(),
            None => true,
        }
    }
}

/// What a tick reports back: the constraints it skipped as data faults,
/// in constraint-store order.
#[derive(Debug, PartialEq, Eq)]
pub struct Diagnostics {
    pub skipped: Vec<usize>,
}

} // verus!
