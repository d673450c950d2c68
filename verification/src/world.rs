//! The simulation world: the particle store, the constraint store, and the
//! tick that advances them. Stores are dense arenas addressed by index;
//! enumeration order is creation order, which the solver follows exactly,
//! so runs are reproducible.

use vstd::prelude::*;
use crate::boundary::{bounce_all, resolve_bounds};
use crate::fixed::{LIMIT, SCALE};
use crate::integrator::{integrate, integrate_all};
use crate::solver::{solve, solve_iterations};
use crate::state::{
    ConfigurationError, Constraint, Diagnostics, IntegrationMode, Motion, Particle, TickConfig,
    Vec2, constraints_wf, particles_wf,
};

verus! {

/// The simulation state. Readers may look at the stores between ticks; only
/// the tick itself mutates them.
pub struct World {
    pub mode: IntegrationMode,
    pub particles: Vec<Particle>,
    pub constraints: Vec<Constraint>,
}

/// The constraint indices a tick reports as data faults: those among the
/// first `k` whose endpoints do not both name one of `n` particles.
pub open spec fn skipped_of(cs: Seq<Constraint>, n: int, k: int) -> Seq<usize>
    decreases k,
{
    if k <= 0 {
        Seq::empty()
    } else {
        let rest = skipped_of(cs, n, k - 1);
        if cs[k - 1].resolvable(n) {
            rest
        } else {
            rest.push((k - 1) as usize)
        }
    }
}

/// One whole tick over the particle store: integration, then the iterative
/// solver, then — where a domain is given — the boundary resolver. `None`
/// where a stored scalar would have left the representable range.
pub open spec fn tick_particles(
    ps: Seq<Particle>,
    cs: Seq<Constraint>,
    cfg: TickConfig,
    mode: IntegrationMode,
) -> Option<Seq<Particle>> {
    match integrate_all(ps, cfg.dt as int, cfg.acceleration) {
        None => None,
        Some(ps1) => match solve_iterations(
            ps1,
            cs,
            cfg.iterations as int,
            cfg.multiplier as int,
            mode,
        ) {
            None => None,
            Some(ps2) => match cfg.bounds {
                None => Some(ps2),
                Some(b) => bounce_all(ps2, b),
            },
        },
    }
}

/// The particle store after `n` ticks of the same configuration, or `None`
/// where some tick would have left the representable range.
pub open spec fn tick_n(
    ps: Seq<Particle>,
    cs: Seq<Constraint>,
    cfg: TickConfig,
    mode: IntegrationMode,
    n: nat,
) -> Option<Seq<Particle>>
    decreases n,
{
    if n == 0 {
        Some(ps)
    } else {
        match tick_n(ps, cs, cfg, mode, (n - 1) as nat) {
            None => None,
            Some(ps1) => tick_particles(ps1, cs, cfg, mode),
        }
    }
}

/// Which error, if any, refuses this particle configuration.
pub open spec fn particle_create_error(
    position: Vec2,
    mass: i64,
    radius: i64,
    friction: i64,
) -> Option<ConfigurationError> {
    if mass <= 0 {
        Some(ConfigurationError::NonPositiveMass)
    } else if !(0 < friction <= SCALE) {
        Some(ConfigurationError::CoefficientOutOfRange)
    } else if mass > LIMIT || radius < 0 || radius > LIMIT || !position.in_range() {
        Some(ConfigurationError::OutOfRange)
    } else {
        None
    }
}

/// Which error, if any, refuses this constraint configuration. Whether the
/// endpoints exist is deliberately not checked here: a constraint may be
/// created before its particles, and one that still dangles when a tick
/// runs is reported as a data fault and skipped.
pub open spec fn constraint_create_error(
    a: usize,
    b: usize,
    rest_length: i64,
    strength: i64,
) -> Option<ConfigurationError> {
    if a == b {
        Some(ConfigurationError::EqualEndpoints)
    } else if !(0 < strength <= SCALE) {
        Some(ConfigurationError::CoefficientOutOfRange)
    } else if rest_length < 0 || rest_length > LIMIT {
        Some(ConfigurationError::OutOfRange)
    } else {
        None
    }
}

impl World {
    /// The world's invariant: every particle and constraint is well formed
    /// and every particle's motion variant agrees with the mode.
    pub open spec fn wf(self) -> bool {
        particles_wf(self.particles@, self.mode) && constraints_wf(self.constraints@)
    }

    /// The motion a newly created particle starts from: at rest.
    pub open spec fn rest_motion(mode: IntegrationMode, position: Vec2) -> Motion {
        match mode {
            IntegrationMode::SemiImplicitEuler => Motion::Velocity(Vec2 { x: 0, y: 0 }),
            IntegrationMode::PositionHistory => Motion::History(position),
        }
    }

    /// An empty world.
    pub fn new(mode: IntegrationMode) -> (w: World)
        ensures
            w.wf(),
            w.mode == mode,
            w.particles@.len() == 0,
            w.constraints@.len() == 0,
    {
        World { mode, particles: Vec::new(), constraints: Vec::new() }
    }

    /// Creates a particle at rest and returns its identifier. Fails, and
    /// changes nothing, exactly on a non-positive mass, a friction
    /// coefficient outside (0, 1], or a scalar out of range.
    pub fn create_particle(&mut self, position: Vec2, mass: i64, radius: i64, friction: i64) -> (r:
        Result<usize, ConfigurationError>)
        requires
            old(self).wf(),
        ensures
            final(self).wf(),
            final(self).mode == old(self).mode,
            final(self).constraints@ == old(self).constraints@,
            match particle_create_error(position, mass, radius, friction) {
                Some(e) => r == Result::<usize, ConfigurationError>::Err(e) && *final(self) == *old(
                    self,
                ),
                None => r == Result::<usize, ConfigurationError>::Ok(old(self).particles@.len() as usize)
                    && final(self).particles@ == old(self).particles@.push(
                    Particle {
                        position,
                        motion: Self::rest_motion(old(self).mode, position),
                        radius,
                        mass,
                        friction,
                    },
                ),
            },
    {
        if mass <= 0 {
            return Err(ConfigurationError::NonPositiveMass);
        }
        if !(0 < friction && friction <= SCALE) {
            return Err(ConfigurationError::CoefficientOutOfRange);
        }
        if mass > LIMIT || radius < 0 || radius > LIMIT || position.x > LIMIT || position.x < -LIMIT
            || position.y > LIMIT || position.y < -LIMIT {
            return Err(ConfigurationError::OutOfRange);
        }
        let id = self.particles.len();
        let motion = match self.mode {
            IntegrationMode::SemiImplicitEuler => Motion::Velocity(Vec2 { x: 0, y: 0 }),
            IntegrationMode::PositionHistory => Motion::History(position),
        };
        self.particles.push(Particle { position, motion, radius, mass, friction });
        proof {
            assert forall|i: int| 0 <= i < self.particles@.len() implies (#[trigger] self.particles@[i]).wf()
                && self.particles@[i].motion.matches_mode(self.mode) by {
                if i < old(self).particles@.len() {
                    assert(old(self).particles@[i].wf());
                    assert(old(self).particles@[i].motion.matches_mode(old(self).mode));
                }
            }
        }
        Ok(id)
    }

    /// Creates a distance constraint and returns its identifier. Fails, and
    /// changes nothing, exactly on equal endpoints, a strength coefficient
    /// outside (0, 1], or a rest length out of range.
    pub fn create_constraint(&mut self, a: usize, b: usize, rest_length: i64, strength: i64) -> (r:
        Result<usize, ConfigurationError>)
        requires
            old(self).wf(),
        ensures
            final(self).wf(),
            final(self).mode == old(self).mode,
            final(self).particles@ == old(self).particles@,
            match constraint_create_error(a, b, rest_length, strength) {
                Some(e) => r == Result::<usize, ConfigurationError>::Err(e) && *final(self) == *old(
                    self,
                ),
                None => r == Result::<usize, ConfigurationError>::Ok(old(self).constraints@.len() as usize)
                    && final(self).constraints@ == old(self).constraints@.push(
                    Constraint { a, b, rest_length, strength },
                ),
            },
    {
        if a == b {
            return Err(ConfigurationError::EqualEndpoints);
        }
        if !(0 < strength && strength <= SCALE) {
            return Err(ConfigurationError::CoefficientOutOfRange);
        }
        if rest_length < 0 || rest_length > LIMIT {
            return Err(ConfigurationError::OutOfRange);
        }
        let id = self.constraints.len();
        self.constraints.push(Constraint { a, b, rest_length, strength });
        proof {
            assert forall|i: int| 0 <= i < self.constraints@.len() implies (#[trigger] self.constraints@[i]).wf() by {
                if i < old(self).constraints@.len() {
                    assert(old(self).constraints@[i].wf());
                }
            }
        }
        Ok(id)
    }

    /// The particle with this identifier, or `None` where none exists.
    pub fn get_particle(&self, id: usize) -> (r: Option<Particle>)
        ensures
            id < self.particles@.len() ==> r == Some(self.particles@[id as int]),
            id >= self.particles@.len() ==> r is None,
    {
        if id < self.particles.len() {
            Some(self.particles[id])
        } else {
            None
        }
    }

    /// The constraint with this identifier, or `None` where none exists.
    pub fn get_constraint(&self, id: usize) -> (r: Option<Constraint>)
        ensures
            id < self.constraints@.len() ==> r == Some(self.constraints@[id as int]),
            id >= self.constraints@.len() ==> r is None,
    {
        if id < self.constraints.len() {
            Some(self.constraints[id])
        } else {
            None
        }
    }

    pub fn particle_count(&self) -> (n: usize)
        ensures
            n == self.particles@.len(),
    {
        self.particles.len()
    }

    pub fn constraint_count(&self) -> (n: usize)
        ensures
            n == self.constraints@.len(),
    {
        self.constraints.len()
    }

    /// The particle store in creation order, as one copy.
    pub fn enumerate_particles(&self) -> (r: Vec<Particle>)
        ensures
            r@ == self.particles@,
    {
        let mut out: Vec<Particle> = Vec::new();
        let mut i: usize = 0;
        while i < self.particles.len()
            invariant
                i <= self.particles@.len(),
                out@ == self.particles@.take(i as int),
            decreases self.particles@.len() - i,
        {
            out.push(self.particles[i]);
            i += 1;
            proof {
                assert(out@ =~= self.particles@.take(i as int));
            }
        }
        proof {
            assert(out@ =~= self.particles@);
        }
        out
    }

    /// The constraint store in creation order, as one copy.
    pub fn enumerate_constraints(&self) -> (r: Vec<Constraint>)
        ensures
            r@ == self.constraints@,
    {
        let mut out: Vec<Constraint> = Vec::new();
        let mut i: usize = 0;
        while i < self.constraints.len()
            invariant
                i <= self.constraints@.len(),
                out@ == self.constraints@.take(i as int),
            decreases self.constraints@.len() - i,
        {
            out.push(self.constraints[i]);
            i += 1;
            proof {
                assert(out@ =~= self.constraints@.take(i as int));
            }
        }
        proof {
            assert(out@ =~= self.constraints@);
        }
        out
    }

    /// Sets a particle's velocity. Where the velocity is implicit, the
    /// previous position is set so that the implicit velocity equals `v`.
    /// Fails, and changes nothing, exactly on an unknown identifier, a
    /// component out of range, or an implied previous position out of range.
    pub fn set_velocity(&mut self, id: usize, v: Vec2) -> (r: Result<(), ConfigurationError>)
        requires
            old(self).wf(),
        ensures
            final(self).wf(),
            final(self).mode == old(self).mode,
            final(self).constraints@ == old(self).constraints@,
            id >= old(self).particles@.len() ==> r == Result::<(), ConfigurationError>::Err(
                ConfigurationError::UnknownParticle,
            ) && *final(self) == *old(self),
            id < old(self).particles@.len() ==> {
                let p = old(self).particles@[id as int];
                let m = match old(self).mode {
                    IntegrationMode::SemiImplicitEuler => Motion::Velocity(v),
                    IntegrationMode::PositionHistory => Motion::History(
                        Vec2 {
                            x: (p.position.x - v.x) as i64,
                            y: (p.position.y - v.y) as i64,
                        },
                    ),
                };
                if !v.in_range() || !m.vector().in_range() {
                    r == Result::<(), ConfigurationError>::Err(ConfigurationError::OutOfRange)
                        && *final(self) == *old(self)
                } else {
                    r == Result::<(), ConfigurationError>::Ok(()) && final(self).particles@ == old(
                        self,
                    ).particles@.update(
                        id as int,
                        Particle {
                            position: p.position,
                            motion: m,
                            radius: p.radius,
                            mass: p.mass,
                            friction: p.friction,
                        },
                    )
                }
            },
    {
        if id >= self.particles.len() {
            return Err(ConfigurationError::UnknownParticle);
        }
        if v.x > LIMIT || v.x < -LIMIT || v.y > LIMIT || v.y < -LIMIT {
            return Err(ConfigurationError::OutOfRange);
        }
        let p: Particle = self.particles[id];
        let motion = match self.mode {
            IntegrationMode::SemiImplicitEuler => Motion::Velocity(v),
            IntegrationMode::PositionHistory => {
                let px: i128 = p.position.x as i128 - v.x as i128;
                let py: i128 = p.position.y as i128 - v.y as i128;
                if !crate::fixed::fits_limit_i128(px) || !crate::fixed::fits_limit_i128(py) {
                    return Err(ConfigurationError::OutOfRange);
                }
                Motion::History(Vec2 { x: px as i64, y: py as i64 })
            }
        };
        let q = Particle {
            position: p.position,
            motion,
            radius: p.radius,
            mass: p.mass,
            friction: p.friction,
        };
        self.particles[id] = q;
        proof {
            assert forall|i: int| 0 <= i < self.particles@.len() implies (#[trigger] self.particles@[i]).wf()
                && self.particles@[i].motion.matches_mode(self.mode) by {
                assert(old(self).particles@[i].wf());
                assert(old(self).particles@[i].motion.matches_mode(old(self).mode));
            }
        }
        Ok(())
    }

    /// Moves a particle. Fails, and changes nothing, exactly on an unknown
    /// identifier or a component out of range.
    pub fn set_position(&mut self, id: usize, position: Vec2) -> (r: Result<
        (),
        ConfigurationError,
    >)
        requires
            old(self).wf(),
        ensures
            final(self).wf(),
            final(self).mode == old(self).mode,
            final(self).constraints@ == old(self).constraints@,
            id >= old(self).particles@.len() ==> r == Result::<(), ConfigurationError>::Err(
                ConfigurationError::UnknownParticle,
            ) && *final(self) == *old(self),
            id < old(self).particles@.len() && !position.in_range() ==> r == Result::<
                (),
                ConfigurationError,
            >::Err(ConfigurationError::OutOfRange) && *final(self) == *old(self),
            id < old(self).particles@.len() && position.in_range() ==> r == Result::<
                (),
                ConfigurationError,
            >::Ok(()) && final(self).particles@ == old(self).particles@.update(
                id as int,
                (Particle {
                    position,
                    motion: old(self).particles@[id as int].motion,
                    radius: old(self).particles@[id as int].radius,
                    mass: old(self).particles@[id as int].mass,
                    friction: old(self).particles@[id as int].friction,
                }),
            ),
    {
        if id >= self.particles.len() {
            return Err(ConfigurationError::UnknownParticle);
        }
        if position.x > LIMIT || position.x < -LIMIT || position.y > LIMIT || position.y < -LIMIT {
            return Err(ConfigurationError::OutOfRange);
        }
        let p: Particle = self.particles[id];
        let q = Particle {
            position,
            motion: p.motion,
            radius: p.radius,
            mass: p.mass,
            friction: p.friction,
        };
        self.particles[id] = q;
        proof {
            assert forall|i: int| 0 <= i < self.particles@.len() implies (#[trigger] self.particles@[i]).wf()
                && self.particles@[i].motion.matches_mode(self.mode) by {
                assert(old(self).particles@[i].wf());
                assert(old(self).particles@[i].motion.matches_mode(old(self).mode));
            }
        }
        Ok(())
    }

    /// Advances the world by one tick: integration, `cfg.iterations` solver
    /// passes, then boundary resolution where a domain is given. Mutates the
    /// particle store in place and reports the constraints skipped as data
    /// faults. Fails fast, changing nothing, on an invalid configuration;
    /// fails, changing nothing, where a stored scalar would have left the
    /// representable range.
    pub fn advance_tick(&mut self, cfg: &TickConfig) -> (r: Result<
        Diagnostics,
        ConfigurationError,
    >)
        requires
            old(self).wf(),
        ensures
            final(self).wf(),
            final(self).mode == old(self).mode,
            final(self).constraints@ == old(self).constraints@,
            !cfg.valid() ==> r == Result::<Diagnostics, ConfigurationError>::Err(
                ConfigurationError::InvalidTick,
            ) && *final(self) == *old(self),
            cfg.valid() ==> match tick_particles(
                old(self).particles@,
                old(self).constraints@,
                *cfg,
                old(self).mode,
            ) {
                None => r == Result::<Diagnostics, ConfigurationError>::Err(
                    ConfigurationError::OutOfRange,
                ) && *final(self) == *old(self),
                Some(ps) => final(self).particles@ == ps && match r {
                    Ok(d) => d.skipped@ == skipped_of(
                        old(self).constraints@,
                        old(self).particles@.len() as int,
                        old(self).constraints@.len() as int,
                    ),
                    Err(_) => false,
                },
            },
    {
        let ok_bounds = match &cfg.bounds {
            None => true,
            Some(b) => 0 <= b.half_x && b.half_x <= LIMIT && 0 <= b.half_y && b.half_y <= LIMIT
                && b.restitution <= SCALE && b.restitution >= -SCALE,
        };
        if !(0 <= cfg.dt && cfg.dt <= LIMIT && 0 < cfg.multiplier && cfg.multiplier <= 8 * SCALE
            && cfg.acceleration.x <= LIMIT && cfg.acceleration.x >= -LIMIT && cfg.acceleration.y
            <= LIMIT && cfg.acceleration.y >= -LIMIT && ok_bounds) {
            return Err(ConfigurationError::InvalidTick);
        }
        let n = self.particles.len();
        let mut skipped: Vec<usize> = Vec::new();
        let mut j: usize = 0;
        while j < self.constraints.len()
            invariant
                j <= self.constraints@.len(),
                n == self.particles@.len(),
                skipped@ == skipped_of(self.constraints@, n as int, j as int),
            decreases self.constraints@.len() - j,
        {
            let c: Constraint = self.constraints[j];
            if !(c.a < n && c.b < n) {
                skipped.push(j);
            }
            j += 1;
        }
        let mut ps: Vec<Particle> = self.copy_particles();
        if !integrate(&mut ps, cfg.dt, cfg.acceleration, self.mode) {
            return Err(ConfigurationError::OutOfRange);
        }
        if !solve(&mut ps, &self.constraints, cfg.iterations, cfg.multiplier, self.mode) {
            return Err(ConfigurationError::OutOfRange);
        }
        match &cfg.bounds {
            None => {}
            Some(b) => {
                if !resolve_bounds(&mut ps, b, self.mode) {
                    return Err(ConfigurationError::OutOfRange);
                }
            }
        }
        self.particles = ps;
        Ok(Diagnostics { skipped })
    }

    /// A working copy of the particle store.
    fn copy_particles(&self) -> (r: Vec<Particle>)
        ensures
            r@ == self.particles@,
    {
        let mut out: Vec<Particle> = Vec::new();
        let mut i: usize = 0;
        while i < self.particles.len()
            invariant
                i <= self.particles@.len(),
                out@ == self.particles@.take(i as int),
            decreases self.particles@.len() - i,
        {
            out.push(self.particles[i]);
            i += 1;
            proof {
                assert(out@ =~= self.particles@.take(i as int));
            }
        }
        proof {
            assert(out@ =~= self.particles@);
        }
        out
    }
}

} // verus!
