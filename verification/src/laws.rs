//! The library's stated laws: properties of the simulation that hold for
//! every input, each proved here as a public proof function over the same
//! spec functions that the executable functions' contracts use.

use vstd::prelude::*;
use crate::boundary::{bounce_particle, clamp_axis, eff_bound};
use crate::fixed::{
    LIMIT, SCALE, lemma_div_trunc_exact, mag, mul_fx, sqrt_floor,
};
use crate::integrator::{integrate_particle, integrate_prefix};
use crate::solver::{solve_constraint, solve_iterations, solve_prefix};
use crate::state::{
    Bounds, Constraint, IntegrationMode, Motion, Particle, TickConfig, Vec2, particles_wf,
};
use crate::world::{World, skipped_of, tick_n, tick_particles};

verus! {

/// Every particle a well-formed world holds has a positive mass; together
/// with `create_particle`'s contract — which admits a particle if and only
/// if its mass is positive — no particle with mass at or below zero ever
/// exists.
pub proof fn lemma_masses_positive(w: World)
    requires
        w.wf(),
    ensures
        forall|i: int| 0 <= i < w.particles@.len() ==> (#[trigger] w.particles@[i]).mass > 0,
{
}

/// A particle at rest: its stored velocity is zero, or its previous
/// position coincides with its position, so its implicit velocity is zero.
pub open spec fn at_rest(p: Particle) -> bool {
    match p.motion {
        Motion::Velocity(v) => v.x == 0 && v.y == 0,
        Motion::History(prev) => prev == p.position,
    }
}

/// Integrating a resting particle with no acceleration changes nothing.
proof fn lemma_integrate_rest(p: Particle, dt: int)
    requires
        p.wf(),
        at_rest(p),
        0 <= dt <= LIMIT,
    ensures
        integrate_particle(p, dt, Vec2 { x: 0, y: 0 }) == Some(p),
{
    assert(0int / (SCALE as int) == 0) by (nonlinear_arith);
    match p.motion {
        Motion::Velocity(v) => {
            assert(mul_fx(0, dt) == 0);
            assert(mul_fx(0, p.friction as int) == 0);
            assert(v == (Vec2 { x: 0, y: 0 }));
        }
        Motion::History(prev) => {
            assert(mul_fx(0, p.friction as int) == 0);
        }
    }
}

/// Integrating a store of resting particles with no acceleration changes
/// nothing.
proof fn lemma_integrate_prefix_rest(ps: Seq<Particle>, k: int, dt: int, mode: IntegrationMode)
    requires
        particles_wf(ps, mode),
        0 <= dt <= LIMIT,
        0 <= k <= ps.len(),
        forall|i: int| 0 <= i < ps.len() ==> at_rest(#[trigger] ps[i]),
    ensures
        integrate_prefix(ps, k, dt, Vec2 { x: 0, y: 0 }) == Some(ps),
    decreases k,
{
    if k > 0 {
        lemma_integrate_prefix_rest(ps, k - 1, dt, mode);
        lemma_integrate_rest(ps[k - 1], dt);
        assert(ps.update(k - 1, ps[k - 1]) =~= ps);
    }
}

/// With no constraints, any number of solver passes changes nothing.
proof fn lemma_solver_empty(ps: Seq<Particle>, cs: Seq<Constraint>, iters: int, mult: int, mode: IntegrationMode)
    requires
        cs.len() == 0,
        iters >= 0,
    ensures
        solve_iterations(ps, cs, iters, mult, mode) == Some(ps),
    decreases iters,
{
    if iters > 0 {
        lemma_solver_empty(ps, cs, iters - 1, mult, mode);
    }
}

/// Rest-state idempotence: in a world with no constraints whose particles
/// are all at rest, a tick with no acceleration and no domain leaves the
/// particle store — positions included — exactly unchanged.
pub proof fn lemma_rest_state_fixed(w: World, cfg: TickConfig)
    requires
        w.wf(),
        cfg.valid(),
        cfg.bounds is None,
        cfg.acceleration == (Vec2 { x: 0, y: 0 }),
        w.constraints@.len() == 0,
        forall|i: int| 0 <= i < w.particles@.len() ==> at_rest(#[trigger] w.particles@[i]),
    ensures
        tick_particles(w.particles@, w.constraints@, cfg, w.mode) == Some(w.particles@),
{
    lemma_integrate_prefix_rest(w.particles@, w.particles@.len() as int, cfg.dt as int, w.mode);
    lemma_solver_empty(
        w.particles@,
        w.constraints@,
        cfg.iterations as int,
        cfg.multiplier as int,
        w.mode,
    );
}

/// A particle inside its effective domain is untouched by the boundary
/// resolver.
proof fn lemma_bounce_inside(p: Particle, b: Bounds)
    requires
        p.wf(),
        b.valid(),
        mag(p.position.x as int) <= eff_bound(b.half_x as int, p.radius as int),
        mag(p.position.y as int) <= eff_bound(b.half_y as int, p.radius as int),
    ensures
        bounce_particle(p, b) == Some(p),
{
}

/// A store of particles inside their effective domain is untouched by the
/// boundary resolver.
proof fn lemma_bounce_prefix_inside(ps: Seq<Particle>, k: int, b: Bounds, mode: IntegrationMode)
    requires
        particles_wf(ps, mode),
        b.valid(),
        0 <= k <= ps.len(),
        forall|i: int|
            0 <= i < ps.len() ==> mag((#[trigger] ps[i]).position.x as int) <= eff_bound(
                b.half_x as int,
                ps[i].radius as int,
            ) && mag(ps[i].position.y as int) <= eff_bound(b.half_y as int, ps[i].radius as int),
    ensures
        crate::boundary::bounce_prefix(ps, k, b) == Some(ps),
    decreases k,
{
    if k > 0 {
        lemma_bounce_prefix_inside(ps, k - 1, b, mode);
        lemma_bounce_inside(ps[k - 1], b);
        assert(ps.update(k - 1, ps[k - 1]) =~= ps);
    }
}

/// Rest-state idempotence under an active domain: where every resting
/// particle also stands inside its effective bounds, a tick with a domain
/// given still leaves the particle store exactly unchanged.
pub proof fn lemma_rest_state_fixed_in_bounds(w: World, cfg: TickConfig, b: Bounds)
    requires
        w.wf(),
        cfg.valid(),
        cfg.bounds == Some(b),
        cfg.acceleration == (Vec2 { x: 0, y: 0 }),
        w.constraints@.len() == 0,
        forall|i: int| 0 <= i < w.particles@.len() ==> at_rest(#[trigger] w.particles@[i]),
        forall|i: int|
            0 <= i < w.particles@.len() ==> mag(
                (#[trigger] w.particles@[i]).position.x as int,
            ) <= eff_bound(b.half_x as int, w.particles@[i].radius as int) && mag(
                w.particles@[i].position.y as int,
            ) <= eff_bound(b.half_y as int, w.particles@[i].radius as int),
    ensures
        tick_particles(w.particles@, w.constraints@, cfg, w.mode) == Some(w.particles@),
{
    lemma_integrate_prefix_rest(w.particles@, w.particles@.len() as int, cfg.dt as int, w.mode);
    lemma_solver_empty(
        w.particles@,
        w.constraints@,
        cfg.iterations as int,
        cfg.multiplier as int,
        w.mode,
    );
    lemma_bounce_prefix_inside(w.particles@, w.particles@.len() as int, b, w.mode);
}

/// Center-of-mass symmetry: where one constraint joins two particles of
/// equal mass and its relaxation goes through, the two corrections are
/// exactly equal in magnitude and opposite in direction, component by
/// component.
pub proof fn lemma_equal_mass_opposite(
    ps: Seq<Particle>,
    c: Constraint,
    mult: int,
    mode: IntegrationMode,
    ps1: Seq<Particle>,
)
    requires
        0 <= c.a < ps.len(),
        0 <= c.b < ps.len(),
        c.a != c.b,
        ps[c.a as int].mass == ps[c.b as int].mass,
        solve_constraint(ps, c, mult, mode) == Some(ps1),
    ensures
        ps1[c.a as int].correction_target(mode).x - ps[c.a as int].correction_target(mode).x == -(
        ps1[c.b as int].correction_target(mode).x - ps[c.b as int].correction_target(mode).x),
        ps1[c.a as int].correction_target(mode).y - ps[c.a as int].correction_target(mode).y == -(
        ps1[c.b as int].correction_target(mode).y - ps[c.b as int].correction_target(mode).y),
{
}

/// Mass weighting: where one constraint joins a particle of mass one to a
/// particle of nine times that mass and its relaxation goes through, the
/// light particle's correction is exactly nine times the heavy particle's,
/// opposite in direction, component by component.
pub proof fn lemma_mass_ratio_nine(
    ps: Seq<Particle>,
    c: Constraint,
    mult: int,
    mode: IntegrationMode,
    ps1: Seq<Particle>,
)
    requires
        0 <= c.a < ps.len(),
        0 <= c.b < ps.len(),
        c.a != c.b,
        ps[c.a as int].mass == SCALE,
        ps[c.b as int].mass == 9 * SCALE,
        solve_constraint(ps, c, mult, mode) == Some(ps1),
    ensures
        ps1[c.a as int].correction_target(mode).x - ps[c.a as int].correction_target(mode).x == -9
            * (ps1[c.b as int].correction_target(mode).x - ps[c.b as int].correction_target(
            mode,
        ).x),
        ps1[c.a as int].correction_target(mode).y - ps[c.a as int].correction_target(mode).y == -9
            * (ps1[c.b as int].correction_target(mode).y - ps[c.b as int].correction_target(
            mode,
        ).y),
{
    let pa = ps[c.a as int];
    let pb = ps[c.b as int];
    let dx = pb.position.x - pa.position.x;
    let dy = pb.position.y - pa.position.y;
    let dist = sqrt_floor((dx * dx + dy * dy) as nat) as int;
    if dist != 0 {
        let msum = pa.mass + pb.mass;
        let ux = crate::solver::shared_1d(
            crate::solver::offset_1d(c.rest_length as int, dist, dx, c.strength as int, mult),
            msum,
        );
        let uy = crate::solver::shared_1d(
            crate::solver::offset_1d(c.rest_length as int, dist, dy, c.strength as int, mult),
            msum,
        );
        assert(ux * (9 * SCALE) == (SCALE as int) * (9 * ux)) by (nonlinear_arith);
        assert(uy * (9 * SCALE) == (SCALE as int) * (9 * uy)) by (nonlinear_arith);
        assert(ux * (SCALE as int) == (SCALE as int) * ux) by (nonlinear_arith);
        assert(uy * (SCALE as int) == (SCALE as int) * uy) by (nonlinear_arith);
        lemma_div_trunc_exact(9 * ux, SCALE as int);
        lemma_div_trunc_exact(9 * uy, SCALE as int);
        lemma_div_trunc_exact(ux, SCALE as int);
        lemma_div_trunc_exact(uy, SCALE as int);
        assert(crate::solver::corr_1d(ux, pb.mass as int) == 9 * ux);
        assert(crate::solver::corr_1d(ux, pa.mass as int) == ux);
    }
}

/// One full solver pass over a store holding one resolvable constraint is
/// exactly one relaxation of that constraint.
pub proof fn lemma_single_constraint_pass(
    ps: Seq<Particle>,
    c: Constraint,
    mult: int,
    mode: IntegrationMode,
)
    requires
        c.resolvable(ps.len() as int),
    ensures
        solve_iterations(ps, seq![c], 1, mult, mode) == solve_constraint(ps, c, mult, mode),
{
    let cs = seq![c];
    assert(cs.len() == 1 && cs[0] == c);
    assert(solve_prefix(ps, cs, 0, mult, mode) == Some(ps));
    assert(solve_prefix(ps, cs, 1, mult, mode) == solve_constraint(ps, c, mult, mode));
    assert(solve_iterations(ps, cs, 0, mult, mode) == Some(ps));
}

/// Center-of-mass symmetry across one full iteration pass: with one
/// constraint joining two particles of equal mass, the pass displaces the
/// two by exactly opposite vectors.
pub proof fn lemma_equal_mass_opposite_pass(
    ps: Seq<Particle>,
    c: Constraint,
    mult: int,
    mode: IntegrationMode,
    ps1: Seq<Particle>,
)
    requires
        0 <= c.a < ps.len(),
        0 <= c.b < ps.len(),
        c.a != c.b,
        ps[c.a as int].mass == ps[c.b as int].mass,
        solve_iterations(ps, seq![c], 1, mult, mode) == Some(ps1),
    ensures
        ps1[c.a as int].correction_target(mode).x - ps[c.a as int].correction_target(mode).x == -(
        ps1[c.b as int].correction_target(mode).x - ps[c.b as int].correction_target(mode).x),
        ps1[c.a as int].correction_target(mode).y - ps[c.a as int].correction_target(mode).y == -(
        ps1[c.b as int].correction_target(mode).y - ps[c.b as int].correction_target(mode).y),
{
    lemma_single_constraint_pass(ps, c, mult, mode);
    lemma_equal_mass_opposite(ps, c, mult, mode, ps1);
}

/// Mass weighting across one full iteration pass: with one constraint
/// joining a particle of mass one to a particle of nine times that mass,
/// the pass displaces the light particle by exactly nine times as much,
/// in the opposite direction.
pub proof fn lemma_mass_ratio_nine_pass(
    ps: Seq<Particle>,
    c: Constraint,
    mult: int,
    mode: IntegrationMode,
    ps1: Seq<Particle>,
)
    requires
        0 <= c.a < ps.len(),
        0 <= c.b < ps.len(),
        c.a != c.b,
        ps[c.a as int].mass == SCALE,
        ps[c.b as int].mass == 9 * SCALE,
        solve_iterations(ps, seq![c], 1, mult, mode) == Some(ps1),
    ensures
        ps1[c.a as int].correction_target(mode).x - ps[c.a as int].correction_target(mode).x == -9
            * (ps1[c.b as int].correction_target(mode).x - ps[c.b as int].correction_target(
            mode,
        ).x),
        ps1[c.a as int].correction_target(mode).y - ps[c.a as int].correction_target(mode).y == -9
            * (ps1[c.b as int].correction_target(mode).y - ps[c.b as int].correction_target(
            mode,
        ).y),
{
    lemma_single_constraint_pass(ps, c, mult, mode);
    lemma_mass_ratio_nine(ps, c, mult, mode, ps1);
}

/// Degenerate geometry: a constraint whose endpoints coincide is skipped —
/// its relaxation always goes through and changes nothing, and no division
/// by the zero distance is ever taken.
pub proof fn lemma_coincident_endpoints_skip(
    ps: Seq<Particle>,
    c: Constraint,
    mult: int,
    mode: IntegrationMode,
)
    requires
        0 <= c.a < ps.len(),
        0 <= c.b < ps.len(),
        ps[c.a as int].position == ps[c.b as int].position,
    ensures
        solve_constraint(ps, c, mult, mode) == Some(ps),
{
    assert(sqrt_floor(0) == 0);
}

/// Elastic boundary reflection: a stored-velocity particle whose `x`
/// coordinate exceeds its effective bound by any amount, on either side,
/// is repositioned exactly onto that bound, and under a restitution of
/// minus one its velocity's `x` component is exactly negated.
pub proof fn lemma_boundary_reflects(p: Particle, b: Bounds, v: Vec2)
    requires
        p.wf(),
        b.valid(),
        p.motion == Motion::Velocity(v),
        b.restitution == -SCALE,
        mag(p.position.x as int) > eff_bound(b.half_x as int, p.radius as int),
    ensures
        bounce_particle(p, b) matches Some(q) && q.position.x == (if p.position.x >= 0 {
            eff_bound(b.half_x as int, p.radius as int)
        } else {
            -eff_bound(b.half_x as int, p.radius as int)
        }) && q.motion.vector().x == -v.x,
{
    assert(v.x * (-SCALE) == (SCALE as int) * (-v.x)) by (nonlinear_arith);
    lemma_div_trunc_exact(-v.x, SCALE as int);
    assert(mul_fx(v.x as int, -SCALE) == -v.x);
    let ey = eff_bound(b.half_y as int, p.radius as int);
    let cy = clamp_axis(p.position.y as int, ey);
    if cy.1 {
        assert(v.y * (-SCALE) == (SCALE as int) * (-v.y)) by (nonlinear_arith);
        lemma_div_trunc_exact(-v.y, SCALE as int);
        assert(mul_fx(v.y as int, -SCALE) == -v.y);
    }
}

/// Two particle stores agree on everything the solver may not touch:
/// length, and each particle's mass, radius and friction; under stored
/// velocities also every position, and under position history also every
/// motion record.
pub open spec fn solver_untouched(ps: Seq<Particle>, ps1: Seq<Particle>, mode: IntegrationMode) -> bool {
    &&& ps1.len() == ps.len()
    &&& forall|i: int|
        0 <= i < ps.len() ==> (#[trigger] ps1[i]).mass == ps[i].mass && ps1[i].radius == ps[
            i
        ].radius && ps1[i].friction == ps[i].friction
    &&& mode == IntegrationMode::SemiImplicitEuler ==> forall|i: int|
        0 <= i < ps.len() ==> (#[trigger] ps1[i]).position == ps[i].position
    &&& mode == IntegrationMode::PositionHistory ==> forall|i: int|
        0 <= i < ps.len() ==> (#[trigger] ps1[i]).motion == ps[i].motion
}

proof fn lemma_untouched_constraint(
    ps: Seq<Particle>,
    c: Constraint,
    mult: int,
    mode: IntegrationMode,
    ps1: Seq<Particle>,
)
    requires
        c.resolvable(ps.len() as int),
        solve_constraint(ps, c, mult, mode) == Some(ps1),
    ensures
        solver_untouched(ps, ps1, mode),
{
}

proof fn lemma_untouched_prefix(
    ps: Seq<Particle>,
    cs: Seq<Constraint>,
    k: int,
    mult: int,
    mode: IntegrationMode,
    ps1: Seq<Particle>,
)
    requires
        solve_prefix(ps, cs, k, mult, mode) == Some(ps1),
    ensures
        solver_untouched(ps, ps1, mode),
    decreases k,
{
    if k <= 0 {
    } else {
        match solve_prefix(ps, cs, k - 1, mult, mode) {
            Some(psm) => {
                lemma_untouched_prefix(ps, cs, k - 1, mult, mode, psm);
                if cs[k - 1].resolvable(psm.len() as int) {
                    lemma_untouched_constraint(psm, cs[k - 1], mult, mode, ps1);
                }
            }
            None => {
                assert(false);
            }
        }
    }
}

/// The solver changes nothing but its correction targets: however many
/// passes run, every particle keeps its mass, radius and friction; under
/// stored velocities no position moves, and under position history no
/// stored motion record changes.
pub proof fn lemma_solver_touches_only_targets(
    ps: Seq<Particle>,
    cs: Seq<Constraint>,
    iters: int,
    mult: int,
    mode: IntegrationMode,
    ps1: Seq<Particle>,
)
    requires
        solve_iterations(ps, cs, iters, mult, mode) == Some(ps1),
    ensures
        solver_untouched(ps, ps1, mode),
    decreases iters,
{
    if iters <= 0 {
    } else {
        match solve_iterations(ps, cs, iters - 1, mult, mode) {
            Some(psm) => {
                lemma_solver_touches_only_targets(ps, cs, iters - 1, mult, mode, psm);
                lemma_untouched_prefix(psm, cs, cs.len() as int, mult, mode, ps1);
            }
            None => {
                assert(false);
            }
        }
    }
}

/// Data-fault reporting is exact: the diagnostics of a tick name an index
/// if and only if that constraint names a missing particle, and they name
/// it exactly once, in constraint-store order.
pub proof fn lemma_skipped_exact(cs: Seq<Constraint>, n: int, k: int)
    requires
        0 <= k <= cs.len(),
        cs.len() <= usize::MAX,
    ensures
        forall|m: int|
            0 <= m < skipped_of(cs, n, k).len() ==> (#[trigger] skipped_of(cs, n, k)[m]) < k && !cs[
                skipped_of(cs, n, k)[m] as int
            ].resolvable(n),
        forall|j: int|
            0 <= j < k && !cs[j].resolvable(n) ==> skipped_of(cs, n, k).contains(j as usize),
        forall|m1: int, m2: int|
            0 <= m1 < m2 < skipped_of(cs, n, k).len() ==> (#[trigger] skipped_of(cs, n, k)[m1]) < (
            #[trigger] skipped_of(cs, n, k)[m2]),
    decreases k,
{
    if k > 0 {
        lemma_skipped_exact(cs, n, k - 1);
        let prev = skipped_of(cs, n, k - 1);
        let cur = skipped_of(cs, n, k);
        assert(((k - 1) as usize) as int == k - 1);
        if !cs[k - 1].resolvable(n) {
            assert(cur == prev.push((k - 1) as usize));
            assert(cur[cur.len() - 1] == (k - 1) as usize);
            assert forall|j: int|
                0 <= j < k && !cs[j].resolvable(n) implies cur.contains(j as usize) by {
                if j < k - 1 {
                    let w = choose|w: int| 0 <= w < prev.len() && prev[w] == j as usize;
                    assert(cur[w] == j as usize);
                } else {
                    assert(cur[cur.len() - 1] == j as usize);
                }
            }
        } else {
            assert forall|j: int|
                0 <= j < k && !cs[j].resolvable(n) implies cur.contains(j as usize) by {
                let w = choose|w: int| 0 <= w < prev.len() && prev[w] == j as usize;
                assert(cur[w] == j as usize);
            }
        }
    }
}

/// Determinism: the state after any number of ticks is a pure function of
/// the initial stores, the mode, and the tick configuration — two worlds
/// that start equal and are driven alike stay equal for every tick count.
/// `advance_tick` ensures its result equals `tick_particles` of its inputs,
/// so two independent runs can never diverge.
pub proof fn lemma_deterministic(w1: World, w2: World, cfg: TickConfig, n: nat)
    requires
        w1.particles@ == w2.particles@,
        w1.constraints@ == w2.constraints@,
        w1.mode == w2.mode,
    ensures
        tick_n(w1.particles@, w1.constraints@, cfg, w1.mode, n) == tick_n(
            w2.particles@,
            w2.constraints@,
            cfg,
            w2.mode,
            n,
        ),
{
}

} // verus!
