//! The iterative constraint solver: Gauss-Seidel-style relaxation. Each
//! pass walks the constraints in creation order and nudges both endpoints
//! of each toward the rest length; repeated passes converge. Corrections
//! are split by inverse mass, so the heavier endpoint moves less.

use vstd::prelude::*;
use crate::fixed::{
    LIMIT, SCALE, div_trunc, div_trunc_i128, fits_limit_i128, isqrt_u128, lemma_component_le_sqrt,
    lemma_div_trunc_bound, lemma_div_trunc_mag, lemma_mul_mag, mag, sqrt_floor,
};
use crate::state::{Constraint, IntegrationMode, Particle, Vec2, constraints_wf, particles_wf};

verus! {

/// One axis of the raw correction offset: the stretch `(rest - dist)`,
/// projected on this axis by `delta / dist`, scaled by the constraint's
/// strength and the mode's multiplier, and halved to split it over the two
/// endpoints.
pub open spec fn offset_1d(rest: int, dist: int, delta: int, strength: int, mult: int) -> int {
    div_trunc(
        div_trunc((rest - dist) * delta, dist) * strength * mult,
        2 * (SCALE as int) * (SCALE as int),
    )
}

/// The offset divided by the summed mass: the correction each unit of the
/// other endpoint's mass will receive.
pub open spec fn shared_1d(offset: int, msum: int) -> int {
    div_trunc(offset * (SCALE as int), msum)
}

/// The correction one endpoint receives: the shared per-mass quotient times
/// the mass of the other endpoint, so that the quotients of the two
/// endpoints stand in the inverse ratio of their masses.
pub open spec fn corr_1d(shared: int, m_other: int) -> int {
    div_trunc(shared * m_other, SCALE as int)
}

/// One relaxation of one constraint. Coinciding endpoints are degenerate
/// geometry: the constraint is skipped for this iteration and nothing
/// changes. `None` where a corrected scalar would leave the representable
/// range; the caller then abandons the tick.
pub open spec fn solve_constraint(
    ps: Seq<Particle>,
    c: Constraint,
    mult: int,
    mode: IntegrationMode,
) -> Option<Seq<Particle>> {
    let pa = ps[c.a as int];
    let pb = ps[c.b as int];
    let dx = pb.position.x - pa.position.x;
    let dy = pb.position.y - pa.position.y;
    let dist = sqrt_floor((dx * dx + dy * dy) as nat) as int;
    if dist == 0 {
        Some(ps)
    } else {
        let msum = pa.mass + pb.mass;
        let ux = shared_1d(offset_1d(c.rest_length as int, dist, dx, c.strength as int, mult), msum);
        let uy = shared_1d(offset_1d(c.rest_length as int, dist, dy, c.strength as int, mult), msum);
        let cax = corr_1d(ux, pb.mass as int);
        let cay = corr_1d(uy, pb.mass as int);
        let cbx = corr_1d(ux, pa.mass as int);
        let cby = corr_1d(uy, pa.mass as int);
        let ta = pa.correction_target(mode);
        let tb = pb.correction_target(mode);
        let nax = ta.x - cax;
        let nay = ta.y - cay;
        let nbx = tb.x + cbx;
        let nby = tb.y + cby;
        if mag(nax) > LIMIT || mag(nay) > LIMIT || mag(nbx) > LIMIT || mag(nby) > LIMIT {
            None
        } else {
            Some(
                ps.update(
                    c.a as int,
                    pa.with_correction_target(mode, Vec2 { x: nax as i64, y: nay as i64 }),
                ).update(
                    c.b as int,
                    pb.with_correction_target(mode, Vec2 { x: nbx as i64, y: nby as i64 }),
                ),
            )
        }
    }
}

/// The first `k` constraints of one relaxation pass, applied in creation
/// order; a constraint naming a missing particle is skipped.
pub open spec fn solve_prefix(
    ps: Seq<Particle>,
    cs: Seq<Constraint>,
    k: int,
    mult: int,
    mode: IntegrationMode,
) -> Option<Seq<Particle>>
    decreases k,
{
    if k <= 0 {
        Some(ps)
    } else {
        match solve_prefix(ps, cs, k - 1, mult, mode) {
            None => None,
            Some(ps1) => {
                let c = cs[k - 1];
                if c.resolvable(ps1.len() as int) {
                    solve_constraint(ps1, c, mult, mode)
                } else {
                    Some(ps1)
                }
            }
        }
    }
}

/// `iters` full relaxation passes.
pub open spec fn solve_iterations(
    ps: Seq<Particle>,
    cs: Seq<Constraint>,
    iters: int,
    mult: int,
    mode: IntegrationMode,
) -> Option<Seq<Particle>>
    decreases iters,
{
    if iters <= 0 {
        Some(ps)
    } else {
        match solve_iterations(ps, cs, iters - 1, mult, mode) {
            None => None,
            Some(ps1) => solve_prefix(ps1, cs, cs.len() as int, mult, mode),
        }
    }
}

/// Once a pass prefix has failed, every longer prefix fails.
pub proof fn lemma_prefix_none(
    ps: Seq<Particle>,
    cs: Seq<Constraint>,
    k1: int,
    k2: int,
    mult: int,
    mode: IntegrationMode,
)
    requires
        0 <= k1 <= k2,
        solve_prefix(ps, cs, k1, mult, mode) is None,
    ensures
        solve_prefix(ps, cs, k2, mult, mode) is None,
    decreases k2,
{
    if k1 < k2 {
        lemma_prefix_none(ps, cs, k1, k2 - 1, mult, mode);
    }
}

/// Once an iteration has failed, every longer run of iterations fails.
pub proof fn lemma_iterations_none(
    ps: Seq<Particle>,
    cs: Seq<Constraint>,
    i1: int,
    i2: int,
    mult: int,
    mode: IntegrationMode,
)
    requires
        0 <= i1 <= i2,
        solve_iterations(ps, cs, i1, mult, mode) is None,
    ensures
        solve_iterations(ps, cs, i2, mult, mode) is None,
    decreases i2,
{
    if i1 < i2 {
        lemma_iterations_none(ps, cs, i1, i2 - 1, mult, mode);
    }
}

/// The mass-weighted corrections of one axis: the correction of endpoint
/// `a` (scaled by `b`'s mass) and of endpoint `b` (scaled by `a`'s mass).
fn axis_correction(rest: i64, dist: i128, delta: i128, strength: i64, mult: i64, ma: i64, mb: i64)
    -> (r: (i128, i128))
    requires
        0 < dist <= 4 * (LIMIT as int),
        mag(delta as int) <= dist,
        0 <= rest <= LIMIT,
        0 < strength <= SCALE,
        0 < mult <= 8 * SCALE,
        0 < ma <= LIMIT,
        0 < mb <= LIMIT,
    ensures
        r.0 == corr_1d(
            shared_1d(
                offset_1d(rest as int, dist as int, delta as int, strength as int, mult as int),
                ma + mb,
            ),
            mb as int,
        ),
        r.1 == corr_1d(
            shared_1d(
                offset_1d(rest as int, dist as int, delta as int, strength as int, mult as int),
                ma + mb,
            ),
            ma as int,
        ),
        mag(r.0 as int) <= 0x1_0000_0000_0000_0000_0000_0000,
        mag(r.1 as int) <= 0x1_0000_0000_0000_0000_0000_0000,
{
    let rd: i128 = rest as i128 - dist;
    proof {
        lemma_mul_mag(rd as int, delta as int, 5 * (LIMIT as int), 4 * (LIMIT as int));
    }
    let num: i128 = rd * delta;
    let o1: i128 = div_trunc_i128(num, dist);
    proof {
        lemma_div_trunc_mag(num as int, dist as int);
        lemma_mul_mag(rd as int, delta as int, mag(rd as int), dist as int);
        assert(mag(rd as int) * (dist as int) == (dist as int) * mag(rd as int))
            by (nonlinear_arith);
        vstd::arithmetic::div_mod::lemma_div_is_ordered(
            mag(num as int),
            (dist as int) * mag(rd as int),
            dist as int,
        );
        vstd::arithmetic::div_mod::lemma_div_multiples_vanish(mag(rd as int), dist as int);
        assert(mag(o1 as int) <= mag(rd as int));
        lemma_mul_mag(o1 as int, strength as int, 5 * (LIMIT as int), SCALE as int);
        lemma_mul_mag(
            o1 as int * strength as int,
            mult as int,
            5 * (LIMIT as int) * (SCALE as int),
            8 * (SCALE as int),
        );
    }
    let t: i128 = o1 * (strength as i128) * (mult as i128);
    let den: i128 = 2 * (SCALE as i128) * (SCALE as i128);
    let ox: i128 = div_trunc_i128(t, den);
    let msum: i128 = ma as i128 + mb as i128;
    proof {
        lemma_mul_mag(ox as int, SCALE as int, mag(t as int), SCALE as int);
    }
    let oxs: i128 = ox * (SCALE as i128);
    let u: i128 = div_trunc_i128(oxs, msum);
    proof {
        lemma_div_trunc_bound(oxs as int, msum as int);
        assert(mag(u as int) * (mb as int) <= (msum as int) * mag(u as int)) by (nonlinear_arith)
            requires
                0 < mb as int <= msum as int,
                0 <= mag(u as int),
        ;
        assert(mag(u as int) * (ma as int) <= (msum as int) * mag(u as int)) by (nonlinear_arith)
            requires
                0 < ma as int <= msum as int,
                0 <= mag(u as int),
        ;
        lemma_mul_mag(u as int, mb as int, mag(u as int), mb as int);
        lemma_mul_mag(u as int, ma as int, mag(u as int), ma as int);
    }
    let ca: i128 = div_trunc_i128(u * (mb as i128), SCALE as i128);
    let cb: i128 = div_trunc_i128(u * (ma as i128), SCALE as i128);
    (ca, cb)
}

/// Relaxes one constraint in place. Returns `false`, leaving the particles
/// unchanged, where a corrected scalar would leave the representable range.
pub fn apply_constraint(
    ps: &mut Vec<Particle>,
    c: &Constraint,
    mult: i64,
    mode: IntegrationMode,
) -> (ok: bool)
    requires
        particles_wf(old(ps)@, mode),
        c.wf(),
        c.resolvable(old(ps)@.len() as int),
        0 < mult <= 8 * SCALE,
    ensures
        particles_wf(final(ps)@, mode),
        final(ps)@.len() == old(ps)@.len(),
        match solve_constraint(old(ps)@, *c, mult as int, mode) {
            Some(ps1) => ok && final(ps)@ == ps1,
            None => !ok && final(ps)@ == old(ps)@,
        },
{
    let pa: Particle = ps[c.a];
    let pb: Particle = ps[c.b];
    let dx: i128 = pb.position.x as i128 - pa.position.x as i128;
    let dy: i128 = pb.position.y as i128 - pa.position.y as i128;
    proof {
        lemma_mul_mag(dx as int, dx as int, 2 * (LIMIT as int), 2 * (LIMIT as int));
        lemma_mul_mag(dy as int, dy as int, 2 * (LIMIT as int), 2 * (LIMIT as int));
        assert(dx as int * dx as int >= 0 && dy as int * dy as int >= 0) by (nonlinear_arith);
    }
    let d2: u128 = (dx * dx + dy * dy) as u128;
    let dist_u: u128 = isqrt_u128(d2);
    proof {
        lemma_component_le_sqrt(dx as int, dy as int);
        if dist_u as int > 4 * (LIMIT as int) {
            assert((dist_u as int) * (dist_u as int) > (4 * (LIMIT as int)) * (4 * (LIMIT as int)))
                by (nonlinear_arith)
                requires
                    dist_u as int > 4 * (LIMIT as int),
                    LIMIT as int > 0,
            ;
            assert(false);
        }
    }
    if dist_u == 0 {
        return true;
    }
    let dist: i128 = dist_u as i128;
    let (cax, cbx) = axis_correction(c.rest_length, dist, dx, c.strength, mult, pa.mass, pb.mass);
    let (cay, cby) = axis_correction(c.rest_length, dist, dy, c.strength, mult, pa.mass, pb.mass);
    let ta: Vec2 = pa.read_correction_target(mode);
    let tb: Vec2 = pb.read_correction_target(mode);
    let nax: i128 = ta.x as i128 - cax;
    let nay: i128 = ta.y as i128 - cay;
    let nbx: i128 = tb.x as i128 + cbx;
    let nby: i128 = tb.y as i128 + cby;
    if !fits_limit_i128(nax) || !fits_limit_i128(nay) || !fits_limit_i128(nbx) || !fits_limit_i128(
        nby,
    ) {
        return false;
    }
    let new_a: Particle = pa.write_correction_target(mode, Vec2 { x: nax as i64, y: nay as i64 });
    let new_b: Particle = pb.write_correction_target(mode, Vec2 { x: nbx as i64, y: nby as i64 });
    ps[c.a] = new_a;
    ps[c.b] = new_b;
    proof {
        let ps1 = solve_constraint(old(ps)@, *c, mult as int, mode).unwrap();
        assert(ps@ =~= ps1);
        assert forall|i: int| 0 <= i < ps@.len() implies (#[trigger] ps@[i]).wf()
            && ps@[i].motion.matches_mode(mode) by {
            assert(old(ps)@[i].wf() && old(ps)@[i].motion.matches_mode(mode));
        }
    }
    true
}

/// Runs the solver: `iterations` relaxation passes over all constraints in
/// creation order. Returns `false` where the tick must be abandoned because
/// a corrected scalar left the representable range.
pub fn solve(
    ps: &mut Vec<Particle>,
    cs: &Vec<Constraint>,
    iterations: usize,
    mult: i64,
    mode: IntegrationMode,
) -> (ok: bool)
    requires
        particles_wf(old(ps)@, mode),
        constraints_wf(cs@),
        0 < mult <= 8 * SCALE,
    ensures
        particles_wf(final(ps)@, mode),
        final(ps)@.len() == old(ps)@.len(),
        match solve_iterations(old(ps)@, cs@, iterations as int, mult as int, mode) {
            Some(ps1) => ok && final(ps)@ == ps1,
            None => !ok,
        },
{
    let ghost ps0 = ps@;
    let mut it: usize = 0;
    while it < iterations
        invariant
            particles_wf(ps@, mode),
            constraints_wf(cs@),
            0 < mult <= 8 * SCALE,
            it <= iterations,
            ps0 == old(ps)@,
            ps@.len() == ps0.len(),
            solve_iterations(ps0, cs@, it as int, mult as int, mode) == Some(ps@),
        decreases iterations - it,
    {
        let ghost pass0 = ps@;
        let mut j: usize = 0;
        while j < cs.len()
            invariant
                particles_wf(ps@, mode),
                constraints_wf(cs@),
                0 < mult <= 8 * SCALE,
                it < iterations,
                j <= cs@.len(),
                ps0 == old(ps)@,
                ps@.len() == ps0.len(),
                pass0.len() == ps0.len(),
                solve_iterations(ps0, cs@, it as int, mult as int, mode) == Some(pass0),
                solve_prefix(pass0, cs@, j as int, mult as int, mode) == Some(ps@),
            decreases cs@.len() - j,
        {
            let cj: Constraint = cs[j];
            let n = ps.len();
            if cj.a < n && cj.b < n {
                let ok1 = apply_constraint(ps, &cj, mult, mode);
                if !ok1 {
                    proof {
                        lemma_prefix_none(pass0, cs@, j as int + 1, cs@.len() as int, mult as int, mode);
                        lemma_iterations_none(
                            ps0,
                            cs@,
                            it as int + 1,
                            iterations as int,
                            mult as int,
                            mode,
                        );
                    }
                    return false;
                }
            }
            j += 1;
        }
        it += 1;
    }
    true
}

} // verus!
