//! The integrator: advances every particle once per tick, before the
//! constraint solver runs.
//!
//! Two interchangeable modes exist by design. Under semi-implicit Euler the
//! stored velocity first accumulates the tick's externally supplied
//! acceleration, then loses its friction share, and the position moves by
//! `velocity * dt`. Under position history there is no stored velocity: the
//! position moves by the damped difference from the previous position, and
//! the pre-update position becomes the new previous position.

use vstd::prelude::*;
use crate::fixed::{LIMIT, SCALE, lemma_mul_fx_bound, mag, mul_fx, mul_fx_i128};
use crate::state::{IntegrationMode, Motion, Particle, Vec2, particles_wf};

verus! {

/// One particle advanced by one tick. `None` where a stored scalar or the
/// accumulated velocity would leave the representable range.
pub open spec fn integrate_particle(p: Particle, dt: int, accel: Vec2) -> Option<Particle> {
    match p.motion {
        Motion::Velocity(v) => {
            let v1x = v.x + mul_fx(accel.x as int, dt);
            let v1y = v.y + mul_fx(accel.y as int, dt);
            if mag(v1x) > LIMIT || mag(v1y) > LIMIT {
                None
            } else {
                let v2x = mul_fx(v1x, p.friction as int);
                let v2y = mul_fx(v1y, p.friction as int);
                let px = p.position.x + mul_fx(v2x, dt);
                let py = p.position.y + mul_fx(v2y, dt);
                if mag(px) > LIMIT || mag(py) > LIMIT {
                    None
                } else {
                    Some(
                        Particle {
                            position: Vec2 { x: px as i64, y: py as i64 },
                            motion: Motion::Velocity(Vec2 { x: v2x as i64, y: v2y as i64 }),
                            radius: p.radius,
                            mass: p.mass,
                            friction: p.friction,
                        },
                    )
                }
            }
        }
        Motion::History(prev) => {
            let ix = p.position.x - prev.x;
            let iy = p.position.y - prev.y;
            let px = p.position.x + mul_fx(ix, p.friction as int);
            let py = p.position.y + mul_fx(iy, p.friction as int);
            if mag(px) > LIMIT || mag(py) > LIMIT {
                None
            } else {
                Some(
                    Particle {
                        position: Vec2 { x: px as i64, y: py as i64 },
                        motion: Motion::History(p.position),
                        radius: p.radius,
                        mass: p.mass,
                        friction: p.friction,
                    },
                )
            }
        }
    }
}

/// The first `k` particles advanced, the rest untouched.
pub open spec fn integrate_prefix(ps: Seq<Particle>, k: int, dt: int, accel: Vec2) -> Option<
    Seq<Particle>,
>
    decreases k,
{
    if k <= 0 {
        Some(ps)
    } else {
        match integrate_prefix(ps, k - 1, dt, accel) {
            None => None,
            Some(ps1) => match integrate_particle(ps1[k - 1], dt, accel) {
                None => None,
                Some(p) => Some(ps1.update(k - 1, p)),
            },
        }
    }
}

/// The whole store advanced by one tick of integration.
pub open spec fn integrate_all(ps: Seq<Particle>, dt: int, accel: Vec2) -> Option<Seq<Particle>> {
    integrate_prefix(ps, ps.len() as int, dt, accel)
}

/// Once a prefix has failed, every longer prefix fails.
pub proof fn lemma_integrate_none(ps: Seq<Particle>, k1: int, k2: int, dt: int, accel: Vec2)
    requires
        0 <= k1 <= k2,
        integrate_prefix(ps, k1, dt, accel) is None,
    ensures
        integrate_prefix(ps, k2, dt, accel) is None,
    decreases k2,
{
    if k1 < k2 {
        lemma_integrate_none(ps, k1, k2 - 1, dt, accel);
    }
}

/// Advances one particle. Returns its successor, or `None` where a scalar
/// would leave the representable range.
fn integrate_one(p: &Particle, dt: i64, accel: Vec2) -> (r: Option<Particle>)
    requires
        p.wf(),
        0 <= dt <= LIMIT,
        accel.in_range(),
    ensures
        r == integrate_particle(*p, dt as int, accel),
        r matches Some(q) ==> q.wf() && (q.motion is Velocity <==> p.motion is Velocity),
{
    proof {
        assert((LIMIT as int) * (LIMIT as int) <= i128::MAX) by (nonlinear_arith);
    }
    match &p.motion {
        Motion::Velocity(v) => {
            proof {
                lemma_mul_fx_bound(accel.x as int, dt as int, LIMIT as int, LIMIT as int);
                lemma_mul_fx_bound(accel.y as int, dt as int, LIMIT as int, LIMIT as int);
            }
            let adx: i128 = mul_fx_i128(accel.x as i128, dt as i128);
            let ady: i128 = mul_fx_i128(accel.y as i128, dt as i128);
            let v1x: i128 = v.x as i128 + adx;
            let v1y: i128 = v.y as i128 + ady;
            if !crate::fixed::fits_limit_i128(v1x) || !crate::fixed::fits_limit_i128(v1y) {
                return None;
            }
            proof {
                lemma_mul_fx_bound(v1x as int, p.friction as int, LIMIT as int, SCALE as int);
                lemma_mul_fx_bound(v1y as int, p.friction as int, LIMIT as int, SCALE as int);
                assert((LIMIT as int) * (SCALE as int) / (SCALE as int) == LIMIT as int)
                    by (nonlinear_arith);
            }
            let v2x: i128 = mul_fx_i128(v1x, p.friction as i128);
            let v2y: i128 = mul_fx_i128(v1y, p.friction as i128);
            proof {
                lemma_mul_fx_bound(v2x as int, dt as int, LIMIT as int, LIMIT as int);
                lemma_mul_fx_bound(v2y as int, dt as int, LIMIT as int, LIMIT as int);
            }
            let px: i128 = p.position.x as i128 + mul_fx_i128(v2x, dt as i128);
            let py: i128 = p.position.y as i128 + mul_fx_i128(v2y, dt as i128);
            if !crate::fixed::fits_limit_i128(px) || !crate::fixed::fits_limit_i128(py) {
                return None;
            }
            Some(
                Particle {
                    position: Vec2 { x: px as i64, y: py as i64 },
                    motion: Motion::Velocity(Vec2 { x: v2x as i64, y: v2y as i64 }),
                    radius: p.radius,
                    mass: p.mass,
                    friction: p.friction,
                },
            )
        }
        Motion::History(prev) => {
            let ix: i128 = p.position.x as i128 - prev.x as i128;
            let iy: i128 = p.position.y as i128 - prev.y as i128;
            proof {
                lemma_mul_fx_bound(ix as int, p.friction as int, 2 * (LIMIT as int), SCALE as int);
                lemma_mul_fx_bound(iy as int, p.friction as int, 2 * (LIMIT as int), SCALE as int);
            }
            let px: i128 = p.position.x as i128 + mul_fx_i128(ix, p.friction as i128);
            let py: i128 = p.position.y as i128 + mul_fx_i128(iy, p.friction as i128);
            if !crate::fixed::fits_limit_i128(px) || !crate::fixed::fits_limit_i128(py) {
                return None;
            }
            Some(
                Particle {
                    position: Vec2 { x: px as i64, y: py as i64 },
                    motion: Motion::History(p.position),
                    radius: p.radius,
                    mass: p.mass,
                    friction: p.friction,
                },
            )
        }
    }
}

/// Advances every particle in place, in store order. Returns `false` where
/// the tick must be abandoned because a scalar left the representable range.
pub fn integrate(ps: &mut Vec<Particle>, dt: i64, accel: Vec2, mode: IntegrationMode) -> (ok: bool)
    requires
        particles_wf(old(ps)@, mode),
        0 <= dt <= LIMIT,
        accel.in_range(),
    ensures
        particles_wf(final(ps)@, mode),
        final(ps)@.len() == old(ps)@.len(),
        match integrate_all(old(ps)@, dt as int, accel) {
            Some(ps1) => ok && final(ps)@ == ps1,
            None => !ok,
        },
{
    let ghost ps0 = ps@;
    let n = ps.len();
    let mut i: usize = 0;
    while i < n
        invariant
            particles_wf(ps@, mode),
            0 <= dt <= LIMIT,
            accel.in_range(),
            ps0 == old(ps)@,
            i <= n,
            n == ps0.len(),
            ps@.len() == ps0.len(),
            integrate_prefix(ps0, i as int, dt as int, accel) == Some(ps@),
            forall|k: int| i <= k < n ==> ps@[k] == ps0[k],
        decreases n - i,
    {
        let p: Particle = ps[i];
        match integrate_one(&p, dt, accel) {
            Some(q) => {
                ps[i] = q;
                proof {
                    assert(p.motion.matches_mode(mode));
                    assert(q.motion.matches_mode(mode));
                }
            }
            None => {
                proof {
                    lemma_integrate_none(ps0, i as int + 1, ps0.len() as int, dt as int, accel);
                }
                return false;
            }
        }
        i += 1;
    }
    true
}

} // verus!
