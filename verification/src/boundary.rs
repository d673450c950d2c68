//! The boundary resolver: after the solver, each particle is clamped into
//! the domain, axis by axis. A coordinate beyond its half-extent is set
//! exactly onto the bound and the corresponding velocity component is
//! multiplied by the restitution coefficient; both axes may trigger in the
//! same tick and are handled independently.

use vstd::prelude::*;
use crate::fixed::{LIMIT, SCALE, fits_limit_i128, lemma_mul_fx_bound, mag, mul_fx, mul_fx_i128};
use crate::state::{Bounds, IntegrationMode, Motion, Particle, Vec2, particles_wf};

verus! {

/// The effective half-extent of one axis for one particle: the domain
/// half-extent less the particle's radius, floored at zero.
pub open spec fn eff_bound(half: int, radius: int) -> int {
    if half - radius >= 0 {
        half - radius
    } else {
        0
    }
}

/// One axis clamped: the new coordinate, and whether the bound was hit.
pub open spec fn clamp_axis(pos: int, eff: int) -> (int, bool) {
    if pos > eff {
        (eff, true)
    } else if pos < -eff {
        (-eff, true)
    } else {
        (pos, false)
    }
}

/// One particle resolved against the domain. Where a velocity is stored it
/// is reflected directly; where the velocity is implicit in the position
/// history, the reflected implicit velocity is folded back into the new
/// previous position. `None` where a stored scalar would leave the
/// representable range.
pub open spec fn bounce_particle(p: Particle, b: Bounds) -> Option<Particle> {
    let ex = eff_bound(b.half_x as int, p.radius as int);
    let ey = eff_bound(b.half_y as int, p.radius as int);
    let cx = clamp_axis(p.position.x as int, ex);
    let cy = clamp_axis(p.position.y as int, ey);
    match p.motion {
        Motion::Velocity(v) => {
            let vx = if cx.1 {
                mul_fx(v.x as int, b.restitution as int)
            } else {
                v.x as int
            };
            let vy = if cy.1 {
                mul_fx(v.y as int, b.restitution as int)
            } else {
                v.y as int
            };
            if mag(vx) > LIMIT || mag(vy) > LIMIT {
                None
            } else {
                Some(
                    Particle {
                        position: Vec2 { x: cx.0 as i64, y: cy.0 as i64 },
                        motion: Motion::Velocity(Vec2 { x: vx as i64, y: vy as i64 }),
                        radius: p.radius,
                        mass: p.mass,
                        friction: p.friction,
                    },
                )
            }
        }
        Motion::History(prev) => {
            let ivx = p.position.x - prev.x;
            let ivy = p.position.y - prev.y;
            let nvx = if cx.1 {
                mul_fx(ivx, b.restitution as int)
            } else {
                ivx
            };
            let nvy = if cy.1 {
                mul_fx(ivy, b.restitution as int)
            } else {
                ivy
            };
            let npx = cx.0 - nvx;
            let npy = cy.0 - nvy;
            if mag(npx) > LIMIT || mag(npy) > LIMIT {
                None
            } else {
                Some(
                    Particle {
                        position: Vec2 { x: cx.0 as i64, y: cy.0 as i64 },
                        motion: Motion::History(Vec2 { x: npx as i64, y: npy as i64 }),
                        radius: p.radius,
                        mass: p.mass,
                        friction: p.friction,
                    },
                )
            }
        }
    }
}

/// The first `k` particles resolved against the domain, the rest untouched.
pub open spec fn bounce_prefix(ps: Seq<Particle>, k: int, b: Bounds) -> Option<Seq<Particle>>
    decreases k,
{
    if k <= 0 {
        Some(ps)
    } else {
        match bounce_prefix(ps, k - 1, b) {
            None => None,
            Some(ps1) => match bounce_particle(ps1[k - 1], b) {
                None => None,
                Some(p) => Some(ps1.update(k - 1, p)),
            },
        }
    }
}

/// The whole store resolved against the domain.
pub open spec fn bounce_all(ps: Seq<Particle>, b: Bounds) -> Option<Seq<Particle>> {
    bounce_prefix(ps, ps.len() as int, b)
}

/// Once a prefix has failed, every longer prefix fails.
pub proof fn lemma_bounce_none(ps: Seq<Particle>, k1: int, k2: int, b: Bounds)
    requires
        0 <= k1 <= k2,
        bounce_prefix(ps, k1, b) is None,
    ensures
        bounce_prefix(ps, k2, b) is None,
    decreases k2,
{
    if k1 < k2 {
        lemma_bounce_none(ps, k1, k2 - 1, b);
    }
}

/// Clamps one coordinate to an effective half-extent.
fn clamp_one(pos: i64, eff: i64) -> (r: (i64, bool))
    requires
        0 <= eff <= LIMIT,
    ensures
        (r.0 as int, r.1) == clamp_axis(pos as int, eff as int),
{
    if pos > eff {
        (eff, true)
    } else if pos < -eff {
        (-eff, true)
    } else {
        (pos, false)
    }
}

/// Resolves one particle against the domain.
fn bounce_one(p: &Particle, b: &Bounds) -> (r: Option<Particle>)
    requires
        p.wf(),
        b.valid(),
    ensures
        r == bounce_particle(*p, *b),
        r matches Some(q) ==> q.wf() && (q.motion is Velocity <==> p.motion is Velocity),
{
    let ex: i64 = if b.half_x >= p.radius {
        b.half_x - p.radius
    } else {
        0
    };
    let ey: i64 = if b.half_y >= p.radius {
        b.half_y - p.radius
    } else {
        0
    };
    let cx = clamp_one(p.position.x, ex);
    let cy = clamp_one(p.position.y, ey);
    match &p.motion {
        Motion::Velocity(v) => {
            proof {
                lemma_mul_fx_bound(v.x as int, b.restitution as int, LIMIT as int, SCALE as int);
                lemma_mul_fx_bound(v.y as int, b.restitution as int, LIMIT as int, SCALE as int);
                assert((LIMIT as int) * (SCALE as int) / (SCALE as int) == LIMIT as int)
                    by (nonlinear_arith);
            }
            let vx: i128 = if cx.1 {
                mul_fx_i128(v.x as i128, b.restitution as i128)
            } else {
                v.x as i128
            };
            let vy: i128 = if cy.1 {
                mul_fx_i128(v.y as i128, b.restitution as i128)
            } else {
                v.y as i128
            };
            if !fits_limit_i128(vx) || !fits_limit_i128(vy) {
                return None;
            }
            Some(
                Particle {
                    position: Vec2 { x: cx.0, y: cy.0 },
                    motion: Motion::Velocity(Vec2 { x: vx as i64, y: vy as i64 }),
                    radius: p.radius,
                    mass: p.mass,
                    friction: p.friction,
                },
            )
        }
        Motion::History(prev) => {
            let ivx: i128 = p.position.x as i128 - prev.x as i128;
            let ivy: i128 = p.position.y as i128 - prev.y as i128;
            proof {
                lemma_mul_fx_bound(ivx as int, b.restitution as int, 2 * (LIMIT as int), SCALE as int);
                lemma_mul_fx_bound(ivy as int, b.restitution as int, 2 * (LIMIT as int), SCALE as int);
                assert(2 * (LIMIT as int) * (SCALE as int) / (SCALE as int) == 2 * (LIMIT as int))
                    by (nonlinear_arith);
            }
            let nvx: i128 = if cx.1 {
                mul_fx_i128(ivx, b.restitution as i128)
            } else {
                ivx
            };
            let nvy: i128 = if cy.1 {
                mul_fx_i128(ivy, b.restitution as i128)
            } else {
                ivy
            };
            let npx: i128 = cx.0 as i128 - nvx;
            let npy: i128 = cy.0 as i128 - nvy;
            if !fits_limit_i128(npx) || !fits_limit_i128(npy) {
                return None;
            }
            Some(
                Particle {
                    position: Vec2 { x: cx.0, y: cy.0 },
                    motion: Motion::History(Vec2 { x: npx as i64, y: npy as i64 }),
                    radius: p.radius,
                    mass: p.mass,
                    friction: p.friction,
                },
            )
        }
    }
}

/// Resolves every particle against the domain, in store order. Returns
/// `false` where the tick must be abandoned because a stored scalar left
/// the representable range.
pub fn resolve_bounds(ps: &mut Vec<Particle>, b: &Bounds, mode: IntegrationMode) -> (ok: bool)
    requires
        particles_wf(old(ps)@, mode),
        b.valid(),
    ensures
        particles_wf(final(ps)@, mode),
        final(ps)@.len() == old(ps)@.len(),
        match bounce_all(old(ps)@, *b) {
            Some(ps1) => ok && final(ps)@ == ps1,
            None => !ok,
        },
{
    let ghost ps0 = ps@;
    let n = ps.len();
    let mut i: usize = 0;
    while i < n
        invariant
            particles_wf(ps@, mode),
            b.valid(),
            ps0 == old(ps)@,
            i <= n,
            n == ps0.len(),
            ps@.len() == ps0.len(),
            bounce_prefix(ps0, i as int, *b) == Some(ps@),
            forall|k: int| i <= k < n ==> ps@[k] == ps0[k],
        decreases n - i,
    {
        let p: Particle = ps[i];
        match bounce_one(&p, b) {
            Some(q) => {
                ps[i] = q;
                proof {
                    assert(p.motion.matches_mode(mode));
                    assert(q.motion.matches_mode(mode));
                }
            }
            None => {
                proof {
                    lemma_bounce_none(ps0, i as int + 1, ps0.len() as int, *b);
                }
                return false;
            }
        }
        i += 1;
    }
    true
}

} // verus!
