// End-to-end tests of the particle simulation: creation rules, rest-state
// idempotence, mass-weighted constraint corrections, degenerate geometry,
// boundary reflection, data faults, and determinism. All scalars are
// fixed-point with 1024 sub-units per world unit.

use softbody::state::{
    Bounds, ConfigurationError, IntegrationMode, Motion, Particle, TickConfig, Vec2,
};
use softbody::world::World;

const ONE: i64 = 1024;

fn cfg_plain(dt: i64, iterations: usize) -> TickConfig {
    TickConfig {
        dt,
        iterations,
        multiplier: 2 * ONE,
        acceleration: Vec2 { x: 0, y: 0 },
        bounds: None,
    }
}

fn velocity_of(p: &Particle) -> Vec2 {
    match p.motion {
        Motion::Velocity(v) => v,
        Motion::History(prev) => Vec2 {
            x: p.position.x - prev.x,
            y: p.position.y - prev.y,
        },
    }
}

#[test]
fn create_rejects_non_positive_mass() {
    let mut w = World::new(IntegrationMode::SemiImplicitEuler);
    let r = w.create_particle(Vec2 { x: 0, y: 0 }, 0, 10 * ONE, ONE);
    assert_eq!(r, Err(ConfigurationError::NonPositiveMass));
    let r = w.create_particle(Vec2 { x: 0, y: 0 }, -5 * ONE, 10 * ONE, ONE);
    assert_eq!(r, Err(ConfigurationError::NonPositiveMass));
    let r = w.create_particle(Vec2 { x: 0, y: 0 }, 10 * ONE, 10 * ONE, ONE);
    assert_eq!(r, Ok(0));
    assert_eq!(w.particle_count(), 1);
    assert!(w.get_particle(0).unwrap().mass > 0);
}

#[test]
fn create_rejects_bad_coefficients() {
    let mut w = World::new(IntegrationMode::SemiImplicitEuler);
    let r = w.create_particle(Vec2 { x: 0, y: 0 }, ONE, 0, 0);
    assert_eq!(r, Err(ConfigurationError::CoefficientOutOfRange));
    let r = w.create_particle(Vec2 { x: 0, y: 0 }, ONE, 0, ONE + 1);
    assert_eq!(r, Err(ConfigurationError::CoefficientOutOfRange));
    let r = w.create_particle(Vec2 { x: 0, y: 0 }, ONE, -1, ONE);
    assert_eq!(r, Err(ConfigurationError::OutOfRange));
}

#[test]
fn constraint_rejects_equal_endpoints() {
    let mut w = World::new(IntegrationMode::SemiImplicitEuler);
    w.create_particle(Vec2 { x: 0, y: 0 }, ONE, 0, ONE).unwrap();
    let r = w.create_constraint(0, 0, 100 * ONE, ONE);
    assert_eq!(r, Err(ConfigurationError::EqualEndpoints));
    let r = w.create_constraint(0, 1, 100 * ONE, 0);
    assert_eq!(r, Err(ConfigurationError::CoefficientOutOfRange));
    let r = w.create_constraint(0, 1, -1, ONE);
    assert_eq!(r, Err(ConfigurationError::OutOfRange));
    let r = w.create_constraint(0, 1, 100 * ONE, ONE);
    assert_eq!(r, Ok(0));
}

#[test]
fn rest_state_unchanged() {
    let mut w = World::new(IntegrationMode::SemiImplicitEuler);
    w.create_particle(Vec2 { x: 5 * ONE, y: -3 * ONE }, 10 * ONE, ONE, ONE).unwrap();
    w.create_particle(Vec2 { x: -7 * ONE, y: 11 * ONE }, 2 * ONE, ONE, ONE / 2).unwrap();
    let before: Vec<Particle> = w.enumerate_particles();
    let d = w.advance_tick(&cfg_plain(17, 4)).unwrap();
    assert!(d.skipped.is_empty());
    assert_eq!(w.enumerate_particles(), before);
}

#[test]
fn rest_state_unchanged_history_mode() {
    let mut w = World::new(IntegrationMode::PositionHistory);
    w.create_particle(Vec2 { x: 5 * ONE, y: -3 * ONE }, 10 * ONE, ONE, ONE).unwrap();
    let before: Vec<Particle> = w.enumerate_particles();
    w.advance_tick(&cfg_plain(17, 4)).unwrap();
    assert_eq!(w.enumerate_particles(), before);
}

#[test]
fn equal_masses_move_equally_and_oppositely() {
    let mut w = World::new(IntegrationMode::SemiImplicitEuler);
    w.create_particle(Vec2 { x: 0, y: 0 }, ONE, 0, ONE).unwrap();
    w.create_particle(Vec2 { x: 300 * ONE, y: 0 }, ONE, 0, ONE).unwrap();
    w.create_constraint(0, 1, 100 * ONE, ONE).unwrap();
    // dt 0: integration moves nothing, one pure solver pass runs.
    w.advance_tick(&cfg_plain(0, 1)).unwrap();
    let a = w.get_particle(0).unwrap();
    let b = w.get_particle(1).unwrap();
    let va = velocity_of(&a);
    let vb = velocity_of(&b);
    assert_eq!(va, Vec2 { x: 100 * ONE, y: 0 });
    assert_eq!(vb, Vec2 { x: -100 * ONE, y: 0 });
    assert_eq!(va.x, -vb.x);
    assert_eq!(va.y, -vb.y);
    // Positions have not moved yet: corrections land on velocities.
    assert_eq!(a.position, Vec2 { x: 0, y: 0 });
    assert_eq!(b.position, Vec2 { x: 300 * ONE, y: 0 });
}

#[test]
fn mass_one_moves_nine_times_mass_nine() {
    let mut w = World::new(IntegrationMode::SemiImplicitEuler);
    w.create_particle(Vec2 { x: 0, y: 0 }, ONE, 0, ONE).unwrap();
    w.create_particle(Vec2 { x: 300 * ONE, y: 0 }, 9 * ONE, 0, ONE).unwrap();
    w.create_constraint(0, 1, 100 * ONE, ONE).unwrap();
    w.advance_tick(&cfg_plain(0, 1)).unwrap();
    let va = velocity_of(&w.get_particle(0).unwrap());
    let vb = velocity_of(&w.get_particle(1).unwrap());
    assert_eq!(va, Vec2 { x: 180 * ONE, y: 0 });
    assert_eq!(vb, Vec2 { x: -20 * ONE, y: 0 });
    assert_eq!(va.x, -9 * vb.x);
}

#[test]
fn diagonal_corrections_are_exact() {
    // A 3-4-5 separation: distance 500 units against a rest length of 100.
    let mut w = World::new(IntegrationMode::SemiImplicitEuler);
    w.create_particle(Vec2 { x: 0, y: 0 }, ONE, 0, ONE).unwrap();
    w.create_particle(Vec2 { x: 300 * ONE, y: 400 * ONE }, ONE, 0, ONE).unwrap();
    w.create_constraint(0, 1, 100 * ONE, ONE).unwrap();
    w.advance_tick(&cfg_plain(0, 1)).unwrap();
    let va = velocity_of(&w.get_particle(0).unwrap());
    let vb = velocity_of(&w.get_particle(1).unwrap());
    assert_eq!(va, Vec2 { x: 120 * ONE, y: 160 * ONE });
    assert_eq!(vb, Vec2 { x: -120 * ONE, y: -160 * ONE });
}

#[test]
fn solver_applies_constraints_in_store_order() {
    // In history mode corrections land on positions, so within one pass the
    // second constraint must see the first one's write to their shared
    // endpoint: relaxation is sequential, not simultaneous.
    let mut w = World::new(IntegrationMode::PositionHistory);
    w.create_particle(Vec2 { x: 0, y: 0 }, ONE, 0, ONE).unwrap();
    w.create_particle(Vec2 { x: 100 * ONE, y: 0 }, ONE, 0, ONE).unwrap();
    w.create_particle(Vec2 { x: 200 * ONE, y: 0 }, ONE, 0, ONE).unwrap();
    w.create_constraint(0, 1, 50 * ONE, ONE).unwrap();
    w.create_constraint(1, 2, 50 * ONE, ONE).unwrap();
    let mut cfg = cfg_plain(17, 1);
    cfg.multiplier = ONE;
    w.advance_tick(&cfg).unwrap();
    assert_eq!(w.get_particle(0).unwrap().position.x, 12800);
    assert_eq!(w.get_particle(1).unwrap().position.x, 105600);
    assert_eq!(w.get_particle(2).unwrap().position.x, 188800);
}

#[test]
fn coincident_endpoints_change_nothing() {
    let mut w = World::new(IntegrationMode::SemiImplicitEuler);
    w.create_particle(Vec2 { x: 50 * ONE, y: 50 * ONE }, ONE, 0, ONE).unwrap();
    w.create_particle(Vec2 { x: 50 * ONE, y: 50 * ONE }, ONE, 0, ONE).unwrap();
    w.create_constraint(0, 1, 100 * ONE, ONE).unwrap();
    let before: Vec<Particle> = w.enumerate_particles();
    let d = w.advance_tick(&cfg_plain(0, 4)).unwrap();
    assert!(d.skipped.is_empty());
    assert_eq!(w.enumerate_particles(), before);
}

#[test]
fn boundary_reflects_elastically() {
    let mut w = World::new(IntegrationMode::SemiImplicitEuler);
    w.create_particle(Vec2 { x: 600 * ONE, y: 10 * ONE }, ONE, 0, ONE).unwrap();
    w.set_velocity(0, Vec2 { x: 5 * ONE, y: 3 * ONE }).unwrap();
    let cfg = TickConfig {
        dt: 0,
        iterations: 0,
        multiplier: 2 * ONE,
        acceleration: Vec2 { x: 0, y: 0 },
        bounds: Some(Bounds { half_x: 500 * ONE, half_y: 400 * ONE, restitution: -ONE }),
    };
    w.advance_tick(&cfg).unwrap();
    let p = w.get_particle(0).unwrap();
    assert_eq!(p.position, Vec2 { x: 500 * ONE, y: 10 * ONE });
    assert_eq!(velocity_of(&p), Vec2 { x: -5 * ONE, y: 3 * ONE });
}

#[test]
fn boundary_subtracts_radius_and_handles_corners() {
    let mut w = World::new(IntegrationMode::SemiImplicitEuler);
    w.create_particle(Vec2 { x: -600 * ONE, y: 700 * ONE }, ONE, 10 * ONE, ONE).unwrap();
    w.set_velocity(0, Vec2 { x: -2 * ONE, y: 4 * ONE }).unwrap();
    let cfg = TickConfig {
        dt: 0,
        iterations: 0,
        multiplier: 2 * ONE,
        acceleration: Vec2 { x: 0, y: 0 },
        bounds: Some(Bounds { half_x: 500 * ONE, half_y: 400 * ONE, restitution: -ONE }),
    };
    w.advance_tick(&cfg).unwrap();
    let p = w.get_particle(0).unwrap();
    // Both axes reflect in the same tick, each against half-extent - radius.
    assert_eq!(p.position, Vec2 { x: -490 * ONE, y: 390 * ONE });
    assert_eq!(velocity_of(&p), Vec2 { x: 2 * ONE, y: -4 * ONE });
}

#[test]
fn boundary_reflects_implicit_velocity_in_history_mode() {
    let mut w = World::new(IntegrationMode::PositionHistory);
    w.create_particle(Vec2 { x: 600 * ONE, y: 0 }, ONE, 0, ONE).unwrap();
    w.set_velocity(0, Vec2 { x: 5 * ONE, y: 0 }).unwrap();
    let cfg = TickConfig {
        dt: 17,
        iterations: 0,
        multiplier: 2 * ONE,
        acceleration: Vec2 { x: 0, y: 0 },
        bounds: Some(Bounds { half_x: 500 * ONE, half_y: 400 * ONE, restitution: -ONE }),
    };
    w.advance_tick(&cfg).unwrap();
    let p = w.get_particle(0).unwrap();
    assert_eq!(p.position, Vec2 { x: 500 * ONE, y: 0 });
    assert_eq!(velocity_of(&p), Vec2 { x: -5 * ONE, y: 0 });
}

#[test]
fn dangling_constraint_is_reported_and_skipped() {
    let mut w = World::new(IntegrationMode::SemiImplicitEuler);
    w.create_particle(Vec2 { x: 0, y: 0 }, ONE, 0, ONE).unwrap();
    w.create_constraint(0, 5, 100 * ONE, ONE).unwrap();
    let before: Vec<Particle> = w.enumerate_particles();
    let d = w.advance_tick(&cfg_plain(0, 4)).unwrap();
    assert_eq!(d.skipped, vec![0]);
    assert_eq!(w.enumerate_particles(), before);
}

#[test]
fn invalid_tick_configuration_fails_fast() {
    let mut w = World::new(IntegrationMode::SemiImplicitEuler);
    w.create_particle(Vec2 { x: 0, y: 0 }, ONE, 0, ONE).unwrap();
    let mut cfg = cfg_plain(17, 4);
    cfg.dt = -1;
    assert_eq!(w.advance_tick(&cfg), Err(ConfigurationError::InvalidTick));
    let mut cfg = cfg_plain(17, 4);
    cfg.multiplier = 0;
    assert_eq!(w.advance_tick(&cfg), Err(ConfigurationError::InvalidTick));
    let mut cfg = cfg_plain(17, 4);
    cfg.bounds = Some(Bounds { half_x: -1, half_y: 0, restitution: -ONE });
    assert_eq!(w.advance_tick(&cfg), Err(ConfigurationError::InvalidTick));
}

#[test]
fn overflowing_tick_fails_and_changes_nothing() {
    const LIMIT: i64 = 0x1_0000_0000_0000;
    let mut w = World::new(IntegrationMode::SemiImplicitEuler);
    w.create_particle(Vec2 { x: -LIMIT, y: 0 }, ONE, 0, ONE).unwrap();
    w.create_particle(Vec2 { x: LIMIT, y: 0 }, ONE, 0, ONE).unwrap();
    w.create_constraint(0, 1, 0, ONE).unwrap();
    let before: Vec<Particle> = w.enumerate_particles();
    let mut cfg = cfg_plain(0, 1);
    cfg.multiplier = 8 * ONE;
    assert_eq!(w.advance_tick(&cfg), Err(ConfigurationError::OutOfRange));
    assert_eq!(w.enumerate_particles(), before);
}

#[test]
fn identical_runs_stay_identical() {
    let build = || {
        let mut w = World::new(IntegrationMode::SemiImplicitEuler);
        w.create_particle(Vec2 { x: 0, y: 0 }, 10 * ONE, 10 * ONE, ONE).unwrap();
        w.create_particle(Vec2 { x: 100 * ONE, y: 0 }, 10 * ONE, 10 * ONE, ONE).unwrap();
        w.create_particle(Vec2 { x: 100 * ONE, y: 100 * ONE }, 10 * ONE, 10 * ONE, ONE).unwrap();
        w.create_particle(Vec2 { x: 0, y: 100 * ONE }, 5 * ONE, 10 * ONE, ONE).unwrap();
        w.create_constraint(0, 1, 100 * ONE, ONE).unwrap();
        w.create_constraint(1, 2, 100 * ONE, ONE).unwrap();
        w.create_constraint(2, 3, 100 * ONE, ONE).unwrap();
        w.create_constraint(3, 0, 100 * ONE, ONE).unwrap();
        w.create_constraint(0, 2, 145 * ONE, ONE).unwrap();
        w.set_velocity(0, Vec2 { x: 3 * ONE, y: -2 * ONE }).unwrap();
        w.set_velocity(2, Vec2 { x: -ONE, y: 4 * ONE }).unwrap();
        w
    };
    let mut w1 = build();
    let mut w2 = build();
    let cfg = TickConfig {
        dt: 17,
        iterations: 4,
        multiplier: 2 * ONE,
        acceleration: Vec2 { x: 0, y: 10 * ONE },
        bounds: Some(Bounds { half_x: 400 * ONE, half_y: 300 * ONE, restitution: -ONE }),
    };
    for _ in 0..50 {
        let d1 = w1.advance_tick(&cfg).unwrap();
        let d2 = w2.advance_tick(&cfg).unwrap();
        assert_eq!(d1.skipped, d2.skipped);
        assert_eq!(w1.enumerate_particles(), w2.enumerate_particles());
    }
}

#[test]
fn history_mode_moves_by_implicit_velocity() {
    let mut w = World::new(IntegrationMode::PositionHistory);
    w.create_particle(Vec2 { x: 0, y: 0 }, ONE, 0, ONE).unwrap();
    w.set_velocity(0, Vec2 { x: ONE, y: 0 }).unwrap();
    let p = w.get_particle(0).unwrap();
    assert_eq!(p.motion, Motion::History(Vec2 { x: -ONE, y: 0 }));
    w.advance_tick(&cfg_plain(17, 0)).unwrap();
    let p = w.get_particle(0).unwrap();
    assert_eq!(p.position, Vec2 { x: ONE, y: 0 });
    assert_eq!(p.motion, Motion::History(Vec2 { x: 0, y: 0 }));
}

#[test]
fn history_mode_damping_halves_step() {
    let mut w = World::new(IntegrationMode::PositionHistory);
    w.create_particle(Vec2 { x: 0, y: 0 }, ONE, 0, ONE / 2).unwrap();
    w.set_velocity(0, Vec2 { x: 4 * ONE, y: 0 }).unwrap();
    w.advance_tick(&cfg_plain(17, 0)).unwrap();
    let p = w.get_particle(0).unwrap();
    assert_eq!(p.position, Vec2 { x: 2 * ONE, y: 0 });
}

#[test]
fn euler_mode_accumulates_acceleration() {
    let mut w = World::new(IntegrationMode::SemiImplicitEuler);
    w.create_particle(Vec2 { x: 0, y: 0 }, ONE, 0, ONE).unwrap();
    let mut cfg = cfg_plain(ONE, 0);
    // One full second per tick, gravity of 10 units per second squared.
    cfg.acceleration = Vec2 { x: 0, y: 10 * ONE };
    w.advance_tick(&cfg).unwrap();
    let p = w.get_particle(0).unwrap();
    assert_eq!(velocity_of(&p), Vec2 { x: 0, y: 10 * ONE });
    assert_eq!(p.position, Vec2 { x: 0, y: 10 * ONE });
    w.advance_tick(&cfg).unwrap();
    let p = w.get_particle(0).unwrap();
    assert_eq!(velocity_of(&p), Vec2 { x: 0, y: 20 * ONE });
    assert_eq!(p.position, Vec2 { x: 0, y: 30 * ONE });
}

#[test]
fn setters_validate_identifier_and_range() {
    const LIMIT: i64 = 0x1_0000_0000_0000;
    let mut w = World::new(IntegrationMode::SemiImplicitEuler);
    w.create_particle(Vec2 { x: 0, y: 0 }, ONE, 0, ONE).unwrap();
    assert_eq!(
        w.set_velocity(3, Vec2 { x: 0, y: 0 }),
        Err(ConfigurationError::UnknownParticle)
    );
    assert_eq!(
        w.set_position(0, Vec2 { x: LIMIT + 1, y: 0 }),
        Err(ConfigurationError::OutOfRange)
    );
    assert_eq!(w.set_position(0, Vec2 { x: 7 * ONE, y: 8 * ONE }), Ok(()));
    assert_eq!(w.get_particle(0).unwrap().position, Vec2 { x: 7 * ONE, y: 8 * ONE });
}

#[test]
fn future_position_adds_velocity() {
    let mut w = World::new(IntegrationMode::SemiImplicitEuler);
    w.create_particle(Vec2 { x: 100, y: 200 }, ONE, 0, ONE).unwrap();
    w.set_velocity(0, Vec2 { x: 10, y: -20 }).unwrap();
    let p = w.get_particle(0).unwrap();
    assert_eq!(p.future_position(), Vec2 { x: 110, y: 180 });

    let mut w = World::new(IntegrationMode::PositionHistory);
    w.create_particle(Vec2 { x: 100, y: 200 }, ONE, 0, ONE).unwrap();
    w.set_velocity(0, Vec2 { x: 10, y: -20 }).unwrap();
    let p = w.get_particle(0).unwrap();
    assert_eq!(p.future_position(), Vec2 { x: 110, y: 180 });
}

#[test]
fn enumeration_preserves_creation_order() {
    let mut w = World::new(IntegrationMode::SemiImplicitEuler);
    for i in 0..5i64 {
        let id = w.create_particle(Vec2 { x: i * ONE, y: 0 }, ONE, 0, ONE).unwrap();
        assert_eq!(id, i as usize);
    }
    let ps = w.enumerate_particles();
    assert_eq!(ps.len(), 5);
    for i in 0..5usize {
        assert_eq!(ps[i].position.x, i as i64 * ONE);
    }
    w.create_constraint(0, 1, ONE, ONE).unwrap();
    w.create_constraint(1, 2, 2 * ONE, ONE).unwrap();
    let cs = w.enumerate_constraints();
    assert_eq!(cs.len(), 2);
    assert_eq!(cs[0].rest_length, ONE);
    assert_eq!(cs[1].rest_length, 2 * ONE);
    assert_eq!(w.constraint_count(), 2);
    assert_eq!(w.get_constraint(1).unwrap().a, 1);
    assert!(w.get_constraint(9).is_none());
}
