// Tests of the rigid-body impulse model: moment-of-inertia formulas, the
// distance-squared torque of an applied force, and impulse application.

use softbody::rigid::{ForceTorque, RigidBody, Shape};
use softbody::state::{ConfigurationError, Vec2};

const ONE: i64 = 1024;

fn body_at_rest(mass: i64, shape: Shape) -> RigidBody {
    RigidBody::create(Vec2 { x: 0, y: 0 }, Vec2 { x: 0, y: 0 }, 0, 0, mass, shape).unwrap()
}

#[test]
fn moment_of_inertia_circle() {
    let b = body_at_rest(10 * ONE, Shape::Circle { radius: 2 * ONE });
    // mass * radius^2 / 2 = 10 * 4 / 2 = 20
    assert_eq!(b.moment_of_inertia(), Some(20 * ONE));
}

#[test]
fn moment_of_inertia_rectangle() {
    let b = body_at_rest(12 * ONE, Shape::Rectangle { width: 4 * ONE, height: 3 * ONE });
    // mass * (width^2 + height^2) / 12 = 12 * (16 + 9) / 12 = 25
    assert_eq!(b.moment_of_inertia(), Some(25 * ONE));
}

#[test]
fn rigid_body_rejects_non_positive_mass() {
    let r = RigidBody::create(
        Vec2 { x: 0, y: 0 },
        Vec2 { x: 0, y: 0 },
        0,
        0,
        0,
        Shape::Circle { radius: ONE },
    );
    assert_eq!(r, Err(ConfigurationError::NonPositiveMass));
    let r = RigidBody::create(
        Vec2 { x: 0, y: 0 },
        Vec2 { x: 0, y: 0 },
        0,
        0,
        ONE,
        Shape::Circle { radius: -1 },
    );
    assert_eq!(r, Err(ConfigurationError::OutOfRange));
}

#[test]
fn torque_scales_with_distance_squared() {
    let b = body_at_rest(10 * ONE, Shape::Circle { radius: 2 * ONE });
    // A unit force upward, applied two units to the right of the center:
    // cross = 2 * 1 = 2, scaled again by the lever length 2, gives 4.
    let ft = b
        .get_displacement(Vec2 { x: 2 * ONE, y: 0 }, Vec2 { x: 0, y: ONE })
        .unwrap();
    assert_eq!(ft.force, Vec2 { x: 0, y: ONE });
    assert_eq!(ft.torque, 4 * ONE);
    // The same force twice as far out: cross 4, lever 4, torque 16.
    let ft = b
        .get_displacement(Vec2 { x: 4 * ONE, y: 0 }, Vec2 { x: 0, y: ONE })
        .unwrap();
    assert_eq!(ft.torque, 16 * ONE);
}

#[test]
fn impulse_updates_velocities_by_mass_and_inertia() {
    let mut b = body_at_rest(10 * ONE, Shape::Circle { radius: 2 * ONE });
    // moment of inertia is 20; force / mass = 1, torque / inertia = 1.
    let ft = ForceTorque { force: Vec2 { x: 10 * ONE, y: 0 }, torque: 20 * ONE };
    assert_eq!(b.apply_displacement(&ft), Ok(()));
    assert_eq!(b.velocity, Vec2 { x: ONE, y: 0 });
    assert_eq!(b.angular_velocity, ONE);
    // Position and rotation are untouched: the impulse is instantaneous.
    assert_eq!(b.position, Vec2 { x: 0, y: 0 });
    assert_eq!(b.rotation, 0);
}

#[test]
fn displacement_round_trip_spins_the_body() {
    let mut b = body_at_rest(10 * ONE, Shape::Circle { radius: 2 * ONE });
    let ft = b
        .get_displacement(Vec2 { x: 2 * ONE, y: 0 }, Vec2 { x: 0, y: 10 * ONE })
        .unwrap();
    // cross = 2 * 10 = 20, lever 2: torque 40; inertia 20.
    assert_eq!(ft.torque, 40 * ONE);
    assert_eq!(b.apply_displacement(&ft), Ok(()));
    assert_eq!(b.velocity, Vec2 { x: 0, y: ONE });
    assert_eq!(b.angular_velocity, 2 * ONE);
}

#[test]
fn zero_inertia_leaves_angular_velocity_alone() {
    let mut b = body_at_rest(ONE, Shape::Circle { radius: 0 });
    let ft = ForceTorque { force: Vec2 { x: ONE, y: 0 }, torque: 50 * ONE };
    assert_eq!(b.apply_displacement(&ft), Ok(()));
    assert_eq!(b.velocity, Vec2 { x: ONE, y: 0 });
    assert_eq!(b.angular_velocity, 0);
}
