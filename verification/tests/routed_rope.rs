use lib::arena::Index;
use lib::binding::{
    create_routed_rope_constraint, description_error, flat_handle, insert_routed_rope_constraint,
    remove_routed_rope_constraint, routed_rope_constraint_active,
    routed_rope_constraint_is_valid, routed_rope_constraint_observations,
    routed_rope_status_code, set_routed_rope_constraint_enabled, unpack_index, RopeInputError,
};
use lib::body::{
    IntegrationParameters, Pose, RigidBody, RigidBodySet, Rotation, SolverBodies, SolverPose,
    SolverVel,
};
use lib::rope::{
    RoutedRopeConstraint, RoutedRopePoint, RoutedRopePulley, RoutedRopeStatus, RoutedRopeWinding,
};
use lib::route::{resolve_route, RoutedRopePulleyGeometry};
use lib::scalar::{Scalar, TotalOrder, Vector};
use lib::set::{RoutedRopeConstraintHandle, RoutedRopeConstraintSet};

/// Single-precision reals, as the physics world uses them.
#[derive(Clone, Copy, Debug, PartialEq)]
struct Real(f32);

impl Scalar for Real {
    const ZERO: Self = Real(0.0);
    const ONE: Self = Real(1.0);
    const TAU: Self = Real(std::f32::consts::TAU);

    fn spec_from_decimal(mantissa: i64, exponent: i32) -> Self {
        Real(format!("{}e{}", mantissa, exponent).parse().unwrap())
    }

    fn from_decimal(mantissa: i64, exponent: i32) -> Self {
        Self::spec_from_decimal(mantissa, exponent)
    }
    fn spec_plus(self, rhs: Self) -> Self {
        Real(self.0 + rhs.0)
    }
    fn plus(self, rhs: Self) -> Self {
        self.spec_plus(rhs)
    }
    fn spec_minus(self, rhs: Self) -> Self {
        Real(self.0 - rhs.0)
    }
    fn minus(self, rhs: Self) -> Self {
        self.spec_minus(rhs)
    }
    fn spec_times(self, rhs: Self) -> Self {
        Real(self.0 * rhs.0)
    }
    fn times(self, rhs: Self) -> Self {
        self.spec_times(rhs)
    }
    fn spec_divided_by(self, rhs: Self) -> Self {
        Real(self.0 / rhs.0)
    }
    fn divided_by(self, rhs: Self) -> Self {
        self.spec_divided_by(rhs)
    }
    fn spec_remainder(self, rhs: Self) -> Self {
        Real(self.0 % rhs.0)
    }
    fn remainder(self, rhs: Self) -> Self {
        self.spec_remainder(rhs)
    }
    fn spec_negated(self) -> Self {
        Real(-self.0)
    }
    fn negated(self) -> Self {
        self.spec_negated()
    }
    fn spec_absolute(self) -> Self {
        Real(self.0.abs())
    }
    fn absolute(self) -> Self {
        self.spec_absolute()
    }
    fn spec_square_root(self) -> Self {
        Real(self.0.sqrt())
    }
    fn square_root(self) -> Self {
        self.spec_square_root()
    }
    fn spec_arc_tangent2(self, x: Self) -> Self {
        Real(self.0.atan2(x.0))
    }
    fn arc_tangent2(self, x: Self) -> Self {
        self.spec_arc_tangent2(x)
    }
    fn spec_sine(self) -> Self {
        Real(self.0.sin())
    }
    fn sine(self) -> Self {
        self.spec_sine()
    }
    fn spec_cosine(self) -> Self {
        Real(self.0.cos())
    }
    fn cosine(self) -> Self {
        self.spec_cosine()
    }
    fn spec_euclid_remainder(self, rhs: Self) -> Self {
        Real(self.0.rem_euclid(rhs.0))
    }
    fn euclid_remainder(self, rhs: Self) -> Self {
        self.spec_euclid_remainder(rhs)
    }
    fn spec_ceiling(self) -> Self {
        Real(self.0.ceil())
    }
    fn ceiling(self) -> Self {
        self.spec_ceiling()
    }
    fn spec_floor(self) -> Self {
        Real(self.0.floor())
    }
    fn floor(self) -> Self {
        self.spec_floor()
    }
    fn spec_to_i32(self) -> i32 {
        self.0 as i32
    }
    fn to_i32(self) -> i32 {
        self.spec_to_i32()
    }
    fn spec_from_i32(value: i32) -> Self {
        Real(value as f32)
    }
    fn from_i32(value: i32) -> Self {
        Self::spec_from_i32(value)
    }
    fn spec_from_usize(value: usize) -> Self {
        Real(value as f32)
    }
    fn from_usize(value: usize) -> Self {
        Self::spec_from_usize(value)
    }
    fn spec_signum(self) -> Self {
        Real(self.0.signum())
    }
    fn signum(self) -> Self {
        self.spec_signum()
    }
    fn spec_sign(self) -> i8 {
        self.0.signum() as i8
    }
    fn sign(self) -> i8 {
        self.spec_sign()
    }
    fn spec_is_finite(self) -> bool {
        self.0.is_finite()
    }
    fn is_finite(self) -> bool {
        self.spec_is_finite()
    }
    fn spec_less_than(self, rhs: Self) -> bool {
        self.0 < rhs.0
    }
    fn less_than(self, rhs: Self) -> bool {
        self.spec_less_than(rhs)
    }
    fn spec_at_most(self, rhs: Self) -> bool {
        self.0 <= rhs.0
    }
    fn at_most(self, rhs: Self) -> bool {
        self.spec_at_most(rhs)
    }
    fn spec_equals(self, rhs: Self) -> bool {
        self.0 == rhs.0
    }
    fn equals(self, rhs: Self) -> bool {
        self.spec_equals(rhs)
    }
    fn spec_smaller(self, rhs: Self) -> Self {
        Real(self.0.min(rhs.0))
    }
    fn smaller(self, rhs: Self) -> Self {
        self.spec_smaller(rhs)
    }
    fn spec_larger(self, rhs: Self) -> Self {
        Real(self.0.max(rhs.0))
    }
    fn larger(self, rhs: Self) -> Self {
        self.spec_larger(rhs)
    }
    fn spec_clamped(self, low: Self, high: Self) -> Self {
        Real(if self.0 < low.0 {
            low.0
        } else if self.0 > high.0 {
            high.0
        } else {
            self.0
        })
    }
    fn clamped(self, low: Self, high: Self) -> Self {
        self.spec_clamped(low, high)
    }
    fn spec_total_order(self, rhs: Self) -> TotalOrder {
        match self.0.total_cmp(&rhs.0) {
            std::cmp::Ordering::Less => TotalOrder::Less,
            std::cmp::Ordering::Equal => TotalOrder::Equal,
            std::cmp::Ordering::Greater => TotalOrder::Greater,
        }
    }
    fn total_order(self, rhs: Self) -> TotalOrder {
        self.spec_total_order(rhs)
    }
}

fn v(x: f32, y: f32) -> Vector<Real> {
    Vector::new(Real(x), Real(y))
}

fn wheel(x: f32, y: f32, radius: f32, winding: RoutedRopeWinding) -> RoutedRopePulleyGeometry<Real> {
    RoutedRopePulleyGeometry { center: v(x, y), radius: Real(radius), winding }
}

fn close(a: Vector<Real>, x: f32, y: f32) -> bool {
    (a.x.0 - x).abs() < 2.0e-6 && (a.y.0 - y).abs() < 2.0e-6
}

fn rope() -> RoutedRopeConstraint<Real> {
    RoutedRopeConstraint::new(
        RoutedRopePoint::World(v(-1.0, 0.0)),
        RoutedRopePoint::World(v(1.0, 0.0)),
        vec![RoutedRopePulley {
            center: RoutedRopePoint::World(v(0.0, 1.0)),
            radius: Real(0.2),
            winding: RoutedRopeWinding::Clockwise,
        }],
        Real(3.0),
    )
}

#[test]
fn arena_handles_survive_removal_without_aliasing() {
    let mut set = RoutedRopeConstraintSet::new();
    let first = set.insert(rope());
    set.remove(first).expect("first constraint");
    let second = set.insert(rope());
    assert_ne!(first, second);
    assert!(set.get(first).is_none());
    assert!(set.get(second).is_some());
}

#[test]
fn missing_body_disables_only_the_constraint() {
    let mut bodies = RigidBodySet::new();
    let body = bodies.insert(RigidBody::dynamic());
    let mut constraint = RoutedRopeConstraint::new(
        RoutedRopePoint::Body { body, local_anchor: Vector::zero() },
        RoutedRopePoint::World(v(1.0, 0.0)),
        vec![RoutedRopePulley {
            center: RoutedRopePoint::World(v(0.5, 1.0)),
            radius: Real(0.1),
            winding: RoutedRopeWinding::Clockwise,
        }],
        Real(3.0),
    );
    bodies.remove(body);
    constraint.prepare(&bodies);
    assert_eq!(constraint.status(), RoutedRopeStatus::MissingBody);
    assert!(!constraint.enabled);
}

#[test]
fn resolves_a_fixed_pulley_route_and_gradients() {
    let route = resolve_route(
        v(-1.0, 0.0),
        v(0.0, -1.0),
        &[wheel(0.0, 0.0, 0.2, RoutedRopeWinding::Clockwise)],
    )
    .expect("valid fixed-pulley route");
    assert!(route.total_length.0 > 1.9 && route.total_length.0 < 3.1);
    assert_eq!(route.gradients.len(), 3);
    assert!(route.gradients.iter().all(|value| value.is_finite()));
}

#[test]
fn rejects_overlapping_pulleys() {
    let wheels = [
        wheel(0.0, 0.0, 0.2, RoutedRopeWinding::Clockwise),
        wheel(0.3, 0.0, 0.2, RoutedRopeWinding::Clockwise),
    ];
    assert_eq!(
        resolve_route(v(-1.0, 0.0), v(1.0, 0.0), &wheels).unwrap_err(),
        RoutedRopeStatus::PulleyOverlap
    );
}

#[test]
fn half_wrap_has_straight_legs_plus_half_circumference() {
    // Two vertical legs of length 1 hanging from a wheel of radius 0.5,
    // wrapped clockwise over its top.
    let route = resolve_route(
        v(-0.5, -1.0),
        v(0.5, -1.0),
        &[wheel(0.0, 0.0, 0.5, RoutedRopeWinding::Clockwise)],
    )
    .expect("half wrap");
    let expected = 2.0 + std::f32::consts::PI * 0.5;
    assert!((route.total_length.0 - expected).abs() < 1.0e-5);
    assert!(close(route.gradients[0], 0.0, -1.0));
    assert!(close(route.gradients[1], 0.0, -1.0));
    assert!(close(route.gradients[2], 0.0, 2.0));
}

#[test]
fn opposite_winding_takes_the_long_way_round() {
    // Wrapped counterclockwise, both legs reach the wheel from below and the
    // rope runs almost all the way round it.
    let route = resolve_route(
        v(-0.5, -1.0),
        v(0.5, -1.0),
        &[wheel(0.0, 0.0, 0.5, RoutedRopeWinding::Counterclockwise)],
    )
    .expect("long wrap");
    let gap = 2.0 * 0.3f32.atan2(0.4);
    let expected = 2.0 + 0.5 * (std::f32::consts::TAU - gap);
    assert!((route.total_length.0 - expected).abs() < 1.0e-5);
    assert!(close(route.gradients[0], -0.8, -0.6));
    assert!(close(route.gradients[1], 0.8, -0.6));
}

#[test]
fn route_statuses_follow_the_check_order() {
    let good = wheel(0.0, 1.0, 0.2, RoutedRopeWinding::Clockwise);
    assert_eq!(
        resolve_route(v(f32::NAN, 0.0), v(1.0, 0.0), &[good]).unwrap_err(),
        RoutedRopeStatus::InvalidCoordinates
    );
    assert_eq!(
        resolve_route(v(-1.0, 0.0), v(1.0, 0.0), &[wheel(0.0, 1.0, 0.0, RoutedRopeWinding::Clockwise)])
            .unwrap_err(),
        RoutedRopeStatus::InvalidCoordinates
    );
    // Invalid coordinates are reported before a missing pulley.
    assert_eq!(
        resolve_route(v(f32::INFINITY, 0.0), v(1.0, 0.0), &[]).unwrap_err(),
        RoutedRopeStatus::InvalidCoordinates
    );
    assert_eq!(
        resolve_route(v(-1.0, 0.0), v(1.0, 0.0), &[]).unwrap_err(),
        RoutedRopeStatus::NoPulleys
    );
    // Endpoint A on the rim: no tangent leaves it.
    assert_eq!(
        resolve_route(v(0.0, 1.2), v(1.0, 0.0), &[good]).unwrap_err(),
        RoutedRopeStatus::TangentUnavailable
    );
}

#[test]
fn a_wheel_on_a_straight_leg_obstructs_the_route() {
    // The leg from A to the top of the first wheel passes through the centre
    // of the second wheel, which it does not wrap.
    let wheels = [
        wheel(0.0, 0.0, 0.5, RoutedRopeWinding::Clockwise),
        wheel(-2.0, 0.25, 0.2, RoutedRopeWinding::Clockwise),
    ];
    assert_eq!(
        resolve_route(v(-4.0, 0.0), v(4.0, 0.0), &wheels).unwrap_err(),
        RoutedRopeStatus::SegmentObstructed
    );
    // Moved well above the leg, the same wheel leaves the route clear.
    let clear = [
        wheel(0.0, 0.0, 0.5, RoutedRopeWinding::Clockwise),
        wheel(-2.0, 3.0, 0.2, RoutedRopeWinding::Clockwise),
    ];
    assert!(resolve_route(v(-4.0, 0.0), v(4.0, 0.0), &clear).is_ok());
}

#[test]
fn touching_rims_count_as_overlap() {
    let wheels = [
        wheel(0.0, 0.0, 0.5, RoutedRopeWinding::Clockwise),
        wheel(1.0, 0.0, 0.5, RoutedRopeWinding::Clockwise),
    ];
    assert_eq!(
        resolve_route(v(-2.0, 0.0), v(2.0, 0.0), &wheels).unwrap_err(),
        RoutedRopeStatus::PulleyOverlap
    );
}

#[test]
fn new_constraint_starts_enabled_and_idle() {
    let c = rope();
    assert!(c.enabled);
    assert_eq!(c.status(), RoutedRopeStatus::Valid);
    assert!(!c.active());
    assert_eq!(c.current_length(), Real(0.0));
    // Nothing is routed yet: the length error is 0 - max_length.
    assert_eq!(c.length_error(), Real(-3.0));
    assert_eq!(c.constraint_speed(), Real(0.0));
    assert_eq!(c.step_impulse(), Real(0.0));
}

#[test]
fn disabling_then_enabling_restores_a_valid_status() {
    let mut c = rope();
    c.set_enabled(false);
    assert!(!c.enabled);
    assert_eq!(c.status(), RoutedRopeStatus::Disabled);
    c.set_enabled(true);
    assert!(c.enabled);
    assert_eq!(c.status(), RoutedRopeStatus::Valid);
    assert_eq!(c.step_impulse(), Real(0.0));
}

#[test]
fn disabled_constraint_ignores_preparation() {
    let bodies: RigidBodySet<Real> = RigidBodySet::new();
    let mut c = rope();
    c.set_enabled(false);
    c.prepare(&bodies);
    assert_eq!(c.status(), RoutedRopeStatus::Disabled);
}

#[test]
fn preparation_rejects_bad_length_and_missing_pulleys() {
    let bodies: RigidBodySet<Real> = RigidBodySet::new();
    let mut c = rope();
    c.max_length = Real(-1.0);
    c.prepare(&bodies);
    assert_eq!(c.status(), RoutedRopeStatus::InvalidCoordinates);
    assert!(!c.enabled);

    let mut c = rope();
    c.max_length = Real(f32::INFINITY);
    c.prepare(&bodies);
    assert_eq!(c.status(), RoutedRopeStatus::InvalidCoordinates);

    let mut c = rope();
    c.pulleys.clear();
    c.prepare(&bodies);
    assert_eq!(c.status(), RoutedRopeStatus::NoPulleys);
    assert!(!c.enabled);
}

#[test]
fn disabled_body_counts_as_missing() {
    let mut bodies = RigidBodySet::new();
    let mut body = RigidBody::dynamic();
    body.enabled = false;
    let handle = bodies.insert(body);
    let mut c = rope();
    c.pulleys[0].center = RoutedRopePoint::Body { body: handle, local_anchor: v(0.0, 1.0) };
    c.prepare(&bodies);
    assert_eq!(c.status(), RoutedRopeStatus::MissingBody);
    assert!(!c.enabled);
}

fn hanging_world() -> (RigidBodySet<Real>, RoutedRopeConstraint<Real>) {
    let mut bodies = RigidBodySet::new();
    let mut body = RigidBody::dynamic();
    body.active_set_id = 0;
    body.position = Pose { rotation: Rotation::identity(), translation: v(-0.5, -1.0) };
    body.world_com = v(-0.5, -1.0);
    body.linvel = v(0.0, -1.0);
    let handle = bodies.insert(body);
    let c = RoutedRopeConstraint::new(
        RoutedRopePoint::Body { body: handle, local_anchor: Vector::zero() },
        RoutedRopePoint::World(v(0.5, -1.0)),
        vec![RoutedRopePulley {
            center: RoutedRopePoint::World(v(0.0, 0.0)),
            radius: Real(0.5),
            winding: RoutedRopeWinding::Clockwise,
        }],
        Real(3.0),
    );
    (bodies, c)
}

fn solver_view(body: &RigidBody<Real>) -> SolverBodies<Real> {
    SolverBodies {
        poses: vec![SolverPose {
            rotation: body.position.rotation,
            translation: body.world_com,
            im: v(1.0, 1.0),
            ii: Real(1.0),
        }],
        vels: vec![SolverVel { linear: body.linvel, angular: Real(0.0) }],
    }
}

fn params() -> IntegrationParameters<Real> {
    IntegrationParameters {
        dt: Real(1.0 / 60.0),
        warmstart_joints: true,
        warmstart_coefficient: Real(1.0),
        max_corrective_velocity: Real(10.0),
        joint_cfm_coeff: Real(0.0),
        joint_erp_inv_dt: Real(0.0),
    }
}

#[test]
fn taut_rope_stops_a_body_moving_away() {
    let (bodies, mut c) = hanging_world();
    c.prepare(&bodies);
    assert_eq!(c.status(), RoutedRopeStatus::Valid);
    let body = *bodies.get(lib::body::RigidBodyHandle(unpack_index(0))).unwrap();
    let mut solver = solver_view(&body);
    c.begin_step();
    c.update_substep(&params(), &solver);
    assert_eq!(c.status(), RoutedRopeStatus::Valid);
    // The routed length 2 + pi/2 exceeds the maximum of 3 and the body moves
    // away from the wheel: the rope is taut and pulls.
    c.warmstart(&mut solver);
    for _ in 0..8 {
        c.solve(&mut solver, false);
    }
    c.finish_substep(&solver);
    assert!(c.active());
    assert!(c.step_impulse().0 > 0.0);
    // The rope removes the velocity along its direction: the body no longer
    // moves down faster than the slack allows.
    assert!(solver.vels[0].linear.y.0 > -1.0);
}

#[test]
fn slack_rope_stays_inactive() {
    let (bodies, mut c) = hanging_world();
    c.max_length = Real(100.0);
    c.prepare(&bodies);
    let body = *bodies.get(lib::body::RigidBodyHandle(unpack_index(0))).unwrap();
    let mut solver = solver_view(&body);
    solver.vels[0].linear = v(0.0, 1.0);
    c.begin_step();
    c.update_substep(&params(), &solver);
    c.warmstart(&mut solver);
    c.solve(&mut solver, false);
    c.finish_substep(&solver);
    assert!(!c.active());
    assert_eq!(c.step_impulse(), Real(0.0));
    assert_eq!(solver.vels[0].linear.y, Real(1.0));
}

#[test]
fn refreshed_observations_report_length_and_rate() {
    let (bodies, mut c) = hanging_world();
    c.refresh_observations(&bodies);
    let expected = 2.0 + std::f32::consts::PI * 0.5;
    assert!((c.current_length().0 - expected).abs() < 1.0e-5);
    assert!((c.length_error().0 - (expected - 3.0)).abs() < 1.0e-5);
    // The body moves down at speed 1 along the leg: the rope lengthens at rate 1.
    assert!((c.constraint_speed().0 - 1.0).abs() < 1.0e-5);
}

#[test]
fn static_route_cannot_be_solved() {
    let bodies: RigidBodySet<Real> = RigidBodySet::new();
    let mut c = rope();
    c.prepare(&bodies);
    let solver = SolverBodies { poses: Vec::new(), vels: Vec::new() };
    c.update_substep(&params(), &solver);
    assert_eq!(c.status(), RoutedRopeStatus::NoDynamicParticipant);
    assert!(!c.enabled);
}

#[test]
fn wake_participants_lists_moving_bodies() {
    let mut bodies = RigidBodySet::new();
    let moving = bodies.insert(RigidBody::dynamic());
    let fixed = bodies.insert(RigidBody::fixed());
    let mut set = RoutedRopeConstraintSet::new();
    let mut c = rope();
    c.endpoint_a = RoutedRopePoint::Body { body: moving, local_anchor: Vector::zero() };
    c.endpoint_b = RoutedRopePoint::Body { body: fixed, local_anchor: Vector::zero() };
    set.insert(c);
    assert_eq!(set.wake_participants(&bodies), vec![moving]);
    assert!(set.has_enabled());
}

#[test]
fn set_counts_and_empties() {
    let mut set = RoutedRopeConstraintSet::new();
    assert!(set.is_empty());
    let a = set.insert(rope());
    let b = set.insert(rope());
    assert_eq!(set.len(), 2);
    assert!(set.remove(a).is_some());
    assert!(set.remove(a).is_none());
    assert_eq!(set.len(), 1);
    set.get_mut(b).unwrap().set_enabled(false);
    assert!(!set.has_enabled());
    assert!(set.remove(b).is_some());
    assert!(set.is_empty());
}

#[test]
fn handle_raw_parts_round_trip() {
    let h = RoutedRopeConstraintHandle::from_raw_parts(7, 9);
    assert_eq!(h.into_raw_parts(), (7, 9));
    let d = RoutedRopeConstraintHandle::default();
    assert_eq!(d.into_raw_parts(), (u32::MAX, u32::MAX));
}

#[test]
fn flat_handles_pack_slot_low_and_generation_high() {
    let index = Index::from_raw_parts(3, 5);
    let bits = flat_handle(index);
    assert_eq!(bits, 3 | (5u64 << 32));
    assert_eq!(unpack_index(bits), index);
}

#[test]
fn status_codes_are_stable() {
    assert_eq!(RoutedRopeStatus::Valid.code(), 0);
    assert_eq!(RoutedRopeStatus::MissingBody.code(), 7);
    assert_eq!(RoutedRopeStatus::NoDynamicParticipant.code(), 8);
    assert_eq!(RoutedRopeStatus::from_code(4), Some(RoutedRopeStatus::PulleyOverlap));
    assert_eq!(RoutedRopeStatus::from_code(9), None);
}

#[test]
fn flat_description_builds_the_rope() {
    let c = create_routed_rope_constraint(
        Real(3.0),
        &[0, 1, 0],
        &[0, 2 | (4u64 << 32), 0],
        &[Real(-1.0), Real(0.0), Real(1.0), Real(0.0), Real(0.0), Real(1.0)],
        &[Real(0.2)],
        &[1],
    )
    .unwrap();
    assert!(matches!(c.endpoint_a, RoutedRopePoint::World(p) if p.x == Real(-1.0)));
    match c.endpoint_b {
        RoutedRopePoint::Body { body, .. } => assert_eq!(body.0.into_raw_parts(), (2, 4)),
        _ => panic!("endpoint B must ride on a body"),
    }
    assert_eq!(c.pulleys.len(), 1);
    assert_eq!(c.pulleys[0].winding, RoutedRopeWinding::Counterclockwise);
}

#[test]
fn flat_description_errors() {
    let coords = [Real(-1.0), Real(0.0), Real(1.0), Real(0.0), Real(0.0), Real(1.0)];
    let make = |max: f32, kinds: &[u32], coords: &[Real], radii: &[Real], windings: &[u32]| {
        create_routed_rope_constraint(Real(max), kinds, &[0, 0, 0], coords, radii, windings)
            .err()
            .map(|e| e.message())
    };
    assert_eq!(make(0.0, &[0, 0, 0], &coords, &[Real(0.2)], &[0]), Some(RopeInputError::InvalidMaxLength.message()));
    assert_eq!(make(3.0, &[0, 0], &coords, &[Real(0.2)], &[0]), Some("invalid routed-rope array lengths"));
    assert_eq!(make(3.0, &[0, 0, 0], &coords, &[], &[]), Some("invalid routed-rope array lengths"));
    let mut nan = coords;
    nan[3] = Real(f32::NAN);
    assert_eq!(make(3.0, &[0, 0, 0], &nan, &[Real(0.2)], &[0]), Some("routed-rope point must be finite"));
    assert_eq!(make(3.0, &[0, 2, 0], &coords, &[Real(0.2)], &[0]), Some("unknown routed-rope point kind"));
    assert_eq!(make(3.0, &[0, 0, 0], &coords, &[Real(-0.2)], &[0]), Some("pulley radius must be finite and positive"));
    assert_eq!(make(3.0, &[0, 0, 0], &coords, &[Real(0.2)], &[2]), Some("unknown pulley winding"));
}

#[test]
fn host_queries_through_flat_handles() {
    let mut set = RoutedRopeConstraintSet::new();
    let bits = insert_routed_rope_constraint(
        &mut set,
        Real(3.0),
        &[0, 0, 0],
        &[0, 0, 0],
        &[Real(-1.0), Real(0.0), Real(1.0), Real(0.0), Real(0.0), Real(1.0)],
        &[Real(0.2)],
        &[0],
    )
    .unwrap();
    assert!(routed_rope_constraint_is_valid(&set, bits));
    assert_eq!(routed_rope_status_code(&set, bits), 0);
    assert!(!routed_rope_constraint_active(&set, bits));
    assert_eq!(
        routed_rope_constraint_observations(&set, bits),
        Some((Real(0.0), Real(-3.0), Real(0.0), Real(0.0)))
    );
    assert!(set_routed_rope_constraint_enabled(&mut set, bits, false));
    assert_eq!(routed_rope_status_code(&set, bits), 1);
    assert!(remove_routed_rope_constraint(&mut set, bits));
    assert!(!remove_routed_rope_constraint(&mut set, bits));
    assert_eq!(routed_rope_status_code(&set, bits), u32::MAX);
    assert!(!set_routed_rope_constraint_enabled(&mut set, bits, true));
    assert_eq!(routed_rope_constraint_observations(&set, bits), None);
}

#[test]
fn description_verdicts_follow_the_check_order() {
    let ok3 = [true, true, true];
    assert_eq!(description_error(true, &[0, 1, 0], 3, 6, 1, &[0], &ok3, &[true]), None);
    assert_eq!(description_error(false, &[0, 1, 0], 3, 6, 1, &[0], &[], &[]), Some(RopeInputError::InvalidMaxLength));
    assert_eq!(description_error(false, &[0], 1, 1, 1, &[], &[], &[]), Some(RopeInputError::InvalidMaxLength));
    assert_eq!(description_error(true, &[0, 1, 0], 2, 6, 1, &[0], &[], &[]), Some(RopeInputError::InvalidArrayLengths));
    assert_eq!(description_error(true, &[0, 0], 2, 4, 0, &[], &[], &[]), Some(RopeInputError::InvalidArrayLengths));
    // Endpoint B is judged before the first pulley.
    assert_eq!(
        description_error(true, &[0, 0, 0], 3, 6, 1, &[0], &[true, false, true], &[false]),
        Some(RopeInputError::NonFinitePoint)
    );
    assert_eq!(description_error(true, &[5, 0, 0], 3, 6, 1, &[0], &ok3, &[true]), Some(RopeInputError::UnknownPointKind));
    // Within a pulley: radius, then winding, then center.
    assert_eq!(
        description_error(true, &[0, 0, 7], 3, 6, 1, &[9], &[true, true, false], &[false]),
        Some(RopeInputError::InvalidPulleyRadius)
    );
    assert_eq!(
        description_error(true, &[0, 0, 7], 3, 6, 1, &[9], &[true, true, false], &[true]),
        Some(RopeInputError::UnknownPulleyWinding)
    );
    assert_eq!(
        description_error(true, &[0, 0, 7], 3, 6, 1, &[1], &[true, true, false], &[true]),
        Some(RopeInputError::NonFinitePoint)
    );
    assert_eq!(description_error(true, &[0, 0, 7], 3, 6, 1, &[1], &ok3, &[true]), Some(RopeInputError::UnknownPointKind));
    // Pulleys are judged in order.
    assert_eq!(
        description_error(true, &[0, 0, 0, 9], 4, 8, 2, &[3, 0], &[true; 4], &[true, false]),
        Some(RopeInputError::UnknownPulleyWinding)
    );
}

#[test]
fn a_disabled_rope_takes_no_part_in_a_step() {
    let (bodies, mut c) = hanging_world();
    c.set_enabled(false);
    let body = *bodies.get(lib::body::RigidBodyHandle(unpack_index(0))).unwrap();
    let mut solver = solver_view(&body);
    c.prepare(&bodies);
    c.update_substep(&params(), &solver);
    c.warmstart(&mut solver);
    c.solve(&mut solver, false);
    c.finish_substep(&solver);
    c.refresh_observations(&bodies);
    assert_eq!(c.status(), RoutedRopeStatus::Disabled);
    assert!(!c.active());
    assert_eq!(c.current_length(), Real(0.0));
    assert_eq!(c.constraint_speed(), Real(0.0));
    assert_eq!(c.step_impulse(), Real(0.0));
    assert_eq!(solver.vels[0].linear.y, Real(-1.0));
}

#[test]
fn a_fresh_set_can_remove() {
    let set: RoutedRopeConstraintSet<Real> = RoutedRopeConstraintSet::new();
    assert!(set.generations_left());
}

#[test]
fn clockwise_wrap_over_the_top_has_exact_length_and_gradients() {
    let wheels = [wheel(0.0, 1.0, 0.2, RoutedRopeWinding::Clockwise)];
    let r = resolve_route(v(-1.0, 0.0), v(1.0, 0.0), &wheels).unwrap();
    // Two tangents of length 1.4 and a clockwise wrap of 0.2 * (pi - 2 atan(0.75)).
    let expected = 2.8 + 0.2 * (std::f32::consts::PI - 2.0 * 0.75f32.atan());
    assert!((r.total_length.0 - expected).abs() < 1.0e-5);
    assert_eq!(r.gradients.len(), 3);
    let near = |g: Vector<Real>, x: f32, y: f32| (g.x.0 - x).abs() < 1.0e-5 && (g.y.0 - y).abs() < 1.0e-5;
    assert!(near(r.gradients[0], -0.6, -0.8));
    assert!(near(r.gradients[1], 0.6, -0.8));
    assert!(near(r.gradients[2], 0.0, 1.6));
}

#[test]
fn a_leg_grazing_a_later_wheel_is_obstructed() {
    let wheels = [
        wheel(4.0, 0.0, 0.5, RoutedRopeWinding::Clockwise),
        wheel(0.0, 0.0, 0.5, RoutedRopeWinding::Clockwise),
    ];
    assert_eq!(
        resolve_route(v(-4.0, 0.0), v(0.0, -4.0), &wheels).unwrap_err(),
        RoutedRopeStatus::SegmentObstructed
    );
}

#[test]
fn an_endpoint_inside_the_wheel_has_no_tangent() {
    let wheels = [wheel(0.0, 0.0, 1.0, RoutedRopeWinding::Clockwise)];
    assert_eq!(
        resolve_route(v(0.0, 0.0), v(5.0, 0.0), &wheels).unwrap_err(),
        RoutedRopeStatus::TangentUnavailable
    );
}

#[test]
fn a_non_positive_radius_is_an_invalid_coordinate() {
    let wheels = [wheel(0.0, 1.0, 0.0, RoutedRopeWinding::Clockwise)];
    assert_eq!(
        resolve_route(v(-1.0, 0.0), v(1.0, 0.0), &wheels).unwrap_err(),
        RoutedRopeStatus::InvalidCoordinates
    );
}

#[test]
fn missing_body_on_refresh_keeps_the_last_readings() {
    let (mut bodies, mut c) = hanging_world();
    c.refresh_observations(&bodies);
    assert_eq!(c.status(), RoutedRopeStatus::Valid);
    let length = c.current_length();
    let error = c.length_error();
    let speed = c.constraint_speed();
    let handle = match c.endpoint_a {
        RoutedRopePoint::Body { body, .. } => body,
        RoutedRopePoint::World(_) => unreachable!(),
    };
    bodies.get_mut(handle).unwrap().enabled = false;
    c.refresh_observations(&bodies);
    assert_eq!(c.status(), RoutedRopeStatus::MissingBody);
    assert!(!c.enabled);
    assert!(!c.active());
    assert_eq!(c.current_length(), length);
    assert_eq!(c.length_error(), error);
    assert_eq!(c.constraint_speed(), speed);
}

#[test]
fn freed_slots_are_reused_last_freed_first() {
    let mut set = RoutedRopeConstraintSet::new();
    let a = set.insert(rope());
    let b = set.insert(rope());
    let c = set.insert(rope());
    assert_eq!((a.into_raw_parts().0, b.into_raw_parts().0, c.into_raw_parts().0), (0, 1, 2));
    set.remove(a).unwrap();
    set.remove(c).unwrap();
    assert_eq!(set.insert(rope()).into_raw_parts().0, 2);
    assert_eq!(set.insert(rope()).into_raw_parts().0, 0);
    assert_eq!(set.insert(rope()).into_raw_parts().0, 3);
}
