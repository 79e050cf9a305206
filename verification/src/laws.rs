//! Laws of rope routing, of the rope solver and of profile queries, each
//! stated over the results of the operations in terms of their inputs.
use vstd::prelude::*;

use crate::body::{IntegrationParameters, Pose, RigidBodySet, SolverBodies, SolverPose};
use crate::profile::{
    spec_angle_on_sweep, spec_circle_point, spec_closest_boundary, AnalyticProfile, ProfileMode, ProfileSegment,
};
use crate::profile_box::{spec_profile_ball_contact, Ball};
use crate::profile_interior::spec_contains;
use crate::rope::{
    substep_jacobians, BodyJacobian, PreparedPoint, RoutedRopeConstraint, RoutedRopePoint, RoutedRopeStatus,
    RoutedRopeWinding,
};
use crate::route::{
    departure_candidates, lemma_smallest_of_member, present, route_segment, route_segments, smallest_of,
    spec_common_tangent, spec_resolve_route, spec_tangent_contacts, spec_wheel_to_point, spec_wheel_to_wheel,
    RoutedRopePulleyGeometry, Segment,
};
use crate::scalar::{Scalar, Vector};
use crate::segment_pair::kept;

verus! {

/// The turning sign that a winding asks of the rope: clockwise is -1 and
/// counterclockwise +1.
pub open spec fn winding_sign(winding: RoutedRopeWinding) -> i8 {
    match winding {
        RoutedRopeWinding::Clockwise => -1i8,
        RoutedRopeWinding::Counterclockwise => 1i8,
    }
}

/// Whether a rope running along `direction` through `point` turns around
/// `center` with `sign`: `point` is off the center by more than the routing
/// tolerance, and the cross product of the unit radius at `point` with
/// `direction` has that sign.
pub open spec fn turns_with<S: Scalar>(direction: Vector<S>, point: Vector<S>, center: Vector<S>, sign: i8) -> bool {
    let radius = point.spec_minus(center);
    let length = radius.spec_length();
    &&& !length.spec_at_most(S::spec_from_decimal(1i64, -6i32))
    &&& radius.spec_divided_by(length).spec_cross(direction).spec_sign() == sign
}

/// Whether `s` leaves `first` in its winding and reaches `second` in its winding.
pub open spec fn follows_windings<S: Scalar>(
    s: Segment<S>,
    first: RoutedRopePulleyGeometry<S>,
    second: RoutedRopePulleyGeometry<S>,
) -> bool {
    &&& turns_with(s.direction, s.from, first.center, winding_sign(first.winding))
    &&& turns_with(s.direction, s.to, second.center, winding_sign(second.winding))
}

/// The segment between two wheels leaves the first one in the first wheel's
/// winding and reaches the second one in the second wheel's winding.
pub proof fn law_wheel_to_wheel_follows_both_windings<S: Scalar>(
    first: RoutedRopePulleyGeometry<S>,
    second: RoutedRopePulleyGeometry<S>,
)
    ensures
        spec_wheel_to_wheel(first, second) matches Some(s) ==> follows_windings(s, first, second),
{
    let c = present(spec_common_tangent(first, second, true, true)) + present(spec_common_tangent(first, second, true, false))
        + present(spec_common_tangent(first, second, false, true)) + present(
        spec_common_tangent(first, second, false, false),
    );
    if c.len() > 0 {
        lemma_smallest_of_member(c, c.len() as int);
        let s = smallest_of(c, c.len() as int);
        let i = c.index_of(s);
        assert(c[i] == s);
        assert(follows_windings(s, first, second)) by {
            if spec_common_tangent(first, second, true, true) is Some && s == spec_common_tangent(first, second, true, true)->0 {
            } else if spec_common_tangent(first, second, true, false) is Some && s == spec_common_tangent(first, second, true, false)->0 {
            } else if spec_common_tangent(first, second, false, true) is Some && s == spec_common_tangent(first, second, false, true)->0 {
            } else {
                assert(spec_common_tangent(first, second, false, false) is Some && s == spec_common_tangent(first, second, false, false)->0);
            }
        }
    }
}

proof fn lemma_departures_leave_in_winding<S: Scalar>(
    point: Vector<S>,
    wheel: RoutedRopePulleyGeometry<S>,
    k: int,
)
    ensures
        forall|j: int|
            0 <= j < departure_candidates(
                point,
                wheel.center,
                spec_tangent_contacts(point, wheel.center, wheel.radius),
                winding_sign(wheel.winding),
                k,
            ).len() ==> #[trigger] turns_with(
                departure_candidates(
                    point,
                    wheel.center,
                    spec_tangent_contacts(point, wheel.center, wheel.radius),
                    winding_sign(wheel.winding),
                    k,
                )[j].direction,
                departure_candidates(
                    point,
                    wheel.center,
                    spec_tangent_contacts(point, wheel.center, wheel.radius),
                    winding_sign(wheel.winding),
                    k,
                )[j].from,
                wheel.center,
                winding_sign(wheel.winding),
            ),
    decreases k,
{
    if k > 0 {
        lemma_departures_leave_in_winding(point, wheel, k - 1);
        let contacts = spec_tangent_contacts(point, wheel.center, wheel.radius);
        let sign = winding_sign(wheel.winding);
        let earlier = departure_candidates(point, wheel.center, contacts, sign, k - 1);
        let now = departure_candidates(point, wheel.center, contacts, sign, k);
        assert forall|j: int| 0 <= j < now.len() implies #[trigger] turns_with(now[j].direction, now[j].from, wheel.center, sign) by {
            if j < earlier.len() {
                assert(now[j] == earlier[j]);
                assert(turns_with(earlier[j].direction, earlier[j].from, wheel.center, sign));
            }
        }
    }
}

/// The last leg of a route leaves its wheel in that wheel's winding.
pub proof fn law_wheel_to_point_follows_the_winding<S: Scalar>(wheel: RoutedRopePulleyGeometry<S>, point: Vector<S>)
    ensures
        spec_wheel_to_point(wheel, point) matches Some(s) ==> turns_with(
            s.direction,
            s.from,
            wheel.center,
            winding_sign(wheel.winding),
        ),
{
    let contacts = spec_tangent_contacts(point, wheel.center, wheel.radius);
    let c = departure_candidates(point, wheel.center, contacts, winding_sign(wheel.winding), contacts.len() as int);
    lemma_departures_leave_in_winding(point, wheel, contacts.len() as int);
    if c.len() > 0 {
        lemma_smallest_of_member(c, c.len() as int);
        let s = smallest_of(c, c.len() as int);
        let i = c.index_of(s);
        assert(c[i] == s);
        assert(turns_with(c[i].direction, c[i].from, wheel.center, winding_sign(wheel.winding)));
    }
}

/// In a resolved route every leg between two consecutive wheels leaves the
/// first in its winding and reaches the next in its winding, and the last
/// leg leaves the last wheel in its winding.
pub proof fn law_resolved_route_follows_the_windings<S: Scalar>(
    a: Vector<S>,
    b: Vector<S>,
    wheels: Seq<RoutedRopePulleyGeometry<S>>,
)
    requires
        spec_resolve_route(a, b, wheels) is Ok,
    ensures
        forall|k: int|
            1 <= k < wheels.len() ==> follows_windings(#[trigger] route_segments(a, b, wheels)[k], wheels[k - 1], wheels[k]),
        turns_with(
            route_segments(a, b, wheels)[wheels.len() as int].direction,
            route_segments(a, b, wheels)[wheels.len() as int].from,
            wheels[wheels.len() - 1].center,
            winding_sign(wheels[wheels.len() - 1].winding),
        ),
{
    let n = wheels.len() as int;
    assert forall|k: int| 1 <= k < n implies follows_windings(#[trigger] route_segments(a, b, wheels)[k], wheels[k - 1], wheels[k]) by {
        assert(route_segment(a, b, wheels, k) is Some);
        law_wheel_to_wheel_follows_both_windings(wheels[k - 1], wheels[k]);
    }
    assert(route_segment(a, b, wheels, n) is Some);
    law_wheel_to_point_follows_the_winding(wheels[n - 1], b);
}

/// The Jacobian entry that a body gets from a point it carries: the point's
/// length gradient, and for a turning point the cross product of the world
/// offset from the body's center of mass to the anchor with that gradient.
pub open spec fn carried_entry<S: Scalar>(point: PreparedPoint<S>, gradient: Vector<S>, poses: Seq<SolverPose<S>>) -> BodyJacobian<
    S,
> {
    let id = point.solver_body->0;
    BodyJacobian {
        solver_body: id,
        linear: gradient,
        angular: if point.angular_response {
            poses[id as int].rotation.spec_apply(point.local_com_anchor).spec_cross(gradient)
        } else {
            S::ZERO
        },
    }
}

/// Whether one of the first `m` prepared points follows the body slot `slot`.
pub open spec fn carried_before<S>(prepared: Seq<PreparedPoint<S>>, slot: u32, m: int) -> bool {
    exists|q: int| 0 <= q < m && #[trigger] prepared[q].solver_body == Some(slot)
}

proof fn lemma_entries_are_carried<S: Scalar>(
    prepared: Seq<PreparedPoint<S>>,
    gradients: Seq<Vector<S>>,
    poses: Seq<SolverPose<S>>,
    m: int,
)
    requires
        0 <= m,
    ensures
        forall|a: int|
            0 <= a < substep_jacobians(prepared, gradients, poses, m).len() ==> carried_before(
                prepared,
                #[trigger] substep_jacobians(prepared, gradients, poses, m)[a].solver_body,
                m,
            ),
    decreases m,
{
    if m > 0 {
        lemma_entries_are_carried(prepared, gradients, poses, m - 1);
        let earlier = substep_jacobians(prepared, gradients, poses, m - 1);
        let now = substep_jacobians(prepared, gradients, poses, m);
        assert forall|a: int| 0 <= a < now.len() implies carried_before(prepared, #[trigger] now[a].solver_body, m) by {
            match prepared[m - 1].solver_body {
                None => {
                    assert(carried_before(prepared, earlier[a].solver_body, m - 1));
                    let q = choose|q: int| 0 <= q < m - 1 && #[trigger] prepared[q].solver_body == Some(earlier[a].solver_body);
                    assert(prepared[q].solver_body == Some(now[a].solver_body));
                },
                Some(id) => {
                    if a < earlier.len() && now[a].solver_body == earlier[a].solver_body {
                        let q = choose|q: int| 0 <= q < m - 1 && #[trigger] prepared[q].solver_body == Some(earlier[a].solver_body);
                        assert(prepared[q].solver_body == Some(now[a].solver_body));
                    } else {
                        assert(now[a].solver_body == id);
                        assert(prepared[m - 1].solver_body == Some(now[a].solver_body));
                    }
                },
            }
        }
    }
}

proof fn lemma_sole_carrier_entry<S: Scalar>(
    prepared: Seq<PreparedPoint<S>>,
    gradients: Seq<Vector<S>>,
    poses: Seq<SolverPose<S>>,
    k: int,
    m: int,
)
    requires
        0 <= k < m,
        prepared[k].solver_body is Some,
        forall|q: int| 0 <= q < m && q != k ==> prepared[q].solver_body != prepared[k].solver_body,
    ensures
        substep_jacobians(prepared, gradients, poses, k).len() < substep_jacobians(prepared, gradients, poses, m).len(),
        substep_jacobians(prepared, gradients, poses, m)[substep_jacobians(prepared, gradients, poses, k).len() as int]
            == carried_entry(prepared[k], gradients[k], poses),
    decreases m,
{
    let id = prepared[k].solver_body->0;
    let i = substep_jacobians(prepared, gradients, poses, k).len() as int;
    let earlier = substep_jacobians(prepared, gradients, poses, m - 1);
    if m == k + 1 {
        lemma_entries_are_carried(prepared, gradients, poses, k);
        assert(!exists|j: int| 0 <= j < earlier.len() && (#[trigger] earlier[j]).solver_body == id) by {
            if exists|j: int| 0 <= j < earlier.len() && (#[trigger] earlier[j]).solver_body == id {
                let j = choose|j: int| 0 <= j < earlier.len() && (#[trigger] earlier[j]).solver_body == id;
                assert(carried_before(prepared, earlier[j].solver_body, k));
                let q = choose|q: int| 0 <= q < k && #[trigger] prepared[q].solver_body == Some(earlier[j].solver_body);
                assert(prepared[q].solver_body == prepared[k].solver_body);
            }
        }
    } else {
        lemma_sole_carrier_entry(prepared, gradients, poses, k, m - 1);
        assert(earlier[i].solver_body == id);
        match prepared[m - 1].solver_body {
            None => {},
            Some(other) => {
                assert(other != id);
                let point = prepared[m - 1];
                let gradient = gradients[m - 1];
                if exists|j: int| 0 <= j < earlier.len() && (#[trigger] earlier[j]).solver_body == other {
                    let j = choose|j: int| 0 <= j < earlier.len() && (#[trigger] earlier[j]).solver_body == other;
                    assert(j != i);
                }
            },
        }
    }
}

/// After a substep that re-routed the rope, a body that carries exactly one
/// routed point has a Jacobian entry made of that point's length gradient
/// and, for an endpoint, of the cross product of the world offset from the
/// body's center of mass to the anchor with the gradient: a pull along the
/// rope turns the body the way the anchor is pulled.
pub proof fn law_a_carried_point_moves_and_turns_its_body<S: Scalar>(
    before: RoutedRopeConstraint<S>,
    after: RoutedRopeConstraint<S>,
    params: IntegrationParameters<S>,
    bodies: SolverBodies<S>,
    k: int,
)
    requires
        RoutedRopeConstraint::substep_outcome(&before, &after, &params, &bodies),
        before.spec_enabled(),
        before.prepared().len() == before.point_count(),
        after.status() == RoutedRopeStatus::Valid,
        0 <= k < before.point_count(),
        before.prepared()[k].solver_body is Some,
        forall|q: int|
            0 <= q < before.point_count() && q != k ==> before.prepared()[q].solver_body != before.prepared()[k].solver_body,
        before.prepared_route(bodies.poses@) is Ok,
    ensures
        after.jacobians().contains(
            carried_entry(before.prepared()[k], before.prepared_route(bodies.poses@)->Ok_0.1[k], bodies.poses@),
        ),
{
    let gradients = before.prepared_route(bodies.poses@)->Ok_0.1;
    let jacobians = substep_jacobians(before.prepared(), gradients, bodies.poses@, before.point_count());
    assert(after.jacobians() == jacobians);
    lemma_sole_carrier_entry(before.prepared(), gradients, bodies.poses@, k, before.point_count());
    let i = substep_jacobians(before.prepared(), gradients, bodies.poses@, k).len() as int;
    assert(jacobians[i] == carried_entry(before.prepared()[k], gradients[k], bodies.poses@));
}

/// The rate at which the first `q` routed points lengthen the rope: each
/// point carried by a body moves with the body's velocity along its length
/// gradient, and an endpoint also turns with the body, adding the cross
/// product of its offset from the center of mass with the gradient, times the
/// angular velocity.
pub open spec fn lengthening_rate<S: Scalar>(
    c: RoutedRopeConstraint<S>,
    bodies: &RigidBodySet<S>,
    gradients: Seq<Vector<S>>,
    q: int,
) -> S
    decreases q,
{
    if q <= 0 {
        S::ZERO
    } else {
        let rate = lengthening_rate(c, bodies, gradients, q - 1);
        match c.route_point(q - 1) {
            RoutedRopePoint::World(_) => rate,
            RoutedRopePoint::Body { body, local_anchor } => {
                let b = bodies@[body];
                let moved = rate.spec_plus(gradients[q - 1].spec_dot(b.linvel));
                if q - 1 < 2 {
                    let offset = b.position.spec_transform_point(local_anchor).spec_minus(b.world_com);
                    moved.spec_plus(offset.spec_cross(gradients[q - 1]).spec_times(b.angvel))
                } else {
                    moved
                }
            },
        }
    }
}

proof fn lemma_observed_speed_is_lengthening_rate<S: Scalar>(
    c: RoutedRopeConstraint<S>,
    bodies: &RigidBodySet<S>,
    gradients: Seq<Vector<S>>,
    q: int,
)
    ensures
        c.observed_speed(bodies, gradients, q) == lengthening_rate(c, bodies, gradients, q),
    decreases q,
{
    if q > 0 {
        lemma_observed_speed_is_lengthening_rate(c, bodies, gradients, q - 1);
    }
}

/// After refreshing the observations of a rope whose route resolves, the
/// reported length rate is the rate at which the bodies' motion lengthens it.
pub proof fn law_refreshed_speed_is_the_lengthening_rate<S: Scalar>(
    before: RoutedRopeConstraint<S>,
    after: RoutedRopeConstraint<S>,
    bodies: &RigidBodySet<S>,
)
    requires
        RoutedRopeConstraint::refresh_outcome(&before, &after, bodies),
        before.spec_enabled(),
        before.points_available(bodies),
        before.observed_route(bodies) is Ok,
    ensures
        after.constraint_speed() == lengthening_rate(
            before,
            bodies,
            before.observed_route(bodies)->Ok_0.1,
            before.point_count(),
        ),
{
    lemma_observed_speed_is_lengthening_rate(before, bodies, before.observed_route(bodies)->Ok_0.1, before.point_count());
}

/// A ball against a solid profile: its contact distance is minus the
/// distance from its center to the nearest contour point, less its radius,
/// when the center is inside the profile, and that distance less its radius
/// when it is outside. Against an outline, half the thickness is taken off too.
pub proof fn law_ball_contact_distance<S: Scalar>(profile: AnalyticProfile<S>, profile_to_ball: Pose<S>, ball: Ball<S>)
    ensures
        ({
            let center = profile_to_ball.translation;
            let boundary = spec_closest_boundary(profile.spec_segments(), center);
            let distance = center.spec_minus(boundary.point).spec_length();
            let dist = spec_profile_ball_contact(profile, profile_to_ball, ball).dist;
            &&& profile.spec_mode() == ProfileMode::Solid && spec_contains(profile.spec_segments(), center) ==> dist
                == distance.spec_negated().spec_minus(ball.radius)
            &&& profile.spec_mode() == ProfileMode::Solid && !spec_contains(profile.spec_segments(), center) ==> dist
                == distance.spec_minus(ball.radius)
            &&& profile.spec_mode() == ProfileMode::Outline ==> dist == distance.spec_minus(
                profile.spec_half_thickness(),
            ).spec_minus(ball.radius)
        }),
{
}

/// The angle of the `q`-th quarter turn: 0, TAU/4, TAU/2 and 3 TAU/4.
pub open spec fn quarter_turn<S: Scalar>(q: int) -> S {
    if q == 0 {
        S::ZERO
    } else if q == 1 {
        S::TAU.spec_divided_by(S::spec_from_i32(4i32))
    } else if q == 2 {
        S::TAU.spec_divided_by(S::spec_from_i32(2i32))
    } else {
        S::TAU.spec_times(S::spec_from_i32(3i32)).spec_divided_by(S::spec_from_i32(4i32))
    }
}

/// The points that bound an arc: its two ends, then the circle's point at
/// every quarter turn that lies on the arc, in turn order.
pub open spec fn arc_bounding_points<S: Scalar>(center: Vector<S>, radius: S, start_angle: S, sweep: S) -> Seq<Vector<S>> {
    seq![spec_circle_point(center, radius, start_angle), spec_circle_point(center, radius, start_angle.spec_plus(sweep))]
        + kept(
        spec_angle_on_sweep(quarter_turn::<S>(0), start_angle, sweep),
        spec_circle_point(center, radius, quarter_turn::<S>(0)),
    ) + kept(
        spec_angle_on_sweep(quarter_turn::<S>(1), start_angle, sweep),
        spec_circle_point(center, radius, quarter_turn::<S>(1)),
    ) + kept(
        spec_angle_on_sweep(quarter_turn::<S>(2), start_angle, sweep),
        spec_circle_point(center, radius, quarter_turn::<S>(2)),
    ) + kept(
        spec_angle_on_sweep(quarter_turn::<S>(3), start_angle, sweep),
        spec_circle_point(center, radius, quarter_turn::<S>(3)),
    )
}

/// `bounds` grown by each of the first `k` points in turn: the lower corner
/// takes the smaller coordinates, the upper corner the larger ones.
pub open spec fn grown_by<S: Scalar>(bounds: (Vector<S>, Vector<S>), points: Seq<Vector<S>>, k: int) -> (Vector<S>, Vector<S>)
    decreases k,
{
    if k <= 0 {
        bounds
    } else {
        let b = grown_by(bounds, points, k - 1);
        (b.0.spec_min_components(points[k - 1]), b.1.spec_max_components(points[k - 1]))
    }
}

/// The bounds of an arc are the given bounds grown by both of its ends and
/// by the circle's point at every quarter turn that lies on the arc; every
/// such point is among them.
pub proof fn law_arc_bounds_hold_its_extreme_points<S: Scalar>(
    segment: ProfileSegment<S>,
    bounds: (Vector<S>, Vector<S>),
)
    requires
        segment is Arc,
    ensures
        ({
            let (center, radius, start_angle, sweep) = match segment {
                ProfileSegment::Arc { center, radius, start_angle, sweep } => (center, radius, start_angle, sweep),
                ProfileSegment::Line { .. } => (Vector { x: S::ZERO, y: S::ZERO }, S::ZERO, S::ZERO, S::ZERO),
            };
            let points = arc_bounding_points(center, radius, start_angle, sweep);
            &&& segment.spec_bounds_with(bounds) == grown_by(bounds, points, points.len() as int)
            &&& forall|q: int|
                0 <= q < 4 && spec_angle_on_sweep(quarter_turn::<S>(q), start_angle, sweep) ==> points.contains(
                    spec_circle_point(center, radius, quarter_turn::<S>(q)),
                )
        }),
{
    match segment {
        ProfileSegment::Arc { center, radius, start_angle, sweep } => {
            let points = arc_bounding_points(center, radius, start_angle, sweep);
            let on = |q: int| spec_angle_on_sweep(quarter_turn::<S>(q), start_angle, sweep);
            assert(points.len() == 2 + (if on(0) { 1int } else { 0 }) + (if on(1) { 1int } else { 0 }) + (if on(2) {
                1int
            } else {
                0
            }) + (if on(3) { 1int } else { 0 }));
            reveal_with_fuel(grown_by, 7);
            assert(segment.spec_bounds_with(bounds) == grown_by(bounds, points, points.len() as int));
            assert forall|q: int|
                0 <= q < 4 && spec_angle_on_sweep(quarter_turn::<S>(q), start_angle, sweep) implies points.contains(
                spec_circle_point(center, radius, quarter_turn::<S>(q)),
            ) by {
                let p = spec_circle_point(center, radius, quarter_turn::<S>(q));
                let j = 2 + (if q > 0 && on(0) { 1int } else { 0 }) + (if q > 1 && on(1) { 1int } else { 0 }) + (if q > 2
                    && on(2) {
                    1int
                } else {
                    0
                });
                assert(points[j] == p);
            }
        },
        ProfileSegment::Line { .. } => {},
    }
}

} // verus!
