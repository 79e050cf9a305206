//! Routed-rope constraints: configuration, lifecycle and per-substep solving.
use vstd::prelude::*;

use crate::body::{IntegrationParameters, RigidBodyHandle, RigidBodySet, SolverBodies, SolverPose, SolverVel};
use crate::route::{is_route_failure, resolve_route, route_outcome, spec_resolve_route, RoutedRopePulleyGeometry};
use crate::scalar::{Scalar, Vector};

verus! {

/// A point fixed in the world or attached to a rigid body in that body's local frame.
#[derive(Clone, Copy, Debug)]
pub enum RoutedRopePoint<S> {
    /// A point fixed in world coordinates.
    World(Vector<S>),
    /// A point attached to a rigid body.
    Body {
        /// The attached rigid body.
        body: RigidBodyHandle,
        /// The anchor in the rigid body's local frame.
        local_anchor: Vector<S>,
    },
}

/// One ordered pulley in a routed rope.
#[derive(Clone, Copy, Debug)]
pub struct RoutedRopePulley<S> {
    /// World-fixed or body-attached center of the ideal wheel.
    pub center: RoutedRopePoint<S>,
    /// Positive wheel radius.
    pub radius: S,
    /// Configured direction of the wrapped arc.
    pub winding: RoutedRopeWinding,
}

/// A routed point resolved against the bodies at the start of a step.
#[derive(Clone, Copy, Debug)]
pub struct PreparedPoint<S> {
    /// Slot of the moving body the point follows, if it follows one.
    pub solver_body: Option<u32>,
    /// The point relative to that body's center of mass, in the body frame.
    pub local_com_anchor: Vector<S>,
    /// The world position of the point at preparation time.
    pub fixed_world_point: Vector<S>,
    /// Whether the rope pulls on the body's rotation through this point.
    pub angular_response: bool,
}

/// The rope's length rate with respect to one moving body.
#[derive(Clone, Copy, Debug)]
pub struct BodyJacobian<S> {
    pub solver_body: u32,
    pub linear: Vector<S>,
    pub angular: S,
}

/// The length rate of the first `k` Jacobian entries at the velocities `vels`.
pub open spec fn length_rate<S: Scalar>(jacobians: Seq<BodyJacobian<S>>, vels: Seq<SolverVel<S>>, k: int) -> S
    decreases k,
{
    if k <= 0 {
        S::ZERO
    } else {
        let entry = jacobians[k - 1];
        let v = vels[entry.solver_body as int];
        length_rate(jacobians, vels, k - 1).spec_plus(entry.linear.spec_dot(v.linear)).spec_plus(
            entry.angular.spec_times(v.angular),
        )
    }
}

/// The velocities after each of the first `k` Jacobian entries, in order, has
/// pushed its body against the rope by `impulse`.
pub open spec fn impulse_applied<S: Scalar>(
    jacobians: Seq<BodyJacobian<S>>,
    poses: Seq<SolverPose<S>>,
    vels: Seq<SolverVel<S>>,
    impulse: S,
    k: int,
) -> Seq<SolverVel<S>>
    decreases k,
{
    if k <= 0 {
        vels
    } else {
        let earlier = impulse_applied(jacobians, poses, vels, impulse, k - 1);
        let entry = jacobians[k - 1];
        let pose = poses[entry.solver_body as int];
        let v = earlier[entry.solver_body as int];
        earlier.update(
            entry.solver_body as int,
            SolverVel {
                linear: v.linear.spec_minus(pose.im.spec_component_times(entry.linear).spec_scaled(impulse)),
                angular: v.angular.spec_minus(pose.ii.spec_times(entry.angular).spec_times(impulse)),
            },
        )
    }
}

/// The velocities after `impulse` is applied along the whole Jacobian; a zero
/// impulse changes nothing.
pub open spec fn after_impulse<S: Scalar>(
    jacobians: Seq<BodyJacobian<S>>,
    poses: Seq<SolverPose<S>>,
    vels: Seq<SolverVel<S>>,
    impulse: S,
) -> Seq<SolverVel<S>> {
    if impulse.spec_equals(S::ZERO) {
        vels
    } else {
        impulse_applied(jacobians, poses, vels, impulse, jacobians.len() as int)
    }
}

/// Whether `p` is a world point or one attached to a present, enabled body.
pub open spec fn point_available<S: Scalar>(bodies: &RigidBodySet<S>, p: RoutedRopePoint<S>) -> bool {
    match p {
        RoutedRopePoint::World(_) => true,
        RoutedRopePoint::Body { body, .. } => bodies.available(body),
    }
}

/// The solver slot a prepared point follows: that of its body, when the body
/// is neither fixed nor asleep.
pub open spec fn solver_slot<S: Scalar>(bodies: &RigidBodySet<S>, p: RoutedRopePoint<S>) -> Option<u32> {
    match p {
        RoutedRopePoint::World(_) => None,
        RoutedRopePoint::Body { body, .. } => {
            let b = bodies@[body];
            if !b.fixed && !b.sleeping {
                Some(b.active_set_id)
            } else {
                None
            }
        },
    }
}


/// The body slots named by a Jacobian, in entry order.
pub open spec fn jacobian_slots<S>(jacobians: Seq<BodyJacobian<S>>) -> Seq<u32> {
    jacobians.map_values(|e: BodyJacobian<S>| e.solver_body)
}

/// `jacobians` with `linear` and `angular` added to the entry of `slot`, or
/// with a new entry for `slot` appended when it has none.
pub open spec fn accumulated<S: Scalar>(jacobians: Seq<BodyJacobian<S>>, slot: u32, linear: Vector<S>, angular: S) -> Seq<
    BodyJacobian<S>,
> {
    if exists|j: int| 0 <= j < jacobians.len() && (#[trigger] jacobians[j]).solver_body == slot {
        let j = choose|j: int| 0 <= j < jacobians.len() && (#[trigger] jacobians[j]).solver_body == slot;
        jacobians.update(
            j,
            BodyJacobian {
                solver_body: slot,
                linear: jacobians[j].linear.spec_plus(linear),
                angular: jacobians[j].angular.spec_plus(angular),
            },
        )
    } else {
        jacobians.push(BodyJacobian { solver_body: slot, linear, angular })
    }
}

/// The Jacobian built from the first `k` prepared points and their length
/// gradients at the poses `poses`: each moving body gets the sum of the
/// gradients of the points it carries, and the endpoints also turn it.
pub open spec fn substep_jacobians<S: Scalar>(
    prepared: Seq<PreparedPoint<S>>,
    gradients: Seq<Vector<S>>,
    poses: Seq<SolverPose<S>>,
    k: int,
) -> Seq<BodyJacobian<S>>
    decreases k,
{
    if k <= 0 {
        Seq::empty()
    } else {
        let earlier = substep_jacobians(prepared, gradients, poses, k - 1);
        let point = prepared[k - 1];
        let gradient = gradients[k - 1];
        match point.solver_body {
            None => earlier,
            Some(id) => {
                let offset = poses[id as int].rotation.spec_apply(point.local_com_anchor);
                let angular = if point.angular_response {
                    offset.x.spec_times(gradient.y).spec_minus(offset.y.spec_times(gradient.x))
                } else {
                    S::ZERO
                };
                accumulated(earlier, id, gradient, angular)
            },
        }
    }
}

/// The effective mass of the first `a` Jacobian entries at the poses `poses`.
pub open spec fn effective_mass<S: Scalar>(jacobians: Seq<BodyJacobian<S>>, poses: Seq<SolverPose<S>>, a: int) -> S
    decreases a,
{
    if a <= 0 {
        S::ZERO
    } else {
        let entry = jacobians[a - 1];
        let pose = poses[entry.solver_body as int];
        effective_mass(jacobians, poses, a - 1).spec_plus(entry.linear.spec_dot(pose.im.spec_component_times(entry.linear))).spec_plus(
            pose.ii.spec_times(entry.angular).spec_times(entry.angular),
        )
    }
}

/// The velocity bias that corrects `length_error`: a capped push back when
/// the rope is too long, else the slack that may be taken up in one substep.
pub open spec fn length_bias<S: Scalar>(length_error: S, params: IntegrationParameters<S>) -> S {
    if S::ZERO.spec_less_than(length_error) {
        length_error.spec_times(params.joint_erp_inv_dt).spec_smaller(params.max_corrective_velocity)
    } else {
        length_error.spec_divided_by(params.dt)
    }
}

/// Where a routed point is in the world, read from the bodies.
pub open spec fn observed_point<S: Scalar>(bodies: &RigidBodySet<S>, p: RoutedRopePoint<S>) -> Vector<S> {
    match p {
        RoutedRopePoint::World(w) => w,
        RoutedRopePoint::Body { body, local_anchor } => bodies@[body].position.spec_transform_point(local_anchor),
    }
}

/// `slots` names, once each, exactly the body slots followed by the first `k` prepared points.
pub open spec fn covers<S>(slots: Seq<u32>, prepared: Seq<PreparedPoint<S>>, k: int) -> bool {
    &&& slots.no_duplicates()
    &&& forall|a: int|
        0 <= a < slots.len() ==> exists|q: int| 0 <= q < k && (#[trigger] prepared[q]).solver_body == Some(#[trigger] slots[a])
    &&& forall|q: int|
        0 <= q < k ==> ((#[trigger] prepared[q]).solver_body matches Some(id) ==> slots.contains(id))
}

proof fn lemma_covers_step<S>(slots: Seq<u32>, next: Seq<u32>, prepared: Seq<PreparedPoint<S>>, k: int)
    requires
        0 <= k < prepared.len(),
        covers(slots, prepared, k),
        prepared[k].solver_body is None ==> next == slots,
        prepared[k].solver_body matches Some(id) ==> (slots.contains(id) && next == slots) || (!slots.contains(id)
            && next == slots.push(id)),
    ensures
        covers(next, prepared, k + 1),
{
    if next == slots {
        assert forall|a: int| 0 <= a < next.len() implies exists|q: int|
            0 <= q < k + 1 && (#[trigger] prepared[q]).solver_body == Some(#[trigger] next[a]) by {
            let q = choose|q: int| 0 <= q < k && (#[trigger] prepared[q]).solver_body == Some(slots[a]);
            assert(prepared[q].solver_body == Some(next[a]));
        }
    } else {
        let id = prepared[k].solver_body->0;
        assert forall|a: int, b: int| 0 <= a < next.len() && 0 <= b < next.len() && a != b implies next[a] != next[b] by {
            if a == slots.len() {
                assert(next[b] == slots[b]);
                assert(slots.contains(slots[b]));
            } else if b == slots.len() {
                assert(next[a] == slots[a]);
                assert(slots.contains(slots[a]));
            } else {
                assert(next[a] == slots[a] && next[b] == slots[b]);
            }
        }
        assert forall|a: int| 0 <= a < next.len() implies exists|q: int|
            0 <= q < k + 1 && (#[trigger] prepared[q]).solver_body == Some(#[trigger] next[a]) by {
            if a == slots.len() {
                assert(prepared[k].solver_body == Some(next[a]));
            } else {
                assert(next[a] == slots[a]);
                let q = choose|q: int| 0 <= q < k && (#[trigger] prepared[q]).solver_body == Some(slots[a]);
                assert(prepared[q].solver_body == Some(next[a]));
            }
        }
        assert forall|q: int| 0 <= q < k + 1 implies ((#[trigger] prepared[q]).solver_body matches Some(x) ==> next.contains(x)) by {
            if q < k {
                if prepared[q].solver_body is Some {
                    let x = prepared[q].solver_body->0;
                    let a = choose|a: int| 0 <= a < slots.len() && slots[a] == x;
                    assert(next[a] == x);
                }
            } else {
                assert(next[slots.len() as int] == id);
            }
        }
    }
}

impl<S: Scalar> PreparedPoint<S> {
    /// The current world position of the point: its body's pose applied to
    /// it, or where it was fixed.
    pub open spec fn spec_position(&self, poses: Seq<SolverPose<S>>) -> Vector<S> {
        match self.solver_body {
            Some(id) => poses[id as int].spec_transform_point(self.local_com_anchor),
            None => self.fixed_world_point,
        }
    }

    /// The current world position of the point.
    pub fn position(&self, bodies: &SolverBodies<S>) -> (r: Vector<S>)
        requires
            self.solver_body matches Some(id) ==> id < bodies.poses@.len(),
        ensures
            r == self.spec_position(bodies.poses@),
    {
        match self.solver_body {
            Some(id) => bodies.poses[id as usize].transform_point(self.local_com_anchor),
            None => self.fixed_world_point,
        }
    }
}

/// Configured winding direction around a routed pulley.
#[derive(Clone, Copy, Debug, PartialEq, Eq, Structural)]
pub enum RoutedRopeWinding {
    /// The rope follows the wheel clockwise from incoming to outgoing tangent.
    Clockwise,
    /// The rope follows the wheel counterclockwise from incoming to outgoing tangent.
    Counterclockwise,
}

/// Deterministic state of routed-rope geometry and runtime availability.
#[derive(Clone, Copy, Debug, PartialEq, Eq, Structural)]
pub enum RoutedRopeStatus {
    /// The current route is valid.
    Valid,
    /// The constraint was explicitly disabled.
    Disabled,
    /// A coordinate, radius, or length was non-finite or invalid.
    InvalidCoordinates,
    /// The route contains no pulleys.
    NoPulleys,
    /// Two pulley rims overlap or touch.
    PulleyOverlap,
    /// A requested tangent cannot be constructed.
    TangentUnavailable,
    /// A straight rope segment intersects a non-adjacent pulley.
    SegmentObstructed,
    /// A body referenced by the route no longer exists or is disabled.
    MissingBody,
    /// The route has no participant with finite inverse mass.
    NoDynamicParticipant,
}

impl RoutedRopeStatus {
    /// The stable numeric code of this status.
    pub open spec fn spec_code(self) -> u32 {
        match self {
            RoutedRopeStatus::Valid => 0,
            RoutedRopeStatus::Disabled => 1,
            RoutedRopeStatus::InvalidCoordinates => 2,
            RoutedRopeStatus::NoPulleys => 3,
            RoutedRopeStatus::PulleyOverlap => 4,
            RoutedRopeStatus::TangentUnavailable => 5,
            RoutedRopeStatus::SegmentObstructed => 6,
            RoutedRopeStatus::MissingBody => 7,
            RoutedRopeStatus::NoDynamicParticipant => 8,
        }
    }

    /// The stable numeric code of this status.
    #[verifier::when_used_as_spec(spec_code)]
    pub fn code(self) -> (r: u32)
        ensures
            r == self.spec_code(),
    {
        match self {
            RoutedRopeStatus::Valid => 0,
            RoutedRopeStatus::Disabled => 1,
            RoutedRopeStatus::InvalidCoordinates => 2,
            RoutedRopeStatus::NoPulleys => 3,
            RoutedRopeStatus::PulleyOverlap => 4,
            RoutedRopeStatus::TangentUnavailable => 5,
            RoutedRopeStatus::SegmentObstructed => 6,
            RoutedRopeStatus::MissingBody => 7,
            RoutedRopeStatus::NoDynamicParticipant => 8,
        }
    }

    /// The status with the numeric code `code`, if there is one.
    pub fn from_code(code: u32) -> (r: Option<RoutedRopeStatus>)
        ensures
            r matches Some(s) ==> s.code() == code,
            r is None <==> code > 8,
    {
        match code {
            0 => Some(RoutedRopeStatus::Valid),
            1 => Some(RoutedRopeStatus::Disabled),
            2 => Some(RoutedRopeStatus::InvalidCoordinates),
            3 => Some(RoutedRopeStatus::NoPulleys),
            4 => Some(RoutedRopeStatus::PulleyOverlap),
            5 => Some(RoutedRopeStatus::TangentUnavailable),
            6 => Some(RoutedRopeStatus::SegmentObstructed),
            7 => Some(RoutedRopeStatus::MissingBody),
            8 => Some(RoutedRopeStatus::NoDynamicParticipant),
            _ => None,
        }
    }
}

/// A native, unilateral total-length constraint routed over ordered pulley wheels.
pub struct RoutedRopeConstraint<S> {
    /// First rope endpoint.
    pub endpoint_a: RoutedRopePoint<S>,
    /// Second rope endpoint.
    pub endpoint_b: RoutedRopePoint<S>,
    /// Ordered ideal pulleys between the endpoints.
    pub pulleys: Vec<RoutedRopePulley<S>>,
    /// Maximum allowed total routed length.
    pub max_length: S,
    /// Whether this constraint participates in solving.
    pub enabled: bool,
    status: RoutedRopeStatus,
    active: bool,
    current_length: S,
    length_error: S,
    constraint_speed: S,
    step_impulse: S,
    warmstart_impulse: S,
    impulse: S,
    inverse_lhs: S,
    cfm_gain: S,
    rhs_bias: S,
    prepared_points: Vec<PreparedPoint<S>>,
    jacobians: Vec<BodyJacobian<S>>,
}

impl<S: Scalar> RoutedRopeConstraint<S> {
    pub closed spec fn spec_enabled(&self) -> bool {
        self.enabled
    }

    pub closed spec fn spec_endpoint_a(&self) -> RoutedRopePoint<S> {
        self.endpoint_a
    }

    pub closed spec fn spec_endpoint_b(&self) -> RoutedRopePoint<S> {
        self.endpoint_b
    }

    pub closed spec fn spec_pulleys(&self) -> Seq<RoutedRopePulley<S>> {
        self.pulleys@
    }

    pub closed spec fn spec_max_length(&self) -> S {
        self.max_length
    }

    pub closed spec fn spec_status(&self) -> RoutedRopeStatus {
        self.status
    }

    pub closed spec fn spec_active(&self) -> bool {
        self.active
    }

    pub closed spec fn spec_current_length(&self) -> S {
        self.current_length
    }

    pub closed spec fn spec_length_error(&self) -> S {
        self.length_error
    }

    pub closed spec fn spec_constraint_speed(&self) -> S {
        self.constraint_speed
    }

    pub closed spec fn spec_step_impulse(&self) -> S {
        self.step_impulse
    }

    /// The impulse carried over to seed the next substep.
    pub closed spec fn warmstart_impulse(&self) -> S {
        self.warmstart_impulse
    }

    /// The impulse accumulated in the current substep.
    pub closed spec fn impulse(&self) -> S {
        self.impulse
    }

    /// Inverse of the effective mass, zero when the constraint cannot act.
    pub closed spec fn inverse_lhs(&self) -> S {
        self.inverse_lhs
    }

    /// The routed points resolved at the start of the step.
    pub closed spec fn prepared(&self) -> Seq<PreparedPoint<S>> {
        self.prepared_points@
    }

    /// One length-rate entry per moving body of the current substep.
    pub closed spec fn jacobians(&self) -> Seq<BodyJacobian<S>> {
        self.jacobians@
    }

    /// The scalar fields other than the impulses and the observations.
    pub closed spec fn solver_terms(&self) -> (S, S) {
        (self.cfm_gain, self.rhs_bias)
    }

    /// The bodies among the first `k` routed points that a step must keep awake:
    /// present, enabled and not fixed, in route order.
    pub open spec fn wake_list(&self, bodies: &RigidBodySet<S>, k: int) -> Seq<RigidBodyHandle>
        decreases k,
    {
        if k <= 0 {
            Seq::empty()
        } else {
            let earlier = self.wake_list(bodies, k - 1);
            match self.route_point(k - 1) {
                RoutedRopePoint::Body { body, .. } => if bodies@.contains_key(body) && !bodies@[body].fixed
                    && bodies@[body].enabled {
                    earlier.push(body)
                } else {
                    earlier
                },
                RoutedRopePoint::World(_) => earlier,
            }
        }
    }

    /// Point `k` of the route: endpoint A, endpoint B, then the pulley centers in order.
    pub open spec fn route_point(&self, k: int) -> RoutedRopePoint<S> {
        if k == 0 {
            self.spec_endpoint_a()
        } else if k == 1 {
            self.spec_endpoint_b()
        } else {
            self.spec_pulleys()[k - 2].center
        }
    }

    /// Number of routed points.
    pub open spec fn point_count(&self) -> int {
        self.spec_pulleys().len() + 2int
    }

    /// Whether every routed point is a world point or rides on an available body.
    pub open spec fn points_available(&self, bodies: &RigidBodySet<S>) -> bool {
        forall|k: int| 0 <= k < self.point_count() ==> #[trigger] point_available(bodies, self.route_point(k))
    }

    /// The configuration given by the user is the same in both constraints.
    pub open spec fn same_configuration(&self, other: &Self) -> bool {
        &&& self.spec_endpoint_a() == other.spec_endpoint_a()
        &&& self.spec_endpoint_b() == other.spec_endpoint_b()
        &&& self.spec_pulleys() == other.spec_pulleys()
        &&& self.spec_max_length() == other.spec_max_length()
    }

    /// The state the constraint is left in after failing with `status`.
    pub open spec fn failed_with(&self, status: RoutedRopeStatus) -> bool {
        &&& self.spec_status() == status
        &&& !self.spec_enabled()
        &&& !self.spec_active()
        &&& self.impulse() == S::ZERO
        &&& self.warmstart_impulse() == S::ZERO
        &&& self.inverse_lhs() == S::ZERO
        &&& self.jacobians().len() == 0
    }

    /// Nothing observable differs between the two constraints.
    pub open spec fn unchanged_from(&self, other: &Self) -> bool {
        &&& self.same_configuration(other)
        &&& self.spec_enabled() == other.spec_enabled()
        &&& self.status() == other.status()
        &&& self.active() == other.active()
        &&& self.current_length() == other.current_length()
        &&& self.length_error() == other.length_error()
        &&& self.constraint_speed() == other.constraint_speed()
        &&& self.step_impulse() == other.step_impulse()
        &&& self.warmstart_impulse() == other.warmstart_impulse()
        &&& self.impulse() == other.impulse()
        &&& self.inverse_lhs() == other.inverse_lhs()
        &&& self.solver_terms() == other.solver_terms()
        &&& self.prepared() == other.prepared()
        &&& self.jacobians() == other.jacobians()
    }

    /// Only the accumulated impulse and the tension flag may differ between the two constraints.
    pub open spec fn same_solver_state(&self, other: &Self) -> bool {
        &&& self.same_configuration(other)
        &&& self.spec_enabled() == other.spec_enabled()
        &&& self.status() == other.status()
        &&& self.current_length() == other.current_length()
        &&& self.length_error() == other.length_error()
        &&& self.constraint_speed() == other.constraint_speed()
        &&& self.step_impulse() == other.step_impulse()
        &&& self.warmstart_impulse() == other.warmstart_impulse()
        &&& self.inverse_lhs() == other.inverse_lhs()
        &&& self.solver_terms() == other.solver_terms()
        &&& self.prepared() == other.prepared()
        &&& self.jacobians() == other.jacobians()
    }

    /// Every prepared point that follows a body names a slot below `n`.
    pub open spec fn prepared_slots_below(&self, n: int) -> bool {
        forall|k: int|
            0 <= k < self.prepared().len() ==> ((#[trigger] self.prepared()[k]).solver_body matches Some(id)
                ==> id < n)
    }

    /// Every Jacobian entry names a slot below `n`.
    pub open spec fn jacobian_slots_below(&self, n: int) -> bool {
        forall|k: int| 0 <= k < self.jacobians().len() ==> (#[trigger] self.jacobians()[k]).solver_body < n
    }

    /// The Jacobian has exactly one entry for every body slot that a prepared point follows.
    pub open spec fn jacobians_cover_prepared(&self) -> bool {
        covers(jacobian_slots(self.jacobians()), self.prepared(), self.prepared().len() as int)
    }

    /// The prepared points follow the bodies of the route points as `bodies` shows them.
    pub open spec fn prepared_from(&self, bodies: &RigidBodySet<S>) -> bool {
        &&& self.prepared().len() == self.point_count()
        &&& forall|k: int|
            0 <= k < self.point_count() ==> {
                &&& (#[trigger] self.prepared()[k]).solver_body == solver_slot(bodies, self.route_point(k))
                &&& self.prepared()[k].angular_response == (k < 2 && self.route_point(k) is Body)
            }
    }

    /// The wheels of the route at the poses `poses` of the prepared points.
    pub open spec fn prepared_wheels(&self, poses: Seq<SolverPose<S>>) -> Seq<RoutedRopePulleyGeometry<S>> {
        Seq::new(
            self.spec_pulleys().len(),
            |i: int|
                RoutedRopePulleyGeometry {
                    center: self.prepared()[i + 2].spec_position(poses),
                    radius: self.spec_pulleys()[i].radius,
                    winding: self.spec_pulleys()[i].winding,
                },
        )
    }

    /// The route at the poses `poses` of the prepared points.
    pub open spec fn prepared_route(&self, poses: Seq<SolverPose<S>>) -> Result<(S, Seq<Vector<S>>), RoutedRopeStatus> {
        spec_resolve_route(
            self.prepared()[0].spec_position(poses),
            self.prepared()[1].spec_position(poses),
            self.prepared_wheels(poses),
        )
    }

    /// The wheels of the route where the bodies are.
    pub open spec fn observed_wheels(&self, bodies: &RigidBodySet<S>) -> Seq<RoutedRopePulleyGeometry<S>> {
        Seq::new(
            self.spec_pulleys().len(),
            |i: int|
                RoutedRopePulleyGeometry {
                    center: observed_point(bodies, self.spec_pulleys()[i].center),
                    radius: self.spec_pulleys()[i].radius,
                    winding: self.spec_pulleys()[i].winding,
                },
        )
    }

    /// The route where the bodies are.
    pub open spec fn observed_route(&self, bodies: &RigidBodySet<S>) -> Result<(S, Seq<Vector<S>>), RoutedRopeStatus> {
        spec_resolve_route(
            observed_point(bodies, self.spec_endpoint_a()),
            observed_point(bodies, self.spec_endpoint_b()),
            self.observed_wheels(bodies),
        )
    }

    /// The length rate from the first `q` routed points: each body point's
    /// gradient against its body's velocity, and the endpoints' turn with it.
    pub open spec fn observed_speed(&self, bodies: &RigidBodySet<S>, gradients: Seq<Vector<S>>, q: int) -> S
        decreases q,
    {
        if q <= 0 {
            S::ZERO
        } else {
            let earlier = self.observed_speed(bodies, gradients, q - 1);
            let gradient = gradients[q - 1];
            match self.route_point(q - 1) {
                RoutedRopePoint::World(_) => earlier,
                RoutedRopePoint::Body { body, local_anchor } => {
                    let b = bodies@[body];
                    let linear = earlier.spec_plus(gradient.spec_dot(b.linvel));
                    if q - 1 < 2 {
                        let offset = b.position.spec_transform_point(local_anchor).spec_minus(b.world_com);
                        linear.spec_plus(
                            offset.x.spec_times(gradient.y).spec_minus(offset.y.spec_times(gradient.x)).spec_times(b.angvel),
                        )
                    } else {
                        linear
                    }
                },
            }
        }
    }

    /// Whether `max_length` cannot bound a rope: not finite, or not positive.
    pub open spec fn invalid_max_length(&self) -> bool {
        !self.spec_max_length().spec_is_finite() || self.spec_max_length().spec_at_most(S::ZERO)
    }

    /// What `prepare` leaves behind, given the bodies it read.
    pub open spec fn prepare_outcome(before: &Self, after: &Self, bodies: &RigidBodySet<S>) -> bool {
        &&& after.same_configuration(before)
        &&& after.current_length() == before.current_length()
        &&& after.length_error() == before.length_error()
        &&& after.constraint_speed() == before.constraint_speed()
        &&& after.step_impulse() == before.step_impulse()
        &&& after.solver_terms() == before.solver_terms()
        &&& !before.spec_enabled() ==> after.unchanged_from(before)
        &&& before.spec_enabled() ==> (after.status() == RoutedRopeStatus::Valid && after.spec_enabled())
            || after.failed_with(after.status())
        &&& before.spec_enabled() && before.invalid_max_length() ==> after.failed_with(
            RoutedRopeStatus::InvalidCoordinates,
        ) && after.prepared() == before.prepared()
        &&& before.spec_enabled() && !before.invalid_max_length() ==> {
            &&& before.spec_pulleys().len() == 0 ==> after.failed_with(RoutedRopeStatus::NoPulleys)
                && after.prepared() == before.prepared()
            &&& before.spec_pulleys().len() > 0 && before.points_available(bodies) ==> {
                &&& after.status() == RoutedRopeStatus::Valid
                &&& after.spec_enabled()
                &&& after.prepared_from(bodies)
                &&& after.active() == before.active()
                &&& after.impulse() == before.impulse()
                &&& after.warmstart_impulse() == before.warmstart_impulse()
                &&& after.jacobians() == before.jacobians()
            }
            &&& before.spec_pulleys().len() > 0 && !before.points_available(bodies) ==> after.failed_with(
                RoutedRopeStatus::MissingBody,
            ) && after.prepared().len() == 0
        }
    }

    /// What `update_substep` leaves behind, given the solver view it read.
    pub open spec fn substep_outcome(
        before: &Self,
        after: &Self,
        params: &IntegrationParameters<S>,
        bodies: &SolverBodies<S>,
    ) -> bool {
        &&& after.same_configuration(before)
        &&& after.prepared() == before.prepared()
        &&& after.step_impulse() == before.step_impulse()
        &&& after.warmstart_impulse() == before.warmstart_impulse() || after.warmstart_impulse() == S::ZERO
        &&& !before.spec_enabled() || before.prepared().len() != before.point_count() ==> after.unchanged_from(before)
        &&& before.spec_enabled() && before.prepared().len() == before.point_count() ==> {
            ||| {
                &&& after.status() == RoutedRopeStatus::Valid
                &&& after.spec_enabled()
                &&& after.jacobians_cover_prepared()
                &&& after.jacobian_slots_below(bodies.poses@.len() as int)
                &&& after.warmstart_impulse() == before.warmstart_impulse()
            }
            ||| {
                &&& after.failed_with(after.status())
                &&& (is_route_failure(after.status()) || after.status() == RoutedRopeStatus::NoDynamicParticipant)
            }
        }
        &&& before.spec_enabled() && before.prepared().len() == before.point_count() ==> match before.prepared_route(
            bodies.poses@,
        ) {
            Err(status) => {
                &&& after.failed_with(status)
                &&& after.current_length() == before.current_length()
                &&& after.length_error() == before.length_error()
                &&& after.constraint_speed() == before.constraint_speed()
            },
            Ok((total_length, gradients)) => {
                let jacobians = substep_jacobians(before.prepared(), gradients, bodies.poses@, before.point_count());
                let denominator = effective_mass(jacobians, bodies.poses@, jacobians.len() as int);
                let length_error = total_length.spec_minus(before.spec_max_length());
                let cfm_gain = denominator.spec_times(params.joint_cfm_coeff);
                let impulse = if params.warmstart_joints {
                    before.warmstart_impulse().spec_times(params.warmstart_coefficient)
                } else {
                    S::ZERO
                };
                &&& after.current_length() == total_length
                &&& after.length_error() == length_error
                &&& denominator.spec_at_most(S::spec_from_decimal(1i64, -12i32)) ==> {
                    &&& after.failed_with(RoutedRopeStatus::NoDynamicParticipant)
                    &&& after.constraint_speed() == before.constraint_speed()
                }
                &&& !denominator.spec_at_most(S::spec_from_decimal(1i64, -12i32)) ==> {
                    &&& after.status() == RoutedRopeStatus::Valid
                    &&& after.spec_enabled()
                    &&& after.jacobians() == jacobians
                    &&& after.constraint_speed() == length_rate(jacobians, bodies.vels@, jacobians.len() as int)
                    &&& after.solver_terms() == (cfm_gain, length_bias(length_error, *params))
                    &&& after.inverse_lhs() == S::ONE.spec_divided_by(denominator.spec_plus(cfm_gain))
                    &&& after.impulse() == impulse
                    &&& after.warmstart_impulse() == before.warmstart_impulse()
                    &&& after.active() == (before.active() || S::ZERO.spec_less_than(impulse))
                }
            },
        }
    }

    /// What `begin_step` leaves behind: no impulse and no tension recorded yet.
    pub open spec fn begin_outcome(before: &Self, after: &Self) -> bool {
        &&& after.step_impulse() == S::ZERO
        &&& !after.active()
        &&& after.same_configuration(before)
        &&& after.spec_enabled() == before.spec_enabled()
        &&& after.status() == before.status()
        &&& after.current_length() == before.current_length()
        &&& after.length_error() == before.length_error()
        &&& after.constraint_speed() == before.constraint_speed()
        &&& after.warmstart_impulse() == before.warmstart_impulse()
        &&& after.impulse() == before.impulse()
        &&& after.inverse_lhs() == before.inverse_lhs()
        &&& after.solver_terms() == before.solver_terms()
        &&& after.prepared() == before.prepared()
        &&& after.jacobians() == before.jacobians()
    }

    /// What `solve` leaves behind: only the impulse and the tension flag move,
    /// and tension once observed in a step is kept.
    pub open spec fn solve_outcome(before: &Self, after: &Self) -> bool {
        &&& after.same_solver_state(before)
        &&& before.active() ==> after.active()
        &&& !before.spec_enabled() ==> after.unchanged_from(before)
    }

    /// Whether `solve` acts on the constraint: it is enabled and can push.
    pub open spec fn solves(&self) -> bool {
        self.spec_enabled() && !self.inverse_lhs().spec_equals(S::ZERO)
    }

    /// The accumulated impulse after one projected Gauss-Seidel iteration at
    /// the velocities `vels`, kept from going below zero.
    pub open spec fn solved_impulse(&self, vels: Seq<SolverVel<S>>, without_bias: bool) -> S {
        let bias = if without_bias {
            S::ZERO
        } else {
            self.solver_terms().1
        };
        let rhs = length_rate(self.jacobians(), vels, self.jacobians().len() as int).spec_plus(bias);
        self.impulse().spec_plus(
            self.inverse_lhs().spec_times(rhs.spec_minus(self.solver_terms().0.spec_times(self.impulse()))),
        ).spec_larger(S::ZERO)
    }

    /// What one iteration of `solve` at the velocities `vels` makes of the constraint.
    pub open spec fn solve_step(before: &Self, after: &Self, vels: Seq<SolverVel<S>>, without_bias: bool) -> bool {
        &&& after.same_solver_state(before)
        &&& !before.solves() ==> after.unchanged_from(before)
        &&& before.solves() ==> {
            &&& after.impulse() == before.solved_impulse(vels, without_bias)
            &&& after.active() == (before.active() || S::ZERO.spec_less_than(after.impulse()))
        }
    }

    /// The velocities after one iteration of `solve` at the velocities `vels`:
    /// the change of impulse applied along the Jacobian.
    pub open spec fn solved_velocities(&self, poses: Seq<SolverPose<S>>, vels: Seq<SolverVel<S>>, without_bias: bool) -> Seq<
        SolverVel<S>,
    > {
        if self.solves() {
            after_impulse(self.jacobians(), poses, vels, self.solved_impulse(vels, without_bias).spec_minus(self.impulse()))
        } else {
            vels
        }
    }

    /// What `finish_substep` leaves behind.
    pub open spec fn finish_outcome(before: &Self, after: &Self, bodies: &SolverBodies<S>) -> bool {
        &&& !before.spec_enabled() ==> after.unchanged_from(before)
        &&& before.spec_enabled() ==> {
            &&& after.step_impulse() == before.step_impulse().spec_plus(before.impulse())
            &&& after.constraint_speed() == length_rate(before.jacobians(), bodies.vels@, before.jacobians().len() as int)
            &&& after.warmstart_impulse() == before.impulse()
            &&& after.impulse() == before.impulse()
            &&& after.same_configuration(before)
            &&& after.spec_enabled() == before.spec_enabled()
            &&& after.status() == before.status()
            &&& after.active() == before.active()
            &&& after.current_length() == before.current_length()
            &&& after.length_error() == before.length_error()
            &&& after.inverse_lhs() == before.inverse_lhs()
            &&& after.solver_terms() == before.solver_terms()
            &&& after.prepared() == before.prepared()
            &&& after.jacobians() == before.jacobians()
        }
    }

    /// What `refresh_observations` leaves behind, given the bodies it read.
    pub open spec fn refresh_outcome(before: &Self, after: &Self, bodies: &RigidBodySet<S>) -> bool {
        &&& after.same_configuration(before)
        &&& after.prepared() == before.prepared()
        &&& after.step_impulse() == before.step_impulse()
        &&& !before.spec_enabled() ==> after.unchanged_from(before)
        &&& before.spec_enabled() && !before.points_available(bodies) ==> {
            &&& after.failed_with(RoutedRopeStatus::MissingBody)
            &&& after.current_length() == before.current_length()
            &&& after.length_error() == before.length_error()
            &&& after.constraint_speed() == before.constraint_speed()
        }
        &&& before.spec_enabled() && before.points_available(bodies) ==> match before.observed_route(bodies) {
            Err(status) => {
                &&& after.failed_with(status)
                &&& is_route_failure(status)
                &&& after.current_length() == before.current_length()
                &&& after.length_error() == before.length_error()
                &&& after.constraint_speed() == before.constraint_speed()
            },
            Ok((total_length, gradients)) => {
                &&& after.current_length() == total_length
                &&& after.length_error() == total_length.spec_minus(before.spec_max_length())
                &&& after.constraint_speed() == before.observed_speed(bodies, gradients, before.point_count())
                &&& after.spec_enabled()
                &&& after.status() == before.status()
                &&& after.active() == before.active()
                &&& after.impulse() == before.impulse()
                &&& after.warmstart_impulse() == before.warmstart_impulse()
                &&& after.inverse_lhs() == before.inverse_lhs()
                &&& after.solver_terms() == before.solver_terms()
                &&& after.jacobians() == before.jacobians()
            },
        }
    }

    /// Creates an enabled unilateral total-length rope constraint.
    pub fn new(
        endpoint_a: RoutedRopePoint<S>,
        endpoint_b: RoutedRopePoint<S>,
        pulleys: Vec<RoutedRopePulley<S>>,
        max_length: S,
    ) -> (r: Self)
        ensures
            r.spec_endpoint_a() == endpoint_a,
            r.spec_endpoint_b() == endpoint_b,
            r.spec_pulleys() == pulleys@,
            r.spec_max_length() == max_length,
            r.spec_enabled(),
            r.status() == RoutedRopeStatus::Valid,
            !r.active(),
            r.current_length() == S::ZERO,
            r.length_error() == S::ZERO.spec_minus(max_length),
            r.constraint_speed() == S::ZERO,
            r.step_impulse() == S::ZERO,
            r.warmstart_impulse() == S::ZERO,
            r.impulse() == S::ZERO,
            r.inverse_lhs() == S::ZERO,
            r.solver_terms() == (S::ZERO, S::ZERO),
            r.prepared().len() == 0,
            r.jacobians().len() == 0,
    {
        RoutedRopeConstraint {
            endpoint_a,
            endpoint_b,
            pulleys,
            max_length,
            enabled: true,
            status: RoutedRopeStatus::Valid,
            active: false,
            current_length: S::ZERO,
            length_error: S::ZERO.minus(max_length),
            constraint_speed: S::ZERO,
            step_impulse: S::ZERO,
            warmstart_impulse: S::ZERO,
            impulse: S::ZERO,
            inverse_lhs: S::ZERO,
            cfm_gain: S::ZERO,
            rhs_bias: S::ZERO,
            prepared_points: Vec::new(),
            jacobians: Vec::new(),
        }
    }

    /// Whether this constraint participates in solving.
    #[verifier::when_used_as_spec(spec_enabled)]
    pub fn is_enabled(&self) -> (r: bool)
        ensures
            r == self.spec_enabled(),
    {
        self.enabled
    }

    /// Returns the latest deterministic route status.
    #[verifier::when_used_as_spec(spec_status)]
    pub fn status(&self) -> (r: RoutedRopeStatus)
        ensures
            r == self.spec_status(),
    {
        self.status
    }

    /// Returns whether the rope carried tension during the latest step.
    #[verifier::when_used_as_spec(spec_active)]
    pub fn active(&self) -> (r: bool)
        ensures
            r == self.spec_active(),
    {
        self.active
    }

    /// Returns the latest routed length.
    #[verifier::when_used_as_spec(spec_current_length)]
    pub fn current_length(&self) -> (r: S)
        ensures
            r == self.spec_current_length(),
    {
        self.current_length
    }

    /// Returns `current_length - max_length`.
    #[verifier::when_used_as_spec(spec_length_error)]
    pub fn length_error(&self) -> (r: S)
        ensures
            r == self.spec_length_error(),
    {
        self.length_error
    }

    /// Returns the latest length-rate Jacobian applied to body velocities.
    #[verifier::when_used_as_spec(spec_constraint_speed)]
    pub fn constraint_speed(&self) -> (r: S)
        ensures
            r == self.spec_constraint_speed(),
    {
        self.constraint_speed
    }

    /// Returns the sum of actual substep impulses in the latest pipeline step.
    #[verifier::when_used_as_spec(spec_step_impulse)]
    pub fn step_impulse(&self) -> (r: S)
        ensures
            r == self.spec_step_impulse(),
    {
        self.step_impulse
    }

    /// Appends the body of `point` when a step must keep it awake.
    fn push_participant(r: &mut Vec<RigidBodyHandle>, point: RoutedRopePoint<S>, bodies: &RigidBodySet<S>)
        requires
            bodies.wf(),
        ensures
            match point {
                RoutedRopePoint::Body { body, .. } => if bodies@.contains_key(body) && !bodies@[body].fixed
                    && bodies@[body].enabled {
                    final(r)@ == old(r)@.push(body)
                } else {
                    final(r)@ == old(r)@
                },
                RoutedRopePoint::World(_) => final(r)@ == old(r)@,
            },
    {
        match point {
            RoutedRopePoint::Body { body, .. } => {
                match bodies.get(body) {
                    Some(b) => {
                        if !b.is_fixed() && b.is_enabled() {
                            r.push(body);
                        }
                    },
                    None => {},
                }
            },
            RoutedRopePoint::World(_) => {},
        }
    }

    /// The bodies this constraint keeps awake, in route order; none when disabled.
    pub fn participants(&self, bodies: &RigidBodySet<S>) -> (r: Vec<RigidBodyHandle>)
        requires
            bodies.wf(),
        ensures
            self.spec_enabled() ==> r@ == self.wake_list(bodies, self.point_count()),
            !self.spec_enabled() ==> r@.len() == 0,
    {
        let mut r: Vec<RigidBodyHandle> = Vec::new();
        if !self.enabled {
            return r;
        }
        let n = self.pulleys.len();
        assert(r@ == self.wake_list(bodies, 0));
        Self::push_participant(&mut r, self.endpoint_a, bodies);
        assert(self.route_point(0) == self.endpoint_a);
        assert(r@ == self.wake_list(bodies, 1));
        Self::push_participant(&mut r, self.endpoint_b, bodies);
        assert(self.route_point(1) == self.endpoint_b);
        assert(r@ == self.wake_list(bodies, 2));
        let mut j: usize = 0;
        while j < n
            invariant
                n == self.pulleys@.len(),
                bodies.wf(),
                j <= n,
                r@ == self.wake_list(bodies, j + 2),
            decreases n - j,
        {
            assert(self.route_point(j + 2) == self.pulleys@[j as int].center);
            Self::push_participant(&mut r, self.pulleys[j].center, bodies);
            j = j + 1;
        }
        r
    }

    /// Clears what the previous pipeline step accumulated.
    pub fn begin_step(&mut self)
        ensures
            Self::begin_outcome(old(self), final(self)),
    {
        self.step_impulse = S::ZERO;
        self.active = false;
    }

    /// What `set_enabled(enabled)` leaves behind: the flag and the matching
    /// status, no tension or carried impulse, and everything else kept.
    pub open spec fn enable_outcome(before: &Self, after: &Self, enabled: bool) -> bool {
        &&& after.spec_enabled() == enabled
        &&& after.status() == (if enabled {
            RoutedRopeStatus::Valid
        } else {
            RoutedRopeStatus::Disabled
        })
        &&& !after.active()
        &&& after.impulse() == S::ZERO
        &&& after.warmstart_impulse() == S::ZERO
        &&& after.step_impulse() == S::ZERO
        &&& after.same_configuration(before)
        &&& after.current_length() == before.current_length()
        &&& after.length_error() == before.length_error()
        &&& after.constraint_speed() == before.constraint_speed()
        &&& after.inverse_lhs() == before.inverse_lhs()
        &&& after.solver_terms() == before.solver_terms()
        &&& after.prepared() == before.prepared()
        &&& after.jacobians() == before.jacobians()
    }

    /// Enables or disables this constraint and clears carried impulses.
    pub fn set_enabled(&mut self, enabled: bool)
        ensures
            Self::enable_outcome(old(self), final(self), enabled),
    {
        self.enabled = enabled;
        self.status = if enabled {
            RoutedRopeStatus::Valid
        } else {
            RoutedRopeStatus::Disabled
        };
        self.active = false;
        self.impulse = S::ZERO;
        self.warmstart_impulse = S::ZERO;
        self.step_impulse = S::ZERO;
    }

    /// Disables the constraint with `status` and drops what the solver carried.
    pub fn fail(&mut self, status: RoutedRopeStatus)
        ensures
            final(self).failed_with(status),
            final(self).same_configuration(old(self)),
            final(self).current_length() == old(self).current_length(),
            final(self).length_error() == old(self).length_error(),
            final(self).constraint_speed() == old(self).constraint_speed(),
            final(self).step_impulse() == old(self).step_impulse(),
            final(self).solver_terms() == old(self).solver_terms(),
            final(self).prepared() == old(self).prepared(),
    {
        self.status = status;
        self.enabled = false;
        self.active = false;
        self.impulse = S::ZERO;
        self.warmstart_impulse = S::ZERO;
        self.inverse_lhs = S::ZERO;
        self.jacobians.clear();
    }

    /// Resolves every routed point against the bodies at the start of a step,
    /// failing when the length, the pulleys or a body cannot be used.
    pub fn prepare(&mut self, bodies: &RigidBodySet<S>)
        requires
            bodies.wf(),
        ensures
            Self::prepare_outcome(old(self), final(self), bodies),

    {
        if !self.enabled {
            return;
        }
        if !self.max_length.is_finite() || self.max_length.at_most(S::ZERO) {
            self.fail(RoutedRopeStatus::InvalidCoordinates);
            return;
        }
        if self.pulleys.len() == 0 {
            self.fail(RoutedRopeStatus::NoPulleys);
            return;
        }
        self.prepared_points.clear();
        let endpoint_a = Self::prepare_point(&self.endpoint_a, true, bodies);
        let endpoint_b = Self::prepare_point(&self.endpoint_b, true, bodies);
        let n = self.pulleys.len();
        let mut pulley_points: Vec<PreparedPoint<S>> = Vec::new();
        let mut all_found = true;
        let mut k: usize = 0;
        while k < n
            invariant
                n == self.pulleys@.len(),
                k <= n,
                bodies.wf(),
                all_found ==> pulley_points@.len() == k,
                all_found ==> forall|j: int|
                    0 <= j < k ==> point_available(bodies, #[trigger] self.pulleys@[j].center),
                all_found ==> forall|j: int|
                    0 <= j < k ==> (#[trigger] pulley_points@[j]).solver_body == solver_slot(
                        bodies,
                        self.pulleys@[j].center,
                    ) && !pulley_points@[j].angular_response,
                !all_found ==> exists|j: int| 0 <= j < n && !point_available(bodies, #[trigger] self.pulleys@[j].center),
            ensures
                all_found ==> k == n,
            decreases n - k,
        {
            match Self::prepare_point(&self.pulleys[k].center, false, bodies) {
                Ok(p) => {
                    pulley_points.push(p);
                },
                Err(_) => {
                    all_found = false;
                    break;
                },
            }
            k = k + 1;
        }
        let ghost ok_points = self.points_available(bodies);
        proof {
            if all_found {
                assert(k == n);
            }
            if !all_found {
                let j = choose|j: int| 0 <= j < n && !point_available(bodies, #[trigger] self.pulleys@[j].center);
                assert(self.route_point(j + 2) == self.pulleys@[j].center);
                assert(!point_available(bodies, self.route_point(j + 2)));
                assert(!self.points_available(bodies));
            }
            if endpoint_a is Err {
                assert(!point_available(bodies, self.route_point(0)));
                assert(!self.points_available(bodies));
            }
            if endpoint_b is Err {
                assert(!point_available(bodies, self.route_point(1)));
                assert(!self.points_available(bodies));
            }
            if endpoint_a is Ok && endpoint_b is Ok && all_found {
                assert forall|q: int| 0 <= q < self.point_count() implies #[trigger] point_available(bodies, self.route_point(q)) by {
                    if q >= 2 {
                        assert(self.route_point(q) == self.pulleys@[q - 2].center);
                    }
                }
            }
        }
        match (endpoint_a, endpoint_b, all_found) {
            (Ok(a), Ok(b), true) => {
                let mut prepared: Vec<PreparedPoint<S>> = Vec::new();
                prepared.push(a);
                prepared.push(b);
                let mut j: usize = 0;
                while j < n
                    invariant
                        j <= n,
                        pulley_points@.len() == n,
                        prepared@.len() == j + 2,
                        prepared@[0] == a,
                        prepared@[1] == b,
                        forall|q: int| 0 <= q < j ==> #[trigger] prepared@[q + 2] == pulley_points@[q],
                    decreases n - j,
                {
                    prepared.push(pulley_points[j]);
                    j = j + 1;
                }
                self.prepared_points = prepared;
                self.status = RoutedRopeStatus::Valid;
                proof {
                    assert forall|q: int| 0 <= q < self.point_count() implies {
                        &&& (#[trigger] self.prepared()[q]).solver_body == solver_slot(bodies, self.route_point(q))
                        &&& self.prepared()[q].angular_response == (q < 2 && self.route_point(q) is Body)
                    } by {
                        if q >= 2 {
                            assert(self.prepared_points@[(q - 2) + 2] == pulley_points@[q - 2]);
                            assert(self.route_point(q) == self.pulleys@[q - 2].center);
                        } else if q == 0 {
                            assert(self.route_point(q) == self.endpoint_a);
                            assert(self.prepared()[q] == a);
                        } else {
                            assert(self.route_point(q) == self.endpoint_b);
                            assert(self.prepared()[q] == b);
                        }
                    }
                }
            },
            _ => {
                assert(!self.points_available(bodies));
                assert(forall|q: int| #[trigger] self.route_point(q) == old(self).route_point(q));
                assert(!old(self).points_available(bodies));
                self.fail(RoutedRopeStatus::MissingBody);
            },
        }
    }

    /// Index of the Jacobian entry of `solver_body`, if there is one.
    fn find_jacobian(jacobians: &Vec<BodyJacobian<S>>, solver_body: u32) -> (r: Option<usize>)
        ensures
            r matches Some(j) ==> j < jacobians@.len() && jacobians@[j as int].solver_body == solver_body,
            r is None ==> forall|a: int| 0 <= a < jacobians@.len() ==> (#[trigger] jacobians@[a]).solver_body != solver_body,
    {
        let mut j: usize = 0;
        while j < jacobians.len()
            invariant
                j <= jacobians@.len(),
                forall|a: int| 0 <= a < j ==> (#[trigger] jacobians@[a]).solver_body != solver_body,
            decreases jacobians@.len() - j,
        {
            if jacobians[j].solver_body == solver_body {
                return Some(j);
            }
            j = j + 1;
        }
        None
    }

    /// Adds `linear` and `angular` to the entry of `solver_body`, appending one when there is none.
    fn accumulate(jacobians: &mut Vec<BodyJacobian<S>>, solver_body: u32, linear: Vector<S>, angular: S)
        requires
            jacobian_slots(old(jacobians)@).no_duplicates(),
        ensures
            final(jacobians)@ == accumulated(old(jacobians)@, solver_body, linear, angular),
            jacobian_slots(old(jacobians)@).contains(solver_body) ==> jacobian_slots(final(jacobians)@)
                == jacobian_slots(old(jacobians)@),
            !jacobian_slots(old(jacobians)@).contains(solver_body) ==> jacobian_slots(final(jacobians)@)
                == jacobian_slots(old(jacobians)@).push(solver_body),
    {
        match Self::find_jacobian(jacobians, solver_body) {
            Some(j) => {
                let mut entry = jacobians[j];
                entry.linear = entry.linear.plus(linear);
                entry.angular = entry.angular.plus(angular);
                jacobians.set(j, entry);
                proof {
                    assert(jacobian_slots(old(jacobians)@)[j as int] == solver_body);
                    assert(jacobian_slots(final(jacobians)@) =~= jacobian_slots(old(jacobians)@));
                    let old_j = old(jacobians)@;
                    assert(0 <= j < old_j.len() && old_j[j as int].solver_body == solver_body);
                    let c = choose|c: int| 0 <= c < old_j.len() && (#[trigger] old_j[c]).solver_body == solver_body;
                    assert(jacobian_slots(old_j)[c] == solver_body);
                    assert(c == j);
                    assert(final(jacobians)@ =~= accumulated(old_j, solver_body, linear, angular));
                }
            },
            None => {
                jacobians.push(BodyJacobian { solver_body, linear, angular });
                proof {
                    assert(!exists|c: int| 0 <= c < old(jacobians)@.len() && (#[trigger] old(jacobians)@[c]).solver_body == solver_body);
                    assert forall|a: int| 0 <= a < jacobian_slots(old(jacobians)@).len() implies jacobian_slots(old(jacobians)@)[a] != solver_body by {
                        assert(old(jacobians)@[a].solver_body != solver_body);
                    }
                    assert(jacobian_slots(final(jacobians)@) =~= jacobian_slots(old(jacobians)@).push(solver_body));
                }
            },
        }
    }

    /// Re-routes the rope at the current solver poses and rebuilds its
    /// Jacobian, effective mass, bias and warm-start impulse for one substep.
    pub fn update_substep(&mut self, params: &IntegrationParameters<S>, bodies: &SolverBodies<S>)
        requires
            bodies.wf(),
            old(self).prepared_slots_below(bodies.poses@.len() as int),
        ensures
            Self::substep_outcome(old(self), final(self), params, bodies),

    {
        if !self.enabled || self.prepared_points.len() < 2 || self.prepared_points.len() - 2 != self.pulleys.len() {
            return;
        }
        let count = self.prepared_points.len();
        let n = self.pulleys.len();
        let ghost pp = self.prepared_points@;
        let endpoint_a = self.prepared_points[0].position(bodies);
        let endpoint_b = self.prepared_points[1].position(bodies);
        let mut pulley_geometry: Vec<RoutedRopePulleyGeometry<S>> = Vec::new();
        let mut index: usize = 0;
        while index < n
            invariant
                n == self.pulleys@.len(),
                count == n + 2,
                self.prepared_points@.len() == n + 2,
                self.prepared_slots_below(bodies.poses@.len() as int),
                index <= n,
                pulley_geometry@ == self.prepared_wheels(bodies.poses@).take(index as int),
            decreases n - index,
        {
            let pulley = self.pulleys[index];
            assert(self.prepared()[index + 2] == self.prepared_points@[index + 2]);
            pulley_geometry.push(
                RoutedRopePulleyGeometry {
                    center: self.prepared_points[index + 2].position(bodies),
                    radius: pulley.radius,
                    winding: pulley.winding,
                },
            );
            assert(pulley_geometry@ =~= self.prepared_wheels(bodies.poses@).take(index + 1));
            index = index + 1;
        }
        assert(pulley_geometry@ =~= self.prepared_wheels(bodies.poses@));
        let resolved = resolve_route(endpoint_a, endpoint_b, pulley_geometry.as_slice());
        assert(route_outcome(resolved) == old(self).prepared_route(bodies.poses@));
        let route = match resolved {
            Ok(route) => route,
            Err(status) => {
                self.fail(status);
                return;
            },
        };
        let ghost gradients = route.gradients@;
        self.current_length = route.total_length;
        self.length_error = route.total_length.minus(self.max_length);
        let mut jacobians: Vec<BodyJacobian<S>> = Vec::new();
        let mut k: usize = 0;
        while k < count
            invariant
                self.prepared_points@ == pp,
                pp.len() == count,
                route.gradients@.len() == count,
                bodies.wf(),
                forall|q: int| 0 <= q < pp.len() ==> ((#[trigger] pp[q]).solver_body matches Some(id) ==> id < bodies.poses@.len()),
                k <= count,
                route.gradients@ == gradients,
                jacobians@ == substep_jacobians(pp, gradients, bodies.poses@, k as int),
                covers(jacobian_slots(jacobians@), pp, k as int),
                forall|a: int| 0 <= a < jacobians@.len() ==> #[trigger] jacobian_slots(jacobians@)[a] < bodies.poses@.len(),
            decreases count - k,
        {
            let point = self.prepared_points[k];
            assert(pp[k as int] == point);
            let gradient = route.gradients[k];
            let ghost before = jacobian_slots(jacobians@);
            match point.solver_body {
                None => {},
                Some(solver_body) => {
                    let pose = bodies.poses[solver_body as usize];
                    let world_offset = pose.rotation.apply(point.local_com_anchor);
                    let angular = if point.angular_response {
                        world_offset.x.times(gradient.y).minus(world_offset.y.times(gradient.x))
                    } else {
                        S::ZERO
                    };
                    Self::accumulate(&mut jacobians, solver_body, gradient, angular);
                },
            }
            proof {
                lemma_covers_step(before, jacobian_slots(jacobians@), pp, k as int);
                assert forall|a: int| 0 <= a < jacobians@.len() implies #[trigger] jacobian_slots(jacobians@)[a] < bodies.poses@.len() by {
                    if a < before.len() {
                        assert(jacobian_slots(jacobians@)[a] == before[a]);
                    }
                }
            }
            k = k + 1;
        }
        proof {
            assert forall|a: int| 0 <= a < jacobians@.len() implies (#[trigger] jacobians@[a]).solver_body < bodies.poses@.len() by {
                assert(jacobian_slots(jacobians@)[a] == jacobians@[a].solver_body);
            }
        }
        self.jacobians = jacobians;
        let mut denominator = S::ZERO;
        let mut a: usize = 0;
        while a < self.jacobians.len()
            invariant
                bodies.wf(),
                self.jacobian_slots_below(bodies.poses@.len() as int),
                a <= self.jacobians@.len(),
                denominator == effective_mass(self.jacobians(), bodies.poses@, a as int),
            decreases self.jacobians@.len() - a,
        {
            let entry = self.jacobians[a];
            assert(self.jacobians()[a as int] == entry);
            let pose = bodies.poses[entry.solver_body as usize];
            denominator = denominator.plus(entry.linear.dot(pose.im.component_times(entry.linear))).plus(
                pose.ii.times(entry.angular).times(entry.angular),
            );
            a = a + 1;
        }
        if denominator.at_most(S::from_decimal(1, -12)) {
            self.fail(RoutedRopeStatus::NoDynamicParticipant);
            return;
        }
        self.constraint_speed = self.speed(bodies);
        self.cfm_gain = denominator.times(params.joint_cfm_coeff);
        self.inverse_lhs = S::ONE.divided_by(denominator.plus(self.cfm_gain));
        self.rhs_bias = if S::ZERO.less_than(self.length_error) {
            self.length_error.times(params.joint_erp_inv_dt).smaller(params.max_corrective_velocity)
        } else {
            self.length_error.divided_by(params.dt)
        };
        self.impulse = if params.warmstart_joints {
            self.warmstart_impulse.times(params.warmstart_coefficient)
        } else {
            S::ZERO
        };
        // The warm-start impulse is applied to the bodies in this substep, so
        // a positive one is tension the rope carries.
        self.active = self.active || S::ZERO.less_than(self.impulse);
        self.status = RoutedRopeStatus::Valid;
    }

    /// Applies `impulse` along the Jacobian to the velocities of the bodies it names.
    pub fn apply_impulse(&self, bodies: &mut SolverBodies<S>, impulse: S)
        requires
            old(bodies).wf(),
            self.jacobian_slots_below(old(bodies).poses@.len() as int),
        ensures
            final(bodies).wf(),
            final(bodies).poses@ == old(bodies).poses@,
            final(bodies).vels@.len() == old(bodies).vels@.len(),
            forall|i: u32|
                (i as int) < old(bodies).vels@.len() && !jacobian_slots(self.jacobians()).contains(i)
                    ==> #[trigger] final(bodies).vels@[i as int] == old(bodies).vels@[i as int],
            final(bodies).vels@ == after_impulse(self.jacobians(), old(bodies).poses@, old(bodies).vels@, impulse),
    {
        if impulse.equals(S::ZERO) {
            return;
        }
        let mut a: usize = 0;
        while a < self.jacobians.len()
            invariant
                bodies.wf(),
                bodies.poses@ == old(bodies).poses@,
                bodies.vels@.len() == old(bodies).vels@.len(),
                self.jacobian_slots_below(bodies.poses@.len() as int),
                a <= self.jacobians@.len(),
                forall|i: u32|
                    (i as int) < bodies.vels@.len() && !jacobian_slots(self.jacobians()).contains(i)
                        ==> #[trigger] bodies.vels@[i as int] == old(bodies).vels@[i as int],
                !impulse.spec_equals(S::ZERO),
                bodies.vels@ == impulse_applied(self.jacobians(), old(bodies).poses@, old(bodies).vels@, impulse, a as int),
            decreases self.jacobians@.len() - a,
        {
            let entry = self.jacobians[a];
            assert(self.jacobians()[a as int] == entry);
            let pose = bodies.poses[entry.solver_body as usize];
            let mut velocity = bodies.vels[entry.solver_body as usize];
            velocity.linear = velocity.linear.minus(pose.im.component_times(entry.linear).scaled(impulse));
            velocity.angular = velocity.angular.minus(pose.ii.times(entry.angular).times(impulse));
            bodies.vels.set(entry.solver_body as usize, velocity);
            proof {
                assert(jacobian_slots(self.jacobians())[a as int] == entry.solver_body);
            }
            a = a + 1;
        }
    }

    /// Applies the impulse carried over from the previous substep.
    pub fn warmstart(&self, bodies: &mut SolverBodies<S>)
        requires
            old(bodies).wf(),
            self.jacobian_slots_below(old(bodies).poses@.len() as int),
        ensures
            final(bodies).wf(),
            final(bodies).poses@ == old(bodies).poses@,
            final(bodies).vels@.len() == old(bodies).vels@.len(),
            forall|i: u32|
                (i as int) < old(bodies).vels@.len() && !jacobian_slots(self.jacobians()).contains(i)
                    ==> #[trigger] final(bodies).vels@[i as int] == old(bodies).vels@[i as int],
            final(bodies).vels@ == after_impulse(self.jacobians(), old(bodies).poses@, old(bodies).vels@, self.impulse()),
    {
        self.apply_impulse(bodies, self.impulse);
    }

    /// One projected Gauss-Seidel iteration: updates the accumulated impulse,
    /// kept non-negative so the rope only pulls, and applies the change.
    pub fn solve(&mut self, bodies: &mut SolverBodies<S>, without_bias: bool)
        requires
            old(bodies).wf(),
            old(self).jacobian_slots_below(old(bodies).poses@.len() as int),
        ensures
            final(bodies).wf(),
            final(bodies).poses@ == old(bodies).poses@,
            final(bodies).vels@.len() == old(bodies).vels@.len(),
            forall|i: u32|
                (i as int) < old(bodies).vels@.len() && !jacobian_slots(old(self).jacobians()).contains(i)
                    ==> #[trigger] final(bodies).vels@[i as int] == old(bodies).vels@[i as int],
            Self::solve_outcome(old(self), final(self)),
            !old(self).spec_enabled() ==> final(bodies).vels@ == old(bodies).vels@,
            Self::solve_step(old(self), final(self), old(bodies).vels@, without_bias),
            final(bodies).vels@ == old(self).solved_velocities(old(bodies).poses@, old(bodies).vels@, without_bias),
    {
        if !self.enabled || self.inverse_lhs.equals(S::ZERO) {
            return;
        }
        let bias = if without_bias {
            S::ZERO
        } else {
            self.rhs_bias
        };
        let rhs = self.speed(bodies).plus(bias);
        let next = self.impulse.plus(self.inverse_lhs.times(rhs.minus(self.cfm_gain.times(self.impulse)))).larger(
            S::ZERO,
        );
        let delta = next.minus(self.impulse);
        self.impulse = next;
        self.active = self.active || S::ZERO.less_than(next);
        assert(self.jacobians() == old(self).jacobians());
        self.apply_impulse(bodies, delta);
    }

    /// Records the substep's length rate and accumulated impulse, and keeps
    /// the impulse to seed the next substep.
    pub fn finish_substep(&mut self, bodies: &SolverBodies<S>)
        requires
            bodies.wf(),
            old(self).jacobian_slots_below(bodies.poses@.len() as int),
        ensures
            Self::finish_outcome(old(self), final(self), bodies),

    {
        if !self.enabled {
            return;
        }
        self.constraint_speed = self.speed(bodies);
        self.step_impulse = self.step_impulse.plus(self.impulse);
        self.warmstart_impulse = self.impulse;
    }

    /// The world position of a routed point, read from the bodies.
    pub fn resolve_point(point: &RoutedRopePoint<S>, bodies: &RigidBodySet<S>) -> (r: Result<Vector<S>, RoutedRopeStatus>)
        requires
            bodies.wf(),
        ensures
            r is Ok <==> point_available(bodies, *point),
            r matches Err(s) ==> s == RoutedRopeStatus::MissingBody,
            r matches Ok(p) ==> p == observed_point(bodies, *point),
            *point matches RoutedRopePoint::World(w) ==> r == Ok::<Vector<S>, RoutedRopeStatus>(w),
    {
        match point {
            RoutedRopePoint::World(p) => Ok(*p),
            RoutedRopePoint::Body { body, local_anchor } => match bodies.get(*body) {
                Some(b) => {
                    if b.is_enabled() {
                        Ok(b.position.transform_point(*local_anchor))
                    } else {
                        Err(RoutedRopeStatus::MissingBody)
                    }
                },
                None => Err(RoutedRopeStatus::MissingBody),
            },
        }
    }

    /// Re-routes the rope at the bodies' positions after a step and records
    /// its length, length error and length rate from the body velocities.
    pub fn refresh_observations(&mut self, bodies: &RigidBodySet<S>)
        requires
            bodies.wf(),
        ensures
            Self::refresh_outcome(old(self), final(self), bodies),

    {
        if !self.enabled {
            return;
        }
        let endpoint_a = match Self::resolve_point(&self.endpoint_a, bodies) {
            Ok(p) => p,
            Err(status) => {
                proof {
                    assert(!point_available(bodies, self.route_point(0)));
                }
                self.fail(status);
                return;
            },
        };
        let endpoint_b = match Self::resolve_point(&self.endpoint_b, bodies) {
            Ok(p) => p,
            Err(status) => {
                proof {
                    assert(!point_available(bodies, self.route_point(1)));
                }
                self.fail(status);
                return;
            },
        };
        let n = self.pulleys.len();
        let mut pulley_geometry: Vec<RoutedRopePulleyGeometry<S>> = Vec::new();
        let mut missing = false;
        let mut k: usize = 0;
        while k < n
            invariant_except_break
                !missing,
            invariant
                n == self.pulleys@.len(),
                bodies.wf(),
                k <= n,
                !missing ==> pulley_geometry@ == self.observed_wheels(bodies).take(k as int),
                !missing ==> forall|j: int| 0 <= j < k ==> point_available(bodies, #[trigger] self.pulleys@[j].center),
                missing ==> exists|j: int| 0 <= j < n && !point_available(bodies, #[trigger] self.pulleys@[j].center),
            ensures
                !missing ==> k == n,
            decreases n - k,
        {
            let pulley = self.pulleys[k];
            match Self::resolve_point(&pulley.center, bodies) {
                Ok(center) => {
                    assert(self.spec_pulleys()[k as int] == pulley);
                    assert(center == observed_point(bodies, self.spec_pulleys()[k as int].center));
                    pulley_geometry.push(RoutedRopePulleyGeometry { center, radius: pulley.radius, winding: pulley.winding });
                    assert(pulley_geometry@ =~= self.observed_wheels(bodies).take(k + 1));
                },
                Err(_) => {
                    missing = true;
                    break;
                },
            }
            k = k + 1;
        }
        if missing {
            proof {
                let j = choose|j: int| 0 <= j < n && !point_available(bodies, #[trigger] self.pulleys@[j].center);
                assert(self.route_point(j + 2) == self.pulleys@[j].center);
                assert(!point_available(bodies, self.route_point(j + 2)));
            }
            self.fail(RoutedRopeStatus::MissingBody);
            return;
        }
        proof {
            assert(point_available(bodies, self.endpoint_a));
            assert(point_available(bodies, self.endpoint_b));
            assert forall|q: int| 0 <= q < self.point_count() implies #[trigger] point_available(bodies, self.route_point(q)) by {
                if q >= 2 {
                    assert(self.route_point(q) == self.pulleys@[q - 2].center);
                }
            }
        }
        assert(pulley_geometry@ =~= self.observed_wheels(bodies));
        let resolved = resolve_route(endpoint_a, endpoint_b, pulley_geometry.as_slice());
        assert(route_outcome(resolved) == old(self).observed_route(bodies));
        let route = match resolved {
            Ok(route) => route,
            Err(status) => {
                self.fail(status);
                return;
            },
        };
        self.current_length = route.total_length;
        self.length_error = route.total_length.minus(self.max_length);
        self.constraint_speed = S::ZERO;
        let count = route.gradients.len();
        let ghost before = *self;
        let mut speed = S::ZERO;
        let mut q: usize = 0;
        while q < count
            invariant
                n == self.pulleys@.len(),
                count == n + 2,
                route.gradients@.len() == n + 2,
                bodies.wf(),
                self.unchanged_from(&before),
                self.spec_enabled(),
                self.points_available(bodies),
                self.same_configuration(old(self)),
                q <= count,
                speed == old(self).observed_speed(bodies, route.gradients@, q as int),
            decreases count - q,
        {
            let point = if q == 0 {
                self.endpoint_a
            } else if q == 1 {
                self.endpoint_b
            } else {
                self.pulleys[q - 2].center
            };
            assert(point == self.route_point(q as int));
            assert(point == old(self).route_point(q as int));
            assert(point_available(bodies, self.route_point(q as int)));
            let gradient = route.gradients[q];
            match point {
                RoutedRopePoint::World(_) => {},
                RoutedRopePoint::Body { body, local_anchor } => {
                    let b = match bodies.get(body) {
                        Some(b) => b,
                        None => {
                            assert(false);
                            self.fail(RoutedRopeStatus::MissingBody);
                            return;
                        },
                    };
                    speed = speed.plus(gradient.dot(b.linvel));
                    if q < 2 {
                        let world_point = b.position.transform_point(local_anchor);
                        let offset = world_point.minus(b.world_com);
                        speed = speed.plus(offset.x.times(gradient.y).minus(offset.y.times(gradient.x)).times(b.angvel));
                    }
                },
            }
            q = q + 1;
        }
        self.constraint_speed = speed;
    }

    /// The rope's current length rate: the Jacobian applied to the body velocities.
    pub fn speed(&self, bodies: &SolverBodies<S>) -> (r: S)
        requires
            bodies.wf(),
            self.jacobian_slots_below(bodies.poses@.len() as int),
        ensures
            r == length_rate(self.jacobians(), bodies.vels@, self.jacobians().len() as int),
    {
        let mut sum = S::ZERO;
        let mut a: usize = 0;
        while a < self.jacobians.len()
            invariant
                bodies.wf(),
                self.jacobian_slots_below(bodies.poses@.len() as int),
                a <= self.jacobians@.len(),
                sum == length_rate(self.jacobians(), bodies.vels@, a as int),
            decreases self.jacobians@.len() - a,
        {
            let entry = self.jacobians[a];
            assert(self.jacobians()[a as int] == entry);
            let velocity = bodies.vels[entry.solver_body as usize];
            sum = sum.plus(entry.linear.dot(velocity.linear)).plus(entry.angular.times(velocity.angular));
            a = a + 1;
        }
        sum
    }

    /// Resolves one routed point against the bodies.
    pub fn prepare_point(point: &RoutedRopePoint<S>, angular_response: bool, bodies: &RigidBodySet<S>) -> (r: Result<
        PreparedPoint<S>,
        RoutedRopeStatus,
    >)
        requires
            bodies.wf(),
        ensures
            r is Ok <==> point_available(bodies, *point),
            r matches Err(s) ==> s == RoutedRopeStatus::MissingBody,
            r matches Ok(p) ==> {
                &&& p.solver_body == solver_slot(bodies, *point)
                &&& p.angular_response == (angular_response && *point is Body)
                &&& (*point matches RoutedRopePoint::World(w) ==> p.fixed_world_point == w)
            },
    {
        match point {
            RoutedRopePoint::World(p) => Ok(
                PreparedPoint {
                    solver_body: None,
                    local_com_anchor: Vector::zero(),
                    fixed_world_point: *p,
                    angular_response: false,
                },
            ),
            RoutedRopePoint::Body { body, local_anchor } => {
                let rigid_body = match bodies.get(*body) {
                    Some(b) => b,
                    None => return Err(RoutedRopeStatus::MissingBody),
                };
                if !rigid_body.is_enabled() {
                    return Err(RoutedRopeStatus::MissingBody);
                }
                let world_point = rigid_body.position.transform_point(*local_anchor);
                let local_com_anchor = rigid_body.position.rotation.inverse().apply(
                    world_point.minus(rigid_body.world_com),
                );
                let solver_body = if !rigid_body.is_fixed() && !rigid_body.is_sleeping() {
                    Some(rigid_body.active_set_id)
                } else {
                    None
                };
                Ok(PreparedPoint { solver_body, local_com_anchor, fixed_world_point: world_point, angular_response })
            },
        }
    }
}

/// A disabled constraint takes no part in a step: preparing it, re-routing
/// it for a substep, solving it, finishing the substep and refreshing its
/// observations each leave it exactly as it was.
pub proof fn lemma_disabled_is_inert<S: Scalar>(
    before: RoutedRopeConstraint<S>,
    prepared: RoutedRopeConstraint<S>,
    routed: RoutedRopeConstraint<S>,
    solved: RoutedRopeConstraint<S>,
    finished: RoutedRopeConstraint<S>,
    refreshed: RoutedRopeConstraint<S>,
    bodies: &RigidBodySet<S>,
    params: &IntegrationParameters<S>,
    solver: &SolverBodies<S>,
)
    requires
        !before.spec_enabled(),
        RoutedRopeConstraint::prepare_outcome(&before, &prepared, bodies),
        RoutedRopeConstraint::substep_outcome(&prepared, &routed, params, solver),
        RoutedRopeConstraint::solve_outcome(&routed, &solved),
        RoutedRopeConstraint::finish_outcome(&solved, &finished, solver),
        RoutedRopeConstraint::refresh_outcome(&finished, &refreshed, bodies),
    ensures
        prepared.unchanged_from(&before),
        routed.unchanged_from(&before),
        solved.unchanged_from(&before),
        finished.unchanged_from(&before),
        refreshed.unchanged_from(&before),
{
}

/// Whether the status is `Valid` exactly when the constraint is enabled, and
/// a disabled constraint carries no tension.
pub open spec fn status_consistent<S: Scalar>(c: RoutedRopeConstraint<S>) -> bool {
    &&& (c.status() == RoutedRopeStatus::Valid) == c.spec_enabled()
    &&& !c.spec_enabled() ==> !c.active()
}

/// Every operation of a constraint keeps its status consistent with its
/// flag: `new` starts enabled and valid, and enabling, preparing, re-routing,
/// beginning a step, solving, finishing a substep and refreshing the
/// observations each leave the status `Valid` exactly when the constraint is
/// enabled, and a disabled constraint without tension.
pub proof fn lemma_status_stays_consistent<S: Scalar>(
    before: RoutedRopeConstraint<S>,
    after: RoutedRopeConstraint<S>,
    enabled: bool,
    bodies: &RigidBodySet<S>,
    params: &IntegrationParameters<S>,
    solver: &SolverBodies<S>,
)
    requires
        status_consistent(before),
    ensures
        RoutedRopeConstraint::enable_outcome(&before, &after, enabled) ==> status_consistent(after),
        RoutedRopeConstraint::prepare_outcome(&before, &after, bodies) ==> status_consistent(after),
        RoutedRopeConstraint::substep_outcome(&before, &after, params, solver) ==> status_consistent(after),
        RoutedRopeConstraint::begin_outcome(&before, &after) ==> status_consistent(after),
        RoutedRopeConstraint::solve_outcome(&before, &after) ==> status_consistent(after),
        RoutedRopeConstraint::finish_outcome(&before, &after, solver) ==> status_consistent(after),
        RoutedRopeConstraint::refresh_outcome(&before, &after, bodies) ==> status_consistent(after),
{
    if RoutedRopeConstraint::refresh_outcome(&before, &after, bodies) && before.spec_enabled() && before.points_available(
        bodies,
    ) {
        match before.observed_route(bodies) {
            Err(status) => {
                assert(is_route_failure(status));
            },
            Ok(_) => {},
        }
    }
}

/// The impulses of the first `k` substeps in which the constraint was still
/// enabled when the substep finished, summed in order from zero.
pub open spec fn substep_impulse_sum<S: Scalar>(solved: Seq<RoutedRopeConstraint<S>>, k: int) -> S
    decreases k,
{
    if k <= 0 {
        S::ZERO
    } else if solved[k - 1].spec_enabled() {
        substep_impulse_sum(solved, k - 1).spec_plus(solved[k - 1].impulse())
    } else {
        substep_impulse_sum(solved, k - 1)
    }
}

/// Over a pipeline step, the step impulse is the sum of the impulses the
/// constraint held when each of its substeps finished: `begin_step` clears
/// it, re-routing and solving leave it alone, and each `finish_substep` of an
/// enabled constraint adds the substep's impulse.
pub proof fn lemma_step_impulse_sums_substeps<S: Scalar>(
    start: RoutedRopeConstraint<S>,
    stages: Seq<RoutedRopeConstraint<S>>,
    routed: Seq<RoutedRopeConstraint<S>>,
    solved: Seq<RoutedRopeConstraint<S>>,
    params: IntegrationParameters<S>,
    solvers: Seq<SolverBodies<S>>,
    k: int,
)
    requires
        0 <= k,
        stages.len() == k + 1,
        routed.len() == k,
        solved.len() == k,
        solvers.len() == k,
        RoutedRopeConstraint::begin_outcome(&start, &stages[0]),
        forall|j: int|
            0 <= j < k ==> {
                &&& RoutedRopeConstraint::substep_outcome(&stages[j], &#[trigger] routed[j], &params, &solvers[j])
                &&& RoutedRopeConstraint::solve_outcome(&routed[j], &solved[j])
                &&& RoutedRopeConstraint::finish_outcome(&solved[j], &stages[j + 1], &solvers[j])
            },
    ensures
        stages[k].step_impulse() == substep_impulse_sum(solved, k),
    decreases k,
{
    if k > 0 {
        lemma_step_impulse_sums_substeps(
            start,
            stages.take(k),
            routed.take(k - 1),
            solved.take(k - 1),
            params,
            solvers.take(k - 1),
            k - 1,
        );
        let j = k - 1;
        assert(RoutedRopeConstraint::substep_outcome(&stages[j], &routed[j], &params, &solvers[j]));
        assert(substep_impulse_sum(solved.take(k - 1), k - 1) == substep_impulse_sum(solved, k - 1)) by {
            lemma_impulse_sum_prefix_at(solved, k - 1, k - 1);
        }
    }
}

proof fn lemma_impulse_sum_prefix_at<S: Scalar>(solved: Seq<RoutedRopeConstraint<S>>, k: int, m: int)
    requires
        0 <= m <= k <= solved.len(),
    ensures
        substep_impulse_sum(solved.take(k), m) == substep_impulse_sum(solved, m),
    decreases m,
{
    if m > 0 {
        lemma_impulse_sum_prefix_at(solved, k, m - 1);
        assert(solved.take(k)[m - 1] == solved[m - 1]);
    }
}

/// Distinct statuses have distinct codes, so a code identifies its status.
pub proof fn lemma_status_code_injective(a: RoutedRopeStatus, b: RoutedRopeStatus)
    ensures
        a.code() == b.code() ==> a == b,
{
}

} // verus!
