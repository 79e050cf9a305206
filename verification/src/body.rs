//! The rigid-body state that routed ropes read: body records addressed by
//! handles, and the per-substep solver view of the awake bodies.
use vstd::prelude::*;

use crate::arena::{Arena, Index};
use crate::scalar::{Scalar, Vector};

verus! {

/// Stable handle of a rigid body.
#[derive(Clone, Copy, Debug, PartialEq, Eq, Structural, Hash)]
pub struct RigidBodyHandle(pub Index);

/// A planar rotation, stored as its cosine and sine.
#[derive(Clone, Copy, Debug)]
pub struct Rotation<S> {
    pub cos: S,
    pub sin: S,
}

impl<S: Scalar> Rotation<S> {
    pub fn identity() -> (r: Self)
        ensures
            r.cos == S::ONE,
            r.sin == S::ZERO,
    {
        Rotation { cos: S::ONE, sin: S::ZERO }
    }

    /// The opposite rotation.
    pub open spec fn spec_inverse(self) -> Self {
        Rotation { cos: self.cos, sin: self.sin.spec_negated() }
    }

    /// The opposite rotation.
    #[verifier::when_used_as_spec(spec_inverse)]
    pub fn inverse(self) -> (r: Self)
        ensures
            r == self.spec_inverse(),
    {
        Rotation { cos: self.cos, sin: self.sin.negated() }
    }

    /// The rotation angle, in `(-pi, pi]`.
    pub open spec fn spec_angle(self) -> S {
        self.sin.spec_arc_tangent2(self.cos)
    }

    /// The rotation angle, in `(-pi, pi]`.
    #[verifier::when_used_as_spec(spec_angle)]
    pub fn angle(self) -> (r: S)
        ensures
            r == self.spec_angle(),
    {
        self.sin.arc_tangent2(self.cos)
    }

    /// `v` rotated.
    pub open spec fn spec_apply(self, v: Vector<S>) -> Vector<S> {
        Vector {
            x: self.cos.spec_times(v.x).spec_minus(self.sin.spec_times(v.y)),
            y: self.sin.spec_times(v.x).spec_plus(self.cos.spec_times(v.y)),
        }
    }

    /// Rotates `v`.
    #[verifier::when_used_as_spec(spec_apply)]
    pub fn apply(self, v: Vector<S>) -> (r: Vector<S>)
        ensures
            r == self.spec_apply(v),
    {
        Vector {
            x: self.cos.times(v.x).minus(self.sin.times(v.y)),
            y: self.sin.times(v.x).plus(self.cos.times(v.y)),
        }
    }
}

/// A rigid placement: a rotation followed by a translation.
#[derive(Clone, Copy, Debug)]
pub struct Pose<S> {
    pub rotation: Rotation<S>,
    pub translation: Vector<S>,
}

impl<S: Scalar> Pose<S> {
    pub fn identity() -> (r: Self)
        ensures
            r.rotation.cos == S::ONE,
            r.rotation.sin == S::ZERO,
            r.translation.x == S::ZERO,
            r.translation.y == S::ZERO,
    {
        Pose { rotation: Rotation::identity(), translation: Vector::zero() }
    }

    /// The pure translation by `translation`.
    pub fn from_translation(translation: Vector<S>) -> (r: Self)
        ensures
            r.rotation.cos == S::ONE,
            r.rotation.sin == S::ZERO,
            r.translation == translation,
    {
        Pose { rotation: Rotation::identity(), translation }
    }

    /// The image of the point `p`, given in this pose's local frame.
    pub open spec fn spec_transform_point(self, p: Vector<S>) -> Vector<S> {
        self.rotation.spec_apply(p).spec_plus(self.translation)
    }

    /// The image of the point `p`, given in this pose's local frame.
    #[verifier::when_used_as_spec(spec_transform_point)]
    pub fn transform_point(self, p: Vector<S>) -> (r: Vector<S>)
        ensures
            r == self.spec_transform_point(p),
    {
        self.rotation.apply(p).plus(self.translation)
    }

    /// The pose that undoes this one.
    pub open spec fn spec_inverse(self) -> Pose<S> {
        Pose {
            rotation: self.rotation.spec_inverse(),
            translation: self.rotation.spec_inverse().spec_apply(self.translation.spec_negated()),
        }
    }

    /// The pose that undoes this one.
    #[verifier::when_used_as_spec(spec_inverse)]
    pub fn inverse(self) -> (r: Pose<S>)
        ensures
            r == self.spec_inverse(),
    {
        let rotation = self.rotation.inverse();
        Pose { rotation, translation: rotation.apply(self.translation.negated()) }
    }

    /// The point of this pose's local frame whose image is `p`.
    pub open spec fn spec_inverse_transform_point(self, p: Vector<S>) -> Vector<S> {
        self.rotation.spec_inverse().spec_apply(p.spec_minus(self.translation))
    }

    /// The point of this pose's local frame whose image is `p`.
    #[verifier::when_used_as_spec(spec_inverse_transform_point)]
    pub fn inverse_transform_point(self, p: Vector<S>) -> (r: Vector<S>)
        ensures
            r == self.spec_inverse_transform_point(p),
    {
        self.rotation.inverse().apply(p.minus(self.translation))
    }
}

/// What a routed rope reads of a rigid body.
#[derive(Clone, Copy, Debug)]
pub struct RigidBody<S> {
    /// Whether the body takes part in the simulation.
    pub enabled: bool,
    /// Whether the body never moves.
    pub fixed: bool,
    /// Whether the body is asleep.
    pub sleeping: bool,
    /// Slot of the body in the solver's view of awake bodies.
    pub active_set_id: u32,
    /// World placement of the body frame.
    pub position: Pose<S>,
    /// World position of the center of mass.
    pub world_com: Vector<S>,
    /// Linear velocity.
    pub linvel: Vector<S>,
    /// Angular velocity.
    pub angvel: S,
}

impl<S: Scalar> RigidBody<S> {
    /// An enabled, awake, dynamic body at rest at the origin.
    pub fn dynamic() -> (r: Self)
        ensures
            r.enabled,
            !r.fixed,
            !r.sleeping,
            r.active_set_id == 0,
    {
        RigidBody {
            enabled: true,
            fixed: false,
            sleeping: false,
            active_set_id: 0,
            position: Pose::identity(),
            world_com: Vector::zero(),
            linvel: Vector::zero(),
            angvel: S::ZERO,
        }
    }

    /// An enabled body that never moves, at the origin.
    pub fn fixed() -> (r: Self)
        ensures
            r.enabled,
            r.fixed,
            !r.sleeping,
    {
        RigidBody {
            enabled: true,
            fixed: true,
            sleeping: false,
            active_set_id: 0,
            position: Pose::identity(),
            world_com: Vector::zero(),
            linvel: Vector::zero(),
            angvel: S::ZERO,
        }
    }

    pub fn is_enabled(&self) -> (r: bool)
        ensures
            r == self.enabled,
    {
        self.enabled
    }

    pub fn is_fixed(&self) -> (r: bool)
        ensures
            r == self.fixed,
    {
        self.fixed
    }

    pub fn is_sleeping(&self) -> (r: bool)
        ensures
            r == self.sleeping,
    {
        self.sleeping
    }
}

/// The rigid bodies of a world, addressed by handle.
pub struct RigidBodySet<S> {
    bodies: Arena<RigidBody<S>>,
}

spec fn by_handle<S>(m: Map<Index, RigidBody<S>>) -> Map<RigidBodyHandle, RigidBody<S>> {
    Map::new(|h: RigidBodyHandle| m.contains_key(h.0), |h: RigidBodyHandle| m[h.0])
}

proof fn lemma_by_handle_insert<S>(m: Map<Index, RigidBody<S>>, i: Index)
    ensures
        forall|v: RigidBody<S>| #[trigger] by_handle(m.insert(i, v)) == by_handle(m).insert(RigidBodyHandle(i), v),
{
    assert forall|v: RigidBody<S>| #[trigger] by_handle(m.insert(i, v)) == by_handle(m).insert(RigidBodyHandle(i), v) by {
        assert(by_handle(m.insert(i, v)) =~= by_handle(m).insert(RigidBodyHandle(i), v));
    }
}

impl<S> View for RigidBodySet<S> {
    type V = Map<RigidBodyHandle, RigidBody<S>>;

    closed spec fn view(&self) -> Map<RigidBodyHandle, RigidBody<S>> {
        by_handle(self.bodies@)
    }
}

impl<S: Scalar> RigidBodySet<S> {
    pub closed spec fn wf(&self) -> bool {
        self.bodies.wf()
    }

    /// Whether the body `h` is present and enabled.
    pub open spec fn available(&self, h: RigidBodyHandle) -> bool {
        self@.contains_key(h) && self@[h].enabled
    }

    /// Number of bodies.
    pub closed spec fn count(&self) -> nat {
        self.bodies@.len()
    }

    /// Removals left before the handle generations run out.
    pub closed spec fn can_remove(&self) -> bool {
        self.bodies.generation() < u32::MAX
    }

    pub fn new() -> (r: Self)
        ensures
            r.wf(),
            r@ == Map::<RigidBodyHandle, RigidBody<S>>::empty(),
            r.can_remove(),
            r.count() == 0,
    {
        let r = RigidBodySet { bodies: Arena::new() };
        assert(r@ =~= Map::<RigidBodyHandle, RigidBody<S>>::empty());
        r
    }

    /// Number of bodies.
    pub fn len(&self) -> (r: usize)
        requires
            self.wf(),
        ensures
            r == self.count(),
    {
        self.bodies.len()
    }

    /// Adds `body` and returns its fresh handle.
    pub fn insert(&mut self, body: RigidBody<S>) -> (r: RigidBodyHandle)
        requires
            old(self).wf(),
            old(self).count() < u32::MAX,
        ensures
            final(self).wf(),
            !old(self)@.contains_key(r),
            final(self)@ == old(self)@.insert(r, body),
            final(self).count() == old(self).count() + 1,
            final(self).can_remove() == old(self).can_remove(),
    {
        let i = self.bodies.insert(body);
        let r = RigidBodyHandle(i);
        proof {
            assert(self@ =~= old(self)@.insert(r, body));
        }
        r
    }

    /// Removes the body `h`, if present.
    pub fn remove(&mut self, h: RigidBodyHandle) -> (r: Option<RigidBody<S>>)
        requires
            old(self).wf(),
            old(self)@.contains_key(h) ==> old(self).can_remove(),
        ensures
            final(self).wf(),
            old(self)@.contains_key(h) ==> r == Some(old(self)@[h]) && final(self)@ == old(self)@.remove(h)
                && final(self).count() + 1 == old(self).count(),
            !old(self)@.contains_key(h) ==> r is None && final(self)@ == old(self)@ && final(self).count()
                == old(self).count(),
    {
        let r = self.bodies.remove(h.0);
        proof {
            if old(self)@.contains_key(h) {
                assert(self@ =~= old(self)@.remove(h));
            } else {
                assert(self@ =~= old(self)@);
            }
        }
        r
    }

    /// The body `h`, if present.
    pub fn get(&self, h: RigidBodyHandle) -> (r: Option<&RigidBody<S>>)
        requires
            self.wf(),
        ensures
            self@.contains_key(h) ==> r == Some(&self@[h]),
            !self@.contains_key(h) ==> r is None,
    {
        self.bodies.get(h.0)
    }

    /// Mutable access to the body `h`, if present.
    pub fn get_mut(&mut self, h: RigidBodyHandle) -> (r: Option<&mut RigidBody<S>>)
        requires
            old(self).wf(),
        ensures
            final(self).wf(),
            final(self).can_remove() == old(self).can_remove(),
            old(self)@.contains_key(h) ==> (r matches Some(b) && *b == old(self)@[h] && final(self)@
                == old(self)@.insert(h, *final(b))),
            !old(self)@.contains_key(h) ==> (r is None && final(self)@ == old(self)@),
    {
        proof {
            lemma_by_handle_insert(self.bodies@, h.0);
        }
        self.bodies.get_mut(h.0)
    }
}

/// Placement and inverse mass of an awake body as the solver sees it.
#[derive(Clone, Copy, Debug)]
pub struct SolverPose<S> {
    /// Rotation of the body.
    pub rotation: Rotation<S>,
    /// World position of the center of mass.
    pub translation: Vector<S>,
    /// Inverse mass along each axis.
    pub im: Vector<S>,
    /// Inverse angular inertia.
    pub ii: S,
}

impl<S: Scalar> SolverPose<S> {
    /// The image of the point `p`, given relative to the center of mass in the body frame.
    pub open spec fn spec_transform_point(self, p: Vector<S>) -> Vector<S> {
        self.rotation.spec_apply(p).spec_plus(self.translation)
    }

    /// The image of the point `p`, given relative to the center of mass in the body frame.
    #[verifier::when_used_as_spec(spec_transform_point)]
    pub fn transform_point(self, p: Vector<S>) -> (r: Vector<S>)
        ensures
            r == self.spec_transform_point(p),
    {
        self.rotation.apply(p).plus(self.translation)
    }
}

/// Velocity of an awake body as the solver sees it.
#[derive(Clone, Copy, Debug)]
pub struct SolverVel<S> {
    pub linear: Vector<S>,
    pub angular: S,
}

/// The solver's view of the awake bodies, indexed by active-set slot.
pub struct SolverBodies<S> {
    pub poses: Vec<SolverPose<S>>,
    pub vels: Vec<SolverVel<S>>,
}

impl<S> SolverBodies<S> {
    /// Every body has a pose and a velocity.
    pub open spec fn wf(&self) -> bool {
        self.poses@.len() == self.vels@.len()
    }
}

/// Step parameters a routed rope reads during a substep.
#[derive(Clone, Copy, Debug)]
pub struct IntegrationParameters<S> {
    /// Substep length.
    pub dt: S,
    /// Whether joint impulses are carried over between substeps.
    pub warmstart_joints: bool,
    /// Factor applied to the carried-over impulse.
    pub warmstart_coefficient: S,
    /// Largest velocity the position correction may request.
    pub max_corrective_velocity: S,
    /// Constraint-force-mixing coefficient of the default joint softness at `dt`.
    pub joint_cfm_coeff: S,
    /// Error-reduction rate of the default joint softness at `dt`, divided by `dt`.
    pub joint_erp_inv_dt: S,
}

} // verus!
