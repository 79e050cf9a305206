//! The arena of routed-rope constraints of a world, addressed by stable handles.
use vstd::prelude::*;

use crate::arena::{slot_related, Arena, Index};
use crate::body::{IntegrationParameters, RigidBodyHandle, RigidBodySet, SolverBodies, SolverPose, SolverVel};
use crate::rope::{after_impulse, jacobian_slots, RoutedRopeConstraint};
use crate::scalar::Scalar;

verus! {

/// Stable handle of a routed-rope constraint stored by a physics pipeline.
#[derive(Clone, Copy, Debug, PartialEq, Eq, Structural, Hash)]
pub struct RoutedRopeConstraintHandle(pub Index);

impl RoutedRopeConstraintHandle {
    /// Splits this handle into its arena index and generation.
    pub fn into_raw_parts(self) -> (r: (u32, u32))
        ensures
            r.0 == self.0.slot(),
            r.1 == self.0.stamp(),
    {
        self.0.into_raw_parts()
    }

    /// Reconstructs a handle from an arena index and generation.
    pub fn from_raw_parts(id: u32, generation: u32) -> (r: Self)
        ensures
            r.0.slot() == id,
            r.0.stamp() == generation,
    {
        RoutedRopeConstraintHandle(Index::from_raw_parts(id, generation))
    }
}

impl Default for RoutedRopeConstraintHandle {
    /// The invalid handle.
    fn default() -> (r: Self)
        ensures
            r.0.slot() == crate::arena::INVALID_U32,
            r.0.stamp() == crate::arena::INVALID_U32,
    {
        RoutedRopeConstraintHandle(Index::default())
    }
}

/// Splitting a handle into raw parts and rebuilding it gives the same handle.
pub proof fn lemma_raw_parts_round_trip(h: RoutedRopeConstraintHandle, id: u32, generation: u32)
    ensures
        (h.0.slot() == id && h.0.stamp() == generation) <==> h == RoutedRopeConstraintHandle(
            Index::spec_from_raw_parts(id, generation),
        ),
{
    Index::lemma_raw_parts(id, generation);
    Index::lemma_equal_parts(h.0, Index::spec_from_raw_parts(id, generation));
}

/// Deterministic arena of native routed-rope constraints.
pub struct RoutedRopeConstraintSet<S> {
    constraints: Arena<RoutedRopeConstraint<S>>,
}

spec fn by_handle<S>(m: Map<Index, RoutedRopeConstraint<S>>) -> Map<RoutedRopeConstraintHandle, RoutedRopeConstraint<S>> {
    Map::new(|h: RoutedRopeConstraintHandle| m.contains_key(h.0), |h: RoutedRopeConstraintHandle| m[h.0])
}

proof fn lemma_by_handle_insert<S>(m: Map<Index, RoutedRopeConstraint<S>>, i: Index)
    ensures
        forall|v: RoutedRopeConstraint<S>| #[trigger] by_handle(m.insert(i, v)) == by_handle(m).insert(RoutedRopeConstraintHandle(i), v),
{
    assert forall|v: RoutedRopeConstraint<S>| #[trigger] by_handle(m.insert(i, v)) == by_handle(m).insert(RoutedRopeConstraintHandle(i), v) by {
        assert(by_handle(m.insert(i, v)) =~= by_handle(m).insert(RoutedRopeConstraintHandle(i), v));
    }
}

/// The constraint of a slot made one solver iteration at the velocities `vels`.
pub open spec fn stepped<S: Scalar>(
    before: Option<(Index, RoutedRopeConstraint<S>)>,
    after: Option<(Index, RoutedRopeConstraint<S>)>,
    vels: Seq<SolverVel<S>>,
    without_bias: bool,
) -> bool {
    match before {
        Some((h, c)) => after matches Some((g, d)) && g == h && RoutedRopeConstraint::solve_step(&c, &d, vels, without_bias),
        None => after is None,
    }
}

impl<S> View for RoutedRopeConstraintSet<S> {
    type V = Map<RoutedRopeConstraintHandle, RoutedRopeConstraint<S>>;

    closed spec fn view(&self) -> Map<RoutedRopeConstraintHandle, RoutedRopeConstraint<S>> {
        by_handle(self.constraints@)
    }
}

impl<S: Scalar> RoutedRopeConstraintSet<S> {
    pub closed spec fn wf(&self) -> bool {
        self.constraints.wf()
    }

    /// Number of constraints.
    pub closed spec fn count(&self) -> nat {
        self.constraints@.len()
    }

    /// Removals left before the handle generations run out.
    pub closed spec fn can_remove(&self) -> bool {
        self.constraints.generation() < u32::MAX
    }

    /// The slots freed by removals, in the order they were freed.
    pub closed spec fn free_slots(&self) -> Seq<u32> {
        self.constraints.free_slots()
    }

    /// Number of slots ever used.
    pub closed spec fn slot_count(&self) -> nat {
        self.constraints.slots()
    }

    /// The slot of the handle the next insertion returns: the last freed
    /// slot, or a new one after all others when none is free.
    pub open spec fn next_slot(&self) -> int {
        if self.free_slots().len() > 0 {
            self.free_slots().last() as int
        } else {
            self.slot_count() as int
        }
    }

    /// Every handle ever removed from this set.
    pub closed spec fn retired(&self) -> Set<RoutedRopeConstraintHandle> {
        Set::new(|h: RoutedRopeConstraintHandle| self.constraints.retired().contains(h.0))
    }

    /// A handle that was removed is never handed out again: an insertion that
    /// followed the removal returned a different handle, and the removed one
    /// addresses nothing.
    pub proof fn lemma_no_aliasing(&self, removed: RoutedRopeConstraintHandle, inserted: RoutedRopeConstraintHandle)
        requires
            self.wf(),
            self.retired().contains(removed),
            self@.contains_key(inserted),
        ensures
            removed != inserted,
            !self@.contains_key(removed),
    {
        self.constraints.lemma_retired_not_live(removed.0);
    }

    /// The number of constraints is the number of live handles.
    pub proof fn lemma_count(&self)
        requires
            self.wf(),
        ensures
            self.count() == self@.len(),
            self@.dom().finite(),
    {
        let m = self.constraints@;
        self.constraints.lemma_finite();
        let f = |i: Index| RoutedRopeConstraintHandle(i);
        assert(self@.dom() =~= m.dom().map(f));
        assert(vstd::relations::injective_on(f, m.dom()));
        vstd::set_lib::lemma_map_size(m.dom(), self@.dom(), f);
    }

    /// Creates an empty routed-rope constraint set.
    pub fn new() -> (r: Self)
        ensures
            r.wf(),
            r@ == Map::<RoutedRopeConstraintHandle, RoutedRopeConstraint<S>>::empty(),
            r.count() == 0,
            r.can_remove(),
            r.retired() == Set::<RoutedRopeConstraintHandle>::empty(),
            r.free_slots() == Seq::<u32>::empty(),
            r.slot_count() == 0,
    {
        let r = RoutedRopeConstraintSet { constraints: Arena::new() };
        assert(r@ =~= Map::<RoutedRopeConstraintHandle, RoutedRopeConstraint<S>>::empty());
        assert(r.retired() =~= Set::<RoutedRopeConstraintHandle>::empty());
        r
    }

    /// Inserts a routed-rope constraint and returns its stable handle.
    pub fn insert(&mut self, constraint: RoutedRopeConstraint<S>) -> (r: RoutedRopeConstraintHandle)
        requires
            old(self).wf(),
            old(self).count() < u32::MAX,
        ensures
            final(self).wf(),
            !old(self)@.contains_key(r),
            !old(self).retired().contains(r),
            final(self)@ == old(self)@.insert(r, constraint),
            final(self).count() == old(self).count() + 1,
            final(self).retired() == old(self).retired(),
            final(self).can_remove() == old(self).can_remove(),
            r.0.slot() == old(self).next_slot(),
            old(self).free_slots().len() > 0 ==> final(self).free_slots() == old(self).free_slots().drop_last()
                && final(self).slot_count() == old(self).slot_count(),
            old(self).free_slots().len() == 0 ==> final(self).free_slots() == old(self).free_slots()
                && final(self).slot_count() == old(self).slot_count() + 1,
    {
        let i = self.constraints.insert(constraint);
        let r = RoutedRopeConstraintHandle(i);
        proof {
            assert(self@ =~= old(self)@.insert(r, constraint));
            assert(self.retired() =~= old(self).retired());
        }
        r
    }

    /// Removes and returns a constraint when the handle is valid.
    pub fn remove(&mut self, handle: RoutedRopeConstraintHandle) -> (r: Option<RoutedRopeConstraint<S>>)
        requires
            old(self).wf(),
            old(self)@.contains_key(handle) ==> old(self).can_remove(),
        ensures
            final(self).wf(),
            final(self).slot_count() == old(self).slot_count(),
            final(self).free_slots() == if old(self)@.contains_key(handle) {
                old(self).free_slots().push(handle.0.slot())
            } else {
                old(self).free_slots()
            },
            old(self)@.contains_key(handle) ==> {
                &&& r == Some(old(self)@[handle])
                &&& final(self)@ == old(self)@.remove(handle)
                &&& final(self).count() + 1 == old(self).count()
                &&& final(self).retired() == old(self).retired().insert(handle)
            },
            !old(self)@.contains_key(handle) ==> {
                &&& r is None
                &&& final(self)@ == old(self)@
                &&& final(self).count() == old(self).count()
                &&& final(self).retired() == old(self).retired()
                &&& final(self).can_remove() == old(self).can_remove()
            },
    {
        let r = self.constraints.remove(handle.0);
        proof {
            if old(self)@.contains_key(handle) {
                assert(self@ =~= old(self)@.remove(handle));
                assert(self.retired() =~= old(self).retired().insert(handle));
            } else {
                assert(self@ =~= old(self)@);
                assert(self.retired() =~= old(self).retired());
            }
        }
        r
    }

    /// Gets a routed-rope constraint by handle.
    pub fn get(&self, handle: RoutedRopeConstraintHandle) -> (r: Option<&RoutedRopeConstraint<S>>)
        requires
            self.wf(),
        ensures
            self@.contains_key(handle) ==> r == Some(&self@[handle]),
            !self@.contains_key(handle) ==> r is None,
    {
        self.constraints.get(handle.0)
    }

    /// Gets a mutable routed-rope constraint by handle.
    pub fn get_mut(&mut self, handle: RoutedRopeConstraintHandle) -> (r: Option<&mut RoutedRopeConstraint<S>>)
        requires
            old(self).wf(),
        ensures
            final(self).wf(),
            final(self).count() == old(self).count(),
            final(self).retired() == old(self).retired(),
            final(self).can_remove() == old(self).can_remove(),
            final(self).free_slots() == old(self).free_slots(),
            final(self).slot_count() == old(self).slot_count(),
            old(self)@.contains_key(handle) ==> (r matches Some(c) && *c == old(self)@[handle] && final(self)@
                == old(self)@.insert(handle, *final(c))),
            !old(self)@.contains_key(handle) ==> (r is None && final(self)@ == old(self)@),
    {
        proof {
            lemma_by_handle_insert(self.constraints@, handle.0);
            if old(self)@.contains_key(handle) {
                assert(self.constraints@.contains_key(handle.0));
            }
        }
        self.constraints.get_mut(handle.0)
    }

    /// Every constraint of `after` is the one of `before` under the same handle,
    /// related to it by `rel`.
    pub open spec fn pointwise(before: &Self, after: &Self, rel: spec_fn(RoutedRopeConstraint<S>, RoutedRopeConstraint<S>) -> bool) -> bool {
        &&& after@.dom() == before@.dom()
        &&& forall|h: RoutedRopeConstraintHandle| #[trigger] before@.contains_key(h) ==> rel(before@[h], after@[h])
    }

    /// Bookkeeping that stays the same when constraints are only updated in place.
    pub open spec fn same_handles(before: &Self, after: &Self) -> bool {
        &&& after.wf()
        &&& after.count() == before.count()
        &&& after.retired() == before.retired()
        &&& after.can_remove() == before.can_remove()
        &&& after.free_slots() == before.free_slots()
        &&& after.slot_count() == before.slot_count()
    }

    proof fn lemma_pointwise_from_slots(before: &Self, after: &Self, rel: spec_fn(RoutedRopeConstraint<S>, RoutedRopeConstraint<S>) -> bool)
        requires
            before.wf(),
            after.wf(),
            before.constraints.slots() == after.constraints.slots(),
            before.constraints.generation() == after.constraints.generation(),
            before.constraints.retired() == after.constraints.retired(),
            before.constraints.free_slots() == after.constraints.free_slots(),
            forall|t: int| 0 <= t < before.constraints.slots() ==> slot_related(#[trigger] before.constraints.live_at(t), after.constraints.live_at(t), rel),
        ensures
            Self::pointwise(before, after, rel),
            Self::same_handles(before, after),
    {
        Arena::lemma_pointwise(&before.constraints, &after.constraints, rel);
        assert(after@.dom() =~= before@.dom());
        assert(after.retired() =~= before.retired());
        before.lemma_count();
        after.lemma_count();
    }

    /// Clears what the previous pipeline step accumulated, in every constraint.
    pub fn begin_step(&mut self)
        requires
            old(self).wf(),
        ensures
            Self::same_handles(old(self), final(self)),
            Self::pointwise(old(self), final(self), |a: RoutedRopeConstraint<S>, b: RoutedRopeConstraint<S>| RoutedRopeConstraint::begin_outcome(&a, &b)),
    {
        let ghost rel = |a: RoutedRopeConstraint<S>, b: RoutedRopeConstraint<S>| RoutedRopeConstraint::begin_outcome(&a, &b);
        let n = self.constraints.slot_count();
        let mut s: usize = 0;
        while s < n
            invariant
                old(self).wf(),
                self.constraints.wf(),
                self.constraints.slots() == n,
                old(self).constraints.slots() == n,
                self.constraints.generation() == old(self).constraints.generation(),
                self.constraints.free_slots() == old(self).constraints.free_slots(),
                self.constraints.retired() == old(self).constraints.retired(),
                rel == (|a: RoutedRopeConstraint<S>, b: RoutedRopeConstraint<S>| RoutedRopeConstraint::begin_outcome(&a, &b)),
                s <= n,
                forall|t: int| s <= t < n ==> #[trigger] self.constraints.live_at(t) == old(self).constraints.live_at(t),
                forall|t: int| 0 <= t < s ==> slot_related(#[trigger] old(self).constraints.live_at(t), self.constraints.live_at(t), rel),
            decreases n - s,
        {
            let ghost prev = self.constraints.live_at(s as int);
            match self.constraints.live_mut(s) {
                Some(c) => c.begin_step(),
                None => {},
            }
            proof {
                if let Some((h, v)) = prev {
                    let (g, w) = self.constraints.live_at(s as int)->0;
                    assert(g == h);
                    assert(RoutedRopeConstraint::begin_outcome(&v, &w));
                    assert(rel(v, w));
                }
                assert(slot_related(prev, self.constraints.live_at(s as int), rel));
            }
            s = s + 1;
        }
        proof {
            Self::lemma_pointwise_from_slots(old(self), self, rel);
        }
    }

    proof fn lemma_live_member(&self, t: int)
        requires
            self.wf(),
        ensures
            self.constraints.live_at(t) matches Some((h, v)) ==> self@.contains_key(RoutedRopeConstraintHandle(h))
                && self@[RoutedRopeConstraintHandle(h)] == v,
    {
        self.constraints.lemma_live_at(t);
    }

    /// Resolves the routed points of every enabled constraint against the bodies.
    pub fn prepare(&mut self, bodies: &RigidBodySet<S>)
        requires
            old(self).wf(),
            bodies.wf(),
        ensures
            Self::same_handles(old(self), final(self)),
            Self::pointwise(old(self), final(self), |a: RoutedRopeConstraint<S>, b: RoutedRopeConstraint<S>| RoutedRopeConstraint::prepare_outcome(&a, &b, bodies)),
    {
        let ghost rel = |a: RoutedRopeConstraint<S>, b: RoutedRopeConstraint<S>| RoutedRopeConstraint::prepare_outcome(&a, &b, bodies);
        let n = self.constraints.slot_count();
        let mut s: usize = 0;
        while s < n
            invariant
                old(self).wf(),
                self.constraints.wf(),
                self.constraints.slots() == n,
                old(self).constraints.slots() == n,
                self.constraints.generation() == old(self).constraints.generation(),
                self.constraints.free_slots() == old(self).constraints.free_slots(),
                self.constraints.retired() == old(self).constraints.retired(),
                rel == (|a: RoutedRopeConstraint<S>, b: RoutedRopeConstraint<S>| RoutedRopeConstraint::prepare_outcome(&a, &b, bodies)),
                bodies.wf(),
                s <= n,
                forall|t: int| s <= t < n ==> #[trigger] self.constraints.live_at(t) == old(self).constraints.live_at(t),
                forall|t: int| 0 <= t < s ==> slot_related(#[trigger] old(self).constraints.live_at(t), self.constraints.live_at(t), rel),
            decreases n - s,
        {
            let ghost prev = self.constraints.live_at(s as int);
            match self.constraints.live_mut(s) {
                Some(c) => c.prepare(bodies),
                None => {},
            }
            proof {
                assert(slot_related(prev, self.constraints.live_at(s as int), rel));
            }
            s = s + 1;
        }
        proof {
            Self::lemma_pointwise_from_slots(old(self), self, rel);
        }
    }

    /// Re-routes every enabled constraint at the current solver poses.
    pub fn update_substep(&mut self, params: &IntegrationParameters<S>, bodies: &SolverBodies<S>)
        requires
            old(self).wf(),
            bodies.wf(),
            forall|h: RoutedRopeConstraintHandle| #[trigger] old(self)@.contains_key(h) ==> old(self)@[h].prepared_slots_below(bodies.poses@.len() as int),
        ensures
            Self::same_handles(old(self), final(self)),
            Self::pointwise(old(self), final(self), |a: RoutedRopeConstraint<S>, b: RoutedRopeConstraint<S>| RoutedRopeConstraint::substep_outcome(&a, &b, params, bodies)),
    {
        let ghost rel = |a: RoutedRopeConstraint<S>, b: RoutedRopeConstraint<S>| RoutedRopeConstraint::substep_outcome(&a, &b, params, bodies);
        let n = self.constraints.slot_count();
        let mut s: usize = 0;
        while s < n
            invariant
                old(self).wf(),
                self.constraints.wf(),
                self.constraints.slots() == n,
                old(self).constraints.slots() == n,
                self.constraints.generation() == old(self).constraints.generation(),
                self.constraints.free_slots() == old(self).constraints.free_slots(),
                self.constraints.retired() == old(self).constraints.retired(),
                rel == (|a: RoutedRopeConstraint<S>, b: RoutedRopeConstraint<S>| RoutedRopeConstraint::substep_outcome(&a, &b, params, bodies)),
                bodies.wf(),
                forall|h: RoutedRopeConstraintHandle| #[trigger] old(self)@.contains_key(h) ==> old(self)@[h].prepared_slots_below(bodies.poses@.len() as int),
                s <= n,
                forall|t: int| s <= t < n ==> #[trigger] self.constraints.live_at(t) == old(self).constraints.live_at(t),
                forall|t: int| 0 <= t < s ==> slot_related(#[trigger] old(self).constraints.live_at(t), self.constraints.live_at(t), rel),
            decreases n - s,
        {
            let ghost prev = self.constraints.live_at(s as int);
            proof {
                old(self).lemma_live_member(s as int);
            }
            match self.constraints.live_mut(s) {
                Some(c) => c.update_substep(params, bodies),
                None => {},
            }
            proof {
                assert(slot_related(prev, self.constraints.live_at(s as int), rel));
            }
            s = s + 1;
        }
        proof {
            Self::lemma_pointwise_from_slots(old(self), self, rel);
        }
    }

    /// Records the substep's length rate and impulse in every enabled constraint.
    pub fn finish_substep(&mut self, bodies: &SolverBodies<S>)
        requires
            old(self).wf(),
            bodies.wf(),
            forall|h: RoutedRopeConstraintHandle| #[trigger] old(self)@.contains_key(h) ==> old(self)@[h].jacobian_slots_below(bodies.poses@.len() as int),
        ensures
            Self::same_handles(old(self), final(self)),
            Self::pointwise(old(self), final(self), |a: RoutedRopeConstraint<S>, b: RoutedRopeConstraint<S>| RoutedRopeConstraint::finish_outcome(&a, &b, bodies)),
    {
        let ghost rel = |a: RoutedRopeConstraint<S>, b: RoutedRopeConstraint<S>| RoutedRopeConstraint::finish_outcome(&a, &b, bodies);
        let n = self.constraints.slot_count();
        let mut s: usize = 0;
        while s < n
            invariant
                old(self).wf(),
                self.constraints.wf(),
                self.constraints.slots() == n,
                old(self).constraints.slots() == n,
                self.constraints.generation() == old(self).constraints.generation(),
                self.constraints.free_slots() == old(self).constraints.free_slots(),
                self.constraints.retired() == old(self).constraints.retired(),
                rel == (|a: RoutedRopeConstraint<S>, b: RoutedRopeConstraint<S>| RoutedRopeConstraint::finish_outcome(&a, &b, bodies)),
                bodies.wf(),
                forall|h: RoutedRopeConstraintHandle| #[trigger] old(self)@.contains_key(h) ==> old(self)@[h].jacobian_slots_below(bodies.poses@.len() as int),
                s <= n,
                forall|t: int| s <= t < n ==> #[trigger] self.constraints.live_at(t) == old(self).constraints.live_at(t),
                forall|t: int| 0 <= t < s ==> slot_related(#[trigger] old(self).constraints.live_at(t), self.constraints.live_at(t), rel),
            decreases n - s,
        {
            let ghost prev = self.constraints.live_at(s as int);
            proof {
                old(self).lemma_live_member(s as int);
            }
            match self.constraints.live_mut(s) {
                Some(c) => c.finish_substep(bodies),
                None => {},
            }
            proof {
                assert(slot_related(prev, self.constraints.live_at(s as int), rel));
            }
            s = s + 1;
        }
        proof {
            Self::lemma_pointwise_from_slots(old(self), self, rel);
        }
    }

    /// Records length, length error and length rate of every enabled constraint after a step.
    pub fn refresh_observations(&mut self, bodies: &RigidBodySet<S>)
        requires
            old(self).wf(),
            bodies.wf(),
        ensures
            Self::same_handles(old(self), final(self)),
            Self::pointwise(old(self), final(self), |a: RoutedRopeConstraint<S>, b: RoutedRopeConstraint<S>| RoutedRopeConstraint::refresh_outcome(&a, &b, bodies)),
    {
        let ghost rel = |a: RoutedRopeConstraint<S>, b: RoutedRopeConstraint<S>| RoutedRopeConstraint::refresh_outcome(&a, &b, bodies);
        let n = self.constraints.slot_count();
        let mut s: usize = 0;
        while s < n
            invariant
                old(self).wf(),
                self.constraints.wf(),
                self.constraints.slots() == n,
                old(self).constraints.slots() == n,
                self.constraints.generation() == old(self).constraints.generation(),
                self.constraints.free_slots() == old(self).constraints.free_slots(),
                self.constraints.retired() == old(self).constraints.retired(),
                rel == (|a: RoutedRopeConstraint<S>, b: RoutedRopeConstraint<S>| RoutedRopeConstraint::refresh_outcome(&a, &b, bodies)),
                bodies.wf(),
                s <= n,
                forall|t: int| s <= t < n ==> #[trigger] self.constraints.live_at(t) == old(self).constraints.live_at(t),
                forall|t: int| 0 <= t < s ==> slot_related(#[trigger] old(self).constraints.live_at(t), self.constraints.live_at(t), rel),
            decreases n - s,
        {
            let ghost prev = self.constraints.live_at(s as int);
            match self.constraints.live_mut(s) {
                Some(c) => c.refresh_observations(bodies),
                None => {},
            }
            proof {
                assert(slot_related(prev, self.constraints.live_at(s as int), rel));
            }
            s = s + 1;
        }
        proof {
            Self::lemma_pointwise_from_slots(old(self), self, rel);
        }
    }

    /// Whether some constraint's Jacobian names the solver body slot `i`.
    pub open spec fn moves(&self, i: u32) -> bool {
        exists|h: RoutedRopeConstraintHandle|
            #[trigger] self@.contains_key(h) && jacobian_slots(self@[h].jacobians()).contains(i)
    }

    /// The velocities after the constraints in the slots below `s`, in slot
    /// order, have each made one solver iteration.
    pub closed spec fn solve_sweep(
        &self,
        poses: Seq<SolverPose<S>>,
        vels: Seq<SolverVel<S>>,
        without_bias: bool,
        s: int,
    ) -> Seq<SolverVel<S>>
        decreases s,
    {
        if s <= 0 {
            vels
        } else {
            let earlier = self.solve_sweep(poses, vels, without_bias, s - 1);
            match self.constraints.live_at(s - 1) {
                Some((_, c)) => c.solved_velocities(poses, earlier, without_bias),
                None => earlier,
            }
        }
    }

    /// The velocities that the constraint `h` sees when `solve` reaches it:
    /// those left by the constraints in the slots before its own.
    pub closed spec fn velocities_before(
        &self,
        h: RoutedRopeConstraintHandle,
        poses: Seq<SolverPose<S>>,
        vels: Seq<SolverVel<S>>,
        without_bias: bool,
    ) -> Seq<SolverVel<S>> {
        self.solve_sweep(poses, vels, without_bias, h.0.slot() as int)
    }

    /// The velocities after a whole solver iteration over every constraint.
    pub closed spec fn solved_velocities(&self, poses: Seq<SolverPose<S>>, vels: Seq<SolverVel<S>>, without_bias: bool) -> Seq<
        SolverVel<S>,
    > {
        self.solve_sweep(poses, vels, without_bias, self.constraints.slots() as int)
    }

    /// The velocities after the constraints in the slots below `s`, in slot
    /// order, have each applied their carried-over impulse.
    pub closed spec fn warmstart_sweep(&self, poses: Seq<SolverPose<S>>, vels: Seq<SolverVel<S>>, s: int) -> Seq<
        SolverVel<S>,
    >
        decreases s,
    {
        if s <= 0 {
            vels
        } else {
            let earlier = self.warmstart_sweep(poses, vels, s - 1);
            match self.constraints.live_at(s - 1) {
                Some((_, c)) => after_impulse(c.jacobians(), poses, earlier, c.impulse()),
                None => earlier,
            }
        }
    }

    /// The velocities after every constraint has applied its carried-over impulse.
    pub closed spec fn warmstarted_velocities(&self, poses: Seq<SolverPose<S>>, vels: Seq<SolverVel<S>>) -> Seq<SolverVel<S>> {
        self.warmstart_sweep(poses, vels, self.constraints.slots() as int)
    }

    /// One projected Gauss-Seidel iteration over every constraint, in slot order.
    pub fn solve(&mut self, bodies: &mut SolverBodies<S>, without_bias: bool)
        requires
            old(self).wf(),
            old(bodies).wf(),
            forall|h: RoutedRopeConstraintHandle| #[trigger] old(self)@.contains_key(h) ==> old(self)@[h].jacobian_slots_below(old(bodies).poses@.len() as int),
        ensures
            Self::same_handles(old(self), final(self)),
            Self::pointwise(old(self), final(self), |a: RoutedRopeConstraint<S>, b: RoutedRopeConstraint<S>| RoutedRopeConstraint::solve_outcome(&a, &b)),
            final(bodies).wf(),
            final(bodies).poses@ == old(bodies).poses@,
            final(bodies).vels@.len() == old(bodies).vels@.len(),
            forall|i: u32|
                (i as int) < old(bodies).vels@.len() && !old(self).moves(i) ==> #[trigger] final(bodies).vels@[i as int]
                    == old(bodies).vels@[i as int],
            final(bodies).vels@ == old(self).solved_velocities(old(bodies).poses@, old(bodies).vels@, without_bias),
            forall|h: RoutedRopeConstraintHandle| #[trigger] old(self)@.contains_key(h) ==> RoutedRopeConstraint::solve_step(
                &old(self)@[h],
                &final(self)@[h],
                old(self).velocities_before(h, old(bodies).poses@, old(bodies).vels@, without_bias),
                without_bias,
            ),
    {
        let ghost rel = |a: RoutedRopeConstraint<S>, b: RoutedRopeConstraint<S>| RoutedRopeConstraint::solve_outcome(&a, &b);
        let n = self.constraints.slot_count();
        let mut s: usize = 0;
        while s < n
            invariant
                old(self).wf(),
                self.constraints.wf(),
                self.constraints.slots() == n,
                old(self).constraints.slots() == n,
                self.constraints.generation() == old(self).constraints.generation(),
                self.constraints.free_slots() == old(self).constraints.free_slots(),
                self.constraints.retired() == old(self).constraints.retired(),
                rel == (|a: RoutedRopeConstraint<S>, b: RoutedRopeConstraint<S>| RoutedRopeConstraint::solve_outcome(&a, &b)),
                forall|h: RoutedRopeConstraintHandle| #[trigger] old(self)@.contains_key(h) ==> old(self)@[h].jacobian_slots_below(old(bodies).poses@.len() as int),
                bodies.wf(),
                bodies.poses@ == old(bodies).poses@,
                bodies.vels@.len() == old(bodies).vels@.len(),
                forall|i: u32|
                    (i as int) < old(bodies).vels@.len() && !old(self).moves(i) ==> #[trigger] bodies.vels@[i as int]
                        == old(bodies).vels@[i as int],
                s <= n,
                forall|t: int| s <= t < n ==> #[trigger] self.constraints.live_at(t) == old(self).constraints.live_at(t),
                forall|t: int| 0 <= t < s ==> slot_related(#[trigger] old(self).constraints.live_at(t), self.constraints.live_at(t), rel),
                bodies.vels@ == old(self).solve_sweep(old(bodies).poses@, old(bodies).vels@, without_bias, s as int),
                forall|t: int|
                    0 <= t < s ==> stepped(
                        #[trigger] old(self).constraints.live_at(t),
                        self.constraints.live_at(t),
                        old(self).solve_sweep(old(bodies).poses@, old(bodies).vels@, without_bias, t),
                        without_bias,
                    ),
            decreases n - s,
        {
            let ghost prev = self.constraints.live_at(s as int);
            let ghost vels_before = bodies.vels@;
            proof {
                old(self).lemma_live_member(s as int);
            }
            match self.constraints.live_mut(s) {
                Some(c) => {
                    let ghost h = RoutedRopeConstraintHandle((prev->0).0);
                    c.solve(bodies, without_bias);
                    proof {
                        assert forall|i: u32|
                            (i as int) < old(bodies).vels@.len() && !old(self).moves(i) implies #[trigger] bodies.vels@[i as int]
                                == old(bodies).vels@[i as int] by {
                            assert(old(self)@.contains_key(h));
                            assert(!jacobian_slots(old(self)@[h].jacobians()).contains(i));
                            assert(bodies.vels@[i as int] == vels_before[i as int]);
                        }
                    }
                },
                None => {},
            }
            proof {
                assert(slot_related(prev, self.constraints.live_at(s as int), rel));
                assert(stepped(prev, self.constraints.live_at(s as int), vels_before, without_bias));
            }
            s = s + 1;
        }
        proof {
            Self::lemma_pointwise_from_slots(old(self), self, rel);
            assert forall|h: RoutedRopeConstraintHandle| #[trigger] old(self)@.contains_key(h) implies RoutedRopeConstraint::solve_step(
                &old(self)@[h],
                &self@[h],
                old(self).velocities_before(h, old(bodies).poses@, old(bodies).vels@, without_bias),
                without_bias,
            ) by {
                let t = h.0.slot() as int;
                old(self).constraints.lemma_live_at(t);
                old(self).constraints.lemma_slot_bounded(h.0);
                self.constraints.lemma_live_at(t);
                assert(stepped(
                    old(self).constraints.live_at(t),
                    self.constraints.live_at(t),
                    old(self).solve_sweep(old(bodies).poses@, old(bodies).vels@, without_bias, t),
                    without_bias,
                ));
                assert(self.constraints@.contains_key(h.0));
            }
        }
    }

    /// Applies every constraint's carried-over impulse, in slot order.
    pub fn warmstart(&mut self, bodies: &mut SolverBodies<S>)
        requires
            old(self).wf(),
            old(bodies).wf(),
            forall|h: RoutedRopeConstraintHandle| #[trigger] old(self)@.contains_key(h) ==> old(self)@[h].jacobian_slots_below(old(bodies).poses@.len() as int),
        ensures
            final(self)@ == old(self)@,
            Self::same_handles(old(self), final(self)),
            final(bodies).vels@ == old(self).warmstarted_velocities(old(bodies).poses@, old(bodies).vels@),
            final(bodies).wf(),
            final(bodies).poses@ == old(bodies).poses@,
            final(bodies).vels@.len() == old(bodies).vels@.len(),
            forall|i: u32|
                (i as int) < old(bodies).vels@.len() && !old(self).moves(i) ==> #[trigger] final(bodies).vels@[i as int]
                    == old(bodies).vels@[i as int],
    {
        let n = self.constraints.slot_count();
        let mut s: usize = 0;
        while s < n
            invariant
                self.wf(),
                self@ == old(self)@,
                *self == *old(self),
                self.constraints.slots() == n,
                bodies.vels@ == old(self).warmstart_sweep(old(bodies).poses@, old(bodies).vels@, s as int),
                forall|h: RoutedRopeConstraintHandle| #[trigger] old(self)@.contains_key(h) ==> old(self)@[h].jacobian_slots_below(old(bodies).poses@.len() as int),
                bodies.wf(),
                bodies.poses@ == old(bodies).poses@,
                bodies.vels@.len() == old(bodies).vels@.len(),
                forall|i: u32|
                    (i as int) < old(bodies).vels@.len() && !old(self).moves(i) ==> #[trigger] bodies.vels@[i as int]
                        == old(bodies).vels@[i as int],
                s <= n,
            decreases n - s,
        {
            let ghost vels_before = bodies.vels@;
            proof {
                self.lemma_live_member(s as int);
            }
            match self.constraints.live(s) {
                Some(c) => {
                    let ghost h = RoutedRopeConstraintHandle((self.constraints.live_at(s as int)->0).0);
                    c.warmstart(bodies);
                    proof {
                        assert forall|i: u32|
                            (i as int) < old(bodies).vels@.len() && !old(self).moves(i) implies #[trigger] bodies.vels@[i as int]
                                == old(bodies).vels@[i as int] by {
                            assert(old(self)@.contains_key(h));
                            assert(!jacobian_slots(old(self)@[h].jacobians()).contains(i));
                            assert(bodies.vels@[i as int] == vels_before[i as int]);
                        }
                    }
                },
                None => {},
            }
            s = s + 1;
        }
    }

    spec fn slot_keeps_awake(&self, bodies: &RigidBodySet<S>, t: int, x: RigidBodyHandle) -> bool {
        match self.constraints.live_at(t) {
            Some((_, c)) => c.spec_enabled() && c.wake_list(bodies, c.point_count()).contains(x),
            None => false,
        }
    }

    /// Whether the constraint `h` is enabled and must keep the body `x` awake.
    pub open spec fn keeps_awake(&self, bodies: &RigidBodySet<S>, h: RoutedRopeConstraintHandle, x: RigidBodyHandle) -> bool {
        &&& self@.contains_key(h)
        &&& self@[h].spec_enabled()
        &&& self@[h].wake_list(bodies, self@[h].point_count()).contains(x)
    }

    /// Whether some enabled constraint keeps the body `x` awake.
    pub open spec fn awakened(&self, bodies: &RigidBodySet<S>, x: RigidBodyHandle) -> bool {
        exists|h: RoutedRopeConstraintHandle| #[trigger] self.keeps_awake(bodies, h, x)
    }

    /// The bodies that the constraint in slot `t` keeps awake, in route order:
    /// none when the slot is empty or its constraint disabled.
    pub open spec fn slot_wake_list(&self, bodies: &RigidBodySet<S>, t: int) -> Seq<RigidBodyHandle> {
        if exists|h: RoutedRopeConstraintHandle| #[trigger] self@.contains_key(h) && h.0.slot() == t {
            let h = choose|h: RoutedRopeConstraintHandle| #[trigger] self@.contains_key(h) && h.0.slot() == t;
            if self@[h].spec_enabled() {
                self@[h].wake_list(bodies, self@[h].point_count())
            } else {
                Seq::empty()
            }
        } else {
            Seq::empty()
        }
    }

    /// The bodies that the constraints in the first `t` slots keep awake, slot after slot.
    pub open spec fn wake_order(&self, bodies: &RigidBodySet<S>, t: int) -> Seq<RigidBodyHandle>
        decreases t,
    {
        if t <= 0 {
            Seq::empty()
        } else {
            self.wake_order(bodies, t - 1) + self.slot_wake_list(bodies, t - 1)
        }
    }

    proof fn lemma_wake_order_tail(&self, bodies: &RigidBodySet<S>, t: int)
        requires
            self.wf(),
            self.constraints.slots() <= t,
        ensures
            self.wake_order(bodies, t) == self.wake_order(bodies, self.constraints.slots() as int),
        decreases t,
    {
        if t > self.constraints.slots() {
            assert forall|h: RoutedRopeConstraintHandle| #[trigger] self@.contains_key(h) implies h.0.slot() != t - 1 by {
                self.constraints.lemma_slot_bounded(h.0);
            }
            assert(self.slot_wake_list(bodies, t - 1) =~= Seq::empty());
            self.lemma_wake_order_tail(bodies, t - 1);
            assert(self.wake_order(bodies, t) =~= self.wake_order(bodies, t - 1));
        }
    }

    /// The bodies that enabled constraints keep awake: present, enabled and not
    /// fixed bodies their routed points ride on, in slot and route order.
    pub fn wake_participants(&self, bodies: &RigidBodySet<S>) -> (r: Vec<RigidBodyHandle>)
        requires
            self.wf(),
            bodies.wf(),
        ensures
            r@ == self.wake_order(bodies, u32::MAX as int),
            forall|i: int| 0 <= i < r@.len() ==> #[trigger] self.awakened(bodies, r@[i]),
            forall|h: RoutedRopeConstraintHandle, x: RigidBodyHandle| #[trigger] self.keeps_awake(bodies, h, x) ==> r@.contains(x),
    {
        let mut r: Vec<RigidBodyHandle> = Vec::new();
        let n = self.constraints.slot_count();
        let mut s: usize = 0;
        while s < n
            invariant
                self.wf(),
                bodies.wf(),
                self.constraints.slots() == n,
                s <= n,
                r@ == self.wake_order(bodies, s as int),
                forall|i: int| 0 <= i < r@.len() ==> #[trigger] self.awakened(bodies, r@[i]),
                forall|t: int, x: RigidBodyHandle|
                    0 <= t < s && #[trigger] self.slot_keeps_awake(bodies, t, x) ==> r@.contains(x),
            decreases n - s,
        {
            proof {
                self.lemma_live_member(s as int);
                self.constraints.lemma_live_at(s as int);
            }
            let ghost start = r@;
            match self.constraints.live(s) {
                Some(c) => {
                    let ghost h = RoutedRopeConstraintHandle((self.constraints.live_at(s as int)->0).0);
                    let mut list = c.participants(bodies);
                    let ghost before = r@;
                    let ghost added = list@;
                    r.append(&mut list);
                    proof {
                        assert(self@.contains_key(h) && h.0.slot() == s);
                        let g = choose|g: RoutedRopeConstraintHandle| #[trigger] self@.contains_key(g) && g.0.slot() == s;
                        assert(self.constraints@.contains_key(g.0));
                        assert(g == h);
                        if c.spec_enabled() {
                            assert(added == self.slot_wake_list(bodies, s as int));
                        } else {
                            assert(added =~= self.slot_wake_list(bodies, s as int));
                        }
                        assert(r@ =~= self.wake_order(bodies, s + 1));
                        assert forall|i: int| 0 <= i < r@.len() implies #[trigger] self.awakened(bodies, r@[i]) by {
                            if i >= before.len() {
                                assert(r@[i] == added[i - before.len()]);
                                assert(self.keeps_awake(bodies, h, r@[i]));
                            } else {
                                assert(r@[i] == before[i]);
                                assert(self.awakened(bodies, before[i]));
                            }
                        }
                        assert forall|t: int, x: RigidBodyHandle|
                            0 <= t < s + 1 && #[trigger] self.slot_keeps_awake(bodies, t, x) implies r@.contains(x) by {
                            if t < s {
                                let k = choose|k: int| 0 <= k < before.len() && before[k] == x;
                                assert(r@[k] == x);
                            } else {
                                let k = choose|k: int| 0 <= k < added.len() && added[k] == x;
                                assert(r@[before.len() + k] == x);
                            }
                        }
                    }
                },
                None => {
                    proof {
                        assert forall|g: RoutedRopeConstraintHandle| #[trigger] self@.contains_key(g) implies g.0.slot() != s by {
                            assert(self.constraints@.contains_key(g.0));
                        }
                        assert(r@ =~= self.wake_order(bodies, s + 1));
                    }
                },
            }
            s = s + 1;
        }
        proof {
            self.constraints.lemma_slots_bounded();
            self.lemma_wake_order_tail(bodies, u32::MAX as int);
            assert forall|h: RoutedRopeConstraintHandle, x: RigidBodyHandle| #[trigger] self.keeps_awake(bodies, h, x) implies r@.contains(x) by {
                self.constraints.lemma_live_at(h.0.slot() as int);
                self.constraints.lemma_slot_bounded(h.0);
                assert(self.slot_keeps_awake(bodies, h.0.slot() as int, x));
            }
        }
        r
    }

    /// Whether some constraint is enabled.
    pub fn has_enabled(&self) -> (r: bool)
        requires
            self.wf(),
        ensures
            r == exists|h: RoutedRopeConstraintHandle| #[trigger] self@.contains_key(h) && self@[h].spec_enabled(),
    {
        let n = self.constraints.slot_count();
        let mut s: usize = 0;
        while s < n
            invariant
                self.wf(),
                self.constraints.slots() == n,
                s <= n,
                forall|t: int| 0 <= t < s ==> !(#[trigger] self.constraints.live_at(t) matches Some((_, c)) && c.spec_enabled()),
            decreases n - s,
        {
            proof {
                self.lemma_live_member(s as int);
            }
            match self.constraints.live(s) {
                Some(c) => {
                    if c.is_enabled() {
                        let ghost h = RoutedRopeConstraintHandle((self.constraints.live_at(s as int)->0).0);
                        assert(self@.contains_key(h) && self@[h].spec_enabled());
                        return true;
                    }
                },
                None => {},
            }
            s = s + 1;
        }
        proof {
            assert forall|h: RoutedRopeConstraintHandle| #[trigger] self@.contains_key(h) implies !self@[h].spec_enabled() by {
                self.constraints.lemma_live_at(h.0.slot() as int);
                assert(self.constraints@.contains_key(h.0));
                self.constraints.lemma_live_stamp_bounded(h.0);
                self.constraints.lemma_slot_bounded(h.0);
            }
        }
        false
    }

    /// Whether a removal can still advance the handle generation.
    pub fn generations_left(&self) -> (r: bool)
        ensures
            r == self.can_remove(),
    {
        self.constraints.current_generation() < u32::MAX
    }

    /// Returns the number of routed-rope constraints.
    pub fn len(&self) -> (r: usize)
        requires
            self.wf(),
        ensures
            r == self.count(),
            r == self@.len(),
    {
        proof {
            self.lemma_count();
        }
        self.constraints.len()
    }

    /// Returns whether this set contains no routed-rope constraints.
    pub fn is_empty(&self) -> (r: bool)
        requires
            self.wf(),
        ensures
            r == (self@.len() == 0),
    {
        proof {
            self.lemma_count();
        }
        self.constraints.is_empty()
    }
}

} // verus!
