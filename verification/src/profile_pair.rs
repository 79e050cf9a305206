//! Queries between an analytic profile and another shape: contacts, gaps,
//! contact manifolds and shape casts.
use vstd::prelude::*;

use crate::body::Pose;
use crate::contact::{write_contacts, Contact, ContactManifold};
use crate::profile::{spec_machine_epsilon, AnalyticProfile, ProfileMode};
use crate::profile_box::{
    manifold_penetrations, profile_ball_contact, profile_box_contact, solid_profile_box_manifold_contacts,
    spec_profile_ball_contact, spec_profile_box_contact, spec_selected_penetrations, spec_to_contact, Ball, Cuboid,
    Penetration,
};
use crate::profile_contact::{flipped_contact, profile_profile_contact, spec_profile_profile_contact};
use crate::scalar::{Scalar, Vector};
use crate::segment_pair::kept;

verus! {

/// A shape handed to a profile query.
#[derive(Clone, Copy, Debug)]
pub enum PairShape<'a, S> {
    Profile(&'a AnalyticProfile<S>),
    Ball(Ball<S>),
    Cuboid(Cuboid<S>),
    /// Any shape that profiles do not collide with.
    Unsupported,
}

/// The shape a profile is paired with.
#[derive(Clone, Copy, Debug)]
pub enum ProfileOther<'a, S> {
    Ball(Ball<S>),
    Cuboid(Cuboid<S>),
    Profile(&'a AnalyticProfile<S>),
}

/// Whether the query between `shape1` and `shape2` involves a profile and a
/// shape it collides with: the first shape's profile is used when both are profiles.
pub open spec fn pairable<S>(shape1: PairShape<S>, shape2: PairShape<S>) -> bool {
    if shape1 is Profile {
        !(shape2 is Unsupported)
    } else {
        shape2 is Profile && !(shape1 is Unsupported)
    }
}

/// A profile, the shape it is paired with, and where that shape is in the profile's frame.
pub struct ProfilePair<'a, S> {
    profile: &'a AnalyticProfile<S>,
    other: ProfileOther<'a, S>,
    profile_to_other: Pose<S>,
    reversed: bool,
}

/// The shape a profile can be paired with, if it is one.
pub open spec fn spec_other_shape<'a, S>(shape: PairShape<'a, S>) -> Option<ProfileOther<'a, S>> {
    match shape {
        PairShape::Profile(profile) => Some(ProfileOther::Profile(profile)),
        PairShape::Ball(ball) => Some(ProfileOther::Ball(ball)),
        PairShape::Cuboid(cuboid) => Some(ProfileOther::Cuboid(cuboid)),
        PairShape::Unsupported => None,
    }
}

/// The shape a profile can be paired with, if it is one.
fn other_shape<'a, S: Scalar>(shape: PairShape<'a, S>) -> (r: Option<ProfileOther<'a, S>>)
    ensures
        r is None <==> shape is Unsupported,
        r == spec_other_shape(shape),
{
    match shape {
        PairShape::Profile(profile) => Some(ProfileOther::Profile(profile)),
        PairShape::Ball(ball) => Some(ProfileOther::Ball(ball)),
        PairShape::Cuboid(cuboid) => Some(ProfileOther::Cuboid(cuboid)),
        PairShape::Unsupported => None,
    }
}

impl<'a, S: Scalar> ProfilePair<'a, S> {
    /// Whether the pair was built with its shapes swapped.
    pub closed spec fn spec_reversed(&self) -> bool {
        self.reversed
    }

    /// The profile of the pair.
    pub closed spec fn spec_profile(&self) -> AnalyticProfile<S> {
        *self.profile
    }

    /// The shape the profile is paired with.
    pub closed spec fn spec_other(&self) -> ProfileOther<'a, S> {
        self.other
    }

    /// Where the other shape is in the profile's frame.
    pub closed spec fn spec_profile_to_other(&self) -> Pose<S> {
        self.profile_to_other
    }

    /// The contact between the two shapes, seen from the first shape of the query.
    pub open spec fn spec_contact(&self) -> Contact<S> {
        let contact = match self.spec_other() {
            ProfileOther::Ball(ball) => spec_profile_ball_contact(self.spec_profile(), self.spec_profile_to_other(), ball),
            ProfileOther::Cuboid(cuboid) => spec_profile_box_contact(
                self.spec_profile(),
                self.spec_profile_to_other(),
                cuboid,
            ),
            ProfileOther::Profile(profile) => spec_profile_profile_contact(
                self.spec_profile(),
                self.spec_profile_to_other(),
                *profile,
            ),
        };
        if self.spec_reversed() {
            flipped_contact(contact)
        } else {
            contact
        }
    }

    /// The box patch of a solid profile against a box, else nothing.
    pub open spec fn spec_patch(&self) -> Seq<Contact<S>> {
        match self.spec_other() {
            ProfileOther::Cuboid(cuboid) => if self.spec_profile().spec_mode() == ProfileMode::Solid {
                manifold_penetrations(spec_selected_penetrations(self.spec_profile(), self.spec_profile_to_other(), cuboid)).map_values(
                    |p: Penetration<S>| spec_to_contact(p, self.spec_profile_to_other()),
                )
            } else {
                Seq::empty()
            },
            _ => Seq::empty(),
        }
    }

    /// The contact points closer than `prediction`.
    pub open spec fn spec_manifold_contacts(&self, prediction: S) -> Seq<Contact<S>> {
        let patch = self.spec_patch();
        if patch.len() == 0 {
            kept(self.spec_contact().dist.spec_less_than(prediction), self.spec_contact())
        } else {
            closer_contacts(patch, self.spec_reversed(), prediction, patch.len() as int)
        }
    }

    /// Pairs a profile with the other shape; `position12` places `shape2` in
    /// the frame of `shape1`.
    pub fn from_shapes(position12: &Pose<S>, shape1: PairShape<'a, S>, shape2: PairShape<'a, S>) -> (r: Option<Self>)
        ensures
            r is Some <==> pairable(shape1, shape2),
            r matches Some(pair) ==> pair.spec_reversed() == !(shape1 is Profile),
            r matches Some(pair) ==> pair.spec_profile_to_other() == if shape1 is Profile {
                *position12
            } else {
                position12.spec_inverse()
            },
            r matches Some(pair) ==> match shape1 {
                PairShape::Profile(profile) => pair.spec_profile() == *profile && spec_other_shape(shape2) == Some(
                    pair.spec_other(),
                ),
                _ => shape2 matches PairShape::Profile(profile) && pair.spec_profile() == *profile && spec_other_shape(
                    shape1,
                ) == Some(pair.spec_other()),
            },
    {
        match shape1 {
            PairShape::Profile(profile) => {
                let other = match other_shape(shape2) {
                    Some(other) => other,
                    None => {
                        return None;
                    },
                };
                Some(ProfilePair { profile, other, profile_to_other: *position12, reversed: false })
            },
            _ => {
                let profile = match shape2 {
                    PairShape::Profile(profile) => profile,
                    _ => {
                        return None;
                    },
                };
                let other = match other_shape(shape1) {
                    Some(other) => other,
                    None => {
                        return None;
                    },
                };
                Some(ProfilePair { profile, other, profile_to_other: position12.inverse(), reversed: true })
            },
        }
    }

    /// The contact between the two shapes, seen from the first shape of the query.
    pub fn contact(&self) -> (r: Contact<S>)
        ensures
            r == self.spec_contact(),
    {
        let contact = match self.other {
            ProfileOther::Ball(ball) => profile_ball_contact(self.profile, &self.profile_to_other, &ball),
            ProfileOther::Cuboid(cuboid) => profile_box_contact(self.profile, &self.profile_to_other, &cuboid),
            ProfileOther::Profile(profile) => profile_profile_contact(self.profile, &self.profile_to_other, profile),
        };
        if self.reversed {
            contact.flipped()
        } else {
            contact
        }
    }

    /// The signed distance between the two shapes.
    pub fn gap(&self) -> (r: S)
        ensures
            r == self.spec_contact().dist,
    {
        self.contact().dist
    }

    /// The contact points closer than `prediction`: the box patch of a solid
    /// profile against a box, otherwise the single contact.
    pub fn manifold_contacts(&self, prediction: S) -> (r: Vec<Contact<S>>)
        ensures
            r@ == self.spec_manifold_contacts(prediction),
            r@.len() <= 4,
    {
        let patch = match self.other {
            ProfileOther::Cuboid(cuboid) => if self.profile.mode() == ProfileMode::Solid {
                solid_profile_box_manifold_contacts(self.profile, &self.profile_to_other, &cuboid)
            } else {
                Vec::new()
            },
            _ => Vec::new(),
        };
        assert(patch@ == self.spec_patch());
        let mut contacts: Vec<Contact<S>> = Vec::new();
        if patch.len() == 0 {
            let contact = self.contact();
            if contact.dist.less_than(prediction) {
                contacts.push(contact);
            }
            assert(contacts@ =~= self.spec_manifold_contacts(prediction));
            return contacts;
        }
        let mut k: usize = 0;
        while k < patch.len()
            invariant
                patch@.len() <= 4,
                k <= patch@.len(),
                contacts@.len() <= k,
                contacts@ == closer_contacts(patch@, self.spec_reversed(), prediction, k as int),
            decreases patch@.len() - k,
        {
            let contact = if self.reversed {
                patch[k].flipped()
            } else {
                patch[k]
            };
            if contact.dist.less_than(prediction) {
                contacts.push(contact);
            }
            assert(contacts@ =~= closer_contacts(patch@, self.spec_reversed(), prediction, k + 1));
            k = k + 1;
        }
        contacts
    }
}

/// Those of the first `k` patch contacts, seen from the first shape of the
/// query, that are closer than `prediction`.
pub open spec fn closer_contacts<S: Scalar>(patch: Seq<Contact<S>>, reversed: bool, prediction: S, k: int) -> Seq<Contact<S>>
    decreases k,
{
    if k <= 0 {
        Seq::empty()
    } else {
        let contact = if reversed {
            flipped_contact(patch[k - 1])
        } else {
            patch[k - 1]
        };
        closer_contacts(patch, reversed, prediction, k - 1) + kept(contact.dist.spec_less_than(prediction), contact)
    }
}

/// The tolerance within which a cast counts as having reached its target distance.
pub open spec fn cast_tolerance<S: Scalar>() -> S {
    S::spec_from_decimal(1i64, -6i32)
}

/// Whether every contact that `contact_at` can give at `time` exists and is
/// within the target distance.
pub open spec fn reached_at<S: Scalar, F: Fn(S) -> Option<Contact<S>>>(contact_at: F, time: S, target_distance: S) -> bool {
    forall|outcome: Option<Contact<S>>| #[trigger]
        call_ensures(contact_at, (time,), outcome) ==> (outcome matches Some(c) && c.dist.spec_minus(
            target_distance,
        ).spec_at_most(cast_tolerance()))
}

/// The hit reported at `time` from `contact`.
pub open spec fn hit_from<S: Scalar>(contact: Contact<S>, time: S, status: ShapeCastStatus) -> ShapeCastHit<S> {
    ShapeCastHit {
        time_of_impact: time,
        witness1: contact.point1,
        witness2: contact.point2,
        normal1: contact.normal1,
        normal2: contact.normal2,
        status,
    }
}

/// Whether `contact_at` can give at each time only what `outcome_at` gives there.
pub open spec fn follows<S, F: Fn(S) -> Option<Contact<S>>>(contact_at: F, outcome_at: spec_fn(S) -> Option<Contact<S>>) -> bool {
    forall|t: S, outcome: Option<Contact<S>>| #[trigger]
        call_ensures(contact_at, (t,), outcome) ==> outcome == outcome_at(t)
}

/// The outcome of a conservative cast whose contacts are `outcome_at`, from
/// step `iteration` at `time` on.
pub open spec fn cast_from<S: Scalar>(
    outcome_at: spec_fn(S) -> Option<Contact<S>>,
    time: S,
    iteration: int,
    end_time: S,
    speed_bound: S,
    target_distance: S,
    stop_at_penetration: bool,
) -> Option<ShapeCastHit<S>>
    decreases CCD_ITERATIONS - iteration,
{
    if iteration >= CCD_ITERATIONS {
        None
    } else {
        match outcome_at(time) {
            None => None,
            Some(contact) => {
                let separation = contact.dist.spec_minus(target_distance);
                if separation.spec_at_most(cast_tolerance()) {
                    if iteration == 0 && !stop_at_penetration {
                        None
                    } else {
                        Some(
                            hit_from(
                                contact,
                                time,
                                if iteration == 0 {
                                    ShapeCastStatus::PenetratingOrWithinTargetDist
                                } else {
                                    ShapeCastStatus::Converged
                                },
                            ),
                        )
                    }
                } else if speed_bound.spec_at_most(spec_machine_epsilon()) {
                    None
                } else {
                    let next = time.spec_plus(
                        separation.spec_divided_by(speed_bound).spec_times(S::spec_from_decimal(9i64, -1i32)).spec_larger(
                            cast_tolerance(),
                        ),
                    );
                    if end_time.spec_less_than(next) {
                        None
                    } else {
                        cast_from(
                            outcome_at,
                            next,
                            iteration + 1,
                            end_time,
                            speed_bound,
                            target_distance,
                            stop_at_penetration,
                        )
                    }
                }
            },
        }
    }
}

/// The query involves no profile, or a shape that profiles do not collide with.
#[derive(Clone, Copy, Debug, PartialEq, Eq, Structural)]
pub struct Unsupported;

/// How two shapes relate with respect to a margin.
#[derive(Clone, Copy, Debug)]
pub enum ClosestPoints<S> {
    Intersecting,
    WithinMargin(Vector<S>, Vector<S>),
    Disjoint,
}

/// How a shape cast ended.
#[derive(Clone, Copy, Debug, PartialEq, Eq, Structural)]
pub enum ShapeCastStatus {
    OutOfIterations,
    Converged,
    Failed,
    PenetratingOrWithinTargetDist,
}

/// Where and when a moving shape first comes within the target distance of another.
#[derive(Clone, Copy, Debug)]
pub struct ShapeCastHit<S> {
    pub time_of_impact: S,
    pub witness1: Vector<S>,
    pub witness2: Vector<S>,
    pub normal1: Vector<S>,
    pub normal2: Vector<S>,
    pub status: ShapeCastStatus,
}

/// Limits of a shape cast.
#[derive(Clone, Copy, Debug)]
pub struct ShapeCastOptions<S> {
    pub max_time_of_impact: S,
    pub target_distance: S,
    pub stop_at_penetration: bool,
}

/// Most steps a conservative cast takes.
pub const CCD_ITERATIONS: usize = 80;

/// Advances time from `start_time` in steps that the separation and the
/// bound on the approach speed make safe, until the shapes come within
/// `target_distance`, the contact is lost, or `end_time` is passed.
///
/// Shapes already within the distance at the start are a hit only when
/// `stop_at_penetration` is set.
pub fn conservative_cast<S: Scalar, F: Fn(S) -> Option<Contact<S>>>(
    start_time: S,
    end_time: S,
    speed_bound: S,
    target_distance: S,
    stop_at_penetration: bool,
    contact_at: F,
) -> (r: Option<ShapeCastHit<S>>)
    requires
        forall|t: S| call_requires(contact_at, (t,)),
    ensures
        r matches Some(hit) ==> {
            ||| hit.status == ShapeCastStatus::Converged
            ||| {
                &&& hit.status == ShapeCastStatus::PenetratingOrWithinTargetDist
                &&& hit.time_of_impact == start_time
                &&& stop_at_penetration
            }
        },
        r matches Some(hit) ==> exists|c: Contact<S>|
            #[trigger] call_ensures(contact_at, (hit.time_of_impact,), Some(c)) && c.dist.spec_minus(
                target_distance,
            ).spec_at_most(cast_tolerance()) && hit == hit_from(c, hit.time_of_impact, hit.status),
        r matches Some(hit) ==> (hit.status == ShapeCastStatus::Converged ==> !end_time.spec_less_than(hit.time_of_impact)),
        reached_at(contact_at, start_time, target_distance) ==> (r is Some <==> stop_at_penetration),
        reached_at(contact_at, start_time, target_distance) ==> (r matches Some(hit) ==> hit.status
            == ShapeCastStatus::PenetratingOrWithinTargetDist),
        forall|outcome_at: spec_fn(S) -> Option<Contact<S>>| #[trigger]
            follows(contact_at, outcome_at) ==> r == cast_from(
                outcome_at,
                start_time,
                0,
                end_time,
                speed_bound,
                target_distance,
                stop_at_penetration,
            ),
{
    let tolerance = S::from_decimal(1, -6);
    let mut time = start_time;
    let mut iteration: usize = 0;
    while iteration < CCD_ITERATIONS
        invariant
            forall|t: S| call_requires(contact_at, (t,)),
            iteration == 0 ==> time == start_time,
            iteration > 0 ==> !end_time.spec_less_than(time),
            reached_at(contact_at, start_time, target_distance) ==> iteration == 0,
            tolerance == cast_tolerance::<S>(),
            forall|outcome_at: spec_fn(S) -> Option<Contact<S>>| #[trigger]
                follows(contact_at, outcome_at) ==> cast_from(
                    outcome_at,
                    start_time,
                    0,
                    end_time,
                    speed_bound,
                    target_distance,
                    stop_at_penetration,
                ) == cast_from(
                    outcome_at,
                    time,
                    iteration as int,
                    end_time,
                    speed_bound,
                    target_distance,
                    stop_at_penetration,
                ),
        decreases CCD_ITERATIONS - iteration,
    {
        let outcome = contact_at(time);
        assert forall|outcome_at: spec_fn(S) -> Option<Contact<S>>| #[trigger]
            follows(contact_at, outcome_at) implies outcome_at(time) == outcome by {
            assert(call_ensures(contact_at, (time,), outcome));
        }
        let contact = match outcome {
            Some(contact) => contact,
            None => {
                return None;
            },
        };
        let separation = contact.dist.minus(target_distance);
        if separation.at_most(tolerance) {
            if iteration == 0 && !stop_at_penetration {
                return None;
            }
            let status = if iteration == 0 {
                ShapeCastStatus::PenetratingOrWithinTargetDist
            } else {
                ShapeCastStatus::Converged
            };
            let hit = ShapeCastHit {
                time_of_impact: time,
                witness1: contact.point1,
                witness2: contact.point2,
                normal1: contact.normal1,
                normal2: contact.normal2,
                status,
            };
            assert(call_ensures(contact_at, (hit.time_of_impact,), Some(contact)) && contact.dist.spec_minus(
                target_distance,
            ).spec_at_most(cast_tolerance()) && hit == hit_from(contact, hit.time_of_impact, hit.status));
            return Some(hit);
        }
        if speed_bound.at_most(crate::profile::machine_epsilon()) {
            return None;
        }
        let ghost previous = time;
        time = time.plus(separation.divided_by(speed_bound).times(S::from_decimal(9, -1)).larger(tolerance));
        if end_time.less_than(time) {
            return None;
        }
        assert forall|outcome_at: spec_fn(S) -> Option<Contact<S>>| #[trigger]
            follows(contact_at, outcome_at) implies cast_from(
                outcome_at,
                previous,
                iteration as int,
                end_time,
                speed_bound,
                target_distance,
                stop_at_penetration,
            ) == cast_from(
                outcome_at,
                time,
                iteration + 1,
                end_time,
                speed_bound,
                target_distance,
                stop_at_penetration,
            ) by {
            assert(outcome_at(previous) == outcome);
        }
        iteration = iteration + 1;
    }
    None
}

/// Answers the queries that involve an analytic profile.
#[derive(Clone, Copy, Debug, Default)]
pub struct AnalyticProfileDispatcher;

impl AnalyticProfileDispatcher {
    fn pair<'a, S: Scalar>(position12: &Pose<S>, shape1: PairShape<'a, S>, shape2: PairShape<'a, S>) -> (r: Result<
        ProfilePair<'a, S>,
        Unsupported,
    >)
        ensures
            r is Ok <==> pairable(shape1, shape2),
    {
        match ProfilePair::from_shapes(position12, shape1, shape2) {
            Some(pair) => Ok(pair),
            None => Err(Unsupported),
        }
    }

    /// Whether the two shapes touch or overlap.
    pub fn intersection_test<S: Scalar>(&self, position12: &Pose<S>, shape1: PairShape<S>, shape2: PairShape<S>) -> (r: Result<
        bool,
        Unsupported,
    >)
        ensures
            r is Err <==> !pairable(shape1, shape2),
    {
        let pair = match Self::pair(position12, shape1, shape2) {
            Ok(pair) => pair,
            Err(e) => {
                return Err(e);
            },
        };
        Ok(pair.gap().at_most(S::ZERO))
    }

    /// The distance between the two shapes, zero when they overlap.
    pub fn distance<S: Scalar>(&self, position12: &Pose<S>, shape1: PairShape<S>, shape2: PairShape<S>) -> (r: Result<
        S,
        Unsupported,
    >)
        ensures
            r is Err <==> !pairable(shape1, shape2),
    {
        let pair = match Self::pair(position12, shape1, shape2) {
            Ok(pair) => pair,
            Err(e) => {
                return Err(e);
            },
        };
        Ok(pair.gap().larger(S::ZERO))
    }

    /// The contact between the two shapes, when closer than `prediction`.
    pub fn contact<S: Scalar>(&self, position12: &Pose<S>, shape1: PairShape<S>, shape2: PairShape<S>, prediction: S) -> (r:
        Result<Option<Contact<S>>, Unsupported>)
        ensures
            r is Err <==> !pairable(shape1, shape2),
    {
        let pair = match Self::pair(position12, shape1, shape2) {
            Ok(pair) => pair,
            Err(e) => {
                return Err(e);
            },
        };
        let contact = pair.contact();
        if contact.dist.less_than(prediction) {
            Ok(Some(contact))
        } else {
            Ok(None)
        }
    }

    /// Whether the two shapes intersect, are within `max_distance` (with the
    /// closest points), or are further apart.
    pub fn closest_points<S: Scalar>(
        &self,
        position12: &Pose<S>,
        shape1: PairShape<S>,
        shape2: PairShape<S>,
        max_distance: S,
    ) -> (r: Result<ClosestPoints<S>, Unsupported>)
        ensures
            r is Err <==> !pairable(shape1, shape2),
    {
        let pair = match Self::pair(position12, shape1, shape2) {
            Ok(pair) => pair,
            Err(e) => {
                return Err(e);
            },
        };
        let contact = pair.contact();
        if contact.dist.at_most(S::ZERO) {
            Ok(ClosestPoints::Intersecting)
        } else if contact.dist.at_most(max_distance) {
            Ok(ClosestPoints::WithinMargin(contact.point1, contact.point2))
        } else {
            Ok(ClosestPoints::Disjoint)
        }
    }

    /// When `shape2`, moving at `velocity12` relative to `shape1`, first comes
    /// within the target distance, by conservative advancement.
    pub fn cast_shapes<S: Scalar>(
        &self,
        position12: &Pose<S>,
        velocity12: Vector<S>,
        shape1: PairShape<S>,
        shape2: PairShape<S>,
        options: ShapeCastOptions<S>,
    ) -> (r: Result<Option<ShapeCastHit<S>>, Unsupported>)
        ensures
            r is Err <==> !pairable(shape1, shape2),
    {
        match Self::pair(position12, shape1, shape2) {
            Ok(_) => {},
            Err(e) => {
                return Err(e);
            },
        }
        let speed = velocity12.length();
        let start = *position12;
        let contact_at = |time: S| -> Option<Contact<S>>
            {
                let position = Pose {
                    rotation: start.rotation,
                    translation: start.translation.plus(velocity12.scaled(time)),
                };
                match ProfilePair::from_shapes(&position, shape1, shape2) {
                    Some(pair) => Some(pair.contact()),
                    None => None,
                }
            };
        Ok(
            conservative_cast(
                S::ZERO,
                options.max_time_of_impact,
                speed,
                options.target_distance,
                options.stop_at_penetration,
                contact_at,
            ),
        )
    }

    /// Writes the contact points of the two shapes into the first manifold,
    /// creating it if there is none and dropping the others.
    pub fn contact_manifolds<S: Scalar, D: Default + Copy>(
        &self,
        position12: &Pose<S>,
        shape1: PairShape<S>,
        shape2: PairShape<S>,
        prediction: S,
        manifolds: &mut Vec<ContactManifold<S, D>>,
    ) -> (r: Result<(), Unsupported>)
        ensures
            r is Err <==> !pairable(shape1, shape2),
            r is Err ==> final(manifolds)@ == old(manifolds)@,
            r is Ok ==> final(manifolds)@.len() == 1 && final(manifolds)@[0].points@.len() <= 4,
    {
        let pair = match Self::pair(position12, shape1, shape2) {
            Ok(pair) => pair,
            Err(e) => {
                return Err(e);
            },
        };
        let contacts = pair.manifold_contacts(prediction);
        if manifolds.len() == 0 {
            manifolds.push(ContactManifold::new());
        }
        manifolds.truncate(1);
        let mut manifold = manifolds.remove(0);
        write_contacts(&mut manifold, contacts.as_slice());
        manifolds.push(manifold);
        Ok(())
    }

    /// Manifolds between convex shapes are not computed here.
    pub fn contact_manifold_convex_convex(&self) -> (r: Result<(), Unsupported>)
        ensures
            r is Err,
    {
        Err(Unsupported)
    }
}

} // verus!
