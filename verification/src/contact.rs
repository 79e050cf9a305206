//! Contacts between two shapes, and the manifolds that keep them from step to step.
use vstd::prelude::*;

use crate::scalar::{Scalar, Vector};

verus! {

/// A contact between two shapes, each point and normal in its own shape's frame.
#[derive(Clone, Copy, Debug)]
pub struct Contact<S> {
    pub point1: Vector<S>,
    pub point2: Vector<S>,
    pub normal1: Vector<S>,
    pub normal2: Vector<S>,
    /// Signed distance: negative when the shapes overlap.
    pub dist: S,
}

impl<S: Scalar> Contact<S> {
    pub fn new(point1: Vector<S>, point2: Vector<S>, normal1: Vector<S>, normal2: Vector<S>, dist: S) -> (r: Self)
        ensures
            r == (Contact { point1, point2, normal1, normal2, dist }),
    {
        Contact { point1, point2, normal1, normal2, dist }
    }

    /// The same contact seen from the other shape.
    pub fn flipped(self) -> (r: Self)
        ensures
            r == (Contact {
                point1: self.point2,
                point2: self.point1,
                normal1: self.normal2,
                normal2: self.normal1,
                dist: self.dist,
            }),
    {
        Contact {
            point1: self.point2,
            point2: self.point1,
            normal1: self.normal2,
            normal2: self.normal1,
            dist: self.dist,
        }
    }
}

/// The feature of a shape that a contact point lies on.
#[derive(Clone, Copy, Debug, PartialEq, Eq, Structural)]
pub enum ContactFeature {
    Unknown,
    Face(u32),
}

/// A contact point kept in a manifold, with the data the solver attaches to it.
#[derive(Clone, Copy, Debug)]
pub struct TrackedContact<S, D> {
    pub local_p1: Vector<S>,
    pub local_p2: Vector<S>,
    pub fid1: ContactFeature,
    pub fid2: ContactFeature,
    pub dist: S,
    pub data: D,
}

/// The contact points between two shapes and their shared normals.
#[derive(Clone, Debug)]
pub struct ContactManifold<S, D> {
    pub points: Vec<TrackedContact<S, D>>,
    pub local_n1: Vector<S>,
    pub local_n2: Vector<S>,
}

impl<S: Scalar, D: Default + Copy> ContactManifold<S, D> {
    /// An empty manifold with zero normals.
    pub fn new() -> (r: Self)
        ensures
            r.points@.len() == 0,
            r.local_n1 == (Vector::<S> { x: S::ZERO, y: S::ZERO }),
            r.local_n2 == (Vector::<S> { x: S::ZERO, y: S::ZERO }),
    {
        ContactManifold { points: Vec::new(), local_n1: Vector::zero(), local_n2: Vector::zero() }
    }
}

/// Whether the tracked point holds the geometry of `contact`, as the `index`-th face contact.
pub open spec fn holds_contact<S, D>(point: TrackedContact<S, D>, contact: Contact<S>, index: int) -> bool {
    &&& point.local_p1 == contact.point1
    &&& point.local_p2 == contact.point2
    &&& point.fid1 == ContactFeature::Face(index as u32)
    &&& point.fid2 == ContactFeature::Face(index as u32)
    &&& point.dist == contact.dist
}

/// Writes `contacts` into `manifold`, as face contacts numbered in order.
///
/// Points already in the manifold are updated in place and keep their data;
/// missing ones are added with default data; extra ones are dropped. The
/// manifold takes the normals of the first contact, if there is one.
pub fn write_contacts<S: Scalar, D: Default + Copy>(manifold: &mut ContactManifold<S, D>, contacts: &[Contact<S>])
    requires
        contacts@.len() <= u32::MAX,
    ensures
        final(manifold).points@.len() == contacts@.len(),
        forall|i: int|
            0 <= i < contacts@.len() ==> holds_contact(#[trigger] final(manifold).points@[i], contacts@[i], i),
        forall|i: int|
            0 <= i < contacts@.len() && i < old(manifold).points@.len() ==> (#[trigger] final(manifold).points@[i]).data
                == old(manifold).points@[i].data,
        contacts@.len() > 0 ==> final(manifold).local_n1 == contacts@[0].normal1 && final(manifold).local_n2
            == contacts@[0].normal2,
        contacts@.len() == 0 ==> final(manifold).local_n1 == old(manifold).local_n1 && final(manifold).local_n2
            == old(manifold).local_n2,
{
    let n = contacts.len();
    let ghost old_points = manifold.points@;
    let mut index: usize = 0;
    while index < n
        invariant
            n == contacts@.len(),
            n <= u32::MAX,
            index <= n,
            manifold.points@.len() >= index,
            manifold.points@.len() == if index <= old_points.len() {
                old_points.len()
            } else {
                index as nat
            },
            forall|i: int| 0 <= i < index ==> holds_contact(#[trigger] manifold.points@[i], contacts@[i], i),
            forall|i: int|
                0 <= i < manifold.points@.len() && i < old_points.len() ==> (#[trigger] manifold.points@[i]).data
                    == old_points[i].data,
            forall|i: int|
                index <= i < manifold.points@.len() && i < old_points.len() ==> #[trigger] manifold.points@[i]
                    == old_points[i],
            manifold.local_n1 == old(manifold).local_n1,
            manifold.local_n2 == old(manifold).local_n2,
        decreases n - index,
    {
        let contact = contacts[index];
        let feature = ContactFeature::Face(index as u32);
        if index < manifold.points.len() {
            let mut point = manifold.points[index];
            point.local_p1 = contact.point1;
            point.local_p2 = contact.point2;
            point.fid1 = feature;
            point.fid2 = feature;
            point.dist = contact.dist;
            manifold.points.set(index, point);
        } else {
            manifold.points.push(
                TrackedContact {
                    local_p1: contact.point1,
                    local_p2: contact.point2,
                    fid1: feature,
                    fid2: feature,
                    dist: contact.dist,
                    data: D::default(),
                },
            );
        }
        index = index + 1;
    }
    manifold.points.truncate(n);
    if n > 0 {
        manifold.local_n1 = contacts[0].normal1;
        manifold.local_n2 = contacts[0].normal2;
    }
}

} // verus!
