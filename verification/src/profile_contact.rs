//! Contacts between two analytic profiles.
use vstd::prelude::*;

use crate::body::Pose;
use crate::contact::Contact;
use crate::profile::{spec_closest_boundary, AnalyticProfile, ProfileMode, ProfileSegment};
use crate::profile_interior::spec_contains;
use crate::scalar::{Scalar, TotalOrder, Vector};
use crate::segment_pair::{closest_of, closest_segment_pair, kept, spec_closest_segment_pair, SegmentClosest};

verus! {

fn contact_epsilon<S: Scalar>() -> (r: S)
    ensures
        r == spec_contact_epsilon::<S>(),
{
    S::from_decimal(1, -6)
}

/// The contact between two profiles, `second` placed by `first_to_second`
/// in the frame of `first`.
///
/// Outlines are offset by half their thickness; a solid profile reports a
/// penetration when the other shape's closest point lies inside it.
pub fn profile_profile_contact<S: Scalar>(
    first: &AnalyticProfile<S>,
    first_to_second: &Pose<S>,
    second: &AnalyticProfile<S>,
) -> (r: Contact<S>)
    ensures
        r == spec_profile_profile_contact(*first, *first_to_second, *second),
{
    if first.mode() == ProfileMode::Outline && second.mode() == ProfileMode::Solid {
        return oriented_contact(second, &first_to_second.inverse(), first).flipped();
    }
    oriented_contact(first, first_to_second, second)
}

/// The contact between two profiles, the solid one first when there is one.
fn oriented_contact<S: Scalar>(first: &AnalyticProfile<S>, first_to_second: &Pose<S>, second: &AnalyticProfile<S>) -> (r: Contact<S>)
    requires
        !(first.spec_mode() == ProfileMode::Outline && second.spec_mode() == ProfileMode::Solid),
    ensures
        r == spec_oriented_contact(*first, *first_to_second, *second),
{
    let closest = closest_profiles(first, first_to_second, second);
    let offset = closest.second.minus(closest.first);
    let distance = offset.length();
    let boundary = first.closest_boundary(&closest.first);
    let fallback = first.outward_normal(boundary);
    let normal1 = normalized_or(offset, fallback);
    match first.mode() {
        ProfileMode::Outline => contact_from_pair(
            first_to_second,
            closest,
            normal1,
            distance.minus(first.half_thickness()).minus(second.half_thickness()),
            first.half_thickness(),
            second.half_thickness(),
        ),
        ProfileMode::Solid => match second.mode() {
            ProfileMode::Outline => {
                let inside = first.contains_interior(&closest.second);
                let gap = if inside {
                    distance.negated().minus(second.half_thickness())
                } else {
                    distance.minus(second.half_thickness())
                };
                let normal = if inside {
                    fallback
                } else {
                    normal1
                };
                contact_from_pair(first_to_second, closest, normal, gap, S::ZERO, second.half_thickness())
            },
            ProfileMode::Solid => {
                let contacts = solid_profile_contacts(first, first_to_second, second);
                match deepest(&contacts) {
                    Some(contact) => contact,
                    None => contact_from_pair(first_to_second, closest, normal1, distance, S::ZERO, S::ZERO),
                }
            },
        },
    }
}

/// The contact of largest distance, the last among equals.
fn deepest<S: Scalar>(contacts: &Vec<Contact<S>>) -> (r: Option<Contact<S>>)
    ensures
        r is None <==> contacts@.len() == 0,
        r matches Some(c) ==> contacts@.contains(c) && c == deepest_contact_of(contacts@, contacts@.len() as int),
{
    if contacts.len() == 0 {
        return None;
    }
    let mut best = contacts[0];
    let mut k: usize = 1;
    while k < contacts.len()
        invariant
            1 <= k <= contacts@.len(),
            contacts@.contains(best),
            best == deepest_contact_of(contacts@, k as int),
        decreases contacts@.len() - k,
    {
        if best.dist.total_order(contacts[k].dist) != TotalOrder::Greater {
            best = contacts[k];
        }
        k = k + 1;
    }
    Some(best)
}

/// The contact points of two profiles within `prediction`.
///
/// Two solid profiles touching along parallel faces report the two extreme
/// points of the shared patch, ordered along the contact tangent; otherwise
/// the single contact of [`profile_profile_contact`] is reported when it is
/// closer than `prediction`.
pub fn profile_profile_manifold_contacts<S: Scalar>(
    first: &AnalyticProfile<S>,
    first_to_second: &Pose<S>,
    second: &AnalyticProfile<S>,
    prediction: S,
) -> (r: Vec<Contact<S>>)
    ensures
        r@ == spec_profile_profile_manifold_contacts(*first, *first_to_second, *second, prediction),
        r@.len() <= 2,
        first.spec_mode() != ProfileMode::Solid || second.spec_mode() != ProfileMode::Solid ==> r@.len() <= 1,
{
    let reference = profile_profile_contact(first, first_to_second, second);
    if prediction.at_most(reference.dist) {
        let r = Vec::new();
        assert(r@ =~= spec_profile_profile_manifold_contacts(*first, *first_to_second, *second, prediction));
        return r;
    }
    if first.mode() != ProfileMode::Solid || second.mode() != ProfileMode::Solid {
        let r = vec![reference];
        assert(r@ =~= spec_profile_profile_manifold_contacts(*first, *first_to_second, *second, prediction));
        return r;
    }
    let candidates = solid_profile_contacts(first, first_to_second, second);
    let depth_tolerance = S::from_decimal(1, -5);
    let alignment = S::ONE.minus(S::from_decimal(1, -5));
    let mut contacts: Vec<Contact<S>> = Vec::new();
    let mut k: usize = 0;
    while k < candidates.len()
        invariant
            k <= candidates@.len(),
            depth_tolerance == S::spec_from_decimal(1i64, -5i32),
            alignment == S::ONE.spec_minus(S::spec_from_decimal(1i64, -5i32)),
            contacts@ == patch_contacts(candidates@, reference, prediction, k as int),
        decreases candidates@.len() - k,
    {
        let contact = candidates[k];
        if contact.dist.less_than(prediction) && contact.dist.minus(reference.dist).absolute().at_most(depth_tolerance)
            && alignment.at_most(contact.normal1.dot(reference.normal1)) {
            contacts.push(contact);
        }
        assert(contacts@ =~= patch_contacts(candidates@, reference, prediction, k + 1));
        k = k + 1;
    }
    if contacts.len() < 2 {
        let r = vec![reference];
        assert(r@ =~= spec_profile_profile_manifold_contacts(*first, *first_to_second, *second, prediction));
        return r;
    }
    let mut tangent = Vector::new(reference.normal1.y.negated(), reference.normal1.x);
    if tangent.x.less_than(contact_epsilon::<S>().negated()) || (tangent.x.absolute().at_most(contact_epsilon())
        && tangent.y.less_than(S::ZERO)) {
        tangent = tangent.negated();
    }
    assert(tangent == patch_tangent(reference.normal1));
    let sorted = sorted_along(&contacts, tangent);
    let distinct = distinct_points(&sorted);
    if distinct.len() < 2 {
        let r = vec![reference];
        assert(r@ =~= spec_profile_profile_manifold_contacts(*first, *first_to_second, *second, prediction));
        return r;
    }
    let r = vec![distinct[0], distinct[distinct.len() - 1]];
    assert(r@ =~= spec_profile_profile_manifold_contacts(*first, *first_to_second, *second, prediction));
    r
}

/// Whether `left` comes strictly before `right`: by the first point's
/// position along `tangent`, then its `x`, then its `y`.
fn precedes<S: Scalar>(left: &Contact<S>, right: &Contact<S>, tangent: Vector<S>) -> (r: bool)
    ensures
        r == spec_precedes(*left, *right, tangent),
{
    match left.point1.dot(tangent).total_order(right.point1.dot(tangent)) {
        TotalOrder::Less => true,
        TotalOrder::Greater => false,
        TotalOrder::Equal => match left.point1.x.total_order(right.point1.x) {
            TotalOrder::Less => true,
            TotalOrder::Greater => false,
            TotalOrder::Equal => left.point1.y.total_order(right.point1.y) == TotalOrder::Less,
        },
    }
}

/// The contacts ordered by [`precedes`], contacts that neither precedes
/// keeping their relative order.
fn sorted_along<S: Scalar>(contacts: &Vec<Contact<S>>, tangent: Vector<S>) -> (r: Vec<Contact<S>>)
    ensures
        r@ == contacts_sorted_prefix(contacts@, tangent, contacts@.len() as int),
        r@.to_multiset() == contacts@.to_multiset(),
        r@.len() == contacts@.len(),
{
    let mut sorted: Vec<Contact<S>> = Vec::new();
    assert(sorted@ =~= contacts@.subrange(0, 0));
    let mut k: usize = 0;
    while k < contacts.len()
        invariant
            k <= contacts@.len(),
            sorted@.len() == k,
            sorted@ == contacts_sorted_prefix(contacts@, tangent, k as int),
            sorted@.to_multiset() == contacts@.subrange(0, k as int).to_multiset(),
        decreases contacts@.len() - k,
    {
        let item = contacts[k];
        let mut position: usize = sorted.len();
        while position > 0 && precedes(&item, &sorted[position - 1], tangent)
            invariant
                position <= sorted@.len(),
                contact_insert_position(sorted@, item, tangent, position as int) == contact_insert_position(
                    sorted@,
                    item,
                    tangent,
                    sorted@.len() as int,
                ),
            decreases position,
        {
            position = position - 1;
        }
        let ghost before = sorted@;
        assert(contact_insert_position(before, item, tangent, position as int) == position as int);
        sorted.insert(position, item);
        proof {
            vstd::seq_lib::to_multiset_insert(before, position as int, item);
            assert(contacts@.subrange(0, k + 1) =~= contacts@.subrange(0, k as int).push(item));
            vstd::seq_lib::to_multiset_build(contacts@.subrange(0, k as int), item);
        }
        k = k + 1;
    }
    assert(contacts@.subrange(0, contacts@.len() as int) =~= contacts@);
    sorted
}

/// The contacts without those whose first point nearly coincides with the
/// previous kept one.
fn distinct_points<S: Scalar>(contacts: &Vec<Contact<S>>) -> (r: Vec<Contact<S>>)
    ensures
        r@ == distinct_contacts_prefix(contacts@, contacts@.len() as int),
        r@.len() <= contacts@.len(),
        contacts@.len() > 0 ==> r@.len() > 0 && r@[0] == contacts@[0],
        forall|i: int| 0 <= i < r@.len() ==> contacts@.contains(#[trigger] r@[i]),
{
    let mut kept: Vec<Contact<S>> = Vec::new();
    if contacts.len() == 0 {
        assert(kept@ =~= distinct_contacts_prefix(contacts@, 0));
        return kept;
    }
    kept.push(contacts[0]);
    assert(kept@ =~= distinct_contacts_prefix(contacts@, 1));
    let tolerance = S::from_decimal(1, -10);
    let mut k: usize = 1;
    while k < contacts.len()
        invariant
            1 <= k <= contacts@.len(),
            1 <= kept@.len() <= k,
            kept@[0] == contacts@[0],
            kept@ == distinct_contacts_prefix(contacts@, k as int),
            tolerance == S::spec_from_decimal(1i64, -10i32),
            forall|i: int| 0 <= i < kept@.len() ==> contacts@.contains(#[trigger] kept@[i]),
        decreases contacts@.len() - k,
    {
        let item = contacts[k];
        let last = kept[kept.len() - 1];
        assert(last == kept@.last());
        if !item.point1.minus(last.point1).length_squared().at_most(tolerance) {
            kept.push(item);
            assert(contacts@[k as int] == item);
        }
        assert(kept@ =~= distinct_contacts_prefix(contacts@, k + 1));
        k = k + 1;
    }
    kept
}

/// The closest points between two profiles, the first on `first`: the first
/// closest pair over the segments of `first`, then of `second`, in order.
fn closest_profiles<S: Scalar>(first: &AnalyticProfile<S>, first_to_second: &Pose<S>, second: &AnalyticProfile<S>) -> (r: SegmentClosest<
    S,
>)
    ensures
        r == spec_closest_profiles(*first, *first_to_second, *second),
{
    let first_segments = first.segments();
    let second_segments = second.segments();
    let mut transformed: Vec<ProfileSegment<S>> = Vec::new();
    let mut k: usize = 0;
    while k < second_segments.len()
        invariant
            k <= second_segments@.len(),
            transformed@ == transformed_segments(*first_to_second, second_segments@.take(k as int)),
        decreases second_segments@.len() - k,
    {
        transformed.push(transform_segment(first_to_second, &second_segments[k]));
        assert(transformed@ =~= transformed_segments(*first_to_second, second_segments@.take(k + 1)));
        k = k + 1;
    }
    assert(second_segments@.take(second_segments@.len() as int) =~= second_segments@);
    let ghost pairs = segment_pairs(first_segments@, transformed@);
    let ghost n = transformed@.len() as int;
    let ghost total = first_segments@.len() as int;
    proof {
        assert(0int / n == 0 && 0int % n == 0) by (nonlinear_arith)
            requires
                n >= 2,
        ;
        assert(total * n >= 4) by (nonlinear_arith)
            requires
                n >= 2,
                total >= 2,
        ;
    }
    let mut best = closest_segment_pair(&first_segments[0], &transformed[0]);
    let mut best_distance = best.distance_squared();
    let mut i: usize = 0;
    while i < first_segments.len()
        invariant
            i <= first_segments@.len(),
            transformed@.len() == second_segments@.len(),
            second_segments@.len() >= 2,
            n == transformed@.len(),
            total == first_segments@.len(),
            pairs == segment_pairs(first_segments@, transformed@),
            pairs.len() == total * n,
            best == closest_of(pairs, if i == 0 { 1 } else { i * n }),
            best_distance == best.spec_distance_squared(),
        decreases first_segments@.len() - i,
    {
        let mut j: usize = if i == 0 {
            1
        } else {
            0
        };
        while j < transformed.len()
            invariant
                i < first_segments@.len(),
                transformed@.len() >= 2,
                j <= transformed@.len(),
                i == 0 ==> j >= 1,
                n == transformed@.len(),
                total == first_segments@.len(),
                pairs == segment_pairs(first_segments@, transformed@),
                pairs.len() == total * n,
                best == closest_of(pairs, i * n + j),
                best_distance == best.spec_distance_squared(),
            decreases transformed@.len() - j,
        {
            let candidate = closest_segment_pair(&first_segments[i], &transformed[j]);
            let distance = candidate.distance_squared();
            proof {
                let m = i * n + j;
                assert(m / n == i as int && m % n == j as int && 0 <= m < total * n) by (nonlinear_arith)
                    requires
                        m == i * n + j,
                        0 <= j < n,
                        0 <= i < total,
                ;
                assert(pairs[m] == candidate);
            }
            if distance.total_order(best_distance) == TotalOrder::Less {
                best = candidate;
                best_distance = distance;
            }
            j = j + 1;
        }
        proof {
            assert(i * n + n == (i + 1) * n) by (nonlinear_arith);
        }
        i = i + 1;
    }
    best
}

/// The contacts of each profile's vertices lying inside the other solid profile.
fn solid_profile_contacts<S: Scalar>(first: &AnalyticProfile<S>, first_to_second: &Pose<S>, second: &AnalyticProfile<S>) -> (r: Vec<
    Contact<S>,
>)
    ensures
        r@ == spec_solid_profile_contacts(*first, *first_to_second, *second),
{
    let mut contacts = containment_contacts(first, first_to_second, second);
    let ghost forward = contacts@;
    let reverse = containment_contacts(second, &first_to_second.inverse(), first);
    let mut k: usize = 0;
    while k < reverse.len()
        invariant
            k <= reverse@.len(),
            contacts@ == forward + reverse@.take(k as int).map_values(|c: Contact<S>| flipped_contact(c)),
        decreases reverse@.len() - k,
    {
        contacts.push(reverse[k].flipped());
        assert(contacts@ =~= forward + reverse@.take(k + 1).map_values(|c: Contact<S>| flipped_contact(c)));
        k = k + 1;
    }
    assert(reverse@.take(reverse@.len() as int) =~= reverse@);
    contacts
}

/// A contact for every segment start of `inner` that lies strictly inside `outer`.
fn containment_contacts<S: Scalar>(outer: &AnalyticProfile<S>, outer_to_inner: &Pose<S>, inner: &AnalyticProfile<S>) -> (r: Vec<
    Contact<S>,
>)
    ensures
        r@ == spec_containment_contacts(*outer, *outer_to_inner, *inner),
{
    let segments = inner.segments();
    let mut contacts: Vec<Contact<S>> = Vec::new();
    let mut k: usize = 0;
    while k < segments.len()
        invariant
            k <= segments@.len(),
            segments@ == inner.spec_segments(),
            contacts@ == containment_of(*outer, *outer_to_inner, segments@, k as int),
        decreases segments@.len() - k,
    {
        let local = segments[k].start();
        let ghost before = contacts@;
        let point = outer_to_inner.transform_point(local);
        if outer.contains_interior(&point) {
            let boundary = outer.closest_boundary(&point);
            let depth = point.minus(boundary.point).length();
            if contact_epsilon::<S>().less_than(depth) {
                let normal1 = outer.outward_normal(boundary);
                let normal2 = outer_to_inner.rotation.inverse().apply(normal1.negated());
                contacts.push(Contact::new(boundary.point, local, normal1, normal2, depth.negated()));
            }
        }
        assert(contacts@ =~= before + containment_contact(*outer, *outer_to_inner, local));
        k = k + 1;
    }
    contacts
}

/// The contact between two closest points, each moved along the normal by its offset.
fn contact_from_pair<S: Scalar>(
    first_to_second: &Pose<S>,
    closest: SegmentClosest<S>,
    normal1: Vector<S>,
    gap: S,
    first_offset: S,
    second_offset: S,
) -> (r: Contact<S>)
    ensures
        r == spec_contact_from_pair(*first_to_second, closest, normal1, gap, first_offset, second_offset),
{
    let point1 = closest.first.plus(normal1.scaled(first_offset));
    let point2_world = closest.second.minus(normal1.scaled(second_offset));
    let normal2 = first_to_second.rotation.inverse().apply(normal1.negated());
    Contact::new(point1, first_to_second.inverse_transform_point(point2_world), normal1, normal2, gap)
}

/// The segment placed by `pose`.
pub fn transform_segment<S: Scalar>(pose: &Pose<S>, segment: &ProfileSegment<S>) -> (r: ProfileSegment<S>)
    ensures
        r == spec_transform_segment(*pose, *segment),
{
    match segment {
        ProfileSegment::Line { start, end } => ProfileSegment::Line {
            start: pose.transform_point(*start),
            end: pose.transform_point(*end),
        },
        ProfileSegment::Arc { center, radius, start_angle, sweep } => ProfileSegment::Arc {
            center: pose.transform_point(*center),
            radius: *radius,
            start_angle: start_angle.plus(pose.rotation.angle()),
            sweep: *sweep,
        },
    }
}

/// `value` made unit length, else `fallback` made unit length, else the `x` axis.
fn normalized_or<S: Scalar>(value: Vector<S>, fallback: Vector<S>) -> (r: Vector<S>)
    ensures
        r == spec_normalized_or(value, fallback),
{
    if contact_epsilon::<S>().less_than(value.length()) {
        value.normalized()
    } else if contact_epsilon::<S>().less_than(fallback.length()) {
        fallback.normalized()
    } else {
        Vector::new(S::ONE, S::ZERO)
    }
}


/// The tolerance of contacts between profiles.
pub open spec fn spec_contact_epsilon<S: Scalar>() -> S {
    S::spec_from_decimal(1i64, -6i32)
}

/// `value` made unit length, else `fallback` made unit length, else the `x` axis.
pub open spec fn spec_normalized_or<S: Scalar>(value: Vector<S>, fallback: Vector<S>) -> Vector<S> {
    if spec_contact_epsilon::<S>().spec_less_than(value.spec_length()) {
        value.spec_normalized()
    } else if spec_contact_epsilon::<S>().spec_less_than(fallback.spec_length()) {
        fallback.spec_normalized()
    } else {
        Vector { x: S::ONE, y: S::ZERO }
    }
}

/// The same contact seen from the other shape.
pub open spec fn flipped_contact<S>(contact: Contact<S>) -> Contact<S> {
    Contact {
        point1: contact.point2,
        point2: contact.point1,
        normal1: contact.normal2,
        normal2: contact.normal1,
        dist: contact.dist,
    }
}

/// The segment placed by `pose`.
pub open spec fn spec_transform_segment<S: Scalar>(pose: Pose<S>, segment: ProfileSegment<S>) -> ProfileSegment<S> {
    match segment {
        ProfileSegment::Line { start, end } => ProfileSegment::Line {
            start: pose.spec_transform_point(start),
            end: pose.spec_transform_point(end),
        },
        ProfileSegment::Arc { center, radius, start_angle, sweep } => ProfileSegment::Arc {
            center: pose.spec_transform_point(center),
            radius,
            start_angle: start_angle.spec_plus(pose.rotation.spec_angle()),
            sweep,
        },
    }
}

/// Every segment placed by `pose`.
pub open spec fn transformed_segments<S: Scalar>(pose: Pose<S>, segments: Seq<ProfileSegment<S>>) -> Seq<ProfileSegment<S>> {
    Seq::new(segments.len(), |t: int| spec_transform_segment(pose, segments[t]))
}

/// The closest points of every segment of `first` against every placed
/// segment of `second`, row by row.
pub open spec fn segment_pairs<S: Scalar>(first: Seq<ProfileSegment<S>>, second: Seq<ProfileSegment<S>>) -> Seq<SegmentClosest<S>> {
    Seq::new(
        (first.len() * second.len()) as nat,
        |m: int| spec_closest_segment_pair(first[m / (second.len() as int)], second[m % (second.len() as int)]),
    )
}

/// The closest points between two profiles, the first on `first`: the first
/// closest pair over the segments of `first`, then of `second`, in order.
pub open spec fn spec_closest_profiles<S: Scalar>(first: AnalyticProfile<S>, first_to_second: Pose<S>, second: AnalyticProfile<S>) -> SegmentClosest<S> {
    let pairs = segment_pairs(first.spec_segments(), transformed_segments(first_to_second, second.spec_segments()));
    closest_of(pairs, pairs.len() as int)
}

/// The contact between two closest points, each moved along the normal by its offset.
pub open spec fn spec_contact_from_pair<S: Scalar>(
    first_to_second: Pose<S>,
    closest: SegmentClosest<S>,
    normal1: Vector<S>,
    gap: S,
    first_offset: S,
    second_offset: S,
) -> Contact<S> {
    Contact {
        point1: closest.first.spec_plus(normal1.spec_scaled(first_offset)),
        point2: first_to_second.spec_inverse_transform_point(closest.second.spec_minus(normal1.spec_scaled(second_offset))),
        normal1,
        normal2: first_to_second.rotation.spec_inverse().spec_apply(normal1.spec_negated()),
        dist: gap,
    }
}

/// The contact of a segment start `local` of `inner`, when it lies deep
/// enough inside `outer`.
pub open spec fn containment_contact<S: Scalar>(outer: AnalyticProfile<S>, outer_to_inner: Pose<S>, local: Vector<S>) -> Seq<Contact<S>> {
    let point = outer_to_inner.spec_transform_point(local);
    if spec_contains(outer.spec_segments(), point) {
        let boundary = spec_closest_boundary(outer.spec_segments(), point);
        let depth = point.spec_minus(boundary.point).spec_length();
        let normal1 = outer.spec_outward_normal(boundary);
        kept(
            spec_contact_epsilon::<S>().spec_less_than(depth),
            Contact {
                point1: boundary.point,
                point2: local,
                normal1,
                normal2: outer_to_inner.rotation.spec_inverse().spec_apply(normal1.spec_negated()),
                dist: depth.spec_negated(),
            },
        )
    } else {
        Seq::empty()
    }
}

/// The containment contacts of the first `k` segment starts of `segments`.
pub open spec fn containment_of<S: Scalar>(
    outer: AnalyticProfile<S>,
    outer_to_inner: Pose<S>,
    segments: Seq<ProfileSegment<S>>,
    k: int,
) -> Seq<Contact<S>>
    decreases k,
{
    if k <= 0 {
        Seq::empty()
    } else {
        containment_of(outer, outer_to_inner, segments, k - 1) + containment_contact(
            outer,
            outer_to_inner,
            segments[k - 1].spec_start(),
        )
    }
}

/// A contact for every segment start of `inner` that lies strictly inside `outer`.
pub open spec fn spec_containment_contacts<S: Scalar>(outer: AnalyticProfile<S>, outer_to_inner: Pose<S>, inner: AnalyticProfile<S>) -> Seq<
    Contact<S>,
> {
    containment_of(outer, outer_to_inner, inner.spec_segments(), inner.spec_segments().len() as int)
}

/// The contacts of each profile's vertices lying inside the other solid profile.
pub open spec fn spec_solid_profile_contacts<S: Scalar>(first: AnalyticProfile<S>, first_to_second: Pose<S>, second: AnalyticProfile<S>) -> Seq<
    Contact<S>,
> {
    spec_containment_contacts(first, first_to_second, second) + spec_containment_contacts(
        second,
        first_to_second.spec_inverse(),
        first,
    ).map_values(|c: Contact<S>| flipped_contact(c))
}

/// The contact of largest distance among the first `k`, the last among equals.
pub open spec fn deepest_contact_of<S: Scalar>(contacts: Seq<Contact<S>>, k: int) -> Contact<S>
    decreases k,
{
    if k <= 1 {
        contacts[0]
    } else {
        let best = deepest_contact_of(contacts, k - 1);
        if best.dist.spec_total_order(contacts[k - 1].dist) != TotalOrder::Greater {
            contacts[k - 1]
        } else {
            best
        }
    }
}

/// The contact between two profiles, the solid one first when there is one.
pub open spec fn spec_oriented_contact<S: Scalar>(first: AnalyticProfile<S>, first_to_second: Pose<S>, second: AnalyticProfile<S>) -> Contact<S> {
    let closest = spec_closest_profiles(first, first_to_second, second);
    let offset = closest.second.spec_minus(closest.first);
    let distance = offset.spec_length();
    let boundary = spec_closest_boundary(first.spec_segments(), closest.first);
    let fallback = first.spec_outward_normal(boundary);
    let normal1 = spec_normalized_or(offset, fallback);
    match first.spec_mode() {
        ProfileMode::Outline => spec_contact_from_pair(
            first_to_second,
            closest,
            normal1,
            distance.spec_minus(first.spec_half_thickness()).spec_minus(second.spec_half_thickness()),
            first.spec_half_thickness(),
            second.spec_half_thickness(),
        ),
        ProfileMode::Solid => match second.spec_mode() {
            ProfileMode::Outline => {
                let inside = spec_contains(first.spec_segments(), closest.second);
                let gap = if inside {
                    distance.spec_negated().spec_minus(second.spec_half_thickness())
                } else {
                    distance.spec_minus(second.spec_half_thickness())
                };
                spec_contact_from_pair(
                    first_to_second,
                    closest,
                    if inside {
                        fallback
                    } else {
                        normal1
                    },
                    gap,
                    S::ZERO,
                    second.spec_half_thickness(),
                )
            },
            ProfileMode::Solid => {
                let contacts = spec_solid_profile_contacts(first, first_to_second, second);
                if contacts.len() == 0 {
                    spec_contact_from_pair(first_to_second, closest, normal1, distance, S::ZERO, S::ZERO)
                } else {
                    deepest_contact_of(contacts, contacts.len() as int)
                }
            },
        },
    }
}

/// The contact between two profiles, `second` placed by `first_to_second`.
pub open spec fn spec_profile_profile_contact<S: Scalar>(first: AnalyticProfile<S>, first_to_second: Pose<S>, second: AnalyticProfile<S>) -> Contact<S> {
    if first.spec_mode() == ProfileMode::Outline && second.spec_mode() == ProfileMode::Solid {
        flipped_contact(spec_oriented_contact(second, first_to_second.spec_inverse(), first))
    } else {
        spec_oriented_contact(first, first_to_second, second)
    }
}

/// Whether `left` comes strictly before `right`: by the first point's
/// position along `tangent`, then its `x`, then its `y`.
pub open spec fn spec_precedes<S: Scalar>(left: Contact<S>, right: Contact<S>, tangent: Vector<S>) -> bool {
    let along = left.point1.spec_dot(tangent).spec_total_order(right.point1.spec_dot(tangent));
    if along == TotalOrder::Less {
        true
    } else if along == TotalOrder::Greater {
        false
    } else {
        let across = left.point1.x.spec_total_order(right.point1.x);
        if across == TotalOrder::Less {
            true
        } else if across == TotalOrder::Greater {
            false
        } else {
            left.point1.y.spec_total_order(right.point1.y) == TotalOrder::Less
        }
    }
}

/// Where `item` goes in `sorted`, searching down from `p`: after every
/// contact that it does not precede.
pub open spec fn contact_insert_position<S: Scalar>(sorted: Seq<Contact<S>>, item: Contact<S>, tangent: Vector<S>, p: int) -> int
    decreases p,
{
    if p > 0 && spec_precedes(item, sorted[p - 1], tangent) {
        contact_insert_position(sorted, item, tangent, p - 1)
    } else {
        p
    }
}

/// The first `k` contacts sorted by insertion, stably.
pub open spec fn contacts_sorted_prefix<S: Scalar>(contacts: Seq<Contact<S>>, tangent: Vector<S>, k: int) -> Seq<Contact<S>>
    decreases k,
{
    if k <= 0 {
        Seq::empty()
    } else {
        let sorted = contacts_sorted_prefix(contacts, tangent, k - 1);
        let item = contacts[k - 1];
        sorted.insert(contact_insert_position(sorted, item, tangent, sorted.len() as int), item)
    }
}

/// The first `k` contacts without those whose first point nearly coincides
/// with the previous kept one.
pub open spec fn distinct_contacts_prefix<S: Scalar>(contacts: Seq<Contact<S>>, k: int) -> Seq<Contact<S>>
    decreases k,
{
    if k <= 0 {
        Seq::empty()
    } else if k == 1 {
        seq![contacts[0]]
    } else {
        let kept_contacts = distinct_contacts_prefix(contacts, k - 1);
        let item = contacts[k - 1];
        if item.point1.spec_minus(kept_contacts.last().point1).spec_length_squared().spec_at_most(
            S::spec_from_decimal(1i64, -10i32),
        ) {
            kept_contacts
        } else {
            kept_contacts.push(item)
        }
    }
}

/// Those of the first `k` candidates closer than `prediction`, as deep as
/// `reference` within a small tolerance, and facing its way.
pub open spec fn patch_contacts<S: Scalar>(candidates: Seq<Contact<S>>, reference: Contact<S>, prediction: S, k: int) -> Seq<
    Contact<S>,
>
    decreases k,
{
    if k <= 0 {
        Seq::empty()
    } else {
        let contact = candidates[k - 1];
        patch_contacts(candidates, reference, prediction, k - 1) + kept(
            contact.dist.spec_less_than(prediction) && contact.dist.spec_minus(reference.dist).spec_absolute().spec_at_most(
                S::spec_from_decimal(1i64, -5i32),
            ) && S::ONE.spec_minus(S::spec_from_decimal(1i64, -5i32)).spec_at_most(
                contact.normal1.spec_dot(reference.normal1),
            ),
            contact,
        )
    }
}

/// The direction along a contact patch whose normal is `normal`, pointing
/// towards increasing `x`, or increasing `y` when across it.
pub open spec fn patch_tangent<S: Scalar>(normal: Vector<S>) -> Vector<S> {
    let tangent = Vector { x: normal.y.spec_negated(), y: normal.x };
    if tangent.x.spec_less_than(spec_contact_epsilon::<S>().spec_negated()) || (tangent.x.spec_absolute().spec_at_most(
        spec_contact_epsilon(),
    ) && tangent.y.spec_less_than(S::ZERO)) {
        tangent.spec_negated()
    } else {
        tangent
    }
}

/// The contact points of two profiles within `prediction`.
pub open spec fn spec_profile_profile_manifold_contacts<S: Scalar>(
    first: AnalyticProfile<S>,
    first_to_second: Pose<S>,
    second: AnalyticProfile<S>,
    prediction: S,
) -> Seq<Contact<S>> {
    let reference = spec_profile_profile_contact(first, first_to_second, second);
    if prediction.spec_at_most(reference.dist) {
        Seq::empty()
    } else if first.spec_mode() != ProfileMode::Solid || second.spec_mode() != ProfileMode::Solid {
        seq![reference]
    } else {
        let candidates = spec_solid_profile_contacts(first, first_to_second, second);
        let contacts = patch_contacts(candidates, reference, prediction, candidates.len() as int);
        let sorted = contacts_sorted_prefix(contacts, patch_tangent(reference.normal1), contacts.len() as int);
        let distinct = distinct_contacts_prefix(sorted, sorted.len() as int);
        if contacts.len() < 2 || distinct.len() < 2 {
            seq![reference]
        } else {
            seq![distinct[0], distinct.last()]
        }
    }
}

} // verus!
