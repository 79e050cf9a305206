//! Geometry of a rope routed from endpoint A over ordered pulley wheels to
//! endpoint B: tangent segments, wrapped arcs, total length and its gradient
//! with respect to every routed point.
use vstd::prelude::*;

use crate::rope::{RoutedRopeStatus, RoutedRopeWinding};
use crate::scalar::{Scalar, TotalOrder, Vector};

verus! {

/// Where a pulley is at the time of routing.
#[derive(Clone, Copy, Debug)]
pub struct RoutedRopePulleyGeometry<S> {
    pub center: Vector<S>,
    pub radius: S,
    pub winding: RoutedRopeWinding,
}

/// The resolved route of a rope.
#[derive(Clone, Debug)]
pub struct RoutedRopeRoute<S> {
    /// Sum of the straight segments and the wrapped arcs.
    pub total_length: S,
    /// Endpoint A, endpoint B, then one gradient for every pulley center.
    pub gradients: Vec<Vector<S>>,
}

/// A tangent point of a wheel seen from a point, with the sign of the cross
/// product between the wheel's radius there and the direction from the point.
#[derive(Clone, Copy, Debug)]
pub struct Contact<S> {
    pub point: Vector<S>,
    pub orientation: i8,
}

/// A straight rope piece between two points, with its length and unit direction.
#[derive(Clone, Copy, Debug)]
pub struct Segment<S> {
    pub from: Vector<S>,
    pub to: Vector<S>,
    pub length: S,
    pub direction: Vector<S>,
}

/// Whether `s` is one of the statuses that routing can fail with.
pub open spec fn is_route_failure(s: RoutedRopeStatus) -> bool {
    ||| s == RoutedRopeStatus::InvalidCoordinates
    ||| s == RoutedRopeStatus::NoPulleys
    ||| s == RoutedRopeStatus::PulleyOverlap
    ||| s == RoutedRopeStatus::TangentUnavailable
    ||| s == RoutedRopeStatus::SegmentObstructed
}

/// Distance below which two routing quantities are treated as equal.
pub open spec fn spec_epsilon<S: Scalar>() -> S {
    S::spec_from_decimal(1i64, -6i32)
}

/// Distance below which two routing quantities are treated as equal.
#[verifier::when_used_as_spec(spec_epsilon)]
fn epsilon<S: Scalar>() -> (r: S)
    ensures
        r == spec_epsilon::<S>(),
{
    S::from_decimal(1, -6)
}

/// The scalar cross product of two vectors.
pub fn cross<S: Scalar>(left: Vector<S>, right: Vector<S>) -> (r: S)
    ensures
        r == left.spec_cross(right),
{
    left.cross(right)
}

/// `value` turned a quarter turn counterclockwise.
pub fn perpendicular<S: Scalar>(value: Vector<S>) -> (r: Vector<S>)
    ensures
        r == value.spec_perpendicular(),
{
    value.perpendicular()
}

/// The sign of the cross product between the radius and the rope direction
/// that a winding requires at its tangent points.
pub open spec fn spec_orientation(winding: RoutedRopeWinding) -> i8 {
    match winding {
        RoutedRopeWinding::Clockwise => -1i8,
        RoutedRopeWinding::Counterclockwise => 1i8,
    }
}

/// The sign of the cross product between the radius and the rope direction
/// that a winding requires at its tangent points.
pub fn orientation(winding: RoutedRopeWinding) -> (r: i8)
    ensures
        r == spec_orientation(winding),
        winding == RoutedRopeWinding::Clockwise ==> r == -1,
        winding == RoutedRopeWinding::Counterclockwise ==> r == 1,
{
    match winding {
        RoutedRopeWinding::Clockwise => -1,
        RoutedRopeWinding::Counterclockwise => 1,
    }
}

/// The angle brought into `[0, TAU)`.
pub open spec fn spec_positive_angle<S: Scalar>(value: S) -> S {
    value.spec_remainder(S::TAU).spec_plus(S::TAU).spec_remainder(S::TAU)
}

/// The angle brought into `[0, TAU)`.
pub fn positive_angle<S: Scalar>(value: S) -> (r: S)
    ensures
        r == spec_positive_angle(value),
{
    value.remainder(S::TAU).plus(S::TAU).remainder(S::TAU)
}

/// The contact at the tangent point `contact` of the circle `(center, radius)`
/// seen from `point`, unless `point` is on it.
pub open spec fn spec_contact_at<S: Scalar>(point: Vector<S>, center: Vector<S>, radius: S, contact: Vector<S>) -> Option<Contact<S>> {
    let radial = contact.spec_minus(center).spec_divided_by(radius);
    let delta = contact.spec_minus(point);
    let length = delta.spec_length();
    if spec_epsilon::<S>().spec_less_than(length) {
        Some(Contact { point: contact, orientation: radial.spec_cross(delta.spec_divided_by(length)).spec_sign() })
    } else {
        None
    }
}

/// The one-element sequence of `o`'s value, or the empty sequence.
pub open spec fn present<T>(o: Option<T>) -> Seq<T> {
    match o {
        Some(x) => seq![x],
        None => Seq::empty(),
    }
}

/// The tangent points of the circle `(center, radius)` seen from `point`, in order.
pub open spec fn spec_tangent_contacts<S: Scalar>(point: Vector<S>, center: Vector<S>, radius: S) -> Seq<Contact<S>> {
    let offset = point.spec_minus(center);
    let distance_squared = offset.spec_length_squared();
    let radius_squared = radius.spec_times(radius);
    if distance_squared.spec_at_most(radius_squared.spec_plus(spec_epsilon())) {
        Seq::empty()
    } else {
        let along = radius_squared.spec_divided_by(distance_squared);
        let across = radius.spec_times(distance_squared.spec_minus(radius_squared).spec_square_root()).spec_divided_by(
            distance_squared,
        );
        let base = center.spec_plus(offset.spec_scaled(along));
        let side = offset.spec_perpendicular().spec_scaled(across);
        present(spec_contact_at(point, center, radius, base.spec_plus(side))) + present(
            spec_contact_at(point, center, radius, base.spec_minus(side)),
        )
    }
}

fn contact_at<S: Scalar>(point: Vector<S>, center: Vector<S>, radius: S, contact: Vector<S>) -> (r: Option<Contact<S>>)
    ensures
        r == spec_contact_at(point, center, radius, contact),
{
    let radial = contact.minus(center).divided_by(radius);
    let delta = contact.minus(point);
    let length = delta.length();
    if epsilon::<S>().less_than(length) {
        Some(Contact { point: contact, orientation: cross(radial, delta.divided_by(length)).sign() })
    } else {
        None
    }
}

/// The tangent points of the circle `(center, radius)` seen from `point`,
/// with the orientation of the rope leaving `point` towards each of them.
fn tangent_contacts<S: Scalar>(point: Vector<S>, center: Vector<S>, radius: S) -> (r: Vec<Contact<S>>)
    ensures
        r@ == spec_tangent_contacts(point, center, radius),
        r@.len() <= 2,
{
    let offset = point.minus(center);
    let distance_squared = offset.length_squared();
    let radius_squared = radius.times(radius);
    if distance_squared.at_most(radius_squared.plus(epsilon())) {
        let r = Vec::new();
        assert(r@ =~= spec_tangent_contacts(point, center, radius));
        return r;
    }
    let along = radius_squared.divided_by(distance_squared);
    let across = radius.times(distance_squared.minus(radius_squared).square_root()).divided_by(
        distance_squared,
    );
    let base = center.plus(offset.scaled(along));
    let side = perpendicular(offset).scaled(across);
    let mut contacts: Vec<Contact<S>> = Vec::new();
    match contact_at(point, center, radius, base.plus(side)) {
        Some(c) => contacts.push(c),
        None => {},
    }
    match contact_at(point, center, radius, base.minus(side)) {
        Some(c) => contacts.push(c),
        None => {},
    }
    assert(contacts@ =~= spec_tangent_contacts(point, center, radius));
    contacts
}

/// The straight piece from `from` to `to`, unless the two points nearly coincide.
pub open spec fn spec_segment<S: Scalar>(from: Vector<S>, to: Vector<S>) -> Option<Segment<S>> {
    let delta = to.spec_minus(from);
    let length = delta.spec_length();
    if spec_epsilon::<S>().spec_less_than(length) {
        Some(Segment { from, to, length, direction: delta.spec_divided_by(length) })
    } else {
        None
    }
}

/// The straight piece from `from` to `to`, unless the two points nearly coincide.
pub fn segment<S: Scalar>(from: Vector<S>, to: Vector<S>) -> (r: Option<Segment<S>>)
    ensures
        r == spec_segment(from, to),
        r matches Some(s) ==> s.from == from && s.to == to,
{
    let delta = to.minus(from);
    let length = delta.length();
    if epsilon::<S>().less_than(length) {
        Some(Segment { from, to, length, direction: delta.divided_by(length) })
    } else {
        None
    }
}

/// Orders segments by length, then by the coordinates of their start.
pub open spec fn spec_compare_segments<S: Scalar>(left: Segment<S>, right: Segment<S>) -> TotalOrder {
    match left.length.spec_total_order(right.length) {
        TotalOrder::Equal => match left.from.x.spec_total_order(right.from.x) {
            TotalOrder::Equal => left.from.y.spec_total_order(right.from.y),
            other => other,
        },
        other => other,
    }
}

/// Orders segments by length, then by the coordinates of their start.
pub fn compare_segments<S: Scalar>(left: &Segment<S>, right: &Segment<S>) -> (r: TotalOrder)
    ensures
        r == spec_compare_segments(*left, *right),
{
    match left.length.total_order(right.length) {
        TotalOrder::Equal => match left.from.x.total_order(right.from.x) {
            TotalOrder::Equal => left.from.y.total_order(right.from.y),
            other => other,
        },
        other => other,
    }
}

/// The first of the smallest among the first `k` candidates.
pub open spec fn smallest_of<S: Scalar>(candidates: Seq<Segment<S>>, k: int) -> Segment<S>
    decreases k,
{
    if k <= 1 {
        candidates[0]
    } else {
        let best = smallest_of(candidates, k - 1);
        if spec_compare_segments(candidates[k - 1], best) == TotalOrder::Less {
            candidates[k - 1]
        } else {
            best
        }
    }
}

/// The first of the smallest candidates under [`compare_segments`], if there is one.
pub open spec fn spec_first_smallest<S: Scalar>(candidates: Seq<Segment<S>>) -> Option<Segment<S>> {
    if candidates.len() == 0 {
        None
    } else {
        Some(smallest_of(candidates, candidates.len() as int))
    }
}

/// The smallest of the first `k` candidates is one of them.
pub proof fn lemma_smallest_of_member<S: Scalar>(candidates: Seq<Segment<S>>, k: int)
    requires
        1 <= k <= candidates.len(),
    ensures
        candidates.contains(smallest_of(candidates, k)),
    decreases k,
{
    if k > 1 {
        lemma_smallest_of_member(candidates, k - 1);
        assert(candidates[k - 1] == candidates[k - 1]);
    } else {
        assert(candidates[0] == candidates[0]);
    }
}

/// The first of the smallest candidates under [`compare_segments`].
fn first_smallest<S: Scalar>(candidates: &Vec<Segment<S>>) -> (r: Option<Segment<S>>)
    ensures
        r == spec_first_smallest(candidates@),
        candidates@.len() == 0 <==> r is None,
        r matches Some(s) ==> candidates@.contains(s),
{
    if candidates.len() == 0 {
        return None;
    }
    let mut best = candidates[0];
    let mut k: usize = 1;
    while k < candidates.len()
        invariant
            1 <= k <= candidates@.len(),
            best == smallest_of(candidates@, k as int),
        decreases candidates@.len() - k,
    {
        if compare_segments(&candidates[k], &best) == TotalOrder::Less {
            best = candidates[k];
        }
        k = k + 1;
    }
    proof {
        lemma_smallest_of_member(candidates@, candidates@.len() as int);
    }
    Some(best)
}

/// The sign of the cross product between the unit radius towards `point` and `direction`.
pub open spec fn spec_tangent_orientation<S: Scalar>(direction: Vector<S>, point: Vector<S>, center: Vector<S>) -> i8 {
    let offset = point.spec_minus(center);
    let length = offset.spec_length();
    if length.spec_at_most(spec_epsilon()) {
        0i8
    } else {
        offset.spec_divided_by(length).spec_cross(direction).spec_sign()
    }
}

/// The sign of the cross product between the unit radius towards `point` and `direction`.
pub fn tangent_orientation<S: Scalar>(direction: Vector<S>, point: Vector<S>, center: Vector<S>) -> (r: i8)
    ensures
        r == spec_tangent_orientation(direction, point, center),
{
    let offset = point.minus(center);
    let length = offset.length();
    if length.at_most(epsilon()) {
        return 0;
    }
    cross(offset.divided_by(length), direction).sign()
}

/// The segments from `point` to those of the first `k` contacts that have
/// orientation `expected`, in order.
pub open spec fn approach_candidates<S: Scalar>(point: Vector<S>, contacts: Seq<Contact<S>>, expected: i8, k: int) -> Seq<Segment<S>>
    decreases k,
{
    if k <= 0 {
        Seq::empty()
    } else {
        let earlier = approach_candidates(point, contacts, expected, k - 1);
        if contacts[k - 1].orientation == expected {
            earlier + present(spec_segment(point, contacts[k - 1].point))
        } else {
            earlier
        }
    }
}

/// The segment from `point` onto the wheel in the wheel's winding: the
/// shortest of the tangents with the winding's orientation.
pub open spec fn spec_point_to_wheel<S: Scalar>(point: Vector<S>, wheel: RoutedRopePulleyGeometry<S>) -> Option<Segment<S>> {
    let contacts = spec_tangent_contacts(point, wheel.center, wheel.radius);
    spec_first_smallest(approach_candidates(point, contacts, spec_orientation(wheel.winding), contacts.len() as int))
}

/// The segment from `point` onto the wheel, in the wheel's winding.
pub fn point_to_wheel<S: Scalar>(point: Vector<S>, wheel: &RoutedRopePulleyGeometry<S>) -> (r: Option<
    Segment<S>,
>)
    ensures
        r == spec_point_to_wheel(point, *wheel),
        r matches Some(s) ==> s.from == point,
{
    let expected = orientation(wheel.winding);
    let contacts = tangent_contacts(point, wheel.center, wheel.radius);
    let mut candidates: Vec<Segment<S>> = Vec::new();
    for k in 0..contacts.len()
        invariant
            contacts@ == spec_tangent_contacts(point, wheel.center, wheel.radius),
            expected == spec_orientation(wheel.winding),
            candidates@ == approach_candidates(point, contacts@, expected, k as int),
            forall|j: int| 0 <= j < candidates@.len() ==> (#[trigger] candidates@[j]).from == point,
    {
        if contacts[k].orientation == expected {
            let found = segment(point, contacts[k].point);
            let ghost before = candidates@;
            if let Some(s) = found {
                candidates.push(s);
            }
            assert(candidates@ =~= before + present(found));
        }
    }
    let r = first_smallest(&candidates);
    proof {
        if let Some(s) = r {
            let j = candidates@.index_of(s);
            assert(candidates@[j] == s);
        }
    }
    r
}

/// The segments from those of the first `k` contacts to `point` that leave
/// the wheel `(center, expected)` in its orientation, in order.
pub open spec fn departure_candidates<S: Scalar>(point: Vector<S>, center: Vector<S>, contacts: Seq<Contact<S>>, expected: i8, k: int) -> Seq<
    Segment<S>,
>
    decreases k,
{
    if k <= 0 {
        Seq::empty()
    } else {
        let earlier = departure_candidates(point, center, contacts, expected, k - 1);
        match spec_segment(contacts[k - 1].point, point) {
            Some(s) => if spec_tangent_orientation(s.direction, s.from, center) == expected {
                earlier.push(s)
            } else {
                earlier
            },
            None => earlier,
        }
    }
}

/// The segment leaving the wheel in its winding and ending at `point`: the
/// shortest of the tangents that leave it with the winding's orientation.
pub open spec fn spec_wheel_to_point<S: Scalar>(wheel: RoutedRopePulleyGeometry<S>, point: Vector<S>) -> Option<Segment<S>> {
    let contacts = spec_tangent_contacts(point, wheel.center, wheel.radius);
    spec_first_smallest(
        departure_candidates(point, wheel.center, contacts, spec_orientation(wheel.winding), contacts.len() as int),
    )
}

/// The segment leaving the wheel in its winding and ending at `point`.
pub fn wheel_to_point<S: Scalar>(wheel: &RoutedRopePulleyGeometry<S>, point: Vector<S>) -> (r: Option<
    Segment<S>,
>)
    ensures
        r == spec_wheel_to_point(*wheel, point),
        r matches Some(s) ==> s.to == point,
{
    let expected = orientation(wheel.winding);
    let contacts = tangent_contacts(point, wheel.center, wheel.radius);
    let mut candidates: Vec<Segment<S>> = Vec::new();
    for k in 0..contacts.len()
        invariant
            contacts@ == spec_tangent_contacts(point, wheel.center, wheel.radius),
            expected == spec_orientation(wheel.winding),
            candidates@ == departure_candidates(point, wheel.center, contacts@, expected, k as int),
            forall|j: int| 0 <= j < candidates@.len() ==> (#[trigger] candidates@[j]).to == point,
    {
        if let Some(s) = segment(contacts[k].point, point) {
            if tangent_orientation(s.direction, s.from, wheel.center) == expected {
                candidates.push(s);
            }
        }
    }
    let r = first_smallest(&candidates);
    proof {
        if let Some(s) = r {
            let j = candidates@.index_of(s);
            assert(candidates@[j] == s);
        }
    }
    r
}

/// The common tangent of two wheels for one choice of the second radius's
/// sign (`outer`: same sign) and of the side (`turn`), when it exists, is
/// long enough and leaves and reaches each wheel in its winding.
pub open spec fn spec_common_tangent<S: Scalar>(
    first: RoutedRopePulleyGeometry<S>,
    second: RoutedRopePulleyGeometry<S>,
    outer: bool,
    turn: bool,
) -> Option<Segment<S>> {
    let delta = second.center.spec_minus(first.center);
    let distance_squared = delta.spec_length_squared();
    let signed_second = if outer {
        second.radius
    } else {
        second.radius.spec_negated()
    };
    let radius_delta = first.radius.spec_minus(signed_second);
    let height_squared = distance_squared.spec_minus(radius_delta.spec_times(radius_delta));
    if height_squared.spec_at_most(spec_epsilon()) {
        None
    } else {
        let height = height_squared.spec_square_root();
        let signed_height = if turn {
            height
        } else {
            height.spec_negated()
        };
        let normal = delta.spec_scaled(radius_delta).spec_plus(delta.spec_perpendicular().spec_scaled(signed_height)).spec_divided_by(
            distance_squared,
        );
        match spec_segment(
            first.center.spec_plus(normal.spec_scaled(first.radius)),
            second.center.spec_plus(normal.spec_scaled(signed_second)),
        ) {
            Some(candidate) => if spec_tangent_orientation(candidate.direction, candidate.from, first.center)
                == spec_orientation(first.winding) && spec_tangent_orientation(
                candidate.direction,
                candidate.to,
                second.center,
            ) == spec_orientation(second.winding) {
                Some(candidate)
            } else {
                None
            },
            None => None,
        }
    }
}

/// The common tangent leaving `first` and reaching `second`, each in its
/// winding: the shortest of the outer tangents (first side, then second) and
/// the inner tangents.
pub open spec fn spec_wheel_to_wheel<S: Scalar>(first: RoutedRopePulleyGeometry<S>, second: RoutedRopePulleyGeometry<S>) -> Option<Segment<S>> {
    spec_first_smallest(
        present(spec_common_tangent(first, second, true, true)) + present(spec_common_tangent(first, second, true, false))
            + present(spec_common_tangent(first, second, false, true)) + present(
            spec_common_tangent(first, second, false, false),
        ),
    )
}

fn common_tangent<S: Scalar>(
    first: &RoutedRopePulleyGeometry<S>,
    second: &RoutedRopePulleyGeometry<S>,
    outer: bool,
    turn: bool,
) -> (r: Option<Segment<S>>)
    ensures
        r == spec_common_tangent(*first, *second, outer, turn),
{
    let delta = second.center.minus(first.center);
    let distance_squared = delta.length_squared();
    let signed_second = if outer {
        second.radius
    } else {
        second.radius.negated()
    };
    let radius_delta = first.radius.minus(signed_second);
    let height_squared = distance_squared.minus(radius_delta.times(radius_delta));
    if height_squared.at_most(epsilon()) {
        return None;
    }
    let height = height_squared.square_root();
    let signed_height = if turn {
        height
    } else {
        height.negated()
    };
    let normal = delta.scaled(radius_delta).plus(perpendicular(delta).scaled(signed_height)).divided_by(
        distance_squared,
    );
    match segment(first.center.plus(normal.scaled(first.radius)), second.center.plus(normal.scaled(signed_second))) {
        Some(candidate) => {
            if tangent_orientation(candidate.direction, candidate.from, first.center) == orientation(first.winding)
                && tangent_orientation(candidate.direction, candidate.to, second.center) == orientation(
                second.winding,
            ) {
                Some(candidate)
            } else {
                None
            }
        },
        None => None,
    }
}

/// The common tangent leaving `first` and reaching `second`, each in its winding.
pub fn wheel_to_wheel<S: Scalar>(
    first: &RoutedRopePulleyGeometry<S>,
    second: &RoutedRopePulleyGeometry<S>,
) -> (r: Option<Segment<S>>)
    ensures
        r == spec_wheel_to_wheel(*first, *second),
{
    let mut candidates: Vec<Segment<S>> = Vec::new();
    // Outer tangents first (same-signed radii), then inner tangents.
    let a = common_tangent(first, second, true, true);
    let b = common_tangent(first, second, true, false);
    let c = common_tangent(first, second, false, true);
    let d = common_tangent(first, second, false, false);
    if let Some(s) = a {
        candidates.push(s);
    }
    if let Some(s) = b {
        candidates.push(s);
    }
    if let Some(s) = c {
        candidates.push(s);
    }
    if let Some(s) = d {
        candidates.push(s);
    }
    assert(candidates@ =~= present(a) + present(b) + present(c) + present(d));
    first_smallest(&candidates)
}

/// Whether the `segment`-th straight piece of a route ends or starts on wheel `wheel`.
pub open spec fn wraps(segment: int, wheel: int) -> bool {
    wheel + 1 == segment || wheel == segment
}

/// Whether `candidate` passes further than the rim tolerance from `wheel`.
pub open spec fn passes_clear<S: Scalar>(candidate: Segment<S>, wheel: RoutedRopePulleyGeometry<S>) -> bool {
    let delta = candidate.to.spec_minus(candidate.from);
    let denominator = delta.spec_length_squared();
    let projected = wheel.center.spec_minus(candidate.from).spec_dot(delta).spec_divided_by(denominator);
    let amount = projected.spec_clamped(S::ZERO, S::ONE);
    let gap = wheel.center.spec_minus(candidate.from.spec_plus(delta.spec_scaled(amount))).spec_length();
    wheel.radius.spec_plus(spec_epsilon()).spec_less_than(gap)
}

/// Whether the `index`-th segment of the route stays clear of every wheel it
/// does not wrap: wheels `index - 1` and `index` are its own.
pub fn segment_clear<S: Scalar>(
    candidate: &Segment<S>,
    wheels: &[RoutedRopePulleyGeometry<S>],
    index: usize,
) -> (r: bool)
    ensures
        r == forall|w: int| 0 <= w < wheels@.len() ==> #[trigger] wraps(index as int, w) || passes_clear(*candidate, wheels@[w]),
        (forall|w: int| 0 <= w < wheels@.len() ==> #[trigger] wraps(index as int, w)) ==> r,
{
    let delta = candidate.to.minus(candidate.from);
    let denominator = delta.length_squared();
    let mut w: usize = 0;
    while w < wheels.len()
        invariant
            w <= wheels@.len(),
            delta == candidate.to.spec_minus(candidate.from),
            denominator == delta.spec_length_squared(),
            forall|v: int| 0 <= v < w ==> #[trigger] wraps(index as int, v) || passes_clear(*candidate, wheels@[v]),
        decreases wheels@.len() - w,
    {
        if w + 1 != index && w != index {
            assert(!wraps(index as int, w as int));
            let wheel = &wheels[w];
            let projected = wheel.center.minus(candidate.from).dot(delta).divided_by(denominator);
            let amount = projected.clamped(S::ZERO, S::ONE);
            let gap = wheel.center.minus(candidate.from.plus(delta.scaled(amount))).length();
            if !wheel.radius.plus(epsilon()).less_than(gap) {
                assert(!passes_clear(*candidate, wheels@[w as int]));
                return false;
            }
        }
        w = w + 1;
    }
    true
}

/// Whether a wheel's center is finite and its radius finite and positive.
pub open spec fn wheel_valid<S: Scalar>(wheel: RoutedRopePulleyGeometry<S>) -> bool {
    wheel.center.spec_is_finite() && wheel.radius.spec_is_finite() && !wheel.radius.spec_at_most(S::ZERO)
}

/// Whether both endpoints are finite and every wheel is valid.
pub open spec fn coordinates_valid<S: Scalar>(a: Vector<S>, b: Vector<S>, wheels: Seq<RoutedRopePulleyGeometry<S>>) -> bool {
    &&& a.spec_is_finite()
    &&& b.spec_is_finite()
    &&& forall|w: int| 0 <= w < wheels.len() ==> #[trigger] wheel_valid(wheels[w])
}

/// Whether the rims of two wheels overlap or touch, within the tolerance.
pub open spec fn rims_overlap<S: Scalar>(first: RoutedRopePulleyGeometry<S>, second: RoutedRopePulleyGeometry<S>) -> bool {
    first.center.spec_minus(second.center).spec_length().spec_at_most(
        first.radius.spec_plus(second.radius).spec_plus(spec_epsilon()),
    )
}

/// Whether any two wheels of the route have overlapping rims.
pub open spec fn some_rims_overlap<S: Scalar>(wheels: Seq<RoutedRopePulleyGeometry<S>>) -> bool {
    exists|i: int, j: int| 0 <= i < j < wheels.len() && #[trigger] rims_overlap(wheels[i], wheels[j])
}

/// The `k`-th straight segment of the route, if its tangent exists: from
/// endpoint A to the first wheel, between consecutive wheels, and from the
/// last wheel to endpoint B.
pub open spec fn route_segment<S: Scalar>(a: Vector<S>, b: Vector<S>, wheels: Seq<RoutedRopePulleyGeometry<S>>, k: int) -> Option<
    Segment<S>,
> {
    let n = wheels.len() as int;
    if k == 0 {
        spec_point_to_wheel(a, wheels[0])
    } else if k == n {
        spec_wheel_to_point(wheels[n - 1], b)
    } else {
        spec_wheel_to_wheel(wheels[k - 1], wheels[k])
    }
}

/// Whether every segment of the route has its tangent.
pub open spec fn tangents_exist<S: Scalar>(a: Vector<S>, b: Vector<S>, wheels: Seq<RoutedRopePulleyGeometry<S>>) -> bool {
    forall|k: int| 0 <= k <= wheels.len() ==> #[trigger] route_segment(a, b, wheels, k) is Some
}

/// The straight segments of the route, in order.
pub open spec fn route_segments<S: Scalar>(a: Vector<S>, b: Vector<S>, wheels: Seq<RoutedRopePulleyGeometry<S>>) -> Seq<Segment<S>> {
    Seq::new((wheels.len() + 1) as nat, |k: int| route_segment(a, b, wheels, k)->0)
}

/// Whether the `k`-th segment keeps clear of every wheel it does not wrap.
pub open spec fn segment_is_clear<S: Scalar>(candidate: Segment<S>, wheels: Seq<RoutedRopePulleyGeometry<S>>, k: int) -> bool {
    forall|w: int| 0 <= w < wheels.len() ==> #[trigger] wraps(k, w) || passes_clear(candidate, wheels[w])
}

/// Whether every segment keeps clear of the wheels it does not wrap.
pub open spec fn route_clear<S: Scalar>(segments: Seq<Segment<S>>, wheels: Seq<RoutedRopePulleyGeometry<S>>) -> bool {
    forall|k: int| 0 <= k < segments.len() ==> #[trigger] segment_is_clear(segments[k], wheels, k)
}

/// The signed angle the rope wraps around `wheel`, from where `arriving`
/// touches it to where `leaving` leaves it, in the wheel's winding direction.
pub open spec fn wrap_sweep<S: Scalar>(wheel: RoutedRopePulleyGeometry<S>, arriving: Segment<S>, leaving: Segment<S>) -> S {
    let from = arriving.to.spec_minus(wheel.center);
    let to = leaving.from.spec_minus(wheel.center);
    let from_angle = from.y.spec_arc_tangent2(from.x);
    let to_angle = to.y.spec_arc_tangent2(to.x);
    match wheel.winding {
        RoutedRopeWinding::Counterclockwise => spec_positive_angle(to_angle.spec_minus(from_angle)),
        RoutedRopeWinding::Clockwise => spec_positive_angle(from_angle.spec_minus(to_angle)).spec_negated(),
    }
}

/// The wrapped arc lengths `|sweep| * radius` of the first `w` wheels, summed in order.
pub open spec fn arc_sum<S: Scalar>(segments: Seq<Segment<S>>, wheels: Seq<RoutedRopePulleyGeometry<S>>, w: int) -> S
    decreases w,
{
    if w <= 0 {
        S::ZERO
    } else {
        arc_sum(segments, wheels, w - 1).spec_plus(
            wrap_sweep(wheels[w - 1], segments[w - 1], segments[w]).spec_absolute().spec_times(wheels[w - 1].radius),
        )
    }
}

/// The lengths of the first `k` segments, summed in order.
pub open spec fn straight_sum<S: Scalar>(segments: Seq<Segment<S>>, k: int) -> S
    decreases k,
{
    if k <= 0 {
        S::ZERO
    } else {
        straight_sum(segments, k - 1).spec_plus(segments[k - 1].length)
    }
}

/// The length gradients: endpoint A, endpoint B, then every wheel center,
/// the difference of the directions of the segments arriving and leaving.
pub open spec fn route_gradients<S: Scalar>(segments: Seq<Segment<S>>, n: int) -> Seq<Vector<S>> {
    seq![segments[0].direction.spec_negated(), segments[n].direction] + Seq::new(
        n as nat,
        |w: int| segments[w].direction.spec_minus(segments[w + 1].direction),
    )
}

/// The route from `a` over `wheels` to `b`: its total length and gradients,
/// or the first check it fails.
pub open spec fn spec_resolve_route<S: Scalar>(a: Vector<S>, b: Vector<S>, wheels: Seq<RoutedRopePulleyGeometry<S>>) -> Result<
    (S, Seq<Vector<S>>),
    RoutedRopeStatus,
> {
    let n = wheels.len() as int;
    if !coordinates_valid(a, b, wheels) {
        Err(RoutedRopeStatus::InvalidCoordinates)
    } else if n == 0 {
        Err(RoutedRopeStatus::NoPulleys)
    } else if some_rims_overlap(wheels) {
        Err(RoutedRopeStatus::PulleyOverlap)
    } else if !tangents_exist(a, b, wheels) {
        Err(RoutedRopeStatus::TangentUnavailable)
    } else if !route_clear(route_segments(a, b, wheels), wheels) {
        Err(RoutedRopeStatus::SegmentObstructed)
    } else {
        let segments = route_segments(a, b, wheels);
        Ok((straight_sum(segments, n + 1).spec_plus(arc_sum(segments, wheels, n)), route_gradients(segments, n)))
    }
}

/// A resolved route as its total length and gradients, or its failure.
pub open spec fn route_outcome<S>(r: Result<RoutedRopeRoute<S>, RoutedRopeStatus>) -> Result<(S, Seq<Vector<S>>), RoutedRopeStatus> {
    match r {
        Ok(route) => Ok((route.total_length, route.gradients@)),
        Err(status) => Err(status),
    }
}

/// Resolves the route from `endpoint_a` over `wheels`, in order, to `endpoint_b`.
///
/// Checks, in this order: that every coordinate is finite and every radius
/// positive, that there is a wheel, that no two rims overlap or touch, that
/// every tangent exists, and that no straight segment crosses a wheel it
/// does not wrap.
pub fn resolve_route<S: Scalar>(
    endpoint_a: Vector<S>,
    endpoint_b: Vector<S>,
    wheels: &[RoutedRopePulleyGeometry<S>],
) -> (r: Result<RoutedRopeRoute<S>, RoutedRopeStatus>)
    ensures
        route_outcome(r) == spec_resolve_route(endpoint_a, endpoint_b, wheels@),
        r matches Ok(route) ==> wheels@.len() >= 1 && route.gradients@.len() == wheels@.len() + 2,
        r matches Err(s) ==> is_route_failure(s),
{
    let n = wheels.len();
    let mut valid = endpoint_a.is_finite() && endpoint_b.is_finite();
    let mut w: usize = 0;
    while w < n
        invariant
            n == wheels@.len(),
            w <= n,
            valid == (endpoint_a.spec_is_finite() && endpoint_b.spec_is_finite() && forall|v: int|
                0 <= v < w ==> #[trigger] wheel_valid(wheels@[v])),
        decreases n - w,
    {
        let wheel = &wheels[w];
        if !wheel.center.is_finite() || !wheel.radius.is_finite() || wheel.radius.at_most(S::ZERO) {
            valid = false;
        }
        proof {
            assert(*wheel == wheels@[w as int]);
            if valid {
                assert forall|v: int| 0 <= v < w + 1 implies #[trigger] wheel_valid(wheels@[v]) by {
                    if v == w {
                    }
                }
            } else {
                assert(!(forall|v: int| 0 <= v < w + 1 ==> #[trigger] wheel_valid(wheels@[v])) || !(
                endpoint_a.spec_is_finite() && endpoint_b.spec_is_finite())) by {
                    if endpoint_a.spec_is_finite() && endpoint_b.spec_is_finite() && forall|v: int|
                        0 <= v < w ==> #[trigger] wheel_valid(wheels@[v]) {
                        assert(!wheel_valid(wheels@[w as int]));
                    } else if endpoint_a.spec_is_finite() && endpoint_b.spec_is_finite() {
                        let v = choose|v: int| 0 <= v < w && !#[trigger] wheel_valid(wheels@[v]);
                        assert(!wheel_valid(wheels@[v]));
                    }
                }
            }
        }
        w = w + 1;
    }
    if !valid {
        return Err(RoutedRopeStatus::InvalidCoordinates);
    }
    if n == 0 {
        return Err(RoutedRopeStatus::NoPulleys);
    }
    let ghost ws = wheels@;
    let mut left: usize = 0;
    while left < n
        invariant
            n == wheels@.len(),
            ws == wheels@,
            coordinates_valid(endpoint_a, endpoint_b, ws),
            n > 0,
            left <= n,
            forall|i: int, j: int| 0 <= i < left && i < j < n ==> !#[trigger] rims_overlap(ws[i], ws[j]),
        decreases n - left,
    {
        let mut right: usize = left + 1;
        while right < n
            invariant
                n == wheels@.len(),
                ws == wheels@,
                coordinates_valid(endpoint_a, endpoint_b, ws),
                n > 0,
                left < n,
                left < right <= n,
                forall|i: int, j: int| 0 <= i < left && i < j < n ==> !#[trigger] rims_overlap(ws[i], ws[j]),
                forall|j: int| left < j < right ==> !#[trigger] rims_overlap(ws[left as int], ws[j]),
            decreases n - right,
        {
            let gap = wheels[left].center.minus(wheels[right].center).length();
            if gap.at_most(wheels[left].radius.plus(wheels[right].radius).plus(epsilon())) {
                assert(rims_overlap(ws[left as int], ws[right as int]));
                return Err(RoutedRopeStatus::PulleyOverlap);
            }
            right = right + 1;
        }
        left = left + 1;
    }
    assert(!some_rims_overlap(ws));

    let mut segments: Vec<Segment<S>> = Vec::new();
    match point_to_wheel(endpoint_a, &wheels[0]) {
        Some(s) => segments.push(s),
        None => {
            assert(route_segment(endpoint_a, endpoint_b, ws, 0) is None);
            return Err(RoutedRopeStatus::TangentUnavailable);
        },
    }
    let mut index: usize = 0;
    while index + 1 < n
        invariant
            n == wheels@.len(),
            ws == wheels@,
            coordinates_valid(endpoint_a, endpoint_b, ws),
            !some_rims_overlap(ws),
            n >= 1,
            index + 1 <= n,
            segments@.len() == index + 1,
            forall|k: int| 0 <= k <= index ==> #[trigger] route_segment(endpoint_a, endpoint_b, ws, k) is Some,
            forall|k: int| 0 <= k <= index ==> segments@[k] == #[trigger] route_segment(endpoint_a, endpoint_b, ws, k)->0,
        decreases n - index,
    {
        match wheel_to_wheel(&wheels[index], &wheels[index + 1]) {
            Some(s) => segments.push(s),
            None => {
                assert(route_segment(endpoint_a, endpoint_b, ws, index + 1) is None);
                return Err(RoutedRopeStatus::TangentUnavailable);
            },
        }
        index = index + 1;
    }
    match wheel_to_point(&wheels[n - 1], endpoint_b) {
        Some(s) => segments.push(s),
        None => {
            assert(route_segment(endpoint_a, endpoint_b, ws, n as int) is None);
            return Err(RoutedRopeStatus::TangentUnavailable);
        },
    }
    assert(segments@.len() == n + 1);
    assert(tangents_exist(endpoint_a, endpoint_b, ws));
    assert(segments@ =~= route_segments(endpoint_a, endpoint_b, ws));

    let mut k: usize = 0;
    while k < segments.len()
        invariant
            segments@.len() == n + 1,
            n == wheels@.len(),
            ws == wheels@,
            coordinates_valid(endpoint_a, endpoint_b, ws),
            !some_rims_overlap(ws),
            tangents_exist(endpoint_a, endpoint_b, ws),
            segments@ == route_segments(endpoint_a, endpoint_b, ws),
            k <= segments@.len(),
            forall|j: int| 0 <= j < k ==> #[trigger] segment_is_clear(segments@[j], ws, j),
        decreases segments@.len() - k,
    {
        if !segment_clear(&segments[k], wheels, k) {
            assert(!segment_is_clear(segments@[k as int], ws, k as int));
            return Err(RoutedRopeStatus::SegmentObstructed);
        }
        k = k + 1;
    }
    assert(route_clear(segments@, ws));

    let mut arc_length = S::ZERO;
    let mut w: usize = 0;
    while w < n
        invariant
            segments@.len() == n + 1,
            n == wheels@.len(),
            ws == wheels@,
            w <= n,
            arc_length == arc_sum(segments@, ws, w as int),
        decreases n - w,
    {
        let wheel = &wheels[w];
        let from = segments[w].to.minus(wheel.center);
        let to = segments[w + 1].from.minus(wheel.center);
        let from_angle = from.y.arc_tangent2(from.x);
        let to_angle = to.y.arc_tangent2(to.x);
        let sweep = match wheel.winding {
            RoutedRopeWinding::Counterclockwise => positive_angle(to_angle.minus(from_angle)),
            RoutedRopeWinding::Clockwise => positive_angle(from_angle.minus(to_angle)).negated(),
        };
        arc_length = arc_length.plus(sweep.absolute().times(wheel.radius));
        w = w + 1;
    }
    let mut straight_length = S::ZERO;
    let mut k: usize = 0;
    while k < segments.len()
        invariant
            k <= segments@.len(),
            straight_length == straight_sum(segments@, k as int),
        decreases segments@.len() - k,
    {
        straight_length = straight_length.plus(segments[k].length);
        k = k + 1;
    }
    let total_length = straight_length.plus(arc_length);
    let mut gradients: Vec<Vector<S>> = Vec::new();
    gradients.push(segments[0].direction.negated());
    gradients.push(segments[n].direction);
    assert(gradients@ =~= seq![segments@[0].direction.spec_negated(), segments@[n as int].direction] + Seq::new(
        0,
        |v: int| segments@[v].direction.spec_minus(segments@[v + 1].direction),
    ));
    let mut w: usize = 0;
    while w < n
        invariant
            segments@.len() == n + 1,
            n == wheels@.len(),
            w <= n,
            gradients@ == seq![segments@[0].direction.spec_negated(), segments@[n as int].direction] + Seq::new(
                w as nat,
                |v: int| segments@[v].direction.spec_minus(segments@[v + 1].direction),
            ),
        decreases n - w,
    {
        gradients.push(segments[w].direction.minus(segments[w + 1].direction));
        assert(gradients@ =~= seq![segments@[0].direction.spec_negated(), segments@[n as int].direction] + Seq::new(
            (w + 1) as nat,
            |v: int| segments@[v].direction.spec_minus(segments@[v + 1].direction),
        ));
        w = w + 1;
    }
    assert(gradients@ =~= route_gradients(segments@, n as int));
    Ok(RoutedRopeRoute { total_length, gradients })
}

} // verus!
