//! Contacts between an analytic profile and a ball or a box.
use vstd::prelude::*;

use crate::body::Pose;
use crate::contact::Contact;
use crate::profile::{
    angle_on_sweep, circle_point, spec_angle_on_sweep, spec_circle_point, spec_closest_boundary, AnalyticProfile,
    ProfileMode, ProfileSegment,
};
use crate::profile_interior::spec_contains;
use crate::scalar::{Scalar, TotalOrder, Vector};
use crate::segment_pair::{closest_line_line, closest_on_line, kept, spec_closest_line_line, spec_closest_on_line};

verus! {

/// A ball centred on its frame's origin.
#[derive(Clone, Copy, Debug)]
pub struct Ball<S> {
    pub radius: S,
}

/// A box centred on its frame's origin.
#[derive(Clone, Copy, Debug)]
pub struct Cuboid<S> {
    pub half_extents: Vector<S>,
}

fn query_epsilon<S: Scalar>() -> (r: S)
    ensures
        r == spec_query_epsilon::<S>(),
{
    S::from_decimal(1, -5)
}

fn distance_epsilon<S: Scalar>() -> (r: S)
    ensures
        r == spec_distance_epsilon::<S>(),
{
    S::from_decimal(1, -7)
}

/// `value` made unit length, or `fallback` made unit length (zero if it cannot be).
fn normalized_or_zero<S: Scalar>(value: Vector<S>, fallback: Vector<S>) -> (r: Vector<S>)
    ensures
        r == spec_normalized_or_zero(value, fallback),
{
    if query_epsilon::<S>().less_than(value.length()) {
        value.normalized()
    } else {
        fallback.normalized_or_zero()
    }
}

/// `value` made unit length, or `fallback` as it is.
fn normalized_or<S: Scalar>(value: Vector<S>, fallback: Vector<S>) -> (r: Vector<S>)
    ensures
        r == spec_normalized_or(value, fallback),
{
    if distance_epsilon::<S>().less_than(value.length()) {
        value.normalized()
    } else {
        fallback
    }
}

/// The contact between a profile and a ball placed by `profile_to_ball`.
pub fn profile_ball_contact<S: Scalar>(profile: &AnalyticProfile<S>, profile_to_ball: &Pose<S>, ball: &Ball<S>) -> (r: Contact<S>)
    ensures
        r == spec_profile_ball_contact(*profile, *profile_to_ball, *ball),
{
    let center = profile_to_ball.translation;
    let boundary = profile.closest_boundary(&center);
    let offset = center.minus(boundary.point);
    let distance = offset.length();
    let (normal, gap, point1) = if profile.mode() == ProfileMode::Solid {
        let inside = profile.contains_interior(&center);
        let direction = normalized_or_zero(
            if inside {
                offset.negated()
            } else {
                offset
            },
            profile.outward_normal(boundary),
        );
        let signed_distance = if inside {
            distance.negated()
        } else {
            distance
        };
        (direction, signed_distance.minus(ball.radius), boundary.point)
    } else {
        let direction = normalized_or_zero(offset, profile.outward_normal(boundary));
        (
            direction,
            distance.minus(profile.half_thickness()).minus(ball.radius),
            boundary.point.plus(direction.scaled(profile.half_thickness())),
        )
    };
    let normal2 = profile_to_ball.rotation.inverse().apply(normal.negated());
    let point2 = normal2.scaled(ball.radius);
    Contact::new(point1, point2, normal, normal2, gap)
}

/// The contact between a profile and a box placed by `profile_to_box`.
pub fn profile_box_contact<S: Scalar>(profile: &AnalyticProfile<S>, profile_to_box: &Pose<S>, cuboid: &Cuboid<S>) -> (r: Contact<
    S,
>)
    ensures
        r == spec_profile_box_contact(*profile, *profile_to_box, *cuboid),
{
    if profile.mode() == ProfileMode::Solid {
        match solid_profile_box_contact(profile, profile_to_box, cuboid) {
            Some(contact) => {
                return contact;
            },
            None => {},
        }
    }
    let pair = closest_profile_box_pair(profile, profile_to_box, cuboid);
    let offset = pair.other.minus(pair.profile);
    let distance = offset.length();
    let normal1 = normalized_or_zero(offset, pair.fallback_normal);
    let surface_offset = if profile.mode() == ProfileMode::Outline {
        profile.half_thickness()
    } else {
        S::ZERO
    };
    let gap = distance.minus(surface_offset);
    let point1 = pair.profile.plus(normal1.scaled(surface_offset));
    let point2 = profile_to_box.inverse_transform_point(pair.other);
    let normal2 = profile_to_box.rotation.inverse().apply(normal1.negated());
    Contact::new(point1, point2, normal1, normal2, gap)
}

/// A point on a profile, one on a box, and the normal to use if they coincide.
#[derive(Clone, Copy, Debug)]
pub struct ClosestPair<S> {
    pub profile: Vector<S>,
    pub other: Vector<S>,
    pub fallback_normal: Vector<S>,
}

impl<S: Scalar> ClosestPair<S> {
    pub open spec fn spec_distance_squared(self) -> S {
        self.other.spec_minus(self.profile).spec_length_squared()
    }

    #[verifier::when_used_as_spec(spec_distance_squared)]
    pub fn distance_squared(self) -> (r: S)
        ensures
            r == self.spec_distance_squared(),
    {
        self.other.minus(self.profile).length_squared()
    }
}

/// The corners of the box placed by `transform`, counterclockwise from the lowest.
pub fn box_corners<S: Scalar>(transform: &Pose<S>, cuboid: &Cuboid<S>) -> (r: [Vector<S>; 4])
    ensures
        r@ == spec_box_corners(*transform, *cuboid),
{
    let x = cuboid.half_extents.x;
    let y = cuboid.half_extents.y;
    let r = [
        transform.transform_point(Vector::new(x.negated(), y.negated())),
        transform.transform_point(Vector::new(x, y.negated())),
        transform.transform_point(Vector::new(x, y)),
        transform.transform_point(Vector::new(x.negated(), y)),
    ];
    assert(r@ =~= spec_box_corners(*transform, *cuboid));
    r
}

/// The closest points between a profile and the sides of a box: the first
/// strictly closest pair over the profile's segments, then the box's sides.
pub fn closest_profile_box_pair<S: Scalar>(profile: &AnalyticProfile<S>, transform: &Pose<S>, cuboid: &Cuboid<S>) -> (r: ClosestPair<
    S,
>)
    ensures
        r == spec_closest_profile_box_pair(*profile, *transform, *cuboid),
{
    let corners = box_corners(transform, cuboid);
    let segments = profile.segments();
    let ghost candidates = side_candidates(segments@, corners@);
    let mut closest: Option<ClosestPair<S>> = None;
    let mut k: usize = 0;
    while k < segments.len()
        invariant
            k <= segments@.len(),
            candidates == side_candidates(segments@, corners@),
            closest == first_closest_pair(candidates, 4 * k),
        decreases segments@.len() - k,
    {
        let segment = segments[k];
        for index in 0..4
            invariant
                k < segments@.len(),
                segment == segments@[k as int],
                candidates == side_candidates(segments@, corners@),
                closest == first_closest_pair(candidates, 4 * k + index),
        {
            let start = corners[index];
            let end = corners[(index + 1) % 4];
            let tangent = end.minus(start);
            let inward = normalized_or(Vector::new(tangent.y.negated(), tangent.x), Vector::new(S::ZERO, S::ONE));
            let candidate = match segment {
                ProfileSegment::Line { start: first, end: second } => {
                    let pair = closest_line_line(first, second, start, end);
                    ClosestPair { profile: pair.first, other: pair.second, fallback_normal: inward }
                },
                ProfileSegment::Arc { center, radius, start_angle, sweep } => closest_arc_side(
                    center,
                    radius,
                    start_angle,
                    sweep,
                    start,
                    end,
                    inward,
                ),
            };
            let better = match closest {
                Some(current) => candidate.distance_squared().less_than(current.distance_squared()),
                None => true,
            };
            proof {
                let j = 4 * k + index;
                assert(j / 4 == k as int && j % 4 == index as int) by (nonlinear_arith)
                    requires
                        j == 4 * k + index,
                        0 <= index < 4,
                        k >= 0,
                ;
                assert(candidates[j] == side_candidate(segment, corners@, index as int));
            }
            if better {
                closest = Some(candidate);
            }
        }
        k = k + 1;
    }
    match closest {
        Some(pair) => pair,
        None => ClosestPair { profile: Vector::zero(), other: Vector::zero(), fallback_normal: Vector::new(S::ZERO, S::ONE) },
    }
}

/// The closest points between an arc and the segment `[line_start, line_end]`.
fn closest_arc_side<S: Scalar>(
    center: Vector<S>,
    radius: S,
    start_angle: S,
    sweep: S,
    line_start: Vector<S>,
    line_end: Vector<S>,
    fallback_normal: Vector<S>,
) -> (r: ClosestPair<S>)
    ensures
        r == spec_closest_arc_side(center, radius, start_angle, sweep, line_start, line_end, fallback_normal),
{
    let ghost ends_spec = arc_side_ends(center, radius, start_angle, sweep, line_start, line_end, fallback_normal);
    let mut candidates: Vec<ClosestPair<S>> = Vec::new();
    let ends = [start_angle, start_angle.plus(sweep)];
    assert(ends@ =~= seq![start_angle, start_angle.spec_plus(sweep)]);
    for k in 0..2
        invariant
            ends@ == seq![start_angle, start_angle.spec_plus(sweep)],
            ends_spec == arc_side_ends(center, radius, start_angle, sweep, line_start, line_end, fallback_normal),
            candidates@ == ends_spec.take(k as int),
    {
        let profile = circle_point(center, radius, ends[k]);
        candidates.push(ClosestPair { profile, other: closest_on_line(profile, line_start, line_end), fallback_normal });
        assert(candidates@ =~= ends_spec.take(k + 1));
    }
    let others = [line_start, line_end];
    assert(others@ =~= seq![line_start, line_end]);
    for k in 0..2
        invariant
            others@ == seq![line_start, line_end],
            ends_spec == arc_side_ends(center, radius, start_angle, sweep, line_start, line_end, fallback_normal),
            candidates@ == ends_spec.take(2 + k),
    {
        let other = others[k];
        let offset = other.minus(center);
        let angle = offset.y.arc_tangent2(offset.x);
        let selected = if angle_on_sweep(angle, start_angle, sweep) {
            angle
        } else if other.minus(circle_point(center, radius, start_angle)).length_squared().at_most(
            other.minus(circle_point(center, radius, start_angle.plus(sweep))).length_squared(),
        ) {
            start_angle
        } else {
            start_angle.plus(sweep)
        };
        candidates.push(ClosestPair { profile: circle_point(center, radius, selected), other, fallback_normal });
        assert(candidates@ =~= ends_spec.take(2 + k + 1));
    }
    assert(ends_spec.take(4) =~= ends_spec);
    add_arc_side_interior_candidates(
        &mut candidates,
        center,
        radius,
        start_angle,
        sweep,
        line_start,
        line_end,
        fallback_normal,
    );
    let ghost all = candidates@;
    assert(all == ends_spec + interior_candidates(
        center,
        radius,
        start_angle,
        sweep,
        line_start,
        line_end,
        fallback_normal,
        2,
    ));
    let mut best = candidates[0];
    let mut best_distance = best.distance_squared();
    let mut k: usize = 1;
    while k < candidates.len()
        invariant
            1 <= k <= candidates@.len(),
            all == candidates@,
            best == smallest_pair_of(all, k as int),
            best_distance == best.spec_distance_squared(),
        decreases candidates@.len() - k,
    {
        let distance = candidates[k].distance_squared();
        if distance.total_order(best_distance) == TotalOrder::Less {
            best = candidates[k];
            best_distance = distance;
        }
        k = k + 1;
    }
    best
}

/// Adds the arc points nearest to the segment's interior, where the radius
/// towards the segment is perpendicular to it.
fn add_arc_side_interior_candidates<S: Scalar>(
    candidates: &mut Vec<ClosestPair<S>>,
    center: Vector<S>,
    radius: S,
    start_angle: S,
    sweep: S,
    line_start: Vector<S>,
    line_end: Vector<S>,
    fallback_normal: Vector<S>,
)
    ensures
        final(candidates)@ == old(candidates)@ + interior_candidates(
            center,
            radius,
            start_angle,
            sweep,
            line_start,
            line_end,
            fallback_normal,
            2,
        ),
{
    let tangent = line_end.minus(line_start);
    let tangent_length = tangent.length();
    if tangent_length.at_most(distance_epsilon()) {
        assert(candidates@ =~= old(candidates)@ + Seq::<ClosestPair<S>>::empty());
        return;
    }
    let unit_tangent = tangent.divided_by(tangent_length);
    let line_normal = Vector::new(unit_tangent.y.negated(), unit_tangent.x);
    let projection = line_start.plus(unit_tangent.scaled(center.minus(line_start).dot(unit_tangent)));
    let projection_t = projection.minus(line_start).dot(unit_tangent);
    if projection_t.less_than(S::ZERO) || tangent_length.less_than(projection_t) {
        assert(candidates@ =~= old(candidates)@ + Seq::<ClosestPair<S>>::empty());
        return;
    }
    let signs = [S::ONE.negated(), S::ONE];
    assert(signs@ =~= seq![S::ONE.spec_negated(), S::ONE]);
    assert(candidates@ =~= old(candidates)@ + interior_candidates(
        center,
        radius,
        start_angle,
        sweep,
        line_start,
        line_end,
        fallback_normal,
        0,
    ));
    for k in 0..2
        invariant
            signs@ == seq![S::ONE.spec_negated(), S::ONE],
            line_normal == (Vector { x: unit_tangent.y.spec_negated(), y: unit_tangent.x }),
            unit_tangent == tangent.spec_divided_by(tangent_length),
            tangent == line_end.spec_minus(line_start),
            tangent_length == tangent.spec_length(),
            projection == line_start.spec_plus(unit_tangent.spec_scaled(center.spec_minus(line_start).spec_dot(unit_tangent))),
            projection_t == projection.spec_minus(line_start).spec_dot(unit_tangent),
            !tangent_length.spec_at_most(spec_distance_epsilon()),
            !projection_t.spec_less_than(S::ZERO),
            !tangent_length.spec_less_than(projection_t),
            candidates@ == old(candidates)@ + interior_candidates(
                center,
                radius,
                start_angle,
                sweep,
                line_start,
                line_end,
                fallback_normal,
                k as int,
            ),
    {
        let profile = center.plus(line_normal.scaled(radius).scaled(signs[k]));
        let angle = profile.y.minus(center.y).arc_tangent2(profile.x.minus(center.x));
        let ghost before = candidates@;
        if angle_on_sweep(angle, start_angle, sweep) {
            candidates.push(ClosestPair { profile, other: projection, fallback_normal });
        }
        assert(candidates@ =~= before + interior_candidate(
            center,
            radius,
            start_angle,
            sweep,
            line_normal,
            signs@[k as int],
            projection,
            fallback_normal,
        ));
        assert(candidates@ =~= old(candidates)@ + interior_candidates(
            center,
            radius,
            start_angle,
            sweep,
            line_start,
            line_end,
            fallback_normal,
            k + 1,
        ));
    }
}

/// How deep a point of one shape lies inside the other, with the matching
/// surface point and the normal pointing out of the box.
#[derive(Clone, Copy, Debug)]
pub struct Penetration<S> {
    pub point1: Vector<S>,
    pub point2: Vector<S>,
    pub normal1: Vector<S>,
    pub depth: S,
}

/// The penetrations between a solid profile and a box: box corners inside
/// the profile, then profile vertices and extreme arc points inside the box.
pub fn solid_profile_box_penetrations<S: Scalar>(profile: &AnalyticProfile<S>, profile_to_box: &Pose<S>, cuboid: &Cuboid<S>) -> (r: Vec<
    Penetration<S>,
>)
    ensures
        r@ == spec_solid_profile_box_penetrations(*profile, *profile_to_box, *cuboid),
{
    let mut candidates: Vec<Penetration<S>> = Vec::new();
    let corners = box_corners(profile_to_box, cuboid);
    for k in 0..4
        invariant
            candidates@ == corner_penetrations(*profile, corners@, k as int),
    {
        let corner = corners[k];
        let ghost before = candidates@;
        if profile.contains_interior(&corner) {
            let boundary = profile.closest_boundary(&corner);
            let offset = corner.minus(boundary.point);
            let depth = offset.length();
            if !depth.at_most(distance_epsilon()) {
                candidates.push(
                    Penetration { point1: boundary.point, point2: corner, normal1: offset.negated().divided_by(depth), depth },
                );
            }
        }
        assert(candidates@ =~= before + corner_penetration(*profile, corners@[k as int]));
    }
    let ghost corner_part = candidates@;
    let points = profile_box_candidates(profile, profile_to_box);
    let mut k: usize = 0;
    while k < points.len()
        invariant
            k <= points@.len(),
            corner_part == corner_penetrations(*profile, spec_box_corners(*profile_to_box, *cuboid), 4),
            points@ == spec_profile_box_candidates(*profile, *profile_to_box),
            candidates@ == corner_part + point_penetrations(points@, *profile_to_box, *cuboid, k as int),
        decreases points@.len() - k,
    {
        let point = points[k];
        let ghost before = candidates@;
        match project_inside_box(point, profile_to_box, cuboid) {
            Some((box_boundary, box_outward, depth)) => {
                candidates.push(Penetration { point1: point, point2: box_boundary, normal1: box_outward.negated(), depth });
            },
            None => {},
        }
        assert(candidates@ =~= corner_part + point_penetrations(points@, *profile_to_box, *cuboid, k + 1));
        k = k + 1;
    }
    candidates
}

/// The nearest side of the box to a point strictly inside it, with the
/// side's outward normal and the depth.
fn project_inside_box<S: Scalar>(point: Vector<S>, transform: &Pose<S>, cuboid: &Cuboid<S>) -> (r: Option<(Vector<S>, Vector<S>, S)>)
    ensures
        r == spec_project_inside_box(point, *transform, *cuboid),
{
    let local = transform.inverse_transform_point(point);
    let x_depth = cuboid.half_extents.x.minus(local.x.absolute());
    let y_depth = cuboid.half_extents.y.minus(local.y.absolute());
    if x_depth.at_most(distance_epsilon()) || y_depth.at_most(distance_epsilon()) {
        return None;
    }
    let (boundary_local, outward_local, depth) = if x_depth.less_than(y_depth) {
        let sign = if local.x.less_than(S::ZERO) {
            S::ONE.negated()
        } else {
            S::ONE
        };
        (Vector::new(sign.times(cuboid.half_extents.x), local.y), Vector::new(sign, S::ZERO), x_depth)
    } else {
        let sign = if local.y.less_than(S::ZERO) {
            S::ONE.negated()
        } else {
            S::ONE
        };
        (Vector::new(local.x, sign.times(cuboid.half_extents.y)), Vector::new(S::ZERO, sign), y_depth)
    };
    Some((transform.transform_point(boundary_local), transform.rotation.apply(outward_local), depth))
}

/// The profile's segment starts, and after each arc start the arc's points
/// furthest along the box's axes.
fn profile_box_candidates<S: Scalar>(profile: &AnalyticProfile<S>, transform: &Pose<S>) -> (r: Vec<Vector<S>>)
    ensures
        r@ == spec_profile_box_candidates(*profile, *transform),
{
    let x_axis = transform.rotation.apply(Vector::new(S::ONE, S::ZERO));
    let y_axis = transform.rotation.apply(Vector::new(S::ZERO, S::ONE));
    let directions = [x_axis, x_axis.negated(), y_axis, y_axis.negated()];
    assert(directions@ =~= box_directions(*transform));
    let segments = profile.segments();
    let mut points: Vec<Vector<S>> = Vec::new();
    let mut k: usize = 0;
    while k < segments.len()
        invariant
            k <= segments@.len(),
            directions@ == box_directions(*transform),
            segments@ == profile.spec_segments(),
            points@ == candidate_points(segments@, directions@, k as int),
        decreases segments@.len() - k,
    {
        let segment = segments[k];
        points.push(segment.start());
        let ghost base = points@;
        assert(base =~= base + arc_extremes(segment, directions@, 0));
        match segment {
            ProfileSegment::Arc { center, radius, start_angle, sweep } => {
                for d in 0..4
                    invariant
                        directions@ == box_directions(*transform),
                        segment == (ProfileSegment::Arc { center, radius, start_angle, sweep }),
                        points@ == base + arc_extremes(segment, directions@, d as int),
                {
                    let direction = directions[d];
                    let angle = direction.y.arc_tangent2(direction.x);
                    if angle_on_sweep(angle, start_angle, sweep) {
                        points.push(center.plus(direction.scaled(radius)));
                    }
                    assert(points@ =~= base + arc_extremes(segment, directions@, d + 1));
                }
            },
            ProfileSegment::Line { .. } => {
                assert(arc_extremes(segment, directions@, 4) =~= Seq::<Vector<S>>::empty()) by {
                    reveal_with_fuel(arc_extremes, 5);
                }
                assert(points@ =~= base + arc_extremes(segment, directions@, 4));
            },
        }
        k = k + 1;
    }
    points
}

/// Most contact points a profile keeps against a box.
pub const MAX_MANIFOLD_CONTACTS: usize = 4;

/// The average of the selected penetrations, as one contact, if there is any.
pub fn solid_profile_box_contact<S: Scalar>(profile: &AnalyticProfile<S>, profile_to_box: &Pose<S>, cuboid: &Cuboid<S>) -> (r: Option<
    Contact<S>,
>)
    ensures
        r == spec_solid_profile_box_contact(*profile, *profile_to_box, *cuboid),
{
    let candidates = selected_penetrations(profile, profile_to_box, cuboid);
    let count = S::from_usize(candidates.len());
    if count.equals(S::ZERO) {
        return None;
    }
    let mut combined = Penetration { point1: Vector::zero(), point2: Vector::zero(), normal1: Vector::zero(), depth: S::ZERO };
    let mut k: usize = 0;
    while k < candidates.len()
        invariant
            k <= candidates@.len(),
            count == S::spec_from_usize(candidates@.len() as usize),
            combined == averaged(candidates@, count, k as int),
        decreases candidates@.len() - k,
    {
        let candidate = candidates[k];
        combined = Penetration {
            point1: combined.point1.plus(candidate.point1.divided_by(count)),
            point2: combined.point2.plus(candidate.point2.divided_by(count)),
            normal1: combined.normal1.plus(candidate.normal1.divided_by(count)),
            depth: combined.depth.plus(candidate.depth.divided_by(count)),
        };
        k = k + 1;
    }
    Some(to_contact(combined, profile_to_box))
}

/// The selected penetrations as contacts: all of them when there are at most
/// [`MAX_MANIFOLD_CONTACTS`], else that many spread evenly from the first to the last.
pub fn solid_profile_box_manifold_contacts<S: Scalar>(
    profile: &AnalyticProfile<S>,
    profile_to_box: &Pose<S>,
    cuboid: &Cuboid<S>,
) -> (r: Vec<Contact<S>>)
    ensures
        r@.len() <= MAX_MANIFOLD_CONTACTS,
        r@ == manifold_penetrations(spec_selected_penetrations(*profile, *profile_to_box, *cuboid)).map_values(
            |p: Penetration<S>| spec_to_contact(p, *profile_to_box),
        ),
{
    let selected = selected_penetrations(profile, profile_to_box, cuboid);
    let ghost all = selected@;
    let chosen = if selected.len() <= MAX_MANIFOLD_CONTACTS {
        selected
    } else {
        evenly_spaced(&selected, MAX_MANIFOLD_CONTACTS)
    };
    assert(chosen@ =~= manifold_penetrations(all));
    let mut contacts: Vec<Contact<S>> = Vec::new();
    let mut k: usize = 0;
    while k < chosen.len()
        invariant
            chosen@.len() <= MAX_MANIFOLD_CONTACTS,
            k <= chosen@.len(),
            contacts@ == chosen@.take(k as int).map_values(|p: Penetration<S>| spec_to_contact(p, *profile_to_box)),
        decreases chosen@.len() - k,
    {
        contacts.push(to_contact(chosen[k], profile_to_box));
        assert(contacts@ =~= chosen@.take(k + 1).map_values(|p: Penetration<S>| spec_to_contact(p, *profile_to_box)));
        k = k + 1;
    }
    assert(chosen@.take(chosen@.len() as int) =~= chosen@);
    contacts
}

/// The penetrations of the deepest patch: within a small depth of the
/// deepest one (the last among equally deep) and facing its way, ordered
/// along the patch, without near duplicates.
fn selected_penetrations<S: Scalar>(profile: &AnalyticProfile<S>, profile_to_box: &Pose<S>, cuboid: &Cuboid<S>) -> (r: Vec<
    Penetration<S>,
>)
    ensures
        r@ == spec_selected_penetrations(*profile, *profile_to_box, *cuboid),
{
    let candidates = solid_profile_box_penetrations(profile, profile_to_box, cuboid);
    if candidates.len() == 0 {
        let r = Vec::new();
        assert(r@ =~= spec_selected_penetrations(*profile, *profile_to_box, *cuboid));
        return r;
    }
    let mut reference = candidates[0];
    let mut k: usize = 1;
    while k < candidates.len()
        invariant
            1 <= k <= candidates@.len(),
            reference == deepest_of(candidates@, k as int),
        decreases candidates@.len() - k,
    {
        if reference.depth.total_order(candidates[k].depth) != TotalOrder::Greater {
            reference = candidates[k];
        }
        k = k + 1;
    }
    let tangent = Vector::new(reference.normal1.y.negated(), reference.normal1.x);
    let depth_floor = reference.depth.minus(S::from_decimal(1, -5));
    let aligned = S::from_decimal(99, -2);
    let mut retained: Vec<Penetration<S>> = Vec::new();
    let mut k: usize = 0;
    while k < candidates.len()
        invariant
            k <= candidates@.len(),
            depth_floor == reference.depth.spec_minus(S::spec_from_decimal(1i64, -5i32)),
            aligned == S::spec_from_decimal(99i64, -2i32),
            retained@ == retained_of(candidates@, reference, k as int),
        decreases candidates@.len() - k,
    {
        let item = candidates[k];
        let ghost before = retained@;
        if depth_floor.at_most(item.depth) && aligned.at_most(item.normal1.dot(reference.normal1)) {
            retained.push(item);
        }
        assert(retained@ =~= retained_of(candidates@, reference, k + 1));
        k = k + 1;
    }
    let sorted = sorted_along(&retained, tangent);
    distinct_penetrations(&sorted)
}

/// The penetrations ordered by their first point's position along `tangent`,
/// equal positions keeping their relative order.
fn sorted_along<S: Scalar>(items: &Vec<Penetration<S>>, tangent: Vector<S>) -> (r: Vec<Penetration<S>>)
    ensures
        r@ == sorted_prefix(items@, tangent, items@.len() as int),
        r@.to_multiset() == items@.to_multiset(),
        r@.len() == items@.len(),
{
    let mut sorted: Vec<Penetration<S>> = Vec::new();
    assert(sorted@ =~= items@.subrange(0, 0));
    let mut k: usize = 0;
    while k < items.len()
        invariant
            k <= items@.len(),
            sorted@.len() == k,
            sorted@ == sorted_prefix(items@, tangent, k as int),
            sorted@.to_multiset() == items@.subrange(0, k as int).to_multiset(),
        decreases items@.len() - k,
    {
        let item = items[k];
        let key = tangent.dot(item.point1);
        let mut position: usize = sorted.len();
        while position > 0 && key.total_order(tangent.dot(sorted[position - 1].point1)) == TotalOrder::Less
            invariant
                position <= sorted@.len(),
                insert_position(sorted@, key, tangent, position as int) == insert_position(
                    sorted@,
                    key,
                    tangent,
                    sorted@.len() as int,
                ),
            decreases position,
        {
            position = position - 1;
        }
        let ghost before = sorted@;
        assert(insert_position(before, key, tangent, position as int) == position as int);
        sorted.insert(position, item);
        proof {
            vstd::seq_lib::to_multiset_insert(before, position as int, item);
            assert(items@.subrange(0, k + 1) =~= items@.subrange(0, k as int).push(item));
            vstd::seq_lib::to_multiset_build(items@.subrange(0, k as int), item);
        }
        k = k + 1;
    }
    assert(items@.subrange(0, items@.len() as int) =~= items@);
    sorted
}

/// The penetrations without those whose two points both nearly coincide
/// with the previous kept one's.
fn distinct_penetrations<S: Scalar>(items: &Vec<Penetration<S>>) -> (r: Vec<Penetration<S>>)
    ensures
        r@ == distinct_prefix(items@, items@.len() as int),
        r@.len() <= items@.len(),
        items@.len() > 0 ==> r@.len() > 0 && r@[0] == items@[0],
        forall|i: int| 0 <= i < r@.len() ==> items@.contains(#[trigger] r@[i]),
{
    let mut kept: Vec<Penetration<S>> = Vec::new();
    if items.len() == 0 {
        assert(kept@ =~= distinct_prefix(items@, 0));
        return kept;
    }
    kept.push(items[0]);
    assert(kept@ =~= distinct_prefix(items@, 1));
    let tolerance = S::from_decimal(1, -10);
    let mut k: usize = 1;
    while k < items.len()
        invariant
            1 <= k <= items@.len(),
            1 <= kept@.len() <= k,
            kept@[0] == items@[0],
            kept@ == distinct_prefix(items@, k as int),
            tolerance == S::spec_from_decimal(1i64, -10i32),
            forall|i: int| 0 <= i < kept@.len() ==> items@.contains(#[trigger] kept@[i]),
        decreases items@.len() - k,
    {
        let item = items[k];
        let last = kept[kept.len() - 1];
        let same = item.point1.minus(last.point1).length_squared().at_most(tolerance) && item.point2.minus(
            last.point2,
        ).length_squared().at_most(tolerance);
        assert(same == nearly_same(item, kept@.last()));
        if !same {
            kept.push(item);
            assert(items@[k as int] == item);
        }
        assert(kept@ =~= distinct_prefix(items@, k + 1));
        k = k + 1;
    }
    kept
}

/// `count` of the items, spread evenly: item `i` of the result is item
/// `i * (len - 1) / (count - 1)`, rounding down, so the first and last are kept.
pub fn evenly_spaced<S: Scalar>(items: &Vec<Penetration<S>>, count: usize) -> (r: Vec<Penetration<S>>)
    requires
        items@.len() >= 1,
        count >= 2,
    ensures
        r@.len() == count,
        forall|i: int|
            0 <= i < count ==> #[trigger] r@[i] == items@[(i * (items@.len() - 1)) / (count - 1)],
        r@[0] == items@[0],
        r@[count - 1] == items@[items@.len() - 1],
{
    let last = items.len() - 1;
    let mut r: Vec<Penetration<S>> = Vec::new();
    let mut index: usize = 0;
    while index < count
        invariant
            last == items@.len() - 1,
            count >= 2,
            index <= count,
            r@.len() == index,
            forall|i: int| 0 <= i < index ==> #[trigger] r@[i] == items@[(i * last) / (count - 1)],
        decreases count - index,
    {
        proof {
            assert((index as int) * (last as int) <= 0xffff_ffff_ffff_ffffint * 0xffff_ffff_ffff_ffffint)
                by (nonlinear_arith)
                requires
                    0 <= index <= 0xffff_ffff_ffff_ffffint,
                    0 <= last <= 0xffff_ffff_ffff_ffffint,
            ;
            assert((index as int) * (last as int) <= (count - 1) * (last as int)) by (nonlinear_arith)
                requires
                    index < count,
                    last >= 0,
            ;
            assert(((index as int) * (last as int)) / ((count - 1) as int) <= last as int) by (nonlinear_arith)
                requires
                    (index as int) * (last as int) <= (count - 1) * (last as int),
                    count >= 2,
                    last >= 0,
            ;
            assert(((index as int) * (last as int)) / ((count - 1) as int) >= 0) by (nonlinear_arith)
                requires
                    index >= 0,
                    last >= 0,
                    count >= 2,
            ;
        }
        let product: u128 = (index as u128) * (last as u128);
        let position = (product / ((count - 1) as u128)) as usize;
        r.push(items[position]);
        index = index + 1;
    }
    proof {
        assert(((count - 1) * (last as int)) / ((count - 1) as int) == last) by (nonlinear_arith)
            requires
                count >= 2,
        ;
    }
    r
}

/// The contact of a penetration, its normal made unit length.
fn to_contact<S: Scalar>(penetration: Penetration<S>, profile_to_box: &Pose<S>) -> (r: Contact<S>)
    ensures
        r == spec_to_contact(penetration, *profile_to_box),
{
    let normal1 = penetration.normal1.normalized();
    Contact::new(
        penetration.point1,
        profile_to_box.inverse_transform_point(penetration.point2),
        normal1,
        profile_to_box.rotation.inverse().apply(normal1.negated()),
        penetration.depth.negated(),
    )
}


/// The tolerance below which a direction is too short to normalize.
pub open spec fn spec_query_epsilon<S: Scalar>() -> S {
    S::spec_from_decimal(1i64, -5i32)
}

/// The tolerance below which two points count as coinciding.
pub open spec fn spec_distance_epsilon<S: Scalar>() -> S {
    S::spec_from_decimal(1i64, -7i32)
}

/// `value` made unit length, or `fallback` made unit length (zero if it cannot be).
pub open spec fn spec_normalized_or_zero<S: Scalar>(value: Vector<S>, fallback: Vector<S>) -> Vector<S> {
    if spec_query_epsilon::<S>().spec_less_than(value.spec_length()) {
        value.spec_normalized()
    } else {
        fallback.spec_normalized_or_zero()
    }
}

/// `value` made unit length, or `fallback` as it is.
pub open spec fn spec_normalized_or<S: Scalar>(value: Vector<S>, fallback: Vector<S>) -> Vector<S> {
    if spec_distance_epsilon::<S>().spec_less_than(value.spec_length()) {
        value.spec_normalized()
    } else {
        fallback
    }
}

/// The contact between a profile and a ball placed by `profile_to_ball`.
pub open spec fn spec_profile_ball_contact<S: Scalar>(profile: AnalyticProfile<S>, profile_to_ball: Pose<S>, ball: Ball<S>) -> Contact<S> {
    let center = profile_to_ball.translation;
    let boundary = spec_closest_boundary(profile.spec_segments(), center);
    let offset = center.spec_minus(boundary.point);
    let distance = offset.spec_length();
    let (normal, gap, point1) = if profile.spec_mode() == ProfileMode::Solid {
        let inside = spec_contains(profile.spec_segments(), center);
        let direction = spec_normalized_or_zero(
            if inside {
                offset.spec_negated()
            } else {
                offset
            },
            profile.spec_outward_normal(boundary),
        );
        let signed_distance = if inside {
            distance.spec_negated()
        } else {
            distance
        };
        (direction, signed_distance.spec_minus(ball.radius), boundary.point)
    } else {
        let direction = spec_normalized_or_zero(offset, profile.spec_outward_normal(boundary));
        (
            direction,
            distance.spec_minus(profile.spec_half_thickness()).spec_minus(ball.radius),
            boundary.point.spec_plus(direction.spec_scaled(profile.spec_half_thickness())),
        )
    };
    let normal2 = profile_to_ball.rotation.spec_inverse().spec_apply(normal.spec_negated());
    Contact { point1, point2: normal2.spec_scaled(ball.radius), normal1: normal, normal2, dist: gap }
}

/// The contact between a profile and a box placed by `profile_to_box`: the
/// averaged penetration of a solid profile when there is one, else the
/// contact between the closest points.
pub open spec fn spec_profile_box_contact<S: Scalar>(profile: AnalyticProfile<S>, profile_to_box: Pose<S>, cuboid: Cuboid<S>) -> Contact<S> {
    let solid = if profile.spec_mode() == ProfileMode::Solid {
        spec_solid_profile_box_contact(profile, profile_to_box, cuboid)
    } else {
        None
    };
    match solid {
        Some(contact) => contact,
        None => {
            let pair = spec_closest_profile_box_pair(profile, profile_to_box, cuboid);
            let offset = pair.other.spec_minus(pair.profile);
            let distance = offset.spec_length();
            let normal1 = spec_normalized_or_zero(offset, pair.fallback_normal);
            let surface_offset = if profile.spec_mode() == ProfileMode::Outline {
                profile.spec_half_thickness()
            } else {
                S::ZERO
            };
            Contact {
                point1: pair.profile.spec_plus(normal1.spec_scaled(surface_offset)),
                point2: profile_to_box.spec_inverse_transform_point(pair.other),
                normal1,
                normal2: profile_to_box.rotation.spec_inverse().spec_apply(normal1.spec_negated()),
                dist: distance.spec_minus(surface_offset),
            }
        },
    }
}

/// The corners of the box placed by `transform`, counterclockwise from the lowest.
pub open spec fn spec_box_corners<S: Scalar>(transform: Pose<S>, cuboid: Cuboid<S>) -> Seq<Vector<S>> {
    let x = cuboid.half_extents.x;
    let y = cuboid.half_extents.y;
    seq![
        transform.spec_transform_point(Vector { x: x.spec_negated(), y: y.spec_negated() }),
        transform.spec_transform_point(Vector { x, y: y.spec_negated() }),
        transform.spec_transform_point(Vector { x, y }),
        transform.spec_transform_point(Vector { x: x.spec_negated(), y }),
    ]
}

/// The closest points between a profile segment and the box side from
/// corner `index` to the next one.
pub open spec fn side_candidate<S: Scalar>(segment: ProfileSegment<S>, corners: Seq<Vector<S>>, index: int) -> ClosestPair<S> {
    let start = corners[index];
    let end = corners[(index + 1) % 4];
    let tangent = end.spec_minus(start);
    let inward = spec_normalized_or(Vector { x: tangent.y.spec_negated(), y: tangent.x }, Vector { x: S::ZERO, y: S::ONE });
    match segment {
        ProfileSegment::Line { start: first, end: second } => {
            let pair = spec_closest_line_line(first, second, start, end);
            ClosestPair { profile: pair.first, other: pair.second, fallback_normal: inward }
        },
        ProfileSegment::Arc { center, radius, start_angle, sweep } => spec_closest_arc_side(
            center,
            radius,
            start_angle,
            sweep,
            start,
            end,
            inward,
        ),
    }
}

/// The candidates between the segments and the box sides: each segment in
/// turn against the four sides in order.
pub open spec fn side_candidates<S: Scalar>(segments: Seq<ProfileSegment<S>>, corners: Seq<Vector<S>>) -> Seq<ClosestPair<S>> {
    Seq::new((segments.len() * 4) as nat, |j: int| side_candidate(segments[j / 4], corners, j % 4))
}

/// The first strictly closest of the first `n` candidates, if `n > 0`.
pub open spec fn first_closest_pair<S: Scalar>(candidates: Seq<ClosestPair<S>>, n: int) -> Option<ClosestPair<S>>
    decreases n,
{
    if n <= 0 {
        None
    } else {
        let previous = first_closest_pair(candidates, n - 1);
        match previous {
            Some(current) => if candidates[n - 1].spec_distance_squared().spec_less_than(current.spec_distance_squared()) {
                Some(candidates[n - 1])
            } else {
                previous
            },
            None => Some(candidates[n - 1]),
        }
    }
}

/// The closest points between a profile and the sides of a box.
pub open spec fn spec_closest_profile_box_pair<S: Scalar>(profile: AnalyticProfile<S>, transform: Pose<S>, cuboid: Cuboid<S>) -> ClosestPair<S> {
    let candidates = side_candidates(profile.spec_segments(), spec_box_corners(transform, cuboid));
    match first_closest_pair(candidates, candidates.len() as int) {
        Some(pair) => pair,
        None => ClosestPair {
            profile: Vector { x: S::ZERO, y: S::ZERO },
            other: Vector { x: S::ZERO, y: S::ZERO },
            fallback_normal: Vector { x: S::ZERO, y: S::ONE },
        },
    }
}

/// An end of the arc, at `angle`, against the segment `[line_start, line_end]`.
pub open spec fn arc_end_candidate<S: Scalar>(
    center: Vector<S>,
    radius: S,
    angle: S,
    line_start: Vector<S>,
    line_end: Vector<S>,
    fallback_normal: Vector<S>,
) -> ClosestPair<S> {
    let profile = spec_circle_point(center, radius, angle);
    ClosestPair { profile, other: spec_closest_on_line(profile, line_start, line_end), fallback_normal }
}

/// An end `other` of the segment against the arc: the arc point in its
/// direction when that is on the arc, else the nearer arc end.
pub open spec fn line_end_candidate<S: Scalar>(
    center: Vector<S>,
    radius: S,
    start_angle: S,
    sweep: S,
    other: Vector<S>,
    fallback_normal: Vector<S>,
) -> ClosestPair<S> {
    let offset = other.spec_minus(center);
    let angle = offset.y.spec_arc_tangent2(offset.x);
    let selected = if spec_angle_on_sweep(angle, start_angle, sweep) {
        angle
    } else if other.spec_minus(spec_circle_point(center, radius, start_angle)).spec_length_squared().spec_at_most(
        other.spec_minus(spec_circle_point(center, radius, start_angle.spec_plus(sweep))).spec_length_squared(),
    ) {
        start_angle
    } else {
        start_angle.spec_plus(sweep)
    };
    ClosestPair { profile: spec_circle_point(center, radius, selected), other, fallback_normal }
}

/// The ends of the arc against the segment, then the ends of the segment against the arc.
pub open spec fn arc_side_ends<S: Scalar>(
    center: Vector<S>,
    radius: S,
    start_angle: S,
    sweep: S,
    line_start: Vector<S>,
    line_end: Vector<S>,
    fallback_normal: Vector<S>,
) -> Seq<ClosestPair<S>> {
    seq![
        arc_end_candidate(center, radius, start_angle, line_start, line_end, fallback_normal),
        arc_end_candidate(center, radius, start_angle.spec_plus(sweep), line_start, line_end, fallback_normal),
        line_end_candidate(center, radius, start_angle, sweep, line_start, fallback_normal),
        line_end_candidate(center, radius, start_angle, sweep, line_end, fallback_normal),
    ]
}

/// The arc point at `sign` times the radius along `line_normal`, against
/// `projection`, when it lies on the arc.
pub open spec fn interior_candidate<S: Scalar>(
    center: Vector<S>,
    radius: S,
    start_angle: S,
    sweep: S,
    line_normal: Vector<S>,
    sign: S,
    projection: Vector<S>,
    fallback_normal: Vector<S>,
) -> Seq<ClosestPair<S>> {
    let profile = center.spec_plus(line_normal.spec_scaled(radius).spec_scaled(sign));
    let angle = profile.y.spec_minus(center.y).spec_arc_tangent2(profile.x.spec_minus(center.x));
    kept(spec_angle_on_sweep(angle, start_angle, sweep), ClosestPair { profile, other: projection, fallback_normal })
}

/// The first `k` of the two arc points facing the segment's interior.
pub open spec fn interior_candidates<S: Scalar>(
    center: Vector<S>,
    radius: S,
    start_angle: S,
    sweep: S,
    line_start: Vector<S>,
    line_end: Vector<S>,
    fallback_normal: Vector<S>,
    k: int,
) -> Seq<ClosestPair<S>> {
    let tangent = line_end.spec_minus(line_start);
    let tangent_length = tangent.spec_length();
    let unit_tangent = tangent.spec_divided_by(tangent_length);
    let line_normal = Vector { x: unit_tangent.y.spec_negated(), y: unit_tangent.x };
    let projection = line_start.spec_plus(unit_tangent.spec_scaled(center.spec_minus(line_start).spec_dot(unit_tangent)));
    let projection_t = projection.spec_minus(line_start).spec_dot(unit_tangent);
    if tangent_length.spec_at_most(spec_distance_epsilon()) || projection_t.spec_less_than(S::ZERO)
        || tangent_length.spec_less_than(projection_t) || k <= 0 {
        Seq::empty()
    } else {
        let low = interior_candidate(
            center,
            radius,
            start_angle,
            sweep,
            line_normal,
            S::ONE.spec_negated(),
            projection,
            fallback_normal,
        );
        if k == 1 {
            low
        } else {
            low + interior_candidate(center, radius, start_angle, sweep, line_normal, S::ONE, projection, fallback_normal)
        }
    }
}

/// The first of the first `k` candidates with the smallest distance.
pub open spec fn smallest_pair_of<S: Scalar>(candidates: Seq<ClosestPair<S>>, k: int) -> ClosestPair<S>
    decreases k,
{
    if k <= 1 {
        candidates[0]
    } else {
        let best = smallest_pair_of(candidates, k - 1);
        if candidates[k - 1].spec_distance_squared().spec_total_order(best.spec_distance_squared()) == TotalOrder::Less {
            candidates[k - 1]
        } else {
            best
        }
    }
}

/// The closest points between an arc and the segment `[line_start, line_end]`.
pub open spec fn spec_closest_arc_side<S: Scalar>(
    center: Vector<S>,
    radius: S,
    start_angle: S,
    sweep: S,
    line_start: Vector<S>,
    line_end: Vector<S>,
    fallback_normal: Vector<S>,
) -> ClosestPair<S> {
    let candidates = arc_side_ends(center, radius, start_angle, sweep, line_start, line_end, fallback_normal)
        + interior_candidates(center, radius, start_angle, sweep, line_start, line_end, fallback_normal, 2);
    smallest_pair_of(candidates, candidates.len() as int)
}

/// The penetration of a box corner inside the profile, if it is deep enough.
pub open spec fn corner_penetration<S: Scalar>(profile: AnalyticProfile<S>, corner: Vector<S>) -> Seq<Penetration<S>> {
    if spec_contains(profile.spec_segments(), corner) {
        let boundary = spec_closest_boundary(profile.spec_segments(), corner);
        let offset = corner.spec_minus(boundary.point);
        let depth = offset.spec_length();
        kept(
            !depth.spec_at_most(spec_distance_epsilon()),
            Penetration { point1: boundary.point, point2: corner, normal1: offset.spec_negated().spec_divided_by(depth), depth },
        )
    } else {
        Seq::empty()
    }
}

/// The penetrations of the first `k` corners.
pub open spec fn corner_penetrations<S: Scalar>(profile: AnalyticProfile<S>, corners: Seq<Vector<S>>, k: int) -> Seq<Penetration<S>>
    decreases k,
{
    if k <= 0 {
        Seq::empty()
    } else {
        corner_penetrations(profile, corners, k - 1) + corner_penetration(profile, corners[k - 1])
    }
}

/// The penetrations of the first `k` points inside the box.
pub open spec fn point_penetrations<S: Scalar>(points: Seq<Vector<S>>, transform: Pose<S>, cuboid: Cuboid<S>, k: int) -> Seq<
    Penetration<S>,
>
    decreases k,
{
    if k <= 0 {
        Seq::empty()
    } else {
        point_penetrations(points, transform, cuboid, k - 1) + match spec_project_inside_box(points[k - 1], transform, cuboid) {
            Some((boundary, outward, depth)) => seq![
                Penetration { point1: points[k - 1], point2: boundary, normal1: outward.spec_negated(), depth },
            ],
            None => Seq::empty(),
        }
    }
}

/// The penetrations between a solid profile and a box.
pub open spec fn spec_solid_profile_box_penetrations<S: Scalar>(profile: AnalyticProfile<S>, transform: Pose<S>, cuboid: Cuboid<S>) -> Seq<
    Penetration<S>,
> {
    let points = spec_profile_box_candidates(profile, transform);
    corner_penetrations(profile, spec_box_corners(transform, cuboid), 4) + point_penetrations(
        points,
        transform,
        cuboid,
        points.len() as int,
    )
}

/// The nearest side of the box to a point strictly inside it, with the
/// side's outward normal and the depth.
pub open spec fn spec_project_inside_box<S: Scalar>(point: Vector<S>, transform: Pose<S>, cuboid: Cuboid<S>) -> Option<
    (Vector<S>, Vector<S>, S),
> {
    let local = transform.spec_inverse_transform_point(point);
    let x_depth = cuboid.half_extents.x.spec_minus(local.x.spec_absolute());
    let y_depth = cuboid.half_extents.y.spec_minus(local.y.spec_absolute());
    if x_depth.spec_at_most(spec_distance_epsilon()) || y_depth.spec_at_most(spec_distance_epsilon()) {
        None
    } else {
        let (boundary_local, outward_local, depth) = if x_depth.spec_less_than(y_depth) {
            let sign = if local.x.spec_less_than(S::ZERO) {
                S::ONE.spec_negated()
            } else {
                S::ONE
            };
            (Vector { x: sign.spec_times(cuboid.half_extents.x), y: local.y }, Vector { x: sign, y: S::ZERO }, x_depth)
        } else {
            let sign = if local.y.spec_less_than(S::ZERO) {
                S::ONE.spec_negated()
            } else {
                S::ONE
            };
            (Vector { x: local.x, y: sign.spec_times(cuboid.half_extents.y) }, Vector { x: S::ZERO, y: sign }, y_depth)
        };
        Some((transform.spec_transform_point(boundary_local), transform.rotation.spec_apply(outward_local), depth))
    }
}

/// The box's axes and their opposites.
pub open spec fn box_directions<S: Scalar>(transform: Pose<S>) -> Seq<Vector<S>> {
    let x_axis = transform.rotation.spec_apply(Vector { x: S::ONE, y: S::ZERO });
    let y_axis = transform.rotation.spec_apply(Vector { x: S::ZERO, y: S::ONE });
    seq![x_axis, x_axis.spec_negated(), y_axis, y_axis.spec_negated()]
}

/// The points of an arc furthest along the first `d` directions that lie on it.
pub open spec fn arc_extremes<S: Scalar>(segment: ProfileSegment<S>, directions: Seq<Vector<S>>, d: int) -> Seq<Vector<S>>
    decreases d,
{
    if d <= 0 {
        Seq::empty()
    } else {
        arc_extremes(segment, directions, d - 1) + match segment {
            ProfileSegment::Arc { center, radius, start_angle, sweep } => {
                let direction = directions[d - 1];
                kept(
                    spec_angle_on_sweep(direction.y.spec_arc_tangent2(direction.x), start_angle, sweep),
                    center.spec_plus(direction.spec_scaled(radius)),
                )
            },
            ProfileSegment::Line { .. } => Seq::empty(),
        }
    }
}

/// The candidate points of the first `k` segments.
pub open spec fn candidate_points<S: Scalar>(segments: Seq<ProfileSegment<S>>, directions: Seq<Vector<S>>, k: int) -> Seq<
    Vector<S>,
>
    decreases k,
{
    if k <= 0 {
        Seq::empty()
    } else {
        candidate_points(segments, directions, k - 1).push(segments[k - 1].spec_start()) + arc_extremes(
            segments[k - 1],
            directions,
            4,
        )
    }
}

/// The profile's segment starts, and after each arc start the arc's points
/// furthest along the box's axes.
pub open spec fn spec_profile_box_candidates<S: Scalar>(profile: AnalyticProfile<S>, transform: Pose<S>) -> Seq<Vector<S>> {
    candidate_points(profile.spec_segments(), box_directions(transform), profile.spec_segments().len() as int)
}

/// The running average of the first `k` penetrations, each divided by `count`.
pub open spec fn averaged<S: Scalar>(candidates: Seq<Penetration<S>>, count: S, k: int) -> Penetration<S>
    decreases k,
{
    if k <= 0 {
        Penetration {
            point1: Vector { x: S::ZERO, y: S::ZERO },
            point2: Vector { x: S::ZERO, y: S::ZERO },
            normal1: Vector { x: S::ZERO, y: S::ZERO },
            depth: S::ZERO,
        }
    } else {
        let combined = averaged(candidates, count, k - 1);
        let candidate = candidates[k - 1];
        Penetration {
            point1: combined.point1.spec_plus(candidate.point1.spec_divided_by(count)),
            point2: combined.point2.spec_plus(candidate.point2.spec_divided_by(count)),
            normal1: combined.normal1.spec_plus(candidate.normal1.spec_divided_by(count)),
            depth: combined.depth.spec_plus(candidate.depth.spec_divided_by(count)),
        }
    }
}

/// The average of the selected penetrations, as one contact, if there is any.
pub open spec fn spec_solid_profile_box_contact<S: Scalar>(profile: AnalyticProfile<S>, transform: Pose<S>, cuboid: Cuboid<S>) -> Option<
    Contact<S>,
> {
    let candidates = spec_selected_penetrations(profile, transform, cuboid);
    let count = S::spec_from_usize(candidates.len() as usize);
    if count.spec_equals(S::ZERO) {
        None
    } else {
        Some(spec_to_contact(averaged(candidates, count, candidates.len() as int), transform))
    }
}

/// The selected penetrations kept as contacts: all when there are at most
/// the maximum, else that many spread evenly from the first to the last.
pub open spec fn manifold_penetrations<S: Scalar>(selected: Seq<Penetration<S>>) -> Seq<Penetration<S>> {
    if selected.len() <= MAX_MANIFOLD_CONTACTS {
        selected
    } else {
        Seq::new(
            MAX_MANIFOLD_CONTACTS as nat,
            |i: int| selected[(i * (selected.len() - 1)) / (MAX_MANIFOLD_CONTACTS - 1)],
        )
    }
}

/// The deepest of the first `k` penetrations, the last among equally deep ones.
pub open spec fn deepest_of<S: Scalar>(candidates: Seq<Penetration<S>>, k: int) -> Penetration<S>
    decreases k,
{
    if k <= 1 {
        candidates[0]
    } else {
        let reference = deepest_of(candidates, k - 1);
        if reference.depth.spec_total_order(candidates[k - 1].depth) != TotalOrder::Greater {
            candidates[k - 1]
        } else {
            reference
        }
    }
}

/// Those of the first `k` penetrations within a small depth of `reference`
/// and facing its way.
pub open spec fn retained_of<S: Scalar>(candidates: Seq<Penetration<S>>, reference: Penetration<S>, k: int) -> Seq<Penetration<S>>
    decreases k,
{
    if k <= 0 {
        Seq::empty()
    } else {
        let item = candidates[k - 1];
        retained_of(candidates, reference, k - 1) + kept(
            reference.depth.spec_minus(S::spec_from_decimal(1i64, -5i32)).spec_at_most(item.depth)
                && S::spec_from_decimal(99i64, -2i32).spec_at_most(item.normal1.spec_dot(reference.normal1)),
            item,
        )
    }
}

/// Where an item with position `key` goes in `sorted`, searching down from
/// `p`: after every item it does not precede.
pub open spec fn insert_position<S: Scalar>(sorted: Seq<Penetration<S>>, key: S, tangent: Vector<S>, p: int) -> int
    decreases p,
{
    if p > 0 && key.spec_total_order(tangent.spec_dot(sorted[p - 1].point1)) == TotalOrder::Less {
        insert_position(sorted, key, tangent, p - 1)
    } else {
        p
    }
}

/// The first `k` items sorted along `tangent` by insertion, stably.
pub open spec fn sorted_prefix<S: Scalar>(items: Seq<Penetration<S>>, tangent: Vector<S>, k: int) -> Seq<Penetration<S>>
    decreases k,
{
    if k <= 0 {
        Seq::empty()
    } else {
        let sorted = sorted_prefix(items, tangent, k - 1);
        let item = items[k - 1];
        sorted.insert(insert_position(sorted, tangent.spec_dot(item.point1), tangent, sorted.len() as int), item)
    }
}

/// Whether both points of `item` nearly coincide with those of `last`.
pub open spec fn nearly_same<S: Scalar>(item: Penetration<S>, last: Penetration<S>) -> bool {
    let tolerance = S::spec_from_decimal(1i64, -10i32);
    item.point1.spec_minus(last.point1).spec_length_squared().spec_at_most(tolerance)
        && item.point2.spec_minus(last.point2).spec_length_squared().spec_at_most(tolerance)
}

/// The first `k` items without those nearly the same as the previous kept one.
pub open spec fn distinct_prefix<S: Scalar>(items: Seq<Penetration<S>>, k: int) -> Seq<Penetration<S>>
    decreases k,
{
    if k <= 0 {
        Seq::empty()
    } else if k == 1 {
        seq![items[0]]
    } else {
        let kept_items = distinct_prefix(items, k - 1);
        if nearly_same(items[k - 1], kept_items.last()) {
            kept_items
        } else {
            kept_items.push(items[k - 1])
        }
    }
}

/// The penetrations of the deepest patch, ordered along it, without near duplicates.
pub open spec fn spec_selected_penetrations<S: Scalar>(profile: AnalyticProfile<S>, transform: Pose<S>, cuboid: Cuboid<S>) -> Seq<
    Penetration<S>,
> {
    let candidates = spec_solid_profile_box_penetrations(profile, transform, cuboid);
    if candidates.len() == 0 {
        Seq::empty()
    } else {
        let reference = deepest_of(candidates, candidates.len() as int);
        let tangent = Vector { x: reference.normal1.y.spec_negated(), y: reference.normal1.x };
        let retained = retained_of(candidates, reference, candidates.len() as int);
        let sorted = sorted_prefix(retained, tangent, retained.len() as int);
        distinct_prefix(sorted, sorted.len() as int)
    }
}

/// The contact of a penetration, its normal made unit length.
pub open spec fn spec_to_contact<S: Scalar>(penetration: Penetration<S>, profile_to_box: Pose<S>) -> Contact<S> {
    let normal1 = penetration.normal1.spec_normalized();
    Contact {
        point1: penetration.point1,
        point2: profile_to_box.spec_inverse_transform_point(penetration.point2),
        normal1,
        normal2: profile_to_box.rotation.spec_inverse().spec_apply(normal1.spec_negated()),
        dist: penetration.depth.spec_negated(),
    }
}

} // verus!
