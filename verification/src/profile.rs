//! Analytic profiles: closed contours made of line segments and circular
//! arcs, either thick outlines or filled regions, with their point queries.
use vstd::prelude::*;

use crate::contact::ContactFeature;
use crate::profile_interior::{contains, signed_area};
use crate::scalar::{Scalar, Vector};

verus! {

/// Whether a profile is a thick outline or a filled region.
#[derive(Clone, Copy, Debug, PartialEq, Eq, Structural)]
pub enum ProfileMode {
    Outline,
    Solid,
}

/// One piece of a profile's contour.
#[derive(Clone, Copy, Debug)]
pub enum ProfileSegment<S> {
    Line { start: Vector<S>, end: Vector<S> },
    Arc { center: Vector<S>, radius: S, start_angle: S, sweep: S },
}

/// Tolerance of profile geometry.
pub open spec fn spec_geometry_epsilon<S: Scalar>() -> S {
    S::spec_from_decimal(1i64, -5i32)
}

/// Tolerance of profile geometry.
#[verifier::when_used_as_spec(spec_geometry_epsilon)]
pub fn geometry_epsilon<S: Scalar>() -> (r: S)
    ensures
        r == spec_geometry_epsilon::<S>(),
{
    S::from_decimal(1, -5)
}

/// The gap between one and the next single-precision number above it.
pub open spec fn spec_machine_epsilon<S: Scalar>() -> S {
    S::spec_from_decimal(11920929i64, -14i32)
}

/// The gap between one and the next single-precision number above it.
#[verifier::when_used_as_spec(spec_machine_epsilon)]
pub fn machine_epsilon<S: Scalar>() -> (r: S)
    ensures
        r == spec_machine_epsilon::<S>(),
{
    S::from_decimal(11920929, -14)
}

/// The largest finite single-precision number.
pub open spec fn spec_largest<S: Scalar>() -> S {
    S::spec_from_decimal(34028235i64, 31i32)
}

/// The largest finite single-precision number.
#[verifier::when_used_as_spec(spec_largest)]
pub fn largest<S: Scalar>() -> (r: S)
    ensures
        r == spec_largest::<S>(),
{
    S::from_decimal(34028235, 31)
}

/// The point of the circle `(center, radius)` at `angle`.
pub open spec fn spec_circle_point<S: Scalar>(center: Vector<S>, radius: S, angle: S) -> Vector<S> {
    center.spec_plus(Vector { x: angle.spec_cosine(), y: angle.spec_sine() }.spec_scaled(radius))
}

/// The point of the circle `(center, radius)` at `angle`.
#[verifier::when_used_as_spec(spec_circle_point)]
pub fn circle_point<S: Scalar>(center: Vector<S>, radius: S, angle: S) -> (r: Vector<S>)
    ensures
        r == spec_circle_point(center, radius, angle),
{
    center.plus(Vector::new(angle.cosine(), angle.sine()).scaled(radius))
}

/// Whether `angle` lies on the arc that starts at `start` and sweeps `sweep`,
/// in the sweep's direction, within the geometry tolerance.
pub open spec fn spec_angle_on_sweep<S: Scalar>(angle: S, start: S, sweep: S) -> bool {
    if S::ZERO.spec_at_most(sweep) {
        angle.spec_minus(start).spec_euclid_remainder(S::TAU).spec_at_most(sweep.spec_plus(spec_geometry_epsilon()))
    } else {
        start.spec_minus(angle).spec_euclid_remainder(S::TAU).spec_at_most(
            sweep.spec_negated().spec_plus(spec_geometry_epsilon()),
        )
    }
}

/// Whether `angle` lies on the arc that starts at `start` and sweeps `sweep`,
/// in the sweep's direction, within the geometry tolerance.
#[verifier::when_used_as_spec(spec_angle_on_sweep)]
pub fn angle_on_sweep<S: Scalar>(angle: S, start: S, sweep: S) -> (r: bool)
    ensures
        r == spec_angle_on_sweep(angle, start, sweep),
{
    if S::ZERO.at_most(sweep) {
        angle.minus(start).euclid_remainder(S::TAU).at_most(sweep.plus(geometry_epsilon()))
    } else {
        start.minus(angle).euclid_remainder(S::TAU).at_most(sweep.negated().plus(geometry_epsilon()))
    }
}

/// The unsigned angle between two directions, at most half a turn.
pub open spec fn spec_angular_distance<S: Scalar>(first: S, second: S) -> S {
    let delta = first.spec_minus(second).spec_euclid_remainder(S::TAU);
    delta.spec_smaller(S::TAU.spec_minus(delta))
}

/// The unsigned angle between two directions, at most half a turn.
#[verifier::when_used_as_spec(spec_angular_distance)]
fn angular_distance<S: Scalar>(first: S, second: S) -> (r: S)
    ensures
        r == spec_angular_distance(first, second),
{
    let delta = first.minus(second).euclid_remainder(S::TAU);
    delta.smaller(S::TAU.minus(delta))
}

/// The box `bounds` grown to hold `point`.
pub open spec fn spec_include_point<S: Scalar>(bounds: (Vector<S>, Vector<S>), point: Vector<S>) -> (Vector<S>, Vector<S>) {
    (bounds.0.spec_min_components(point), bounds.1.spec_max_components(point))
}

/// Grows the box `[minimum, maximum]` to hold `point`.
fn include_point<S: Scalar>(minimum: &mut Vector<S>, maximum: &mut Vector<S>, point: Vector<S>)
    ensures
        (*final(minimum), *final(maximum)) == spec_include_point((*old(minimum), *old(maximum)), point),
{
    minimum.x = minimum.x.smaller(point.x);
    minimum.y = minimum.y.smaller(point.y);
    maximum.x = maximum.x.larger(point.x);
    maximum.y = maximum.y.larger(point.y);
}

/// The box `bounds` grown to hold the point of the circle at `angle`, when
/// `angle` lies on the arc.
pub open spec fn spec_include_arc_point<S: Scalar>(
    bounds: (Vector<S>, Vector<S>),
    center: Vector<S>,
    radius: S,
    start_angle: S,
    sweep: S,
    angle: S,
) -> (Vector<S>, Vector<S>) {
    if spec_angle_on_sweep(angle, start_angle, sweep) {
        spec_include_point(bounds, spec_circle_point(center, radius, angle))
    } else {
        bounds
    }
}

fn include_arc_point<S: Scalar>(
    minimum: &mut Vector<S>,
    maximum: &mut Vector<S>,
    center: Vector<S>,
    radius: S,
    start_angle: S,
    sweep: S,
    angle: S,
)
    ensures
        (*final(minimum), *final(maximum)) == spec_include_arc_point(
            (*old(minimum), *old(maximum)),
            center,
            radius,
            start_angle,
            sweep,
            angle,
        ),
{
    if angle_on_sweep(angle, start_angle, sweep) {
        include_point(minimum, maximum, circle_point(center, radius, angle));
    }
}

impl<S: Scalar> ProfileSegment<S> {
    /// Where the segment starts.
    pub open spec fn spec_start(&self) -> Vector<S> {
        match *self {
            ProfileSegment::Line { start, .. } => start,
            ProfileSegment::Arc { center, radius, start_angle, .. } => spec_circle_point(center, radius, start_angle),
        }
    }

    /// Where the segment starts.
    #[verifier::when_used_as_spec(spec_start)]
    pub fn start(&self) -> (r: Vector<S>)
        ensures
            r == self.spec_start(),
            *self matches ProfileSegment::Line { start, .. } ==> r == start,
    {
        match self {
            ProfileSegment::Line { start, .. } => *start,
            ProfileSegment::Arc { center, radius, start_angle, .. } => circle_point(*center, *radius, *start_angle),
        }
    }

    /// Where the segment ends.
    pub open spec fn spec_end(&self) -> Vector<S> {
        match *self {
            ProfileSegment::Line { end, .. } => end,
            ProfileSegment::Arc { center, radius, start_angle, sweep } => spec_circle_point(
                center,
                radius,
                start_angle.spec_plus(sweep),
            ),
        }
    }

    /// Where the segment ends.
    #[verifier::when_used_as_spec(spec_end)]
    pub fn end(&self) -> (r: Vector<S>)
        ensures
            r == self.spec_end(),
            *self matches ProfileSegment::Line { end, .. } ==> r == end,
    {
        match self {
            ProfileSegment::Line { end, .. } => *end,
            ProfileSegment::Arc { center, radius, start_angle, sweep } => circle_point(
                *center,
                *radius,
                start_angle.plus(*sweep),
            ),
        }
    }

    /// The point of the segment closest to `point`: the clamped projection on
    /// a line; on an arc, the radial point when its angle is on the arc, else
    /// the angularly nearer end.
    pub open spec fn spec_closest_point(&self, point: Vector<S>) -> Vector<S> {
        match *self {
            ProfileSegment::Line { start, end } => {
                let tangent = end.spec_minus(start);
                let denominator = tangent.spec_length_squared();
                if denominator.spec_at_most(spec_machine_epsilon()) {
                    start
                } else {
                    start.spec_plus(
                        tangent.spec_scaled(
                            point.spec_minus(start).spec_dot(tangent).spec_divided_by(denominator).spec_clamped(
                                S::ZERO,
                                S::ONE,
                            ),
                        ),
                    )
                }
            },
            ProfileSegment::Arc { center, radius, start_angle, sweep } => {
                let offset = point.spec_minus(center);
                let angle = if offset.spec_length_squared().spec_at_most(spec_machine_epsilon()) {
                    start_angle
                } else {
                    offset.y.spec_arc_tangent2(offset.x)
                };
                let end_angle = start_angle.spec_plus(sweep);
                let selected = if spec_angle_on_sweep(angle, start_angle, sweep) {
                    angle
                } else if spec_angular_distance(angle, start_angle).spec_at_most(spec_angular_distance(angle, end_angle)) {
                    start_angle
                } else {
                    end_angle
                };
                spec_circle_point(center, radius, selected)
            },
        }
    }

    /// The point of the segment closest to `point`.
    pub fn closest_point(&self, point: &Vector<S>) -> (r: Vector<S>)
        ensures
            r == self.spec_closest_point(*point),
    {
        match self {
            ProfileSegment::Line { start, end } => {
                let tangent = end.minus(*start);
                let denominator = tangent.length_squared();
                if denominator.at_most(machine_epsilon()) {
                    return *start;
                }
                start.plus(
                    tangent.scaled(point.minus(*start).dot(tangent).divided_by(denominator).clamped(S::ZERO, S::ONE)),
                )
            },
            ProfileSegment::Arc { center, radius, start_angle, sweep } => {
                let offset = point.minus(*center);
                let angle = if offset.length_squared().at_most(machine_epsilon()) {
                    *start_angle
                } else {
                    offset.y.arc_tangent2(offset.x)
                };
                let selected = if angle_on_sweep(angle, *start_angle, *sweep) {
                    angle
                } else {
                    let end_angle = start_angle.plus(*sweep);
                    if angular_distance(angle, *start_angle).at_most(angular_distance(angle, end_angle)) {
                        *start_angle
                    } else {
                        end_angle
                    }
                };
                circle_point(*center, *radius, selected)
            },
        }
    }

    /// The direction of travel along the segment at `point`.
    pub open spec fn spec_tangent_at(&self, point: Vector<S>) -> Vector<S> {
        match *self {
            ProfileSegment::Line { start, end } => end.spec_minus(start),
            ProfileSegment::Arc { center, sweep, .. } => {
                let radial = point.spec_minus(center);
                Vector { x: radial.y.spec_negated(), y: radial.x }.spec_scaled(sweep.spec_signum())
            },
        }
    }

    /// The direction of travel along the segment at `point`.
    pub fn tangent_at(&self, point: &Vector<S>) -> (r: Vector<S>)
        ensures
            r == self.spec_tangent_at(*point),
    {
        match self {
            ProfileSegment::Line { start, end } => end.minus(*start),
            ProfileSegment::Arc { center, sweep, .. } => {
                let radial = point.minus(*center);
                Vector::new(radial.y.negated(), radial.x).scaled(sweep.signum())
            },
        }
    }

    /// The box `bounds` grown to hold the segment: its ends and, for an arc,
    /// the points at the quarter turns it passes.
    pub open spec fn spec_bounds_with(&self, bounds: (Vector<S>, Vector<S>)) -> (Vector<S>, Vector<S>) {
        let ends = spec_include_point(spec_include_point(bounds, self.spec_start()), self.spec_end());
        match *self {
            ProfileSegment::Arc { center, radius, start_angle, sweep } => {
                let four = S::spec_from_i32(4i32);
                let b0 = spec_include_arc_point(ends, center, radius, start_angle, sweep, S::ZERO);
                let b1 = spec_include_arc_point(b0, center, radius, start_angle, sweep, S::TAU.spec_divided_by(four));
                let b2 = spec_include_arc_point(
                    b1,
                    center,
                    radius,
                    start_angle,
                    sweep,
                    S::TAU.spec_divided_by(S::spec_from_i32(2i32)),
                );
                spec_include_arc_point(
                    b2,
                    center,
                    radius,
                    start_angle,
                    sweep,
                    S::TAU.spec_times(S::spec_from_i32(3i32)).spec_divided_by(four),
                )
            },
            ProfileSegment::Line { .. } => ends,
        }
    }

    /// Grows the box `[minimum, maximum]` to hold the segment.
    pub fn include_bounds(&self, minimum: &mut Vector<S>, maximum: &mut Vector<S>)
        ensures
            (*final(minimum), *final(maximum)) == self.spec_bounds_with((*old(minimum), *old(maximum))),
    {
        include_point(minimum, maximum, self.start());
        include_point(minimum, maximum, self.end());
        match self {
            ProfileSegment::Arc { center, radius, start_angle, sweep } => {
                let four = S::from_i32(4);
                include_arc_point(minimum, maximum, *center, *radius, *start_angle, *sweep, S::ZERO);
                include_arc_point(minimum, maximum, *center, *radius, *start_angle, *sweep, S::TAU.divided_by(four));
                include_arc_point(
                    minimum,
                    maximum,
                    *center,
                    *radius,
                    *start_angle,
                    *sweep,
                    S::TAU.divided_by(S::from_i32(2)),
                );
                include_arc_point(
                    minimum,
                    maximum,
                    *center,
                    *radius,
                    *start_angle,
                    *sweep,
                    S::TAU.times(S::from_i32(3)).divided_by(four),
                );
            },
            ProfileSegment::Line { .. } => {},
        }
    }
}

/// An axis-aligned box.
#[derive(Clone, Copy, Debug)]
pub struct Aabb<S> {
    pub mins: Vector<S>,
    pub maxs: Vector<S>,
}

/// A ball, given by its center and radius.
#[derive(Clone, Copy, Debug)]
pub struct BoundingSphere<S> {
    pub center: Vector<S>,
    pub radius: S,
}

/// The boundary point of a profile nearest to some point, with the contour's
/// direction there.
#[derive(Clone, Copy, Debug)]
pub struct ClosestBoundary<S> {
    pub point: Vector<S>,
    pub tangent: Vector<S>,
}

/// The projection of a point on a shape.
#[derive(Clone, Copy, Debug)]
pub struct PointProjection<S> {
    /// Whether the point is inside the shape.
    pub is_inside: bool,
    /// The projected point.
    pub point: Vector<S>,
}

/// A closed contour of line segments and arcs, each ending where the next starts.
#[derive(Debug)]
pub struct AnalyticProfile<S> {
    segments: Vec<ProfileSegment<S>>,
    mode: ProfileMode,
    half_thickness: S,
    counterclockwise: bool,
    aabb: Aabb<S>,
    bounding_radius: S,
}

/// Whether segment `index` of a contour ends where the next one starts, within the tolerance.
pub open spec fn closes_at<S: Scalar>(segments: Seq<ProfileSegment<S>>, index: int) -> bool {
    let next = segments[(index + 1) % segments.len() as int];
    !spec_geometry_epsilon::<S>().spec_less_than(segments[index].spec_end().spec_minus(next.spec_start()).spec_length())
}

/// Whether an arc's radius is finite and positive and its sweep finite, not
/// nearly zero and at most a turn; lines always qualify.
pub open spec fn arc_acceptable<S: Scalar>(segment: ProfileSegment<S>) -> bool {
    match segment {
        ProfileSegment::Arc { radius, sweep, .. } => !(!radius.spec_is_finite() || radius.spec_at_most(S::ZERO)
            || !sweep.spec_is_finite() || sweep.spec_absolute().spec_at_most(spec_geometry_epsilon())
            || S::TAU.spec_plus(spec_geometry_epsilon()).spec_less_than(sweep.spec_absolute())),
        ProfileSegment::Line { .. } => true,
    }
}

/// Whether [`AnalyticProfile::new`] refuses the contour `segments` with `thickness` and `mode`.
pub open spec fn profile_refused<S: Scalar>(segments: Seq<ProfileSegment<S>>, thickness: S, mode: ProfileMode) -> bool {
    ||| segments.len() < 2
    ||| !thickness.spec_is_finite()
    ||| thickness.spec_at_most(S::ZERO)
    ||| exists|k: int| 0 <= k < segments.len() && !(closes_at(segments, k) && arc_acceptable(#[trigger] segments[k]))
    ||| (mode == ProfileMode::Solid && crate::profile_interior::area_sum(segments, segments.len() as int).spec_absolute().spec_at_most(
        spec_geometry_epsilon(),
    ))
}

/// The box around the first `k` segments, grown from an empty box.
pub open spec fn contour_bounds<S: Scalar>(segments: Seq<ProfileSegment<S>>, k: int) -> (Vector<S>, Vector<S>)
    decreases k,
{
    if k <= 0 {
        (
            Vector { x: spec_largest(), y: spec_largest() },
            Vector { x: spec_largest::<S>().spec_negated(), y: spec_largest::<S>().spec_negated() },
        )
    } else {
        segments[k - 1].spec_bounds_with(contour_bounds(segments, k - 1))
    }
}

/// The nearest contour point to `point` on `segment`, with the contour's direction there.
pub open spec fn boundary_on<S: Scalar>(segment: ProfileSegment<S>, point: Vector<S>) -> ClosestBoundary<S> {
    let near = segment.spec_closest_point(point);
    ClosestBoundary { point: near, tangent: segment.spec_tangent_at(near) }
}

/// The first of the nearest boundary points to `point` over the first `k`
/// segments, with its squared distance.
pub open spec fn nearest_boundary<S: Scalar>(segments: Seq<ProfileSegment<S>>, point: Vector<S>, k: int) -> Option<
    (ClosestBoundary<S>, S),
>
    decreases k,
{
    if k <= 0 {
        None
    } else {
        let candidate = boundary_on(segments[k - 1], point);
        let distance = candidate.point.spec_minus(point).spec_length_squared();
        match nearest_boundary(segments, point, k - 1) {
            Some((best, current)) => if distance.spec_total_order(current) == crate::scalar::TotalOrder::Less {
                Some((candidate, distance))
            } else {
                Some((best, current))
            },
            None => Some((candidate, distance)),
        }
    }
}

/// The first of the nearest boundary points to `point`.
pub open spec fn spec_closest_boundary<S: Scalar>(segments: Seq<ProfileSegment<S>>, point: Vector<S>) -> ClosestBoundary<S> {
    match nearest_boundary(segments, point, segments.len() as int) {
        Some((boundary, _)) => boundary,
        None => ClosestBoundary { point: Vector { x: S::ZERO, y: S::ZERO }, tangent: Vector { x: S::ONE, y: S::ZERO } },
    }
}

impl<S> AnalyticProfile<S> {
    /// A profile has at least two segments.
    #[verifier::type_invariant]
    spec fn has_segments(self) -> bool {
        self.segments@.len() >= 2
    }
}

impl<S: Scalar> AnalyticProfile<S> {
    /// The contour, in order.
    pub closed spec fn spec_segments(&self) -> Seq<ProfileSegment<S>> {
        self.segments@
    }

    pub closed spec fn spec_mode(&self) -> ProfileMode {
        self.mode
    }

    /// Half the outline thickness.
    pub closed spec fn spec_half_thickness(&self) -> S {
        self.half_thickness
    }

    /// Whether the contour runs counterclockwise.
    pub closed spec fn spec_counterclockwise(&self) -> bool {
        self.counterclockwise
    }

    /// The box around the profile, outline thickness included.
    pub closed spec fn spec_aabb(&self) -> Aabb<S> {
        self.aabb
    }

    /// The distance from the origin beyond which the profile does not reach.
    pub closed spec fn spec_bounding_radius(&self) -> S {
        self.bounding_radius
    }

    /// Builds a profile from its contour, its thickness and its mode.
    ///
    /// Refuses fewer than two segments, a thickness that is not finite and
    /// positive, a contour with a gap between consecutive segments, an arc
    /// whose radius is not finite and positive or whose sweep is not finite,
    /// nearly zero or more than a turn, and a solid profile of nearly zero area.
    pub fn new(segments: Vec<ProfileSegment<S>>, thickness: S, mode: ProfileMode) -> (r: Option<Self>)
        ensures
            r is None <==> profile_refused(segments@, thickness, mode),
            segments@.len() < 2 ==> r is None,
            r matches Some(p) ==> {
                let bounds = contour_bounds(segments@, segments@.len() as int);
                let half = thickness.spec_divided_by(S::spec_from_i32(2i32));
                let grow = if mode == ProfileMode::Outline {
                    half
                } else {
                    S::ZERO
                };
                let expansion = Vector { x: grow, y: grow };
                &&& p.spec_segments() == segments@
                &&& p.spec_mode() == mode
                &&& p.spec_half_thickness() == half
                &&& p.spec_counterclockwise() == S::ZERO.spec_less_than(
                    crate::profile_interior::area_sum(segments@, segments@.len() as int),
                )
                &&& p.spec_aabb() == (Aabb { mins: bounds.0.spec_minus(expansion), maxs: bounds.1.spec_plus(expansion) })
                &&& p.spec_bounding_radius() == p.spec_aabb().mins.spec_length().spec_larger(p.spec_aabb().maxs.spec_length())
            },
    {
        let n = segments.len();
        if n < 2 || !thickness.is_finite() || thickness.at_most(S::ZERO) {
            return None;
        }
        let mut index: usize = 0;
        while index < n
            invariant
                n == segments@.len(),
                n >= 2,
                index <= n,
                forall|k: int| 0 <= k < index ==> closes_at(segments@, k) && arc_acceptable(#[trigger] segments@[k]),
            decreases n - index,
        {
            let next = segments[(index + 1) % n];
            if geometry_epsilon::<S>().less_than(segments[index].end().minus(next.start()).length()) {
                assert(!closes_at(segments@, index as int));
                return None;
            }
            match segments[index] {
                ProfileSegment::Arc { radius, sweep, .. } => {
                    if !radius.is_finite() || radius.at_most(S::ZERO) || !sweep.is_finite() || sweep.absolute().at_most(
                        geometry_epsilon(),
                    ) || S::TAU.plus(geometry_epsilon()).less_than(sweep.absolute()) {
                        assert(!arc_acceptable(segments@[index as int]));
                        return None;
                    }
                },
                ProfileSegment::Line { .. } => {},
            }
            index = index + 1;
        }
        let half_thickness = thickness.divided_by(S::from_i32(2));
        let mut minimum = Vector::splat(largest());
        let mut maximum = Vector::splat(largest::<S>().negated());
        let mut index: usize = 0;
        while index < n
            invariant
                n == segments@.len(),
                index <= n,
                (minimum, maximum) == contour_bounds(segments@, index as int),
            decreases n - index,
        {
            segments[index].include_bounds(&mut minimum, &mut maximum);
            index = index + 1;
        }
        let expansion = Vector::splat(
            if mode == ProfileMode::Outline {
                half_thickness
            } else {
                S::ZERO
            },
        );
        let aabb = Aabb { mins: minimum.minus(expansion), maxs: maximum.plus(expansion) };
        let bounding_radius = aabb.mins.length().larger(aabb.maxs.length());
        let area = signed_area(segments.as_slice());
        if mode == ProfileMode::Solid && area.absolute().at_most(geometry_epsilon()) {
            return None;
        }
        proof {
            assert(!profile_refused(segments@, thickness, mode));
        }
        Some(
            AnalyticProfile {
                segments,
                mode,
                half_thickness,
                counterclockwise: S::ZERO.less_than(area),
                aabb,
                bounding_radius,
            },
        )
    }

    /// The contour, in order.
    pub fn segments(&self) -> (r: &[ProfileSegment<S>])
        ensures
            r@ == self.spec_segments(),
            r@.len() >= 2,
    {
        proof {
            use_type_invariant(self);
        }
        self.segments.as_slice()
    }

    /// Half the outline thickness.
    #[verifier::when_used_as_spec(spec_half_thickness)]
    pub fn half_thickness(&self) -> (r: S)
        ensures
            r == self.spec_half_thickness(),
    {
        self.half_thickness
    }

    #[verifier::when_used_as_spec(spec_mode)]
    pub fn mode(&self) -> (r: ProfileMode)
        ensures
            r == self.spec_mode(),
    {
        self.mode
    }

    /// The box around the profile, outline thickness included.
    pub fn local_aabb(&self) -> (r: Aabb<S>)
        ensures
            r == self.spec_aabb(),
    {
        self.aabb
    }

    /// The distance from the origin beyond which the profile does not reach.
    pub fn bounding_radius(&self) -> (r: S)
        ensures
            r == self.spec_bounding_radius(),
    {
        self.bounding_radius
    }

    /// The nearest contour point to `point`, taking the first segment among equally near ones.
    pub fn closest_boundary(&self, point: &Vector<S>) -> (r: ClosestBoundary<S>)
        ensures
            r == spec_closest_boundary(self.spec_segments(), *point),
    {
        let n = self.segments.len();
        let mut best: Option<(ClosestBoundary<S>, S)> = None;
        let mut index: usize = 0;
        while index < n
            invariant
                n == self.segments@.len(),
                index <= n,
                best == nearest_boundary(self.segments@, *point, index as int),
            decreases n - index,
        {
            let segment = self.segments[index];
            let boundary = segment.closest_point(point);
            let candidate = ClosestBoundary { point: boundary, tangent: segment.tangent_at(&boundary) };
            let distance = candidate.point.minus(*point).length_squared();
            match best {
                Some((_, current)) => {
                    if distance.total_order(current) == crate::scalar::TotalOrder::Less {
                        best = Some((candidate, distance));
                    }
                },
                None => {
                    best = Some((candidate, distance));
                },
            }
            index = index + 1;
        }
        match best {
            Some((boundary, _)) => boundary,
            None => ClosestBoundary { point: Vector::zero(), tangent: Vector::new(S::ONE, S::ZERO) },
        }
    }

    /// The unit normal pointing out of the profile at a boundary point.
    pub open spec fn spec_outward_normal(&self, boundary: ClosestBoundary<S>) -> Vector<S> {
        let tangent = if spec_geometry_epsilon::<S>().spec_less_than(boundary.tangent.spec_length()) {
            boundary.tangent.spec_normalized()
        } else {
            Vector { x: S::ONE, y: S::ZERO }
        };
        if self.spec_counterclockwise() {
            Vector { x: tangent.y, y: tangent.x.spec_negated() }
        } else {
            Vector { x: tangent.y.spec_negated(), y: tangent.x }
        }
    }

    /// The unit normal pointing out of the profile at a boundary point.
    #[verifier::when_used_as_spec(spec_outward_normal)]
    pub fn outward_normal(&self, boundary: ClosestBoundary<S>) -> (r: Vector<S>)
        ensures
            r == self.spec_outward_normal(boundary),
    {
        let tangent = if geometry_epsilon::<S>().less_than(boundary.tangent.length()) {
            boundary.tangent.normalized()
        } else {
            Vector::new(S::ONE, S::ZERO)
        };
        if self.counterclockwise {
            Vector::new(tangent.y, tangent.x.negated())
        } else {
            Vector::new(tangent.y.negated(), tangent.x)
        }
    }

    /// Whether `point` lies inside the contour or on it.
    pub fn contains_interior(&self, point: &Vector<S>) -> (r: bool)
        ensures
            r == crate::profile_interior::spec_contains(self.spec_segments(), *point),
    {
        contains(self.segments.as_slice(), point)
    }

    /// The projection of `point` on the profile: on its contour, or onto
    /// itself when it is inside a solid profile and `solid` is set.
    pub open spec fn spec_project_local_point(&self, point: Vector<S>, solid: bool) -> PointProjection<S> {
        let boundary = spec_closest_boundary(self.spec_segments(), point);
        let offset = point.spec_minus(boundary.point);
        let distance = offset.spec_length();
        let normal = if spec_machine_epsilon::<S>().spec_less_than(distance) {
            offset.spec_divided_by(distance)
        } else {
            self.spec_outward_normal(boundary)
        };
        if self.spec_mode() == ProfileMode::Solid {
            let inside = crate::profile_interior::spec_contains(self.spec_segments(), point);
            PointProjection {
                is_inside: inside,
                point: if solid && inside {
                    point
                } else {
                    boundary.point
                },
            }
        } else {
            PointProjection {
                is_inside: distance.spec_at_most(self.spec_half_thickness()),
                point: boundary.point.spec_plus(normal.spec_scaled(self.spec_half_thickness())),
            }
        }
    }

    /// Projects `point` on the profile: on its contour, or onto itself when it
    /// is inside a solid profile and `solid` is set.
    pub fn project_local_point(&self, point: Vector<S>, solid: bool) -> (r: PointProjection<S>)
        ensures
            r == self.spec_project_local_point(point, solid),
    {
        let boundary = self.closest_boundary(&point);
        let offset = point.minus(boundary.point);
        let distance = offset.length();
        let normal = if machine_epsilon::<S>().less_than(distance) {
            offset.divided_by(distance)
        } else {
            self.outward_normal(boundary)
        };
        if self.mode == ProfileMode::Solid {
            let inside = self.contains_interior(&point);
            return PointProjection {
                is_inside: inside,
                point: if solid && inside {
                    point
                } else {
                    boundary.point
                },
            };
        }
        PointProjection {
            is_inside: distance.at_most(self.half_thickness),
            point: boundary.point.plus(normal.scaled(self.half_thickness)),
        }
    }

    /// The projection of `point` on the contour, which counts as a single face.
    pub fn project_local_point_and_get_feature(&self, point: Vector<S>) -> (r: (PointProjection<S>, ContactFeature))
        ensures
            r.0 == self.spec_project_local_point(point, false),
            r.1 == ContactFeature::Face(0),
    {
        (self.project_local_point(point, false), ContactFeature::Face(0))
    }

    /// Whether `point` is inside a solid profile or within the thickness of an outline.
    pub fn contains_local_point(&self, point: Vector<S>) -> (r: bool)
        ensures
            self.spec_mode() == ProfileMode::Solid ==> r == crate::profile_interior::spec_contains(
                self.spec_segments(),
                point,
            ),
            self.spec_mode() == ProfileMode::Outline ==> r == spec_closest_boundary(self.spec_segments(), point).point.spec_minus(
                point,
            ).spec_length_squared().spec_at_most(self.spec_half_thickness().spec_times(self.spec_half_thickness())),
    {
        if self.mode == ProfileMode::Solid {
            self.contains_interior(&point)
        } else {
            let boundary = self.closest_boundary(&point);
            boundary.point.minus(point).length_squared().at_most(self.half_thickness.times(self.half_thickness))
        }
    }

    /// The box around the profile.
    pub fn compute_local_aabb(&self) -> (r: Aabb<S>)
        ensures
            r == self.spec_aabb(),
    {
        self.aabb
    }

    /// The ball around the origin that holds the profile.
    pub fn compute_local_bounding_sphere(&self) -> (r: BoundingSphere<S>)
        ensures
            r == (BoundingSphere { center: Vector { x: S::ZERO, y: S::ZERO }, radius: self.spec_bounding_radius() }),
    {
        BoundingSphere { center: Vector::zero(), radius: self.bounding_radius }
    }

    /// How thick the profile is for continuous collision detection: half the
    /// outline thickness, or zero for a solid profile.
    pub fn ccd_thickness(&self) -> (r: S)
        ensures
            r == (if self.spec_mode() == ProfileMode::Outline {
                self.spec_half_thickness()
            } else {
                S::ZERO
            }),
    {
        if self.mode == ProfileMode::Outline {
            self.half_thickness
        } else {
            S::ZERO
        }
    }

    /// How far the profile reaches when it turns.
    pub fn ccd_angular_thickness(&self) -> (r: S)
        ensures
            r == self.spec_bounding_radius(),
    {
        self.bounding_radius
    }
}

} // verus!
