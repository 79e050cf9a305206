//! Closest points between two profile segments, found exactly from a short
//! list of candidates: endpoints, projections, and tangent or crossing points.
use vstd::prelude::*;

use crate::profile::{angle_on_sweep, spec_angle_on_sweep, ProfileSegment};
use crate::scalar::{Scalar, TotalOrder, Vector};

verus! {

pub open spec fn spec_epsilon<S: Scalar>() -> S {
    S::spec_from_decimal(1i64, -7i32)
}

#[verifier::when_used_as_spec(spec_epsilon)]
fn epsilon<S: Scalar>() -> (r: S)
    ensures
        r == spec_epsilon::<S>(),
{
    S::from_decimal(1, -7)
}

/// A point on each of two segments.
#[derive(Clone, Copy, Debug)]
pub struct SegmentClosest<S> {
    pub first: Vector<S>,
    pub second: Vector<S>,
}

impl<S: Scalar> SegmentClosest<S> {
    /// The squared distance between the two points.
    pub open spec fn spec_distance_squared(self) -> S {
        self.second.spec_minus(self.first).spec_length_squared()
    }

    /// The squared distance between the two points.
    #[verifier::when_used_as_spec(spec_distance_squared)]
    pub fn distance_squared(self) -> (r: S)
        ensures
            r == self.spec_distance_squared(),
    {
        self.second.minus(self.first).length_squared()
    }

    /// The same pair with the segments' roles exchanged.
    pub open spec fn spec_flipped(self) -> Self {
        SegmentClosest { first: self.second, second: self.first }
    }

    /// The same pair with the segments' roles exchanged.
    #[verifier::when_used_as_spec(spec_flipped)]
    pub fn flipped(self) -> (r: Self)
        ensures
            r == self.spec_flipped(),
            r.first == self.second,
            r.second == self.first,
    {
        SegmentClosest { first: self.second, second: self.first }
    }
}

/// The first of the candidates with the smallest distance among the first `k`.
pub open spec fn closest_of<S: Scalar>(candidates: Seq<SegmentClosest<S>>, k: int) -> SegmentClosest<S>
    decreases k,
{
    if k <= 1 {
        candidates[0]
    } else {
        let best = closest_of(candidates, k - 1);
        if candidates[k - 1].spec_distance_squared().spec_total_order(best.spec_distance_squared()) == TotalOrder::Less {
            candidates[k - 1]
        } else {
            best
        }
    }
}

/// The first of the candidates with the smallest distance.
pub open spec fn spec_minimum<S: Scalar>(candidates: Seq<SegmentClosest<S>>) -> SegmentClosest<S> {
    closest_of(candidates, candidates.len() as int)
}

/// The closest points between the segments `[a, b]` and `[c, d]`: clamped
/// parameters on each, refined once against each other.
pub open spec fn spec_closest_line_line<S: Scalar>(a: Vector<S>, b: Vector<S>, c: Vector<S>, d: Vector<S>) -> SegmentClosest<S> {
    let ab = b.spec_minus(a);
    let cd = d.spec_minus(c);
    let offset = a.spec_minus(c);
    let aa = ab.spec_length_squared();
    let cc = cd.spec_length_squared();
    let ac = ab.spec_dot(cd);
    let ao = ab.spec_dot(offset);
    let co = cd.spec_dot(offset);
    let denominator = aa.spec_times(cc).spec_minus(ac.spec_times(ac));
    let ta = if spec_epsilon::<S>().spec_less_than(denominator.spec_absolute()) {
        ac.spec_times(co).spec_minus(ao.spec_times(cc)).spec_divided_by(denominator).spec_clamped(S::ZERO, S::ONE)
    } else {
        S::ZERO
    };
    let tc = ac.spec_times(ta).spec_plus(co).spec_divided_by(cc.spec_larger(spec_epsilon())).spec_clamped(S::ZERO, S::ONE);
    let ta2 = ac.spec_times(tc).spec_minus(ao).spec_divided_by(aa.spec_larger(spec_epsilon())).spec_clamped(S::ZERO, S::ONE);
    SegmentClosest { first: a.spec_plus(ab.spec_scaled(ta2)), second: c.spec_plus(cd.spec_scaled(tc)) }
}

/// Whether `t` lies in `[low, high]`.
pub open spec fn spec_within<S: Scalar>(t: S, low: S, high: S) -> bool {
    low.spec_at_most(t) && t.spec_at_most(high)
}

/// The direction angle of `point` seen from `center`.
pub open spec fn spec_angle_from<S: Scalar>(point: Vector<S>, center: Vector<S>) -> S {
    point.y.spec_minus(center.y).spec_arc_tangent2(point.x.spec_minus(center.x))
}

/// The point of the segment `[start, end]` closest to `point`.
pub open spec fn spec_closest_on_line<S: Scalar>(point: Vector<S>, start: Vector<S>, end: Vector<S>) -> Vector<S> {
    let tangent = end.spec_minus(start);
    let length_squared = tangent.spec_length_squared();
    if length_squared.spec_at_most(spec_epsilon()) {
        start
    } else {
        start.spec_plus(
            tangent.spec_scaled(
                point.spec_minus(start).spec_dot(tangent).spec_divided_by(length_squared).spec_clamped(S::ZERO, S::ONE),
            ),
        )
    }
}

/// `candidate` as a one-element sequence when `keep`, else nothing.
pub open spec fn kept<T>(keep: bool, candidate: T) -> Seq<T> {
    if keep {
        seq![candidate]
    } else {
        Seq::empty()
    }
}

/// The candidates between an arc and the segment `[start, end]`: the arc's
/// ends against the segment, the segment's ends against the arc, the arc
/// points nearest to the segment's line when their projection is on the
/// segment, and the crossings of the arc with the segment.
pub open spec fn arc_line_candidates<S: Scalar>(arc: ProfileSegment<S>, start: Vector<S>, end: Vector<S>) -> Seq<SegmentClosest<S>> {
    let ends = seq![
        SegmentClosest { first: arc.spec_start(), second: spec_closest_on_line(arc.spec_start(), start, end) },
        SegmentClosest { first: arc.spec_end(), second: spec_closest_on_line(arc.spec_end(), start, end) },
        SegmentClosest { first: arc.spec_closest_point(start), second: start },
        SegmentClosest { first: arc.spec_closest_point(end), second: end },
    ];
    match arc {
        ProfileSegment::Arc { center, radius, start_angle, sweep } => {
            let tangent = end.spec_minus(start);
            let length = tangent.spec_length();
            if spec_epsilon::<S>().spec_less_than(length) {
                let unit = tangent.spec_divided_by(length);
                let normal = Vector { x: unit.y.spec_negated(), y: unit.x };
                let projection = start.spec_plus(unit.spec_scaled(center.spec_minus(start).spec_dot(unit)));
                let line_t = projection.spec_minus(start).spec_dot(unit);
                let on_line = spec_within(line_t, S::ZERO, length);
                let low = center.spec_plus(normal.spec_scaled(radius).spec_scaled(S::ONE.spec_negated()));
                let high = center.spec_plus(normal.spec_scaled(radius).spec_scaled(S::ONE));
                let two = S::spec_from_i32(2i32);
                let relative = start.spec_minus(center);
                let a = tangent.spec_length_squared();
                let b = two.spec_times(relative.spec_dot(tangent));
                let c = relative.spec_length_squared().spec_minus(radius.spec_times(radius));
                let discriminant = b.spec_times(b).spec_minus(S::spec_from_i32(4i32).spec_times(a).spec_times(c));
                let crosses = S::spec_from_decimal(1i64, -7i32).spec_negated().spec_at_most(discriminant);
                let root = discriminant.spec_larger(S::ZERO).spec_square_root();
                let t0 = b.spec_negated().spec_minus(root).spec_divided_by(two.spec_times(a));
                let t1 = b.spec_negated().spec_plus(root).spec_divided_by(two.spec_times(a));
                let p0 = start.spec_plus(tangent.spec_scaled(t0));
                let p1 = start.spec_plus(tangent.spec_scaled(t1));
                ends + kept(
                    on_line && spec_angle_on_sweep(spec_angle_from(low, center), start_angle, sweep),
                    SegmentClosest { first: low, second: projection },
                ) + kept(
                    on_line && spec_angle_on_sweep(spec_angle_from(high, center), start_angle, sweep),
                    SegmentClosest { first: high, second: projection },
                ) + kept(
                    crosses && spec_within(t0, S::ZERO, S::ONE) && spec_angle_on_sweep(
                        spec_angle_from(p0, center),
                        start_angle,
                        sweep,
                    ),
                    SegmentClosest { first: p0, second: p0 },
                ) + kept(
                    crosses && spec_within(t1, S::ZERO, S::ONE) && spec_angle_on_sweep(
                        spec_angle_from(p1, center),
                        start_angle,
                        sweep,
                    ),
                    SegmentClosest { first: p1, second: p1 },
                )
            } else {
                ends
            }
        },
        ProfileSegment::Line { .. } => ends,
    }
}

/// The candidates between two arcs: each arc's ends against the other arc,
/// the points of each arc on the line of centers against the other arc, and
/// the crossings of the two circles that lie on both arcs.
pub open spec fn arc_arc_candidates<S: Scalar>(first: ProfileSegment<S>, second: ProfileSegment<S>) -> Seq<SegmentClosest<S>> {
    let ends = seq![
        SegmentClosest { first: first.spec_start(), second: second.spec_closest_point(first.spec_start()) },
        SegmentClosest { first: first.spec_end(), second: second.spec_closest_point(first.spec_end()) },
        SegmentClosest { first: first.spec_closest_point(second.spec_start()), second: second.spec_start() },
        SegmentClosest { first: first.spec_closest_point(second.spec_end()), second: second.spec_end() },
    ];
    match (first, second) {
        (
            ProfileSegment::Arc { center: c1, radius: r1, start_angle: a1, sweep: s1 },
            ProfileSegment::Arc { center: c2, radius: r2, start_angle: a2, sweep: s2 },
        ) => {
            let delta = c2.spec_minus(c1);
            let center_distance = delta.spec_length();
            if spec_epsilon::<S>().spec_less_than(center_distance) {
                let axis = delta.spec_divided_by(center_distance);
                let p1_low = c1.spec_plus(axis.spec_scaled(r1).spec_scaled(S::ONE.spec_negated()));
                let p2_low = c2.spec_plus(axis.spec_scaled(r2).spec_scaled(S::ONE.spec_negated()));
                let p1_high = c1.spec_plus(axis.spec_scaled(r1).spec_scaled(S::ONE));
                let p2_high = c2.spec_plus(axis.spec_scaled(r2).spec_scaled(S::ONE));
                let along = r1.spec_times(r1).spec_minus(r2.spec_times(r2)).spec_plus(
                    center_distance.spec_times(center_distance),
                ).spec_divided_by(S::spec_from_i32(2i32).spec_times(center_distance));
                let height_squared = r1.spec_times(r1).spec_minus(along.spec_times(along));
                let meets = spec_epsilon::<S>().spec_negated().spec_at_most(height_squared);
                let base = c1.spec_plus(axis.spec_scaled(along));
                let perpendicular = Vector { x: axis.y.spec_negated(), y: axis.x }.spec_scaled(
                    height_squared.spec_larger(S::ZERO).spec_square_root(),
                );
                let q0 = base.spec_minus(perpendicular);
                let q1 = base.spec_plus(perpendicular);
                ends + kept(
                    spec_angle_on_sweep(spec_angle_from(p1_low, c1), a1, s1),
                    SegmentClosest { first: p1_low, second: second.spec_closest_point(p1_low) },
                ) + kept(
                    spec_angle_on_sweep(spec_angle_from(p2_low, c2), a2, s2),
                    SegmentClosest { first: first.spec_closest_point(p2_low), second: p2_low },
                ) + kept(
                    spec_angle_on_sweep(spec_angle_from(p1_high, c1), a1, s1),
                    SegmentClosest { first: p1_high, second: second.spec_closest_point(p1_high) },
                ) + kept(
                    spec_angle_on_sweep(spec_angle_from(p2_high, c2), a2, s2),
                    SegmentClosest { first: first.spec_closest_point(p2_high), second: p2_high },
                ) + kept(
                    meets && spec_angle_on_sweep(spec_angle_from(q0, c1), a1, s1) && spec_angle_on_sweep(
                        spec_angle_from(q0, c2),
                        a2,
                        s2,
                    ),
                    SegmentClosest { first: q0, second: q0 },
                ) + kept(
                    meets && spec_angle_on_sweep(spec_angle_from(q1, c1), a1, s1) && spec_angle_on_sweep(
                        spec_angle_from(q1, c2),
                        a2,
                        s2,
                    ),
                    SegmentClosest { first: q1, second: q1 },
                )
            } else {
                ends
            }
        },
        _ => ends,
    }
}

/// The closest points between two segments, the first on `first`.
pub open spec fn spec_closest_segment_pair<S: Scalar>(first: ProfileSegment<S>, second: ProfileSegment<S>) -> SegmentClosest<S> {
    match second {
        ProfileSegment::Line { start: c, end: d } => match first {
            ProfileSegment::Line { start: a, end: b } => spec_closest_line_line(a, b, c, d),
            ProfileSegment::Arc { .. } => spec_minimum(arc_line_candidates(first, c, d)),
        },
        ProfileSegment::Arc { .. } => match first {
            ProfileSegment::Line { start, end } => spec_minimum(arc_line_candidates(second, start, end)).spec_flipped(),
            ProfileSegment::Arc { .. } => spec_minimum(arc_arc_candidates(first, second)),
        },
    }
}

/// The closest points between two segments, the first on `first`.
pub fn closest_segment_pair<S: Scalar>(first: &ProfileSegment<S>, second: &ProfileSegment<S>) -> (r: SegmentClosest<S>)
    ensures
        r == spec_closest_segment_pair(*first, *second),
{
    match second {
        ProfileSegment::Line { start: c, end: d } => match first {
            ProfileSegment::Line { start: a, end: b } => closest_line_line(*a, *b, *c, *d),
            ProfileSegment::Arc { .. } => closest_arc_line(first, *c, *d),
        },
        ProfileSegment::Arc { .. } => match first {
            ProfileSegment::Line { start, end } => closest_arc_line(second, *start, *end).flipped(),
            ProfileSegment::Arc { .. } => closest_arc_arc(first, second),
        },
    }
}

/// The closest points between the segments `[a, b]` and `[c, d]`.
pub fn closest_line_line<S: Scalar>(a: Vector<S>, b: Vector<S>, c: Vector<S>, d: Vector<S>) -> (r: SegmentClosest<S>)
    ensures
        r == spec_closest_line_line(a, b, c, d),
{
    let ab = b.minus(a);
    let cd = d.minus(c);
    let offset = a.minus(c);
    let aa = ab.length_squared();
    let cc = cd.length_squared();
    let ac = ab.dot(cd);
    let ao = ab.dot(offset);
    let co = cd.dot(offset);
    let denominator = aa.times(cc).minus(ac.times(ac));
    let ta = if epsilon::<S>().less_than(denominator.absolute()) {
        ac.times(co).minus(ao.times(cc)).divided_by(denominator).clamped(S::ZERO, S::ONE)
    } else {
        S::ZERO
    };
    let tc = ac.times(ta).plus(co).divided_by(cc.larger(epsilon())).clamped(S::ZERO, S::ONE);
    let ta = ac.times(tc).minus(ao).divided_by(aa.larger(epsilon())).clamped(S::ZERO, S::ONE);
    SegmentClosest { first: a.plus(ab.scaled(ta)), second: c.plus(cd.scaled(tc)) }
}

/// Whether `t` lies in `[low, high]`.
fn within<S: Scalar>(t: S, low: S, high: S) -> (r: bool)
    ensures
        r == spec_within(t, low, high),
{
    low.at_most(t) && t.at_most(high)
}

/// The direction angle of `point` seen from `center`.
fn angle_from<S: Scalar>(point: Vector<S>, center: Vector<S>) -> (r: S)
    ensures
        r == spec_angle_from(point, center),
{
    point.y.minus(center.y).arc_tangent2(point.x.minus(center.x))
}

/// Appends `candidate` to `candidates` when `keep`.
fn keep_if<S: Scalar>(candidates: &mut Vec<SegmentClosest<S>>, keep: bool, candidate: SegmentClosest<S>)
    ensures
        final(candidates)@ == old(candidates)@ + kept(keep, candidate),
{
    if keep {
        candidates.push(candidate);
    }
    assert(final(candidates)@ =~= old(candidates)@ + kept(keep, candidate));
}

/// The closest points between the arc `arc` and the segment `[start, end]`,
/// the first on the arc.
fn closest_arc_line<S: Scalar>(arc: &ProfileSegment<S>, start: Vector<S>, end: Vector<S>) -> (r: SegmentClosest<S>)
    requires
        *arc is Arc,
    ensures
        r == spec_minimum(arc_line_candidates(*arc, start, end)),
{
    let mut candidates: Vec<SegmentClosest<S>> = Vec::new();
    let arc_start = arc.start();
    candidates.push(SegmentClosest { first: arc_start, second: closest_on_line(arc_start, start, end) });
    let arc_end = arc.end();
    candidates.push(SegmentClosest { first: arc_end, second: closest_on_line(arc_end, start, end) });
    candidates.push(SegmentClosest { first: arc.closest_point(&start), second: start });
    candidates.push(SegmentClosest { first: arc.closest_point(&end), second: end });
    let (center, radius, start_angle, sweep) = match arc {
        ProfileSegment::Arc { center, radius, start_angle, sweep } => (*center, *radius, *start_angle, *sweep),
        ProfileSegment::Line { .. } => {
            assert(false);
            return minimum(&candidates);
        },
    };
    let tangent = end.minus(start);
    let length = tangent.length();
    if epsilon::<S>().less_than(length) {
        let unit = tangent.divided_by(length);
        let normal = Vector::new(unit.y.negated(), unit.x);
        let projection = start.plus(unit.scaled(center.minus(start).dot(unit)));
        let line_t = projection.minus(start).dot(unit);
        let on_line = within(line_t, S::ZERO, length);
        let low = center.plus(normal.scaled(radius).scaled(S::ONE.negated()));
        keep_if(
            &mut candidates,
            on_line && angle_on_sweep(angle_from(low, center), start_angle, sweep),
            SegmentClosest { first: low, second: projection },
        );
        let high = center.plus(normal.scaled(radius).scaled(S::ONE));
        keep_if(
            &mut candidates,
            on_line && angle_on_sweep(angle_from(high, center), start_angle, sweep),
            SegmentClosest { first: high, second: projection },
        );
        let two = S::from_i32(2);
        let relative = start.minus(center);
        let a = tangent.length_squared();
        let b = two.times(relative.dot(tangent));
        let c = relative.length_squared().minus(radius.times(radius));
        let discriminant = b.times(b).minus(S::from_i32(4).times(a).times(c));
        let crosses = epsilon::<S>().negated().at_most(discriminant);
        let root = discriminant.larger(S::ZERO).square_root();
        let t0 = b.negated().minus(root).divided_by(two.times(a));
        let p0 = start.plus(tangent.scaled(t0));
        keep_if(
            &mut candidates,
            crosses && within(t0, S::ZERO, S::ONE) && angle_on_sweep(angle_from(p0, center), start_angle, sweep),
            SegmentClosest { first: p0, second: p0 },
        );
        let t1 = b.negated().plus(root).divided_by(two.times(a));
        let p1 = start.plus(tangent.scaled(t1));
        keep_if(
            &mut candidates,
            crosses && within(t1, S::ZERO, S::ONE) && angle_on_sweep(angle_from(p1, center), start_angle, sweep),
            SegmentClosest { first: p1, second: p1 },
        );
    }
    assert(candidates@ =~= arc_line_candidates(*arc, start, end));
    minimum(&candidates)
}

/// The closest points between two arcs.
fn closest_arc_arc<S: Scalar>(first: &ProfileSegment<S>, second: &ProfileSegment<S>) -> (r: SegmentClosest<S>)
    requires
        *first is Arc,
        *second is Arc,
    ensures
        r == spec_minimum(arc_arc_candidates(*first, *second)),
{
    let mut candidates: Vec<SegmentClosest<S>> = Vec::new();
    let first_start = first.start();
    candidates.push(SegmentClosest { first: first_start, second: second.closest_point(&first_start) });
    let first_end = first.end();
    candidates.push(SegmentClosest { first: first_end, second: second.closest_point(&first_end) });
    let second_start = second.start();
    candidates.push(SegmentClosest { first: first.closest_point(&second_start), second: second_start });
    let second_end = second.end();
    candidates.push(SegmentClosest { first: first.closest_point(&second_end), second: second_end });
    let (c1, r1, a1, s1) = match first {
        ProfileSegment::Arc { center, radius, start_angle, sweep } => (*center, *radius, *start_angle, *sweep),
        ProfileSegment::Line { .. } => {
            assert(false);
            return minimum(&candidates);
        },
    };
    let (c2, r2, a2, s2) = match second {
        ProfileSegment::Arc { center, radius, start_angle, sweep } => (*center, *radius, *start_angle, *sweep),
        ProfileSegment::Line { .. } => {
            assert(false);
            return minimum(&candidates);
        },
    };
    let delta = c2.minus(c1);
    let center_distance = delta.length();
    if epsilon::<S>().less_than(center_distance) {
        let axis = delta.divided_by(center_distance);
        let p1_low = c1.plus(axis.scaled(r1).scaled(S::ONE.negated()));
        keep_if(
            &mut candidates,
            angle_on_sweep(angle_from(p1_low, c1), a1, s1),
            SegmentClosest { first: p1_low, second: second.closest_point(&p1_low) },
        );
        let p2_low = c2.plus(axis.scaled(r2).scaled(S::ONE.negated()));
        keep_if(
            &mut candidates,
            angle_on_sweep(angle_from(p2_low, c2), a2, s2),
            SegmentClosest { first: first.closest_point(&p2_low), second: p2_low },
        );
        let p1_high = c1.plus(axis.scaled(r1).scaled(S::ONE));
        keep_if(
            &mut candidates,
            angle_on_sweep(angle_from(p1_high, c1), a1, s1),
            SegmentClosest { first: p1_high, second: second.closest_point(&p1_high) },
        );
        let p2_high = c2.plus(axis.scaled(r2).scaled(S::ONE));
        keep_if(
            &mut candidates,
            angle_on_sweep(angle_from(p2_high, c2), a2, s2),
            SegmentClosest { first: first.closest_point(&p2_high), second: p2_high },
        );
        let along = r1.times(r1).minus(r2.times(r2)).plus(center_distance.times(center_distance)).divided_by(
            S::from_i32(2).times(center_distance),
        );
        let height_squared = r1.times(r1).minus(along.times(along));
        let meets = epsilon::<S>().negated().at_most(height_squared);
        let base = c1.plus(axis.scaled(along));
        let perpendicular = Vector::new(axis.y.negated(), axis.x).scaled(height_squared.larger(S::ZERO).square_root());
        let q0 = base.minus(perpendicular);
        keep_if(
            &mut candidates,
            meets && angle_on_sweep(angle_from(q0, c1), a1, s1) && angle_on_sweep(angle_from(q0, c2), a2, s2),
            SegmentClosest { first: q0, second: q0 },
        );
        let q1 = base.plus(perpendicular);
        keep_if(
            &mut candidates,
            meets && angle_on_sweep(angle_from(q1, c1), a1, s1) && angle_on_sweep(angle_from(q1, c2), a2, s2),
            SegmentClosest { first: q1, second: q1 },
        );
    }
    assert(candidates@ =~= arc_arc_candidates(*first, *second));
    minimum(&candidates)
}

/// The point of the segment `[start, end]` closest to `point`.
pub fn closest_on_line<S: Scalar>(point: Vector<S>, start: Vector<S>, end: Vector<S>) -> (r: Vector<S>)
    ensures
        r == spec_closest_on_line(point, start, end),
{
    let tangent = end.minus(start);
    let length_squared = tangent.length_squared();
    if length_squared.at_most(epsilon()) {
        start
    } else {
        start.plus(tangent.scaled(point.minus(start).dot(tangent).divided_by(length_squared).clamped(S::ZERO, S::ONE)))
    }
}

proof fn lemma_closest_of_member<S: Scalar>(candidates: Seq<SegmentClosest<S>>, k: int)
    requires
        1 <= k <= candidates.len(),
    ensures
        candidates.contains(closest_of(candidates, k)),
    decreases k,
{
    if k > 1 {
        lemma_closest_of_member(candidates, k - 1);
        assert(candidates[k - 1] == candidates[k - 1]);
    } else {
        assert(candidates[0] == candidates[0]);
    }
}

/// The first of the candidates with the smallest distance.
fn minimum<S: Scalar>(candidates: &Vec<SegmentClosest<S>>) -> (r: SegmentClosest<S>)
    requires
        candidates@.len() >= 1,
    ensures
        r == spec_minimum(candidates@),
        candidates@.contains(r),
{
    let mut best = candidates[0];
    let mut best_distance = best.distance_squared();
    let mut k: usize = 1;
    while k < candidates.len()
        invariant
            1 <= k <= candidates@.len(),
            best == closest_of(candidates@, k as int),
            best_distance == best.spec_distance_squared(),
        decreases candidates@.len() - k,
    {
        let distance = candidates[k].distance_squared();
        if distance.total_order(best_distance) == TotalOrder::Less {
            best = candidates[k];
            best_distance = distance;
        }
        k = k + 1;
    }
    proof {
        lemma_closest_of_member(candidates@, candidates@.len() as int);
    }
    best
}

} // verus!
