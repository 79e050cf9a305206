//! Inside-or-outside classification and signed area of closed profiles,
//! computed exactly on their lines and arcs rather than on samples.
use vstd::prelude::*;

use crate::profile::ProfileSegment;
use crate::route::present;
use crate::scalar::{Scalar, Vector};

verus! {

/// Distance within which a point counts as on the contour.
pub open spec fn spec_boundary_epsilon<S: Scalar>() -> S {
    S::spec_from_decimal(1i64, -6i32)
}

/// Distance within which a point counts as on the contour.
#[verifier::when_used_as_spec(spec_boundary_epsilon)]
fn boundary_epsilon<S: Scalar>() -> (r: S)
    ensures
        r == spec_boundary_epsilon::<S>(),
{
    S::from_decimal(1, -6)
}

/// Whether `point` lies within the boundary tolerance of `segment`.
pub open spec fn near_segment<S: Scalar>(segment: ProfileSegment<S>, point: Vector<S>) -> bool {
    segment.spec_closest_point(point).spec_minus(point).spec_length_squared().spec_at_most(
        spec_boundary_epsilon::<S>().spec_times(spec_boundary_epsilon()),
    )
}

/// The parity `inside` after the ray from `point` towards increasing `x`
/// has been checked against the first `j` monotone pieces of an arc.
pub open spec fn arc_parity<S: Scalar>(
    ranges: Seq<(S, S)>,
    center: Vector<S>,
    radius: S,
    point: Vector<S>,
    inside: bool,
    j: int,
) -> bool
    decreases j,
{
    if j <= 0 {
        inside
    } else {
        let earlier = arc_parity(ranges, center, radius, point, inside, j - 1);
        let (from, to) = ranges[j - 1];
        let from_y = center.y.spec_plus(radius.spec_times(from.spec_sine()));
        let to_y = center.y.spec_plus(radius.spec_times(to.spec_sine()));
        if point.y.spec_less_than(from_y) != point.y.spec_less_than(to_y) {
            let relative_y = point.y.spec_minus(center.y);
            let x_offset = radius.spec_times(radius).spec_minus(relative_y.spec_times(relative_y)).spec_larger(
                S::ZERO,
            ).spec_square_root();
            let midpoint = from.spec_plus(to).spec_divided_by(S::spec_from_i32(2i32));
            let x = center.x.spec_plus(midpoint.spec_cosine().spec_signum().spec_times(x_offset));
            if point.x.spec_less_than(x) {
                !earlier
            } else {
                earlier
            }
        } else {
            earlier
        }
    }
}

/// The parity `inside` after the ray from `point` has been checked against `segment`.
pub open spec fn segment_parity<S: Scalar>(segment: ProfileSegment<S>, point: Vector<S>, inside: bool) -> bool {
    match segment {
        ProfileSegment::Line { start, end } => {
            if point.y.spec_less_than(start.y) != point.y.spec_less_than(end.y) {
                let x = start.x.spec_plus(
                    point.y.spec_minus(start.y).spec_times(end.x.spec_minus(start.x)).spec_divided_by(
                        end.y.spec_minus(start.y),
                    ),
                );
                if point.x.spec_less_than(x) {
                    !inside
                } else {
                    inside
                }
            } else {
                inside
            }
        },
        ProfileSegment::Arc { center, radius, start_angle, sweep } => {
            let ranges = spec_monotone_arc_ranges(start_angle, sweep);
            arc_parity(ranges, center, radius, point, inside, ranges.len() as int)
        },
    }
}

/// The parity of the crossings of the ray from `point` with the first `k` segments.
pub open spec fn crossing_parity<S: Scalar>(segments: Seq<ProfileSegment<S>>, point: Vector<S>, k: int) -> bool
    decreases k,
{
    if k <= 0 {
        false
    } else {
        segment_parity(segments[k - 1], point, crossing_parity(segments, point, k - 1))
    }
}

/// Whether `point` is on the contour, within the tolerance, or inside it by
/// the parity of the crossings of the ray towards increasing `x`.
pub open spec fn spec_contains<S: Scalar>(segments: Seq<ProfileSegment<S>>, point: Vector<S>) -> bool {
    (exists|k: int| 0 <= k < segments.len() && near_segment(#[trigger] segments[k], point)) || crossing_parity(
        segments,
        point,
        segments.len() as int,
    )
}

/// Whether `point` is inside the closed contour `segments` or on it, by the
/// parity of the crossings of a ray towards increasing `x`.
pub fn contains<S: Scalar>(segments: &[ProfileSegment<S>], point: &Vector<S>) -> (r: bool)
    ensures
        r == spec_contains(segments@, *point),
{
    let n = segments.len();
    let tolerance = boundary_epsilon::<S>().times(boundary_epsilon());
    let mut k: usize = 0;
    while k < n
        invariant
            n == segments@.len(),
            k <= n,
            tolerance == spec_boundary_epsilon::<S>().spec_times(spec_boundary_epsilon()),
            forall|j: int| 0 <= j < k ==> !near_segment(#[trigger] segments@[j], *point),
        decreases n - k,
    {
        if segments[k].closest_point(point).minus(*point).length_squared().at_most(tolerance) {
            assert(near_segment(segments@[k as int], *point));
            return true;
        }
        k = k + 1;
    }
    let mut inside = false;
    let mut k: usize = 0;
    while k < n
        invariant
            n == segments@.len(),
            k <= n,
            inside == crossing_parity(segments@, *point, k as int),
        decreases n - k,
    {
        match segments[k] {
            ProfileSegment::Line { start, end } => {
                if point.y.less_than(start.y) != point.y.less_than(end.y) {
                    let x = start.x.plus(
                        point.y.minus(start.y).times(end.x.minus(start.x)).divided_by(end.y.minus(start.y)),
                    );
                    if point.x.less_than(x) {
                        inside = !inside;
                    }
                }
            },
            ProfileSegment::Arc { center, radius, start_angle, sweep } => {
                let ranges = monotone_arc_ranges(start_angle, sweep);
                let ghost entering = inside;
                let mut j: usize = 0;
                while j < ranges.len()
                    invariant
                        j <= ranges@.len(),
                        inside == arc_parity(ranges@, center, radius, *point, entering, j as int),
                    decreases ranges@.len() - j,
                {
                    let (from, to) = ranges[j];
                    let from_y = center.y.plus(radius.times(from.sine()));
                    let to_y = center.y.plus(radius.times(to.sine()));
                    if point.y.less_than(from_y) != point.y.less_than(to_y) {
                        let relative_y = point.y.minus(center.y);
                        let x_offset = radius.times(radius).minus(relative_y.times(relative_y)).larger(
                            S::ZERO,
                        ).square_root();
                        let midpoint = from.plus(to).divided_by(S::from_i32(2));
                        let x = center.x.plus(midpoint.cosine().signum().times(x_offset));
                        if point.x.less_than(x) {
                            inside = !inside;
                        }
                    }
                    j = j + 1;
                }
            },
        }
        k = k + 1;
    }
    inside
}

/// The signed area swept by a segment around the origin: positive for
/// counterclockwise travel.
pub open spec fn spec_segment_area<S: Scalar>(segment: ProfileSegment<S>) -> S {
    let two = S::spec_from_i32(2i32);
    match segment {
        ProfileSegment::Line { start, end } => start.x.spec_times(end.y).spec_minus(start.y.spec_times(end.x)).spec_divided_by(
            two,
        ),
        ProfileSegment::Arc { center, radius, start_angle, sweep } => {
            let end_angle = start_angle.spec_plus(sweep);
            radius.spec_times(center.x).spec_times(end_angle.spec_sine().spec_minus(start_angle.spec_sine())).spec_minus(
                radius.spec_times(center.y).spec_times(end_angle.spec_cosine().spec_minus(start_angle.spec_cosine())),
            ).spec_plus(radius.spec_times(radius).spec_times(sweep)).spec_divided_by(two)
        },
    }
}

/// The signed area swept by a segment around the origin: positive for
/// counterclockwise travel.
fn segment_area<S: Scalar>(segment: ProfileSegment<S>) -> (r: S)
    ensures
        r == spec_segment_area(segment),
{
    let two = S::from_i32(2);
    match segment {
        ProfileSegment::Line { start, end } => start.x.times(end.y).minus(start.y.times(end.x)).divided_by(two),
        ProfileSegment::Arc { center, radius, start_angle, sweep } => {
            let end_angle = start_angle.plus(sweep);
            radius.times(center.x).times(end_angle.sine().minus(start_angle.sine())).minus(
                radius.times(center.y).times(end_angle.cosine().minus(start_angle.cosine())),
            ).plus(radius.times(radius).times(sweep)).divided_by(two)
        },
    }
}

/// The sum of the areas of the first `k` segments, added in order from zero.
pub open spec fn area_sum<S: Scalar>(segments: Seq<ProfileSegment<S>>, k: int) -> S
    decreases k,
{
    if k <= 0 {
        S::ZERO
    } else {
        area_sum(segments, k - 1).spec_plus(spec_segment_area(segments[k - 1]))
    }
}

/// The signed area enclosed by the contour: positive when it runs counterclockwise.
pub fn signed_area<S: Scalar>(segments: &[ProfileSegment<S>]) -> (r: S)
    ensures
        r == area_sum(segments@, segments@.len() as int),
{
    let mut area = S::ZERO;
    let mut k: usize = 0;
    while k < segments.len()
        invariant
            k <= segments@.len(),
            area == area_sum(segments@, k as int),
        decreases segments@.len() - k,
    {
        area = area.plus(segment_area(segments[k]));
        k = k + 1;
    }
    area
}

/// The angles strictly inside `(minimum, maximum)`, beyond the boundary
/// tolerance, at which the sine turns, for the turn indices in `[first, k)`.
pub open spec fn turn_angles<S: Scalar>(minimum: S, maximum: S, first: int, k: int) -> Seq<S>
    decreases k - first,
{
    if k <= first {
        Seq::empty()
    } else {
        let half_turn = S::TAU.spec_divided_by(S::spec_from_i32(2i32));
        let quarter_turn = S::TAU.spec_divided_by(S::spec_from_i32(4i32));
        let angle = quarter_turn.spec_plus(S::spec_from_i32((k - 1) as i32).spec_times(half_turn));
        turn_angles(minimum, maximum, first, k - 1) + if minimum.spec_plus(spec_boundary_epsilon()).spec_less_than(angle)
            && angle.spec_less_than(maximum.spec_minus(spec_boundary_epsilon())) {
            seq![angle]
        } else {
            Seq::<S>::empty()
        }
    }
}

/// The ends of the monotone pieces of the arc from `start` sweeping `sweep`, in order.
pub open spec fn arc_breaks<S: Scalar>(start: S, sweep: S) -> Seq<S> {
    let end = start.spec_plus(sweep);
    let minimum = start.spec_smaller(end);
    let maximum = start.spec_larger(end);
    let half_turn = S::TAU.spec_divided_by(S::spec_from_i32(2i32));
    let quarter_turn = S::TAU.spec_divided_by(S::spec_from_i32(4i32));
    let first = minimum.spec_minus(quarter_turn).spec_divided_by(half_turn).spec_ceiling().spec_to_i32();
    let last = maximum.spec_minus(quarter_turn).spec_divided_by(half_turn).spec_floor().spec_to_i32();
    let inner = turn_angles(minimum, maximum, first as int, last as int + 1);
    if sweep.spec_less_than(S::ZERO) {
        (seq![start] + inner.reverse()).push(end)
    } else {
        (seq![start] + inner).push(end)
    }
}

/// The consecutive pairs of `breaks`.
pub open spec fn consecutive_pairs<S>(breaks: Seq<S>) -> Seq<(S, S)> {
    Seq::new((breaks.len() - 1) as nat, |k: int| (breaks[k], breaks[k + 1]))
}

/// The monotone pieces of the arc from `start` sweeping `sweep`.
pub open spec fn spec_monotone_arc_ranges<S: Scalar>(start: S, sweep: S) -> Seq<(S, S)> {
    consecutive_pairs(arc_breaks(start, sweep))
}

/// Splits the arc from angle `start` sweeping `sweep` into consecutive pieces
/// on which the sine is monotone, in the sweep's direction: the first piece
/// starts at `start`, each piece starts where the previous one ends, and the
/// last ends at `start + sweep`.
pub fn monotone_arc_ranges<S: Scalar>(start: S, sweep: S) -> (r: Vec<(S, S)>)
    ensures
        r@ == spec_monotone_arc_ranges(start, sweep),
        r@.len() >= 1,
        r@[0].0 == start,
        forall|k: int| 0 <= k < r@.len() - 1 ==> (#[trigger] r@[k]).1 == r@[k + 1].0,
{
    let end = start.plus(sweep);
    let minimum = start.smaller(end);
    let maximum = start.larger(end);
    let half_turn = S::TAU.divided_by(S::from_i32(2));
    let quarter_turn = S::TAU.divided_by(S::from_i32(4));
    let first_index = minimum.minus(quarter_turn).divided_by(half_turn).ceiling().to_i32();
    let last_index = maximum.minus(quarter_turn).divided_by(half_turn).floor().to_i32();
    let mut breaks: Vec<S> = Vec::new();
    breaks.push(start);
    let mut index: i64 = first_index as i64;
    assert(breaks@ =~= seq![start] + turn_angles(minimum, maximum, first_index as int, index as int));
    while index <= last_index as i64
        invariant
            first_index as i64 <= index,
            index <= last_index as i64 + 1 || index == first_index as i64,
            half_turn == S::TAU.spec_divided_by(S::spec_from_i32(2i32)),
            quarter_turn == S::TAU.spec_divided_by(S::spec_from_i32(4i32)),
            breaks@ == seq![start] + turn_angles(minimum, maximum, first_index as int, index as int),
        decreases last_index as i64 + 1 - index,
    {
        let angle = quarter_turn.plus(S::from_i32(index as i32).times(half_turn));
        let ghost before = breaks@;
        if minimum.plus(boundary_epsilon()).less_than(angle) && angle.less_than(maximum.minus(boundary_epsilon())) {
            breaks.push(angle);
        }
        assert(breaks@ =~= seq![start] + turn_angles(minimum, maximum, first_index as int, index + 1));
        index = index + 1;
    }
    let ghost inner = turn_angles(minimum, maximum, first_index as int, last_index as int + 1);
    assert(breaks@ == seq![start] + inner) by {
        if index != last_index as i64 + 1 {
            assert(turn_angles(minimum, maximum, first_index as int, index as int) =~= Seq::<S>::empty());
            assert(inner =~= Seq::<S>::empty());
        }
    }
    assert(breaks@.subrange(1, breaks@.len() as int) =~= inner);
    if sweep.less_than(S::ZERO) {
        let mut reordered: Vec<S> = Vec::new();
        reordered.push(start);
        let mut k: usize = breaks.len();
        assert(reordered@ =~= seq![start] + breaks@.subrange(k as int, breaks@.len() as int).reverse());
        while k > 1
            invariant
                1 <= k <= breaks@.len(),
                breaks@[0] == start,
                reordered@ == seq![start] + breaks@.subrange(k as int, breaks@.len() as int).reverse(),
            decreases k,
        {
            k = k - 1;
            reordered.push(breaks[k]);
            assert(reordered@ =~= seq![start] + breaks@.subrange(k as int, breaks@.len() as int).reverse());
        }
        breaks = reordered;
        assert(breaks@ =~= seq![start] + inner.reverse());
    } else {
        assert(breaks@ =~= seq![start] + inner);
    }
    breaks.push(end);
    let mut ranges: Vec<(S, S)> = Vec::new();
    let mut k: usize = 0;
    let last = breaks.len() - 1;
    while k < last
        invariant
            breaks@.len() >= 2,
            last == breaks@.len() - 1,
            breaks@[0] == start,
            k <= last,
            ranges@.len() == k,
            forall|j: int| 0 <= j < k ==> (#[trigger] ranges@[j]) == (breaks@[j], breaks@[j + 1]),
        decreases last - k,
    {
        ranges.push((breaks[k], breaks[k + 1]));
        k = k + 1;
    }
    proof {
        assert(ranges@ =~= consecutive_pairs(breaks@));
        assert(ranges@[0] == (breaks@[0], breaks@[1]));
        assert forall|j: int| 0 <= j < ranges@.len() - 1 implies (#[trigger] ranges@[j]).1 == ranges@[j + 1].0 by {
            assert(ranges@[j] == (breaks@[j], breaks@[j + 1]));
            assert(ranges@[j + 1] == (breaks@[j + 1], breaks@[j + 2]));
        }
    }
    ranges
}

} // verus!
