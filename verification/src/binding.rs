//! Building routed ropes from flat host arrays, and flat 64-bit handles.
//!
//! A host that can only pass plain arrays describes a rope by one kind, one
//! packed body handle and two coordinates per routed point (endpoint A,
//! endpoint B, then one per pulley), plus a radius and a winding code per
//! pulley. Handles cross the boundary packed as `slot | generation << 32`.
use vstd::prelude::*;

use crate::arena::Index;
use crate::body::RigidBodyHandle;
use crate::rope::{RoutedRopeConstraint, RoutedRopePoint, RoutedRopePulley, RoutedRopeStatus, RoutedRopeWinding};
use crate::scalar::{Scalar, Vector};
use crate::set::{RoutedRopeConstraintHandle, RoutedRopeConstraintSet};

verus! {

/// Why a flat rope description was rejected.
#[derive(Clone, Copy, Debug, PartialEq, Eq, Structural)]
pub enum RopeInputError {
    /// The maximum length is not finite or not positive.
    InvalidMaxLength,
    /// There is no pulley, or the arrays do not have matching lengths.
    InvalidArrayLengths,
    /// A routed point has a coordinate that is not finite.
    NonFinitePoint,
    /// A routed point has a kind other than world (0) or body (1).
    UnknownPointKind,
    /// A pulley radius is not finite or not positive.
    InvalidPulleyRadius,
    /// A pulley winding is other than clockwise (0) or counterclockwise (1).
    UnknownPulleyWinding,
}

impl RopeInputError {
    /// The message reported to the host.
    pub fn message(self) -> (r: &'static str)
        ensures
            self == RopeInputError::InvalidMaxLength ==> r@ == "maxLength must be finite and positive"@,
            self == RopeInputError::InvalidArrayLengths ==> r@ == "invalid routed-rope array lengths"@,
            self == RopeInputError::NonFinitePoint ==> r@ == "routed-rope point must be finite"@,
            self == RopeInputError::UnknownPointKind ==> r@ == "unknown routed-rope point kind"@,
            self == RopeInputError::InvalidPulleyRadius ==> r@ == "pulley radius must be finite and positive"@,
            self == RopeInputError::UnknownPulleyWinding ==> r@ == "unknown pulley winding"@,
    {
        match self {
            RopeInputError::InvalidMaxLength => "maxLength must be finite and positive",
            RopeInputError::InvalidArrayLengths => "invalid routed-rope array lengths",
            RopeInputError::NonFinitePoint => "routed-rope point must be finite",
            RopeInputError::UnknownPointKind => "unknown routed-rope point kind",
            RopeInputError::InvalidPulleyRadius => "pulley radius must be finite and positive",
            RopeInputError::UnknownPulleyWinding => "unknown pulley winding",
        }
    }
}

/// The 64-bit packing of an index: its slot in the low half, its generation in the high half.
pub open spec fn packed(slot: u32, generation: u32) -> u64 {
    (slot as u64 | ((generation as u64) << 32u64)) as u64
}

/// Packs an index into 64 bits, slot in the low half.
pub fn flat_handle(index: Index) -> (r: u64)
    ensures
        r == packed(index.slot(), index.stamp()),
        r as u32 == index.slot(),
        (r >> 32u64) as u32 == index.stamp(),
{
    let (slot, generation) = index.into_raw_parts();
    let r = slot as u64 | ((generation as u64) << 32u64);
    assert((slot as u64 | ((generation as u64) << 32u64)) as u32 == slot) by (bit_vector);
    assert(((slot as u64 | ((generation as u64) << 32u64)) >> 32u64) as u32 == generation) by (bit_vector);
    r
}

/// Unpacks an index from 64 bits: the low half is the slot, the high half the generation.
pub fn unpack_index(bits: u64) -> (r: Index)
    ensures
        r.slot() == bits as u32,
        r.stamp() == (bits >> 32u64) as u32,
        bits == packed(r.slot(), r.stamp()),
{
    let slot = bits as u32;
    let generation = (bits >> 32u64) as u32;
    assert(bits == ((bits as u32) as u64 | ((((bits >> 32u64) as u32) as u64) << 32u64))) by (bit_vector);
    Index::from_raw_parts(slot, generation)
}

/// The rigid-body handle packed in `bits`.
pub fn body_handle(bits: u64) -> (r: RigidBodyHandle)
    ensures
        r.0.slot() == bits as u32,
        r.0.stamp() == (bits >> 32u64) as u32,
{
    RigidBodyHandle(unpack_index(bits))
}

/// The routed-rope handle packed in `bits`.
pub fn routed_rope_handle(bits: u64) -> (r: RoutedRopeConstraintHandle)
    ensures
        r.0.slot() == bits as u32,
        r.0.stamp() == (bits >> 32u64) as u32,
{
    RoutedRopeConstraintHandle(unpack_index(bits))
}

/// Packing a handle and unpacking it again gives the handle back, and
/// unpacking then packing gives the bits back.
pub proof fn lemma_flat_round_trip(index: Index, bits: u64)
    ensures
        packed(index.slot(), index.stamp()) as u32 == index.slot(),
        (packed(index.slot(), index.stamp()) >> 32u64) as u32 == index.stamp(),
        packed(bits as u32, (bits >> 32u64) as u32) == bits,
{
    let slot = index.slot();
    let generation = index.stamp();
    assert((slot as u64 | ((generation as u64) << 32u64)) as u32 == slot) by (bit_vector);
    assert(((slot as u64 | ((generation as u64) << 32u64)) >> 32u64) as u32 == generation) by (bit_vector);
    assert(bits == ((bits as u32) as u64 | ((((bits >> 32u64) as u32) as u64) << 32u64))) by (bit_vector);
}

/// The routed point that kind `kind` and packed handle `bits` describe at `coordinates`.
pub open spec fn described_point<S>(kind: u32, bits: u64, coordinates: Vector<S>) -> RoutedRopePoint<S> {
    if kind == 0 {
        RoutedRopePoint::World(coordinates)
    } else {
        RoutedRopePoint::Body {
            body: RigidBodyHandle(Index::spec_from_raw_parts(bits as u32, (bits >> 32u64) as u32)),
            local_anchor: coordinates,
        }
    }
}

/// Whether the arrays have the lengths a rope with `radii` pulleys needs.
pub open spec fn lengths_match(kinds: nat, handles: nat, coordinates: nat, radii: nat, windings: nat) -> bool {
    &&& radii > 0
    &&& kinds == radii + 2
    &&& handles == radii + 2
    &&& coordinates == 2 * (radii + 2)
    &&& windings == radii
}

/// The winding that code `code` describes.
pub open spec fn described_winding(code: u32) -> RoutedRopeWinding {
    if code == 0 {
        RoutedRopeWinding::Clockwise
    } else {
        RoutedRopeWinding::Counterclockwise
    }
}

/// The rejection, if any, of one routed point: its coordinates first, then its kind.
pub open spec fn point_verdict(finite: bool, kind: u32) -> Option<RopeInputError> {
    if !finite {
        Some(RopeInputError::NonFinitePoint)
    } else if kind > 1 {
        Some(RopeInputError::UnknownPointKind)
    } else {
        None
    }
}

/// The rejection, if any, of one pulley: its radius, its winding, then its center.
pub open spec fn pulley_verdict(radius_ok: bool, winding: u32, center_finite: bool, center_kind: u32) -> Option<
    RopeInputError,
> {
    if !radius_ok {
        Some(RopeInputError::InvalidPulleyRadius)
    } else if winding > 1 {
        Some(RopeInputError::UnknownPulleyWinding)
    } else {
        point_verdict(center_finite, center_kind)
    }
}

/// The first rejection among the first `k` pulleys, taken in order.
pub open spec fn pulleys_verdict(
    kinds: Seq<u32>,
    windings: Seq<u32>,
    point_ok: Seq<bool>,
    radius_ok: Seq<bool>,
    k: int,
) -> Option<RopeInputError>
    decreases k,
{
    if k <= 0 {
        None
    } else {
        match pulleys_verdict(kinds, windings, point_ok, radius_ok, k - 1) {
            Some(e) => Some(e),
            None => pulley_verdict(radius_ok[k - 1], windings[k - 1], point_ok[k + 1], kinds[k + 1]),
        }
    }
}

/// Why a flat description is rejected, or `None` when it is accepted, given
/// whether its maximum length is finite and positive (`length_ok`), which
/// routed points have finite coordinates (`point_ok`) and which pulley radii
/// are finite and positive (`radius_ok`).
///
/// The checks come in this order: the maximum length; that there is a pulley
/// and the array lengths match; endpoint A, then endpoint B; then each
/// pulley's radius, winding and center, in order.
pub open spec fn description_verdict(
    length_ok: bool,
    kinds: Seq<u32>,
    handle_count: nat,
    coordinate_count: nat,
    pulley_count: nat,
    windings: Seq<u32>,
    point_ok: Seq<bool>,
    radius_ok: Seq<bool>,
) -> Option<RopeInputError> {
    if !length_ok {
        Some(RopeInputError::InvalidMaxLength)
    } else if !lengths_match(kinds.len(), handle_count, coordinate_count, pulley_count, windings.len()) {
        Some(RopeInputError::InvalidArrayLengths)
    } else if point_verdict(point_ok[0], kinds[0]) is Some {
        point_verdict(point_ok[0], kinds[0])
    } else if point_verdict(point_ok[1], kinds[1]) is Some {
        point_verdict(point_ok[1], kinds[1])
    } else {
        pulleys_verdict(kinds, windings, point_ok, radius_ok, pulley_count as int)
    }
}

/// Once a pulley is rejected, the rejection stays the first one.
proof fn lemma_pulleys_verdict_sticks(
    kinds: Seq<u32>,
    windings: Seq<u32>,
    point_ok: Seq<bool>,
    radius_ok: Seq<bool>,
    k: int,
    m: int,
)
    requires
        0 <= k <= m,
        pulleys_verdict(kinds, windings, point_ok, radius_ok, k) is Some,
    ensures
        pulleys_verdict(kinds, windings, point_ok, radius_ok, m) == pulleys_verdict(
            kinds,
            windings,
            point_ok,
            radius_ok,
            k,
        ),
    decreases m - k,
{
    if m > k {
        lemma_pulleys_verdict_sticks(kinds, windings, point_ok, radius_ok, k, m - 1);
    }
}

/// Accepted pulleys have known kinds and windings.
proof fn lemma_pulleys_accepted(kinds: Seq<u32>, windings: Seq<u32>, point_ok: Seq<bool>, radius_ok: Seq<bool>, k: int)
    requires
        0 <= k,
        pulleys_verdict(kinds, windings, point_ok, radius_ok, k) is None,
    ensures
        forall|j: int| 0 <= j < k ==> #[trigger] windings[j] <= 1 && kinds[j + 2] <= 1,
    decreases k,
{
    if k > 0 {
        lemma_pulleys_accepted(kinds, windings, point_ok, radius_ok, k - 1);
    }
}

/// A pulley is rejected for an unknown kind or winding only when one occurs.
proof fn lemma_pulleys_rejection_cause(
    kinds: Seq<u32>,
    windings: Seq<u32>,
    point_ok: Seq<bool>,
    radius_ok: Seq<bool>,
    k: int,
)
    requires
        0 <= k,
    ensures
        pulleys_verdict(kinds, windings, point_ok, radius_ok, k) == Some(RopeInputError::UnknownPointKind) ==> exists|j: int|
            0 <= j < k && #[trigger] kinds[j + 2] > 1,
        pulleys_verdict(kinds, windings, point_ok, radius_ok, k) == Some(RopeInputError::UnknownPulleyWinding) ==> exists|
            j: int,
        | 0 <= j < k && #[trigger] windings[j] > 1,
    decreases k,
{
    if k > 0 {
        lemma_pulleys_rejection_cause(kinds, windings, point_ok, radius_ok, k - 1);
        if pulleys_verdict(kinds, windings, point_ok, radius_ok, k - 1) is None {
            let j = k - 1;
            if pulleys_verdict(kinds, windings, point_ok, radius_ok, k) == Some(RopeInputError::UnknownPointKind) {
                assert(kinds[j + 2] > 1);
            }
            if pulleys_verdict(kinds, windings, point_ok, radius_ok, k) == Some(RopeInputError::UnknownPulleyWinding) {
                assert(windings[j] > 1);
            }
        }
    }
}

fn point_error(finite: bool, kind: u32) -> (r: Option<RopeInputError>)
    ensures
        r == point_verdict(finite, kind),
{
    if !finite {
        Some(RopeInputError::NonFinitePoint)
    } else if kind > 1 {
        Some(RopeInputError::UnknownPointKind)
    } else {
        None
    }
}

fn pulley_error(radius_ok: bool, winding: u32, center_finite: bool, center_kind: u32) -> (r: Option<RopeInputError>)
    ensures
        r == pulley_verdict(radius_ok, winding, center_finite, center_kind),
{
    if !radius_ok {
        Some(RopeInputError::InvalidPulleyRadius)
    } else if winding > 1 {
        Some(RopeInputError::UnknownPulleyWinding)
    } else {
        point_error(center_finite, center_kind)
    }
}

/// Judges a flat description from the array lengths, the kind and winding
/// codes, and whether each of its scalars is usable; see [`description_verdict`].
pub fn description_error(
    length_ok: bool,
    point_kinds: &[u32],
    handle_count: usize,
    coordinate_count: usize,
    pulley_count: usize,
    pulley_windings: &[u32],
    point_ok: &[bool],
    radius_ok: &[bool],
) -> (r: Option<RopeInputError>)
    requires
        lengths_match(
            point_kinds@.len(),
            handle_count as nat,
            coordinate_count as nat,
            pulley_count as nat,
            pulley_windings@.len(),
        ) ==> point_ok@.len() == point_kinds@.len() && radius_ok@.len() == pulley_count,
    ensures
        r == description_verdict(
            length_ok,
            point_kinds@,
            handle_count as nat,
            coordinate_count as nat,
            pulley_count as nat,
            pulley_windings@,
            point_ok@,
            radius_ok@,
        ),
{
    if !length_ok {
        return Some(RopeInputError::InvalidMaxLength);
    }
    let n = pulley_count;
    if n == 0 || n > usize::MAX / 2 - 2 || point_kinds.len() != n + 2 || handle_count != n + 2 || coordinate_count
        != (n + 2) * 2 || pulley_windings.len() != n {
        return Some(RopeInputError::InvalidArrayLengths);
    }
    match point_error(point_ok[0], point_kinds[0]) {
        Some(e) => return Some(e),
        None => {},
    }
    match point_error(point_ok[1], point_kinds[1]) {
        Some(e) => return Some(e),
        None => {},
    }
    let ghost kinds = point_kinds@;
    let ghost windings = pulley_windings@;
    let ghost points = point_ok@;
    let ghost radii = radius_ok@;
    let mut k: usize = 0;
    while k < n
        invariant
            n == pulley_count,
            point_kinds@.len() == n + 2,
            point_ok@.len() == n + 2,
            radius_ok@.len() == n,
            pulley_windings@.len() == n,
            kinds == point_kinds@,
            windings == pulley_windings@,
            points == point_ok@,
            radii == radius_ok@,
            n <= usize::MAX / 2 - 2,
            description_verdict(
                length_ok,
                kinds,
                handle_count as nat,
                coordinate_count as nat,
                n as nat,
                windings,
                points,
                radii,
            ) == pulleys_verdict(kinds, windings, points, radii, n as int),
            k <= n,
            pulleys_verdict(kinds, windings, points, radii, k as int) is None,
        decreases n - k,
    {
        let e = pulley_error(radius_ok[k], pulley_windings[k], point_ok[k + 2], point_kinds[k + 2]);
        if e.is_some() {
            proof {
                assert(pulleys_verdict(kinds, windings, points, radii, k + 1) == e);
                lemma_pulleys_verdict_sticks(kinds, windings, points, radii, k + 1, n as int);
            }
            return e;
        }
        k = k + 1;
    }
    None
}

/// Whether a length or radius is finite and positive.
pub open spec fn usable<S: Scalar>(value: S) -> bool {
    value.spec_is_finite() && !value.spec_at_most(S::ZERO)
}

/// Whether each of the first `count` routed points has finite coordinates.
pub open spec fn coordinates_finite<S: Scalar>(coordinates: Seq<S>, count: nat) -> Seq<bool> {
    Seq::new(count, |k: int| (Vector { x: coordinates[2 * k], y: coordinates[2 * k + 1] }).spec_is_finite())
}

/// Whether each radius is finite and positive.
pub open spec fn radii_usable<S: Scalar>(radii: Seq<S>) -> Seq<bool> {
    Seq::new(radii.len(), |k: int| usable(radii[k]))
}

/// Why a flat description is rejected, or `None` when it is accepted.
pub open spec fn flat_verdict<S: Scalar>(
    max_length: S,
    kinds: Seq<u32>,
    handle_count: nat,
    coordinates: Seq<S>,
    radii: Seq<S>,
    windings: Seq<u32>,
) -> Option<RopeInputError> {
    description_verdict(
        usable(max_length),
        kinds,
        handle_count,
        coordinates.len(),
        radii.len(),
        windings,
        coordinates_finite(coordinates, kinds.len()),
        radii_usable(radii),
    )
}

/// Routed point `index` of a flat description whose kind is known.
fn build_point<S: Scalar>(index: usize, point_kinds: &[u32], body_handles: &[u64], point_coordinates: &[S]) -> (r:
    RoutedRopePoint<S>)
    requires
        index < point_kinds@.len(),
        index < body_handles@.len(),
        2 * index + 1 < point_coordinates@.len(),
        point_kinds@[index as int] <= 1,
    ensures
        r == described_point(
            point_kinds@[index as int],
            body_handles@[index as int],
            Vector { x: point_coordinates@[2 * index], y: point_coordinates@[2 * index + 1] },
        ),
{
    let available = point_coordinates.len();
    assert(2 * index + 1 < available);
    let coordinates = Vector::new(point_coordinates[index * 2], point_coordinates[index * 2 + 1]);
    if point_kinds[index] == 0 {
        RoutedRopePoint::World(coordinates)
    } else {
        let body = body_handle(body_handles[index]);
        proof {
            Index::lemma_raw_parts(body_handles@[index as int] as u32, (body_handles@[index as int] >> 32u64) as u32);
            Index::lemma_equal_parts(
                body.0,
                Index::spec_from_raw_parts(body_handles@[index as int] as u32, (body_handles@[index as int] >> 32u64) as u32),
            );
        }
        RoutedRopePoint::Body { body, local_anchor: coordinates }
    }
}

/// Whether `c` is the fresh, enabled constraint that a flat description
/// gives: its points, pulleys and maximum length as described, a valid
/// status, and nothing measured or carried yet.
pub open spec fn described_constraint<S: Scalar>(
    c: RoutedRopeConstraint<S>,
    max_length: S,
    point_kinds: Seq<u32>,
    body_handles: Seq<u64>,
    point_coordinates: Seq<S>,
    pulley_radii: Seq<S>,
    pulley_windings: Seq<u32>,
) -> bool {
    &&& lengths_match(
        point_kinds.len(),
        body_handles.len(),
        point_coordinates.len(),
        pulley_radii.len(),
        pulley_windings.len(),
    )
    &&& c.spec_max_length() == max_length
    &&& c.spec_enabled()
    &&& c.status() == RoutedRopeStatus::Valid
    &&& !c.active()
    &&& c.current_length() == S::ZERO
    &&& c.length_error() == S::ZERO.spec_minus(max_length)
    &&& c.constraint_speed() == S::ZERO
    &&& c.step_impulse() == S::ZERO
    &&& c.impulse() == S::ZERO
    &&& c.warmstart_impulse() == S::ZERO
    &&& c.inverse_lhs() == S::ZERO
    &&& c.prepared().len() == 0
    &&& c.jacobians().len() == 0
    &&& c.spec_pulleys().len() == pulley_radii.len()
    &&& forall|k: int|
        0 <= k < point_kinds.len() ==> #[trigger] point_kinds[k] <= 1 && c.route_point(k) == described_point(
            point_kinds[k],
            body_handles[k],
            Vector { x: point_coordinates[2 * k], y: point_coordinates[2 * k + 1] },
        )
    &&& forall|k: int|
        0 <= k < pulley_radii.len() ==> #[trigger] pulley_windings[k] <= 1 && c.spec_pulleys()[k].radius
            == pulley_radii[k] && c.spec_pulleys()[k].winding == described_winding(pulley_windings[k])
}

/// Builds an enabled rope constraint from a flat description.
///
/// The description is judged by [`description_error`], from whether the
/// maximum length and each pulley radius are finite and positive and whether
/// each routed point's coordinates are finite.
pub fn create_routed_rope_constraint<S: Scalar>(
    max_length: S,
    point_kinds: &[u32],
    body_handles: &[u64],
    point_coordinates: &[S],
    pulley_radii: &[S],
    pulley_windings: &[u32],
) -> (r: Result<RoutedRopeConstraint<S>, RopeInputError>)
    ensures
        flat_verdict(max_length, point_kinds@, body_handles@.len(), point_coordinates@, pulley_radii@, pulley_windings@)
            matches Some(e) ==> r == Err::<RoutedRopeConstraint<S>, _>(e),
        flat_verdict(max_length, point_kinds@, body_handles@.len(), point_coordinates@, pulley_radii@, pulley_windings@)
            is None ==> r is Ok,
        r matches Err(e) ==> exists|length_ok: bool, point_ok: Seq<bool>, radius_ok: Seq<bool>|
            #[trigger] description_verdict(
                length_ok,
                point_kinds@,
                body_handles@.len(),
                point_coordinates@.len(),
                pulley_radii@.len(),
                pulley_windings@,
                point_ok,
                radius_ok,
            ) == Some(e),
        !lengths_match(
            point_kinds@.len(),
            body_handles@.len(),
            point_coordinates@.len(),
            pulley_radii@.len(),
            pulley_windings@.len(),
        ) ==> (r == Err::<RoutedRopeConstraint<S>, _>(RopeInputError::InvalidMaxLength) || r == Err::<
            RoutedRopeConstraint<S>,
            _,
        >(RopeInputError::InvalidArrayLengths)),
        r == Err::<RoutedRopeConstraint<S>, _>(RopeInputError::UnknownPointKind) ==> exists|k: int|
            0 <= k < point_kinds@.len() && #[trigger] point_kinds@[k] > 1,
        r == Err::<RoutedRopeConstraint<S>, _>(RopeInputError::UnknownPulleyWinding) ==> exists|k: int|
            0 <= k < pulley_windings@.len() && #[trigger] pulley_windings@[k] > 1,
        r matches Ok(c) ==> described_constraint(
            c,
            max_length,
            point_kinds@,
            body_handles@,
            point_coordinates@,
            pulley_radii@,
            pulley_windings@,
        ),
{
    let length_ok = max_length.is_finite() && !max_length.at_most(S::ZERO);
    let n = pulley_radii.len();
    let shaped = n <= usize::MAX / 2 - 2 && point_kinds.len() == n + 2 && point_coordinates.len() == (n + 2) * 2;
    let mut point_ok: Vec<bool> = Vec::new();
    let mut radius_ok: Vec<bool> = Vec::new();
    if shaped {
        let mut k: usize = 0;
        while k < n + 2
            invariant
                n <= usize::MAX / 2 - 2,
                point_coordinates@.len() == (n + 2) * 2,
                k <= n + 2,
                point_ok@ == coordinates_finite(point_coordinates@, k as nat),
            decreases n + 2 - k,
        {
            let ghost before = point_ok@;
            point_ok.push(Vector::new(point_coordinates[2 * k], point_coordinates[2 * k + 1]).is_finite());
            assert(point_ok@ =~= coordinates_finite(point_coordinates@, (k + 1) as nat));
            k = k + 1;
        }
        let mut k: usize = 0;
        while k < n
            invariant
                n == pulley_radii@.len(),
                k <= n,
                radius_ok@ == Seq::new(k as nat, |j: int| usable(pulley_radii@[j])),
            decreases n - k,
        {
            let radius = pulley_radii[k];
            radius_ok.push(radius.is_finite() && !radius.at_most(S::ZERO));
            assert(radius_ok@ =~= Seq::new((k + 1) as nat, |j: int| usable(pulley_radii@[j])));
            k = k + 1;
        }
    }
    let verdict = description_error(
        length_ok,
        point_kinds,
        body_handles.len(),
        point_coordinates.len(),
        n,
        pulley_windings,
        point_ok.as_slice(),
        radius_ok.as_slice(),
    );
    let ghost kinds = point_kinds@;
    let ghost windings = pulley_windings@;
    let ghost points = point_ok@;
    let ghost radii = radius_ok@;
    proof {
        if length_ok && lengths_match(
            point_kinds@.len(),
            body_handles@.len(),
            point_coordinates@.len(),
            pulley_radii@.len(),
            pulley_windings@.len(),
        ) {
            assert(points =~= coordinates_finite(point_coordinates@, point_kinds@.len()));
            assert(radii =~= radii_usable(pulley_radii@));
        }
        assert(verdict == flat_verdict(
            max_length,
            point_kinds@,
            body_handles@.len(),
            point_coordinates@,
            pulley_radii@,
            pulley_windings@,
        ));
        if verdict is Some {
            lemma_pulleys_rejection_cause(kinds, windings, points, radii, n as int);
            if verdict == Some(RopeInputError::UnknownPointKind) && point_verdict(points[0], kinds[0]) is None
                && point_verdict(points[1], kinds[1]) is None {
                let j = choose|j: int| 0 <= j < n && #[trigger] kinds[j + 2] > 1;
                assert(point_kinds@[j + 2] > 1);
            }
            if verdict == Some(RopeInputError::UnknownPulleyWinding) {
                let j = choose|j: int| 0 <= j < n && #[trigger] windings[j] > 1;
                assert(pulley_windings@[j] > 1);
            }
            if verdict == Some(RopeInputError::UnknownPointKind) && point_verdict(points[0], kinds[0]) is Some {
                assert(point_kinds@[0] > 1);
            }
            if verdict == Some(RopeInputError::UnknownPointKind) && point_verdict(points[0], kinds[0]) is None
                && point_verdict(points[1], kinds[1]) is Some {
                assert(point_kinds@[1] > 1);
            }
        }
    }
    match verdict {
        Some(e) => {
            return Err(e);
        },
        None => {},
    }
    proof {
        lemma_pulleys_accepted(kinds, windings, points, radii, n as int);
    }
    let endpoint_a = build_point(0, point_kinds, body_handles, point_coordinates);
    let endpoint_b = build_point(1, point_kinds, body_handles, point_coordinates);
    let mut pulleys: Vec<RoutedRopePulley<S>> = Vec::new();
    let mut index: usize = 0;
    while index < n
        invariant
            n == pulley_radii@.len(),
            n == pulley_windings@.len(),
            point_kinds@.len() == n + 2,
            body_handles@.len() == n + 2,
            point_coordinates@.len() == 2 * (n + 2),
            n <= usize::MAX / 2 - 2,
            kinds == point_kinds@,
            windings == pulley_windings@,
            forall|j: int| 0 <= j < n ==> #[trigger] windings[j] <= 1 && kinds[j + 2] <= 1,
            index <= n,
            pulleys@.len() == index,
            forall|k: int|
                0 <= k < index ==> #[trigger] pulley_windings@[k] <= 1 && point_kinds@[k + 2] <= 1
                    && pulleys@[k].radius == pulley_radii@[k] && pulleys@[k].winding == described_winding(
                    pulley_windings@[k],
                ) && pulleys@[k].center == described_point(
                    point_kinds@[k + 2],
                    body_handles@[k + 2],
                    Vector { x: point_coordinates@[2 * (k + 2)], y: point_coordinates@[2 * (k + 2) + 1] },
                ),
        decreases n - index,
    {
        assert(windings[index as int] <= 1 && kinds[index + 2] <= 1);
        let winding = if pulley_windings[index] == 0 {
            RoutedRopeWinding::Clockwise
        } else {
            RoutedRopeWinding::Counterclockwise
        };
        let center = build_point(index + 2, point_kinds, body_handles, point_coordinates);
        pulleys.push(RoutedRopePulley { center, radius: pulley_radii[index], winding });
        index = index + 1;
    }
    let ghost config = pulleys@;
    let c = RoutedRopeConstraint::new(endpoint_a, endpoint_b, pulleys, max_length);
    proof {
        assert forall|k: int|
            0 <= k < point_kinds@.len() implies #[trigger] point_kinds@[k] <= 1 && c.route_point(k) == described_point(
                point_kinds@[k],
                body_handles@[k],
                Vector { x: point_coordinates@[2 * k], y: point_coordinates@[2 * k + 1] },
            ) by {
            if k >= 2 {
                assert(pulley_windings@[k - 2] <= 1);
                assert(c.route_point(k) == config[k - 2].center);
            }
        }
        assert forall|k: int|
            0 <= k < pulley_radii@.len() implies #[trigger] pulley_windings@[k] <= 1 && c.spec_pulleys()[k].radius
                == pulley_radii@[k] && c.spec_pulleys()[k].winding == described_winding(pulley_windings@[k]) by {
            assert(c.spec_pulleys()[k] == config[k]);
        }
    }
    Ok(c)
}

/// Creates a constraint from a flat description, stores it, and returns its packed handle.
pub fn insert_routed_rope_constraint<S: Scalar>(
    set: &mut RoutedRopeConstraintSet<S>,
    max_length: S,
    point_kinds: &[u32],
    body_handles: &[u64],
    point_coordinates: &[S],
    pulley_radii: &[S],
    pulley_windings: &[u32],
) -> (r: Result<u64, RopeInputError>)
    requires
        old(set).wf(),
        old(set).count() < u32::MAX,
    ensures
        final(set).wf(),
        r is Err ==> final(set)@ == old(set)@,
        flat_verdict(max_length, point_kinds@, body_handles@.len(), point_coordinates@, pulley_radii@, pulley_windings@)
            matches Some(e) ==> r == Err::<u64, RopeInputError>(e),
        flat_verdict(max_length, point_kinds@, body_handles@.len(), point_coordinates@, pulley_radii@, pulley_windings@)
            is None ==> r is Ok,
        r matches Ok(bits) ==> {
            let h = RoutedRopeConstraintHandle(Index::spec_from_raw_parts(bits as u32, (bits >> 32u64) as u32));
            &&& !old(set)@.contains_key(h)
            &&& final(set)@.contains_key(h)
            &&& final(set)@ == old(set)@.insert(h, final(set)@[h])
            &&& described_constraint(
                final(set)@[h],
                max_length,
                point_kinds@,
                body_handles@,
                point_coordinates@,
                pulley_radii@,
                pulley_windings@,
            )
        },
{
    let constraint = match create_routed_rope_constraint(
        max_length,
        point_kinds,
        body_handles,
        point_coordinates,
        pulley_radii,
        pulley_windings,
    ) {
        Ok(c) => c,
        Err(e) => return Err(e),
    };
    let handle = set.insert(constraint);
    let bits = flat_handle(handle.0);
    proof {
        Index::lemma_raw_parts(bits as u32, (bits >> 32u64) as u32);
        Index::lemma_equal_parts(handle.0, Index::spec_from_raw_parts(bits as u32, (bits >> 32u64) as u32));
    }
    Ok(bits)
}

/// The status code of the constraint packed in `bits`, or `u32::MAX` when there is none.
pub fn routed_rope_status_code<S: Scalar>(set: &RoutedRopeConstraintSet<S>, bits: u64) -> (r: u32)
    requires
        set.wf(),
    ensures
        set@.contains_key(routed_rope_handle_spec(bits)) ==> r == set@[routed_rope_handle_spec(bits)].status().code(),
        !set@.contains_key(routed_rope_handle_spec(bits)) ==> r == u32::MAX,
{
    let h = routed_rope_handle(bits);
    proof {
        lemma_handle_bits(h, bits);
    }
    match set.get(h) {
        Some(c) => c.status().code(),
        None => u32::MAX,
    }
}

/// The routed-rope handle packed in `bits`.
pub open spec fn routed_rope_handle_spec(bits: u64) -> RoutedRopeConstraintHandle {
    RoutedRopeConstraintHandle(Index::spec_from_raw_parts(bits as u32, (bits >> 32u64) as u32))
}

proof fn lemma_handle_bits(h: RoutedRopeConstraintHandle, bits: u64)
    requires
        h.0.slot() == bits as u32,
        h.0.stamp() == (bits >> 32u64) as u32,
    ensures
        h == routed_rope_handle_spec(bits),
{
    Index::lemma_raw_parts(bits as u32, (bits >> 32u64) as u32);
    Index::lemma_equal_parts(h.0, Index::spec_from_raw_parts(bits as u32, (bits >> 32u64) as u32));
}

/// Removes the constraint packed in `bits`; whether there was one.
pub fn remove_routed_rope_constraint<S: Scalar>(set: &mut RoutedRopeConstraintSet<S>, bits: u64) -> (r: bool)
    requires
        old(set).wf(),
        old(set)@.contains_key(routed_rope_handle_spec(bits)) ==> old(set).can_remove(),
    ensures
        final(set).wf(),
        r == old(set)@.contains_key(routed_rope_handle_spec(bits)),
        final(set)@ == old(set)@.remove(routed_rope_handle_spec(bits)),
{
    let h = routed_rope_handle(bits);
    proof {
        lemma_handle_bits(h, bits);
    }
    let removed = set.remove(h);
    proof {
        if !old(set)@.contains_key(h) {
            assert(old(set)@.remove(h) =~= old(set)@);
        }
    }
    removed.is_some()
}

/// Enables or disables the constraint packed in `bits`; whether there was one.
pub fn set_routed_rope_constraint_enabled<S: Scalar>(set: &mut RoutedRopeConstraintSet<S>, bits: u64, enabled: bool) -> (r: bool)
    requires
        old(set).wf(),
    ensures
        final(set).wf(),
        r == old(set)@.contains_key(routed_rope_handle_spec(bits)),
        final(set)@.dom() == old(set)@.dom(),
        r ==> final(set)@ == old(set)@.insert(routed_rope_handle_spec(bits), final(set)@[routed_rope_handle_spec(bits)]),
        r ==> RoutedRopeConstraint::enable_outcome(
            &old(set)@[routed_rope_handle_spec(bits)],
            &final(set)@[routed_rope_handle_spec(bits)],
            enabled,
        ),
        !r ==> final(set)@ == old(set)@,
{
    let h = routed_rope_handle(bits);
    proof {
        lemma_handle_bits(h, bits);
    }
    match set.get_mut(h) {
        Some(c) => {
            c.set_enabled(enabled);
            true
        },
        None => false,
    }
}

/// Whether a constraint is stored under the handle packed in `bits`.
pub fn routed_rope_constraint_is_valid<S: Scalar>(set: &RoutedRopeConstraintSet<S>, bits: u64) -> (r: bool)
    requires
        set.wf(),
    ensures
        r == set@.contains_key(routed_rope_handle_spec(bits)),
{
    let h = routed_rope_handle(bits);
    proof {
        lemma_handle_bits(h, bits);
    }
    set.get(h).is_some()
}

/// Whether the constraint packed in `bits` exists and carried tension in the latest step.
pub fn routed_rope_constraint_active<S: Scalar>(set: &RoutedRopeConstraintSet<S>, bits: u64) -> (r: bool)
    requires
        set.wf(),
    ensures
        r == (set@.contains_key(routed_rope_handle_spec(bits)) && set@[routed_rope_handle_spec(bits)].active()),
{
    let h = routed_rope_handle(bits);
    proof {
        lemma_handle_bits(h, bits);
    }
    match set.get(h) {
        Some(c) => c.active(),
        None => false,
    }
}

/// The observations of the constraint packed in `bits`: current length,
/// length error, length rate and step impulse, when it exists.
pub fn routed_rope_constraint_observations<S: Scalar>(set: &RoutedRopeConstraintSet<S>, bits: u64) -> (r: Option<
    (S, S, S, S),
>)
    requires
        set.wf(),
    ensures
        set@.contains_key(routed_rope_handle_spec(bits)) ==> r == Some(
            (
                set@[routed_rope_handle_spec(bits)].current_length(),
                set@[routed_rope_handle_spec(bits)].length_error(),
                set@[routed_rope_handle_spec(bits)].constraint_speed(),
                set@[routed_rope_handle_spec(bits)].step_impulse(),
            ),
        ),
        !set@.contains_key(routed_rope_handle_spec(bits)) ==> r is None,
{
    let h = routed_rope_handle(bits);
    proof {
        lemma_handle_bits(h, bits);
    }
    match set.get(h) {
        Some(c) => Some((c.current_length(), c.length_error(), c.constraint_speed(), c.step_impulse())),
        None => None,
    }
}

} // verus!
