use std::f32::consts::PI;

use lib::body::Pose;
use lib::contact::{write_contacts, Contact, ContactFeature, ContactManifold};
use lib::profile::{AnalyticProfile, ProfileMode, ProfileSegment};
use lib::profile_box::{evenly_spaced, profile_ball_contact, profile_box_contact, Ball, Cuboid, Penetration};
use lib::profile_contact::{profile_profile_contact, profile_profile_manifold_contacts};
use lib::profile_interior::{contains, monotone_arc_ranges, signed_area};
use lib::profile_pair::{
    conservative_cast, AnalyticProfileDispatcher, ClosestPoints, PairShape, ShapeCastOptions, ShapeCastStatus,
};
use lib::scalar::{Scalar, TotalOrder, Vector};

/// Single-precision reals, as the physics world uses them.
#[derive(Clone, Copy, Debug, PartialEq)]
struct Real(f32);

impl Scalar for Real {
    const ZERO: Self = Real(0.0);
    const ONE: Self = Real(1.0);
    const TAU: Self = Real(std::f32::consts::TAU);

    fn spec_from_decimal(mantissa: i64, exponent: i32) -> Self {
        Real(format!("{}e{}", mantissa, exponent).parse().unwrap())
    }

    fn from_decimal(mantissa: i64, exponent: i32) -> Self {
        Self::spec_from_decimal(mantissa, exponent)
    }
    fn spec_plus(self, rhs: Self) -> Self {
        Real(self.0 + rhs.0)
    }
    fn plus(self, rhs: Self) -> Self {
        self.spec_plus(rhs)
    }
    fn spec_minus(self, rhs: Self) -> Self {
        Real(self.0 - rhs.0)
    }
    fn minus(self, rhs: Self) -> Self {
        self.spec_minus(rhs)
    }
    fn spec_times(self, rhs: Self) -> Self {
        Real(self.0 * rhs.0)
    }
    fn times(self, rhs: Self) -> Self {
        self.spec_times(rhs)
    }
    fn spec_divided_by(self, rhs: Self) -> Self {
        Real(self.0 / rhs.0)
    }
    fn divided_by(self, rhs: Self) -> Self {
        self.spec_divided_by(rhs)
    }
    fn spec_remainder(self, rhs: Self) -> Self {
        Real(self.0 % rhs.0)
    }
    fn remainder(self, rhs: Self) -> Self {
        self.spec_remainder(rhs)
    }
    fn spec_negated(self) -> Self {
        Real(-self.0)
    }
    fn negated(self) -> Self {
        self.spec_negated()
    }
    fn spec_absolute(self) -> Self {
        Real(self.0.abs())
    }
    fn absolute(self) -> Self {
        self.spec_absolute()
    }
    fn spec_square_root(self) -> Self {
        Real(self.0.sqrt())
    }
    fn square_root(self) -> Self {
        self.spec_square_root()
    }
    fn spec_arc_tangent2(self, x: Self) -> Self {
        Real(self.0.atan2(x.0))
    }
    fn arc_tangent2(self, x: Self) -> Self {
        self.spec_arc_tangent2(x)
    }
    fn spec_sine(self) -> Self {
        Real(self.0.sin())
    }
    fn sine(self) -> Self {
        self.spec_sine()
    }
    fn spec_cosine(self) -> Self {
        Real(self.0.cos())
    }
    fn cosine(self) -> Self {
        self.spec_cosine()
    }
    fn spec_euclid_remainder(self, rhs: Self) -> Self {
        Real(self.0.rem_euclid(rhs.0))
    }
    fn euclid_remainder(self, rhs: Self) -> Self {
        self.spec_euclid_remainder(rhs)
    }
    fn spec_ceiling(self) -> Self {
        Real(self.0.ceil())
    }
    fn ceiling(self) -> Self {
        self.spec_ceiling()
    }
    fn spec_floor(self) -> Self {
        Real(self.0.floor())
    }
    fn floor(self) -> Self {
        self.spec_floor()
    }
    fn spec_to_i32(self) -> i32 {
        self.0 as i32
    }
    fn to_i32(self) -> i32 {
        self.spec_to_i32()
    }
    fn spec_from_i32(value: i32) -> Self {
        Real(value as f32)
    }
    fn from_i32(value: i32) -> Self {
        Self::spec_from_i32(value)
    }
    fn spec_from_usize(value: usize) -> Self {
        Real(value as f32)
    }
    fn from_usize(value: usize) -> Self {
        Self::spec_from_usize(value)
    }
    fn spec_signum(self) -> Self {
        Real(self.0.signum())
    }
    fn signum(self) -> Self {
        self.spec_signum()
    }
    fn spec_sign(self) -> i8 {
        self.0.signum() as i8
    }
    fn sign(self) -> i8 {
        self.spec_sign()
    }
    fn spec_is_finite(self) -> bool {
        self.0.is_finite()
    }
    fn is_finite(self) -> bool {
        self.spec_is_finite()
    }
    fn spec_less_than(self, rhs: Self) -> bool {
        self.0 < rhs.0
    }
    fn less_than(self, rhs: Self) -> bool {
        self.spec_less_than(rhs)
    }
    fn spec_at_most(self, rhs: Self) -> bool {
        self.0 <= rhs.0
    }
    fn at_most(self, rhs: Self) -> bool {
        self.spec_at_most(rhs)
    }
    fn spec_equals(self, rhs: Self) -> bool {
        self.0 == rhs.0
    }
    fn equals(self, rhs: Self) -> bool {
        self.spec_equals(rhs)
    }
    fn spec_smaller(self, rhs: Self) -> Self {
        Real(self.0.min(rhs.0))
    }
    fn smaller(self, rhs: Self) -> Self {
        self.spec_smaller(rhs)
    }
    fn spec_larger(self, rhs: Self) -> Self {
        Real(self.0.max(rhs.0))
    }
    fn larger(self, rhs: Self) -> Self {
        self.spec_larger(rhs)
    }
    fn spec_clamped(self, low: Self, high: Self) -> Self {
        Real(if self.0 < low.0 {
            low.0
        } else if self.0 > high.0 {
            high.0
        } else {
            self.0
        })
    }
    fn clamped(self, low: Self, high: Self) -> Self {
        self.spec_clamped(low, high)
    }
    fn spec_total_order(self, rhs: Self) -> TotalOrder {
        match self.0.total_cmp(&rhs.0) {
            std::cmp::Ordering::Less => TotalOrder::Less,
            std::cmp::Ordering::Equal => TotalOrder::Equal,
            std::cmp::Ordering::Greater => TotalOrder::Greater,
        }
    }
    fn total_order(self, rhs: Self) -> TotalOrder {
        self.spec_total_order(rhs)
    }
}

fn v(x: f32, y: f32) -> Vector<Real> {
    Vector::new(Real(x), Real(y))
}

fn length(a: Vector<Real>) -> f32 {
    (a.x.0 * a.x.0 + a.y.0 * a.y.0).sqrt()
}

fn minus(a: Vector<Real>, b: Vector<Real>) -> Vector<Real> {
    v(a.x.0 - b.x.0, a.y.0 - b.y.0)
}

fn translation(x: f32, y: f32) -> Pose<Real> {
    Pose::from_translation(v(x, y))
}

fn line(a: Vector<Real>, b: Vector<Real>) -> ProfileSegment<Real> {
    ProfileSegment::Line { start: a, end: b }
}

fn arc(center: Vector<Real>, radius: f32, start_angle: f32, sweep: f32) -> ProfileSegment<Real> {
    ProfileSegment::Arc { center, radius: Real(radius), start_angle: Real(start_angle), sweep: Real(sweep) }
}

fn notched_profile() -> Vec<ProfileSegment<Real>> {
    vec![
        line(v(-2.0, 1.0), v(-0.5, 1.0)),
        arc(v(0.0, 1.0), 0.5, PI, PI),
        line(v(0.5, 1.0), v(2.0, 1.0)),
        line(v(2.0, 1.0), v(2.0, -1.0)),
        line(v(2.0, -1.0), v(-2.0, -1.0)),
        line(v(-2.0, -1.0), v(-2.0, 1.0)),
    ]
}

#[test]
fn classifies_a_semicircular_notch_without_sampling() {
    let profile = notched_profile();
    assert!(contains(&profile, &v(0.0, 0.0)));
    assert!(!contains(&profile, &v(0.0, 0.75)));
    assert!(!contains(&profile, &v(0.0, 1.25)));
    assert!(contains(&profile, &v(1.0, 0.75)));
    assert!(signed_area(&profile).0 < 0.0);
}

#[test]
fn classification_does_not_depend_on_contour_direction() {
    let reversed = notched_profile()
        .into_iter()
        .rev()
        .map(|segment| match segment {
            ProfileSegment::Line { start, end } => ProfileSegment::Line { start: end, end: start },
            ProfileSegment::Arc { center, radius, start_angle, sweep } => ProfileSegment::Arc {
                center,
                radius,
                start_angle: Real(start_angle.0 + sweep.0),
                sweep: Real(-sweep.0),
            },
        })
        .collect::<Vec<_>>();
    assert!(contains(&reversed, &v(0.0, 0.0)));
    assert!(!contains(&reversed, &v(0.0, 0.75)));
    assert!(signed_area(&reversed).0 > 0.0);
}

fn circle(mode: ProfileMode) -> AnalyticProfile<Real> {
    AnalyticProfile::new(vec![arc(v(0.0, 0.0), 1.0, 0.0, PI), arc(v(0.0, 0.0), 1.0, PI, PI)], Real(0.02), mode)
        .expect("circle profile")
}

fn polygon(points: &[Vector<Real>]) -> AnalyticProfile<Real> {
    AnalyticProfile::new(
        (0..points.len()).map(|index| line(points[index], points[(index + 1) % points.len()])).collect(),
        Real(0.02),
        ProfileMode::Solid,
    )
    .expect("polygon profile")
}

fn rectangle(half_width: f32, half_height: f32) -> AnalyticProfile<Real> {
    polygon(&[
        v(-half_width, -half_height),
        v(half_width, -half_height),
        v(half_width, half_height),
        v(-half_width, half_height),
    ])
}

fn concave_profile() -> AnalyticProfile<Real> {
    polygon(&[v(-1.0, -1.0), v(1.0, -1.0), v(1.0, 1.0), v(0.2, 1.0), v(0.2, -0.2), v(-1.0, -0.2)])
}

#[test]
fn outline_circle_gap_is_analytic() {
    let first = circle(ProfileMode::Outline);
    let second = circle(ProfileMode::Outline);
    let contact = profile_profile_contact(&first, &translation(2.1, 0.0), &second);
    assert!((contact.dist.0 - 0.08).abs() < 1.0e-5);
    assert!(length(minus(contact.normal1, v(1.0, 0.0))) < 1.0e-5);
}

#[test]
fn overlapping_solid_circles_report_penetration() {
    let first = circle(ProfileMode::Solid);
    let second = circle(ProfileMode::Solid);
    let contact = profile_profile_contact(&first, &translation(1.8, 0.0), &second);
    assert!((contact.dist.0 + 0.2).abs() < 1.0e-5);
    assert!(length(minus(contact.normal1, v(1.0, 0.0))) < 1.0e-5);
}

#[test]
fn parallel_solid_faces_produce_two_stably_ordered_contacts() {
    let ground = rectangle(2.0, 0.2);
    let body = rectangle(0.5, 0.5);
    let contacts = profile_profile_manifold_contacts(&ground, &translation(0.0, 0.69), &body, Real(0.02));
    assert_eq!(contacts.len(), 2);
    assert!(contacts[0].point1.x.0 < contacts[1].point1.x.0);
    for contact in &contacts {
        assert!((contact.dist.0 + 0.01).abs() < 1.0e-5);
        assert!(length(minus(contact.normal1, v(0.0, 1.0))) < 1.0e-5);
    }
    let shifted = profile_profile_manifold_contacts(&ground, &translation(0.01, 0.69), &body, Real(0.02));
    assert_eq!(shifted.len(), 2);
    assert!(shifted[0].point1.x.0 < shifted[1].point1.x.0);
    assert!((shifted[0].point2.x.0 + 0.5).abs() < 1.0e-5);
    assert!((shifted[1].point2.x.0 - 0.5).abs() < 1.0e-5);
}

#[test]
fn curved_profile_pair_keeps_one_contact() {
    let first = circle(ProfileMode::Solid);
    let second = circle(ProfileMode::Solid);
    let contacts = profile_profile_manifold_contacts(&first, &translation(1.8, 0.0), &second, Real(0.02));
    assert_eq!(contacts.len(), 1);
    assert!((contacts[0].dist.0 + 0.2).abs() < 1.0e-5);
}

#[test]
fn line_arc_pair_reports_a_finite_contact_without_sampling() {
    let ground = rectangle(2.0, 0.2);
    let body = circle(ProfileMode::Solid);
    let contacts = profile_profile_manifold_contacts(&ground, &translation(0.0, 1.19), &body, Real(0.02));
    assert_eq!(contacts.len(), 1);
    assert!(contacts[0].dist.0.is_finite());
    assert!(contacts[0].dist.0 < 0.02);
    assert!(length(contacts[0].normal1) > 0.99);
}

#[test]
fn concave_containment_contact_is_finite_and_deterministic() {
    let outer = concave_profile();
    let inner = rectangle(0.15, 0.15);
    let pose = translation(0.1, -0.1);
    let first = profile_profile_manifold_contacts(&outer, &pose, &inner, Real(0.02));
    let second = profile_profile_manifold_contacts(&outer, &pose, &inner, Real(0.02));
    assert!(!first.is_empty());
    assert_eq!(first.len(), second.len());
    for (left, right) in first.iter().zip(second.iter()) {
        assert!(left.dist.0.is_finite());
        assert_eq!((left.point1.x, left.point1.y), (right.point1.x, right.point1.y));
        assert_eq!((left.point2.x, left.point2.y), (right.point2.x, right.point2.y));
        assert_eq!((left.normal1.x, left.normal1.y), (right.normal1.x, right.normal1.y));
    }
}

#[test]
fn profile_construction_refuses_broken_contours() {
    let circle_segments = || vec![arc(v(0.0, 0.0), 1.0, 0.0, PI), arc(v(0.0, 0.0), 1.0, PI, PI)];
    assert!(AnalyticProfile::new(vec![arc(v(0.0, 0.0), 1.0, 0.0, 2.0 * PI)], Real(0.02), ProfileMode::Solid).is_none());
    assert!(AnalyticProfile::new(circle_segments(), Real(0.0), ProfileMode::Solid).is_none());
    assert!(AnalyticProfile::new(circle_segments(), Real(f32::NAN), ProfileMode::Outline).is_none());
    let gap = vec![line(v(0.0, 0.0), v(1.0, 0.0)), line(v(1.0, 0.5), v(0.0, 0.0))];
    assert!(AnalyticProfile::new(gap, Real(0.02), ProfileMode::Outline).is_none());
    let flat_arc = vec![arc(v(0.0, 0.0), 0.0, 0.0, PI), line(v(0.0, 0.0), v(0.0, 0.0))];
    assert!(AnalyticProfile::new(flat_arc, Real(0.02), ProfileMode::Outline).is_none());
    let there_and_back = || vec![line(v(0.0, 0.0), v(1.0, 0.0)), line(v(1.0, 0.0), v(0.0, 0.0))];
    assert!(AnalyticProfile::new(there_and_back(), Real(0.02), ProfileMode::Solid).is_none());
    let outline = AnalyticProfile::new(there_and_back(), Real(0.02), ProfileMode::Outline).expect("outline");
    assert_eq!(outline.mode(), ProfileMode::Outline);
    assert_eq!(outline.segments().len(), 2);
    assert_eq!(outline.half_thickness(), Real(0.01));
    let solid = circle(ProfileMode::Solid);
    assert_eq!(solid.mode(), ProfileMode::Solid);
    assert_eq!(solid.ccd_thickness(), Real(0.0));
    assert!((solid.bounding_radius().0 - 2.0f32.sqrt()).abs() < 1.0e-5);
}

#[test]
fn arcs_split_where_the_sine_turns() {
    let ranges = monotone_arc_ranges(Real(0.0), Real(2.0 * PI));
    assert_eq!(ranges.len(), 3);
    assert_eq!(ranges[0].0, Real(0.0));
    assert!((ranges[0].1 .0 - PI / 2.0).abs() < 1.0e-6);
    assert!((ranges[1].1 .0 - 3.0 * PI / 2.0).abs() < 1.0e-6);
    assert_eq!(ranges[2].1, Real(2.0 * PI));
    for k in 0..ranges.len() - 1 {
        assert_eq!(ranges[k].1, ranges[k + 1].0);
    }
    let backwards = monotone_arc_ranges(Real(PI), Real(-PI));
    assert_eq!(backwards.len(), 2);
    assert_eq!(backwards[0].0, Real(PI));
    assert!((backwards[0].1 .0 - PI / 2.0).abs() < 1.0e-6);
    assert_eq!(backwards[1].1, Real(0.0));
}

#[test]
fn writing_contacts_updates_points_in_place() {
    let contact = |x: f32| Contact::new(v(x, 0.0), v(0.0, x), v(0.0, 1.0), v(0.0, -1.0), Real(-x));
    let mut manifold: ContactManifold<Real, u32> = ContactManifold::new();
    write_contacts(&mut manifold, &[contact(1.0), contact(2.0), contact(3.0)]);
    assert_eq!(manifold.points.len(), 3);
    assert_eq!(manifold.points[2].data, 0);
    assert_eq!(manifold.points[2].fid1, ContactFeature::Face(2));
    for (index, point) in manifold.points.iter_mut().enumerate() {
        point.data = 7 + index as u32;
    }
    write_contacts(&mut manifold, &[contact(4.0), contact(5.0)]);
    assert_eq!(manifold.points.len(), 2);
    assert_eq!(manifold.points[0].data, 7);
    assert_eq!(manifold.points[1].data, 8);
    assert_eq!(manifold.points[1].fid2, ContactFeature::Face(1));
    assert_eq!(manifold.points[1].local_p1.x, Real(5.0));
    assert_eq!(manifold.points[1].dist, Real(-5.0));
    assert_eq!((manifold.local_n1.x, manifold.local_n1.y), (Real(0.0), Real(1.0)));
    write_contacts(&mut manifold, &[]);
    assert!(manifold.points.is_empty());
    assert_eq!((manifold.local_n2.x, manifold.local_n2.y), (Real(0.0), Real(-1.0)));
}

#[test]
fn evenly_spaced_keeps_both_ends() {
    let items: Vec<Penetration<Real>> = (0..7)
        .map(|k| Penetration { point1: v(0.0, 0.0), point2: v(0.0, 0.0), normal1: v(0.0, 1.0), depth: Real(k as f32) })
        .collect();
    let picked: Vec<f32> = evenly_spaced(&items, 4).iter().map(|item| item.depth.0).collect();
    assert_eq!(picked, vec![0.0, 2.0, 4.0, 6.0]);
    let five: Vec<f32> = evenly_spaced(&items[..5].to_vec(), 4).iter().map(|item| item.depth.0).collect();
    assert_eq!(five, vec![0.0, 1.0, 2.0, 4.0]);
}

fn approaching(time: Real) -> Option<Contact<Real>> {
    let zero = v(0.0, 0.0);
    Some(Contact::new(zero, zero, v(1.0, 0.0), v(-1.0, 0.0), Real(1.0 - time.0)))
}

#[test]
fn conservative_cast_advances_to_the_target() {
    let hit = conservative_cast(Real(0.0), Real(10.0), Real(1.0), Real(0.0), true, approaching).expect("hit");
    assert_eq!(hit.status, ShapeCastStatus::Converged);
    assert!((hit.time_of_impact.0 - 1.0).abs() < 1.0e-5);
    assert!(conservative_cast(Real(0.0), Real(0.5), Real(1.0), Real(0.0), true, approaching).is_none());
    assert!(conservative_cast(Real(0.0), Real(10.0), Real(0.0), Real(0.0), true, approaching).is_none());
    assert!(conservative_cast(Real(0.0), Real(10.0), Real(1.0), Real(0.0), true, |_: Real| None).is_none());
    let touching = |_: Real| Some(Contact::new(v(0.0, 0.0), v(0.0, 0.0), v(1.0, 0.0), v(-1.0, 0.0), Real(-1.0)));
    assert!(conservative_cast(Real(2.0), Real(10.0), Real(1.0), Real(0.0), false, touching).is_none());
    let hit = conservative_cast(Real(2.0), Real(10.0), Real(1.0), Real(0.0), true, touching).expect("penetrating");
    assert_eq!(hit.status, ShapeCastStatus::PenetratingOrWithinTargetDist);
    assert_eq!(hit.time_of_impact, Real(2.0));
}

#[test]
fn dispatcher_answers_profile_ball_queries() {
    let profile = circle(ProfileMode::Solid);
    let ball = Ball { radius: Real(0.5) };
    let dispatcher = AnalyticProfileDispatcher;
    let pose = translation(2.0, 0.0);
    let shapes = (PairShape::Profile(&profile), PairShape::Ball(ball));
    let contact = profile_ball_contact(&profile, &pose, &ball);
    assert!((contact.dist.0 - 0.5).abs() < 1.0e-5);
    assert!(length(minus(contact.point1, v(1.0, 0.0))) < 1.0e-5);
    assert!(length(minus(contact.point2, v(-0.5, 0.0))) < 1.0e-5);
    assert!((dispatcher.distance(&pose, shapes.0, shapes.1).unwrap().0 - 0.5).abs() < 1.0e-5);
    assert_eq!(dispatcher.intersection_test(&pose, shapes.0, shapes.1), Ok(false));
    assert!(dispatcher.contact(&pose, shapes.0, shapes.1, Real(1.0)).unwrap().is_some());
    assert!(dispatcher.contact(&pose, shapes.0, shapes.1, Real(0.1)).unwrap().is_none());
    assert!(matches!(dispatcher.closest_points(&pose, shapes.0, shapes.1, Real(1.0)), Ok(ClosestPoints::WithinMargin(_, _))));
    assert!(matches!(dispatcher.closest_points(&pose, shapes.0, shapes.1, Real(0.1)), Ok(ClosestPoints::Disjoint)));
    // The same query with the ball first sees the contact from the ball.
    let reversed = dispatcher.contact(&translation(-2.0, 0.0), shapes.1, shapes.0, Real(1.0)).unwrap().unwrap();
    assert!(length(minus(reversed.normal1, v(-1.0, 0.0))) < 1.0e-5);
    assert!(length(minus(reversed.point2, v(1.0, 0.0))) < 1.0e-5);
    // Moving the ball towards the profile at unit speed closes the gap after 1.5.
    let options = ShapeCastOptions { max_time_of_impact: Real(10.0), target_distance: Real(0.0), stop_at_penetration: true };
    let hit = dispatcher.cast_shapes(&translation(3.0, 0.0), v(-1.0, 0.0), shapes.0, shapes.1, options).unwrap().unwrap();
    assert_eq!(hit.status, ShapeCastStatus::Converged);
    assert!((hit.time_of_impact.0 - 1.5).abs() < 1.0e-4);
    // Queries without a profile, or with a shape profiles ignore, are unsupported.
    assert!(dispatcher.distance(&pose, PairShape::Ball(ball), PairShape::Ball(ball)).is_err());
    assert!(dispatcher.distance(&pose, shapes.0, PairShape::Unsupported).is_err());
    assert!(dispatcher.distance(&pose, PairShape::Unsupported, shapes.0).is_err());
    assert!(dispatcher.contact_manifold_convex_convex().is_err());
}

#[test]
fn solid_profile_under_a_box_reports_its_patch() {
    let ground = rectangle(2.0, 0.2);
    let cuboid = Cuboid { half_extents: v(0.5, 0.5) };
    let pose = translation(0.0, 0.69);
    let contact = profile_box_contact(&ground, &pose, &cuboid);
    assert!((contact.dist.0 + 0.01).abs() < 1.0e-5);
    assert!(length(minus(contact.normal1, v(0.0, 1.0))) < 1.0e-5);
    let dispatcher = AnalyticProfileDispatcher;
    let mut manifolds: Vec<ContactManifold<Real, u32>> = Vec::new();
    dispatcher
        .contact_manifolds(&pose, PairShape::Profile(&ground), PairShape::Cuboid(cuboid), Real(0.02), &mut manifolds)
        .unwrap();
    assert_eq!(manifolds.len(), 1);
    assert_eq!(manifolds[0].points.len(), 2);
    assert_eq!(manifolds[0].points[0].fid1, ContactFeature::Face(0));
    assert!((manifolds[0].points[0].local_p1.x.0 - 0.5).abs() < 1.0e-5);
    assert!((manifolds[0].points[1].local_p1.x.0 + 0.5).abs() < 1.0e-5);
    assert!((manifolds[0].points[1].dist.0 + 0.01).abs() < 1.0e-5);
    assert_eq!((manifolds[0].local_n1.x, manifolds[0].local_n1.y), (Real(0.0), Real(1.0)));
    // Far above, nothing is within the prediction and the manifold empties.
    dispatcher
        .contact_manifolds(&translation(0.0, 3.0), PairShape::Profile(&ground), PairShape::Cuboid(cuboid), Real(0.02), &mut manifolds)
        .unwrap();
    assert_eq!(manifolds.len(), 1);
    assert!(manifolds[0].points.is_empty());
}

#[test]
fn outline_against_solid_is_the_flipped_solid_contact() {
    let outline = circle(ProfileMode::Outline);
    let solid = circle(ProfileMode::Solid);
    let pose = translation(0.0, 2.1);
    let direct = profile_profile_contact(&outline, &pose, &solid);
    let flipped = profile_profile_contact(&solid, &pose.inverse(), &outline).flipped();
    assert_eq!(direct.dist, flipped.dist);
    assert_eq!((direct.point1.x, direct.point1.y), (flipped.point1.x, flipped.point1.y));
    assert_eq!((direct.normal2.x, direct.normal2.y), (flipped.normal2.x, flipped.normal2.y));
    assert!((direct.dist.0 - 0.09).abs() < 1.0e-5);
}

#[test]
fn point_queries_respect_the_mode() {
    let solid = circle(ProfileMode::Solid);
    let outside = solid.project_local_point(v(2.0, 0.0), true);
    assert!(!outside.is_inside);
    assert!(length(minus(outside.point, v(1.0, 0.0))) < 1.0e-5);
    let inside = solid.project_local_point(v(0.5, 0.3), true);
    assert!(inside.is_inside);
    assert_eq!((inside.point.x, inside.point.y), (Real(0.5), Real(0.3)));
    assert!(solid.contains_local_point(v(0.2, 0.3)));
    let outline = circle(ProfileMode::Outline);
    assert!(outline.contains_local_point(v(1.005, 0.0)));
    assert!(!outline.contains_local_point(v(0.5, 0.3)));
    assert!(!outline.project_local_point(v(1.5, 0.0), false).is_inside);
}
