//! The scalar field the rope geometry is computed in, and planar vectors over it.
//!
//! The library never fixes a concrete number type: every arithmetic primitive it
//! needs is a method of [`Scalar`], which a host implements for its own real
//! type. Each method is known only to return a function of its operands, so
//! everything proved in this crate holds whatever numbers the primitives give.
use vstd::prelude::*;

verus! {

/// Result of a total order comparison between two scalars.
#[derive(Clone, Copy, Debug, PartialEq, Eq, Structural)]
pub enum TotalOrder {
    Less,
    Equal,
    Greater,
}

/// Arithmetic primitives of a real number type with IEEE-like behaviour.
///
/// Each primitive `f` comes with a spec function `spec_f` that names its
/// result: the primitive returns `spec_f` of its operands. Nothing else is
/// said of `spec_f`, so the contracts of this crate relate results to the
/// primitives that computed them and hold whatever numbers those are.
///
/// An implementation must give the same result for the same operands, and
/// must not panic. A floating-point type meets this on one machine and build
/// except for the payload of a NaN result and, where the platform's library
/// allows it, the last bits of its transcendental functions.
pub trait Scalar: Copy + Sized {
    /// The additive identity.
    const ZERO: Self;
    /// The multiplicative identity.
    const ONE: Self;
    /// The full turn, in radians.
    const TAU: Self;

    spec fn spec_from_decimal(mantissa: i64, exponent: i32) -> Self;

    /// The representable value nearest to `mantissa * 10^exponent`.
    fn from_decimal(mantissa: i64, exponent: i32) -> (r: Self)
        ensures
            r == Self::spec_from_decimal(mantissa, exponent),
    ;

    spec fn spec_plus(self, rhs: Self) -> Self;

    fn plus(self, rhs: Self) -> (r: Self)
        ensures
            r == self.spec_plus(rhs),
    ;

    spec fn spec_minus(self, rhs: Self) -> Self;

    fn minus(self, rhs: Self) -> (r: Self)
        ensures
            r == self.spec_minus(rhs),
    ;

    spec fn spec_times(self, rhs: Self) -> Self;

    fn times(self, rhs: Self) -> (r: Self)
        ensures
            r == self.spec_times(rhs),
    ;

    spec fn spec_divided_by(self, rhs: Self) -> Self;

    fn divided_by(self, rhs: Self) -> (r: Self)
        ensures
            r == self.spec_divided_by(rhs),
    ;

    spec fn spec_remainder(self, rhs: Self) -> Self;

    /// Truncated remainder, with the sign of `self`.
    fn remainder(self, rhs: Self) -> (r: Self)
        ensures
            r == self.spec_remainder(rhs),
    ;

    spec fn spec_negated(self) -> Self;

    fn negated(self) -> (r: Self)
        ensures
            r == self.spec_negated(),
    ;

    spec fn spec_absolute(self) -> Self;

    fn absolute(self) -> (r: Self)
        ensures
            r == self.spec_absolute(),
    ;

    spec fn spec_square_root(self) -> Self;

    fn square_root(self) -> (r: Self)
        ensures
            r == self.spec_square_root(),
    ;

    spec fn spec_arc_tangent2(self, x: Self) -> Self;

    /// Four-quadrant arc tangent of `self / x`.
    fn arc_tangent2(self, x: Self) -> (r: Self)
        ensures
            r == self.spec_arc_tangent2(x),
    ;

    spec fn spec_sine(self) -> Self;

    fn sine(self) -> (r: Self)
        ensures
            r == self.spec_sine(),
    ;

    spec fn spec_cosine(self) -> Self;

    fn cosine(self) -> (r: Self)
        ensures
            r == self.spec_cosine(),
    ;

    spec fn spec_euclid_remainder(self, rhs: Self) -> Self;

    /// Euclidean remainder, in `[0, |rhs|)` for finite operands.
    fn euclid_remainder(self, rhs: Self) -> (r: Self)
        ensures
            r == self.spec_euclid_remainder(rhs),
    ;

    spec fn spec_ceiling(self) -> Self;

    /// The smallest integral value not below `self`.
    fn ceiling(self) -> (r: Self)
        ensures
            r == self.spec_ceiling(),
    ;

    spec fn spec_floor(self) -> Self;

    /// The largest integral value not above `self`.
    fn floor(self) -> (r: Self)
        ensures
            r == self.spec_floor(),
    ;

    spec fn spec_to_i32(self) -> i32;

    /// The value truncated towards zero to a 32-bit integer, saturating at the
    /// bounds, and `0` when it is not a number.
    fn to_i32(self) -> (r: i32)
        ensures
            r == self.spec_to_i32(),
    ;

    spec fn spec_from_i32(value: i32) -> Self;

    /// The value nearest to `value`.
    fn from_i32(value: i32) -> (r: Self)
        ensures
            r == Self::spec_from_i32(value),
    ;

    spec fn spec_from_usize(value: usize) -> Self;

    /// The value nearest to `value`.
    fn from_usize(value: usize) -> (r: Self)
        ensures
            r == Self::spec_from_usize(value),
    ;

    spec fn spec_signum(self) -> Self;

    /// `1`, `-1` or not-a-number, as the sign of the value.
    fn signum(self) -> (r: Self)
        ensures
            r == self.spec_signum(),
    ;

    spec fn spec_sign(self) -> i8;

    /// The sign of the value as `-1` or `1` (`1` for positive zero, `-1` for
    /// negative zero), and `0` when it is not a number.
    fn sign(self) -> (r: i8)
        ensures
            r == self.spec_sign(),
    ;

    spec fn spec_is_finite(self) -> bool;

    fn is_finite(self) -> (r: bool)
        ensures
            r == self.spec_is_finite(),
    ;

    spec fn spec_less_than(self, rhs: Self) -> bool;

    /// `self < rhs`, false whenever either operand is not a number.
    fn less_than(self, rhs: Self) -> (r: bool)
        ensures
            r == self.spec_less_than(rhs),
    ;

    spec fn spec_at_most(self, rhs: Self) -> bool;

    /// `self <= rhs`, false whenever either operand is not a number.
    fn at_most(self, rhs: Self) -> (r: bool)
        ensures
            r == self.spec_at_most(rhs),
    ;

    spec fn spec_equals(self, rhs: Self) -> bool;

    /// `self == rhs` with IEEE semantics.
    fn equals(self, rhs: Self) -> (r: bool)
        ensures
            r == self.spec_equals(rhs),
    ;

    spec fn spec_smaller(self, rhs: Self) -> Self;

    /// The smaller operand, ignoring an operand that is not a number.
    fn smaller(self, rhs: Self) -> (r: Self)
        ensures
            r == self.spec_smaller(rhs),
    ;

    spec fn spec_larger(self, rhs: Self) -> Self;

    /// The larger operand, ignoring an operand that is not a number.
    fn larger(self, rhs: Self) -> (r: Self)
        ensures
            r == self.spec_larger(rhs),
    ;

    spec fn spec_clamped(self, low: Self, high: Self) -> Self;

    /// The value restricted to `[low, high]`; not-a-number stays not-a-number.
    fn clamped(self, low: Self, high: Self) -> (r: Self)
        ensures
            r == self.spec_clamped(low, high),
    ;

    spec fn spec_total_order(self, rhs: Self) -> TotalOrder;

    /// Total order over all values, not-a-number included.
    fn total_order(self, rhs: Self) -> (r: TotalOrder)
        ensures
            r == self.spec_total_order(rhs),
    ;
}

/// A planar vector.
#[derive(Clone, Copy, Debug)]
pub struct Vector<S> {
    pub x: S,
    pub y: S,
}

impl<S: Scalar> Vector<S> {
    pub fn new(x: S, y: S) -> (r: Self)
        ensures
            r.x == x,
            r.y == y,
    {
        Vector { x, y }
    }

    pub fn zero() -> (r: Self)
        ensures
            r.x == S::ZERO,
            r.y == S::ZERO,
    {
        Vector { x: S::ZERO, y: S::ZERO }
    }

    /// The vector with both components equal to `value`.
    pub fn splat(value: S) -> (r: Self)
        ensures
            r.x == value,
            r.y == value,
    {
        Vector { x: value, y: value }
    }

    pub open spec fn spec_plus(self, rhs: Self) -> Self {
        Vector { x: self.x.spec_plus(rhs.x), y: self.y.spec_plus(rhs.y) }
    }

    #[verifier::when_used_as_spec(spec_plus)]
    pub fn plus(self, rhs: Self) -> (r: Self)
        ensures
            r == self.spec_plus(rhs),
    {
        Vector { x: self.x.plus(rhs.x), y: self.y.plus(rhs.y) }
    }

    pub open spec fn spec_minus(self, rhs: Self) -> Self {
        Vector { x: self.x.spec_minus(rhs.x), y: self.y.spec_minus(rhs.y) }
    }

    #[verifier::when_used_as_spec(spec_minus)]
    pub fn minus(self, rhs: Self) -> (r: Self)
        ensures
            r == self.spec_minus(rhs),
    {
        Vector { x: self.x.minus(rhs.x), y: self.y.minus(rhs.y) }
    }

    pub open spec fn spec_negated(self) -> Self {
        Vector { x: self.x.spec_negated(), y: self.y.spec_negated() }
    }

    #[verifier::when_used_as_spec(spec_negated)]
    pub fn negated(self) -> (r: Self)
        ensures
            r == self.spec_negated(),
    {
        Vector { x: self.x.negated(), y: self.y.negated() }
    }

    pub open spec fn spec_scaled(self, factor: S) -> Self {
        Vector { x: self.x.spec_times(factor), y: self.y.spec_times(factor) }
    }

    #[verifier::when_used_as_spec(spec_scaled)]
    pub fn scaled(self, factor: S) -> (r: Self)
        ensures
            r == self.spec_scaled(factor),
    {
        Vector { x: self.x.times(factor), y: self.y.times(factor) }
    }

    pub open spec fn spec_divided_by(self, divisor: S) -> Self {
        Vector { x: self.x.spec_divided_by(divisor), y: self.y.spec_divided_by(divisor) }
    }

    #[verifier::when_used_as_spec(spec_divided_by)]
    pub fn divided_by(self, divisor: S) -> (r: Self)
        ensures
            r == self.spec_divided_by(divisor),
    {
        Vector { x: self.x.divided_by(divisor), y: self.y.divided_by(divisor) }
    }

    /// Component-wise product.
    pub open spec fn spec_component_times(self, rhs: Self) -> Self {
        Vector { x: self.x.spec_times(rhs.x), y: self.y.spec_times(rhs.y) }
    }

    /// Component-wise product.
    #[verifier::when_used_as_spec(spec_component_times)]
    pub fn component_times(self, rhs: Self) -> (r: Self)
        ensures
            r == self.spec_component_times(rhs),
    {
        Vector { x: self.x.times(rhs.x), y: self.y.times(rhs.y) }
    }

    pub open spec fn spec_dot(self, rhs: Self) -> S {
        self.x.spec_times(rhs.x).spec_plus(self.y.spec_times(rhs.y))
    }

    #[verifier::when_used_as_spec(spec_dot)]
    pub fn dot(self, rhs: Self) -> (r: S)
        ensures
            r == self.spec_dot(rhs),
    {
        self.x.times(rhs.x).plus(self.y.times(rhs.y))
    }

    /// The scalar cross product `self.x * rhs.y - self.y * rhs.x`.
    pub open spec fn spec_cross(self, rhs: Self) -> S {
        self.x.spec_times(rhs.y).spec_minus(self.y.spec_times(rhs.x))
    }

    /// The scalar cross product `self.x * rhs.y - self.y * rhs.x`.
    #[verifier::when_used_as_spec(spec_cross)]
    pub fn cross(self, rhs: Self) -> (r: S)
        ensures
            r == self.spec_cross(rhs),
    {
        self.x.times(rhs.y).minus(self.y.times(rhs.x))
    }

    /// The vector turned a quarter turn counterclockwise.
    pub open spec fn spec_perpendicular(self) -> Self {
        Vector { x: self.y.spec_negated(), y: self.x }
    }

    /// The vector turned a quarter turn counterclockwise.
    #[verifier::when_used_as_spec(spec_perpendicular)]
    pub fn perpendicular(self) -> (r: Self)
        ensures
            r == self.spec_perpendicular(),
    {
        Vector { x: self.y.negated(), y: self.x }
    }

    pub open spec fn spec_length_squared(self) -> S {
        self.spec_dot(self)
    }

    #[verifier::when_used_as_spec(spec_length_squared)]
    pub fn length_squared(self) -> (r: S)
        ensures
            r == self.spec_length_squared(),
    {
        self.dot(self)
    }

    pub open spec fn spec_length(self) -> S {
        self.spec_length_squared().spec_square_root()
    }

    #[verifier::when_used_as_spec(spec_length)]
    pub fn length(self) -> (r: S)
        ensures
            r == self.spec_length(),
    {
        self.length_squared().square_root()
    }

    pub open spec fn spec_is_finite(self) -> bool {
        self.x.spec_is_finite() && self.y.spec_is_finite()
    }

    #[verifier::when_used_as_spec(spec_is_finite)]
    pub fn is_finite(self) -> (r: bool)
        ensures
            r == self.spec_is_finite(),
    {
        self.x.is_finite() && self.y.is_finite()
    }

    /// The unit vector in the direction of `self`: `self` times the reciprocal of its length.
    pub open spec fn spec_normalized(self) -> Self {
        self.spec_scaled(S::ONE.spec_divided_by(self.spec_length()))
    }

    /// The unit vector in the direction of `self`: `self` times the reciprocal of its length.
    #[verifier::when_used_as_spec(spec_normalized)]
    pub fn normalized(self) -> (r: Self)
        ensures
            r == self.spec_normalized(),
    {
        self.scaled(S::ONE.divided_by(self.length()))
    }

    /// The unit vector in the direction of `self`, or zero when the reciprocal
    /// of its length is not finite and positive.
    pub open spec fn spec_normalized_or_zero(self) -> Self {
        let reciprocal = S::ONE.spec_divided_by(self.spec_length());
        if reciprocal.spec_is_finite() && S::ZERO.spec_less_than(reciprocal) {
            self.spec_scaled(reciprocal)
        } else {
            Vector { x: S::ZERO, y: S::ZERO }
        }
    }

    /// The unit vector in the direction of `self`, or zero when the reciprocal
    /// of its length is not finite and positive.
    #[verifier::when_used_as_spec(spec_normalized_or_zero)]
    pub fn normalized_or_zero(self) -> (r: Self)
        ensures
            r == self.spec_normalized_or_zero(),
    {
        let reciprocal = S::ONE.divided_by(self.length());
        if reciprocal.is_finite() && S::ZERO.less_than(reciprocal) {
            self.scaled(reciprocal)
        } else {
            Vector::zero()
        }
    }

    /// The component-wise minimum, ignoring components that are not numbers.
    pub open spec fn spec_min_components(self, rhs: Self) -> Self {
        Vector { x: self.x.spec_smaller(rhs.x), y: self.y.spec_smaller(rhs.y) }
    }

    /// The component-wise minimum, ignoring components that are not numbers.
    #[verifier::when_used_as_spec(spec_min_components)]
    pub fn min_components(self, rhs: Self) -> (r: Self)
        ensures
            r == self.spec_min_components(rhs),
    {
        Vector { x: self.x.smaller(rhs.x), y: self.y.smaller(rhs.y) }
    }

    /// The component-wise maximum, ignoring components that are not numbers.
    pub open spec fn spec_max_components(self, rhs: Self) -> Self {
        Vector { x: self.x.spec_larger(rhs.x), y: self.y.spec_larger(rhs.y) }
    }

    /// The component-wise maximum, ignoring components that are not numbers.
    #[verifier::when_used_as_spec(spec_max_components)]
    pub fn max_components(self, rhs: Self) -> (r: Self)
        ensures
            r == self.spec_max_components(rhs),
    {
        Vector { x: self.x.larger(rhs.x), y: self.y.larger(rhs.y) }
    }
}

} // verus!
