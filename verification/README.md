# Routed ropes and analytic profiles

A verified library for two pieces of a 2D physics world:

- **Routed ropes**: unilateral total-length constraints whose rope runs from
  endpoint A over ordered pulley wheels to endpoint B. The library resolves the
  route (tangent segments, wrapped arcs, length and gradients), prepares and
  solves the constraint each substep, and keeps the constraints in a
  generational arena whose handles never alias after removal.
- **Analytic profiles**: closed contours of line segments and circular arcs,
  used as thick outlines or solid regions, with exact inside tests, closest
  points, and contacts against balls, boxes and other profiles.

All geometry is generic over `scalar::Scalar`, the arithmetic primitives of a
real number type; the host implements it for its own floating-point type.
Each primitive is only taken to return the same result for the same operands,
so what the contracts state holds whatever numbers they return. The `f32`
implementation in `app/` meets that on one machine and build, except for the
payload of a NaN result and any variation the platform allows in `sin`, `cos`
and `atan2`; its clamp is written so that it never panics.

The contracts therefore pin down the computation, not geometric truth: a
routed length is stated as the sum, in order, of the primitives' results for
each tangent segment and wrapped arc, and an inside test as the crossing count
that the primitives yield. Facts that need real arithmetic (that a gradient is
a unit vector, that a closest point is closest, that a route does not depend
on the contour's direction) are not stated; the tests check them on examples.

Layout:

- `src/`: the library (`arena`, `body`, `rope`, `route`, `set`, `binding` for
  ropes; `profile`, `profile_interior`, `segment_pair`, `profile_contact`,
  `profile_box`, `profile_pair`, `contact` for profiles; `scalar`).
- `tests/`: executable tests with a single-precision scalar.
- `app/`: the host layer: the `f32` scalar and the flat-array rope API.
