//! The analytic solution of a two-bone chain in its bend plane.
//!
//! The chain's root is at the origin of the plane. A first bone of length
//! `length_1` leads from the root to the middle joint (the elbow), a second
//! bone of length `length_2` from there to the effector, which is to reach
//! the target. Lengths and coordinates are fixed-point numbers; squares and
//! products are taken exactly, in wide integers, and only square roots and
//! quotients are rounded down.

use vstd::prelude::*;
use crate::scalar::{saturate, Scalar};
use crate::transform::{Vector2, Vector3};

verus! {

/// The largest magnitude, in raw units, that the solver takes for a length
/// or a coordinate. Beyond it exact squares would leave the wide integers.
pub const IK_LIMIT: i64 = 0x4000_0000_0000_0000;

/// Whether `r` is the square root of `n`, rounded down.
pub open spec fn is_floor_sqrt(r: int, n: int) -> bool {
    0 <= r && r * r <= n < (r + 1) * (r + 1)
}

/// The square root of `n`, rounded down.
pub open spec fn floor_sqrt(n: int) -> int {
    choose|r: int| is_floor_sqrt(r, n)
}

/// Only one number is the rounded-down square root of `n`.
pub proof fn lemma_floor_sqrt_unique(r: int, n: int)
    requires
        is_floor_sqrt(r, n),
    ensures
        floor_sqrt(n) == r,
{
    let c = floor_sqrt(n);
    assert(is_floor_sqrt(c, n));
    assert(c == r) by (nonlinear_arith)
        requires
            0 <= r,
            r * r <= n < (r + 1) * (r + 1),
            0 <= c,
            c * c <= n < (c + 1) * (c + 1),
    ;
}

/// Whether all four magnitudes are within what the solver takes.
pub open spec fn in_range(length_1: int, length_2: int, x: int, y: int) -> bool {
    &&& 0 <= length_1 <= IK_LIMIT
    &&& 0 <= length_2 <= IK_LIMIT
    &&& -IK_LIMIT <= x <= IK_LIMIT
    &&& -IK_LIMIT <= y <= IK_LIMIT
}

/// Whether the chain can reach the target at `(x, y)`: the target is away
/// from the root, no further than both bones stretched out, and no nearer
/// than the bones folded onto each other.
pub open spec fn reachable(length_1: int, length_2: int, x: int, y: int) -> bool {
    let square_distance = x * x + y * y;
    &&& in_range(length_1, length_2, x, y)
    &&& 0 < square_distance
    &&& square_distance <= (length_1 + length_2) * (length_1 + length_2)
    &&& (length_1 - length_2) * (length_1 - length_2) <= square_distance
}

/// The distance from the root to the foot of the elbow on the line to the
/// target, by the law of cosines, held to the first bone's length.
pub open spec fn elbow_along(length_1: int, length_2: int, x: int, y: int) -> int {
    let square_distance = x * x + y * y;
    let distance = floor_sqrt(square_distance);
    let along = (length_1 * length_1 - length_2 * length_2 + square_distance) / (2 * distance);
    if along < -length_1 {
        -length_1
    } else if along > length_1 {
        length_1
    } else {
        along
    }
}

/// The height of the elbow over the line from the root to the target.
pub open spec fn elbow_height(length_1: int, length_2: int, x: int, y: int) -> int {
    let along = elbow_along(length_1, length_2, x, y);
    floor_sqrt(length_1 * length_1 - along * along)
}

/// The elbow of the chain that reaches the target, on the left of the line
/// from the root to the target; none where the target is out of reach.
pub open spec fn spec_solve_ik_2d(length_1: Scalar, length_2: Scalar, target: Vector2) -> Option<
    Vector2,
> {
    let x = target.x@;
    let y = target.y@;
    if reachable(length_1@, length_2@, x, y) {
        let distance = floor_sqrt(x * x + y * y);
        let along = elbow_along(length_1@, length_2@, x, y);
        let height = elbow_height(length_1@, length_2@, x, y);
        Some(
            Vector2 {
                x: Scalar { raw: saturate((along * x - height * y) / distance) as i64 },
                y: Scalar { raw: saturate((along * y + height * x) / distance) as i64 },
            },
        )
    } else {
        None
    }
}

/// `vecmath::vec2_square_len` on wide integers: the first component times
/// itself plus the second times itself.
#[verifier::external_body]
fn square_len2(v: [i128; 2]) -> (r: i128)
    requires
        v[0] * v[0] + v[1] * v[1] <= i128::MAX,
    ensures
        r == v[0] * v[0] + v[1] * v[1],
{
    vecmath::vec2_square_len(v)
}

/// `vecmath::vec2_dot` on wide integers: the sum of the products of the
/// first and of the second components.
#[verifier::external_body]
fn dot2(a: [i128; 2], b: [i128; 2]) -> (r: i128)
    requires
        i128::MIN <= a[0] * b[0] <= i128::MAX,
        i128::MIN <= a[1] * b[1] <= i128::MAX,
        i128::MIN <= a[0] * b[0] + a[1] * b[1] <= i128::MAX,
    ensures
        r == a[0] * b[0] + a[1] * b[1],
{
    vecmath::vec2_dot(a, b)
}

/// `vecmath::vec2_cross` on wide integers: the first component of `a`
/// times the second of `b`, less the second of `a` times the first of `b`.
#[verifier::external_body]
fn cross2(a: [i128; 2], b: [i128; 2]) -> (r: i128)
    requires
        i128::MIN <= a[0] * b[1] <= i128::MAX,
        i128::MIN <= a[1] * b[0] <= i128::MAX,
        i128::MIN <= a[0] * b[1] - a[1] * b[0] <= i128::MAX,
    ensures
        r == a[0] * b[1] - a[1] * b[0],
{
    vecmath::vec2_cross(a, b)
}

/// `vecmath::vec3_sub` on wide integers: component by component, the
/// first less the second.
#[verifier::external_body]
fn sub3(a: [i128; 3], b: [i128; 3]) -> (r: [i128; 3])
    requires
        forall|i: int| 0 <= i < 3 ==> i128::MIN <= #[trigger] a[i] - b[i] <= i128::MAX,
    ensures
        forall|i: int| 0 <= i < 3 ==> #[trigger] r[i] == a[i] - b[i],
{
    vecmath::vec3_sub(a, b)
}

/// `vecmath::vec3_square_len` on wide unsigned integers: the sum of the
/// three components, each times itself.
#[verifier::external_body]
fn square_len3(v: [u128; 3]) -> (r: u128)
    requires
        v[0] * v[0] + v[1] * v[1] + v[2] * v[2] <= u128::MAX,
    ensures
        r == v[0] * v[0] + v[1] * v[1] + v[2] * v[2],
{
    vecmath::vec3_square_len(v)
}

/// The square root of `n`, rounded down.
pub fn isqrt(n: u128) -> (r: u128)
    ensures
        is_floor_sqrt(r as int, n as int),
        r as int == floor_sqrt(n as int),
        r <= 0xffff_ffff_ffff_ffff,
{
    let mut low: u128 = 0;
    let mut high: u128 = 0x1_0000_0000_0000_0000;
    assert(n < 0x1_0000_0000_0000_0000 * 0x1_0000_0000_0000_0000) by (nonlinear_arith)
        requires
            n <= u128::MAX,
    ;
    while high - low > 1
        invariant
            low < high <= 0x1_0000_0000_0000_0000,
            low * low <= n < high * high,
        decreases high - low,
    {
        let middle: u128 = low + (high - low) / 2;
        assert(middle * middle <= 0xffff_ffff_ffff_ffff * 0xffff_ffff_ffff_ffff)
            by (nonlinear_arith)
            requires
                middle <= 0xffff_ffff_ffff_ffff,
        ;
        if middle * middle <= n {
            low = middle;
        } else {
            high = middle;
        }
    }
    proof {
        lemma_floor_sqrt_unique(low as int, n as int);
    }
    low
}

/// The product of two magnitudes within the solver's limit stays within
/// the square of the limit.
proof fn lemma_product_in_limit(a: int, b: int)
    requires
        -IK_LIMIT <= a <= IK_LIMIT,
        -IK_LIMIT <= b <= IK_LIMIT,
    ensures
        -0x1000_0000_0000_0000_0000_0000_0000_0000 <= a * b
            <= 0x1000_0000_0000_0000_0000_0000_0000_0000,
{
    assert(-0x1000_0000_0000_0000_0000_0000_0000_0000 <= a * b
        <= 0x1000_0000_0000_0000_0000_0000_0000_0000) by (nonlinear_arith)
        requires
            -0x4000_0000_0000_0000 <= a <= 0x4000_0000_0000_0000,
            -0x4000_0000_0000_0000 <= b <= 0x4000_0000_0000_0000,
    ;
}

/// Solves the chain for the target: the position of the elbow in the bend
/// plane, or none where the target is out of reach (further than both bones
/// together, nearer than their difference, at the root itself, or where a
/// length is negative or a magnitude beyond [`IK_LIMIT`]).
pub fn solve_ik_2d(length_1: Scalar, length_2: Scalar, target: Vector2) -> (r: Option<Vector2>)
    ensures
        r == spec_solve_ik_2d(length_1, length_2, target),
        r is Some <==> reachable(length_1@, length_2@, target.x@, target.y@),
{
    if length_1.raw < 0 || length_1.raw > IK_LIMIT || length_2.raw < 0 || length_2.raw > IK_LIMIT {
        return None;
    }
    if target.x.raw < -IK_LIMIT || target.x.raw > IK_LIMIT || target.y.raw < -IK_LIMIT
        || target.y.raw > IK_LIMIT {
        return None;
    }
    let l1: i128 = length_1.raw as i128;
    let l2: i128 = length_2.raw as i128;
    let x: i128 = target.x.raw as i128;
    let y: i128 = target.y.raw as i128;
    proof {
        lemma_product_in_limit(x as int, x as int);
        lemma_product_in_limit(y as int, y as int);
        lemma_product_in_limit(l1 as int, l1 as int);
        lemma_product_in_limit(l2 as int, l2 as int);
        lemma_product_in_limit(l1 as int, l2 as int);
        assert(x * x >= 0 && y * y >= 0) by (nonlinear_arith);
        assert((l1 + l2) * (l1 + l2) == l1 * l1 + 2 * (l1 * l2) + l2 * l2) by (nonlinear_arith);
        assert((l1 - l2) * (l1 - l2) == l1 * l1 - 2 * (l1 * l2) + l2 * l2) by (nonlinear_arith);
    }
    let square_distance: i128 = square_len2([x, y]);
    let sum: i128 = l1 + l2;
    let difference: i128 = l1 - l2;
    if square_distance == 0 || square_distance > sum * sum || square_distance < difference
        * difference {
        return None;
    }
    let distance: i128 = isqrt(square_distance as u128) as i128;
    assert(distance >= 1) by (nonlinear_arith)
        requires
            square_distance >= 1,
            square_distance < (distance + 1) * (distance + 1),
            distance >= 0,
    ;
    let numerator: i128 = l1 * l1 - l2 * l2 + square_distance;
    let quotient: i128 = match numerator.checked_div_euclid(2 * distance) {
        Some(q) => q,
        None => {
            proof {
                crate::scalar::lemma_floor_div_between(numerator as int, 2 * distance as int);
            }
            0
        },
    };
    let along: i128 = if quotient < -l1 {
        -l1
    } else if quotient > l1 {
        l1
    } else {
        quotient
    };
    assert(along == elbow_along(l1 as int, l2 as int, x as int, y as int));
    proof {
        lemma_product_in_limit(along as int, along as int);
        lemma_product_in_limit(along as int, x as int);
        lemma_product_in_limit(along as int, y as int);
        assert(along * along <= l1 * l1) by (nonlinear_arith)
            requires
                -l1 <= along <= l1,
        ;
    }
    let height: i128 = isqrt((l1 * l1 - along * along) as u128) as i128;
    assert(height <= l1) by (nonlinear_arith)
        requires
            height * height <= l1 * l1 - along * along,
            0 <= height,
            0 <= l1,
    ;
    proof {
        lemma_product_in_limit(height as int, x as int);
        lemma_product_in_limit(height as int, y as int);
    }
    let across: i128 = cross2([along, height], [y, x]);
    let upward: i128 = dot2([along, height], [y, x]);
    proof {
        crate::scalar::lemma_floor_div_between(across as int, distance as int);
        crate::scalar::lemma_floor_div_between(upward as int, distance as int);
    }
    let elbow_x: i128 = match across.checked_div_euclid(distance) {
        Some(q) => q,
        None => 0,
    };
    let elbow_y: i128 = match upward.checked_div_euclid(distance) {
        Some(q) => q,
        None => 0,
    };
    Some(Vector2 { x: Scalar::from_wide(elbow_x), y: Scalar::from_wide(elbow_y) })
}

/// Every number from zero on has a rounded-down square root.
pub proof fn lemma_floor_sqrt_exists(n: nat)
    ensures
        is_floor_sqrt(floor_sqrt(n as int), n as int),
    decreases n,
{
    if n == 0 {
        assert(is_floor_sqrt(0, 0));
    } else {
        lemma_floor_sqrt_exists((n - 1) as nat);
        let r = floor_sqrt(n - 1);
        if (r + 1) * (r + 1) <= n {
            assert(n < (r + 2) * (r + 2)) by (nonlinear_arith)
                requires
                    n - 1 < (r + 1) * (r + 1),
                    0 <= r,
            ;
            assert(is_floor_sqrt(r + 1, n as int));
        } else {
            assert(r * r <= n) by (nonlinear_arith)
                requires
                    r * r <= n - 1,
            ;
            assert(is_floor_sqrt(r, n as int));
        }
    }
}

/// A sum of two squares times a sum of two squares is a sum of two
/// squares: `(a^2 + h^2) (x^2 + y^2) = (ax - hy)^2 + (ay + hx)^2`.
proof fn lemma_product_of_sums_of_squares(a: int, h: int, x: int, y: int)
    ensures
        (a * x - h * y) * (a * x - h * y) + (a * y + h * x) * (a * y + h * x) == (a * a + h * h) * (
        x * x + y * y),
{
    let p = a * x;
    let q = h * y;
    let r = a * y;
    let t = h * x;
    assert((p - q) * (p - q) == p * p - 2 * (p * q) + q * q) by (nonlinear_arith);
    assert((r + t) * (r + t) == r * r + 2 * (r * t) + t * t) by (nonlinear_arith);
    assert(p * q == r * t) by (nonlinear_arith)
        requires
            p == a * x,
            q == h * y,
            r == a * y,
            t == h * x,
    ;
    assert(p * p == (a * a) * (x * x)) by (nonlinear_arith)
        requires
            p == a * x,
    ;
    assert(q * q == (h * h) * (y * y)) by (nonlinear_arith)
        requires
            q == h * y,
    ;
    assert(r * r == (a * a) * (y * y)) by (nonlinear_arith)
        requires
            r == a * y,
    ;
    assert(t * t == (h * h) * (x * x)) by (nonlinear_arith)
        requires
            t == h * x,
    ;
    let aa = a * a;
    let hh = h * h;
    let xx = x * x;
    let yy = y * y;
    assert((aa + hh) * (xx + yy) == aa * xx + aa * yy + hh * xx + hh * yy) by (nonlinear_arith);
}

/// The square of the way from `(ax - hy, ay + hx)` to `(xd, yd)`:
/// `((d - a)^2 + h^2) (x^2 + y^2)`.
proof fn lemma_square_of_second_bone(a: int, h: int, x: int, y: int, d: int)
    ensures
        (x * d - (a * x - h * y)) * (x * d - (a * x - h * y)) + (y * d - (a * y + h * x)) * (y * d
            - (a * y + h * x)) == ((d - a) * (d - a) + h * h) * (x * x + y * y),
{
    let b = d - a;
    assert(x * d - (a * x - h * y) == b * x + h * y) by (nonlinear_arith)
        requires
            b == d - a,
    ;
    assert(y * d - (a * y + h * x) == b * y - h * x) by (nonlinear_arith)
        requires
            b == d - a,
    ;
    lemma_product_of_sums_of_squares(b, -h, x, y);
    assert((-h) * y == -(h * y)) by (nonlinear_arith);
    assert((-h) * x == -(h * x)) by (nonlinear_arith);
    assert((-h) * (-h) == h * h) by (nonlinear_arith);
}

/// The elbow that the solver gives forms the triangle of the two bones,
/// as far as rounding allows.
///
/// Taken before the last division by the distance is rounded, the elbow
/// lies on the circle of radius `sqrt(along^2 + height^2)` about the root,
/// and on the circle of radius `sqrt((distance - along)^2 + height^2)` about
/// the target. The first radius squared misses the square of the first
/// bone's length by no more than twice the height and one. Where the foot of
/// the elbow did not have to be held to the first bone's length, the second
/// radius squared misses the square of the second bone's length by less than
/// twice the distance, twice the height and two.
pub proof fn lemma_elbow_forms_triangle(length_1: int, length_2: int, x: int, y: int)
    requires
        reachable(length_1, length_2, x, y),
    ensures
        ({
            let square_distance = x * x + y * y;
            let distance = floor_sqrt(square_distance);
            let along = elbow_along(length_1, length_2, x, y);
            let height = elbow_height(length_1, length_2, x, y);
            let elbow_x = along * x - height * y;
            let elbow_y = along * y + height * x;
            let radius_1 = along * along + height * height;
            let radius_2 = (distance - along) * (distance - along) + height * height;
            let unrounded = (length_1 * length_1 - length_2 * length_2 + square_distance) / (2
                * distance);
            &&& distance >= 1
            &&& 0 <= height <= length_1
            &&& -length_1 <= along <= length_1
            &&& elbow_x * elbow_x + elbow_y * elbow_y == radius_1 * square_distance
            &&& (x * distance - elbow_x) * (x * distance - elbow_x) + (y * distance - elbow_y) * (y
                * distance - elbow_y) == radius_2 * square_distance
            &&& length_1 * length_1 - 2 * height - 1 < radius_1 <= length_1 * length_1
            &&& along == unrounded ==> length_2 * length_2 - 2 * distance - 2 * height - 2
                < radius_2 < length_2 * length_2 + 2 * distance
        }),
{
    let square_distance = x * x + y * y;
    lemma_floor_sqrt_exists(square_distance as nat);
    let distance = floor_sqrt(square_distance);
    assert(distance >= 1) by (nonlinear_arith)
        requires
            square_distance >= 1,
            square_distance < (distance + 1) * (distance + 1),
            distance >= 0,
    ;
    let along = elbow_along(length_1, length_2, x, y);
    assert(along * along <= length_1 * length_1) by (nonlinear_arith)
        requires
            -length_1 <= along <= length_1,
    ;
    lemma_floor_sqrt_exists((length_1 * length_1 - along * along) as nat);
    let height = elbow_height(length_1, length_2, x, y);
    assert(height <= length_1) by (nonlinear_arith)
        requires
            height * height <= length_1 * length_1 - along * along,
            0 <= height,
            0 <= length_1,
    ;
    let elbow_x = along * x - height * y;
    let elbow_y = along * y + height * x;
    lemma_product_of_sums_of_squares(along, height, x, y);
    lemma_square_of_second_bone(along, height, x, y, distance);
    assert((height + 1) * (height + 1) == height * height + 2 * height + 1) by (nonlinear_arith);
    let numerator = length_1 * length_1 - length_2 * length_2 + square_distance;
    let unrounded = numerator / (2 * distance);
    if along == unrounded {
        vstd::arithmetic::div_mod::lemma_fundamental_div_mod(numerator, 2 * distance);
        vstd::arithmetic::div_mod::lemma_mod_bound(numerator, 2 * distance);
        let rest = numerator % (2 * distance);
        assert(numerator == (2 * distance) * along + rest);
        assert((distance - along) * (distance - along) == distance * distance - (2 * distance)
            * along + along * along) by (nonlinear_arith);
        assert((distance + 1) * (distance + 1) == distance * distance + 2 * distance + 1)
            by (nonlinear_arith);
    }
}

/// The distance between the points `a` and `b`, rounded down and
/// saturated.
pub open spec fn spec_distance(a: Vector3, b: Vector3) -> int {
    let x = a.x@ - b.x@;
    let y = a.y@ - b.y@;
    let z = a.z@ - b.z@;
    saturate(floor_sqrt(x * x + y * y + z * z))
}

/// A number is no larger than the rounded-down square root of a number
/// that its square does not exceed.
proof fn lemma_floor_sqrt_above(d: int, n: int)
    requires
        0 <= d,
        d * d <= n,
    ensures
        d <= floor_sqrt(n),
{
    lemma_floor_sqrt_exists(n as nat);
    let r = floor_sqrt(n);
    assert(d <= r) by (nonlinear_arith)
        requires
            0 <= d,
            0 <= r,
            d * d <= n,
            n < (r + 1) * (r + 1),
    ;
}

/// The magnitude of the difference `d` of two raw values.
fn magnitude(d: i128) -> (r: u128)
    requires
        -0x1_0000_0000_0000_0000 < d < 0x1_0000_0000_0000_0000,
    ensures
        d < 0 ==> r == -d,
        d >= 0 ==> r == d,
{
    if d < 0 {
        (-d) as u128
    } else {
        d as u128
    }
}

/// The distance between the points `a` and `b`.
pub fn distance(a: Vector3, b: Vector3) -> (r: Scalar)
    ensures
        r@ == spec_distance(a, b),
{
    let d = sub3(
        [a.x.raw as i128, a.y.raw as i128, a.z.raw as i128],
        [b.x.raw as i128, b.y.raw as i128, b.z.raw as i128],
    );
    let x: u128 = magnitude(d[0]);
    let y: u128 = magnitude(d[1]);
    let z: u128 = magnitude(d[2]);
    let ghost square = (a.x@ - b.x@) * (a.x@ - b.x@) + (a.y@ - b.y@) * (a.y@ - b.y@) + (a.z@
        - b.z@) * (a.z@ - b.z@);
    proof {
        assert(x * x == (a.x@ - b.x@) * (a.x@ - b.x@)) by (nonlinear_arith)
            requires
                x == a.x@ - b.x@ || x == -(a.x@ - b.x@),
        ;
        assert(y * y == (a.y@ - b.y@) * (a.y@ - b.y@)) by (nonlinear_arith)
            requires
                y == a.y@ - b.y@ || y == -(a.y@ - b.y@),
        ;
        assert(z * z == (a.z@ - b.z@) * (a.z@ - b.z@)) by (nonlinear_arith)
            requires
                z == a.z@ - b.z@ || z == -(a.z@ - b.z@),
        ;
        assert(x * x >= 0 && y * y >= 0 && z * z >= 0) by (nonlinear_arith);
    }
    let limit: u128 = 0x7fff_ffff_ffff_ffff;
    if x > limit || y > limit || z > limit {
        proof {
            if x > limit {
                lemma_floor_sqrt_above(x as int, square);
            } else if y > limit {
                lemma_floor_sqrt_above(y as int, square);
            } else {
                lemma_floor_sqrt_above(z as int, square);
            }
        }
        return Scalar::from_raw(i64::MAX);
    }
    proof {
        assert(x * x <= 0x7fff_ffff_ffff_ffff * 0x7fff_ffff_ffff_ffff) by (nonlinear_arith)
            requires
                x <= 0x7fff_ffff_ffff_ffff,
        ;
        assert(y * y <= 0x7fff_ffff_ffff_ffff * 0x7fff_ffff_ffff_ffff) by (nonlinear_arith)
            requires
                y <= 0x7fff_ffff_ffff_ffff,
        ;
        assert(z * z <= 0x7fff_ffff_ffff_ffff * 0x7fff_ffff_ffff_ffff) by (nonlinear_arith)
            requires
                z <= 0x7fff_ffff_ffff_ffff,
        ;
    }
    let root = isqrt(square_len3([x, y, z]));
    Scalar::from_wide(root as i128)
}

} // verus!
