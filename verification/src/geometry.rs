//! Vectors, rays, and the point where a ray meets a plane.

use vstd::prelude::*;
use vstd::arithmetic::div_mod::{
    lemma_div_multiples_vanish, lemma_fundamental_div_mod, lemma_fundamental_div_mod_converse,
    lemma_mod_bound,
};

verus! {

/// Coordinate steps in one world unit.
pub const STEPS_PER_UNIT: i32 = 1000;

/// A point or a displacement in world space, in coordinate steps.
#[derive(Clone, Copy, Debug, PartialEq, Eq, Structural)]
pub struct Vec3 {
    pub x: i32,
    pub y: i32,
    pub z: i32,
}

/// The vector that a [`Vec3`] stands for, with unbounded coordinates.
pub struct Vector {
    pub x: int,
    pub y: int,
    pub z: int,
}

impl View for Vec3 {
    type V = Vector;

    open spec fn view(&self) -> Vector {
        Vector { x: self.x as int, y: self.y as int, z: self.z as int }
    }
}

impl Vector {
    /// The sum, coordinate by coordinate.
    pub open spec fn plus(self, rhs: Vector) -> Vector {
        Vector { x: self.x + rhs.x, y: self.y + rhs.y, z: self.z + rhs.z }
    }

    /// The difference, coordinate by coordinate.
    pub open spec fn minus(self, rhs: Vector) -> Vector {
        Vector { x: self.x - rhs.x, y: self.y - rhs.y, z: self.z - rhs.z }
    }

    /// The dot product.
    pub open spec fn dot(self, rhs: Vector) -> int {
        self.x * rhs.x + self.y * rhs.y + self.z * rhs.z
    }

    /// Every coordinate is zero.
    pub open spec fn is_zero(self) -> bool {
        self.x == 0 && self.y == 0 && self.z == 0
    }

    /// Every coordinate can be held by a [`Vec3`].
    pub open spec fn fits(self) -> bool {
        &&& i32::MIN <= self.x <= i32::MAX
        &&& i32::MIN <= self.y <= i32::MAX
        &&& i32::MIN <= self.z <= i32::MAX
    }

    /// The [`Vec3`] with these coordinates. Meant for a vector that
    /// [fits](Vector::fits).
    pub open spec fn narrowed(self) -> Vec3 {
        Vec3 { x: self.x as i32, y: self.y as i32, z: self.z as i32 }
    }

    /// `self * num / den`, each coordinate rounded down. Meant for `den > 0`.
    pub open spec fn scaled(self, num: int, den: int) -> Vector {
        Vector { x: (self.x * num) / den, y: (self.y * num) / den, z: (self.z * num) / den }
    }
}

/// A half-line from `origin` along `direction`. The length of `direction`
/// does not matter; a zero direction meets no plane.
#[derive(Clone, Copy, Debug, PartialEq, Eq, Structural)]
pub struct Ray {
    pub origin: Vec3,
    pub direction: Vec3,
}

impl Vec3 {
    /// The vector with these coordinates.
    pub fn new(x: i32, y: i32, z: i32) -> (v: Vec3)
        ensures
            v == (Vec3 { x, y, z }),
    {
        Vec3 { x, y, z }
    }

    /// The sum of two vectors, where a [`Vec3`] can hold it.
    pub fn checked_add(self, rhs: Vec3) -> (sum: Option<Vec3>)
        ensures
            sum == (if self@.plus(rhs@).fits() {
                Some(self@.plus(rhs@).narrowed())
            } else {
                None
            }),
    {
        match (self.x.checked_add(rhs.x), self.y.checked_add(rhs.y), self.z.checked_add(rhs.z)) {
            (Some(x), Some(y), Some(z)) => Some(Vec3 { x, y, z }),
            _ => None,
        }
    }
}

/// A bound on the magnitude of what [`dot`] and [`dot_of_difference`]
/// return.
pub open spec fn wide_bound() -> int {
    0x2_0000_0000_0000_0000
}

/// The quotient of `a` by a positive `b`, rounded down.
fn floor_div(a: i128, b: i128) -> (q: i128)
    requires
        b > 0,
        a > i128::MIN,
    ensures
        q == (a as int) / (b as int),
{
    let q = a / b;
    let r = a % b;
    proof {
        let m: int = if a >= 0 { a as int } else { -(a as int) };
        let qm = m / (b as int);
        let rm = m % (b as int);
        lemma_fundamental_div_mod(m, b as int);
        lemma_mod_bound(m, b as int);
        assert(0 <= qm <= m) by (nonlinear_arith)
            requires
                m == (b as int) * qm + rm,
                0 <= rm < b,
                b >= 1,
                m >= 0,
        ;
        if a < 0 {
            if rm == 0 {
                assert((a as int) == (-qm) * (b as int) + 0) by (nonlinear_arith)
                    requires
                        -(a as int) == (b as int) * qm,
                ;
                lemma_fundamental_div_mod_converse(a as int, b as int, -qm, 0);
            } else {
                assert((a as int) == (-qm - 1) * (b as int) + (b - rm)) by (nonlinear_arith)
                    requires
                        -(a as int) == (b as int) * qm + rm,
                ;
                lemma_fundamental_div_mod_converse(a as int, b as int, -qm - 1, b - rm);
            }
        }
    }
    if r < 0 {
        q - 1
    } else {
        q
    }
}

/// The dot product of two vectors.
pub fn dot(a: Vec3, b: Vec3) -> (d: i128)
    ensures
        d == a@.dot(b@),
        -wide_bound() <= d <= wide_bound(),
{
    let ax: i128 = a.x as i128;
    let ay: i128 = a.y as i128;
    let az: i128 = a.z as i128;
    let bx: i128 = b.x as i128;
    let by: i128 = b.y as i128;
    let bz: i128 = b.z as i128;
    proof {
        lemma_product_bound(ax as int, bx as int, 0x8000_0000, 0x8000_0000);
        lemma_product_bound(ay as int, by as int, 0x8000_0000, 0x8000_0000);
        lemma_product_bound(az as int, bz as int, 0x8000_0000, 0x8000_0000);
    }
    ax * bx + ay * by + az * bz
}

/// The dot product of `a - b` with `n`.
pub fn dot_of_difference(a: Vec3, b: Vec3, n: Vec3) -> (d: i128)
    ensures
        d == a@.minus(b@).dot(n@),
        -wide_bound() <= d <= wide_bound(),
{
    let dx: i128 = a.x as i128 - b.x as i128;
    let dy: i128 = a.y as i128 - b.y as i128;
    let dz: i128 = a.z as i128 - b.z as i128;
    let nx: i128 = n.x as i128;
    let ny: i128 = n.y as i128;
    let nz: i128 = n.z as i128;
    proof {
        lemma_product_bound(dx as int, nx as int, 0x1_0000_0000, 0x8000_0000);
        lemma_product_bound(dy as int, ny as int, 0x1_0000_0000, 0x8000_0000);
        lemma_product_bound(dz as int, nz as int, 0x1_0000_0000, 0x8000_0000);
    }
    dx * nx + dy * ny + dz * nz
}

/// One coordinate of [`displace`].
fn displace_coordinate(base: i32, v: i32, num: i128, den: i128) -> (moved: Option<i32>)
    requires
        den > 0,
        -wide_bound() <= num <= wide_bound(),
    ensures
        moved.is_some() <==> i32::MIN <= base + (v * num) / (den as int) <= i32::MAX,
        moved matches Some(c) ==> c == base + (v * num) / (den as int),
{
    proof {
        lemma_product_bound(v as int, num as int, 0x8000_0000, wide_bound());
    }
    let product: i128 = (v as i128) * num;
    let quotient: i128 = floor_div(product, den);
    proof {
        let r = (product as int) % (den as int);
        lemma_fundamental_div_mod(product as int, den as int);
        lemma_mod_bound(product as int, den as int);
        assert(-0x1_0000_0000_0000_0000_0000_0000 <= quotient <= 0x1_0000_0000_0000_0000_0000_0000)
            by (nonlinear_arith)
            requires
                product == (den as int) * quotient + r,
                0 <= r < den,
                -0x1_0000_0000_0000_0000_0000_0000 <= product <= 0x1_0000_0000_0000_0000_0000_0000,
        ;
    }
    let sum: i128 = base as i128 + quotient;
    if -2147483648 <= sum && sum <= 2147483647 {
        Some(sum as i32)
    } else {
        None
    }
}

/// The point `base + v * num / den`, each coordinate of the quotient rounded
/// down, where a [`Vec3`] can hold it.
pub(crate) fn displace(base: Vec3, v: Vec3, num: i128, den: i128) -> (moved: Option<Vec3>)
    requires
        den > 0,
        -wide_bound() <= num <= wide_bound(),
    ensures
        moved == (if base@.plus(v@.scaled(num as int, den as int)).fits() {
            Some(base@.plus(v@.scaled(num as int, den as int)).narrowed())
        } else {
            None
        }),
{
    let x = displace_coordinate(base.x, v.x, num, den);
    let y = displace_coordinate(base.y, v.y, num, den);
    let z = displace_coordinate(base.z, v.z, num, den);
    match (x, y, z) {
        (Some(x), Some(y), Some(z)) => Some(Vec3 { x, y, z }),
        _ => None,
    }
}

/// `dot(plane_point - origin, plane_normal)`: the ray parameter of the
/// meeting point, times [`plane_denominator`].
pub open spec fn plane_numerator(ray: Ray, plane_point: Vec3, plane_normal: Vec3) -> int {
    plane_point@.minus(ray.origin@).dot(plane_normal@)
}

/// `dot(direction, plane_normal)`: zero exactly when the ray runs parallel to
/// the plane.
pub open spec fn plane_denominator(ray: Ray, plane_normal: Vec3) -> int {
    ray.direction@.dot(plane_normal@)
}

/// The ray is not parallel to the plane and the plane does not lie behind
/// the ray's origin: the parameter `numerator / denominator` exists and is
/// not negative.
pub open spec fn reaches_plane(ray: Ray, plane_point: Vec3, plane_normal: Vec3) -> bool {
    let num = plane_numerator(ray, plane_point, plane_normal);
    let den = plane_denominator(ray, plane_normal);
    (den > 0 && num >= 0) || (den < 0 && num <= 0)
}

/// Where the ray meets the plane: `origin + direction * numerator /
/// denominator`, each coordinate of the quotient rounded down.
pub open spec fn meeting_point(ray: Ray, plane_point: Vec3, plane_normal: Vec3) -> Vector {
    let num = plane_numerator(ray, plane_point, plane_normal);
    let den = plane_denominator(ray, plane_normal);
    if den > 0 {
        ray.origin@.plus(ray.direction@.scaled(num, den))
    } else {
        ray.origin@.plus(ray.direction@.scaled(-num, -den))
    }
}

/// The meeting point, where there is one that a [`Vec3`] can hold.
pub open spec fn plane_hit(ray: Ray, plane_point: Vec3, plane_normal: Vec3) -> Option<Vec3> {
    if reaches_plane(ray, plane_point, plane_normal) && meeting_point(
        ray,
        plane_point,
        plane_normal,
    ).fits() {
        Some(meeting_point(ray, plane_point, plane_normal).narrowed())
    } else {
        None
    }
}

/// The point where `ray` meets the plane through `plane_point` with normal
/// `plane_normal`.
///
/// There is none when the ray is parallel to the plane, when the plane lies
/// behind the ray's origin, or when the ray is so close to parallel that the
/// meeting point is beyond what a [`Vec3`] can hold. On a horizontal plane
/// the point found has exactly the plane's height.
pub fn intersect(ray: Ray, plane_point: Vec3, plane_normal: Vec3) -> (hit: Option<Vec3>)
    ensures
        hit == plane_hit(ray, plane_point, plane_normal),
        plane_denominator(ray, plane_normal) == 0 ==> hit.is_none(),
        hit matches Some(p) ==> (plane_normal.x == 0 && plane_normal.z == 0 ==> p.y
            == plane_point.y),
{
    let den = dot(ray.direction, plane_normal);
    let num = dot_of_difference(plane_point, ray.origin, plane_normal);
    proof {
        if plane_normal.x == 0 && plane_normal.z == 0 && reaches_plane(
            ray,
            plane_point,
            plane_normal,
        ) {
            lemma_level_hit(ray, plane_point, plane_normal);
        }
    }
    if den > 0 && num >= 0 {
        displace(ray.origin, ray.direction, num, den)
    } else if den < 0 && num <= 0 {
        displace(ray.origin, ray.direction, -num, -den)
    } else {
        None
    }
}

/// On a plane whose normal is vertical, the meeting point has the height of
/// the plane, whatever the rounding of the other two coordinates.
pub proof fn lemma_level_hit(ray: Ray, plane_point: Vec3, plane_normal: Vec3)
    requires
        plane_normal.x == 0,
        plane_normal.z == 0,
        reaches_plane(ray, plane_point, plane_normal),
    ensures
        meeting_point(ray, plane_point, plane_normal).y == plane_point.y,
{
    let num = plane_numerator(ray, plane_point, plane_normal);
    let den = plane_denominator(ray, plane_normal);
    let rise = plane_point.y - ray.origin.y;
    let dy = ray.direction.y as int;
    let ny = plane_normal.y as int;
    assert(num == rise * ny && den == dy * ny) by (nonlinear_arith)
        requires
            num == (plane_point.x - ray.origin.x) * 0 + rise * ny + (plane_point.z - ray.origin.z) * 0,
            den == ray.direction.x * 0 + dy * ny + ray.direction.z * 0,
    ;
    if den > 0 {
        assert(dy * num == den * rise) by (nonlinear_arith)
            requires
                num == rise * ny,
                den == dy * ny,
        ;
        lemma_div_multiples_vanish(rise, den);
    } else {
        assert(dy * (-num) == (-den) * rise) by (nonlinear_arith)
            requires
                num == rise * ny,
                den == dy * ny,
        ;
        lemma_div_multiples_vanish(rise, -den);
    }
}

/// The meeting point is the point where the ray crosses the plane, rounded
/// down. With `num / den` the ray parameter, `den` made positive: the point
/// `origin + direction * num / den` lies on the plane, and each coordinate
/// of the meeting point is that point's coordinate or less, by less than
/// one step.
pub proof fn lemma_meeting_point_is_crossing_rounded_down(
    ray: Ray,
    plane_point: Vec3,
    plane_normal: Vec3,
)
    requires
        reaches_plane(ray, plane_point, plane_normal),
    ensures
        ({
            let flip = plane_denominator(ray, plane_normal) < 0;
            let num = if flip {
                -plane_numerator(ray, plane_point, plane_normal)
            } else {
                plane_numerator(ray, plane_point, plane_normal)
            };
            let den = if flip {
                -plane_denominator(ray, plane_normal)
            } else {
                plane_denominator(ray, plane_normal)
            };
            let met = meeting_point(ray, plane_point, plane_normal);
            let crossing = Vector {
                x: den * ray.origin.x + ray.direction.x * num,
                y: den * ray.origin.y + ray.direction.y * num,
                z: den * ray.origin.z + ray.direction.z * num,
            };
            let on_plane = Vector {
                x: den * plane_point.x,
                y: den * plane_point.y,
                z: den * plane_point.z,
            };
            &&& den > 0
            &&& crossing.minus(on_plane).dot(plane_normal@) == 0
            &&& den * met.x <= crossing.x < den * (met.x + 1)
            &&& den * met.y <= crossing.y < den * (met.y + 1)
            &&& den * met.z <= crossing.z < den * (met.z + 1)
        }),
{
    let num0 = plane_numerator(ray, plane_point, plane_normal);
    let den0 = plane_denominator(ray, plane_normal);
    let num = if den0 < 0 {
        -num0
    } else {
        num0
    };
    let den = if den0 < 0 {
        -den0
    } else {
        den0
    };
    let o = ray.origin@;
    let d = ray.direction@;
    let p = plane_point@;
    let n = plane_normal@;
    lemma_crossing_term(den, num, o.x, d.x, p.x, n.x);
    lemma_crossing_term(den, num, o.y, d.y, p.y, n.y);
    lemma_crossing_term(den, num, o.z, d.z, p.z, n.z);
    lemma_distributes_over_three(den, (o.x - p.x) * n.x, (o.y - p.y) * n.y, (o.z - p.z) * n.z);
    lemma_distributes_over_three(num, d.x * n.x, d.y * n.y, d.z * n.z);
    assert((o.x - p.x) * n.x + (o.y - p.y) * n.y + (o.z - p.z) * n.z == -num0) by (nonlinear_arith)
        requires
            num0 == (p.x - o.x) * n.x + (p.y - o.y) * n.y + (p.z - o.z) * n.z,
    ;
    assert(den * (-num0) + num * den0 == 0) by (nonlinear_arith)
        requires
            (num == num0 && den == den0) || (num == -num0 && den == -den0),
    ;
    lemma_floor_brackets(o.x, d.x * num, den);
    lemma_floor_brackets(o.y, d.y * num, den);
    lemma_floor_brackets(o.z, d.z * num, den);
}

/// One coordinate's share in the distance of the crossing from the plane.
proof fn lemma_crossing_term(den: int, num: int, o: int, d: int, p: int, n: int)
    by (nonlinear_arith)
    ensures
        (den * o + d * num - den * p) * n == den * ((o - p) * n) + num * (d * n),
{
}

/// A product with a sum of three is the sum of the three products.
proof fn lemma_distributes_over_three(k: int, a: int, b: int, c: int)
    by (nonlinear_arith)
    ensures
        k * (a + b + c) == k * a + k * b + k * c,
{
}

/// `base + a / b`, with the quotient rounded down, is within one of `base +
/// a / b` taken exactly; stated without fractions.
proof fn lemma_floor_brackets(base: int, a: int, b: int)
    requires
        b > 0,
    ensures
        b * (base + a / b) <= b * base + a < b * (base + a / b + 1),
{
    lemma_fundamental_div_mod(a, b);
    lemma_mod_bound(a, b);
    assert(b * (base + a / b) == b * base + b * (a / b)) by (nonlinear_arith);
    assert(b * (base + a / b + 1) == b * base + b * (a / b) + b) by (nonlinear_arith);
}

/// The meeting point is never behind the ray's origin: seen from the
/// origin it lies along the direction, or at the origin.
pub proof fn lemma_meeting_point_is_ahead(ray: Ray, plane_point: Vec3, plane_normal: Vec3)
    requires
        reaches_plane(ray, plane_point, plane_normal),
    ensures
        meeting_point(ray, plane_point, plane_normal).minus(ray.origin@).dot(ray.direction@) >= 0,
{
    let num0 = plane_numerator(ray, plane_point, plane_normal);
    let den0 = plane_denominator(ray, plane_normal);
    let num = if den0 > 0 {
        num0
    } else {
        -num0
    };
    let den = if den0 > 0 {
        den0
    } else {
        -den0
    };
    let d = ray.direction@;
    lemma_quotient_has_sign_of_factor(d.x, num, den);
    lemma_quotient_has_sign_of_factor(d.y, num, den);
    lemma_quotient_has_sign_of_factor(d.z, num, den);
}

/// `k * num / den`, rounded down, does not point against `k` when `num`
/// is not negative and `den` is positive.
proof fn lemma_quotient_has_sign_of_factor(k: int, num: int, den: int)
    requires
        num >= 0,
        den > 0,
    ensures
        ((k * num) / den) * k >= 0,
{
    let q = (k * num) / den;
    lemma_fundamental_div_mod(k * num, den);
    lemma_mod_bound(k * num, den);
    assert(q * k >= 0) by (nonlinear_arith)
        requires
            k * num == den * q + (k * num) % den,
            0 <= (k * num) % den < den,
            num >= 0,
            den > 0,
    ;
}

/// A product is no larger in magnitude than the product of its factors'
/// bounds.
proof fn lemma_product_bound(a: int, b: int, a_max: int, b_max: int)
    by (nonlinear_arith)
    requires
        -a_max <= a <= a_max,
        -b_max <= b <= b_max,
    ensures
        -(a_max * b_max) <= a * b <= a_max * b_max,
{
}

} // verus!
