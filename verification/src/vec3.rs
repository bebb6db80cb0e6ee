//! Three-component vectors: positions, directions and colors.

use crate::random::uniform;
use crate::scalar::{lemma_component_over_norm, lemma_square_not_negative, Scalar, SCALE};
use core::ops::Neg;
use vstd::prelude::*;

verus! {

/// Raw bound under which a component counts as zero: ten billionths.
pub const NEAR_ZERO: i64 = 10;

#[derive(Clone, Copy, Debug, PartialEq, Eq, Structural)]
pub struct Vec3 {
    pub x: Scalar,
    pub y: Scalar,
    pub z: Scalar,
}

impl Vec3 {
    /// The vector of three equal components `s`.
    pub open spec fn splat(s: Scalar) -> Vec3 {
        Vec3 { x: s, y: s, z: s }
    }

    /// The zero vector, which as a color is black.
    pub open spec fn zero() -> Vec3 {
        Vec3::splat(Scalar { raw: 0 })
    }

    /// The component-wise sum.
    pub open spec fn plus(self, other: Vec3) -> Vec3 {
        Vec3 { x: self.x.plus(other.x), y: self.y.plus(other.y), z: self.z.plus(other.z) }
    }

    /// The component-wise difference.
    pub open spec fn minus(self, other: Vec3) -> Vec3 {
        Vec3 { x: self.x.minus(other.x), y: self.y.minus(other.y), z: self.z.minus(other.z) }
    }

    /// The component-wise product.
    pub open spec fn times(self, other: Vec3) -> Vec3 {
        Vec3 { x: self.x.times(other.x), y: self.y.times(other.y), z: self.z.times(other.z) }
    }

    /// The component-wise quotient.
    pub open spec fn over(self, other: Vec3) -> Vec3 {
        Vec3 { x: self.x.over(other.x), y: self.y.over(other.y), z: self.z.over(other.z) }
    }

    /// Every component multiplied by `s`.
    pub open spec fn scaled(self, s: Scalar) -> Vec3 {
        Vec3 { x: self.x.times(s), y: self.y.times(s), z: self.z.times(s) }
    }

    /// Every component divided by `s`.
    pub open spec fn shrunk(self, s: Scalar) -> Vec3 {
        Vec3 { x: self.x.over(s), y: self.y.over(s), z: self.z.over(s) }
    }

    /// The opposite vector.
    pub open spec fn negated(self) -> Vec3 {
        Vec3 { x: self.x.negated(), y: self.y.negated(), z: self.z.negated() }
    }

    /// The component at `index`: 0 for `x`, 1 for `y`, 2 for `z`.
    pub open spec fn spec_get(self, index: int) -> Scalar {
        if index == 0 {
            self.x
        } else if index == 1 {
            self.y
        } else {
            self.z
        }
    }

    pub open spec fn spec_dot(self, other: Vec3) -> Scalar {
        self.x.times(other.x).plus(self.y.times(other.y)).plus(self.z.times(other.z))
    }

    pub open spec fn spec_cross(self, other: Vec3) -> Vec3 {
        Vec3 {
            x: self.y.times(other.z).minus(self.z.times(other.y)),
            y: self.z.times(other.x).minus(self.x.times(other.z)),
            z: self.x.times(other.y).minus(self.y.times(other.x)),
        }
    }

    pub open spec fn spec_sqr_length(self) -> Scalar {
        self.spec_dot(self)
    }

    /// The length: the square root of the exact sum of the squares of the
    /// components, rounded down.
    pub open spec fn spec_length(self) -> Scalar {
        Scalar::spec_norm(self.x, self.y, self.z)
    }

    /// Every component lies between minus one and one.
    pub open spec fn in_unit_cube(self) -> bool {
        &&& -SCALE <= self.x.raw <= SCALE
        &&& -SCALE <= self.y.raw <= SCALE
        &&& -SCALE <= self.z.raw <= SCALE
    }

    /// The vector divided by its length.
    pub open spec fn spec_unit_vector(self) -> Vec3 {
        self.shrunk(self.spec_length())
    }

    pub open spec fn spec_near_zero(self) -> bool {
        &&& self.x.spec_abs().raw < NEAR_ZERO
        &&& self.y.spec_abs().raw < NEAR_ZERO
        &&& self.z.spec_abs().raw < NEAR_ZERO
    }

    /// The mirror image of `self` about the plane with normal `n`:
    /// `self - 2 (self . n) n`.
    pub open spec fn spec_reflect(self, n: Vec3) -> Vec3 {
        self.minus(n.scaled(Scalar::spec_from_int(2)).scaled(self.spec_dot(n)))
    }

    /// The cosine between the normalized `self` and `n`.
    pub open spec fn refract_cosine(self, n: Vec3) -> Scalar {
        self.spec_unit_vector().spec_dot(n)
    }

    /// Snell's discriminant `1 - eta^2 (1 - cos^2)`; refraction exists where
    /// it is positive.
    pub open spec fn refract_discriminant(self, n: Vec3, etai_over_etat: Scalar) -> Scalar {
        let dt = self.refract_cosine(n);
        let one = Scalar { raw: SCALE };
        one.minus(etai_over_etat.times(etai_over_etat).times(one.minus(dt.times(dt))))
    }

    pub open spec fn spec_refract(self, n: Vec3, etai_over_etat: Scalar) -> Option<Vec3> {
        let uv = self.spec_unit_vector();
        let dt = self.refract_cosine(n);
        let discriminant = self.refract_discriminant(n, etai_over_etat);
        if discriminant.raw > 0 {
            Some(
                uv.minus(n.scaled(dt)).scaled(etai_over_etat).minus(
                    n.scaled(discriminant.spec_sqrt()),
                ),
            )
        } else {
            None
        }
    }

    /// The squared length is below one.
    pub open spec fn in_unit_sphere(self) -> bool {
        self.spec_sqr_length().raw < SCALE
    }

    /// Every component is at least `min` and below `max`.
    pub open spec fn in_box(self, min: Scalar, max: Scalar) -> bool {
        &&& min.raw <= self.x.raw < max.raw
        &&& min.raw <= self.y.raw < max.raw
        &&& min.raw <= self.z.raw < max.raw
    }

    pub fn new(x: Scalar, y: Scalar, z: Scalar) -> (r: Vec3)
        ensures
            r == (Vec3 { x, y, z }),
    {
        Vec3 { x, y, z }
    }

    /// The zero vector: the origin as a point, black as a color.
    pub fn black() -> (r: Vec3)
        ensures
            r == Vec3::zero(),
            r.in_unit_sphere(),
    {
        Vec3 { x: Scalar { raw: 0 }, y: Scalar { raw: 0 }, z: Scalar { raw: 0 } }
    }

    /// A vector of whole components.
    pub fn from_ints(x: i64, y: i64, z: i64) -> (r: Vec3)
        ensures
            r == (Vec3 {
                x: Scalar::spec_from_int(x as int),
                y: Scalar::spec_from_int(y as int),
                z: Scalar::spec_from_int(z as int),
            }),
    {
        Vec3 { x: Scalar::from_int(x), y: Scalar::from_int(y), z: Scalar::from_int(z) }
    }

    /// A vector with each component drawn from zero up to, not including,
    /// one.
    pub fn random() -> (r: Vec3)
        ensures
            r.in_box(Scalar::spec_from_int(0), Scalar::spec_from_int(1)),
    {
        Vec3 {
            x: Scalar { raw: uniform(0, SCALE) },
            y: Scalar { raw: uniform(0, SCALE) },
            z: Scalar { raw: uniform(0, SCALE) },
        }
    }

    /// A vector with each component drawn from `min` up to, not including,
    /// `max`.
    pub fn random_range(min: Scalar, max: Scalar) -> (r: Vec3)
        requires
            min.raw < max.raw,
        ensures
            r.in_box(min, max),
    {
        Vec3 {
            x: Scalar { raw: uniform(min.raw, max.raw) },
            y: Scalar { raw: uniform(min.raw, max.raw) },
            z: Scalar { raw: uniform(min.raw, max.raw) },
        }
    }

    /// Whether a candidate of the rejection samplers is kept.
    pub fn accepted(&self) -> (r: bool)
        ensures
            r == self.in_unit_sphere(),
    {
        self.sqr_length().raw < SCALE
    }

    /// A point inside the unit sphere, by rejection: candidates are drawn
    /// from the cube around it until one is accepted. After `u64::MAX`
    /// rejections in a row the center is returned.
    pub fn random_in_unit_sphere() -> (r: Vec3)
        ensures
            r.in_unit_sphere(),
            r.in_box(Scalar::spec_from_int(-1), Scalar::spec_from_int(1)),
    {
        let mut rejected: u64 = 0;
        while rejected < u64::MAX
            decreases u64::MAX - rejected,
        {
            let p = Vec3::random_range(Scalar { raw: -SCALE }, Scalar { raw: SCALE });
            if p.accepted() {
                return p;
            }
            rejected = rejected + 1;
        }
        Vec3::black()
    }

    /// A point inside the unit disk of the plane `z = 0`, by rejection as
    /// in [`Vec3::random_in_unit_sphere`].
    pub fn random_in_unit_disk() -> (r: Vec3)
        ensures
            r.z.raw == 0,
            r.in_unit_sphere(),
            -SCALE <= r.x.raw < SCALE,
            -SCALE <= r.y.raw < SCALE,
    {
        let mut rejected: u64 = 0;
        while rejected < u64::MAX
            decreases u64::MAX - rejected,
        {
            let p = Vec3 {
                x: Scalar { raw: uniform(-SCALE, SCALE) },
                y: Scalar { raw: uniform(-SCALE, SCALE) },
                z: Scalar { raw: 0 },
            };
            if p.accepted() {
                return p;
            }
            rejected = rejected + 1;
        }
        Vec3::black()
    }

    /// A random direction: a point drawn inside the unit sphere, divided by
    /// its length.
    pub fn random_unit_vector() -> (r: Vec3)
        ensures
            exists|p: Vec3| #[trigger] p.in_unit_sphere() && r == p.spec_unit_vector(),
    {
        let p = Vec3::random_in_unit_sphere();
        p.unit_vector()
    }

    pub fn near_zero(&self) -> (r: bool)
        ensures
            r == self.spec_near_zero(),
    {
        self.x.abs().raw < NEAR_ZERO && self.y.abs().raw < NEAR_ZERO && self.z.abs().raw
            < NEAR_ZERO
    }

    pub fn reflect(self, n: Vec3) -> (r: Vec3)
        ensures
            r == self.spec_reflect(n),
    {
        self - n * Scalar::from_int(2) * self.dot(n)
    }

    /// The direction of `self` after crossing, under Snell's law, a surface
    /// with normal `n` and ratio of refractive indices `etai_over_etat`;
    /// `None` on total internal reflection.
    pub fn refract(self, n: Vec3, etai_over_etat: Scalar) -> (r: Option<Vec3>)
        ensures
            r == self.spec_refract(n, etai_over_etat),
            r is Some <==> self.refract_discriminant(n, etai_over_etat).raw > 0,
    {
        let uv = self.unit_vector();
        let dt = uv.dot(n);
        let discriminant = Scalar::one() - etai_over_etat * etai_over_etat * (Scalar::one() - dt
            * dt);
        if discriminant.raw > 0 {
            Some((uv - n * dt) * etai_over_etat - n * discriminant.sqrt())
        } else {
            None
        }
    }

    pub fn r(&self) -> (r: Scalar)
        ensures
            r == self.x,
    {
        self.x
    }

    pub fn g(&self) -> (r: Scalar)
        ensures
            r == self.y,
    {
        self.y
    }

    pub fn b(&self) -> (r: Scalar)
        ensures
            r == self.z,
    {
        self.z
    }

    pub fn length(&self) -> (r: Scalar)
        ensures
            r == self.spec_length(),
    {
        Scalar::norm(self.x, self.y, self.z)
    }

    pub fn sqr_length(&self) -> (r: Scalar)
        ensures
            r == self.spec_sqr_length(),
    {
        self.x * self.x + self.y * self.y + self.z * self.z
    }

    pub fn dot(self, other: Vec3) -> (r: Scalar)
        ensures
            r == self.spec_dot(other),
    {
        self.x * other.x + self.y * other.y + self.z * other.z
    }

    pub fn cross(self, other: Vec3) -> (r: Vec3)
        ensures
            r == self.spec_cross(other),
    {
        Vec3 {
            x: self.y * other.z - self.z * other.y,
            y: self.z * other.x - self.x * other.z,
            z: self.x * other.y - self.y * other.x,
        }
    }

    /// The vector divided by its length, each component between minus one
    /// and one. The zero vector, which has no direction, gives itself.
    pub fn unit_vector(self) -> (r: Vec3)
        ensures
            r == self.spec_unit_vector(),
            r.in_unit_cube(),
    {
        proof {
            lemma_unit_vector_in_unit_cube(self);
        }
        self / self.length()
    }

    /// The component at `index`.
    pub fn get(&self, index: usize) -> (r: Scalar)
        requires
            index < 3,
        ensures
            r == self.spec_get(index as int),
    {
        if index == 0 {
            self.x
        } else if index == 1 {
            self.y
        } else {
            self.z
        }
    }

    /// Replaces the component at `index`.
    pub fn set(&mut self, index: usize, value: Scalar)
        requires
            index < 3,
        ensures
            final(self).spec_get(index as int) == value,
            forall|i: int| 0 <= i < 3 && i != index ==> final(self).spec_get(i) == old(self).spec_get(i),
    {
        if index == 0 {
            self.x = value;
        } else if index == 1 {
            self.y = value;
        } else {
            self.z = value;
        }
    }
}

/// The components of a normalized vector lie between minus one and one,
/// whatever the vector.
pub proof fn lemma_unit_vector_in_unit_cube(v: Vec3)
    ensures
        v.spec_unit_vector().in_unit_cube(),
{
    lemma_component_over_norm(v.x, v.x, v.y, v.z);
    lemma_component_over_norm(v.y, v.x, v.y, v.z);
    lemma_component_over_norm(v.z, v.x, v.y, v.z);
}

/// The squared length of a vector is not negative.
pub proof fn lemma_sqr_length_not_negative(v: Vec3)
    ensures
        v.spec_sqr_length().raw >= 0,
{
    lemma_square_not_negative(v.x);
    lemma_square_not_negative(v.y);
    lemma_square_not_negative(v.z);
}

impl core::ops::Add for Vec3 {
    type Output = Vec3;

    fn add(self, rhs: Vec3) -> (r: Vec3)
        ensures
            r == self.plus(rhs),
    {
        Vec3 { x: self.x + rhs.x, y: self.y + rhs.y, z: self.z + rhs.z }
    }
}

impl vstd::std_specs::ops::AddSpecImpl for Vec3 {
    open spec fn obeys_add_spec() -> bool {
        true
    }

    open spec fn add_req(self, rhs: Vec3) -> bool {
        true
    }

    open spec fn add_spec(self, rhs: Vec3) -> Vec3 {
        self.plus(rhs)
    }
}

impl core::ops::Sub for Vec3 {
    type Output = Vec3;

    fn sub(self, rhs: Vec3) -> (r: Vec3)
        ensures
            r == self.minus(rhs),
    {
        Vec3 { x: self.x - rhs.x, y: self.y - rhs.y, z: self.z - rhs.z }
    }
}

impl vstd::std_specs::ops::SubSpecImpl for Vec3 {
    open spec fn obeys_sub_spec() -> bool {
        true
    }

    open spec fn sub_req(self, rhs: Vec3) -> bool {
        true
    }

    open spec fn sub_spec(self, rhs: Vec3) -> Vec3 {
        self.minus(rhs)
    }
}

impl core::ops::Mul for Vec3 {
    type Output = Vec3;

    fn mul(self, rhs: Vec3) -> (r: Vec3)
        ensures
            r == self.times(rhs),
    {
        Vec3 { x: self.x * rhs.x, y: self.y * rhs.y, z: self.z * rhs.z }
    }
}

impl vstd::std_specs::ops::MulSpecImpl for Vec3 {
    open spec fn obeys_mul_spec() -> bool {
        true
    }

    open spec fn mul_req(self, rhs: Vec3) -> bool {
        true
    }

    open spec fn mul_spec(self, rhs: Vec3) -> Vec3 {
        self.times(rhs)
    }
}

impl core::ops::Div for Vec3 {
    type Output = Vec3;

    fn div(self, rhs: Vec3) -> (r: Vec3)
        ensures
            r == self.over(rhs),
    {
        Vec3 { x: self.x / rhs.x, y: self.y / rhs.y, z: self.z / rhs.z }
    }
}

impl vstd::std_specs::ops::DivSpecImpl for Vec3 {
    open spec fn obeys_div_spec() -> bool {
        true
    }

    open spec fn div_req(self, rhs: Vec3) -> bool {
        true
    }

    open spec fn div_spec(self, rhs: Vec3) -> Vec3 {
        self.over(rhs)
    }
}

impl core::ops::Mul<Scalar> for Vec3 {
    type Output = Vec3;

    fn mul(self, rhs: Scalar) -> (r: Vec3)
        ensures
            r == self.scaled(rhs),
    {
        Vec3 { x: self.x * rhs, y: self.y * rhs, z: self.z * rhs }
    }
}

impl vstd::std_specs::ops::MulSpecImpl<Scalar> for Vec3 {
    open spec fn obeys_mul_spec() -> bool {
        true
    }

    open spec fn mul_req(self, rhs: Scalar) -> bool {
        true
    }

    open spec fn mul_spec(self, rhs: Scalar) -> Vec3 {
        self.scaled(rhs)
    }
}

impl core::ops::Div<Scalar> for Vec3 {
    type Output = Vec3;

    fn div(self, rhs: Scalar) -> (r: Vec3)
        ensures
            r == self.shrunk(rhs),
    {
        Vec3 { x: self.x / rhs, y: self.y / rhs, z: self.z / rhs }
    }
}

impl vstd::std_specs::ops::DivSpecImpl<Scalar> for Vec3 {
    open spec fn obeys_div_spec() -> bool {
        true
    }

    open spec fn div_req(self, rhs: Scalar) -> bool {
        true
    }

    open spec fn div_spec(self, rhs: Scalar) -> Vec3 {
        self.shrunk(rhs)
    }
}

impl core::ops::Neg for Vec3 {
    type Output = Vec3;

    fn neg(self) -> (r: Vec3)
        ensures
            r == self.negated(),
    {
        Vec3 { x: self.x.neg(), y: self.y.neg(), z: self.z.neg() }
    }
}

impl vstd::std_specs::ops::NegSpecImpl for Vec3 {
    open spec fn obeys_neg_spec() -> bool {
        true
    }

    open spec fn neg_req(self) -> bool {
        true
    }

    open spec fn neg_spec(self) -> Vec3 {
        self.negated()
    }
}

impl core::ops::AddAssign for Vec3 {
    fn add_assign(&mut self, rhs: Vec3)
        ensures
            *final(self) == old(self).plus(rhs),
    {
        self.x = self.x + rhs.x;
        self.y = self.y + rhs.y;
        self.z = self.z + rhs.z;
    }
}

impl core::ops::SubAssign for Vec3 {
    fn sub_assign(&mut self, rhs: Vec3)
        ensures
            *final(self) == old(self).minus(rhs),
    {
        self.x = self.x - rhs.x;
        self.y = self.y - rhs.y;
        self.z = self.z - rhs.z;
    }
}

impl core::ops::MulAssign for Vec3 {
    fn mul_assign(&mut self, rhs: Vec3)
        ensures
            *final(self) == old(self).times(rhs),
    {
        self.x = self.x * rhs.x;
        self.y = self.y * rhs.y;
        self.z = self.z * rhs.z;
    }
}

impl core::ops::DivAssign for Vec3 {
    fn div_assign(&mut self, rhs: Vec3)
        ensures
            *final(self) == old(self).over(rhs),
    {
        self.x = self.x / rhs.x;
        self.y = self.y / rhs.y;
        self.z = self.z / rhs.z;
    }
}

impl core::ops::MulAssign<Scalar> for Vec3 {
    fn mul_assign(&mut self, rhs: Scalar)
        ensures
            *final(self) == old(self).scaled(rhs),
    {
        self.x = self.x * rhs;
        self.y = self.y * rhs;
        self.z = self.z * rhs;
    }
}

impl core::ops::DivAssign<Scalar> for Vec3 {
    fn div_assign(&mut self, rhs: Scalar)
        ensures
            *final(self) == old(self).shrunk(rhs),
    {
        self.x = self.x / rhs;
        self.y = self.y / rhs;
        self.z = self.z / rhs;
    }
}

} // verus!
