//! Materials: how a surface scatters a ray.
//!
//! A scatter either yields an attenuation and an outgoing ray, or absorbs
//! the ray. Each material has a form that takes the random quantities it
//! needs as arguments, and one that draws them.

use crate::hits::HitRecord;
use crate::random::uniform;
use crate::ray::Ray;
use crate::scalar::{lemma_quotient_exact, lemma_times_rounding, Scalar, SCALE};
use crate::vec3::Vec3;
use core::ops::Neg;
use vstd::prelude::*;

verus! {

/// The random quantities of one scatter: a point inside the unit sphere and
/// a number from zero up to, not including, one.
#[derive(Clone, Copy, Debug, PartialEq, Eq, Structural)]
pub struct Draw {
    pub sphere: Vec3,
    pub coin: Scalar,
}

impl Draw {
    pub open spec fn valid(self) -> bool {
        &&& self.sphere.in_unit_sphere()
        &&& 0 <= self.coin.raw < SCALE
    }

    /// The draw of a hit that needs none: the center of the sphere and
    /// zero.
    pub open spec fn idle() -> Draw {
        Draw { sphere: Vec3::zero(), coin: Scalar { raw: 0 } }
    }

    /// Draws both quantities.
    pub fn random() -> (r: Draw)
        ensures
            r.valid(),
    {
        Draw { sphere: Vec3::random_in_unit_sphere(), coin: Scalar { raw: uniform(0, SCALE) } }
    }
}

/// Each channel lies between zero and one, as an albedo's should.
pub open spec fn is_reflectance(color: Vec3) -> bool {
    &&& 0 <= color.x.raw <= SCALE
    &&& 0 <= color.y.raw <= SCALE
    &&& 0 <= color.z.raw <= SCALE
}

/// A diffuse surface.
#[derive(Clone, Copy, Debug, PartialEq, Eq, Structural)]
pub struct Lambertian {
    pub albedo: Vec3,
}

/// A mirror whose reflection is blurred by `fuzz`, between zero and one.
#[derive(Clone, Copy, Debug, PartialEq, Eq, Structural)]
pub struct Metal {
    pub albedo: Vec3,
    pub fuzz: Scalar,
}

/// Tinted glass.
#[derive(Clone, Copy, Debug, PartialEq, Eq, Structural)]
pub struct Dielectric {
    pub albedo: Vec3,
    pub ref_idx: Scalar,
}

#[derive(Clone, Copy, Debug, PartialEq, Eq, Structural)]
pub enum Material {
    Lambertian(Lambertian),
    Metal(Metal),
    Dielectric(Dielectric),
}

impl Lambertian {
    /// The scatter for the random direction `unit`: along `normal + unit`,
    /// or along the normal itself where that sum is near zero. Never
    /// absorbed.
    pub open spec fn spec_scatter(&self, rec: &HitRecord, unit: Vec3) -> Option<(Vec3, Ray)> {
        let sum = rec.normal.plus(unit);
        let direction = if sum.spec_near_zero() {
            rec.normal
        } else {
            sum
        };
        Some((self.albedo, Ray { origin: rec.p, direction }))
    }

    pub fn new(albedo: Vec3) -> (r: Lambertian)
        ensures
            r.albedo == albedo,
    {
        Lambertian { albedo }
    }

    pub fn scatter_with(&self, rec: &HitRecord, unit: Vec3) -> (r: Option<(Vec3, Ray)>)
        ensures
            r == self.spec_scatter(rec, unit),
            r is Some,
            r.unwrap().0 == self.albedo,
    {
        let mut scatter_direction = rec.normal + unit;
        if scatter_direction.near_zero() {
            scatter_direction = rec.normal;
        }
        let scattered = Ray::new(rec.p, scatter_direction);
        Some((self.albedo, scattered))
    }

    pub fn scatter(&self, _r_in: &Ray, rec: &HitRecord) -> (r: Option<(Vec3, Ray)>)
        ensures
            exists|p: Vec3| #[trigger]
                p.in_unit_sphere() && r == self.spec_scatter(rec, p.spec_unit_vector()),
            r is Some,
            r.unwrap().0 == self.albedo,
    {
        let unit = Vec3::random_unit_vector();
        self.scatter_with(rec, unit)
    }
}

impl Metal {
    pub open spec fn well_formed(&self) -> bool {
        0 <= self.fuzz.raw <= SCALE
    }

    /// `fuzz` brought into the range from zero to one.
    pub open spec fn clamp_fuzz(fuzz: Scalar) -> Scalar {
        if fuzz.raw < 0 {
            Scalar { raw: 0 }
        } else if fuzz.raw < SCALE {
            fuzz
        } else {
            Scalar { raw: SCALE }
        }
    }

    /// The incoming direction reflected about the normal and pushed by
    /// `fuzz * sample`.
    pub open spec fn scattered_direction(&self, r_in: &Ray, rec: &HitRecord, sample: Vec3) -> Vec3 {
        r_in.direction.spec_reflect(rec.normal).plus(sample.scaled(self.fuzz))
    }

    /// The scatter for the point `sample` of the unit sphere: absorbed
    /// unless the scattered direction points away from the surface.
    pub open spec fn spec_scatter(&self, r_in: &Ray, rec: &HitRecord, sample: Vec3) -> Option<
        (Vec3, Ray),
    > {
        let direction = self.scattered_direction(r_in, rec, sample);
        if direction.spec_dot(rec.normal).raw > 0 {
            Some((self.albedo, Ray { origin: rec.p, direction }))
        } else {
            None
        }
    }

    pub fn new(albedo: Vec3, fuzz: Scalar) -> (r: Metal)
        ensures
            r.albedo == albedo,
            r.fuzz == Metal::clamp_fuzz(fuzz),
            r.well_formed(),
    {
        Metal {
            albedo,
            fuzz: if fuzz.raw < 0 {
                Scalar::zero()
            } else if fuzz.raw < SCALE {
                fuzz
            } else {
                Scalar::one()
            },
        }
    }

    pub fn scatter_with(&self, r_in: &Ray, rec: &HitRecord, sample: Vec3) -> (r: Option<
        (Vec3, Ray),
    >)
        ensures
            r == self.spec_scatter(r_in, rec, sample),
            r is Some <==> self.scattered_direction(r_in, rec, sample).spec_dot(rec.normal).raw > 0,
            r is Some ==> r.unwrap().0 == self.albedo,
    {
        let reflected = r_in.direction().reflect(rec.normal);
        let scattered = Ray::new(rec.p, reflected + sample * self.fuzz);
        if scattered.direction().dot(rec.normal).raw > 0 {
            Some((self.albedo, scattered))
        } else {
            None
        }
    }

    pub fn scatter(&self, r_in: &Ray, rec: &HitRecord) -> (r: Option<(Vec3, Ray)>)
        ensures
            exists|p: Vec3| #[trigger] p.in_unit_sphere() && r == self.spec_scatter(r_in, rec, p),
            r is Some ==> r.unwrap().0 == self.albedo,
    {
        let sample = Vec3::random_in_unit_sphere();
        self.scatter_with(r_in, rec, sample)
    }
}

impl Dielectric {
    /// The reflectance at normal incidence: `((1 - n) / (1 + n))^2`.
    pub open spec fn spec_r0(ref_idx: Scalar) -> Scalar {
        let one = Scalar { raw: SCALE };
        let r = one.minus(ref_idx).over(one.plus(ref_idx));
        r.times(r)
    }

    /// Schlick's approximation of the share of light that is reflected:
    /// `r0 + (1 - r0) (1 - cosine)^5`.
    pub open spec fn spec_reflectance(cosine: Scalar, ref_idx: Scalar) -> Scalar {
        let one = Scalar { raw: SCALE };
        let r0 = Dielectric::spec_r0(ref_idx);
        r0.plus(one.minus(r0).times(one.minus(cosine).spec_pow5()))
    }

    /// The ray arrives from outside: against the normal.
    pub open spec fn front_face(r_in: &Ray, rec: &HitRecord) -> bool {
        r_in.direction.spec_dot(rec.normal).raw < 0
    }

    /// The normal turned against the ray.
    pub open spec fn facing_normal(r_in: &Ray, rec: &HitRecord) -> Vec3 {
        if Dielectric::front_face(r_in, rec) {
            rec.normal
        } else {
            rec.normal.negated()
        }
    }

    /// The ratio of refractive indices across the surface, in the ray's
    /// direction of travel.
    pub open spec fn refraction_ratio(&self, r_in: &Ray, rec: &HitRecord) -> Scalar {
        if Dielectric::front_face(r_in, rec) {
            Scalar { raw: SCALE }.over(self.ref_idx)
        } else {
            self.ref_idx
        }
    }

    /// The cosine of the angle of incidence, at most one.
    pub open spec fn cos_theta(r_in: &Ray, rec: &HitRecord) -> Scalar {
        r_in.direction.spec_unit_vector().negated().spec_dot(
            Dielectric::facing_normal(r_in, rec),
        ).spec_min(Scalar { raw: SCALE })
    }

    /// Snell's law has no solution: the sine of the refracted angle would
    /// exceed one.
    pub open spec fn cannot_refract(&self, r_in: &Ray, rec: &HitRecord) -> bool {
        let one = Scalar { raw: SCALE };
        let cos_theta = Dielectric::cos_theta(r_in, rec);
        let sin_theta = one.minus(cos_theta.times(cos_theta)).spec_sqrt();
        self.refraction_ratio(r_in, rec).times(sin_theta).raw > SCALE
    }

    /// Whether the ray is reflected for the number `coin`: on total
    /// internal reflection, or where the reflectance exceeds `coin`.
    pub open spec fn reflects(&self, r_in: &Ray, rec: &HitRecord, coin: Scalar) -> bool {
        ||| self.cannot_refract(r_in, rec)
        ||| Dielectric::spec_reflectance(
            Dielectric::cos_theta(r_in, rec),
            self.refraction_ratio(r_in, rec),
        ).raw > coin.raw
    }

    /// The direction of the scattered ray for the number `coin`: the
    /// reflection where the ray is reflected or cannot be refracted, else
    /// the refraction.
    pub open spec fn scattered_direction(&self, r_in: &Ray, rec: &HitRecord, coin: Scalar) -> Vec3 {
        let unit_direction = r_in.direction.spec_unit_vector();
        let normal = Dielectric::facing_normal(r_in, rec);
        if self.reflects(r_in, rec, coin) {
            unit_direction.spec_reflect(normal)
        } else {
            match unit_direction.spec_refract(normal, self.refraction_ratio(r_in, rec)) {
                Some(refracted) => refracted,
                None => unit_direction.spec_reflect(normal),
            }
        }
    }

    /// The scatter for the number `coin`. Never absorbed.
    pub open spec fn spec_scatter(&self, r_in: &Ray, rec: &HitRecord, coin: Scalar) -> Option<
        (Vec3, Ray),
    > {
        Some(
            (
                self.albedo,
                Ray { origin: rec.p, direction: self.scattered_direction(r_in, rec, coin) },
            ),
        )
    }

    pub fn new(ref_idx: Scalar, albedo: Vec3) -> (r: Dielectric)
        ensures
            r.albedo == albedo,
            r.ref_idx == ref_idx,
    {
        Dielectric { albedo, ref_idx }
    }

    pub fn reflectance(cosine: Scalar, ref_idx: Scalar) -> (r: Scalar)
        ensures
            r == Dielectric::spec_reflectance(cosine, ref_idx),
    {
        let mut r0 = (Scalar::one() - ref_idx) / (Scalar::one() + ref_idx);
        r0 = r0 * r0;
        r0 + (Scalar::one() - r0) * (Scalar::one() - cosine).pow5()
    }

    pub fn scatter_with(&self, r_in: &Ray, rec: &HitRecord, coin: Scalar) -> (r: Option<
        (Vec3, Ray),
    >)
        ensures
            r == self.spec_scatter(r_in, rec, coin),
            r is Some,
            r.unwrap().0 == self.albedo,
    {
        let dot = r_in.direction().dot(rec.normal);
        let front_face = dot.raw < 0;

        let normal = if front_face {
            rec.normal
        } else {
            rec.normal.neg()
        };
        let refraction_ratio = if front_face {
            Scalar::one() / self.ref_idx
        } else {
            self.ref_idx
        };

        let unit_direction = r_in.direction().unit_vector();
        let cos_theta = unit_direction.neg().dot(normal).min(Scalar::one());
        let sin_theta = (Scalar::one() - cos_theta * cos_theta).sqrt();

        let cannot_refract = (refraction_ratio * sin_theta).raw > SCALE;
        let direction;
        if cannot_refract || Dielectric::reflectance(cos_theta, refraction_ratio).raw > coin.raw {
            direction = unit_direction.reflect(normal);
        } else {
            match unit_direction.refract(normal, refraction_ratio) {
                Some(refracted) => {
                    direction = refracted;
                },
                None => {
                    direction = unit_direction.reflect(normal);
                },
            }
        }

        let scattered = Ray::new(rec.p, direction);
        Some((self.albedo, scattered))
    }

    pub fn scatter(&self, r_in: &Ray, rec: &HitRecord) -> (r: Option<(Vec3, Ray)>)
        ensures
            exists|coin: Scalar| 0 <= #[trigger] coin.raw < SCALE && r == self.spec_scatter(r_in, rec, coin),
            r is Some,
            r.unwrap().0 == self.albedo,
    {
        let coin = Scalar { raw: uniform(0, SCALE) };
        self.scatter_with(r_in, rec, coin)
    }
}

impl Material {
    pub open spec fn albedo(&self) -> Vec3 {
        match self {
            Material::Lambertian(m) => m.albedo,
            Material::Metal(m) => m.albedo,
            Material::Dielectric(m) => m.albedo,
        }
    }

    /// The scatter of `r_in` at `rec` for the random quantities `draw`: a
    /// diffuse surface uses the drawn point's direction, a metal the point,
    /// glass the number.
    pub open spec fn spec_scatter(&self, r_in: &Ray, rec: &HitRecord, draw: Draw) -> Option<
        (Vec3, Ray),
    > {
        match self {
            Material::Lambertian(m) => m.spec_scatter(rec, draw.sphere.spec_unit_vector()),
            Material::Metal(m) => m.spec_scatter(r_in, rec, draw.sphere),
            Material::Dielectric(m) => m.spec_scatter(r_in, rec, draw.coin),
        }
    }

    pub fn scatter_with(&self, r_in: &Ray, rec: &HitRecord, draw: &Draw) -> (r: Option<(Vec3, Ray)>)
        ensures
            r == self.spec_scatter(r_in, rec, *draw),
            r is Some ==> r.unwrap().0 == self.albedo(),
            !(self is Metal) ==> r is Some,
    {
        match self {
            Material::Lambertian(m) => m.scatter_with(rec, draw.sphere.unit_vector()),
            Material::Metal(m) => m.scatter_with(r_in, rec, draw.sphere),
            Material::Dielectric(m) => m.scatter_with(r_in, rec, draw.coin),
        }
    }

    /// Scatters `r_in` at `rec` with freshly drawn random quantities.
    pub fn scatter(&self, r_in: &Ray, rec: &HitRecord) -> (r: Option<(Vec3, Ray)>)
        ensures
            exists|draw: Draw| #[trigger] draw.valid() && r == self.spec_scatter(r_in, rec, draw),
            r is Some ==> r.unwrap().0 == self.albedo(),
            !(self is Metal) ==> r is Some,
    {
        let draw = match self {
            Material::Lambertian(_) | Material::Metal(_) => Draw {
                sphere: Vec3::random_in_unit_sphere(),
                coin: Scalar::zero(),
            },
            Material::Dielectric(_) => Draw {
                sphere: Vec3::black(),
                coin: Scalar { raw: uniform(0, SCALE) },
            },
        };
        assert(draw.valid());
        self.scatter_with(r_in, rec, &draw)
    }
}

/// At normal incidence, where the cosine is one, Schlick's reflectance is
/// `r0`.
pub proof fn lemma_reflectance_at_normal_incidence(ref_idx: Scalar)
    ensures
        Dielectric::spec_reflectance(Scalar { raw: SCALE }, ref_idx) == Dielectric::spec_r0(
            ref_idx,
        ),
{
    let one = Scalar { raw: SCALE };
    let zero = Scalar { raw: 0 };
    let r0 = Dielectric::spec_r0(ref_idx);
    assert(one.minus(one) == zero);
    assert(zero.times(zero) == zero);
    assert(zero.spec_pow5() == zero);
    assert(one.minus(r0).raw * 0 == 0);
    assert(one.minus(r0).times(zero) == zero);
}

/// At grazing incidence, where the cosine is zero, Schlick's reflectance
/// is one.
pub proof fn lemma_reflectance_at_grazing_incidence(ref_idx: Scalar)
    ensures
        Dielectric::spec_reflectance(Scalar { raw: 0 }, ref_idx) == (Scalar { raw: SCALE }),
{
    let one = Scalar { raw: SCALE };
    let zero = Scalar { raw: 0 };
    let r0 = Dielectric::spec_r0(ref_idx);
    let r = one.minus(ref_idx).over(one.plus(ref_idx));
    assert(one.minus(zero) == one);
    lemma_quotient_exact(SCALE as int, SCALE as int);
    assert(one.times(one) == one);
    assert(one.spec_pow5() == one);
    assert(r.raw * r.raw >= 0) by (nonlinear_arith);
    assert((r.raw * r.raw) / (SCALE as int) >= 0) by (nonlinear_arith)
        requires
            r.raw * r.raw >= 0,
    ;
    assert(0 <= r0.raw);
    let rest = one.minus(r0);
    assert(rest.raw == SCALE - r0.raw);
    lemma_quotient_exact(rest.raw as int, SCALE as int);
    assert(rest.times(one) == rest);
}

/// A material hands on its albedo as the attenuation, so an albedo between
/// zero and one gives an attenuation between zero and one.
pub proof fn lemma_attenuation_is_reflectance(
    material: Material,
    r_in: &Ray,
    rec: &HitRecord,
    draw: Draw,
)
    requires
        is_reflectance(material.albedo()),
    ensures
        material.spec_scatter(r_in, rec, draw) matches Some(pair) ==> is_reflectance(pair.0),
{
}

/// Multiplying a channel that is not negative by an attenuation between
/// zero and one does not raise it, nor make it negative.
pub proof fn lemma_attenuation_dims(attenuation: Scalar, radiance: Scalar)
    requires
        0 <= attenuation.raw <= SCALE,
        0 <= radiance.raw,
    ensures
        0 <= attenuation.times(radiance).raw <= radiance.raw,
{
    let a = attenuation.raw as int;
    let c = radiance.raw as int;
    let s = SCALE as int;
    assert(0 <= a * c <= s * c && s * c <= i64::MAX * s) by (nonlinear_arith)
        requires
            0 <= a <= s,
            0 <= c <= i64::MAX,
    ;
    lemma_times_rounding(attenuation, radiance);
    let q = attenuation.times(radiance).raw as int;
    assert(q <= c) by (nonlinear_arith)
        requires
            0 <= q,
            q * s <= a * c,
            a * c <= s * c,
            s > 0,
    ;
}

/// The idle draw is valid.
pub proof fn lemma_idle_draw_is_valid()
    ensures
        Draw::idle().valid(),
{
    let zero = Scalar { raw: 0 };
    assert(zero.times(zero) == zero);
}

} // verus!
