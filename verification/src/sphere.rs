//! Spheres and the ray-sphere intersection.

use crate::hits::HitRecord;
use crate::material::Material;
use crate::ray::Ray;
use crate::scalar::{lemma_over_monotonic, lemma_sqrt_is_root, Scalar};
use crate::vec3::{lemma_sqr_length_not_negative, Vec3};
use core::ops::Neg;
use std::sync::Arc;
use vstd::prelude::*;

verus! {

/// A sphere with a material, which it may share with other spheres.
pub struct Sphere {
    pub center: Vec3,
    pub radius: Scalar,
    pub material: Arc<Material>,
}

/// `t` lies strictly between `t_min` and `t_max`.
pub open spec fn strictly_within(t: Scalar, t_min: Scalar, t_max: Scalar) -> bool {
    t_min.raw < t.raw < t_max.raw
}

impl Sphere {
    /// `a` of the quadratic `a t^2 + 2 b t + c = 0` whose roots are the
    /// parameters at which the ray meets the sphere: the squared length of
    /// the direction.
    pub open spec fn quad_a(&self, ray: Ray) -> Scalar {
        ray.direction.spec_dot(ray.direction)
    }

    /// Half the linear coefficient: `(origin - center) . direction`.
    pub open spec fn quad_b(&self, ray: Ray) -> Scalar {
        ray.origin.minus(self.center).spec_dot(ray.direction)
    }

    /// `|origin - center|^2 - radius^2`.
    pub open spec fn quad_c(&self, ray: Ray) -> Scalar {
        let oc = ray.origin.minus(self.center);
        oc.spec_dot(oc).minus(self.radius.times(self.radius))
    }

    /// `b^2 - a c`.
    pub open spec fn discriminant(&self, ray: Ray) -> Scalar {
        let b = self.quad_b(ray);
        b.times(b).minus(self.quad_a(ray).times(self.quad_c(ray)))
    }

    /// The root `(-b - sqrt(discriminant)) / a`.
    pub open spec fn near_root(&self, ray: Ray) -> Scalar {
        self.quad_b(ray).negated().minus(self.discriminant(ray).spec_sqrt()).over(
            self.quad_a(ray),
        )
    }

    /// The root `(-b + sqrt(discriminant)) / a`.
    pub open spec fn far_root(&self, ray: Ray) -> Scalar {
        self.quad_b(ray).negated().plus(self.discriminant(ray).spec_sqrt()).over(self.quad_a(ray))
    }

    /// The record of the hit at parameter `t`: the point on the ray, and
    /// the normal `(point - center) / radius`.
    pub open spec fn record_at<'a>(&'a self, ray: Ray, t: Scalar) -> HitRecord<'a> {
        let p = ray.spec_at(t);
        HitRecord { t, p, normal: p.minus(self.center).shrunk(self.radius), material: &*self.material }
    }

    /// The hit of `ray` on the sphere strictly between `t_min` and `t_max`:
    /// none unless the discriminant is positive; else at the near root if
    /// it is in range, else at the far root if that one is.
    pub open spec fn spec_hit<'a>(&'a self, ray: Ray, t_min: Scalar, t_max: Scalar) -> Option<
        HitRecord<'a>,
    > {
        if self.discriminant(ray).raw > 0 {
            if strictly_within(self.near_root(ray), t_min, t_max) {
                Some(self.record_at(ray, self.near_root(ray)))
            } else if strictly_within(self.far_root(ray), t_min, t_max) {
                Some(self.record_at(ray, self.far_root(ray)))
            } else {
                None
            }
        } else {
            None
        }
    }

    pub fn new(center: Vec3, radius: Scalar, material: Arc<Material>) -> (r: Sphere)
        ensures
            r.center == center,
            r.radius == radius,
            r.material == material,
    {
        Sphere { center, radius, material }
    }

    pub fn hit<'a>(&'a self, ray: &Ray, t_min: Scalar, t_max: Scalar) -> (r: Option<HitRecord<'a>>)
        ensures
            r == self.spec_hit(*ray, t_min, t_max),
            r matches Some(hit) ==> {
                &&& strictly_within(hit.t, t_min, t_max)
                &&& hit.p == ray.spec_at(hit.t)
                &&& hit.normal == hit.p.minus(self.center).shrunk(self.radius)
                &&& *hit.material == *self.material
            },
    {
        let oc = ray.origin() - self.center;
        let a = ray.direction().dot(ray.direction());
        let b = oc.dot(ray.direction());
        let c = oc.dot(oc) - self.radius * self.radius;
        let discriminant = b * b - a * c;

        if discriminant.raw > 0 {
            let sqrt_discriminant = discriminant.sqrt();

            let temp = (b.neg() - sqrt_discriminant) / a;
            if temp.raw < t_max.raw && temp.raw > t_min.raw {
                let p = ray.at(temp);
                let normal = (p - self.center) / self.radius;
                return Some(HitRecord { t: temp, p, normal, material: &*self.material });
            }
            let temp = (b.neg() + sqrt_discriminant) / a;
            if temp.raw < t_max.raw && temp.raw > t_min.raw {
                let p = ray.at(temp);
                let normal = (p - self.center) / self.radius;
                return Some(HitRecord { t: temp, p, normal, material: &*self.material });
            }
        }
        None
    }
}

/// The near root is not beyond the far root.
pub proof fn lemma_roots_in_order(sphere: &Sphere, ray: Ray)
    ensures
        sphere.near_root(ray).raw <= sphere.far_root(ray).raw,
{
    let root = sphere.discriminant(ray).spec_sqrt();
    let mirrored = sphere.quad_b(ray).negated();
    lemma_sqrt_is_root(sphere.discriminant(ray));
    lemma_sqr_length_not_negative(ray.direction);
    lemma_over_monotonic(mirrored.minus(root), mirrored.plus(root), sphere.quad_a(ray));
}

/// Where both roots lie strictly between `t_min` and `t_max`, the hit is at
/// the smaller of them, the near root.
pub proof fn lemma_hit_takes_smaller_root(sphere: &Sphere, ray: Ray, t_min: Scalar, t_max: Scalar)
    requires
        sphere.discriminant(ray).raw > 0,
        strictly_within(sphere.near_root(ray), t_min, t_max),
        strictly_within(sphere.far_root(ray), t_min, t_max),
    ensures
        sphere.spec_hit(ray, t_min, t_max) matches Some(hit) && hit.t == sphere.near_root(ray)
            && hit.t.raw <= sphere.far_root(ray).raw,
{
    lemma_roots_in_order(sphere, ray);
}

/// What a hit records: a parameter strictly between the bounds at one of
/// the two roots, the point of the ray there, the normal
/// `(point - center) / radius`, and the sphere's material.
pub proof fn lemma_hit_record(sphere: &Sphere, ray: Ray, t_min: Scalar, t_max: Scalar)
    ensures
        sphere.spec_hit(ray, t_min, t_max) matches Some(hit) ==> {
            &&& sphere.discriminant(ray).raw > 0
            &&& hit.t == sphere.near_root(ray) || hit.t == sphere.far_root(ray)
            &&& strictly_within(hit.t, t_min, t_max)
            &&& hit.p == ray.spec_at(hit.t)
            &&& hit.normal == hit.p.minus(sphere.center).shrunk(sphere.radius)
            &&& *hit.material == *sphere.material
        },
        sphere.spec_hit(ray, t_min, t_max) is None <==> {
            ||| sphere.discriminant(ray).raw <= 0
            ||| (!strictly_within(sphere.near_root(ray), t_min, t_max) && !strictly_within(
                sphere.far_root(ray),
                t_min,
                t_max,
            ))
        },
{
}

/// A hit under a bound is the hit under every larger bound.
pub proof fn lemma_hit_under_larger_bound(
    sphere: &Sphere,
    ray: Ray,
    t_min: Scalar,
    bound: Scalar,
    t_max: Scalar,
)
    requires
        bound.raw <= t_max.raw,
        sphere.spec_hit(ray, t_min, bound) is Some,
    ensures
        sphere.spec_hit(ray, t_min, t_max) == sphere.spec_hit(ray, t_min, bound),
{
    lemma_roots_in_order(sphere, ray);
}

/// A hit nearer than a smaller bound is the hit under that bound; one not
/// nearer leaves no hit under it.
pub proof fn lemma_hit_under_smaller_bound(
    sphere: &Sphere,
    ray: Ray,
    t_min: Scalar,
    bound: Scalar,
    t_max: Scalar,
)
    requires
        bound.raw <= t_max.raw,
    ensures
        sphere.spec_hit(ray, t_min, t_max) matches Some(hit) ==> {
            if hit.t.raw < bound.raw {
                sphere.spec_hit(ray, t_min, bound) == Some(hit)
            } else {
                sphere.spec_hit(ray, t_min, bound) is None
            }
        },
        sphere.spec_hit(ray, t_min, t_max) is None ==> sphere.spec_hit(ray, t_min, bound) is None,
{
    lemma_roots_in_order(sphere, ray);
}

} // verus!
