//! Intersection records and the scene.

use crate::material::Material;
use crate::ray::Ray;
use crate::scalar::Scalar;
use crate::sphere::{
    lemma_hit_record, lemma_hit_under_larger_bound, lemma_hit_under_smaller_bound,
    strictly_within, Sphere,
};
use crate::vec3::Vec3;
use vstd::prelude::*;

verus! {

/// Where a ray met a surface. The normal is not turned toward the ray: its
/// sign tells a material on which side the ray arrived.
pub struct HitRecord<'a> {
    pub t: Scalar,
    pub p: Vec3,
    pub normal: Vec3,
    pub material: &'a Material,
}

/// The nearest hit among the first `n` spheres of `objects`: each sphere is
/// asked for a hit nearer than the best found so far.
pub open spec fn nearest<'a>(
    objects: Seq<Sphere>,
    ray: Ray,
    t_min: Scalar,
    t_max: Scalar,
    n: nat,
) -> Option<HitRecord<'a>>
    decreases n,
{
    if n == 0 {
        None
    } else {
        let before = nearest(objects, ray, t_min, t_max, (n - 1) as nat);
        let limit = match before {
            Some(hit) => hit.t,
            None => t_max,
        };
        match objects[n - 1].spec_hit(ray, t_min, limit) {
            Some(hit) => Some(hit),
            None => before,
        }
    }
}

/// An ordered collection of spheres.
pub struct HittableList {
    pub objects: Vec<Sphere>,
}

impl View for HittableList {
    type V = Seq<Sphere>;

    open spec fn view(&self) -> Seq<Sphere> {
        self.objects@
    }
}

impl HittableList {
    /// The nearest hit of `ray` on any sphere, strictly between `t_min` and
    /// `t_max`.
    pub open spec fn spec_hit<'a>(&'a self, ray: Ray, t_min: Scalar, t_max: Scalar) -> Option<
        HitRecord<'a>,
    > {
        nearest(self@, ray, t_min, t_max, self@.len())
    }

    pub fn new() -> (r: HittableList)
        ensures
            r@ == Seq::<Sphere>::empty(),
    {
        HittableList { objects: Vec::new() }
    }

    pub fn add(&mut self, object: Sphere)
        ensures
            final(self)@ == old(self)@.push(object),
    {
        self.objects.push(object);
    }

    pub fn hit<'a>(&'a self, ray: &Ray, t_min: Scalar, t_max: Scalar) -> (r: Option<HitRecord<'a>>)
        ensures
            r == self.spec_hit(*ray, t_min, t_max),
    {
        let mut best: Option<HitRecord<'a>> = None;
        let mut closest = t_max;
        let mut i: usize = 0;
        while i < self.objects.len()
            invariant
                i <= self.objects.len(),
                best == nearest(self@, *ray, t_min, t_max, i as nat),
                closest == match best {
                    Some(hit) => hit.t,
                    None => t_max,
                },
            decreases self.objects.len() - i,
        {
            match self.objects[i].hit(ray, t_min, closest) {
                Some(hit) => {
                    closest = hit.t;
                    best = Some(hit);
                },
                None => {},
            }
            i = i + 1;
        }
        best
    }
}

/// The hit among the first `n` spheres is the hit of one of them on its
/// own, and no sphere among them has a nearer one. So the order of the
/// spheres decides only between hits at the same distance.
pub proof fn lemma_nearest_is_nearest(
    objects: Seq<Sphere>,
    ray: Ray,
    t_min: Scalar,
    t_max: Scalar,
    n: nat,
)
    requires
        n <= objects.len(),
    ensures
        nearest(objects, ray, t_min, t_max, n) matches Some(best) ==> {
            &&& strictly_within(best.t, t_min, t_max)
            &&& exists|i: int|
                0 <= i < n && #[trigger] objects[i].spec_hit(ray, t_min, t_max) == Some(best)
        },
        forall|i: int|
            0 <= i < n ==> (#[trigger] objects[i].spec_hit(ray, t_min, t_max) matches Some(hit)
                ==> nearest(objects, ray, t_min, t_max, n) matches Some(best) && best.t.raw
                <= hit.t.raw),
    decreases n,
{
    if n > 0 {
        let k = n - 1;
        lemma_nearest_is_nearest(objects, ray, t_min, t_max, k as nat);
        let before = nearest(objects, ray, t_min, t_max, k as nat);
        let limit = match before {
            Some(hit) => hit.t,
            None => t_max,
        };
        let after = nearest(objects, ray, t_min, t_max, n);
        assert(limit.raw <= t_max.raw);
        lemma_hit_under_smaller_bound(&objects[k], ray, t_min, limit, t_max);
        lemma_hit_record(&objects[k], ray, t_min, limit);
        lemma_hit_record(&objects[k], ray, t_min, t_max);
        if objects[k].spec_hit(ray, t_min, limit) is Some {
            lemma_hit_under_larger_bound(&objects[k], ray, t_min, limit, t_max);
            assert(objects[k].spec_hit(ray, t_min, t_max) == after);
        } else {
            assert(after == before);
            if before is Some {
                let i = choose|i: int|
                    0 <= i < k && #[trigger] objects[i].spec_hit(ray, t_min, t_max) == before;
                assert(0 <= i < n && objects[i].spec_hit(ray, t_min, t_max) == after);
            }
        }
        assert forall|i: int| 0 <= i < n implies (#[trigger] objects[i].spec_hit(
            ray,
            t_min,
            t_max,
        ) matches Some(hit) ==> after matches Some(best) && best.t.raw <= hit.t.raw) by {
            if i < k {
            } else {
            }
        }
    }
}

/// The scene's hit is the hit of one of its spheres, and no sphere has a
/// nearer one; the scene has no hit exactly where no sphere has one.
pub proof fn lemma_scene_hit_is_nearest(
    world: &HittableList,
    ray: Ray,
    t_min: Scalar,
    t_max: Scalar,
)
    ensures
        world.spec_hit(ray, t_min, t_max) matches Some(best) ==> {
            &&& strictly_within(best.t, t_min, t_max)
            &&& exists|i: int|
                0 <= i < world@.len() && #[trigger] world@[i].spec_hit(ray, t_min, t_max) == Some(
                    best,
                )
        },
        forall|i: int|
            0 <= i < world@.len() ==> (#[trigger] world@[i].spec_hit(ray, t_min, t_max) matches Some(
                hit,
            ) ==> world.spec_hit(ray, t_min, t_max) matches Some(best) && best.t.raw <= hit.t.raw),
        world.spec_hit(ray, t_min, t_max) is None <==> forall|i: int|
            0 <= i < world@.len() ==> (#[trigger] world@[i].spec_hit(ray, t_min, t_max)) is None,
{
    lemma_nearest_is_nearest(world@, ray, t_min, t_max, world@.len());
}

} // verus!
