//! The camera: two eyes side by side.

use crate::ray::Ray;
use crate::scalar::Scalar;
use crate::vec3::Vec3;
use vstd::prelude::*;

verus! {

/// One viewpoint: where it stands, the rectangle of the focus plane that it
/// sees, and its lens.
#[derive(Clone, Copy, Debug, PartialEq, Eq, Structural)]
pub struct Eye {
    pub origin: Vec3,
    pub lower_left_corner: Vec3,
    pub horizontal: Vec3,
    pub vertical: Vec3,
    pub u: Vec3,
    pub v: Vec3,
    pub lens_radius: Scalar,
}

/// The left and the right eye.
#[derive(Clone, Copy, Debug, PartialEq, Eq, Structural)]
pub struct Camera {
    pub left_eye: Eye,
    pub right_eye: Eye,
}

impl Eye {
    /// The point of the focus plane at the image coordinates `(s, t)`,
    /// each from zero to one.
    pub open spec fn target(&self, s: Scalar, t: Scalar) -> Vec3 {
        self.lower_left_corner.plus(self.horizontal.scaled(s)).plus(self.vertical.scaled(t))
    }

    /// The ray from the middle of the lens toward `(s, t)`.
    pub open spec fn pinhole_ray(&self, s: Scalar, t: Scalar) -> Ray {
        Ray { origin: self.origin, direction: self.target(s, t).minus(self.origin) }
    }

    /// How far from its middle a ray leaves the lens, for the point `lens`
    /// of the unit disk.
    pub open spec fn lens_offset(&self, lens: Vec3) -> Vec3 {
        let rd = lens.scaled(self.lens_radius);
        self.u.scaled(rd.x).plus(self.v.scaled(rd.y))
    }

    /// The ray toward `(s, t)` that leaves the lens at the point `lens` of
    /// the unit disk.
    pub open spec fn lens_ray(&self, s: Scalar, t: Scalar, lens: Vec3) -> Ray {
        let offset = self.lens_offset(lens);
        Ray {
            origin: self.origin.plus(offset),
            direction: self.target(s, t).minus(self.origin).minus(offset),
        }
    }

    /// `ray` is one that the eye may send toward `(s, t)`: without a lens
    /// the one from its origin, with a lens one through some point of it.
    pub open spec fn emits(&self, s: Scalar, t: Scalar, ray: Ray) -> bool {
        if self.lens_radius.raw == 0 {
            ray == self.pinhole_ray(s, t)
        } else {
            exists|lens: Vec3| #[trigger]
                lens.in_unit_sphere() && lens.z.raw == 0 && ray == self.lens_ray(s, t, lens)
        }
    }

    /// The eye at `origin` that looks along `-w` with `u` to its right and
    /// `v` upward, at a focus plane `focus_dist` away.
    pub open spec fn placed(
        origin: Vec3,
        u: Vec3,
        v: Vec3,
        w: Vec3,
        half_width: Scalar,
        half_height: Scalar,
        focus_dist: Scalar,
        lens_radius: Scalar,
    ) -> Eye {
        let two = Scalar::spec_from_int(2);
        Eye {
            origin,
            lower_left_corner: origin.minus(u.scaled(half_width).scaled(focus_dist)).minus(
                v.scaled(half_height).scaled(focus_dist),
            ).minus(w.scaled(focus_dist)),
            horizontal: u.scaled(two).scaled(half_width).scaled(focus_dist),
            vertical: v.scaled(two).scaled(half_height).scaled(focus_dist),
            u,
            v,
            lens_radius,
        }
    }

    fn place(
        origin: Vec3,
        u: Vec3,
        v: Vec3,
        w: Vec3,
        half_width: Scalar,
        half_height: Scalar,
        focus_dist: Scalar,
        lens_radius: Scalar,
    ) -> (r: Eye)
        ensures
            r == Eye::placed(origin, u, v, w, half_width, half_height, focus_dist, lens_radius),
    {
        let two = Scalar::from_int(2);
        Eye {
            origin,
            lower_left_corner: origin - u * half_width * focus_dist - v * half_height * focus_dist
                - w * focus_dist,
            horizontal: u * two * half_width * focus_dist,
            vertical: v * two * half_height * focus_dist,
            u,
            v,
            lens_radius,
        }
    }

    /// The ray toward `(s, t)` that leaves the lens at the point `lens` of
    /// the unit disk.
    pub fn get_ray_through(&self, s: Scalar, t: Scalar, lens: Vec3) -> (r: Ray)
        ensures
            r == self.lens_ray(s, t, lens),
    {
        let rd = lens * self.lens_radius;
        let offset = self.u * rd.x + self.v * rd.y;
        Ray::new(
            self.origin + offset,
            self.lower_left_corner + self.horizontal * s + self.vertical * t - self.origin
                - offset,
        )
    }

    /// The ray toward the image coordinates `(s, t)`. An eye without a lens
    /// sends it from its origin; one with a lens from a point drawn on the
    /// lens.
    pub fn get_ray(&self, s: Scalar, t: Scalar) -> (r: Ray)
        ensures
            self.emits(s, t, r),
            self.lens_radius.raw == 0 ==> r == self.pinhole_ray(s, t),
    {
        if self.lens_radius.raw == 0 {
            Ray::new(
                self.origin,
                self.lower_left_corner + self.horizontal * s + self.vertical * t - self.origin,
            )
        } else {
            let lens = Vec3::random_in_unit_disk();
            self.get_ray_through(s, t, lens)
        }
    }
}

impl Camera {
    /// The camera at `lookfrom` that looks at `lookat` with `vup` upward,
    /// its eyes `ipd` apart. `half_height` is the tangent of half the
    /// vertical field of view; the image is `aspect` times as wide as
    /// high.
    pub open spec fn framed(
        lookfrom: Vec3,
        lookat: Vec3,
        vup: Vec3,
        half_height: Scalar,
        aspect: Scalar,
        ipd: Scalar,
        lens_radius: Scalar,
        focus_dist: Scalar,
    ) -> Camera {
        let half_width = aspect.times(half_height);
        let w = lookfrom.minus(lookat).spec_unit_vector();
        let u = vup.spec_cross(w).spec_unit_vector();
        let v = w.spec_cross(u);
        let half_ipd = ipd.over(Scalar::spec_from_int(2));
        Camera {
            left_eye: Eye::placed(
                lookfrom.minus(u.scaled(half_ipd)),
                u,
                v,
                w,
                half_width,
                half_height,
                focus_dist,
                lens_radius,
            ),
            right_eye: Eye::placed(
                lookfrom.plus(u.scaled(half_ipd)),
                u,
                v,
                w,
                half_width,
                half_height,
                focus_dist,
                lens_radius,
            ),
        }
    }

    /// A camera without lenses, in focus at the distance of `lookat`.
    pub fn new(
        lookfrom: Vec3,
        lookat: Vec3,
        vup: Vec3,
        half_height: Scalar,
        aspect: Scalar,
        ipd: Scalar,
    ) -> (r: Camera)
        ensures
            r == Camera::framed(
                lookfrom,
                lookat,
                vup,
                half_height,
                aspect,
                ipd,
                Scalar { raw: 0 },
                lookfrom.minus(lookat).spec_length(),
            ),
    {
        let focus_dist = (lookfrom - lookat).length();
        Camera::frame(lookfrom, lookat, vup, half_height, aspect, ipd, Scalar::zero(), focus_dist)
    }

    /// A camera with lenses of diameter `aperture`, in focus at
    /// `focus_dist`.
    pub fn with_lens(
        lookfrom: Vec3,
        lookat: Vec3,
        vup: Vec3,
        half_height: Scalar,
        aspect: Scalar,
        ipd: Scalar,
        aperture: Scalar,
        focus_dist: Scalar,
    ) -> (r: Camera)
        ensures
            r == Camera::framed(
                lookfrom,
                lookat,
                vup,
                half_height,
                aspect,
                ipd,
                aperture.over(Scalar::spec_from_int(2)),
                focus_dist,
            ),
    {
        let lens_radius = aperture / Scalar::from_int(2);
        Camera::frame(lookfrom, lookat, vup, half_height, aspect, ipd, lens_radius, focus_dist)
    }

    fn frame(
        lookfrom: Vec3,
        lookat: Vec3,
        vup: Vec3,
        half_height: Scalar,
        aspect: Scalar,
        ipd: Scalar,
        lens_radius: Scalar,
        focus_dist: Scalar,
    ) -> (r: Camera)
        ensures
            r == Camera::framed(
                lookfrom,
                lookat,
                vup,
                half_height,
                aspect,
                ipd,
                lens_radius,
                focus_dist,
            ),
    {
        let half_width = aspect * half_height;

        let w = (lookfrom - lookat).unit_vector();
        let u = vup.cross(w).unit_vector();
        let v = w.cross(u);

        let half_ipd = ipd / Scalar::from_int(2);

        let left_origin = lookfrom - u * half_ipd;
        let left_eye = Eye::place(
            left_origin,
            u,
            v,
            w,
            half_width,
            half_height,
            focus_dist,
            lens_radius,
        );

        let right_origin = lookfrom + u * half_ipd;
        let right_eye = Eye::place(
            right_origin,
            u,
            v,
            w,
            half_width,
            half_height,
            focus_dist,
            lens_radius,
        );

        Camera { left_eye, right_eye }
    }
}

/// Both eyes share the orientation, the lens and the extent of the image;
/// they differ in where they stand.
pub proof fn lemma_eyes_share_frame(
    lookfrom: Vec3,
    lookat: Vec3,
    vup: Vec3,
    half_height: Scalar,
    aspect: Scalar,
    ipd: Scalar,
    lens_radius: Scalar,
    focus_dist: Scalar,
)
    ensures
        ({
            let c = Camera::framed(
                lookfrom,
                lookat,
                vup,
                half_height,
                aspect,
                ipd,
                lens_radius,
                focus_dist,
            );
            &&& c.left_eye.u == c.right_eye.u
            &&& c.left_eye.v == c.right_eye.v
            &&& c.left_eye.horizontal == c.right_eye.horizontal
            &&& c.left_eye.vertical == c.right_eye.vertical
            &&& c.left_eye.lens_radius == c.right_eye.lens_radius
        }),
{
}

/// Without a lens, the ray through any point of the lens is the ray from
/// the eye's origin.
pub proof fn lemma_no_lens_is_pinhole(eye: Eye, s: Scalar, t: Scalar, lens: Vec3)
    requires
        eye.lens_radius.raw == 0,
    ensures
        eye.lens_ray(s, t, lens) == eye.pinhole_ray(s, t),
{
    let zero = Scalar { raw: 0 };
    let rd = lens.scaled(eye.lens_radius);
    assert(lens.x.raw * 0 == 0 && lens.y.raw * 0 == 0 && lens.z.raw * 0 == 0);
    assert(rd == Vec3::zero());
    assert forall|a: Scalar| #[trigger] a.times(zero) == zero by {
        assert(a.raw * 0 == 0);
    }
    assert(eye.lens_offset(lens) == Vec3::zero());
}

} // verus!
