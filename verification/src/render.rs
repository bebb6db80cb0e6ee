//! The render driver: from a scene to pixels.

use crate::camera::{Camera, Eye};
use crate::color::{color, is_radiance};
use crate::hits::HittableList;
use crate::random::uniform;
use crate::scalar::{saturate, Scalar, SCALE};
use crate::vec3::Vec3;
use vstd::prelude::*;

verus! {

/// The number of bounces after which a light path is cut off.
pub const MAX_DEPTH: i32 = 50;

/// The factor from a channel between zero and one to a pixel value: 255.99
/// in billionths.
pub const CHANNEL_RANGE: i64 = 255_990_000_000;

/// A pixel of the image, each channel as in a PPM file.
#[derive(Clone, Copy, Debug, PartialEq, Eq, Structural)]
pub struct Pixel {
    pub r: i32,
    pub g: i32,
    pub b: i32,
}

/// The size of the image, the samples for each pixel and the camera's
/// placement.
#[derive(Clone, Copy, Debug, PartialEq, Eq, Structural)]
pub struct Render {
    pub nx: i32,
    pub ny: i32,
    pub ns: i32,
    pub lookat: Vec3,
    pub lookfrom: Vec3,
    pub vup: Vec3,
    pub vfov: Scalar,
    pub ipd: Scalar,
    pub aperture: Scalar,
    pub focus_dist: Scalar,
}

/// The nearest `i32` to `x`.
pub open spec fn saturate_i32(x: int) -> int {
    if x > i32::MAX {
        i32::MAX as int
    } else if x < i32::MIN {
        i32::MIN as int
    } else {
        x
    }
}

/// The pixel value of a channel: 255.99 times the channel, rounded toward
/// zero.
pub open spec fn spec_channel(c: Scalar) -> int {
    saturate_i32(Scalar { raw: CHANNEL_RANGE }.times(c).spec_trunc())
}

/// The color of a pixel from the sum of its samples: their mean, gamma
/// corrected by a square root.
pub open spec fn developed(sum: Vec3, ns: int) -> Vec3 {
    let mean = sum.shrunk(Scalar::spec_from_int(ns));
    Vec3 { x: mean.x.spec_sqrt(), y: mean.y.spec_sqrt(), z: mean.z.spec_sqrt() }
}

/// The pixel from the sums of the samples of both eyes. Green and blue are
/// the right eye's; red is the left eye's in an anaglyph, else the right
/// eye's too.
pub open spec fn spec_pixel(left: Vec3, right: Vec3, ns: int, anaglyph: bool) -> Pixel {
    let l = developed(left, ns);
    let r = developed(right, ns);
    Pixel {
        r: spec_channel(
            if anaglyph {
                l.x
            } else {
                r.x
            },
        ) as i32,
        g: spec_channel(r.y) as i32,
        b: spec_channel(r.z) as i32,
    }
}

/// Both offsets lie within a pixel: from zero up to, not including, one.
pub open spec fn in_pixel(du: Scalar, dv: Scalar) -> bool {
    0 <= du.raw < SCALE && 0 <= dv.raw < SCALE
}

/// The image coordinate of the point `d` of a pixel into pixel `index` of
/// `extent`: `(index + d) / extent`.
pub open spec fn jittered(index: int, extent: int, d: Scalar) -> Scalar {
    Scalar::spec_from_int(index).plus(d).over(Scalar::spec_from_int(extent))
}

/// `c` is the radiance that `eye` sees along one of its rays toward
/// `(s, t)`, followed for at most [`MAX_DEPTH`] bounces.
pub open spec fn is_seen(eye: Eye, world: &HittableList, s: Scalar, t: Scalar, c: Vec3) -> bool {
    exists|ray: crate::ray::Ray| #[trigger]
        eye.emits(s, t, ray) && is_radiance(ray, world, MAX_DEPTH as int, c)
}

/// The sum of the left eye's samples.
pub open spec fn total_left(samples: Seq<(Vec3, Vec3)>) -> Vec3
    decreases samples.len(),
{
    if samples.len() == 0 {
        Vec3::zero()
    } else {
        total_left(samples.drop_last()).plus(samples.last().0)
    }
}

/// The sum of the right eye's samples.
pub open spec fn total_right(samples: Seq<(Vec3, Vec3)>) -> Vec3
    decreases samples.len(),
{
    if samples.len() == 0 {
        Vec3::zero()
    } else {
        total_right(samples.drop_last()).plus(samples.last().1)
    }
}

/// Where the pixel of column `i` and row `j` from the bottom stands in an
/// image that is written row by row from the top.
pub open spec fn position(nx: int, ny: int, i: int, j: int) -> int {
    (ny - 1 - j) * nx + i
}

/// The number of pixels of an image `nx` wide and `ny` high.
pub open spec fn pixel_count(nx: int, ny: int) -> int {
    if nx > 0 && ny > 0 {
        nx * ny
    } else {
        0
    }
}

/// The pixel value of a channel.
pub fn channel(c: Scalar) -> (r: i32)
    ensures
        r == spec_channel(c),
{
    let v = (Scalar::new(CHANNEL_RANGE) * c).trunc();
    if v > i32::MAX as i64 {
        i32::MAX
    } else if v < i32::MIN as i64 {
        i32::MIN
    } else {
        v as i32
    }
}

fn develop(sum: Vec3, ns: i32) -> (r: Vec3)
    ensures
        r == developed(sum, ns as int),
{
    let mean = sum / Scalar::from_int(ns as i64);
    Vec3::new(mean.x.sqrt(), mean.y.sqrt(), mean.z.sqrt())
}

/// The pixel from the sums of `ns` samples of each eye.
pub fn pixel(left: Vec3, right: Vec3, ns: i32, anaglyph: bool) -> (r: Pixel)
    ensures
        r == spec_pixel(left, right, ns as int, anaglyph),
{
    let col_right = develop(right, ns);
    let red = if anaglyph {
        let col_left = develop(left, ns);
        col_left.r()
    } else {
        col_right.r()
    };
    Pixel { r: channel(red), g: channel(col_right.g()), b: channel(col_right.b()) }
}

impl Render {
    /// The settings of an image `nx` wide and `ny` high with `ns` samples
    /// for each pixel, and a camera at the origin that looks down the
    /// negative `z` axis.
    pub open spec fn spec_new(nx: i32, ny: i32, ns: i32) -> Render {
        Render {
            nx,
            ny,
            ns,
            lookat: Vec3 {
                x: Scalar { raw: 0 },
                y: Scalar { raw: 0 },
                z: Scalar::spec_from_int(-1),
            },
            lookfrom: Vec3::zero(),
            vup: Vec3 {
                x: Scalar { raw: 0 },
                y: Scalar { raw: 1_000_000_000 },
                z: Scalar { raw: 0 },
            },
            vfov: Scalar { raw: 20_000_000_000 },
            ipd: Scalar { raw: 60_000_000 },
            aperture: Scalar { raw: 0 },
            focus_dist: Scalar { raw: 10_000_000_000 },
        }
    }

    /// The camera of these settings, for `half_height` the tangent of half
    /// the field of view `vfov`.
    pub open spec fn spec_camera(&self, half_height: Scalar) -> Camera {
        Camera::framed(
            self.lookfrom,
            self.lookat,
            self.vup,
            half_height,
            Scalar::spec_from_int(self.nx as int).over(Scalar::spec_from_int(self.ny as int)),
            self.ipd,
            self.aperture.over(Scalar::spec_from_int(2)),
            self.focus_dist,
        )
    }

    /// `pair` is one sample of the pixel in column `i` and row `j` for the
    /// left and the right eye: the radiance each sees through one random
    /// point of the pixel, the same for both. Without an anaglyph the left
    /// eye is not asked, and its sample is black.
    pub open spec fn is_sample(
        &self,
        camera: &Camera,
        world: &HittableList,
        i: int,
        j: int,
        anaglyph: bool,
        pair: (Vec3, Vec3),
    ) -> bool {
        exists|du: Scalar, dv: Scalar|
            {
                &&& #[trigger] in_pixel(du, dv)
                &&& is_seen(
                    camera.right_eye,
                    world,
                    jittered(i, self.nx as int, du),
                    jittered(j, self.ny as int, dv),
                    pair.1,
                )
                &&& if anaglyph {
                    is_seen(
                        camera.left_eye,
                        world,
                        jittered(i, self.nx as int, du),
                        jittered(j, self.ny as int, dv),
                        pair.0,
                    )
                } else {
                    pair.0 == Vec3::zero()
                }
            }
    }

    /// `p` is a pixel of column `i` and row `j`: developed from the sums
    /// of `ns` samples of it.
    pub open spec fn is_pixel(
        &self,
        camera: &Camera,
        world: &HittableList,
        i: int,
        j: int,
        anaglyph: bool,
        p: Pixel,
    ) -> bool {
        exists|samples: Seq<(Vec3, Vec3)>|
            {
                &&& samples.len() == if self.ns > 0 {
                    self.ns as int
                } else {
                    0
                }
                &&& forall|k: int|
                    0 <= k < samples.len() ==> self.is_sample(
                        camera,
                        world,
                        i,
                        j,
                        anaglyph,
                        #[trigger] samples[k],
                    )
                &&& p == #[trigger] spec_pixel(
                    total_left(samples),
                    total_right(samples),
                    self.ns as int,
                    anaglyph,
                )
            }
    }

    pub fn new(nx: i32, ny: i32, ns: i32) -> (r: Render)
        ensures
            r == Render::spec_new(nx, ny, ns),
    {
        Render {
            nx,
            ny,
            ns,
            lookat: Vec3::new(Scalar::new(0), Scalar::new(0), Scalar::new(-1_000_000_000)),
            lookfrom: Vec3::new(Scalar::new(0), Scalar::new(0), Scalar::new(0)),
            vup: Vec3::new(Scalar::new(0), Scalar::new(1_000_000_000), Scalar::new(0)),
            vfov: Scalar::new(20_000_000_000),
            ipd: Scalar::new(60_000_000),
            aperture: Scalar::new(0),
            focus_dist: Scalar::new(10_000_000_000),
        }
    }

    pub fn lookat(&mut self, x: Scalar, y: Scalar, z: Scalar) -> (r: &mut Self)
        ensures
            *r == (Render { lookat: Vec3 { x, y, z }, ..*old(self) }),
            *final(self) == *final(r),
    {
        self.lookat = Vec3::new(x, y, z);
        self
    }

    pub fn lookfrom(&mut self, x: Scalar, y: Scalar, z: Scalar) -> (r: &mut Self)
        ensures
            *r == (Render { lookfrom: Vec3 { x, y, z }, ..*old(self) }),
            *final(self) == *final(r),
    {
        self.lookfrom = Vec3::new(x, y, z);
        self
    }

    pub fn vup(&mut self, x: Scalar, y: Scalar, z: Scalar) -> (r: &mut Self)
        ensures
            *r == (Render { vup: Vec3 { x, y, z }, ..*old(self) }),
            *final(self) == *final(r),
    {
        self.vup = Vec3::new(x, y, z);
        self
    }

    /// Sets the vertical field of view, in degrees.
    pub fn vfov(&mut self, vfov: Scalar) -> (r: &mut Self)
        ensures
            *r == (Render { vfov, ..*old(self) }),
            *final(self) == *final(r),
    {
        self.vfov = vfov;
        self
    }

    /// Sets the distance between the eyes.
    pub fn ipd(&mut self, ipd: Scalar) -> (r: &mut Self)
        ensures
            *r == (Render { ipd, ..*old(self) }),
            *final(self) == *final(r),
    {
        self.ipd = ipd;
        self
    }

    pub fn aperture(&mut self, aperture: Scalar) -> (r: &mut Self)
        ensures
            *r == (Render { aperture, ..*old(self) }),
            *final(self) == *final(r),
    {
        self.aperture = aperture;
        self
    }

    pub fn focus_dist(&mut self, focus_dist: Scalar) -> (r: &mut Self)
        ensures
            *r == (Render { focus_dist, ..*old(self) }),
            *final(self) == *final(r),
    {
        self.focus_dist = focus_dist;
        self
    }

    /// The camera of these settings, for `half_height` the tangent of half
    /// the field of view `vfov`.
    pub fn camera(&self, half_height: Scalar) -> (r: Camera)
        ensures
            r == self.spec_camera(half_height),
    {
        Camera::with_lens(
            self.lookfrom,
            self.lookat,
            self.vup,
            half_height,
            Scalar::from_int(self.nx as i64) / Scalar::from_int(self.ny as i64),
            self.ipd,
            self.aperture,
            self.focus_dist,
        )
    }

    /// One sample of the pixel in column `i` and row `j` for each eye: the
    /// radiance along the ray through a random point of the pixel. The left
    /// eye's is black except in an anaglyph.
    pub fn sample(
        &self,
        camera: &Camera,
        world: &HittableList,
        i: i32,
        j: i32,
        anaglyph: bool,
    ) -> (r: (Vec3, Vec3))
        ensures
            self.is_sample(camera, world, i as int, j as int, anaglyph, r),
            !anaglyph ==> r.0 == Vec3::zero(),
    {
        let du = Scalar::new(uniform(0, SCALE));
        let dv = Scalar::new(uniform(0, SCALE));
        let u = (Scalar::from_int(i as i64) + du) / Scalar::from_int(self.nx as i64);
        let v = (Scalar::from_int(j as i64) + dv) / Scalar::from_int(self.ny as i64);
        let left = if anaglyph {
            let r_left = camera.left_eye.get_ray(u, v);
            let seen = color(&r_left, world, MAX_DEPTH);
            assert(camera.left_eye.emits(u, v, r_left));
            seen
        } else {
            Vec3::black()
        };
        let r_right = camera.right_eye.get_ray(u, v);
        let right = color(&r_right, world, MAX_DEPTH);
        assert(camera.right_eye.emits(u, v, r_right));
        assert(in_pixel(du, dv));
        (left, right)
    }

    /// The pixel in column `i` from the left and row `j` from the bottom:
    /// `ns` samples for each eye, summed and developed.
    pub fn sample_pixel(
        &self,
        camera: &Camera,
        world: &HittableList,
        i: i32,
        j: i32,
        anaglyph: bool,
    ) -> (r: Pixel)
        ensures
            self.is_pixel(camera, world, i as int, j as int, anaglyph, r),
    {
        let mut col_left = Vec3::black();
        let mut col_right = Vec3::black();
        let mut taken: i32 = 0;
        let ghost mut samples: Seq<(Vec3, Vec3)> = Seq::empty();
        while taken < self.ns
            invariant
                0 <= taken,
                self.ns > 0 ==> taken <= self.ns,
                self.ns <= 0 ==> taken == 0,
                samples.len() == taken,
                col_left == total_left(samples),
                col_right == total_right(samples),
                forall|k: int|
                    0 <= k < samples.len() ==> self.is_sample(
                        camera,
                        world,
                        i as int,
                        j as int,
                        anaglyph,
                        #[trigger] samples[k],
                    ),
            decreases self.ns - taken,
        {
            let pair = self.sample(camera, world, i, j, anaglyph);
            proof {
                let longer = samples.push(pair);
                assert(longer.drop_last() =~= samples);
                assert(longer.last() == pair);
                samples = longer;
            }
            col_left = col_left + pair.0;
            col_right = col_right + pair.1;
            taken = taken + 1;
        }
        let p = pixel(col_left, col_right, self.ns, anaglyph);
        assert(p == spec_pixel(
            total_left(samples),
            total_right(samples),
            self.ns as int,
            anaglyph,
        ));
        p
    }

    /// The pixels of row `j` from the bottom, from the left.
    pub fn render_row(&self, camera: &Camera, world: &HittableList, j: i32, anaglyph: bool) -> (row:
        Vec<Pixel>)
        ensures
            row@.len() == if self.nx > 0 {
                self.nx as int
            } else {
                0
            },
            forall|i: int|
                0 <= i < row@.len() ==> self.is_pixel(
                    camera,
                    world,
                    i,
                    j as int,
                    anaglyph,
                    #[trigger] row@[i],
                ),
    {
        let mut row: Vec<Pixel> = Vec::new();
        let mut i: i32 = 0;
        while i < self.nx
            invariant
                0 <= i,
                self.nx > 0 ==> i <= self.nx,
                self.nx <= 0 ==> i == 0,
                row@.len() == i,
                forall|k: int|
                    0 <= k < row@.len() ==> self.is_pixel(
                        camera,
                        world,
                        k,
                        j as int,
                        anaglyph,
                        #[trigger] row@[k],
                    ),
            decreases self.nx - i,
        {
            let p = self.sample_pixel(camera, world, i, j, anaglyph);
            row.push(p);
            i = i + 1;
        }
        row
    }

    /// The pixels of the image, row by row from the top, each row from the
    /// left: the pixel of column `i` and row `j` from the bottom stands at
    /// `(ny - 1 - j) * nx + i`.
    pub fn render(&self, camera: &Camera, world: &HittableList, anaglyph: bool) -> (pixels: Vec<
        Pixel,
    >)
        ensures
            pixels@.len() == pixel_count(self.nx as int, self.ny as int),
            forall|i: int, j: int|
                0 <= i < self.nx && 0 <= j < self.ny ==> {
                    &&& 0 <= #[trigger] position(self.nx as int, self.ny as int, i, j)
                        < pixels@.len()
                    &&& self.is_pixel(
                        camera,
                        world,
                        i,
                        j,
                        anaglyph,
                        pixels@[position(self.nx as int, self.ny as int, i, j)],
                    )
                },
    {
        let mut pixels: Vec<Pixel> = Vec::new();
        if self.nx <= 0 || self.ny <= 0 {
            return pixels;
        }
        let mut j: i32 = self.ny;
        while j > 0
            invariant
                self.nx > 0,
                self.ny > 0,
                0 <= j <= self.ny,
                pixels@.len() == (self.ny - j) * self.nx,
                forall|i: int, row: int|
                    0 <= i < self.nx && j <= row < self.ny ==> {
                        &&& 0 <= #[trigger] position(self.nx as int, self.ny as int, i, row)
                            < pixels@.len()
                        &&& self.is_pixel(
                            camera,
                            world,
                            i,
                            row,
                            anaglyph,
                            pixels@[position(self.nx as int, self.ny as int, i, row)],
                        )
                    },
            decreases j,
        {
            j = j - 1;
            let mut row = self.render_row(camera, world, j, anaglyph);
            let ghost before = pixels@;
            let ghost added = row@;
            pixels.append(&mut row);
            proof {
                let nx = self.nx as int;
                let ny = self.ny as int;
                assert((ny - j - 1) * nx + nx == (ny - j) * nx) by (nonlinear_arith);
                assert forall|i: int, r: int| 0 <= i < nx && j <= r < ny implies {
                    &&& 0 <= #[trigger] position(nx, ny, i, r) < pixels@.len()
                    &&& self.is_pixel(camera, world, i, r, anaglyph, pixels@[position(nx, ny, i, r)])
                } by {
                    if r == j {
                        assert(position(nx, ny, i, r) == before.len() + i);
                        assert(pixels@[position(nx, ny, i, r)] == added[i]);
                    } else {
                        assert(0 <= position(nx, ny, i, r) < before.len());
                        assert(pixels@[position(nx, ny, i, r)] == before[position(nx, ny, i, r)]);
                    }
                }
            }
        }
        assert((self.ny - 0) * self.nx == self.nx * self.ny) by (nonlinear_arith);
        pixels
    }
}

} // verus!
