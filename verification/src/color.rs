//! The radiance carried back along a ray.

use crate::hits::HittableList;
use crate::hits::{lemma_scene_hit_is_nearest, HitRecord};
use crate::material::{
    is_reflectance, lemma_attenuation_dims, lemma_idle_draw_is_valid, Draw,
};
use crate::sphere::lemma_hit_record;
use crate::vec3::lemma_unit_vector_in_unit_cube;
use crate::ray::Ray;
use crate::scalar::{Scalar, SCALE};
use crate::vec3::Vec3;
use vstd::prelude::*;

verus! {

/// Hits nearer than this, a thousandth, are ignored, so that a scattered
/// ray does not meet the surface it leaves.
pub const NEAREST: i64 = 1_000_000;

/// The nearest distance at which a hit counts.
pub open spec fn t_min() -> Scalar {
    Scalar { raw: NEAREST }
}

/// The bound on the distance of a hit: none.
pub open spec fn t_max() -> Scalar {
    Scalar { raw: i64::MAX }
}

/// The color of the sky at its horizon-side end.
pub open spec fn white() -> Vec3 {
    Vec3::splat(Scalar { raw: SCALE })
}

/// The color of the sky at its zenith-side end.
pub open spec fn sky_blue() -> Vec3 {
    Vec3 { x: Scalar { raw: 500_000_000 }, y: Scalar { raw: 700_000_000 }, z: Scalar { raw: SCALE } }
}

/// The blend `(1 - t) white + t sky_blue`.
pub open spec fn gradient(t: Scalar) -> Vec3 {
    white().scaled(Scalar { raw: SCALE }.minus(t)).plus(sky_blue().scaled(t))
}

/// Where in the gradient a ray that hits nothing looks: half of one more
/// than the height of its normalized direction.
pub open spec fn sky_parameter(ray: Ray) -> Scalar {
    Scalar { raw: 500_000_000 }.times(
        ray.direction.spec_unit_vector().y.plus(Scalar { raw: SCALE }),
    )
}

/// The radiance of the sky along `ray`.
pub open spec fn sky(ray: Ray) -> Vec3 {
    gradient(sky_parameter(ray))
}

/// Every draw of the sequence is valid.
pub open spec fn all_valid(draws: Seq<Draw>) -> bool {
    forall|i: int| 0 <= i < draws.len() ==> (#[trigger] draws[i]).valid()
}

/// The radiance along `ray` when each hit takes its random quantities from
/// the front of `draws`. With no depth left it is black. A ray that hits
/// nothing sees the sky. A ray that hits a sphere is scattered by its
/// material: absorbed, it brings black; else it brings the radiance along
/// the scattered ray, one level less deep, attenuated channel by channel. A
/// hit for which no draw is left ends the path in black.
pub open spec fn radiance(ray: Ray, world: &HittableList, depth: int, draws: Seq<Draw>) -> Vec3
    decreases depth,
{
    if depth <= 0 {
        Vec3::zero()
    } else {
        match world.spec_hit(ray, t_min(), t_max()) {
            Some(hit) => {
                if draws.len() == 0 {
                    Vec3::zero()
                } else {
                    match hit.material.spec_scatter(&ray, &hit, draws[0]) {
                        Some(pair) => pair.0.times(
                            radiance(pair.1, world, depth - 1, draws.drop_first()),
                        ),
                        None => Vec3::zero(),
                    }
                }
            },
            None => sky(ray),
        }
    }
}

/// `c` is the radiance along `ray` for some valid random quantities, one
/// draw for each hit that the depth allows.
pub open spec fn is_radiance(ray: Ray, world: &HittableList, depth: int, c: Vec3) -> bool {
    exists|draws: Seq<Draw>|
        {
            &&& #[trigger] all_valid(draws)
            &&& draws.len() >= depth
            &&& c == radiance(ray, world, depth, draws)
        }
}

/// `c` is what a hit brings at `depth`, for some valid draw: black where
/// the material absorbs the ray, else the attenuation times a radiance along
/// the scattered ray, one level less deep.
pub open spec fn is_scattered_radiance(
    ray: Ray,
    world: &HittableList,
    depth: int,
    hit: &HitRecord,
    c: Vec3,
) -> bool {
    exists|draw: Draw| #[trigger]
        draw.valid() && match hit.material.spec_scatter(&ray, hit, draw) {
            Some(pair) => exists|incoming: Vec3| #[trigger]
                is_radiance(pair.1, world, depth - 1, incoming) && c == pair.0.times(incoming),
            None => c == Vec3::zero(),
        }
}

/// `n` idle draws.
pub open spec fn idle_draws(n: int) -> Seq<Draw> {
    Seq::new(
        if n > 0 {
            n as nat
        } else {
            0
        },
        |i: int| Draw::idle(),
    )
}

/// Each channel of `c` lies between that of sky blue and that of white.
pub open spec fn in_sky(c: Vec3) -> bool {
    &&& sky_blue().x.raw <= c.x.raw <= white().x.raw
    &&& sky_blue().y.raw <= c.y.raw <= white().y.raw
    &&& sky_blue().z.raw <= c.z.raw <= white().z.raw
}

/// Every sphere of the scene has an albedo between zero and one in each
/// channel.
pub open spec fn all_reflectances(world: &HittableList) -> bool {
    forall|i: int|
        0 <= i < world@.len() ==> is_reflectance((#[trigger] world@[i]).material.albedo())
}

/// The radiance of the sky along `ray`, between sky blue and white.
pub fn sky_color(ray: &Ray) -> (r: Vec3)
    ensures
        r == sky(*ray),
        in_sky(r),
{
    proof {
        lemma_sky_bounds(*ray);
    }
    let unit_dir = ray.direction().unit_vector();
    let t = Scalar::new(500_000_000) * (unit_dir.y + Scalar::one());
    let white = Vec3::new(Scalar::one(), Scalar::one(), Scalar::one());
    let blue = Vec3::new(Scalar::new(500_000_000), Scalar::new(700_000_000), Scalar::one());
    (white * (Scalar::one() - t)) + (blue * t)
}

fn trace(ray: &Ray, world: &HittableList, depth: i32) -> (out: (Vec3, Ghost<Seq<Draw>>))
    ensures
        all_valid(out.1@),
        out.1@.len() >= depth,
        out.0 == radiance(*ray, world, depth as int, out.1@),
    decreases depth,
{
    if depth <= 0 {
        return (Vec3::black(), Ghost(Seq::empty()));
    }
    proof {
        lemma_idle_draw_is_valid();
    }
    match world.hit(ray, Scalar::new(NEAREST), Scalar::max_value()) {
        Some(hit) => {
            let scattering = hit.material.scatter(ray, &hit);
            let ghost draw = choose|draw: Draw| #[trigger]
                draw.valid() && scattering == hit.material.spec_scatter(ray, &hit, draw);
            match scattering {
                Some((attenuation, scattered)) => {
                    let (incoming, Ghost(rest)) = trace(&scattered, world, depth - 1);
                    let ghost draws = seq![draw] + rest;
                    proof {
                        assert(draws.drop_first() =~= rest);
                        assert(draws[0] == draw);
                    }
                    (attenuation * incoming, Ghost(draws))
                },
                None => {
                    let ghost draws = seq![draw] + idle_draws(depth - 1);
                    proof {
                        assert(draws[0] == draw);
                    }
                    (Vec3::black(), Ghost(draws))
                },
            }
        },
        None => (sky_color(ray), Ghost(idle_draws(depth as int))),
    }
}

fn trace_with(ray: &Ray, world: &HittableList, depth: i32, draws: &Vec<Draw>, bounce: usize) -> (r:
    Vec3)
    requires
        bounce <= draws.len(),
    ensures
        r == radiance(*ray, world, depth as int, draws@.skip(bounce as int)),
    decreases depth,
{
    if depth <= 0 {
        return Vec3::black();
    }
    match world.hit(ray, Scalar::new(NEAREST), Scalar::max_value()) {
        Some(hit) => {
            if bounce >= draws.len() {
                return Vec3::black();
            }
            proof {
                assert(draws@.skip(bounce as int)[0] == draws@[bounce as int]);
                assert(draws@.skip(bounce as int).drop_first() =~= draws@.skip(bounce + 1));
            }
            match hit.material.scatter_with(ray, &hit, &draws[bounce]) {
                Some((attenuation, scattered)) => {
                    attenuation * trace_with(&scattered, world, depth - 1, draws, bounce + 1)
                },
                None => Vec3::black(),
            }
        },
        None => sky_color(ray),
    }
}

/// The radiance along `ray` into `world`, following the light path for at
/// most `depth` bounces with random quantities drawn at each. In a scene
/// whose albedos lie between zero and one, so does every channel of the
/// result.
pub fn color(ray: &Ray, world: &HittableList, depth: i32) -> (r: Vec3)
    ensures
        depth <= 0 ==> r == Vec3::zero(),
        depth > 0 ==> match world.spec_hit(*ray, t_min(), t_max()) {
            Some(hit) => is_scattered_radiance(*ray, world, depth as int, &hit, r),
            None => r == sky(*ray) && in_sky(r),
        },
        is_radiance(*ray, world, depth as int, r),
        all_reflectances(world) ==> is_reflectance(r),
{
    let (radiance, Ghost(draws)) = trace(ray, world, depth);
    proof {
        assert(all_valid(draws));
        lemma_sky_bounds(*ray);
        if depth > 0 && world.spec_hit(*ray, t_min(), t_max()) is Some {
            lemma_radiance_on_a_hit(*ray, world, depth as int, radiance);
        }
        if all_reflectances(world) {
            lemma_radiance_conserves_energy(*ray, world, depth as int, draws);
        }
    }
    radiance
}

/// The radiance along `ray` into `world` for given random quantities: the
/// hit of bounce `i` takes `draws[i]`.
pub fn color_with(ray: &Ray, world: &HittableList, depth: i32, draws: &Vec<Draw>) -> (r: Vec3)
    ensures
        r == radiance(*ray, world, depth as int, draws@),
        all_reflectances(world) ==> is_reflectance(r),
{
    proof {
        assert(draws@.skip(0) =~= draws@);
        if all_reflectances(world) {
            lemma_radiance_conserves_energy(*ray, world, depth as int, draws@);
        }
    }
    trace_with(ray, world, depth, draws, 0)
}

/// With no depth left the radiance is black, whatever the ray and the
/// scene.
pub proof fn lemma_no_depth_is_black(ray: Ray, world: &HittableList, depth: int, draws: Seq<Draw>)
    requires
        depth <= 0,
    ensures
        radiance(ray, world, depth, draws) == Vec3::zero(),
{
}

/// Between its two ends the gradient stays between their colors, channel by
/// channel.
pub proof fn lemma_gradient_bounds(t: Scalar)
    requires
        0 <= t.raw <= SCALE,
    ensures
        sky_blue().x.raw <= gradient(t).x.raw <= white().x.raw,
        sky_blue().y.raw <= gradient(t).y.raw <= white().y.raw,
        sky_blue().z.raw <= gradient(t).z.raw <= white().z.raw,
{
    let one = Scalar { raw: SCALE };
    let rest = one.minus(t);
    assert(rest.raw == SCALE - t.raw);
    crate::scalar::lemma_quotient_exact(rest.raw as int, SCALE as int);
    crate::scalar::lemma_quotient_exact(t.raw as int, SCALE as int);
    assert(one.times(rest) == rest);
    assert(one.times(t) == t);
}

/// The sky along any ray lies between sky blue and white, channel by
/// channel.
pub proof fn lemma_sky_bounds(ray: Ray)
    ensures
        in_sky(sky(ray)),
{
    lemma_unit_vector_in_unit_cube(ray.direction);
    let height = ray.direction.spec_unit_vector().y.plus(Scalar { raw: SCALE });
    assert(0 <= height.raw <= 2 * SCALE);
    let product = 500_000_000 * height.raw;
    assert(0 <= product <= 1_000_000_000 * SCALE);
    assert(0 <= product / (SCALE as int) <= SCALE);
    lemma_gradient_bounds(sky_parameter(ray));
}

/// In a scene whose albedos lie between zero and one, no light path
/// brings more than white or less than black: every channel of the
/// radiance lies between zero and one, whatever the ray, the depth and the
/// draws.
pub proof fn lemma_radiance_conserves_energy(
    ray: Ray,
    world: &HittableList,
    depth: int,
    draws: Seq<Draw>,
)
    requires
        all_reflectances(world),
    ensures
        is_reflectance(radiance(ray, world, depth, draws)),
    decreases depth,
{
    if depth > 0 {
        match world.spec_hit(ray, t_min(), t_max()) {
            Some(hit) => {
                if draws.len() > 0 {
                    match hit.material.spec_scatter(&ray, &hit, draws[0]) {
                        Some(pair) => {
                            lemma_scene_hit_is_nearest(world, ray, t_min(), t_max());
                            let i = choose|i: int|
                                0 <= i < world@.len() && #[trigger] world@[i].spec_hit(
                                    ray,
                                    t_min(),
                                    t_max(),
                                ) == Some(hit);
                            lemma_hit_record(&world@[i], ray, t_min(), t_max());
                            assert(is_reflectance(hit.material.albedo()));
                            assert(pair.0 == hit.material.albedo());
                            let incoming = radiance(pair.1, world, depth - 1, draws.drop_first());
                            lemma_radiance_conserves_energy(
                                pair.1,
                                world,
                                depth - 1,
                                draws.drop_first(),
                            );
                            lemma_attenuation_dims(pair.0.x, incoming.x);
                            lemma_attenuation_dims(pair.0.y, incoming.y);
                            lemma_attenuation_dims(pair.0.z, incoming.z);
                        },
                        None => {},
                    }
                }
            },
            None => {
                lemma_sky_bounds(ray);
            },
        }
    }
}

/// A radiance along a ray that hits a sphere is what that hit brings.
pub proof fn lemma_radiance_on_a_hit(ray: Ray, world: &HittableList, depth: int, c: Vec3)
    requires
        depth > 0,
        world.spec_hit(ray, t_min(), t_max()) is Some,
        is_radiance(ray, world, depth, c),
    ensures
        is_scattered_radiance(
            ray,
            world,
            depth,
            &world.spec_hit(ray, t_min(), t_max()).unwrap(),
            c,
        ),
{
    let hit = world.spec_hit(ray, t_min(), t_max()).unwrap();
    let draws = choose|draws: Seq<Draw>|
        {
            &&& #[trigger] all_valid(draws)
            &&& draws.len() >= depth
            &&& c == radiance(ray, world, depth, draws)
        };
    let draw = draws[0];
    let rest = draws.drop_first();
    assert(draw.valid());
    assert(all_valid(rest)) by {
        assert forall|i: int| 0 <= i < rest.len() implies (#[trigger] rest[i]).valid() by {
            assert(rest[i] == draws[i + 1]);
        }
    }
    match hit.material.spec_scatter(&ray, &hit, draw) {
        Some(pair) => {
            let incoming = radiance(pair.1, world, depth - 1, rest);
            assert(is_radiance(pair.1, world, depth - 1, incoming));
            assert(c == pair.0.times(incoming));
        },
        None => {},
    }
}

} // verus!
