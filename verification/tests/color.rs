use std::sync::Arc;
use stereo_tracer::color::{color, color_with, sky_color, NEAREST};
use stereo_tracer::hits::HittableList;
use stereo_tracer::material::{Dielectric, Draw, Lambertian, Material, Metal};
use stereo_tracer::ray::Ray;
use stereo_tracer::scalar::{Scalar, SCALE};
use stereo_tracer::sphere::Sphere;
use stereo_tracer::vec3::Vec3;

fn s(x: f64) -> Scalar {
    Scalar::new((x * 1e9).round() as i64)
}

fn v(x: f64, y: f64, z: f64) -> Vec3 {
    Vec3::new(s(x), s(y), s(z))
}

fn one_sphere(material: Material) -> HittableList {
    let mut world = HittableList::new();
    world.add(Sphere::new(v(0.0, 0.0, -1.0), s(0.5), Arc::new(material)));
    world
}

fn scene() -> HittableList {
    let mut world = HittableList::new();
    let glass = Arc::new(Material::Dielectric(Dielectric::new(s(1.5), v(1.0, 1.0, 1.0))));
    world.add(Sphere::new(
        v(0.0, -100.5, -1.0),
        s(100.0),
        Arc::new(Material::Lambertian(Lambertian::new(v(0.8, 0.8, 0.0)))),
    ));
    world.add(Sphere::new(
        v(0.0, 0.0, -1.0),
        s(0.5),
        Arc::new(Material::Lambertian(Lambertian::new(v(0.1, 0.2, 0.5)))),
    ));
    world.add(Sphere::new(
        v(1.0, 0.0, -1.0),
        s(0.5),
        Arc::new(Material::Metal(Metal::new(v(0.8, 0.6, 0.2), s(0.3)))),
    ));
    world.add(Sphere::new(v(-1.0, 0.0, -1.0), s(0.5), glass.clone()));
    world.add(Sphere::new(v(-1.0, 1.0, -1.0), s(0.3), glass));
    world
}

#[test]
fn the_nearest_distance_is_a_thousandth() {
    assert_eq!(Scalar::new(NEAREST), s(0.001));
}

#[test]
fn no_depth_left_is_black() {
    let world = scene();
    let hitting = Ray::new(v(0.0, 0.0, 0.0), v(0.0, 0.0, -1.0));
    let missing = Ray::new(v(0.0, 0.0, 0.0), v(0.0, 1.0, 0.0));
    let degenerate = Ray::new(v(0.0, 0.0, 0.0), v(0.0, 0.0, 0.0));
    for ray in [hitting, missing, degenerate] {
        assert_eq!(color(&ray, &world, 0), v(0.0, 0.0, 0.0));
        assert_eq!(color(&ray, &world, -3), v(0.0, 0.0, 0.0));
        assert_eq!(color(&ray, &HittableList::new(), 0), v(0.0, 0.0, 0.0));
        assert_eq!(color_with(&ray, &world, 0, &vec![]), v(0.0, 0.0, 0.0));
    }
}

#[test]
fn the_sky_runs_from_white_to_blue() {
    assert_eq!(sky_color(&Ray::new(v(0.0, 0.0, 0.0), v(0.0, 1.0, 0.0))), v(0.5, 0.7, 1.0));
    assert_eq!(sky_color(&Ray::new(v(0.0, 0.0, 0.0), v(0.0, -1.0, 0.0))), v(1.0, 1.0, 1.0));
    assert_eq!(sky_color(&Ray::new(v(0.0, 0.0, 0.0), v(1.0, 0.0, 0.0))), v(0.75, 0.85, 1.0));
    assert_eq!(sky_color(&Ray::new(v(9.0, 9.0, 9.0), v(0.0, 0.0, -4.0))), v(0.75, 0.85, 1.0));
    assert_eq!(sky_color(&Ray::new(v(0.0, 0.0, 0.0), v(3.0, 4.0, 0.0))), v(0.55, 0.73, 1.0));
}

#[test]
fn the_sky_of_short_and_long_directions() {
    let origin = v(0.0, 0.0, 0.0);
    assert_eq!(sky_color(&Ray::new(origin, v(0.0, 0.00001, 0.0))), v(0.5, 0.7, 1.0));
    let up = Vec3::new(s(0.0), Scalar::new(3), s(0.0));
    assert_eq!(sky_color(&Ray::new(origin, up)), v(0.5, 0.7, 1.0));
    assert_eq!(sky_color(&Ray::new(origin, v(0.0, -200000.0, 0.0))), v(1.0, 1.0, 1.0));
    assert_eq!(sky_color(&Ray::new(origin, v(0.0, 0.0, 0.0))), v(0.75, 0.85, 1.0));
    assert_eq!(color(&Ray::new(origin, up), &HittableList::new(), 50), v(0.5, 0.7, 1.0));
}

#[test]
fn the_sky_stays_between_its_ends_for_extreme_directions() {
    let ends = [Scalar::min_value(), Scalar::max_value(), s(0.0), Scalar::new(1), Scalar::new(-7)];
    for x in ends {
        for y in ends {
            for z in ends {
                let c = sky_color(&Ray::new(v(0.0, 0.0, 0.0), Vec3::new(x, y, z)));
                assert!(s(0.5).raw <= c.x.raw && c.x.raw <= SCALE, "{c:?}");
                assert!(s(0.7).raw <= c.y.raw && c.y.raw <= SCALE, "{c:?}");
                assert_eq!(c.z.raw, SCALE);
            }
        }
    }
}

#[test]
fn two_mirrors_show_the_sky_of_the_nearer_one() {
    let white = Arc::new(Material::Metal(Metal::new(v(1.0, 1.0, 1.0), s(0.0))));
    let black = Arc::new(Material::Metal(Metal::new(v(0.0, 0.0, 0.0), s(0.0))));
    let ray = Ray::new(v(0.0, 0.0, 0.0), v(0.0, 0.0, -1.0));
    let mut near_first = HittableList::new();
    near_first.add(Sphere::new(v(0.0, 0.0, -1.0), s(0.5), white.clone()));
    near_first.add(Sphere::new(v(0.0, 0.0, -3.0), s(0.5), black.clone()));
    let mut far_first = HittableList::new();
    far_first.add(Sphere::new(v(0.0, 0.0, -3.0), s(0.5), black));
    far_first.add(Sphere::new(v(0.0, 0.0, -1.0), s(0.5), white));
    for world in [&near_first, &far_first] {
        for _ in 0..20 {
            assert_eq!(color(&ray, world, 50), v(0.75, 0.85, 1.0));
        }
    }
}

#[test]
fn a_miss_brings_the_sky() {
    let world = scene();
    let empty = HittableList::new();
    for direction in [v(0.0, 1.0, 0.0), v(0.0, 1.0, 1.0), v(3.0, 4.0, 0.0)] {
        let ray = Ray::new(v(0.0, 0.0, 0.0), direction);
        assert_eq!(color(&ray, &world, 50), sky_color(&ray));
        assert_eq!(color(&ray, &empty, 1), sky_color(&ray));
        assert_eq!(color_with(&ray, &world, 50, &vec![]), sky_color(&ray));
    }
}

#[test]
fn a_miss_stays_between_sky_blue_and_white() {
    let empty = HittableList::new();
    for x in -4..=4 {
        for y in -4..=4 {
            for z in [-3, 1, 2] {
                let ray = Ray::new(v(0.5, 0.5, 0.5), Vec3::from_ints(x, y, z));
                let c = color(&ray, &empty, 50);
                assert!(s(0.5).raw <= c.x.raw && c.x.raw <= SCALE, "{c:?}");
                assert!(s(0.7).raw <= c.y.raw && c.y.raw <= SCALE, "{c:?}");
                assert_eq!(c.z.raw, SCALE);
            }
        }
    }
}

#[test]
fn one_diffuse_bounce_into_the_sky() {
    let world = one_sphere(Material::Lambertian(Lambertian::new(v(0.5, 0.5, 0.5))));
    let ray = Ray::new(v(0.0, 0.0, 0.0), v(0.0, 0.0, -1.0));
    let draws = vec![Draw { sphere: v(0.0, 0.0, 0.5), coin: s(0.0) }];
    assert_eq!(color_with(&ray, &world, 2, &draws), v(0.375, 0.425, 0.5));
    assert_eq!(color_with(&ray, &world, 50, &draws), v(0.375, 0.425, 0.5));
}

#[test]
fn the_last_bounce_brings_black() {
    let world = one_sphere(Material::Lambertian(Lambertian::new(v(0.5, 0.5, 0.5))));
    let ray = Ray::new(v(0.0, 0.0, 0.0), v(0.0, 0.0, -1.0));
    let draws = vec![Draw { sphere: v(0.0, 0.0, 0.5), coin: s(0.0) }];
    assert_eq!(color_with(&ray, &world, 1, &draws), v(0.0, 0.0, 0.0));
}

#[test]
fn a_hit_without_a_draw_ends_the_path() {
    let world = one_sphere(Material::Lambertian(Lambertian::new(v(0.5, 0.5, 0.5))));
    let ray = Ray::new(v(0.0, 0.0, 0.0), v(0.0, 0.0, -1.0));
    assert_eq!(color_with(&ray, &world, 50, &vec![]), v(0.0, 0.0, 0.0));
}

#[test]
fn an_absorbed_ray_brings_black() {
    let world = one_sphere(Material::Metal(Metal::new(v(0.9, 0.9, 0.9), s(1.0))));
    // The ray meets the sphere at (0, 0.4, -0.7), where the normal is (0, 0.8, 0.6) and the
    // mirror direction (0, 0.96, -0.28); the sample pushes that back into the surface.
    let ray = Ray::new(v(0.0, 0.4, 0.0), v(0.0, 0.0, -1.0));
    let into = vec![Draw { sphere: v(0.0, -0.72, -0.54), coin: s(0.0) }; 50];
    assert_eq!(color_with(&ray, &world, 50, &into), v(0.0, 0.0, 0.0));
    let out = vec![Draw { sphere: v(0.0, 0.0, 0.0), coin: s(0.0) }; 50];
    assert_eq!(color_with(&ray, &world, 50, &out), v(0.459, 0.6354, 0.9));
    let head_on = Ray::new(v(0.0, 0.0, 0.0), v(0.0, 0.0, -1.0));
    assert_eq!(color_with(&head_on, &world, 50, &out), v(0.675, 0.765, 0.9));
}

#[test]
fn a_mirror_attenuates_the_sky_it_shows() {
    let world = one_sphere(Material::Metal(Metal::new(v(0.5, 1.0, 0.25), s(0.0))));
    let ray = Ray::new(v(0.0, 0.0, 0.0), v(0.0, 0.0, -1.0));
    for _ in 0..50 {
        assert_eq!(color(&ray, &world, 50), v(0.375, 0.85, 0.25));
    }
}

#[test]
fn radiance_in_a_scene_stays_between_black_and_white() {
    let world = scene();
    for x in -6..=6 {
        for y in -3..=3 {
            let ray = Ray::new(v(0.0, 0.0, 1.0), v(x as f64 / 4.0, y as f64 / 4.0, -1.0));
            let c = color(&ray, &world, 50);
            for channel in [c.x, c.y, c.z] {
                assert!(0 <= channel.raw && channel.raw <= SCALE, "{c:?}");
            }
        }
    }
}

#[test]
fn given_draws_give_the_same_radiance_again() {
    let world = scene();
    let mut draws = Vec::new();
    for _ in 0..50 {
        draws.push(Draw::random());
    }
    for x in -3..=3 {
        let ray = Ray::new(v(0.0, 0.0, 1.0), v(x as f64 / 2.0, -0.2, -1.0));
        let first = color_with(&ray, &world, 50, &draws);
        assert_eq!(color_with(&ray, &world, 50, &draws), first);
    }
}
