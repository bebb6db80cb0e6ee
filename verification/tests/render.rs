use std::sync::Arc;
use stereo_tracer::camera::Camera;
use stereo_tracer::hits::HittableList;
use stereo_tracer::material::{Lambertian, Material};
use stereo_tracer::render::{channel, pixel, Pixel, Render, MAX_DEPTH};
use stereo_tracer::scalar::Scalar;
use stereo_tracer::sphere::Sphere;
use stereo_tracer::vec3::Vec3;

fn s(x: f64) -> Scalar {
    Scalar::new((x * 1e9).round() as i64)
}

fn v(x: f64, y: f64, z: f64) -> Vec3 {
    Vec3::new(s(x), s(y), s(z))
}

#[test]
fn paths_are_cut_off_after_fifty_bounces() {
    assert_eq!(MAX_DEPTH, 50);
}

#[test]
fn channels_scale_by_255_99_and_round_toward_zero() {
    assert_eq!(channel(s(0.0)), 0);
    assert_eq!(channel(s(1.0)), 255);
    assert_eq!(channel(s(0.5)), 127);
    assert_eq!(channel(s(0.999)), 255);
    assert_eq!(channel(s(0.1)), 25);
    assert_eq!(channel(s(2.0)), 511);
    assert_eq!(channel(s(-1.0)), -255);
}

#[test]
fn channels_clamp_to_the_pixel_type() {
    assert_eq!(channel(Scalar::max_value()), i32::MAX);
    assert_eq!(channel(Scalar::min_value()), i32::MIN);
}

#[test]
fn a_pixel_is_the_root_of_the_mean() {
    let left = v(4.0, 4.0, 4.0);
    let right = v(1.0, 0.64, 0.0);
    assert_eq!(pixel(left, right, 4, true), Pixel { r: 255, g: 102, b: 0 });
    assert_eq!(pixel(left, right, 4, false), Pixel { r: 127, g: 102, b: 0 });
    assert_eq!(pixel(left, right, 1, false), Pixel { r: 255, g: 204, b: 0 });
}

#[test]
fn a_pixel_without_samples_is_black() {
    assert_eq!(pixel(v(0.0, 0.0, 0.0), v(0.0, 0.0, 0.0), 0, true), Pixel { r: 0, g: 0, b: 0 });
}

#[test]
fn new_settings_look_down_the_axis() {
    let r = Render::new(1200, 675, 100);
    assert_eq!((r.nx, r.ny, r.ns), (1200, 675, 100));
    assert_eq!(r.lookat, v(0.0, 0.0, -1.0));
    assert_eq!(r.lookfrom, v(0.0, 0.0, 0.0));
    assert_eq!(r.vup, v(0.0, 1.0, 0.0));
    assert_eq!(r.vfov, s(20.0));
    assert_eq!(r.ipd, s(0.06));
    assert_eq!(r.aperture, s(0.0));
    assert_eq!(r.focus_dist, s(10.0));
}

#[test]
fn settings_are_set_one_after_another() {
    let mut r = Render::new(4, 2, 1);
    r.lookat(s(1.0), s(2.0), s(3.0))
        .lookfrom(s(13.0), s(2.0), s(3.0))
        .vup(s(0.0), s(0.0), s(1.0))
        .vfov(s(40.0))
        .ipd(s(0.1))
        .aperture(s(0.6))
        .focus_dist(s(5.0));
    let expected = Render {
        nx: 4,
        ny: 2,
        ns: 1,
        lookat: v(1.0, 2.0, 3.0),
        lookfrom: v(13.0, 2.0, 3.0),
        vup: v(0.0, 0.0, 1.0),
        vfov: s(40.0),
        ipd: s(0.1),
        aperture: s(0.6),
        focus_dist: s(5.0),
    };
    assert_eq!(r, expected);
    r.vfov(s(20.0));
    assert_eq!(r, Render { vfov: s(20.0), ..expected });
}

#[test]
fn the_camera_of_the_settings() {
    let mut r = Render::new(4, 2, 1);
    r.ipd(s(0.5)).aperture(s(0.2)).focus_dist(s(2.0));
    let expected = Camera::with_lens(
        v(0.0, 0.0, 0.0),
        v(0.0, 0.0, -1.0),
        v(0.0, 1.0, 0.0),
        s(1.0),
        s(2.0),
        s(0.5),
        s(0.2),
        s(2.0),
    );
    assert_eq!(r.camera(s(1.0)), expected);
    assert_eq!(r.camera(s(1.0)).left_eye.lower_left_corner, v(-4.25, -2.0, -2.0));
}

#[test]
fn an_image_of_the_sky() {
    let r = Render::new(3, 2, 4);
    let camera = r.camera(s(1.0));
    let world = HittableList::new();
    for anaglyph in [false, true] {
        let pixels = r.render(&camera, &world, anaglyph);
        assert_eq!(pixels.len(), 6);
        for p in pixels.iter() {
            assert!(181 <= p.r && p.r <= 255, "{p:?}");
            assert!(214 <= p.g && p.g <= 255, "{p:?}");
            assert_eq!(p.b, 255);
        }
        for i in 0..3 {
            assert!(pixels[i].r <= pixels[3 + i].r);
        }
    }
}

#[test]
fn rows_come_from_the_left() {
    let r = Render::new(4, 2, 2);
    let camera = r.camera(s(1.0));
    let mut world = HittableList::new();
    let black = Arc::new(Material::Lambertian(Lambertian::new(v(0.0, 0.0, 0.0))));
    // A black ball that fills the left half of the view.
    world.add(Sphere::new(v(-100.0, 0.0, -10.0), s(100.0), black));
    let row = r.render_row(&camera, &world, 1, false);
    assert_eq!(row.len(), 4);
    assert_eq!(row[0], Pixel { r: 0, g: 0, b: 0 });
    assert_eq!(row[3].b, 255);
    let pixels = r.render(&camera, &world, false);
    assert_eq!(pixels.len(), 8);
    assert_eq!(pixels[0], Pixel { r: 0, g: 0, b: 0 });
    assert_eq!(pixels[4], Pixel { r: 0, g: 0, b: 0 });
    assert_eq!(pixels[3].b, 255);
    assert_eq!(pixels[7].b, 255);
}

#[test]
fn an_image_without_extent_has_no_pixels() {
    let world = HittableList::new();
    for (nx, ny) in [(0, 5), (5, 0), (-1, 5), (5, -1), (0, 0)] {
        let r = Render::new(nx, ny, 4);
        let camera = Render::new(4, 4, 4).camera(s(1.0));
        assert!(r.render(&camera, &world, false).is_empty());
    }
    let r = Render::new(-3, 2, 1);
    let camera = Render::new(4, 4, 4).camera(s(1.0));
    assert!(r.render_row(&camera, &world, 0, false).is_empty());
}

#[test]
fn a_pixel_sampled_no_time_is_black() {
    let r = Render::new(4, 2, 0);
    let camera = r.camera(s(1.0));
    let world = HittableList::new();
    assert_eq!(r.sample_pixel(&camera, &world, 1, 1, true), Pixel { r: 0, g: 0, b: 0 });
}

#[test]
fn samples_of_the_left_eye_are_only_taken_for_an_anaglyph() {
    let r = Render::new(4, 2, 1);
    let camera = r.camera(s(1.0));
    let world = HittableList::new();
    let (left, right) = r.sample(&camera, &world, 1, 1, false);
    assert_eq!(left, v(0.0, 0.0, 0.0));
    assert_eq!(right.z, s(1.0));
    let (left, right) = r.sample(&camera, &world, 1, 1, true);
    assert_eq!(left.z, s(1.0));
    assert_eq!(right.z, s(1.0));
}
