use stereo_tracer::bounds::{BBox, Interval};
use stereo_tracer::ray::Ray;
use stereo_tracer::scalar::Scalar;
use stereo_tracer::vec3::Vec3;

fn s(x: f64) -> Scalar {
    Scalar::new((x * 1e9).round() as i64)
}

fn v(x: f64, y: f64, z: f64) -> Vec3 {
    Vec3::new(s(x), s(y), s(z))
}

fn cube() -> BBox {
    BBox::from_points(v(-1.0, -1.0, -1.0), v(1.0, 1.0, 1.0))
}

#[test]
fn interval_ends() {
    let i = Interval::new(s(1.0), s(2.0));
    assert_eq!(i.min, s(1.0));
    assert_eq!(i.max, s(2.0));
}

#[test]
fn the_empty_interval_runs_from_the_largest_to_the_smallest_value() {
    assert_eq!(Interval::empty().min, Scalar::max_value());
    assert_eq!(Interval::empty().max, Scalar::min_value());
    assert_eq!(Interval::default(), Interval::empty());
}

#[test]
fn clamp_brings_a_number_into_the_interval() {
    let i = Interval::new(s(1.0), s(2.0));
    assert_eq!(i.clamp(s(0.5)), s(1.0));
    assert_eq!(i.clamp(s(1.5)), s(1.5));
    assert_eq!(i.clamp(s(2.5)), s(2.0));
    assert_eq!(i.clamp(s(1.0)), s(1.0));
    assert_eq!(i.clamp(s(2.0)), s(2.0));
    assert_eq!(Interval::empty().clamp(s(3.0)), Scalar::max_value());
}

#[test]
fn expand_pads_half_at_each_end() {
    let i = Interval::new(s(1.0), s(2.0)).expand(s(1.0));
    assert_eq!(i, Interval::new(s(0.5), s(2.5)));
    let j = Interval::new(s(1.0), s(2.0)).expand(s(-0.5));
    assert_eq!(j, Interval::new(s(1.25), s(1.75)));
}

#[test]
fn a_box_from_two_corners_in_any_order() {
    let expected = BBox::new(
        Interval::new(s(-1.0), s(4.0)),
        Interval::new(s(0.0), s(2.0)),
        Interval::new(s(-3.0), s(3.0)),
    );
    assert_eq!(BBox::from_points(v(-1.0, 2.0, 3.0), v(4.0, 0.0, -3.0)), expected);
    assert_eq!(BBox::from_points(v(4.0, 0.0, -3.0), v(-1.0, 2.0, 3.0)), expected);
}

#[test]
fn axes_by_index() {
    let b = BBox::from_points(v(-1.0, 2.0, 3.0), v(4.0, 0.0, -3.0));
    assert_eq!(b.axis(0), b.x);
    assert_eq!(b.axis(1), b.y);
    assert_eq!(b.axis(2), b.z);
    assert_eq!(b.axis(7), b.x);
}

#[test]
fn the_default_box_is_empty_on_every_axis() {
    let b = BBox::default();
    assert_eq!(b.x, Interval::empty());
    assert_eq!(b.y, Interval::empty());
    assert_eq!(b.z, Interval::empty());
    let ray = Ray::new(v(0.0, 0.0, 0.0), v(1.0, 1.0, 1.0));
    assert!(!b.hit(&ray, Interval::new(s(0.0), s(100.0))));
}

#[test]
fn a_ray_along_an_axis_hits_the_box() {
    let ray = Ray::new(v(0.0, 0.0, -5.0), v(0.0, 0.0, 1.0));
    assert!(cube().hit(&ray, Interval::new(s(0.0), s(100.0))));
    assert!(cube().hit(&ray, Interval::new(s(5.0), s(100.0))));
    assert!(!cube().hit(&ray, Interval::new(s(0.0), s(4.0))));
    assert!(!cube().hit(&ray, Interval::new(s(6.0), s(100.0))));
}

#[test]
fn a_parallel_ray_beside_the_box_misses() {
    let ray = Ray::new(v(5.0, 0.0, -5.0), v(0.0, 0.0, 1.0));
    assert!(!cube().hit(&ray, Interval::new(s(0.0), s(100.0))));
}

#[test]
fn a_diagonal_ray_hits_the_box() {
    let ray = Ray::new(v(-5.0, -5.0, -5.0), v(1.0, 1.0, 1.0));
    assert!(cube().hit(&ray, Interval::new(s(0.0), s(100.0))));
    assert!(!cube().hit(&ray, Interval::new(s(0.0), s(4.0))));
    let skew = Ray::new(v(-5.0, -5.0, -5.0), v(1.0, 1.0, 3.0));
    assert!(!cube().hit(&skew, Interval::new(s(0.0), s(100.0))));
}

#[test]
fn a_ray_against_an_axis_hits_the_box() {
    let ray = Ray::new(v(5.0, 0.0, 0.0), v(-1.0, 0.0, 0.0));
    assert!(cube().hit(&ray, Interval::new(s(0.0), s(100.0))));
    let away = Ray::new(v(5.0, 0.0, 0.0), v(1.0, 0.0, 0.0));
    assert!(!cube().hit(&away, Interval::new(s(0.0), s(100.0))));
}

#[test]
fn a_ray_that_starts_on_a_face_and_runs_along_it_hits() {
    let ray = Ray::new(v(-1.0, 0.0, -5.0), v(0.0, 0.0, 1.0));
    assert!(cube().hit(&ray, Interval::new(s(0.0), s(100.0))));
}

#[test]
fn an_interval_that_holds_nothing_is_never_hit() {
    let ray = Ray::new(v(0.0, 0.0, -5.0), v(0.0, 0.0, 1.0));
    assert!(!cube().hit(&ray, Interval::empty()));
    assert!(!cube().hit(&ray, Interval::new(s(5.0), s(5.0))));
}
