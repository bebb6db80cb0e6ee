use stereo_tracer::scalar::{Scalar, SCALE};
use stereo_tracer::vec3::Vec3;

fn s(x: f64) -> Scalar {
    Scalar::new((x * 1e9).round() as i64)
}

fn v(x: f64, y: f64, z: f64) -> Vec3 {
    Vec3::new(s(x), s(y), s(z))
}

#[test]
fn component_wise_arithmetic() {
    let a = v(1.0, 2.0, 3.0);
    let b = v(4.0, 0.5, -2.0);
    assert_eq!(a + b, v(5.0, 2.5, 1.0));
    assert_eq!(a - b, v(-3.0, 1.5, 5.0));
    assert_eq!(a * b, v(4.0, 1.0, -6.0));
    assert_eq!(a / b, v(0.25, 4.0, -1.5));
    assert_eq!(a * s(2.0), v(2.0, 4.0, 6.0));
    assert_eq!(a / s(2.0), v(0.5, 1.0, 1.5));
    assert_eq!(-a, v(-1.0, -2.0, -3.0));
}

#[test]
fn arithmetic_in_place() {
    let mut a = v(1.0, 2.0, 3.0);
    a += v(1.0, 1.0, 1.0);
    assert_eq!(a, v(2.0, 3.0, 4.0));
    a -= v(0.5, 0.5, 0.5);
    assert_eq!(a, v(1.5, 2.5, 3.5));
    a *= v(2.0, 0.0, -2.0);
    assert_eq!(a, v(3.0, 0.0, -7.0));
    a /= v(2.0, 1.0, 7.0);
    assert_eq!(a, v(1.5, 0.0, -1.0));
    a *= s(4.0);
    assert_eq!(a, v(6.0, 0.0, -4.0));
    a /= s(8.0);
    assert_eq!(a, v(0.75, 0.0, -0.5));
}

#[test]
fn constructors_and_channels() {
    let a = v(0.1, 0.2, 0.3);
    assert_eq!(a.r(), s(0.1));
    assert_eq!(a.g(), s(0.2));
    assert_eq!(a.b(), s(0.3));
    assert_eq!(Vec3::from_ints(1, -2, 3), v(1.0, -2.0, 3.0));
    assert_eq!(Vec3::black(), v(0.0, 0.0, 0.0));
}

#[test]
fn components_by_index() {
    let mut a = v(1.0, 2.0, 3.0);
    assert_eq!(a.get(0), s(1.0));
    assert_eq!(a.get(1), s(2.0));
    assert_eq!(a.get(2), s(3.0));
    a.set(1, s(9.0));
    assert_eq!(a, v(1.0, 9.0, 3.0));
    a.set(0, s(8.0));
    a.set(2, s(7.0));
    assert_eq!(a, v(8.0, 9.0, 7.0));
}

#[test]
fn dot_and_cross() {
    assert_eq!(v(1.0, 2.0, 3.0).dot(v(4.0, -5.0, 6.0)), s(12.0));
    assert_eq!(v(1.0, 0.0, 0.0).cross(v(0.0, 1.0, 0.0)), v(0.0, 0.0, 1.0));
    assert_eq!(v(0.0, 1.0, 0.0).cross(v(0.0, 0.0, 1.0)), v(1.0, 0.0, 0.0));
    assert_eq!(v(1.0, 2.0, 3.0).cross(v(4.0, 5.0, 6.0)), v(-3.0, 6.0, -3.0));
}

#[test]
fn lengths() {
    assert_eq!(v(3.0, 4.0, 0.0).sqr_length(), s(25.0));
    assert_eq!(v(3.0, 4.0, 0.0).length(), s(5.0));
    assert_eq!(v(1.0, 1.0, 0.0).length(), Scalar::new(1_414_213_562));
    assert_eq!(v(0.0, 0.0, 0.0).length(), s(0.0));
}

#[test]
fn unit_vector_divides_by_the_length() {
    assert_eq!(v(3.0, 4.0, 0.0).unit_vector(), v(0.6, 0.8, 0.0));
    assert_eq!(v(0.0, 0.0, -7.0).unit_vector(), v(0.0, 0.0, -1.0));
    let d = v(1.0, -1.0, 0.0).unit_vector();
    assert_eq!(d, Vec3::new(Scalar::new(707_106_781), Scalar::new(-707_106_781), s(0.0)));
}

#[test]
fn unit_vector_of_the_zero_vector_is_the_zero_vector() {
    assert_eq!(v(0.0, 0.0, 0.0).unit_vector(), v(0.0, 0.0, 0.0));
}

#[test]
fn lengths_come_from_the_exact_squares() {
    let tiny = Vec3::new(Scalar::new(3), Scalar::new(-4), Scalar::new(0));
    assert_eq!(tiny.sqr_length(), s(0.0));
    assert_eq!(tiny.length(), Scalar::new(5));
    assert_eq!(tiny.unit_vector(), v(0.6, -0.8, 0.0));
    let short = Vec3::new(Scalar::new(3), Scalar::new(-3), Scalar::new(0));
    assert_eq!(short.length(), Scalar::new(4));
    assert_eq!(short.unit_vector(), v(0.75, -0.75, 0.0));
    assert_eq!(v(0.0, 0.00001, 0.0).unit_vector(), v(0.0, 1.0, 0.0));
    assert_eq!(Vec3::new(s(0.0), s(0.0), Scalar::new(-1)).unit_vector(), v(0.0, 0.0, -1.0));
}

#[test]
fn long_vectors_have_a_length_too() {
    assert_eq!(v(300000.0, 400000.0, 0.0).length(), s(500000.0));
    assert_eq!(v(300000.0, 400000.0, 0.0).unit_vector(), v(0.6, 0.8, 0.0));
    assert_eq!(Vec3::new(Scalar::max_value(), s(0.0), s(0.0)).length(), Scalar::max_value());
    assert_eq!(Vec3::new(Scalar::min_value(), s(0.0), s(0.0)).length(), Scalar::max_value());
    assert_eq!(
        Vec3::new(Scalar::max_value(), Scalar::max_value(), Scalar::max_value()).length(),
        Scalar::max_value()
    );
}

#[test]
fn unit_vectors_stay_within_one_in_every_component() {
    let ends = [Scalar::min_value(), Scalar::max_value(), s(0.0), Scalar::new(1), Scalar::new(-1)];
    for x in ends {
        for y in ends {
            for z in ends {
                let u = Vec3::new(x, y, z).unit_vector();
                for c in [u.x, u.y, u.z] {
                    assert!(-SCALE <= c.raw && c.raw <= SCALE, "{u:?}");
                }
            }
        }
    }
    assert_eq!(
        Vec3::new(Scalar::min_value(), s(0.0), Scalar::max_value()).unit_vector().x,
        s(-1.0)
    );
}

#[test]
fn near_zero_is_below_ten_billionths() {
    assert!(v(0.0, 0.0, 0.0).near_zero());
    assert!(Vec3::new(Scalar::new(9), Scalar::new(-9), Scalar::new(0)).near_zero());
    assert!(!Vec3::new(Scalar::new(10), Scalar::new(0), Scalar::new(0)).near_zero());
    assert!(!Vec3::new(Scalar::new(0), Scalar::new(-10), Scalar::new(0)).near_zero());
    assert!(!Vec3::new(Scalar::new(0), Scalar::new(0), Scalar::min_value()).near_zero());
}

#[test]
fn reflection_off_a_floor() {
    assert_eq!(v(1.0, -1.0, 0.0).reflect(v(0.0, 1.0, 0.0)), v(1.0, 1.0, 0.0));
    assert_eq!(v(0.0, 0.0, -1.0).reflect(v(0.0, 0.0, 1.0)), v(0.0, 0.0, 1.0));
    assert_eq!(v(1.0, 0.0, 0.0).reflect(v(0.0, 1.0, 0.0)), v(1.0, 0.0, 0.0));
}

#[test]
fn refraction_straight_through() {
    let r = v(0.0, -1.0, 0.0).refract(v(0.0, 1.0, 0.0), s(1.0));
    assert_eq!(r, Some(v(0.0, -1.0, 0.0)));
}

#[test]
fn refraction_bends_toward_the_normal_in_a_denser_medium() {
    // sin of the refracted angle is 0.8 / 2 = 0.4, so the cosine is sqrt(0.84).
    let r = v(0.8, -0.6, 0.0).refract(v(0.0, 1.0, 0.0), s(0.5)).expect("refracted");
    assert_eq!(r.x, s(0.4));
    assert_eq!(r.y, -s(0.84).sqrt());
    assert_eq!(r.z, s(0.0));
}

#[test]
fn total_internal_reflection_gives_no_refraction() {
    assert_eq!(v(0.8, -0.6, 0.0).refract(v(0.0, 1.0, 0.0), s(2.0)), None);
    // The discriminant is exactly zero: 1 - (1/0.8)^2 * (1 - 0.36).
    assert_eq!(v(0.8, -0.6, 0.0).refract(v(0.0, 1.0, 0.0), s(1.25)), None);
}

#[test]
fn accepted_means_squared_length_below_one() {
    assert!(v(0.0, 0.0, 0.0).accepted());
    assert!(v(0.5, 0.5, 0.5).accepted());
    assert!(!v(1.0, 0.0, 0.0).accepted());
    assert!(!v(0.6, 0.6, 0.6).accepted());
    assert!(v(0.999999999, 0.0, 0.0).accepted());
}

#[test]
fn random_components_lie_in_the_unit_interval() {
    for _ in 0..1000 {
        let p = Vec3::random();
        for c in [p.x, p.y, p.z] {
            assert!(0 <= c.raw && c.raw < SCALE);
        }
    }
}

#[test]
fn random_range_stays_in_range() {
    for _ in 0..1000 {
        let p = Vec3::random_range(s(-2.0), s(3.0));
        for c in [p.x, p.y, p.z] {
            assert!(s(-2.0).raw <= c.raw && c.raw < s(3.0).raw);
        }
    }
    let p = Vec3::random_range(Scalar::new(41), Scalar::new(42));
    assert_eq!(p, Vec3::new(Scalar::new(41), Scalar::new(41), Scalar::new(41)));
}

#[test]
fn random_draws_differ() {
    let first = Vec3::random_range(s(-1.0), s(1.0));
    let mut differs = false;
    for _ in 0..100 {
        let next = Vec3::random_range(s(-1.0), s(1.0));
        if next != first {
            differs = true;
        }
        assert!(next.x != s(-1.0) || next.y != s(-1.0) || next.z != s(-1.0));
    }
    assert!(differs);
}

#[test]
fn random_in_unit_sphere_is_inside() {
    for _ in 0..2000 {
        let p = Vec3::random_in_unit_sphere();
        assert!(p.sqr_length().raw < SCALE);
        assert!(p.accepted());
    }
}

#[test]
fn random_in_unit_disk_is_flat_and_inside() {
    for _ in 0..2000 {
        let p = Vec3::random_in_unit_disk();
        assert_eq!(p.z.raw, 0);
        assert!(p.sqr_length().raw < SCALE);
    }
}

#[test]
fn random_unit_vector_has_length_one() {
    for _ in 0..1000 {
        let p = Vec3::random_unit_vector();
        if p.sqr_length().raw == 0 {
            continue;
        }
        let length = p.length().raw as f64 / 1e9;
        assert!((length - 1.0).abs() < 1e-6, "length {length}");
    }
}
