use raytracing_in_one_weekend::Scalar;
use raytracing_in_one_weekend::SCALE;
use raytracing_in_one_weekend::Vec3;

fn v(x: i64, y: i64, z: i64) -> Vec3 {
    Vec3::new(Scalar::from_int(x), Scalar::from_int(y), Scalar::from_int(z))
}

fn vraw(x: i64, y: i64, z: i64) -> Vec3 {
    Vec3::new(Scalar::new(x), Scalar::new(y), Scalar::new(z))
}

#[test]
fn componentwise_arithmetic() {
    let a = v(1, 2, 3);
    let b = v(4, -5, 6);
    assert_eq!(a.add(b), v(5, -3, 9));
    assert_eq!(a.sub(b), v(-3, 7, -3));
    assert_eq!(a.neg(), v(-1, -2, -3));
    assert_eq!(a.cmul(b), v(4, -10, 18));
    assert_eq!(a.scale(Scalar::from_int(2)), v(2, 4, 6));
    assert_eq!(v(2, 4, 6).div(Scalar::from_int(2)), v(1, 2, 3));
}

#[test]
fn dot_and_cross_products() {
    let a = v(1, 2, 3);
    let b = v(4, -5, 6);
    assert_eq!(Vec3::dot(a, b).raw, (4 - 10 + 18) * SCALE);
    // (1,0,0) x (0,1,0) == (0,0,1)
    assert_eq!(Vec3::cross(v(1, 0, 0), v(0, 1, 0)), v(0, 0, 1));
    assert_eq!(Vec3::cross(v(0, 1, 0), v(1, 0, 0)), v(0, 0, -1));
}

#[test]
fn accessors_and_default() {
    let a = v(1, 2, 3);
    assert_eq!(a.x().raw, SCALE);
    assert_eq!(a.y().raw, 2 * SCALE);
    assert_eq!(a.z().raw, 3 * SCALE);
    assert_eq!(a.r().raw, SCALE);
    assert_eq!(a.g().raw, 2 * SCALE);
    assert_eq!(a.b().raw, 3 * SCALE);
    assert_eq!(Vec3::default(), v(0, 0, 0));
}

#[test]
fn length_of_pythagorean_triple_is_exact() {
    let a = v(3, 4, 0);
    assert_eq!(a.squared_length().raw, 25 * SCALE);
    assert_eq!(a.length().raw, 5 * SCALE);
}

#[test]
fn unit_vector_length_is_one_within_tolerance() {
    // |length(unit(v)) - 1| must stay within 1e-9, which is just over
    // 4 raw units on the 2^-32 grid.
    let vectors = [
        v(3, 4, 0),
        v(1, 1, 1),
        v(-3, 4, 0),
        v(1, 2, 3),
        v(-7, 5, -11),
        v(1000, -1, 13),
        vraw(1, 1, 1).add(v(1, 0, 0)),
    ];
    for a in vectors {
        let u = a.unit_vector();
        let sq = u.squared_length().raw;
        let diff = (sq - SCALE).abs();
        assert!(diff <= 4, "squared length of unit vector off by {diff} raw units");
        let len = u.length().raw;
        assert!((len - SCALE).abs() <= 4, "length of unit vector off by {} raw units", len - SCALE);
    }
}

#[test]
fn unit_vector_of_a_tiny_vector_misses_the_tolerance() {
    // Real length about 2^-16: its truncated squared length is a single
    // raw unit, far too coarse to normalize to within 1e-9.  This is why
    // the normalization accuracy guarantee asks for a real length of at
    // least one.
    let v = vraw(65537, 0, 0);
    let u = v.unit_vector();
    assert_eq!(u.x().raw, SCALE + 65536);
    assert_eq!(u.length().raw, SCALE + 65536);
}

#[test]
fn unit_vector_of_axis_is_exact() {
    assert_eq!(v(0, 0, -9).unit_vector(), v(0, 0, -1));
    assert_eq!(v(5, 0, 0).unit_vector(), v(1, 0, 0));
}

#[test]
fn reflect_is_a_mirror() {
    // v - 2 dot(v, n) n about the y axis flips the y component.
    assert_eq!(v(1, 2, 3).reflect(v(0, 1, 0)), v(1, -2, 3));
    assert_eq!(v(0, -1, 0).reflect(v(0, 1, 0)), v(0, 1, 0));
}

#[test]
fn reflect_twice_is_identity() {
    // The double-reflection identity, exercised on exactly representable
    // axis normals, where reflection is exact.
    let normals = [v(1, 0, 0), v(0, -1, 0), v(0, 0, 1)];
    let vectors = [v(1, 2, 3), vraw(12345, -999, 777), vraw(-1, 1, -1), v(-7, 0, 2)];
    for n in normals {
        for a in vectors {
            assert_eq!(a.reflect(n).reflect(n), a);
        }
    }
}

#[test]
fn refract_bends_a_straight_ray_straight() {
    // Head-on through a flat interface: the direction is unchanged.
    let r = v(0, 0, -1).refract(v(0, 0, 1), Scalar::new(SCALE / 2));
    assert_eq!(r, Some(v(0, 0, -1)));
}

#[test]
fn refract_reports_total_internal_reflection() {
    // dt == 0 and ni_over_nt == 2: ni^2 (1 - dt^2) == 4 > 1, so there is
    // no refracted ray.
    let r = v(1, 0, 0).refract(v(0, 0, 1), Scalar::from_int(2));
    assert_eq!(r, None);
}

#[test]
fn random_in_unit_sphere_is_inside() {
    for _ in 0..200 {
        let p = Vec3::random_in_unit_sphere();
        assert!(p.squared_length().raw < SCALE);
        assert!(p.x().raw.abs() <= SCALE);
        assert!(p.y().raw.abs() <= SCALE);
        assert!(p.z().raw.abs() <= SCALE);
    }
}
