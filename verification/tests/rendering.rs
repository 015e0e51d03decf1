use raytracing_in_one_weekend::Camera;
use raytracing_in_one_weekend::Dielectric;
use raytracing_in_one_weekend::HitableVec;
use raytracing_in_one_weekend::Lambertian;
use raytracing_in_one_weekend::Material;
use raytracing_in_one_weekend::Ray;
use raytracing_in_one_weekend::Scalar;
use raytracing_in_one_weekend::SCALE;
use raytracing_in_one_weekend::Sphere;
use raytracing_in_one_weekend::Vec3;
use raytracing_in_one_weekend::color;

fn v(x: i64, y: i64, z: i64) -> Vec3 {
    Vec3::new(Scalar::from_int(x), Scalar::from_int(y), Scalar::from_int(z))
}

#[test]
fn missing_ray_sees_the_exact_background_gradient() {
    // A single big Lambertian sphere far below, a ray that misses it
    // entirely: the result must be the exact gradient for direction
    // (0,0,-1), whose unit vector has y == 0, so t == 1/2 and the colour
    // is the midpoint of white and the sky blue.
    let half = Scalar::new(SCALE / 2);
    let world = HitableVec::new(vec![Sphere::new(
        v(0, -200, 0),
        Scalar::from_int(100),
        Material::Lambertian(Lambertian::new(Vec3::new(half, half, half))),
    )]);
    let r = Ray::new(v(0, 0, 0), v(0, 0, -1));
    let c = color(&r, &world, 0);
    assert_eq!(c.x().raw, 3221225472); // 0.75
    assert_eq!(c.y().raw, 3650722201); // 0.5 + 0.7 / 2, rounded down
    assert_eq!(c.z().raw, SCALE); // 1.0
}

#[test]
fn upward_ray_sees_the_sky_colour_exactly() {
    let world = HitableVec::new(vec![]);
    let r = Ray::new(v(0, 0, 0), v(0, 1, 0));
    let c = color(&r, &world, 0);
    // unit y == 1, t == 1: pure sky blue.
    assert_eq!(c.x().raw, SCALE / 2);
    assert_eq!(c.y().raw, 3006477107);
    assert_eq!(c.z().raw, SCALE);
}

#[test]
fn zero_direction_is_rejected_as_black() {
    let world = HitableVec::new(vec![]);
    let r = Ray::new(v(0, 0, 0), v(0, 0, 0));
    assert_eq!(color(&r, &world, 0), v(0, 0, 0));
}

#[test]
fn exhausted_depth_returns_black() {
    // A ray that hits geometry with the bounce budget already spent
    // contributes black, exactly.
    let world = HitableVec::new(vec![Sphere::new(
        v(0, 0, -1),
        Scalar::new(SCALE / 2),
        Material::Dielectric(Dielectric::new(Scalar::new(SCALE + SCALE / 2))),
    )]);
    let r = Ray::new(v(0, 0, 0), v(0, 0, -1));
    assert_eq!(color(&r, &world, 50), v(0, 0, 0));
    assert_eq!(color(&r, &world, 51), v(0, 0, 0));
}

#[test]
fn hollow_glass_shell_terminates_within_the_depth_budget() {
    // A dielectric sphere nested inside an identical one of negative
    // radius: rays caught bouncing internally must still terminate, and
    // every sampled radiance stays a sensible colour.
    let glass = Material::Dielectric(Dielectric::new(Scalar::new(SCALE + SCALE / 2)));
    let world = HitableVec::new(vec![
        Sphere::new(v(-1, 0, -1), Scalar::new(SCALE / 2), glass),
        Sphere::new(v(-1, 0, -1), Scalar::new(-(45 * (SCALE / 100))), glass),
    ]);
    for i in 0..50i64 {
        let dir = Vec3::new(
            Scalar::new(-SCALE + i * 1000000),
            Scalar::new((i - 25) * 400000),
            Scalar::new(-SCALE - i * 1000000),
        );
        let r = Ray::new(v(0, 0, 0), dir);
        let c = color(&r, &world, 0);
        for comp in [c.x().raw, c.y().raw, c.z().raw] {
            assert!(comp >= 0, "radiance went negative: {comp}");
            assert!(comp <= SCALE + 16, "radiance overshot white: {comp}");
        }
    }
}

#[test]
fn camera_with_closed_aperture_shoots_exact_rays() {
    // A 90-degree camera (tangent of half the field of view == 1) with
    // aspect 2, no aperture, focus distance 1, looking down -z: the centre
    // ray leaves the origin straight along -z.
    let cam = Camera::new(
        v(0, 0, 0),
        v(0, 0, -1),
        v(0, 1, 0),
        Scalar::from_int(1),
        Scalar::from_int(2),
        Scalar::new(0),
        Scalar::from_int(1),
    );
    assert_eq!(cam.origin, v(0, 0, 0));
    assert_eq!(cam.u, v(1, 0, 0));
    assert_eq!(cam.v, v(0, 1, 0));
    assert_eq!(cam.w, v(0, 0, 1));
    assert_eq!(cam.lens_radius.raw, 0);
    assert_eq!(cam.lower_left_corner, v(-2, -1, -1));
    assert_eq!(cam.horizontal, v(4, 0, 0));
    assert_eq!(cam.vertical, v(0, 2, 0));
    let half = Scalar::new(SCALE / 2);
    let r = cam.get_ray(half, half);
    assert_eq!(r.origin(), v(0, 0, 0));
    assert_eq!(r.direction(), v(0, 0, -1));
    // The corner ray points at the lower-left of the image plane.
    let r2 = cam.get_ray(Scalar::new(0), Scalar::new(0));
    assert_eq!(r2.direction(), v(-2, -1, -1));
}

#[test]
fn open_aperture_offsets_stay_on_the_lens() {
    let cam = Camera::new(
        v(0, 0, 0),
        v(0, 0, -1),
        v(0, 1, 0),
        Scalar::from_int(1),
        Scalar::from_int(2),
        Scalar::from_int(2),
        Scalar::from_int(1),
    );
    assert_eq!(cam.lens_radius.raw, SCALE);
    let half = Scalar::new(SCALE / 2);
    for _ in 0..50 {
        let r = cam.get_ray(half, half);
        // The origin moved at most one lens radius off the eye in the
        // u-v plane, and the ray still targets the focal point.
        let off = r.origin();
        assert!(off.z().raw == 0);
        assert!(off.squared_length().raw < SCALE);
        assert_eq!(r.direction(), v(0, 0, -1).sub(off));
    }
}

#[test]
fn render_a_tiny_image_deterministically_bounded() {
    // A miniature end-to-end render: every pixel of a 4x2 image of the
    // book's three-sphere scene yields radiance components in range.
    let half = Scalar::new(SCALE / 2);
    let world = HitableVec::new(vec![
        Sphere::new(
            v(0, 0, -1),
            half,
            Material::Lambertian(Lambertian::new(Vec3::new(
                Scalar::new(SCALE / 10),
                Scalar::new(SCALE / 5),
                half,
            ))),
        ),
        Sphere::new(
            Vec3::new(Scalar::new(0), Scalar::new(-100 * SCALE - SCALE / 2), Scalar::new(-SCALE)),
            Scalar::from_int(100),
            Material::Lambertian(Lambertian::new(Vec3::new(
                Scalar::new(4 * (SCALE / 5)),
                Scalar::new(4 * (SCALE / 5)),
                Scalar::new(0),
            ))),
        ),
        Sphere::new(v(-1, 0, -1), half, Material::Dielectric(Dielectric::new(Scalar::new(SCALE + SCALE / 2)))),
    ]);
    let cam = Camera::new(
        v(0, 0, 0),
        v(0, 0, -1),
        v(0, 1, 0),
        Scalar::from_int(1),
        Scalar::from_int(2),
        Scalar::new(0),
        Scalar::from_int(1),
    );
    for j in 0..2i64 {
        for i in 0..4i64 {
            let s = Scalar::new(i * (SCALE / 4));
            let t = Scalar::new(j * (SCALE / 2));
            let r = cam.get_ray(s, t);
            let c = color(&r, &world, 0);
            for comp in [c.x().raw, c.y().raw, c.z().raw] {
                assert!(comp >= 0);
                assert!(comp <= SCALE + 16);
            }
        }
    }
}
