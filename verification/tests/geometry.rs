use raytracing_in_one_weekend::Hitable;
use raytracing_in_one_weekend::HitableVec;
use raytracing_in_one_weekend::Lambertian;
use raytracing_in_one_weekend::Material;
use raytracing_in_one_weekend::Ray;
use raytracing_in_one_weekend::Scalar;
use raytracing_in_one_weekend::SCALE;
use raytracing_in_one_weekend::Sphere;
use raytracing_in_one_weekend::Vec3;

fn v(x: i64, y: i64, z: i64) -> Vec3 {
    Vec3::new(Scalar::from_int(x), Scalar::from_int(y), Scalar::from_int(z))
}

fn grey() -> Material {
    let half = Scalar::new(SCALE / 2);
    Material::Lambertian(Lambertian::new(Vec3::new(half, half, half)))
}

fn big() -> Scalar {
    Scalar::new(9223372036854775807)
}

#[test]
fn ray_points_along_its_direction() {
    let r = Ray::new(v(1, 0, 0), v(0, 2, 0));
    assert_eq!(r.origin(), v(1, 0, 0));
    assert_eq!(r.direction(), v(0, 2, 0));
    assert_eq!(r.point_at_parameter(Scalar::from_int(3)), v(1, 6, 0));
    assert_eq!(r.point_at_parameter(Scalar::from_int(-1)), v(1, -2, 0));
}

#[test]
fn head_on_hit_at_half() {
    // Sphere at (0,0,-1) radius 0.5, ray from the origin toward it:
    // first root exactly t == 0.5, normal (0,0,1).
    let s = Sphere::new(v(0, 0, -1), Scalar::new(SCALE / 2), grey());
    let r = Ray::new(v(0, 0, 0), v(0, 0, -1));
    let rec = s.hit(&r, Scalar::new(0), big()).expect("the ray aims at the sphere");
    assert_eq!(rec.t.raw, SCALE / 2);
    assert_eq!(rec.p, Vec3::new(Scalar::new(0), Scalar::new(0), Scalar::new(-SCALE / 2)));
    assert_eq!(rec.normal, v(0, 0, 1));
}

#[test]
fn tangent_ray_is_a_clean_miss() {
    // A ray grazing the sphere: the discriminant lands exactly on zero,
    // which reports no intersection rather than misbehaving.
    let s = Sphere::new(v(0, 0, -1), Scalar::new(SCALE / 2), grey());
    let r = Ray::new(
        Vec3::new(Scalar::new(0), Scalar::new(SCALE / 2), Scalar::new(0)),
        v(0, 0, -1),
    );
    assert_eq!(s.hit(&r, Scalar::new(0), big()), None);
}

#[test]
fn narrow_window_rejects_both_roots() {
    let s = Sphere::new(v(0, 0, -1), Scalar::new(SCALE / 2), grey());
    let r = Ray::new(v(0, 0, 0), v(0, 0, -1));
    // Roots are 0.5 and 1.5; a window below 0.5 sees nothing.
    assert_eq!(s.hit(&r, Scalar::new(0), Scalar::new(SCALE / 4)), None);
    // The window's bounds are strict: t == 0.5 itself is excluded.
    assert_eq!(s.hit(&r, Scalar::new(0), Scalar::new(SCALE / 2)), None);
}

#[test]
fn far_root_wins_when_near_root_is_excluded() {
    let s = Sphere::new(v(0, 0, -1), Scalar::new(SCALE / 2), grey());
    let r = Ray::new(v(0, 0, 0), v(0, 0, -1));
    let t_min = Scalar::new(3 * (SCALE / 4));
    let rec = s.hit(&r, t_min, big()).expect("the far root lies in the window");
    assert_eq!(rec.t.raw, 3 * (SCALE / 2));
    // Leaving through the back: the normal points back toward the ray.
    assert_eq!(rec.normal, v(0, 0, -1));
}

#[test]
fn zero_direction_hits_nothing() {
    let s = Sphere::new(v(0, 0, -1), Scalar::new(SCALE / 2), grey());
    let r = Ray::new(v(0, 0, 0), v(0, 0, 0));
    assert_eq!(s.hit(&r, Scalar::new(0), big()), None);
}

#[test]
fn negative_radius_flips_the_normal() {
    // The radius only enters the quadratic squared, so the hit parameter
    // is unchanged; the normal direction follows the radius sign.
    let s = Sphere::new(v(0, 0, -1), Scalar::new(-SCALE / 2), grey());
    let r = Ray::new(v(0, 0, 0), v(0, 0, -1));
    let rec = s.hit(&r, Scalar::new(0), big()).expect("geometry is unchanged");
    assert_eq!(rec.t.raw, SCALE / 2);
    assert_eq!(rec.normal, v(0, 0, -1));
}

#[test]
fn nearest_sphere_wins_in_either_order() {
    let near = Sphere::new(v(0, 0, -2), Scalar::new(SCALE / 2), grey());
    let far = Sphere::new(v(0, 0, -5), Scalar::new(SCALE / 2), grey());
    let r = Ray::new(v(0, 0, 0), v(0, 0, -1));
    let a = HitableVec::new(vec![near, far]);
    let b = HitableVec::new(vec![far, near]);
    let rec_a = a.hit(&r, Scalar::new(0), big()).expect("the ray hits both spheres");
    let rec_b = b.hit(&r, Scalar::new(0), big()).expect("the ray hits both spheres");
    assert_eq!(rec_a.t.raw, 3 * (SCALE / 2));
    assert_eq!(rec_b.t.raw, 3 * (SCALE / 2));
}

#[test]
fn empty_scene_misses() {
    let w = HitableVec::new(vec![]);
    let r = Ray::new(v(0, 0, 0), v(0, 0, -1));
    assert_eq!(w.hit(&r, Scalar::new(0), big()), None);
}
