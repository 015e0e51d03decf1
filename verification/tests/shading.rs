use raytracing_in_one_weekend::Dielectric;
use raytracing_in_one_weekend::HitRecord;
use raytracing_in_one_weekend::Lambertian;
use raytracing_in_one_weekend::Material;
use raytracing_in_one_weekend::Metal;
use raytracing_in_one_weekend::Ray;
use raytracing_in_one_weekend::Scalar;
use raytracing_in_one_weekend::SCALE;
use raytracing_in_one_weekend::Vec3;
use raytracing_in_one_weekend::material::schlick;

fn v(x: i64, y: i64, z: i64) -> Vec3 {
    Vec3::new(Scalar::from_int(x), Scalar::from_int(y), Scalar::from_int(z))
}

fn vraw(x: i64, y: i64, z: i64) -> Vec3 {
    Vec3::new(Scalar::new(x), Scalar::new(y), Scalar::new(z))
}

fn rec_at_origin(normal: Vec3, material: Material) -> HitRecord {
    HitRecord::new(Scalar::from_int(1), v(0, 0, 0), normal, material)
}

#[test]
fn metal_new_clamps_fuzz() {
    let albedo = v(1, 1, 1);
    assert_eq!(Metal::new(albedo, Scalar::from_int(7)).fuzz.raw, SCALE);
    assert_eq!(Metal::new(albedo, Scalar::from_int(-7)).fuzz.raw, 0);
    assert_eq!(Metal::new(albedo, Scalar::new(SCALE / 4)).fuzz.raw, SCALE / 4);
}

#[test]
fn metal_with_zero_fuzz_is_an_exact_mirror() {
    // Incoming (0,-1,0) onto normal (0,1,0) must leave exactly as (0,1,0).
    let m = Material::Metal(Metal::new(v(1, 0, 0), Scalar::new(0)));
    let ray_in = Ray::new(v(0, 1, 0), v(0, -1, 0));
    let rec = rec_at_origin(v(0, 1, 0), m);
    let rv = vraw(SCALE / 4, -SCALE / 4, SCALE / 8);
    let sc = m
        .scatter_with(&ray_in, &rec, rv, Scalar::new(0))
        .expect("a zero-fuzz mirror bounce points away from the surface");
    assert_eq!(sc.scattered.direction(), v(0, 1, 0));
    assert_eq!(sc.scattered.origin(), v(0, 0, 0));
    assert_eq!(sc.attenuation, v(1, 0, 0));
}

#[test]
fn metal_absorbs_grazing_bounces_pushed_into_the_surface() {
    // The reflection of a direction parallel to the surface stays parallel;
    // full fuzz can push it inside, and the ray is absorbed.
    let m = Material::Metal(Metal::new(v(1, 1, 1), Scalar::new(SCALE)));
    let ray_in = Ray::new(v(-1, 0, 0), v(1, 0, 0));
    let rec = rec_at_origin(v(0, 1, 0), m);
    let rv = vraw(0, -SCALE / 2, 0);
    assert_eq!(m.scatter_with(&ray_in, &rec, rv, Scalar::new(0)), None);
}

#[test]
fn lambertian_always_scatters_toward_the_target() {
    let albedo = vraw(SCALE / 2, SCALE / 4, SCALE / 8);
    let m = Material::Lambertian(Lambertian::new(albedo));
    let ray_in = Ray::new(v(0, 1, 0), v(0, -1, 0));
    let rec = rec_at_origin(v(0, 1, 0), m);
    let rv = vraw(SCALE / 4, SCALE / 4, -SCALE / 4);
    let sc = m
        .scatter_with(&ray_in, &rec, rv, Scalar::new(0))
        .expect("a diffuse surface never absorbs");
    assert_eq!(sc.attenuation, albedo);
    // target - p == normal + rv
    assert_eq!(sc.scattered.direction(), vraw(SCALE / 4, SCALE + SCALE / 4, -SCALE / 4));
    assert_eq!(sc.scattered.origin(), v(0, 0, 0));
}

#[test]
fn schlick_at_normal_incidence_is_r0_exactly() {
    // cosine == 1 kills the grazing term: the result is r0 itself, here
    // ((1 - 1.5) / (1 + 1.5))^2 == 0.04 on the fixed-point grid.
    let one = Scalar::new(SCALE);
    let ref_idx = Scalar::new(SCALE + SCALE / 2);
    let q = one.sub(ref_idx).div(one.add(ref_idx));
    let r0 = q.mul(q);
    let s = schlick(one, ref_idx);
    assert_eq!(s.raw, r0.raw);
    assert_eq!(s.raw, 171798691);
}

#[test]
fn schlick_grows_toward_grazing_incidence() {
    let ref_idx = Scalar::new(SCALE + SCALE / 2);
    let normal = schlick(Scalar::new(SCALE), ref_idx);
    let grazing = schlick(Scalar::new(0), ref_idx);
    assert!(grazing.raw > normal.raw);
    // At cosine == 0 the term (1 - cos)^5 is exactly 1: the reflectance
    // reaches r0 + (1 - r0) == 1.
    assert_eq!(grazing.raw, SCALE);
}

#[test]
fn dielectric_never_absorbs_and_never_tints() {
    let d = Material::Dielectric(Dielectric::new(Scalar::new(SCALE + SCALE / 2)));
    let ray_in = Ray::new(v(0, 1, 0), v(0, -1, 0));
    let rec = rec_at_origin(v(0, 1, 0), d);
    for rnd in [0i64, SCALE / 2, SCALE - 1] {
        let sc = d
            .scatter_with(&ray_in, &rec, v(0, 0, 0), Scalar::new(rnd))
            .expect("a dielectric always scatters");
        assert_eq!(sc.attenuation, v(1, 1, 1));
    }
}

#[test]
fn dielectric_refracts_head_on_and_reflects_under_total_internal_reflection() {
    let d = Material::Dielectric(Dielectric::new(Scalar::new(SCALE + SCALE / 2)));
    // Entering head on: refraction is geometrically valid and the draw
    // 1 - 2^-32 clears any reflectance below one, so the ray refracts
    // straight through.
    let ray_in = Ray::new(v(0, 1, 0), v(0, -1, 0));
    let rec = rec_at_origin(v(0, 1, 0), d);
    let sc = d
        .scatter_with(&ray_in, &rec, v(0, 0, 0), Scalar::new(SCALE - 1))
        .expect("a dielectric always scatters");
    assert_eq!(sc.scattered.direction(), v(0, -1, 0));
    // Leaving the glass at a grazing angle (`dot(dir, normal) > 0`):
    // total internal reflection forces the mirror bounce whatever the draw.
    let graze = Ray::new(v(-1, 1, 0), vraw(4 * SCALE, SCALE, 0));
    let rec2 = rec_at_origin(v(0, 1, 0), d);
    let sc2 = d
        .scatter_with(&graze, &rec2, v(0, 0, 0), Scalar::new(SCALE - 1))
        .expect("a dielectric always scatters");
    let mirrored = graze.direction().reflect(v(0, 1, 0));
    assert_eq!(sc2.scattered.direction(), mirrored);
}

#[test]
fn material_scatter_draws_its_own_samples() {
    let m = Material::Lambertian(Lambertian::new(v(1, 1, 1)));
    let ray_in = Ray::new(v(0, 1, 0), v(0, -1, 0));
    let rec = rec_at_origin(v(0, 1, 0), m);
    for _ in 0..50 {
        let sc = m.scatter(&ray_in, &rec).expect("a diffuse surface never absorbs");
        // The bounce target lies within one unit of the normal's tip.
        let d = sc.scattered.direction().sub(v(0, 1, 0));
        assert!(d.squared_length().raw < SCALE);
    }
}
