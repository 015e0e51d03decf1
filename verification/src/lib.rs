//! A small ray-tracing core, verified with Verus.
//!
//! The engine casts rays from a camera through a scene of spheres and
//! estimates the light arriving along each ray by following how it scatters
//! off diffuse, metallic and dielectric surfaces, up to a fixed bounce
//! budget.  All geometry and shading arithmetic is carried out in a
//! fixed-point representation of the reals (see [`fixed`]), so every
//! operation has an exact mathematical contract.

pub mod fixed;
pub mod hitable;
pub mod material;
pub mod ray;
pub mod rng;
pub mod sphere;
pub mod vec3;

pub mod camera;

pub use camera::Camera;
pub use fixed::Scalar;
pub use fixed::SCALE;
pub use hitable::HitRecord;
pub use hitable::Hitable;
pub use hitable::HitableVec;
pub use material::Dielectric;
pub use material::Lambertian;
pub use material::Material;
pub use material::Metal;
pub use material::Scatter;
pub use ray::Ray;
pub use sphere::Sphere;
pub use vec3::Vec3;

use vstd::prelude::*;

use crate::fixed::MAX_RAW;
use crate::fixed::iabs;
use crate::fixed::sadd;
use crate::fixed::smul;
use crate::fixed::ssub;
use crate::material::lemma_scatter_attenuation_ok;
use crate::material::sample_ok;
use crate::rng::random_unit_scalar;
use crate::sphere::ray_in_world;
use crate::sphere::ray_ok;
use crate::vec3::lemma_sqlen_nonneg;
use crate::vec3::lemma_unit_comp_bound;
use crate::vec3::vadd;
use crate::vec3::vbounded;
use crate::vec3::vcmul;
use crate::vec3::vscale;
use crate::vec3::vsqlen;
use crate::vec3::vunit;

verus! {

/// The lower intersection bound of the estimator, `0.001` on the
/// fixed-point grid: it keeps a bounced ray from immediately hitting the
/// surface it just left.
pub const T_MIN_RAW: i64 = 4294967;

/// The recursion bound of the estimator: a ray is followed through at most
/// this many bounces, then contributes black.
pub const MAX_DEPTH: i64 = 50;

/// Black, the colour of absorbed or depth-exhausted rays.
pub open spec fn black_spec() -> Vec3 {
    Vec3 { x: Scalar { raw: 0 }, y: Scalar { raw: 0 }, z: Scalar { raw: 0 } }
}

/// White.
pub open spec fn white_spec() -> Vec3 {
    Vec3 { x: Scalar { raw: SCALE }, y: Scalar { raw: SCALE }, z: Scalar { raw: SCALE } }
}

/// The sky colour `(0.5, 0.7, 1.0)` on the fixed-point grid.
pub open spec fn sky_spec() -> Vec3 {
    Vec3 { x: Scalar { raw: 2147483648 }, y: Scalar { raw: 3006477107 }, z: Scalar { raw: SCALE } }
}

/// The background gradient for a ray that escapes the scene: white blended
/// toward the sky colour by `t = (unit(direction).y + 1) / 2`.
pub open spec fn background_spec(ray: Ray) -> Vec3 {
    let one = Scalar { raw: SCALE };
    let half = Scalar { raw: 2147483648 };
    let t = smul(half, sadd(vunit(ray.b).y, one));
    vadd(vscale(white_spec(), ssub(one, t)), vscale(sky_spec(), t))
}

/// The radiance a scattering hit at `rec` can produce for the given random
/// samples: black when the material absorbs the ray or the scattered ray
/// leaves the modelled world, else the attenuation multiplied
/// component-wise into some possible radiance of the scattered ray.
pub open spec fn bounce_possible<T: Hitable>(
    world: T,
    ray: Ray,
    rec: HitRecord,
    rv: Vec3,
    rnd: Scalar,
    depth: i64,
    res: Vec3,
) -> bool
    decreases MAX_DEPTH - depth, 0int,
{
    if depth >= MAX_DEPTH {
        res == black_spec()
    } else {
        match rec.material.scatter_spec(ray, rec, rv, rnd) {
            None => res == black_spec(),
            Some(sc) => {
                if !ray_ok(sc.scattered) {
                    res == black_spec()
                } else {
                    exists|rest: Vec3|
                        radiance_possible(world, sc.scattered, (depth + 1) as i64, rest) && res
                            == #[trigger] vcmul(sc.attenuation, rest)
                }
            },
        }
    }
}

/// One radiance estimate the engine can return for the ray at the given
/// depth: exact black or background on the deterministic paths, and on a
/// hit within the bounce budget, the outcome of scattering under some
/// in-range random samples.
pub open spec fn radiance_possible<T: Hitable>(world: T, ray: Ray, depth: i64, res: Vec3) -> bool
    decreases MAX_DEPTH - depth, 1int,
{
    if vsqlen(ray.b).raw == 0 {
        res == black_spec()
    } else {
        match world.hit_spec(ray, Scalar { raw: T_MIN_RAW }, Scalar { raw: MAX_RAW }) {
            None => res == background_spec(ray),
            Some(rec) => {
                if depth >= MAX_DEPTH {
                    res == black_spec()
                } else {
                    exists|rv: Vec3, rnd: Scalar|
                        #[trigger] sample_ok(rv, rnd) && bounce_possible(
                            world,
                            ray,
                            rec,
                            rv,
                            rnd,
                            depth,
                            res,
                        )
                }
            },
        }
    }
}

/// A background blend channel is never negative for the sky colours: the
/// white share loses at most half a raw unit per raw unit of `t`, and the
/// sky share, whose channels are at least one half, restores it.
proof fn lemma_blend_nonneg(c: Scalar, t: Scalar)
    requires
        2147483648 <= c.raw <= 4294967296,
        -2147483649 <= t.raw <= 5368709121,
    ensures
        sadd(smul(Scalar { raw: SCALE }, ssub(Scalar { raw: SCALE }, t)), smul(c, t)).raw >= 0,
{
    let tv = t.raw as int;
    let w = ssub(Scalar { raw: SCALE }, t);
    assert(w.raw as int == 4294967296 - tv);
    crate::fixed::lemma_smul_pm_one(w, Scalar { raw: SCALE });
    let cv = c.raw as int;
    let p = cv * tv;
    crate::fixed::lemma_tdiv_parts(p, 4294967296);
    crate::fixed::lemma_div_bracket(iabs(p), 4294967296);
    let q = iabs(p) / 4294967296;
    if tv >= 0 {
        assert(p >= 2147483648 * tv && p <= 4294967296 * tv) by (nonlinear_arith)
            requires
                2147483648 <= cv <= 4294967296,
                tv >= 0,
                p == cv * tv,
        ;
        assert(iabs(p) == p);
        assert(2 * q >= tv - 1);
        assert(q <= tv);
        assert(smul(c, t).raw as int == q);
        assert(sadd(smul(Scalar { raw: SCALE }, w), smul(c, t)).raw >= 0);
    } else {
        assert(p >= 4294967296 * tv && p <= 2147483648 * tv) by (nonlinear_arith)
            requires
                2147483648 <= cv <= 4294967296,
                tv < 0,
                p == cv * tv,
        ;
        assert(iabs(p) == -p);
        assert(q <= -tv);
        assert(smul(c, t).raw as int == -q);
        assert(sadd(smul(Scalar { raw: SCALE }, w), smul(c, t)).raw >= 0);
    }
}

/// The background gradient never has a negative channel: the unit
/// direction's vertical component stays within one and a half, so the
/// blend factor stays within the range the sky colours tolerate.
pub proof fn lemma_background_nonneg(ray: Ray)
    requires
        vbounded(ray.b, 4398046511104),
        vsqlen(ray.b).raw >= 1,
    ensures
        0 <= background_spec(ray).x.raw,
        0 <= background_spec(ray).y.raw,
        0 <= background_spec(ray).z.raw,
{
    lemma_unit_comp_bound(ray.b);
    let one = Scalar { raw: SCALE };
    let half = Scalar { raw: 2147483648 };
    let arg = sadd(vunit(ray.b).y, one);
    assert(-2147483648 <= arg.raw <= 10737418240);
    let t = smul(half, arg);
    let p = 2147483648 * (arg.raw as int);
    crate::fixed::lemma_tdiv_parts(p, 4294967296);
    crate::fixed::lemma_mul_mag(2147483648, arg.raw as int, 2147483648, iabs(arg.raw as int));
    crate::fixed::lemma_div_bracket(iabs(p), 4294967296);
    assert(-2147483649 <= t.raw <= 5368709121);
    lemma_blend_nonneg(half, t);
    lemma_blend_nonneg(Scalar { raw: 3006477107 }, t);
    lemma_blend_nonneg(one, t);
}

/// The radiance arriving along a ray: chase it through the scene, and at
/// each hit multiply in the material's attenuation and follow the
/// scattered ray, until the ray escapes (background gradient), is absorbed
/// or leaves the modelled world (black), or the bounce budget runs out
/// (black).  Directions too short to measure on the fixed-point grid are
/// rejected as black rather than normalized.
pub fn color<T: Hitable>(ray: &Ray, world: &T, depth: i64) -> (res: Vec3)
    requires
        world.hit_wf(),
        ray_ok(*ray),
    ensures
        vsqlen(ray.b).raw == 0 ==> res == black_spec(),
        (vsqlen(ray.b).raw != 0 && world.hit_spec(
            *ray,
            Scalar { raw: T_MIN_RAW },
            Scalar { raw: MAX_RAW },
        ) is None) ==> res == background_spec(*ray),
        (world.hit_spec(*ray, Scalar { raw: T_MIN_RAW }, Scalar { raw: MAX_RAW }) is Some && depth
            >= MAX_DEPTH) ==> res == black_spec(),
        radiance_possible(*world, *ray, depth, res),
        0 <= res.x.raw && 0 <= res.y.raw && 0 <= res.z.raw,
    decreases MAX_DEPTH - depth,
{
    let sq = ray.direction().squared_length();
    proof {
        lemma_sqlen_nonneg(ray.b);
    }
    if sq.raw == 0 {
        return Vec3::new(Scalar { raw: 0 }, Scalar { raw: 0 }, Scalar { raw: 0 });
    }
    let t_min = Scalar { raw: T_MIN_RAW };
    let t_max = Scalar { raw: MAX_RAW };
    match world.hit(ray, t_min, t_max) {
        Some(rec) => {
            if depth < MAX_DEPTH {
                let rv = Vec3::random_in_unit_sphere();
                let rnd = random_unit_scalar();
                match rec.material.scatter_with(ray, &rec, rv, rnd) {
                    Some(sc) => {
                        proof {
                            lemma_scatter_attenuation_ok(rec.material, *ray, rec, rv, rnd);
                        }
                        if ray_in_world(&sc.scattered) {
                            let rest = color(&sc.scattered, world, depth + 1);
                            let res = sc.attenuation.cmul(rest);
                            proof {
                                crate::fixed::lemma_smul_nonneg(sc.attenuation.x, rest.x);
                                crate::fixed::lemma_smul_nonneg(sc.attenuation.y, rest.y);
                                crate::fixed::lemma_smul_nonneg(sc.attenuation.z, rest.z);
                                assert(bounce_possible(*world, *ray, rec, rv, rnd, depth, res)) by {
                                    assert(radiance_possible(
                                        *world,
                                        sc.scattered,
                                        (depth + 1) as i64,
                                        rest,
                                    ) && res == vcmul(sc.attenuation, rest));
                                }
                                assert(radiance_possible(*world, *ray, depth, res)) by {
                                    assert(sample_ok(rv, rnd) && bounce_possible(
                                        *world,
                                        *ray,
                                        rec,
                                        rv,
                                        rnd,
                                        depth,
                                        res,
                                    ));
                                }
                            }
                            return res;
                        }
                        proof {
                            assert(radiance_possible(*world, *ray, depth, black_spec())) by {
                                assert(sample_ok(rv, rnd) && bounce_possible(
                                    *world,
                                    *ray,
                                    rec,
                                    rv,
                                    rnd,
                                    depth,
                                    black_spec(),
                                ));
                            }
                        }
                        return Vec3::new(Scalar { raw: 0 }, Scalar { raw: 0 }, Scalar { raw: 0 });
                    },
                    None => {
                        proof {
                            assert(radiance_possible(*world, *ray, depth, black_spec())) by {
                                assert(sample_ok(rv, rnd) && bounce_possible(
                                    *world,
                                    *ray,
                                    rec,
                                    rv,
                                    rnd,
                                    depth,
                                    black_spec(),
                                ));
                            }
                        }
                        return Vec3::new(Scalar { raw: 0 }, Scalar { raw: 0 }, Scalar { raw: 0 });
                    },
                }
            }
            Vec3::new(Scalar { raw: 0 }, Scalar { raw: 0 }, Scalar { raw: 0 })
        },
        None => {
            let one = Scalar { raw: SCALE };
            let half = Scalar { raw: 2147483648 };
            let unit_direction = ray.direction().unit_vector();
            let t = half.mul(unit_direction.y().add(one));
            let white = Vec3::new(one, one, one);
            let sky = Vec3::new(half, Scalar { raw: 3006477107 }, one);
            proof {
                lemma_background_nonneg(*ray);
            }
            white.scale(one.sub(t)).add(sky.scale(t))
        },
    }
}

} // verus!
