//! Sphere geometry and the ray-sphere intersection test.
//!
//! The quadratic `a t^2 + 2 b t + c = 0` with `a = dot(dir, dir)`,
//! `b = dot(oc, dir)` and `c = dot(oc, oc) - radius^2` decides the
//! intersection.  Its discriminant `b^2 - a c` is formed at double scale
//! (`2^-64` units) from the raw values, so its square root is already a
//! scalar at ordinary scale; the roots `(-b -+ sqrt) / a` are then taken in
//! order, and the first one strictly inside `(t_min, t_max)` wins.

use vstd::prelude::*;

use crate::fixed::SCALE;
use crate::fixed::Scalar;
use crate::fixed::iabs;
use crate::fixed::is_sqrt;
use crate::fixed::isqrt_u128;
use crate::fixed::lemma_clip_mag;
use crate::fixed::lemma_mul_mag;
use crate::fixed::lemma_smul_mag;
use crate::fixed::lemma_sqrt_unique;
use crate::fixed::sc;
use crate::fixed::smul;
use crate::fixed::sqrt_floor;
use crate::fixed::ssub;
use crate::fixed::tdiv;
use crate::hitable::HitRecord;
use crate::hitable::Hitable;
use crate::material::Material;
use crate::ray::Ray;
use crate::ray::ray_at;
use crate::vec3::Vec3;
use crate::vec3::lemma_vdot_mag;
use crate::vec3::vbounded;
use crate::vec3::vdivs;
use crate::vec3::vdot;
use crate::vec3::vsub;

verus! {

/// Half-extent of the modelled world: positions, directions and radii are
/// kept within `1024` units so that the intersection arithmetic cannot
/// overflow its 128-bit intermediates.
pub const CBOUND: i64 = 1024 * SCALE;

/// A sphere.  A negative radius leaves the surface unchanged (the radius
/// only enters the quadratic squared) but flips the normal inward, which
/// models a hollow shell.
#[derive(Clone, Copy, Debug, PartialEq, Eq, Structural)]
pub struct Sphere {
    pub center: Vec3,
    pub radius: Scalar,
    pub material: Material,
}

/// The sphere lies in the modelled world, has a nonzero radius, and a
/// well-formed material.
pub open spec fn sphere_ok(s: Sphere) -> bool {
    &&& vbounded(s.center, CBOUND as int)
    &&& iabs(s.radius.raw as int) <= CBOUND as int
    &&& s.radius.raw != 0
    &&& s.material.wf()
}

/// The ray lies in the modelled world.
pub open spec fn ray_ok(r: Ray) -> bool {
    vbounded(r.a, CBOUND as int) && vbounded(r.b, CBOUND as int)
}

/// The discriminant `b^2 - a c` of the intersection quadratic, formed from
/// the raw values, so at double scale (`2^-64` units).
pub open spec fn sphere_disc2(s: Sphere, ray: Ray) -> int {
    let oc = vsub(ray.a, s.center);
    let a = vdot(ray.b, ray.b).raw as int;
    let b = vdot(oc, ray.b).raw as int;
    let c = ssub(vdot(oc, oc), smul(s.radius, s.radius)).raw as int;
    b * b - a * c
}

/// The hit record at parameter `t`: the point along the ray and the normal
/// `(p - center) / radius`, whose direction follows the sign of the radius.
pub open spec fn sphere_hit_rec(s: Sphere, ray: Ray, t: Scalar) -> HitRecord {
    let p = ray_at(ray, t);
    HitRecord { t, p, normal: vdivs(vsub(p, s.center), s.radius), material: s.material }
}

/// What the intersection test returns.  Rays whose direction is too short
/// to measure (`a == 0`) and non-positive discriminants miss; otherwise the
/// smaller root is tried first and the first root strictly inside
/// `(t_min, t_max)` is the hit.
pub open spec fn sphere_hit_spec(s: Sphere, ray: Ray, t_min: Scalar, t_max: Scalar) -> Option<
    HitRecord,
> {
    let oc = vsub(ray.a, s.center);
    let a = vdot(ray.b, ray.b).raw as int;
    let b = vdot(oc, ray.b).raw as int;
    let d2 = sphere_disc2(s, ray);
    if a == 0 {
        None
    } else if d2 <= 0 {
        None
    } else {
        let sq = sqrt_floor(d2);
        let t1 = sc(tdiv((-b - sq) * SCALE, a));
        let t2 = sc(tdiv((-b + sq) * SCALE, a));
        if t_min.raw < t1.raw && t1.raw < t_max.raw {
            Some(sphere_hit_rec(s, ray, t1))
        } else if t_min.raw < t2.raw && t2.raw < t_max.raw {
            Some(sphere_hit_rec(s, ray, t2))
        } else {
            None
        }
    }
}

/// Whether one component lies within the modelled world.
fn comp_in_world(s: Scalar) -> (b: bool)
    ensures
        b == (iabs(s.raw as int) <= CBOUND as int),
{
    -CBOUND <= s.raw && s.raw <= CBOUND
}

/// Whether the ray lies within the modelled world; a scattered ray that
/// leaves it cannot be intersected without overflow and contributes
/// nothing further.
pub fn ray_in_world(r: &Ray) -> (b: bool)
    ensures
        b == ray_ok(*r),
{
    comp_in_world(r.a.x) && comp_in_world(r.a.y) && comp_in_world(r.a.z) && comp_in_world(r.b.x)
        && comp_in_world(r.b.y) && comp_in_world(r.b.z)
}

impl Sphere {
    /// The sphere with the given centre, radius and material.
    pub fn new(center: Vec3, radius: Scalar, material: Material) -> (r: Sphere)
        ensures
            r == (Sphere { center, radius, material }),
    {
        Sphere { center, radius, material }
    }
}

impl Hitable for Sphere {
    open spec fn hit_wf(&self) -> bool {
        sphere_ok(*self)
    }

    open spec fn hit_spec(&self, r: Ray, t_min: Scalar, t_max: Scalar) -> Option<HitRecord> {
        sphere_hit_spec(*self, r, t_min, t_max)
    }

    /// The nearest intersection of the ray with this sphere strictly inside
    /// `(t_min, t_max)`, or `None`.
    fn hit(&self, r: &Ray, t_min: Scalar, t_max: Scalar) -> (res: Option<HitRecord>) {
        let oc = r.origin().sub(self.center);
        let a = Vec3::dot(r.direction(), r.direction());
        let b = Vec3::dot(oc, r.direction());
        let c = Vec3::dot(oc, oc).sub(self.radius.mul(self.radius));
        proof {
            lemma_clip_mag(r.a.x.raw - self.center.x.raw);
            lemma_clip_mag(r.a.y.raw - self.center.y.raw);
            lemma_clip_mag(r.a.z.raw - self.center.z.raw);
            assert(vbounded(vsub(r.a, self.center), 8796093022208));
            lemma_vdot_mag(r.b, r.b, 4398046511104, 4398046511104);
            lemma_vdot_mag(vsub(r.a, self.center), r.b, 8796093022208, 4398046511104);
            lemma_vdot_mag(vsub(r.a, self.center), vsub(r.a, self.center), 8796093022208,
                8796093022208);
            lemma_smul_mag(self.radius, self.radius, 4398046511104, 4398046511104);
            lemma_clip_mag(
                vdot(vsub(r.a, self.center), vsub(r.a, self.center)).raw - smul(
                    self.radius,
                    self.radius,
                ).raw,
            );
            assert(iabs(a.raw as int) <= 13510798882111488);
            assert(iabs(b.raw as int) <= 27021597764222976);
            assert(iabs(c.raw as int) <= 58546795155816448);
            lemma_mul_mag(b.raw as int, b.raw as int, 27021597764222976, 27021597764222976);
            lemma_mul_mag(a.raw as int, c.raw as int, 13510798882111488, 58546795155816448);
        }
        if a.raw == 0 {
            return None;
        }
        let bb: i128 = (b.raw as i128) * (b.raw as i128);
        let ac: i128 = (a.raw as i128) * (c.raw as i128);
        let disc2: i128 = bb - ac;
        proof {
            assert(iabs(disc2 as int) <= 2596148429267413814265248164610048);
        }
        if disc2 > 0 {
            let squ: u64 = isqrt_u128(disc2 as u128);
            proof {
                assert(is_sqrt(disc2 as int, squ as int));
                assert(is_sqrt(sphere_disc2(*self, *r), sqrt_floor(sphere_disc2(*self, *r)))) by {
                    assert(is_sqrt(disc2 as int, squ as int));
                }
                lemma_sqrt_unique(sphere_disc2(*self, *r), squ as int, sqrt_floor(
                    sphere_disc2(*self, *r),
                ));
                assert(squ as int <= 72057594037927936) by (nonlinear_arith)
                    requires
                        (squ as int) * (squ as int) <= disc2 as int,
                        disc2 as int <= 2596148429267413814265248164610048,
                        squ as int >= 0,
                ;
            }
            let sqi: i64 = squ as i64;
            let nb: i64 = -b.raw;
            let temp1: Scalar = Scalar { raw: nb - sqi }.div(a);
            if t_min.raw < temp1.raw && temp1.raw < t_max.raw {
                let p = r.point_at_parameter(temp1);
                let normal = p.sub(self.center).div(self.radius);
                return Some(HitRecord::new(temp1, p, normal, self.material));
            }
            let temp2: Scalar = Scalar { raw: nb + sqi }.div(a);
            if t_min.raw < temp2.raw && temp2.raw < t_max.raw {
                let p = r.point_at_parameter(temp2);
                let normal = p.sub(self.center).div(self.radius);
                return Some(HitRecord::new(temp2, p, normal, self.material));
            }
            return None;
        }
        None
    }
}

} // verus!
