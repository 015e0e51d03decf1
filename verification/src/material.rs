//! The scattering model: diffuse, metallic and dielectric surfaces.
//!
//! Scattering consumes randomness, so it comes in two layers.  The
//! deterministic core `scatter_with` takes the sampled values as arguments
//! and is specified exactly by `Material::scatter_spec`; the convenience
//! `scatter` draws the samples itself and promises only that its result is
//! `scatter_spec` of *some* in-range samples.

use vstd::prelude::*;

use crate::fixed::SCALE;
use crate::fixed::Scalar;
use crate::fixed::sadd;
use crate::fixed::sdiv;
use crate::fixed::smul;
use crate::fixed::sneg;
use crate::fixed::ssub;
use crate::hitable::HitRecord;
use crate::ray::Ray;
use crate::rng::random_unit_scalar;
use crate::vec3::Vec3;
use crate::vec3::lemma_sqlen_pos_gives_len_pos;
use crate::vec3::vadd;
use crate::vec3::vbounded;
use crate::vec3::vdot;
use crate::vec3::vlen;
use crate::vec3::vneg;
use crate::vec3::vreflect;
use crate::vec3::vrefract;
use crate::vec3::vscale;
use crate::vec3::vsqlen;
use crate::vec3::vsub;
use crate::vec3::vunit;

verus! {

/// A diffuse surface with the given base colour.
#[derive(Clone, Copy, Debug, PartialEq, Eq, Structural)]
pub struct Lambertian {
    pub albedo: Vec3,
}

/// A specular surface with the given base colour and fuzz in `[0, 1]`.
#[derive(Clone, Copy, Debug, PartialEq, Eq, Structural)]
pub struct Metal {
    pub albedo: Vec3,
    pub fuzz: Scalar,
}

/// A clear refractive surface with the given refractive index.
#[derive(Clone, Copy, Debug, PartialEq, Eq, Structural)]
pub struct Dielectric {
    pub ref_idx: Scalar,
}

/// The closed set of materials a surface can have.
#[derive(Clone, Copy, Debug, PartialEq, Eq, Structural)]
pub enum Material {
    Lambertian(Lambertian),
    Metal(Metal),
    Dielectric(Dielectric),
}

/// The outcome of a scattering event: the colour attenuation to apply and
/// the outgoing ray.
#[derive(Clone, Copy, Debug, PartialEq, Eq, Structural)]
pub struct Scatter {
    pub attenuation: Vec3,
    pub scattered: Ray,
}

/// A colour with every channel in `[0, 1]`, as albedos and attenuations
/// are.
pub open spec fn color_ok(c: Vec3) -> bool {
    &&& 0 <= c.x.raw <= SCALE
    &&& 0 <= c.y.raw <= SCALE
    &&& 0 <= c.z.raw <= SCALE
}

/// The samples handed to `scatter_with`: a point inside the unit sphere and
/// a scalar in `[0, 1)`.
pub open spec fn sample_ok(rv: Vec3, rnd: Scalar) -> bool {
    vsqlen(rv).raw < SCALE && vbounded(rv, SCALE as int) && 0 <= rnd.raw < SCALE
}

/// Diffuse scattering: bounce toward `p + normal + rv` and attenuate by the
/// albedo.  A diffuse surface never absorbs.
pub open spec fn lambertian_scatter_spec(l: Lambertian, rec: HitRecord, rv: Vec3) -> Scatter {
    let target = vadd(vadd(rec.p, rec.normal), rv);
    Scatter { attenuation: l.albedo, scattered: Ray { a: rec.p, b: vsub(target, rec.p) } }
}

/// The fuzzed specular bounce direction: the mirror reflection of the unit
/// incoming direction, perturbed by `fuzz * rv`.
pub open spec fn metal_dir_spec(m: Metal, ray_in: Ray, rec: HitRecord, rv: Vec3) -> Vec3 {
    vadd(vreflect(vunit(ray_in.b), rec.normal), vscale(rv, m.fuzz))
}

/// Specular scattering: reflect, fuzz, attenuate by the albedo; absorb when
/// the perturbed direction no longer points away from the surface.
pub open spec fn metal_scatter_spec(m: Metal, ray_in: Ray, rec: HitRecord, rv: Vec3) -> Option<
    Scatter,
> {
    let dir = metal_dir_spec(m, ray_in, rec, rv);
    if vdot(dir, rec.normal).raw > 0 {
        Some(Scatter { attenuation: m.albedo, scattered: Ray { a: rec.p, b: dir } })
    } else {
        None
    }
}

/// Schlick's approximation of the Fresnel reflectance:
/// `r0 + (1 - r0) * (1 - cosine)^5` with `r0 = ((1 - n) / (1 + n))^2`.
pub open spec fn schlick_s(cosine: Scalar, ref_idx: Scalar) -> Scalar {
    let one = Scalar { raw: SCALE };
    let q = sdiv(ssub(one, ref_idx), sadd(one, ref_idx));
    let r0 = smul(q, q);
    let omc = ssub(one, cosine);
    let p5 = smul(smul(smul(smul(omc, omc), omc), omc), omc);
    sadd(r0, smul(ssub(one, r0), p5))
}

/// `r0` alone: the reflectance Schlick's approximation gives at normal
/// incidence.
pub open spec fn schlick_r0(ref_idx: Scalar) -> Scalar {
    let one = Scalar { raw: SCALE };
    let q = sdiv(ssub(one, ref_idx), sadd(one, ref_idx));
    smul(q, q)
}

/// The outward-facing normal the dielectric refracts about: against the
/// surface normal when the ray leaves the medium (`dot > 0`).
pub open spec fn dielectric_outward_spec(ray_in: Ray, rec: HitRecord) -> Vec3 {
    if vdot(ray_in.b, rec.normal).raw > 0 {
        vneg(rec.normal)
    } else {
        rec.normal
    }
}

/// The refraction ratio: the index itself when leaving the medium, its
/// reciprocal when entering.
pub open spec fn dielectric_ratio_spec(d: Dielectric, ray_in: Ray, rec: HitRecord) -> Scalar {
    if vdot(ray_in.b, rec.normal).raw > 0 {
        d.ref_idx
    } else {
        sdiv(Scalar { raw: SCALE }, d.ref_idx)
    }
}

/// The cosine term fed to Schlick's approximation.
pub open spec fn dielectric_cosine_spec(d: Dielectric, ray_in: Ray, rec: HitRecord) -> Scalar {
    let dn = vdot(ray_in.b, rec.normal);
    if dn.raw > 0 {
        sdiv(smul(d.ref_idx, dn), vlen(ray_in.b))
    } else {
        sdiv(sneg(dn), vlen(ray_in.b))
    }
}

/// Dielectric scattering: refract when geometry allows it and the random
/// draw `rnd` clears the Fresnel reflectance, else reflect.  The surface is
/// clear, so the attenuation is always `(1, 1, 1)` and nothing is absorbed.
pub open spec fn dielectric_scatter_spec(
    d: Dielectric,
    ray_in: Ray,
    rec: HitRecord,
    rnd: Scalar,
) -> Scatter {
    let one = Scalar { raw: SCALE };
    let reflected = vreflect(ray_in.b, rec.normal);
    let refr = vrefract(ray_in.b, dielectric_outward_spec(ray_in, rec), dielectric_ratio_spec(d, ray_in, rec));
    let prob = schlick_s(dielectric_cosine_spec(d, ray_in, rec), d.ref_idx);
    let dir = match refr {
        Some(refracted) => if rnd.raw >= prob.raw {
            refracted
        } else {
            reflected
        },
        None => reflected,
    };
    Scatter {
        attenuation: Vec3 { x: one, y: one, z: one },
        scattered: Ray { a: rec.p, b: dir },
    }
}

/// A well-formed material only ever attenuates by a colour: every channel
/// of a scatter result's attenuation lies in `[0, 1]`.
pub proof fn lemma_scatter_attenuation_ok(
    m: Material,
    ray_in: Ray,
    rec: HitRecord,
    rv: Vec3,
    rnd: Scalar,
)
    requires
        m.wf(),
    ensures
        match m.scatter_spec(ray_in, rec, rv, rnd) {
            Some(sc) => color_ok(sc.attenuation),
            None => true,
        },
{
}

/// At normal incidence (`cosine == 1`) the grazing term of Schlick's
/// approximation vanishes exactly and the reflectance is `r0` itself.
pub proof fn lemma_schlick_normal_incidence(ref_idx: Scalar)
    ensures
        schlick_s(Scalar { raw: SCALE }, ref_idx) == schlick_r0(ref_idx),
{
    let one = Scalar { raw: SCALE };
    let q = sdiv(ssub(one, ref_idx), sadd(one, ref_idx));
    let r0 = smul(q, q);
    crate::vec3::lemma_square_nonneg(q);
    let omc = ssub(one, one);
    assert(omc.raw == 0);
    crate::fixed::lemma_smul_zero(Scalar { raw: 0 });
    crate::fixed::lemma_smul_zero(ssub(one, r0));
}

/// Schlick's approximation of the Fresnel reflectance.
pub fn schlick(cosine: Scalar, ref_idx: Scalar) -> (r: Scalar)
    requires
        sadd(Scalar { raw: SCALE }, ref_idx).raw != 0,
    ensures
        r == schlick_s(cosine, ref_idx),
{
    let one = Scalar { raw: SCALE };
    let q = one.sub(ref_idx).div(one.add(ref_idx));
    let r0 = q.mul(q);
    let omc = one.sub(cosine);
    let p5 = omc.mul(omc).mul(omc).mul(omc).mul(omc);
    r0.add(one.sub(r0).mul(p5))
}

impl Lambertian {
    /// A diffuse material with the given base colour.
    pub fn new(albedo: Vec3) -> (r: Lambertian)
        ensures
            r.albedo == albedo,
    {
        Lambertian { albedo }
    }
}

impl Metal {
    /// A specular material with the given base colour; the fuzz is clamped
    /// to `[0, 1]`.
    pub fn new(albedo: Vec3, fuzz: Scalar) -> (r: Metal)
        ensures
            r.albedo == albedo,
            r.fuzz.raw == if fuzz.raw < 0 {
                0i64
            } else if fuzz.raw > SCALE {
                SCALE
            } else {
                fuzz.raw
            },
    {
        let clamped: Scalar = if fuzz.raw < 0 {
            Scalar { raw: 0 }
        } else if fuzz.raw > SCALE {
            Scalar { raw: SCALE }
        } else {
            fuzz
        };
        Metal { albedo, fuzz: clamped }
    }
}

impl Dielectric {
    /// A clear refractive material with the given refractive index.
    pub fn new(ref_idx: Scalar) -> (r: Dielectric)
        ensures
            r.ref_idx == ref_idx,
    {
        Dielectric { ref_idx }
    }
}

impl Material {
    /// The material's parameters are the ones the model speaks of: an
    /// albedo is a colour with channels in `[0, 1]`, and a dielectric
    /// index must not make either divisor of the model vanish.
    pub open spec fn wf(self) -> bool {
        match self {
            Material::Lambertian(l) => color_ok(l.albedo),
            Material::Metal(m) => color_ok(m.albedo),
            Material::Dielectric(d) => d.ref_idx.raw != 0 && d.ref_idx.raw != -SCALE,
        }
    }

    /// What scattering returns, as a function of the material, the incoming
    /// ray, the hit record and the random samples.
    pub open spec fn scatter_spec(
        self,
        ray_in: Ray,
        rec: HitRecord,
        rv: Vec3,
        rnd: Scalar,
    ) -> Option<Scatter> {
        match self {
            Material::Lambertian(l) => Some(lambertian_scatter_spec(l, rec, rv)),
            Material::Metal(m) => metal_scatter_spec(m, ray_in, rec, rv),
            Material::Dielectric(d) => Some(dielectric_scatter_spec(d, ray_in, rec, rnd)),
        }
    }

    /// Deterministic scattering: `rv` is the sampled point inside the unit
    /// sphere and `rnd` the sampled reflect-or-refract draw.  Returns
    /// exactly `scatter_spec`; `None` means the ray is absorbed.
    pub fn scatter_with(&self, ray_in: &Ray, rec: &HitRecord, rv: Vec3, rnd: Scalar) -> (res:
        Option<Scatter>)
        requires
            self.wf(),
            vsqlen(ray_in.b).raw >= 1,
        ensures
            res == self.scatter_spec(*ray_in, *rec, rv, rnd),
    {
        match self {
            Material::Lambertian(l) => {
                let target = rec.p.add(rec.normal).add(rv);
                Some(
                    Scatter {
                        attenuation: l.albedo,
                        scattered: Ray::new(rec.p, target.sub(rec.p)),
                    },
                )
            },
            Material::Metal(m) => {
                let reflected = ray_in.direction().unit_vector().reflect(rec.normal);
                let dir = reflected.add(rv.scale(m.fuzz));
                let scattered = Ray::new(rec.p, dir);
                if Vec3::dot(scattered.direction(), rec.normal).raw > 0 {
                    Some(Scatter { attenuation: m.albedo, scattered })
                } else {
                    None
                }
            },
            Material::Dielectric(d) => {
                let one = Scalar { raw: SCALE };
                let dn = Vec3::dot(ray_in.direction(), rec.normal);
                let len = ray_in.direction().length();
                proof {
                    lemma_sqlen_pos_gives_len_pos(ray_in.b);
                }
                let reflected = ray_in.direction().reflect(rec.normal);
                let outward: Vec3;
                let ni_over_nt: Scalar;
                let cosine: Scalar;
                if dn.raw > 0 {
                    outward = rec.normal.neg();
                    ni_over_nt = d.ref_idx;
                    cosine = d.ref_idx.mul(dn).div(len);
                } else {
                    outward = rec.normal;
                    ni_over_nt = one.div(d.ref_idx);
                    cosine = dn.neg().div(len);
                }
                let refr = ray_in.direction().refract(outward, ni_over_nt);
                let prob = schlick(cosine, d.ref_idx);
                let dir = match refr {
                    Some(refracted) => if rnd.raw >= prob.raw {
                        refracted
                    } else {
                        reflected
                    },
                    None => reflected,
                };
                Some(
                    Scatter {
                        attenuation: Vec3 { x: one, y: one, z: one },
                        scattered: Ray::new(rec.p, dir),
                    },
                )
            },
        }
    }

    /// Scattering with freshly drawn samples: the result is `scatter_spec`
    /// of some in-range samples, whichever the generator produced.
    pub fn scatter(&self, ray_in: &Ray, rec: &HitRecord) -> (res: Option<Scatter>)
        requires
            self.wf(),
            vsqlen(ray_in.b).raw >= 1,
        ensures
            exists|rv: Vec3, rnd: Scalar|
                sample_ok(rv, rnd) && res == #[trigger] self.scatter_spec(*ray_in, *rec, rv, rnd),
    {
        let rv = Vec3::random_in_unit_sphere();
        let rnd = random_unit_scalar();
        let res = self.scatter_with(ray_in, rec, rv, rnd);
        proof {
            assert(sample_ok(rv, rnd) && res == self.scatter_spec(*ray_in, *rec, rv, rnd));
        }
        res
    }
}

} // verus!
