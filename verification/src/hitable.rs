//! Hit records, the `Hitable` trait and the scene aggregate.
//!
//! The aggregate resolves the nearest hit among all spheres by scanning
//! them in order, narrowing the upper parameter bound to the closest hit
//! found so far, exactly as `scene_hit_spec` describes.

use vstd::prelude::*;

use crate::fixed::Scalar;
use crate::material::Material;
use crate::ray::Ray;
use crate::sphere::Sphere;
use crate::sphere::ray_ok;
use crate::sphere::sphere_hit_spec;
use crate::sphere::sphere_ok;
use crate::vec3::Vec3;

verus! {

/// The result of a successful intersection: parametric distance `t`, world
/// position `p`, the surface normal `(p - center) / radius` — of length
/// one up to the rounding of the grid, facing outward for a positive
/// radius and inward for a negative one — and the material at the hit
/// point.
#[derive(Clone, Copy, Debug, PartialEq, Eq, Structural)]
pub struct HitRecord {
    pub t: Scalar,
    pub p: Vec3,
    pub normal: Vec3,
    pub material: Material,
}

impl HitRecord {
    /// The record with the given fields.
    pub fn new(t: Scalar, p: Vec3, normal: Vec3, material: Material) -> (r: HitRecord)
        ensures
            r == (HitRecord { t, p, normal, material }),
    {
        HitRecord { t, p, normal, material }
    }
}

/// The material of a hit, when there is one, is well-formed.
pub open spec fn hit_material_wf(o: Option<HitRecord>) -> bool {
    match o {
        Some(rec) => rec.material.wf(),
        None => true,
    }
}

/// Anything a ray can strike.  Each implementation brings the
/// specification of its own intersection test; `hit` must return exactly
/// that, and every record it produces carries a well-formed material.
pub trait Hitable {
    /// The implementor is in a state its intersection test can take:
    /// bounded geometry, nonzero radii, well-formed materials.
    spec fn hit_wf(&self) -> bool;

    /// What the intersection test returns.
    spec fn hit_spec(&self, r: Ray, t_min: Scalar, t_max: Scalar) -> Option<HitRecord>;

    /// The nearest intersection with the ray strictly inside
    /// `(t_min, t_max)`, or `None`.
    fn hit(&self, r: &Ray, t_min: Scalar, t_max: Scalar) -> (res: Option<HitRecord>)
        requires
            self.hit_wf(),
            ray_ok(*r),
        ensures
            res == self.hit_spec(*r, t_min, t_max),
            hit_material_wf(res),
    ;
}

/// The scene: an ordered collection of spheres.
pub struct HitableVec {
    pub spheres: Vec<Sphere>,
}

/// The nearest-hit scan over `s[i..]`, carrying the narrowed upper bound
/// `closest` and the best record found so far.  Later spheres replace the
/// result only with a strictly closer hit, because each is queried with the
/// narrowed bound.
pub open spec fn scene_scan(
    s: Seq<Sphere>,
    ray: Ray,
    t_min: Scalar,
    closest: Scalar,
    best: Option<HitRecord>,
    i: int,
) -> Option<HitRecord>
    decreases s.len() - i,
{
    if i < 0 || i >= s.len() {
        best
    } else {
        match sphere_hit_spec(s[i], ray, t_min, closest) {
            Some(rec) => scene_scan(s, ray, t_min, rec.t, Some(rec), i + 1),
            None => scene_scan(s, ray, t_min, closest, best, i + 1),
        }
    }
}

/// The nearest hit of the ray among all spheres within `(t_min, t_max)`.
pub open spec fn scene_hit_spec(
    s: Seq<Sphere>,
    ray: Ray,
    t_min: Scalar,
    t_max: Scalar,
) -> Option<HitRecord> {
    scene_scan(s, ray, t_min, t_max, None, 0)
}

/// Any record the nearest-hit scan returns carries the material of one of
/// the scene's spheres, so a well-formed scene yields well-formed hits.
pub proof fn lemma_scan_material_wf(
    s: Seq<Sphere>,
    ray: Ray,
    t_min: Scalar,
    closest: Scalar,
    best: Option<HitRecord>,
    i: int,
)
    requires
        forall|j: int| 0 <= j < s.len() ==> sphere_ok(#[trigger] s[j]),
        hit_material_wf(best),
    ensures
        hit_material_wf(scene_scan(s, ray, t_min, closest, best, i)),
    decreases s.len() - i,
{
    if 0 <= i < s.len() {
        match sphere_hit_spec(s[i], ray, t_min, closest) {
            Some(rec) => {
                assert(rec.material == s[i].material);
                lemma_scan_material_wf(s, ray, t_min, rec.t, Some(rec), i + 1);
            },
            None => {
                lemma_scan_material_wf(s, ray, t_min, closest, best, i + 1);
            },
        }
    }
}

/// Every record the scan can return lies strictly inside the original
/// window: each candidate is queried with the narrowed bound `closest`,
/// which never grows.
proof fn lemma_scan_in_window(
    s: Seq<Sphere>,
    ray: Ray,
    t_min: Scalar,
    t_max: Scalar,
    closest: Scalar,
    best: Option<HitRecord>,
    i: int,
)
    requires
        closest.raw <= t_max.raw,
        match best {
            Some(rec) => t_min.raw < rec.t.raw && rec.t.raw < t_max.raw,
            None => true,
        },
    ensures
        match scene_scan(s, ray, t_min, closest, best, i) {
            Some(rec) => t_min.raw < rec.t.raw && rec.t.raw < t_max.raw,
            None => true,
        },
    decreases s.len() - i,
{
    if 0 <= i < s.len() {
        match sphere_hit_spec(s[i], ray, t_min, closest) {
            Some(rec) => {
                lemma_scan_in_window(s, ray, t_min, t_max, rec.t, Some(rec), i + 1);
            },
            None => {
                lemma_scan_in_window(s, ray, t_min, t_max, closest, best, i + 1);
            },
        }
    }
}

/// The nearest hit of the scene, when there is one, lies strictly inside
/// the window `(t_min, t_max)` it was asked for.
pub proof fn lemma_scene_hit_in_window(s: Seq<Sphere>, ray: Ray, t_min: Scalar, t_max: Scalar)
    ensures
        match scene_hit_spec(s, ray, t_min, t_max) {
            Some(rec) => t_min.raw < rec.t.raw && rec.t.raw < t_max.raw,
            None => true,
        },
{
    lemma_scan_in_window(s, ray, t_min, t_max, t_max, None, 0);
}

impl HitableVec {
    /// Every sphere of the scene lies in the modelled world and has a
    /// nonzero radius and a well-formed material.
    pub open spec fn wf(self) -> bool {
        forall|i: int| 0 <= i < self.spheres@.len() ==> sphere_ok(#[trigger] self.spheres@[i])
    }

    /// The scene holding the given spheres, in order.
    pub fn new(vec: Vec<Sphere>) -> (r: HitableVec)
        ensures
            r.spheres@ == vec@,
    {
        HitableVec { spheres: vec }
    }
}

impl Hitable for HitableVec {
    open spec fn hit_wf(&self) -> bool {
        self.wf()
    }

    open spec fn hit_spec(&self, r: Ray, t_min: Scalar, t_max: Scalar) -> Option<HitRecord> {
        scene_hit_spec(self.spheres@, r, t_min, t_max)
    }

    /// The nearest hit of the ray among all spheres, strictly within
    /// `(t_min, t_max)`, or `None` when every sphere is missed.
    fn hit(&self, r: &Ray, t_min: Scalar, t_max: Scalar) -> (res: Option<HitRecord>) {
        proof {
            lemma_scan_material_wf(self.spheres@, *r, t_min, t_max, None, 0);
        }
        let mut hit_anything: Option<HitRecord> = None;
        let mut closest_so_far: Scalar = t_max;
        let mut i: usize = 0;
        while i < self.spheres.len()
            invariant
                i <= self.spheres@.len(),
                self.wf(),
                ray_ok(*r),
                scene_scan(self.spheres@, *r, t_min, closest_so_far, hit_anything, i as int)
                    == scene_hit_spec(self.spheres@, *r, t_min, t_max),
            decreases self.spheres@.len() - i,
        {
            let s = self.spheres[i];
            match s.hit(r, t_min, closest_so_far) {
                Some(rec) => {
                    closest_so_far = rec.t;
                    hit_anything = Some(rec);
                },
                None => {},
            }
            i = i + 1;
        }
        hit_anything
    }
}

} // verus!
