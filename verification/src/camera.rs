//! The camera: maps normalized image-plane coordinates to world-space rays,
//! optionally sampling a finite lens aperture for depth of field.

use vstd::prelude::*;

use crate::fixed::SCALE;
use crate::fixed::Scalar;
use crate::fixed::sdiv;
use crate::fixed::smul;
use crate::ray::Ray;
use crate::rng::random_symmetric_scalar;
use crate::vec3::Vec3;
use crate::vec3::vadd;
use crate::vec3::vbounded;
use crate::vec3::vcross;
use crate::vec3::vdot;
use crate::vec3::vscale;
use crate::vec3::vsqlen;
use crate::vec3::vsub;
use crate::vec3::vunit;

verus! {

/// A camera: the precomputed image-plane rectangle, the orthonormal frame
/// `u, v, w`, and the lens radius.
#[derive(Clone, Copy, Debug, PartialEq, Eq, Structural)]
pub struct Camera {
    pub lower_left_corner: Vec3,
    pub horizontal: Vec3,
    pub vertical: Vec3,
    pub origin: Vec3,
    pub u: Vec3,
    pub v: Vec3,
    pub w: Vec3,
    pub lens_radius: Scalar,
}

/// The view direction basis vector: from the target back to the eye.
pub open spec fn camera_w(lookfrom: Vec3, lookat: Vec3) -> Vec3 {
    vunit(vsub(lookfrom, lookat))
}

/// The camera constructed from an eye point, a target, an up vector, the
/// tangent of half the vertical field of view, the aspect ratio, the
/// aperture diameter and the focus distance.  The image plane is scaled by
/// the focus distance so it sits at the focal plane.
pub open spec fn camera_spec(
    lookfrom: Vec3,
    lookat: Vec3,
    vup: Vec3,
    tan_half_vfov: Scalar,
    aspect: Scalar,
    aperture: Scalar,
    focus_dist: Scalar,
) -> Camera {
    let two = Scalar { raw: 8589934592 };
    let half_height = tan_half_vfov;
    let half_width = smul(aspect, half_height);
    let w = camera_w(lookfrom, lookat);
    let u = vunit(vcross(vup, w));
    let v = vcross(w, u);
    let origin = lookfrom;
    Camera {
        lower_left_corner: vsub(
            vsub(
                vsub(origin, vscale(u, smul(focus_dist, half_width))),
                vscale(v, smul(focus_dist, half_height)),
            ),
            vscale(w, focus_dist),
        ),
        horizontal: vscale(u, smul(smul(two, focus_dist), half_width)),
        vertical: vscale(v, smul(smul(two, focus_dist), half_height)),
        origin,
        u,
        v,
        w,
        lens_radius: sdiv(aperture, two),
    }
}

/// A point on the lens disk: strictly inside the unit disk, in the plane
/// `z == 0`.
pub open spec fn disk_ok(rd: Vec3) -> bool {
    vdot(rd, rd).raw < SCALE && rd.z.raw == 0 && vbounded(rd, SCALE as int)
}

/// The ray for normalized image coordinates `(s, t)` with lens-disk sample
/// `rd`: the origin is offset across the aperture by
/// `rd.x * u + rd.y * v` scaled to the lens radius, while the target point
/// on the focal plane stays fixed, which produces depth-of-field blur.
pub open spec fn get_ray_spec(c: Camera, s: Scalar, t: Scalar, rd: Vec3) -> Ray {
    let rdv = vscale(rd, c.lens_radius);
    let offset = vadd(vscale(c.u, rdv.x), vscale(c.v, rdv.y));
    Ray {
        a: vadd(c.origin, offset),
        b: vsub(
            vsub(
                vadd(vadd(c.lower_left_corner, vscale(c.horizontal, s)), vscale(c.vertical, t)),
                c.origin,
            ),
            offset,
        ),
    }
}

/// A random point strictly inside the unit disk, drawn by rejection from
/// the square `[-1, 1)^2`.  The number of draws is capped so the sampler
/// provably terminates; the centre of the disk is returned in the
/// vanishingly unlikely case that every draw misses.
pub fn random_in_unit_disk() -> (r: Vec3)
    ensures
        disk_ok(r),
{
    let mut tries: u64 = 0;
    while tries < 64
        decreases 64 - tries,
    {
        let p = Vec3::new(random_symmetric_scalar(), random_symmetric_scalar(), Scalar { raw: 0 });
        if Vec3::dot(p, p).raw < SCALE {
            return p;
        }
        tries = tries + 1;
    }
    Vec3::new(Scalar { raw: 0 }, Scalar { raw: 0 }, Scalar { raw: 0 })
}

impl Camera {
    /// The camera for the given view.  `tan_half_vfov` is the tangent of
    /// half the vertical field of view; the eye must not sit on the target,
    /// and the up vector must not be parallel to the view direction.
    pub fn new(
        lookfrom: Vec3,
        lookat: Vec3,
        vup: Vec3,
        tan_half_vfov: Scalar,
        aspect: Scalar,
        aperture: Scalar,
        focus_dist: Scalar,
    ) -> (c: Camera)
        requires
            vsqlen(vsub(lookfrom, lookat)).raw >= 1,
            vsqlen(vcross(vup, camera_w(lookfrom, lookat))).raw >= 1,
        ensures
            c == camera_spec(lookfrom, lookat, vup, tan_half_vfov, aspect, aperture, focus_dist),
    {
        let two = Scalar { raw: 8589934592 };
        let lens_radius = aperture.div(two);
        let half_height = tan_half_vfov;
        let half_width = aspect.mul(half_height);
        let w = lookfrom.sub(lookat).unit_vector();
        let u = Vec3::cross(vup, w).unit_vector();
        let v = Vec3::cross(w, u);
        let origin = lookfrom;
        Camera {
            lower_left_corner: origin.sub(u.scale(focus_dist.mul(half_width))).sub(
                v.scale(focus_dist.mul(half_height)),
            ).sub(w.scale(focus_dist)),
            horizontal: u.scale(two.mul(focus_dist).mul(half_width)),
            vertical: v.scale(two.mul(focus_dist).mul(half_height)),
            origin,
            u,
            v,
            w,
            lens_radius,
        }
    }

    /// The ray for normalized image coordinates `(s, t)`, sampling the lens
    /// disk.  With a zero lens radius the offset vanishes and the ray is
    /// the exact deterministic one.
    pub fn get_ray(&self, s: Scalar, t: Scalar) -> (r: Ray)
        ensures
            exists|rd: Vec3| disk_ok(rd) && r == #[trigger] get_ray_spec(*self, s, t, rd),
            self.lens_radius.raw == 0 ==> r == get_ray_spec(
                *self,
                s,
                t,
                Vec3 { x: Scalar { raw: 0 }, y: Scalar { raw: 0 }, z: Scalar { raw: 0 } },
            ),
    {
        let rd = random_in_unit_disk();
        let rdv = rd.scale(self.lens_radius);
        let offset = self.u.scale(rdv.x()).add(self.v.scale(rdv.y()));
        let r = Ray::new(
            self.origin.add(offset),
            self.lower_left_corner.add(self.horizontal.scale(s)).add(
                self.vertical.scale(t),
            ).sub(self.origin).sub(offset),
        );
        proof {
            assert(disk_ok(rd) && r == get_ray_spec(*self, s, t, rd));
        }
        r
    }
}

} // verus!
