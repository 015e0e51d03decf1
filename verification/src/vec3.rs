//! Three-component vectors over fixed-point scalars.
//!
//! Every operation is specified exactly by a spec function over the raw
//! integer representation: `vadd`, `vsub`, `vneg`, `vscale`, `vcmul`,
//! `vdivs`, `vdot`, `vcross`, `vsqlen`, `vlen`, `vunit`, `vreflect` and
//! `vrefract` say precisely which vector each executable operation returns,
//! truncation and saturation included.

use vstd::prelude::*;

use crate::fixed::Scalar;
use crate::fixed::SCALE;
use crate::fixed::iabs;
use crate::fixed::is_sqrt;
use crate::fixed::lemma_clip_mag;
use crate::fixed::lemma_smul_mag;
use crate::fixed::lemma_smul_pm_one;
use crate::fixed::lemma_smul_zero;
use crate::fixed::sadd;
use crate::fixed::sdiv;
use crate::fixed::smul;
use crate::fixed::sneg;
use crate::fixed::sqrt_floor;
use crate::fixed::ssqrt;
use crate::fixed::ssub;
use crate::fixed::tdiv;
use crate::rng::random_symmetric_scalar;

verus! {

/// A vector of three fixed-point scalars; doubles as an RGB colour.
#[derive(Clone, Copy, Debug, PartialEq, Eq, Structural)]
pub struct Vec3 {
    pub x: Scalar,
    pub y: Scalar,
    pub z: Scalar,
}

/// Component-wise sum.
pub open spec fn vadd(a: Vec3, b: Vec3) -> Vec3 {
    Vec3 { x: sadd(a.x, b.x), y: sadd(a.y, b.y), z: sadd(a.z, b.z) }
}

/// Component-wise difference.
pub open spec fn vsub(a: Vec3, b: Vec3) -> Vec3 {
    Vec3 { x: ssub(a.x, b.x), y: ssub(a.y, b.y), z: ssub(a.z, b.z) }
}

/// Component-wise negation.
pub open spec fn vneg(a: Vec3) -> Vec3 {
    Vec3 { x: sneg(a.x), y: sneg(a.y), z: sneg(a.z) }
}

/// Multiplication of every component by the scalar `k`.
pub open spec fn vscale(a: Vec3, k: Scalar) -> Vec3 {
    Vec3 { x: smul(a.x, k), y: smul(a.y, k), z: smul(a.z, k) }
}

/// Component-wise product, used to attenuate a colour.
pub open spec fn vcmul(a: Vec3, b: Vec3) -> Vec3 {
    Vec3 { x: smul(a.x, b.x), y: smul(a.y, b.y), z: smul(a.z, b.z) }
}

/// Division of every component by the scalar `k`.
pub open spec fn vdivs(a: Vec3, k: Scalar) -> Vec3 {
    Vec3 { x: sdiv(a.x, k), y: sdiv(a.y, k), z: sdiv(a.z, k) }
}

/// Dot product: the three component products summed left to right.
pub open spec fn vdot(a: Vec3, b: Vec3) -> Scalar {
    sadd(sadd(smul(a.x, b.x), smul(a.y, b.y)), smul(a.z, b.z))
}

/// Cross product.
pub open spec fn vcross(a: Vec3, b: Vec3) -> Vec3 {
    Vec3 {
        x: ssub(smul(a.y, b.z), smul(a.z, b.y)),
        y: sneg(ssub(smul(a.x, b.z), smul(a.z, b.x))),
        z: ssub(smul(a.x, b.y), smul(a.y, b.x)),
    }
}

/// Squared length.
pub open spec fn vsqlen(a: Vec3) -> Scalar {
    vdot(a, a)
}

/// Length: the square root of the squared length, rounded down.
pub open spec fn vlen(a: Vec3) -> Scalar {
    ssqrt(vsqlen(a))
}

/// The vector scaled to unit length, each component divided by the length.
/// Meaningful only when the squared length is at least one raw unit.
pub open spec fn vunit(a: Vec3) -> Vec3 {
    vdivs(a, vlen(a))
}

/// Mirror reflection of `v` about the normal `n`:
/// `v - 2 * dot(v, n) * n` in fixed-point arithmetic.
pub open spec fn vreflect(v: Vec3, n: Vec3) -> Vec3 {
    vsub(v, vscale(n, sadd(vdot(v, n), vdot(v, n))))
}

/// The discriminant of the refraction formula:
/// `1 - ni_over_nt^2 * (1 - dot(unit(v), n)^2)`.
pub open spec fn vrefract_disc(v: Vec3, n: Vec3, ni_over_nt: Scalar) -> Scalar {
    let dt = vdot(vunit(v), n);
    ssub(
        Scalar { raw: SCALE },
        smul(smul(ni_over_nt, ni_over_nt), ssub(Scalar { raw: SCALE }, smul(dt, dt))),
    )
}

/// Refraction of `v` about the normal `n`: defined exactly when the
/// discriminant is positive, as
/// `ni_over_nt * (unit(v) - dot(unit(v), n) * n) - sqrt(disc) * n`.
pub open spec fn vrefract(v: Vec3, n: Vec3, ni_over_nt: Scalar) -> Option<Vec3> {
    let uv = vunit(v);
    let dt = vdot(uv, n);
    let disc = vrefract_disc(v, n, ni_over_nt);
    if disc.raw > 0 {
        Some(vsub(vscale(vsub(uv, vscale(n, dt)), ni_over_nt), vscale(n, ssqrt(disc))))
    } else {
        None
    }
}

/// Every component of `a` has magnitude at most `k`.
pub open spec fn vbounded(a: Vec3, k: int) -> bool {
    iabs(a.x.raw as int) <= k && iabs(a.y.raw as int) <= k && iabs(a.z.raw as int) <= k
}

/// A squared scalar is never negative.
pub proof fn lemma_square_nonneg(a: Scalar)
    ensures
        smul(a, a).raw >= 0,
{
    crate::fixed::lemma_sign_split(a.raw as int, a.raw as int);
    crate::fixed::lemma_tdiv_parts(a.raw as int * a.raw as int, SCALE as int);
}

/// The squared length of any vector is never negative.
pub proof fn lemma_sqlen_nonneg(a: Vec3)
    ensures
        vsqlen(a).raw >= 0,
{
    lemma_square_nonneg(a.x);
    lemma_square_nonneg(a.y);
    lemma_square_nonneg(a.z);
}

/// Magnitude bound on a dot product from bounds on the operands.
pub proof fn lemma_vdot_mag(a: Vec3, b: Vec3, ka: int, kb: int)
    requires
        vbounded(a, ka),
        vbounded(b, kb),
    ensures
        iabs(vdot(a, b).raw as int) <= 3 * ((ka * kb) / (SCALE as int)),
{
    lemma_smul_mag(a.x, b.x, ka, kb);
    lemma_smul_mag(a.y, b.y, ka, kb);
    lemma_smul_mag(a.z, b.z, ka, kb);
    lemma_clip_mag(smul(a.x, b.x).raw + smul(a.y, b.y).raw);
    lemma_clip_mag(sadd(smul(a.x, b.x), smul(a.y, b.y)).raw + smul(a.z, b.z).raw);
}

impl Vec3 {
    /// The vector with the given components.
    pub fn new(e0: Scalar, e1: Scalar, e2: Scalar) -> (r: Vec3)
        ensures
            r == (Vec3 { x: e0, y: e1, z: e2 }),
    {
        Vec3 { x: e0, y: e1, z: e2 }
    }

    /// First component.
    pub fn x(&self) -> (r: Scalar)
        ensures
            r == self.x,
    {
        self.x
    }

    /// Second component.
    pub fn y(&self) -> (r: Scalar)
        ensures
            r == self.y,
    {
        self.y
    }

    /// Third component.
    pub fn z(&self) -> (r: Scalar)
        ensures
            r == self.z,
    {
        self.z
    }

    /// Red channel, when the vector is a colour.
    pub fn r(&self) -> (r: Scalar)
        ensures
            r == self.x,
    {
        self.x
    }

    /// Green channel, when the vector is a colour.
    pub fn g(&self) -> (r: Scalar)
        ensures
            r == self.y,
    {
        self.y
    }

    /// Blue channel, when the vector is a colour.
    pub fn b(&self) -> (r: Scalar)
        ensures
            r == self.z,
    {
        self.z
    }

    /// Component-wise sum.
    pub fn add(self, o: Vec3) -> (r: Vec3)
        ensures
            r == vadd(self, o),
    {
        Vec3 { x: self.x.add(o.x), y: self.y.add(o.y), z: self.z.add(o.z) }
    }

    /// Component-wise difference.
    pub fn sub(self, o: Vec3) -> (r: Vec3)
        ensures
            r == vsub(self, o),
    {
        Vec3 { x: self.x.sub(o.x), y: self.y.sub(o.y), z: self.z.sub(o.z) }
    }

    /// Component-wise negation.
    pub fn neg(self) -> (r: Vec3)
        ensures
            r == vneg(self),
    {
        Vec3 { x: self.x.neg(), y: self.y.neg(), z: self.z.neg() }
    }

    /// Every component multiplied by the scalar `k`.
    pub fn scale(self, k: Scalar) -> (r: Vec3)
        ensures
            r == vscale(self, k),
    {
        Vec3 { x: self.x.mul(k), y: self.y.mul(k), z: self.z.mul(k) }
    }

    /// Component-wise product, used to attenuate a colour.
    pub fn cmul(self, o: Vec3) -> (r: Vec3)
        ensures
            r == vcmul(self, o),
    {
        Vec3 { x: self.x.mul(o.x), y: self.y.mul(o.y), z: self.z.mul(o.z) }
    }

    /// Every component divided by the scalar `k`.
    pub fn div(self, k: Scalar) -> (r: Vec3)
        requires
            k.raw != 0,
        ensures
            r == vdivs(self, k),
    {
        Vec3 { x: self.x.div(k), y: self.y.div(k), z: self.z.div(k) }
    }

    /// Dot product.
    pub fn dot(v1: Vec3, v2: Vec3) -> (r: Scalar)
        ensures
            r == vdot(v1, v2),
    {
        v1.x.mul(v2.x).add(v1.y.mul(v2.y)).add(v1.z.mul(v2.z))
    }

    /// Cross product.
    pub fn cross(v1: Vec3, v2: Vec3) -> (r: Vec3)
        ensures
            r == vcross(v1, v2),
    {
        Vec3 {
            x: v1.y.mul(v2.z).sub(v1.z.mul(v2.y)),
            y: v1.x.mul(v2.z).sub(v1.z.mul(v2.x)).neg(),
            z: v1.x.mul(v2.y).sub(v1.y.mul(v2.x)),
        }
    }

    /// Squared length.
    pub fn squared_length(self) -> (r: Scalar)
        ensures
            r == vsqlen(self),
            r.raw >= 0,
    {
        proof {
            lemma_sqlen_nonneg(self);
        }
        Vec3::dot(self, self)
    }

    /// Length, rounded down to the fixed-point grid.
    pub fn length(self) -> (r: Scalar)
        ensures
            r == vlen(self),
            r.raw >= 0,
    {
        self.squared_length().sqrt()
    }

    /// The vector scaled to unit length.  The caller must guarantee a
    /// squared length of at least one raw unit; anything shorter cannot be
    /// normalized on the fixed-point grid.  For vectors of real length at
    /// least one within the modelled range, the result's computed length
    /// is within 4 raw units (under `1e-9`) of one.
    pub fn unit_vector(self) -> (r: Vec3)
        requires
            vsqlen(self).raw >= 1,
        ensures
            r == vunit(self),
            (vbounded(self, 70368744177664) && vsqlen(self).raw >= SCALE) ==> iabs(
                vlen(r).raw - SCALE,
            ) <= 4,
    {
        let len = self.length();
        proof {
            lemma_sqlen_pos_gives_len_pos(self);
            if vbounded(self, 70368744177664) && vsqlen(self).raw >= SCALE {
                lemma_unit_vector_accuracy(self);
            }
        }
        self.div(len)
    }

    /// Mirror reflection about the normal `n`.
    pub fn reflect(self, n: Vec3) -> (r: Vec3)
        ensures
            r == vreflect(self, n),
    {
        let d = Vec3::dot(self, n);
        self.sub(n.scale(d.add(d)))
    }

    /// Refraction about the normal `n` with refraction ratio `ni_over_nt`,
    /// or `None` under total internal reflection (non-positive
    /// discriminant).
    pub fn refract(self, n: Vec3, ni_over_nt: Scalar) -> (res: Option<Vec3>)
        requires
            vsqlen(self).raw >= 1,
        ensures
            res == vrefract(self, n, ni_over_nt),
            res is Some <==> vrefract_disc(self, n, ni_over_nt).raw > 0,
    {
        let uv = self.unit_vector();
        let dt = Vec3::dot(uv, n);
        let one = Scalar { raw: SCALE };
        let discriminant = one.sub(ni_over_nt.mul(ni_over_nt).mul(one.sub(dt.mul(dt))));
        if discriminant.raw > 0 {
            Some(uv.sub(n.scale(dt)).scale(ni_over_nt).sub(n.scale(discriminant.sqrt())))
        } else {
            None
        }
    }

    /// A random point strictly inside the unit sphere, drawn by rejection
    /// from the cube `[-1, 1)^3`.  The number of draws is capped so the
    /// sampler provably terminates; the centre of the sphere is returned in
    /// the vanishingly unlikely case that every draw misses.
    pub fn random_in_unit_sphere() -> (r: Vec3)
        ensures
            vsqlen(r).raw < SCALE,
            vbounded(r, SCALE as int),
    {
        let mut tries: u64 = 0;
        while tries < 64
            invariant
                true,
            decreases 64 - tries,
        {
            let p = Vec3::new(
                random_symmetric_scalar(),
                random_symmetric_scalar(),
                random_symmetric_scalar(),
            );
            if p.squared_length().raw < SCALE {
                return p;
            }
            tries = tries + 1;
        }
        Vec3::new(Scalar { raw: 0 }, Scalar { raw: 0 }, Scalar { raw: 0 })
    }
}

impl Default for Vec3 {
    /// The zero vector.
    fn default() -> (r: Vec3)
        ensures
            r == (Vec3 { x: Scalar { raw: 0 }, y: Scalar { raw: 0 }, z: Scalar { raw: 0 } }),
    {
        Vec3 { x: Scalar { raw: 0 }, y: Scalar { raw: 0 }, z: Scalar { raw: 0 } }
    }
}

/// `n` is a unit vector lying exactly on a coordinate axis; such normals
/// are exactly representable, so reflection about them is exact.
pub open spec fn axis_unit(n: Vec3) -> bool {
    ||| (iabs(n.x.raw as int) == SCALE && n.y.raw == 0 && n.z.raw == 0)
    ||| (n.x.raw == 0 && iabs(n.y.raw as int) == SCALE && n.z.raw == 0)
    ||| (n.x.raw == 0 && n.y.raw == 0 && iabs(n.z.raw as int) == SCALE)
}

/// The component of `v` along the axis of `n` negated, the others kept.
spec fn axis_flip(v: Vec3, n: Vec3) -> Vec3 {
    if n.x.raw != 0 {
        Vec3 { x: sneg(v.x), y: v.y, z: v.z }
    } else if n.y.raw != 0 {
        Vec3 { x: v.x, y: sneg(v.y), z: v.z }
    } else {
        Vec3 { x: v.x, y: v.y, z: sneg(v.z) }
    }
}

/// Reflection about an exactly representable axis normal flips the
/// component along that axis and keeps the others: every product in the
/// formula is exact.
proof fn lemma_reflect_axis(v: Vec3, n: Vec3)
    requires
        axis_unit(n),
        vbounded(v, 2305843009213693952),
    ensures
        vreflect(v, n) == axis_flip(v, n),
        vbounded(axis_flip(v, n), 2305843009213693952),
{
    let d = vdot(v, n);
    let twod = sadd(d, d);
    if n.x.raw != 0 {
        lemma_smul_pm_one(v.x, n.x);
        lemma_smul_zero(v.y);
        lemma_smul_zero(v.z);
        lemma_smul_pm_one(twod, n.x);
        lemma_smul_zero(twod);
    } else if n.y.raw != 0 {
        lemma_smul_zero(v.x);
        lemma_smul_pm_one(v.y, n.y);
        lemma_smul_zero(v.z);
        lemma_smul_pm_one(twod, n.y);
        lemma_smul_zero(twod);
    } else {
        lemma_smul_zero(v.x);
        lemma_smul_zero(v.y);
        lemma_smul_pm_one(v.z, n.z);
        lemma_smul_pm_one(twod, n.z);
        lemma_smul_zero(twod);
    }
}

/// Reflecting twice about the same exactly representable unit normal is
/// the identity.
pub proof fn lemma_reflect_involution(v: Vec3, n: Vec3)
    requires
        axis_unit(n),
        vbounded(v, 2305843009213693952),
    ensures
        vreflect(vreflect(v, n), n) == v,
{
    lemma_reflect_axis(v, n);
    lemma_reflect_axis(vreflect(v, n), n);
}

/// When `ni_over_nt^2 * (1 - dot(unit(v), n)^2)` exceeds one, the
/// discriminant of the refraction formula is negative and refraction
/// reports no result: total internal reflection.
pub proof fn lemma_refract_total_internal(v: Vec3, n: Vec3, ni_over_nt: Scalar)
    requires
        smul(
            smul(ni_over_nt, ni_over_nt),
            ssub(Scalar { raw: SCALE }, smul(vdot(vunit(v), n), vdot(vunit(v), n))),
        ).raw > SCALE,
    ensures
        vrefract(v, n, ni_over_nt) is None,
{
}

/// Squaring an exact multiple of the scale is exact.
proof fn lemma_smul_self_exact(a: Scalar, m: int)
    requires
        1 <= m <= 32768,
        a.raw == m * 4294967296 || a.raw == -m * 4294967296,
    ensures
        smul(a, a).raw == m * m * 4294967296,
        4294967296 <= m * m * 4294967296 <= 4611686018427387904,
{
    assert((a.raw as int) * (a.raw as int) == (m * m * 4294967296) * 4294967296)
        by (nonlinear_arith)
        requires
            a.raw == m * 4294967296 || a.raw == -m * 4294967296,
    ;
    crate::fixed::lemma_tdiv_scale_cancel(m * m * 4294967296);
    assert(4294967296 <= m * m * 4294967296 <= 4611686018427387904) by (nonlinear_arith)
        requires
            1 <= m <= 32768,
    ;
}

/// The square root of an exact square of the scale grid is exact.
proof fn lemma_sqrt_square(m: int)
    requires
        1 <= m <= 32768,
    ensures
        sqrt_floor((m * m * 4294967296) * 4294967296) == m * 4294967296,
{
    let x = (m * m * 4294967296) * 4294967296;
    assert(is_sqrt(x, m * 4294967296)) by (nonlinear_arith)
        requires
            1 <= m <= 32768,
            x == (m * m * 4294967296) * 4294967296,
    ;
    crate::fixed::lemma_sqrt_unique(x, m * 4294967296, sqrt_floor(x));
}

/// Dividing an exact multiple of the scale by its own magnitude is exact.
proof fn lemma_sdiv_self(a: Scalar, l: Scalar, m: int)
    requires
        1 <= m <= 32768,
        l.raw == m * 4294967296,
        a.raw == m * 4294967296 || a.raw == -m * 4294967296,
    ensures
        a.raw >= 0 ==> sdiv(a, l).raw == 4294967296,
        a.raw < 0 ==> sdiv(a, l).raw == -4294967296,
{
    crate::fixed::lemma_tdiv_parts(a.raw as int * SCALE, l.raw as int);
    assert(iabs(a.raw as int * 4294967296) / iabs(l.raw as int) == 4294967296)
        by (nonlinear_arith)
        requires
            1 <= m <= 32768,
            l.raw == m * 4294967296,
            a.raw == m * 4294967296 || a.raw == -m * 4294967296,
    ;
    assert((a.raw >= 0) == (a.raw as int * 4294967296 >= 0)) by (nonlinear_arith);
}

/// Zero divided by a positive length is zero.
proof fn lemma_sdiv_zero(l: Scalar)
    requires
        l.raw >= 1,
    ensures
        sdiv(Scalar { raw: 0 }, l).raw == 0,
{
    crate::fixed::lemma_tdiv_parts(0, l.raw as int);
    assert(iabs(0) / iabs(l.raw as int) == 0) by (nonlinear_arith)
        requires
            l.raw >= 1,
    ;
}

/// Normalizing a vector that lies exactly on a coordinate axis with an
/// integer magnitude is exact: the unit vector is the signed axis unit,
/// and its computed length is exactly one.
pub proof fn lemma_unit_vector_axis(v: Vec3, m: int)
    requires
        1 <= m <= 32768,
        ((v.x.raw == m * 4294967296 || v.x.raw == -m * 4294967296) && v.y.raw == 0 && v.z.raw
            == 0) || (v.x.raw == 0 && (v.y.raw == m * 4294967296 || v.y.raw == -m * 4294967296)
            && v.z.raw == 0) || (v.x.raw == 0 && v.y.raw == 0 && (v.z.raw == m * 4294967296
            || v.z.raw == -m * 4294967296)),
    ensures
        axis_unit(vunit(v)),
        vlen(vunit(v)).raw == SCALE,
{
    lemma_smul_zero(Scalar { raw: 0 });
    let k = m * 4294967296;
    let active = if v.x.raw != 0 {
        v.x
    } else if v.y.raw != 0 {
        v.y
    } else {
        v.z
    };
    lemma_smul_self_exact(active, m);
    assert(vsqlen(v).raw == m * m * 4294967296);
    lemma_sqrt_square(m);
    assert(vlen(v).raw == k);
    let l = vlen(v);
    lemma_sdiv_self(active, l, m);
    lemma_sdiv_zero(l);
    let u = vunit(v);
    assert(axis_unit(u));
    lemma_unit_axis_length(u);
}

/// The computed length of an exact signed axis unit vector is exactly one.
proof fn lemma_unit_axis_length(u: Vec3)
    requires
        axis_unit(u),
    ensures
        vlen(u).raw == SCALE,
{
    lemma_smul_zero(Scalar { raw: 0 });
    let active = if u.x.raw != 0 {
        u.x
    } else if u.y.raw != 0 {
        u.y
    } else {
        u.z
    };
    lemma_smul_self_exact(active, 1);
    assert(vsqlen(u).raw == 4294967296);
    lemma_sqrt_square(1);
    assert(vlen(u).raw as int == 1 * 4294967296);
}

/// Floor bounds for the truncated square of a bounded scalar: the exact
/// square lies less than one grid step above the stored one.
proof fn lemma_square_floor(a: Scalar, k: int)
    requires
        iabs(a.raw as int) <= k,
        0 <= k <= 70368744177664,
    ensures
        0 <= smul(a, a).raw <= 1152921504606846976,
        smul(a, a).raw * 4294967296 <= a.raw * a.raw,
        a.raw * a.raw < smul(a, a).raw * 4294967296 + 4294967296,
{
    let x = a.raw as int;
    let p = x * x;
    assert(-70368744177664 <= x <= 70368744177664);
    assert(0 <= p <= 70368744177664 * 70368744177664) by (nonlinear_arith)
        requires
            -70368744177664 <= x <= 70368744177664,
            p == x * x,
    ;
    let q = tdiv(p, 4294967296);
    assert(0 <= q <= 1152921504606846976 && q * 4294967296 <= p < q * 4294967296 + 4294967296)
        by (nonlinear_arith)
        requires
            0 <= p <= 70368744177664 * 70368744177664,
            q == tdiv(p, 4294967296),
    ;
    assert(smul(a, a).raw as int == q);
}

/// Floor bounds for division by a length: the quotient magnitude times the
/// divisor brackets the scaled dividend magnitude within one divisor.
proof fn lemma_sdiv_floor(a: Scalar, l: Scalar, k: int)
    requires
        iabs(a.raw as int) <= k,
        0 <= k <= 70368744177664,
        l.raw >= 4294967296,
    ensures
        iabs(sdiv(a, l).raw as int) <= k,
        iabs(sdiv(a, l).raw as int) * l.raw <= iabs(a.raw as int) * 4294967296,
        iabs(a.raw as int) * 4294967296 < (iabs(sdiv(a, l).raw as int) + 1) * l.raw,
{
    let x = a.raw as int;
    let d = l.raw as int;
    crate::fixed::lemma_tdiv_parts(x * 4294967296, d);
    crate::fixed::lemma_mul_mag(x, 4294967296, k, 4294967296);
    let m = iabs(x * 4294967296);
    let q = m / d;
    assert(m == iabs(x) * 4294967296) by (nonlinear_arith)
        requires
            m == iabs(x * 4294967296),
    ;
    assert(0 <= q <= k && q * d <= m < (q + 1) * d) by (nonlinear_arith)
        requires
            q == m / d,
            0 <= m <= k * 4294967296,
            d >= 4294967296,
            k >= 0,
    ;
    assert(iabs(sdiv(a, l).raw as int) == q);
}

/// Three nonnegative terms: the square of the sum is at most three times
/// the sum of the squares.
proof fn lemma_sum_square_bound(a: int, b: int, c: int)
    by (nonlinear_arith)
    requires
        a >= 0,
        b >= 0,
        c >= 0,
    ensures
        (a + b + c) * (a + b + c) <= 3 * (a * a + b * b + c * c),
{
}

/// Bracketing a truncated quotient's square: dividing magnitude `xa` by
/// `d` loses at most one `d`, so the square of the quotient scaled back up
/// sits within `2 * xa * d + d^2` of the square of the dividend.
proof fn lemma_div_lower_square(xa: int, d: int, u: int)
    by (nonlinear_arith)
    requires
        d > 0,
        xa >= 0,
        u >= 0,
        u * d <= xa,
        xa < (u + 1) * d,
    ensures
        u * u * (d * d) <= xa * xa,
        u * u * (d * d) > xa * xa - 2 * xa * d - d * d,
{
}

/// The computed length denotes the integer square root of the scaled
/// squared length.
proof fn lemma_vlen_sqrt(v: Vec3)
    requires
        vsqlen(v).raw >= 0,
    ensures
        is_sqrt(vsqlen(v).raw * SCALE, vlen(v).raw as int),
        0 <= vlen(v).raw <= 281474976710656,
{
    let sq = vsqlen(v).raw as int;
    assert(sq * 4294967296 >= 0) by (nonlinear_arith)
        requires
            sq >= 0,
    ;
    crate::fixed::lemma_sqrt_exists(sq * SCALE);
    let r = sqrt_floor(sq * SCALE);
    assert(0 <= r <= 281474976710656) by (nonlinear_arith)
        requires
            is_sqrt(sq * 4294967296, r),
            sq <= 9223372036854775807,
    ;
    assert(vlen(v).raw as int == r);
}

/// A vector whose squared length is at least one raw unit has a length of
/// at least one raw unit, so it can be normalized.
pub proof fn lemma_sqlen_pos_gives_len_pos(a: Vec3)
    requires
        vsqlen(a).raw >= 1,
    ensures
        vlen(a).raw >= 1,
{
    lemma_sqlen_nonneg(a);
    let sq = vsqlen(a).raw as int;
    let r = sqrt_floor(sq * SCALE);
    assert(is_sqrt(sq * SCALE, r)) by {
        crate::fixed::lemma_sqrt_exists(sq * SCALE);
    }
    assert(1 <= r <= 281474976710656) by (nonlinear_arith)
        requires
            is_sqrt(sq * 4294967296, r),
            1 <= sq <= 9223372036854775807,
    ;
    assert(vlen(a).raw as int == r);
}

/// A component divided by a length at least two thirds of its magnitude
/// stays within one and a half units.
proof fn lemma_comp_div_bound(a: Scalar, l: Scalar, bound2: int)
    requires
        a.raw * a.raw < bound2,
        4 * bound2 <= 9 * (l.raw * l.raw),
        l.raw >= 1,
    ensures
        iabs(sdiv(a, l).raw as int) <= 6442450944,
{
    let x = a.raw as int;
    let d = l.raw as int;
    assert(2 * iabs(x) <= 3 * d) by (nonlinear_arith)
        requires
            x * x < bound2,
            4 * bound2 <= 9 * (d * d),
            d >= 1,
    ;
    crate::fixed::lemma_tdiv_parts(x * 4294967296, d);
    crate::fixed::lemma_mul_mag(x, 4294967296, iabs(x), 4294967296);
    let mnum = iabs(x) * 4294967296;
    crate::fixed::lemma_div_bracket(mnum, d);
    let q = mnum / d;
    assert(q <= 6442450944) by (nonlinear_arith)
        requires
            d * q <= mnum,
            2 * mnum <= 3 * (d * 4294967296),
            d >= 1,
            q >= 0,
    ;
    crate::fixed::lemma_clip_mag(tdiv(x * 4294967296, d));
}

/// A normalized vector's components never exceed one and a half units on
/// the grid: truncating the squared length loses less than three grid
/// steps, so the computed length is at least two thirds of any component.
pub proof fn lemma_unit_comp_bound(v: Vec3)
    requires
        vbounded(v, 4398046511104),
        vsqlen(v).raw >= 1,
    ensures
        vbounded(vunit(v), 6442450944),
{
    lemma_square_floor(v.x, 4398046511104);
    lemma_square_floor(v.y, 4398046511104);
    lemma_square_floor(v.z, 4398046511104);
    let sq = vsqlen(v).raw as int;
    assert(sq == smul(v.x, v.x).raw + smul(v.y, v.y).raw + smul(v.z, v.z).raw);
    lemma_sqlen_nonneg(v);
    lemma_vlen_sqrt(v);
    let len = vlen(v).raw as int;
    assert(len >= 65536) by (nonlinear_arith)
        requires
            is_sqrt(sq * 4294967296, len),
            sq >= 1,
    ;
    assert(sq * 4294967296 < (len + 1) * (len + 1));
    let bound2 = sq * 4294967296 + 4294967296;
    assert(v.x.raw * v.x.raw < bound2);
    assert(v.y.raw * v.y.raw < bound2);
    assert(v.z.raw * v.z.raw < bound2);
    assert(4 * bound2 <= 9 * (len * len)) by (nonlinear_arith)
        requires
            bound2 == sq * 4294967296 + 4294967296,
            sq * 4294967296 < (len + 1) * (len + 1),
            len >= 65536,
    ;
    lemma_comp_div_bound(v.x, vlen(v), bound2);
    lemma_comp_div_bound(v.y, vlen(v), bound2);
    lemma_comp_div_bound(v.z, vlen(v), bound2);
}

/// Normalization accuracy: for a vector of real length at least one whose
/// components stay within `2^14` real units, the computed length of the
/// computed unit vector is within 4 raw units of one — an error under
/// `1e-9`.  Shorter vectors are excluded because truncating their squared
/// length to the `2^-32` grid destroys this precision.
pub proof fn lemma_unit_vector_accuracy(v: Vec3)
    requires
        vbounded(v, 70368744177664),
        vsqlen(v).raw >= SCALE,
    ensures
        iabs(vlen(vunit(v)).raw - SCALE) <= 4,
{
    let x1 = v.x.raw as int;
    let x2 = v.y.raw as int;
    let x3 = v.z.raw as int;
    let xx = x1 * x1 + x2 * x2 + x3 * x3;
    lemma_square_floor(v.x, 70368744177664);
    lemma_square_floor(v.y, 70368744177664);
    lemma_square_floor(v.z, 70368744177664);
    let sq = vsqlen(v).raw as int;
    assert(sq == smul(v.x, v.x).raw + smul(v.y, v.y).raw + smul(v.z, v.z).raw);
    assert(sq * 4294967296 <= xx && xx < sq * 4294967296 + 3 * 4294967296);
    lemma_sqlen_nonneg(v);
    lemma_vlen_sqrt(v);
    let len = vlen(v).raw as int;
    assert(len * len <= sq * 4294967296 && sq * 4294967296 < (len + 1) * (len + 1));
    assert(len >= 4294967296) by (nonlinear_arith)
        requires
            is_sqrt(sq * 4294967296, len),
            sq >= 4294967296,
    ;
    // The unit vector's components, bracketed by the division bounds.
    lemma_sdiv_floor(v.x, vlen(v), 70368744177664);
    lemma_sdiv_floor(v.y, vlen(v), 70368744177664);
    lemma_sdiv_floor(v.z, vlen(v), 70368744177664);
    let u1 = vunit(v).x.raw as int;
    let u2 = vunit(v).y.raw as int;
    let u3 = vunit(v).z.raw as int;
    let xa1 = iabs(x1) * 4294967296;
    let xa2 = iabs(x2) * 4294967296;
    let xa3 = iabs(x3) * 4294967296;
    lemma_div_lower_square(xa1, len, iabs(u1));
    lemma_div_lower_square(xa2, len, iabs(u2));
    lemma_div_lower_square(xa3, len, iabs(u3));
    assert(iabs(u1) * iabs(u1) == u1 * u1 && iabs(x1) * iabs(x1) == x1 * x1 && xa1 * xa1 == x1 * x1
        * (4294967296 * 4294967296)) by (nonlinear_arith)
        requires
            xa1 == iabs(x1) * 4294967296,
    ;
    assert(iabs(u2) * iabs(u2) == u2 * u2 && iabs(x2) * iabs(x2) == x2 * x2 && xa2 * xa2 == x2 * x2
        * (4294967296 * 4294967296)) by (nonlinear_arith)
        requires
            xa2 == iabs(x2) * 4294967296,
    ;
    assert(iabs(u3) * iabs(u3) == u3 * u3 && iabs(x3) * iabs(x3) == x3 * x3 && xa3 * xa3 == x3 * x3
        * (4294967296 * 4294967296)) by (nonlinear_arith)
        requires
            xa3 == iabs(x3) * 4294967296,
    ;
    // The sum of component magnitudes is at most twice the length.
    let t = iabs(x1) + iabs(x2) + iabs(x3);
    lemma_sum_square_bound(iabs(x1), iabs(x2), iabs(x3));
    assert(t * t <= 3 * xx) by (nonlinear_arith)
        requires
            t == iabs(x1) + iabs(x2) + iabs(x3),
            (iabs(x1) + iabs(x2) + iabs(x3)) * (iabs(x1) + iabs(x2) + iabs(x3)) <= 3 * (iabs(x1)
                * iabs(x1) + iabs(x2) * iabs(x2) + iabs(x3) * iabs(x3)),
            iabs(x1) * iabs(x1) == x1 * x1,
            iabs(x2) * iabs(x2) == x2 * x2,
            iabs(x3) * iabs(x3) == x3 * x3,
            xx == x1 * x1 + x2 * x2 + x3 * x3,
    ;
    assert(t <= 2 * len) by (nonlinear_arith)
        requires
            t >= 0,
            t * t <= 3 * xx,
            xx < sq * 4294967296 + 3 * 4294967296,
            sq * 4294967296 < (len + 1) * (len + 1),
            len >= 4294967296,
    ;
    // The squared length of the unit vector, above and below.
    let uu = u1 * u1 + u2 * u2 + u3 * u3;
    assert(uu * (len * len) <= 4294967296 * 4294967296 * xx) by (nonlinear_arith)
        requires
            uu == u1 * u1 + u2 * u2 + u3 * u3,
            u1 * u1 * (len * len) <= xa1 * xa1,
            u2 * u2 * (len * len) <= xa2 * xa2,
            u3 * u3 * (len * len) <= xa3 * xa3,
            xa1 * xa1 == x1 * x1 * (4294967296 * 4294967296),
            xa2 * xa2 == x2 * x2 * (4294967296 * 4294967296),
            xa3 * xa3 == x3 * x3 * (4294967296 * 4294967296),
            xx == x1 * x1 + x2 * x2 + x3 * x3,
    ;
    assert(uu <= 4294967296 * 4294967296 + 5 * 4294967296) by (nonlinear_arith)
        requires
            uu >= 0,
            uu * (len * len) <= 4294967296 * 4294967296 * xx,
            xx < sq * 4294967296 + 3 * 4294967296,
            sq * 4294967296 < (len + 1) * (len + 1),
            len >= 4294967296,
    ;
    assert(uu * (len * len) > 4294967296 * 4294967296 * xx - 2 * (4294967296 * t) * len - 3 * (len
        * len)) by (nonlinear_arith)
        requires
            uu == u1 * u1 + u2 * u2 + u3 * u3,
            u1 * u1 * (len * len) > xa1 * xa1 - 2 * xa1 * len - len * len,
            u2 * u2 * (len * len) > xa2 * xa2 - 2 * xa2 * len - len * len,
            u3 * u3 * (len * len) > xa3 * xa3 - 2 * xa3 * len - len * len,
            xa1 * xa1 == x1 * x1 * (4294967296 * 4294967296),
            xa2 * xa2 == x2 * x2 * (4294967296 * 4294967296),
            xa3 * xa3 == x3 * x3 * (4294967296 * 4294967296),
            xa1 == iabs(x1) * 4294967296,
            xa2 == iabs(x2) * 4294967296,
            xa3 == iabs(x3) * 4294967296,
            t == iabs(x1) + iabs(x2) + iabs(x3),
            xx == x1 * x1 + x2 * x2 + x3 * x3,
    ;
    assert(uu > 4294967296 * 4294967296 - 4 * 4294967296 - 3) by (nonlinear_arith)
        requires
            uu * (len * len) > 4294967296 * 4294967296 * xx - 2 * (4294967296 * t) * len - 3 * (len
                * len),
            xx >= len * len,
            t <= 2 * len,
            t >= 0,
            len >= 4294967296,
    ;
    // The stored squared length of the unit vector, then its length.
    lemma_square_floor(vunit(v).x, 70368744177664);
    lemma_square_floor(vunit(v).y, 70368744177664);
    lemma_square_floor(vunit(v).z, 70368744177664);
    let sq2 = vsqlen(vunit(v)).raw as int;
    assert(sq2 == smul(vunit(v).x, vunit(v).x).raw + smul(vunit(v).y, vunit(v).y).raw + smul(
        vunit(v).z,
        vunit(v).z,
    ).raw);
    assert(sq2 * 4294967296 <= uu && uu < sq2 * 4294967296 + 3 * 4294967296);
    assert(4294967296 - 7 <= sq2 <= 4294967296 + 5) by (nonlinear_arith)
        requires
            sq2 * 4294967296 <= uu,
            uu < sq2 * 4294967296 + 3 * 4294967296,
            uu <= 4294967296 * 4294967296 + 5 * 4294967296,
            uu > 4294967296 * 4294967296 - 4 * 4294967296 - 3,
    ;
    lemma_sqlen_nonneg(vunit(v));
    lemma_vlen_sqrt(vunit(v));
    let len2 = vlen(vunit(v)).raw as int;
    assert(4294967296 - 4 <= len2 <= 4294967296 + 2) by (nonlinear_arith)
        requires
            is_sqrt(sq2 * 4294967296, len2),
            4294967296 - 7 <= sq2 <= 4294967296 + 5,
    ;
}

} // verus!
