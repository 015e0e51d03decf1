//! Fixed-point real arithmetic.
//!
//! A [`Scalar`] stores a real number as a signed count of multiples of
//! `2^-32`.  Every arithmetic operation saturates to the symmetric range
//! `[-MAX_RAW, MAX_RAW]` and is specified exactly: the spec functions
//! `sadd`, `ssub`, `sneg`, `smul`, `sdiv` and `ssqrt` say, over the
//! mathematical integers, precisely which raw value each operation returns,
//! including the truncation of division toward zero and the saturation.

use vstd::prelude::*;

verus! {

/// Number of raw units per one real unit: values are multiples of `2^-32`.
pub const SCALE: i64 = 4294967296;

/// Largest raw value a [`Scalar`] may hold.
pub const MAX_RAW: i64 = 9223372036854775807;

/// Smallest raw value a [`Scalar`] may hold.  Symmetric with [`MAX_RAW`]
/// so that negation of a saturated value never overflows.
pub const MIN_RAW: i64 = -9223372036854775807;

/// A fixed-point real number; `raw` counts multiples of `2^-32`.
#[derive(Clone, Copy, Debug, PartialEq, Eq, Structural)]
pub struct Scalar {
    pub raw: i64,
}

/// Magnitude of an integer.
pub open spec fn iabs(a: int) -> int {
    if a >= 0 {
        a
    } else {
        -a
    }
}

/// Division truncated toward zero, the rounding the machine performs.
pub open spec fn tdiv(a: int, b: int) -> int {
    if (a >= 0) == (b >= 0) {
        iabs(a) / iabs(b)
    } else {
        -(iabs(a) / iabs(b))
    }
}

/// Saturation of an integer to the symmetric raw range.
pub open spec fn clip(a: int) -> int {
    if a > MAX_RAW {
        MAX_RAW as int
    } else if a < MIN_RAW {
        MIN_RAW as int
    } else {
        a
    }
}

/// The scalar whose raw value is `a`, saturated.
pub open spec fn sc(a: int) -> Scalar {
    Scalar { raw: clip(a) as i64 }
}

/// Saturating fixed-point addition.
pub open spec fn sadd(a: Scalar, b: Scalar) -> Scalar {
    sc(a.raw + b.raw)
}

/// Saturating fixed-point subtraction.
pub open spec fn ssub(a: Scalar, b: Scalar) -> Scalar {
    sc(a.raw - b.raw)
}

/// Saturating fixed-point negation.
pub open spec fn sneg(a: Scalar) -> Scalar {
    sc(-a.raw)
}

/// Saturating fixed-point multiplication: the exact product has scale
/// `2^-64`, so it is divided by [`SCALE`], truncating toward zero.
pub open spec fn smul(a: Scalar, b: Scalar) -> Scalar {
    sc(tdiv(a.raw * b.raw, SCALE as int))
}

/// Saturating fixed-point division, truncating toward zero.
/// Unspecified when `b.raw == 0`; executable code requires a nonzero divisor.
pub open spec fn sdiv(a: Scalar, b: Scalar) -> Scalar {
    sc(tdiv(a.raw * SCALE, b.raw as int))
}

/// `r` is the integer square root of `x`, rounded down.
pub open spec fn is_sqrt(x: int, r: int) -> bool {
    0 <= r && r * r <= x && x < (r + 1) * (r + 1)
}

/// The integer square root of `x`, rounded down.  Meaningful for `x >= 0`.
pub open spec fn sqrt_floor(x: int) -> int {
    choose|r: int| is_sqrt(x, r)
}

/// Fixed-point square root, rounded down: `sqrt(v / 2^32) * 2^32 ==
/// sqrt(v * 2^32)` on raw values.  Meaningful for `a.raw >= 0`.
pub open spec fn ssqrt(a: Scalar) -> Scalar {
    Scalar { raw: sqrt_floor(a.raw * SCALE) as i64 }
}

/// Magnitude and sign of a truncated quotient, from those of its operands.
pub proof fn lemma_tdiv_parts(a: int, b: int)
    by (nonlinear_arith)
    requires
        b != 0,
    ensures
        iabs(tdiv(a, b)) == iabs(a) / iabs(b),
        ((a >= 0) == (b >= 0)) ==> tdiv(a, b) >= 0,
        ((a >= 0) != (b >= 0)) ==> tdiv(a, b) <= 0,
{
}

/// The integer square root exists for every non-negative argument, so
/// `sqrt_floor` denotes it.
pub proof fn lemma_sqrt_exists(x: int)
    requires
        x >= 0,
    ensures
        is_sqrt(x, sqrt_floor(x)),
    decreases x,
{
    if x == 0 {
        assert(is_sqrt(0, 0));
        assert(is_sqrt(x, sqrt_floor(x)));
    } else {
        lemma_sqrt_exists(x - 1);
        let r = sqrt_floor(x - 1);
        if x < (r + 1) * (r + 1) {
            assert(is_sqrt(x, r));
        } else {
            assert(is_sqrt(x, r + 1)) by (nonlinear_arith)
                requires
                    is_sqrt(x - 1, r),
                    x >= (r + 1) * (r + 1),
            ;
        }
        assert(is_sqrt(x, sqrt_floor(x)));
    }
}

/// The integer square root is unique.
pub proof fn lemma_sqrt_unique(x: int, r1: int, r2: int)
    by (nonlinear_arith)
    requires
        is_sqrt(x, r1),
        is_sqrt(x, r2),
    ensures
        r1 == r2,
{
}

/// Saturation never increases a magnitude.
pub proof fn lemma_clip_mag(a: int)
    ensures
        iabs(clip(a)) <= iabs(a),
        MIN_RAW <= clip(a) <= MAX_RAW,
{
}

/// Truncated division by a positive divisor never increases a bound on the
/// magnitude of the dividend divided by the divisor.
pub proof fn lemma_tdiv_mag(a: int, b: int, m: int)
    by (nonlinear_arith)
    requires
        b > 0,
        iabs(a) <= m,
    ensures
        iabs(tdiv(a, b)) <= m / b,
{
}

/// Magnitude of a product of bounded factors.
pub proof fn lemma_mul_mag(a: int, b: int, ka: int, kb: int)
    by (nonlinear_arith)
    requires
        iabs(a) <= ka,
        iabs(b) <= kb,
    ensures
        iabs(a * b) <= ka * kb,
        iabs(a * b) == iabs(a) * iabs(b),
{
}

/// Magnitude of a saturating fixed-point product of bounded factors.
pub proof fn lemma_smul_mag(a: Scalar, b: Scalar, ka: int, kb: int)
    requires
        iabs(a.raw as int) <= ka,
        iabs(b.raw as int) <= kb,
    ensures
        iabs(smul(a, b).raw as int) <= (ka * kb) / (SCALE as int),
{
    lemma_mul_mag(a.raw as int, b.raw as int, ka, kb);
    lemma_tdiv_mag(a.raw as int * b.raw as int, SCALE as int, ka * kb);
    lemma_clip_mag(tdiv(a.raw as int * b.raw as int, SCALE as int));
}

impl Scalar {
    /// The scalar with the given raw value (a count of multiples of `2^-32`).
    pub fn new(raw: i64) -> (r: Scalar)
        ensures
            r.raw == raw,
    {
        Scalar { raw }
    }

    /// The scalar representing the integer `i`.
    pub fn from_int(i: i64) -> (r: Scalar)
        ensures
            r.raw as int == clip(i * SCALE),
    {
        proof {
            assert(-170141183460469231731687303715884105728 <= (i as int) * 4294967296
                <= 170141183460469231731687303715884105727) by (nonlinear_arith)
                requires
                    -9223372036854775808 <= i as int <= 9223372036854775807,
            ;
        }
        let p: i128 = (i as i128) * (SCALE as i128);
        Scalar { raw: clamp128(p) }
    }

    /// Saturating addition.
    pub fn add(self, o: Scalar) -> (r: Scalar)
        ensures
            r == sadd(self, o),
    {
        let s: i128 = (self.raw as i128) + (o.raw as i128);
        Scalar { raw: clamp128(s) }
    }

    /// Saturating subtraction.
    pub fn sub(self, o: Scalar) -> (r: Scalar)
        ensures
            r == ssub(self, o),
    {
        let s: i128 = (self.raw as i128) - (o.raw as i128);
        Scalar { raw: clamp128(s) }
    }

    /// Saturating negation.
    pub fn neg(self) -> (r: Scalar)
        ensures
            r == sneg(self),
    {
        let s: i128 = -(self.raw as i128);
        Scalar { raw: clamp128(s) }
    }

    /// Saturating fixed-point multiplication, truncating toward zero.
    pub fn mul(self, o: Scalar) -> (r: Scalar)
        ensures
            r == smul(self, o),
    {
        let neg: bool = (self.raw < 0) != (o.raw < 0);
        let ma: u64 = abs_mag(self.raw);
        let mb: u64 = abs_mag(o.raw);
        proof {
            lemma_u64_mul_fits(ma as int, mb as int);
        }
        let p: u128 = (ma as u128) * (mb as u128);
        let q: u128 = p / (SCALE as u128);
        proof {
            lemma_mul_mag(self.raw as int, o.raw as int, iabs(self.raw as int), iabs(o.raw as int));
            lemma_tdiv_parts(self.raw as int * o.raw as int, SCALE as int);
            lemma_sign_split(self.raw as int, o.raw as int);
        }
        signed_from_mag(neg, q, Ghost(tdiv(self.raw as int * o.raw as int, SCALE as int)))
    }

    /// Saturating fixed-point division, truncating toward zero.
    pub fn div(self, o: Scalar) -> (r: Scalar)
        requires
            o.raw != 0,
        ensures
            r == sdiv(self, o),
    {
        let neg: bool = (self.raw < 0) != (o.raw < 0);
        let ma: u64 = abs_mag(self.raw);
        let mb: u64 = abs_mag(o.raw);
        let p: u128 = (ma as u128) * (SCALE as u128);
        let q: u128 = p / (mb as u128);
        proof {
            lemma_mul_mag(self.raw as int, SCALE as int, iabs(self.raw as int), SCALE as int);
            lemma_tdiv_parts(self.raw as int * SCALE, o.raw as int);
            lemma_sign_split(self.raw as int, SCALE as int);
        }
        signed_from_mag(neg, q, Ghost(tdiv(self.raw as int * SCALE, o.raw as int)))
    }

    /// Fixed-point square root, rounded down.
    pub fn sqrt(self) -> (r: Scalar)
        requires
            self.raw >= 0,
        ensures
            r == ssqrt(self),
            r.raw >= 0,
            is_sqrt(self.raw * SCALE, r.raw as int),
    {
        proof {
            assert((self.raw as int) * 4294967296 <= 9223372036854775807 * 4294967296)
                by (nonlinear_arith)
                requires
                    0 <= self.raw as int <= 9223372036854775807,
            ;
        }
        let x: u128 = (self.raw as u128) * (SCALE as u128);
        let s: u64 = isqrt_u128(x);
        proof {
            assert((s as int) <= 281474976710656) by (nonlinear_arith)
                requires
                    s as int * s as int <= x as int,
                    x as int <= 9223372036854775807 * 4294967296,
                    s as int >= 0,
            ;
            assert(is_sqrt(self.raw * SCALE, sqrt_floor(self.raw * SCALE))) by {
                assert(is_sqrt(x as int, s as int));
            }
            lemma_sqrt_unique(self.raw * SCALE, s as int, sqrt_floor(self.raw * SCALE));
        }
        Scalar { raw: s as i64 }
    }
}

/// Multiplying a raw value by [`SCALE`] and truncating the product back
/// down by [`SCALE`] returns the value unchanged.
pub proof fn lemma_tdiv_scale_cancel(a: int)
    by (nonlinear_arith)
    ensures
        tdiv(a * 4294967296, 4294967296) == a,
{
}

/// Multiplication by plus or minus one (in raw units, `SCALE`) is exact:
/// it returns the other operand, possibly negated.
pub proof fn lemma_smul_pm_one(a: Scalar, n: Scalar)
    requires
        n.raw == SCALE || n.raw == -SCALE,
        -4611686018427387904 <= a.raw <= 4611686018427387904,
    ensures
        smul(a, n).raw as int == if n.raw == SCALE {
            a.raw as int
        } else {
            -(a.raw as int)
        },
        smul(n, a) == smul(a, n),
{
    if n.raw == SCALE {
        lemma_tdiv_scale_cancel(a.raw as int);
        assert(a.raw as int * (n.raw as int) == a.raw as int * 4294967296) by (nonlinear_arith)
            requires
                n.raw as int == 4294967296,
        ;
        assert(n.raw as int * (a.raw as int) == a.raw as int * (n.raw as int)) by (nonlinear_arith);
    } else {
        lemma_tdiv_scale_cancel(-(a.raw as int));
        assert(a.raw as int * (n.raw as int) == -(a.raw as int) * 4294967296) by (nonlinear_arith)
            requires
                n.raw as int == -4294967296,
        ;
        assert(n.raw as int * (a.raw as int) == a.raw as int * (n.raw as int)) by (nonlinear_arith);
    }
}

/// The floor bracket of Euclidean division for a nonnegative dividend.
pub proof fn lemma_div_bracket(a: int, b: int)
    by (nonlinear_arith)
    requires
        a >= 0,
        b > 0,
    ensures
        b * (a / b) <= a < b * (a / b) + b,
        a / b >= 0,
{
}

/// The product of nonnegative scalars is nonnegative.
pub proof fn lemma_smul_nonneg(a: Scalar, b: Scalar)
    requires
        a.raw >= 0,
        b.raw >= 0,
    ensures
        smul(a, b).raw >= 0,
{
    lemma_sign_split(a.raw as int, b.raw as int);
    lemma_tdiv_parts(a.raw as int * b.raw as int, SCALE as int);
}

/// Multiplication by zero is zero.
pub proof fn lemma_smul_zero(a: Scalar)
    ensures
        smul(a, Scalar { raw: 0 }).raw == 0,
        smul(Scalar { raw: 0 }, a).raw == 0,
{
    assert(a.raw as int * 0 == 0) by (nonlinear_arith);
    assert(0 * (a.raw as int) == 0) by (nonlinear_arith);
    assert(tdiv(0, SCALE as int) == 0);
}

/// The product of two unsigned 64-bit magnitudes fits in 128 bits.
proof fn lemma_u64_mul_fits(a: int, b: int)
    by (nonlinear_arith)
    requires
        0 <= a <= 18446744073709551615,
        0 <= b <= 18446744073709551615,
    ensures
        0 <= a * b <= 340282366920938463463374607431768211455,
{
}

/// The sign of a product is determined by the signs of its factors.
pub proof fn lemma_sign_split(a: int, b: int)
    by (nonlinear_arith)
    ensures
        (a >= 0 && b >= 0) ==> a * b >= 0,
        (a <= 0 && b <= 0) ==> a * b >= 0,
        (a >= 0 && b <= 0) ==> a * b <= 0,
        (a <= 0 && b >= 0) ==> a * b <= 0,
        (a < 0 && b > 0) ==> a * b < 0,
        (a > 0 && b < 0) ==> a * b < 0,
        (a < 0 && b < 0) ==> a * b > 0,
        (a > 0 && b > 0) ==> a * b > 0,
{
}

/// Saturate a 128-bit intermediate back to the raw range.
fn clamp128(v: i128) -> (r: i64)
    ensures
        r as int == clip(v as int),
{
    if v > MAX_RAW as i128 {
        MAX_RAW
    } else if v < MIN_RAW as i128 {
        MIN_RAW
    } else {
        v as i64
    }
}

/// Magnitude of a raw value, as an unsigned integer.
fn abs_mag(a: i64) -> (r: u64)
    ensures
        r as int == iabs(a as int),
{
    if a >= 0 {
        a as u64
    } else {
        (-(a as i128)) as u64
    }
}

/// Reassemble a truncated quotient from its sign and magnitude, saturating.
/// The ghost argument carries the exact truncated quotient the caller
/// computed, `q` its magnitude and `neg` whether it is negated.
fn signed_from_mag(neg: bool, q: u128, exact: Ghost<int>) -> (r: Scalar)
    requires
        q == iabs(exact@),
        neg ==> exact@ <= 0,
        !neg ==> exact@ >= 0,
    ensures
        r.raw as int == clip(exact@),
{
    if q > MAX_RAW as u128 {
        if neg {
            Scalar { raw: MIN_RAW }
        } else {
            Scalar { raw: MAX_RAW }
        }
    } else {
        if neg {
            Scalar { raw: -((q as i64)) }
        } else {
            Scalar { raw: q as i64 }
        }
    }
}

/// Integer square root of a 128-bit value, rounded down, by binary search.
pub fn isqrt_u128(x: u128) -> (r: u64)
    ensures
        is_sqrt(x as int, r as int),
{
    let mut lo: u64 = 0;
    let mut hi: u64 = 18446744073709551615;
    proof {
        assert((hi as int + 1) * (hi as int + 1) > x as int) by (nonlinear_arith)
            requires
                hi as int == 18446744073709551615,
                x as int <= u128::MAX as int,
        ;
    }
    while lo < hi
        invariant
            lo <= hi,
            (lo as int) * (lo as int) <= x as int,
            (x as int) < ((hi as int + 1) * (hi as int + 1)),
        decreases hi - lo,
    {
        let mid: u64 = (((lo as u128) + (hi as u128) + 1) / 2) as u64;
        proof {
            assert((mid as int) * (mid as int) <= 18446744073709551615 * 18446744073709551615)
                by (nonlinear_arith)
                requires
                    0 <= mid as int <= 18446744073709551615,
            ;
        }
        let sq: u128 = (mid as u128) * (mid as u128);
        if sq <= x {
            lo = mid;
        } else {
            hi = mid - 1;
        }
    }
    lo
}

} // verus!
