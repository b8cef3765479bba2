//! Three-component fixed-point vectors, used for positions, directions
//! and colors alike.

use vstd::prelude::*;
use crate::fixed::FP_MAX;
use crate::fixed::SCALE;
use crate::fixed::is_isqrt;
use crate::fixed::lemma_isqrt_unique;
use crate::rng::RandomSource;
use crate::fixed::dot_sum_spec;
use crate::fixed::fp_add;
use crate::fixed::fp_add_spec;
use crate::fixed::fp_div;
use crate::fixed::fp_div_spec;
use crate::fixed::fp_mul;
use crate::fixed::fp_mul_spec;
use crate::fixed::fp_neg;
use crate::fixed::fp_neg_spec;
use crate::fixed::fp_sqrt;
use crate::fixed::fp_sqrt_spec;
use crate::fixed::fp_sub;
use crate::fixed::fp_sub_spec;
use crate::fixed::sat;
use crate::fixed::saturate_quotient;
use crate::fixed::tdiv;

verus! {

/// A vector of three fixed-point components.
#[derive(Clone, Copy, PartialEq, Eq, Structural, Debug)]
pub struct Vec3 {
    pub x: i64,
    pub y: i64,
    pub z: i64,
}

/// A position in space.
pub type Point3 = Vec3;

/// A radiance or albedo triple.
pub type Color = Vec3;

/// Every component lies in the representable fixed-point range.
pub open spec fn in_range(v: Vec3) -> bool {
    &&& -FP_MAX <= v.x <= FP_MAX
    &&& -FP_MAX <= v.y <= FP_MAX
    &&& -FP_MAX <= v.z <= FP_MAX
}

/// The dot product of two vectors: products are accumulated exactly
/// and rescaled once.
pub open spec fn dot_spec(a: Vec3, b: Vec3) -> int {
    sat(tdiv(dot_sum_spec(a.x as int, a.y as int, a.z as int, b.x as int, b.y as int, b.z as int), SCALE as int))
}

pub open spec fn cross_term_spec(p: int, q: int, r: int, s: int) -> int {
    sat(tdiv(p * q - r * s, SCALE as int))
}

pub open spec fn length_spec(v: Vec3) -> int {
    fp_sqrt_spec(dot_spec(v, v))
}

pub open spec fn add_spec(a: Vec3, b: Vec3) -> Vec3 {
    Vec3 {
        x: fp_add_spec(a.x as int, b.x as int) as i64,
        y: fp_add_spec(a.y as int, b.y as int) as i64,
        z: fp_add_spec(a.z as int, b.z as int) as i64,
    }
}

pub open spec fn sub_spec(a: Vec3, b: Vec3) -> Vec3 {
    Vec3 {
        x: fp_sub_spec(a.x as int, b.x as int) as i64,
        y: fp_sub_spec(a.y as int, b.y as int) as i64,
        z: fp_sub_spec(a.z as int, b.z as int) as i64,
    }
}

pub open spec fn neg_spec(v: Vec3) -> Vec3 {
    Vec3 {
        x: fp_neg_spec(v.x as int) as i64,
        y: fp_neg_spec(v.y as int) as i64,
        z: fp_neg_spec(v.z as int) as i64,
    }
}

pub open spec fn scale_spec(v: Vec3, t: int) -> Vec3 {
    Vec3 {
        x: fp_mul_spec(v.x as int, t) as i64,
        y: fp_mul_spec(v.y as int, t) as i64,
        z: fp_mul_spec(v.z as int, t) as i64,
    }
}

pub open spec fn mul_spec(a: Vec3, b: Vec3) -> Vec3 {
    Vec3 {
        x: fp_mul_spec(a.x as int, b.x as int) as i64,
        y: fp_mul_spec(a.y as int, b.y as int) as i64,
        z: fp_mul_spec(a.z as int, b.z as int) as i64,
    }
}

/// Direction of a vector with unit length; the zero vector (which has
/// no direction) is left unchanged.
pub open spec fn normalized_spec(v: Vec3) -> Vec3 {
    let len = length_spec(v);
    if len == 0 {
        v
    } else {
        Vec3 {
            x: fp_div_spec(v.x as int, len) as i64,
            y: fp_div_spec(v.y as int, len) as i64,
            z: fp_div_spec(v.z as int, len) as i64,
        }
    }
}

/// Mirror of a vector about a normal, in fixed point.
pub open spec fn reflect_spec(v: Vec3, n: Vec3) -> Vec3 {
    let d = dot_spec(v, n);
    let twice = fp_add_spec(d, d);
    sub_spec(v, scale_spec(n, twice))
}

/// Snell refraction of a unit vector `uv` through a normal `n` with
/// index ratio `ratio`, in fixed point.
pub open spec fn refract_spec(uv: Vec3, n: Vec3, ratio: int) -> Vec3 {
    let mcos = dot_spec(neg_spec(uv), n);
    let cos_theta = if mcos < SCALE {
        mcos
    } else {
        SCALE as int
    };
    let r_out_perp = scale_spec(add_spec(uv, scale_spec(n, cos_theta)), ratio);
    let k = fp_sub_spec(SCALE as int, dot_spec(r_out_perp, r_out_perp));
    let k_abs = if k < 0 {
        fp_neg_spec(k)
    } else {
        k
    };
    let r_out_parallel = scale_spec(n, fp_neg_spec(fp_sqrt_spec(k_abs)));
    add_spec(r_out_perp, r_out_parallel)
}

/// Componentwise product bound used to justify the `i128` accumulator.
proof fn lemma_prod_bound(a: int, b: int)
    requires
        -FP_MAX <= a <= FP_MAX,
        -FP_MAX <= b <= FP_MAX,
    ensures
        -0x1000_0000_0000_0000_0000_0000_0000_0000 < a * b < 0x1000_0000_0000_0000_0000_0000_0000_0000,
{
    assert(-0x1000_0000_0000_0000_0000_0000_0000_0000 < a * b < 0x1000_0000_0000_0000_0000_0000_0000_0000)
        by (nonlinear_arith)
        requires
            -FP_MAX <= a <= FP_MAX,
            -FP_MAX <= b <= FP_MAX,
    ;
}

/// A dot product of a vector with itself is nonnegative.
pub proof fn lemma_dot_self_nonneg(v: Vec3)
    ensures
        dot_spec(v, v) >= 0,
{
    assert((v.x as int) * (v.x as int) >= 0) by (nonlinear_arith);
    assert((v.y as int) * (v.y as int) >= 0) by (nonlinear_arith);
    assert((v.z as int) * (v.z as int) >= 0) by (nonlinear_arith);
    let s = dot_sum_spec(v.x as int, v.y as int, v.z as int, v.x as int, v.y as int, v.z as int);
    vstd::arithmetic::div_mod::lemma_div_pos_is_pos(s, SCALE as int);
}

/// The dot product is symmetric.
pub proof fn lemma_dot_comm(a: Vec3, b: Vec3)
    ensures
        dot_spec(a, b) == dot_spec(b, a),
{
    let s1 = dot_sum_spec(a.x as int, a.y as int, a.z as int, b.x as int, b.y as int, b.z as int);
    let s2 = dot_sum_spec(b.x as int, b.y as int, b.z as int, a.x as int, a.y as int, a.z as int);
    assert(s1 == s2) by (nonlinear_arith)
        requires
            s1 == (a.x as int) * (b.x as int) + (a.y as int) * (b.y as int) + (a.z as int) * (b.z as int),
            s2 == (b.x as int) * (a.x as int) + (b.y as int) * (a.y as int) + (b.z as int) * (a.z as int),
    ;
}

/// The zero vector has length zero.
pub proof fn lemma_zero_length(o: Vec3)
    requires
        o.x == 0,
        o.y == 0,
        o.z == 0,
    ensures
        length_spec(o) == 0,
        dot_spec(o, o) == 0,
{
    vstd::arithmetic::div_mod::lemma_div_of0(SCALE as int);
    assert(dot_spec(o, o) == 0);
    assert(is_isqrt(0, 0));
    lemma_isqrt_unique(0, 0);
}

/// Negating one argument of a dot product negates the result exactly:
/// saturation and truncation are both symmetric around zero.
pub proof fn lemma_dot_neg(v: Vec3, w: Vec3, nv: Vec3)
    requires
        in_range(v),
        nv.x == fp_neg_spec(v.x as int),
        nv.y == fp_neg_spec(v.y as int),
        nv.z == fp_neg_spec(v.z as int),
    ensures
        dot_spec(nv, w) == -dot_spec(v, w),
{
    assert(nv.x == -(v.x as int) && nv.y == -(v.y as int) && nv.z == -(v.z as int));
    let s = dot_sum_spec(v.x as int, v.y as int, v.z as int, w.x as int, w.y as int, w.z as int);
    let sn = dot_sum_spec(nv.x as int, nv.y as int, nv.z as int, w.x as int, w.y as int, w.z as int);
    assert(sn == -s) by (nonlinear_arith)
        requires
            nv.x == -(v.x as int) && nv.y == -(v.y as int) && nv.z == -(v.z as int),
            s == (v.x as int) * (w.x as int) + (v.y as int) * (w.y as int) + (v.z as int) * (w.z as int),
            sn == (nv.x as int) * (w.x as int) + (nv.y as int) * (w.y as int) + (nv.z as int) * (w.z as int),
    ;
    assert(tdiv(sn, SCALE as int) == -tdiv(s, SCALE as int));
}

/// Negation preserves length.
pub proof fn lemma_length_neg(v: Vec3, nv: Vec3)
    requires
        in_range(v),
        nv.x == fp_neg_spec(v.x as int),
        nv.y == fp_neg_spec(v.y as int),
        nv.z == fp_neg_spec(v.z as int),
    ensures
        dot_spec(nv, nv) == dot_spec(v, v),
        length_spec(nv) == length_spec(v),
{
    let s = dot_sum_spec(v.x as int, v.y as int, v.z as int, v.x as int, v.y as int, v.z as int);
    let sn = dot_sum_spec(nv.x as int, nv.y as int, nv.z as int, nv.x as int, nv.y as int, nv.z as int);
    assert(sn == s) by (nonlinear_arith)
        requires
            nv.x == -(v.x as int) && nv.y == -(v.y as int) && nv.z == -(v.z as int),
            s == (v.x as int) * (v.x as int) + (v.y as int) * (v.y as int) + (v.z as int) * (v.z as int),
            sn == (nv.x as int) * (nv.x as int) + (nv.y as int) * (nv.y as int) + (nv.z as int) * (nv.z as int),
    ;
}

impl Vec3 {
    /// Build a vector, clamping each component into the fixed-point
    /// range so that every `Vec3` the library hands out is usable.
    pub fn new(e0: i64, e1: i64, e2: i64) -> (r: Vec3)
        ensures
            r.x == sat(e0 as int),
            r.y == sat(e1 as int),
            r.z == sat(e2 as int),
            in_range(r),
    {
        Vec3 { x: clamp_component(e0), y: clamp_component(e1), z: clamp_component(e2) }
    }

    pub fn x(self) -> (r: i64)
        ensures
            r == self.x,
    {
        self.x
    }

    pub fn y(self) -> (r: i64)
        ensures
            r == self.y,
    {
        self.y
    }

    pub fn z(self) -> (r: i64)
        ensures
            r == self.z,
    {
        self.z
    }

    pub fn add(self, rhs: Vec3) -> (r: Vec3)
        ensures
            r.x == fp_add_spec(self.x as int, rhs.x as int),
            r.y == fp_add_spec(self.y as int, rhs.y as int),
            r.z == fp_add_spec(self.z as int, rhs.z as int),
            in_range(r),
    {
        Vec3 { x: fp_add(self.x, rhs.x), y: fp_add(self.y, rhs.y), z: fp_add(self.z, rhs.z) }
    }

    pub fn sub(self, rhs: Vec3) -> (r: Vec3)
        ensures
            r.x == fp_sub_spec(self.x as int, rhs.x as int),
            r.y == fp_sub_spec(self.y as int, rhs.y as int),
            r.z == fp_sub_spec(self.z as int, rhs.z as int),
            in_range(r),
    {
        Vec3 { x: fp_sub(self.x, rhs.x), y: fp_sub(self.y, rhs.y), z: fp_sub(self.z, rhs.z) }
    }

    pub fn neg(self) -> (r: Vec3)
        ensures
            r.x == fp_neg_spec(self.x as int),
            r.y == fp_neg_spec(self.y as int),
            r.z == fp_neg_spec(self.z as int),
            in_range(r),
    {
        Vec3 { x: fp_neg(self.x), y: fp_neg(self.y), z: fp_neg(self.z) }
    }

    /// Componentwise product; this is how attenuation filters color.
    pub fn mul(self, rhs: Vec3) -> (r: Vec3)
        ensures
            r.x == fp_mul_spec(self.x as int, rhs.x as int),
            r.y == fp_mul_spec(self.y as int, rhs.y as int),
            r.z == fp_mul_spec(self.z as int, rhs.z as int),
            in_range(r),
    {
        Vec3 { x: fp_mul(self.x, rhs.x), y: fp_mul(self.y, rhs.y), z: fp_mul(self.z, rhs.z) }
    }

    /// Scale by a fixed-point factor.
    pub fn scale(self, t: i64) -> (r: Vec3)
        ensures
            r.x == fp_mul_spec(self.x as int, t as int),
            r.y == fp_mul_spec(self.y as int, t as int),
            r.z == fp_mul_spec(self.z as int, t as int),
            in_range(r),
    {
        Vec3 { x: fp_mul(self.x, t), y: fp_mul(self.y, t), z: fp_mul(self.z, t) }
    }

    /// Divide by a nonzero fixed-point factor.
    pub fn div_scalar(self, t: i64) -> (r: Vec3)
        requires
            t != 0,
        ensures
            r.x == fp_div_spec(self.x as int, t as int),
            r.y == fp_div_spec(self.y as int, t as int),
            r.z == fp_div_spec(self.z as int, t as int),
            in_range(r),
    {
        Vec3 { x: fp_div(self.x, t), y: fp_div(self.y, t), z: fp_div(self.z, t) }
    }

    pub fn dot(self, other: Vec3) -> (r: i64)
        requires
            in_range(self),
            in_range(other),
        ensures
            r == dot_spec(self, other),
            -FP_MAX <= r <= FP_MAX,
    {
        proof {
            lemma_prod_bound(self.x as int, other.x as int);
            lemma_prod_bound(self.y as int, other.y as int);
            lemma_prod_bound(self.z as int, other.z as int);
        }
        let px: i128 = (self.x as i128) * (other.x as i128);
        let py: i128 = (self.y as i128) * (other.y as i128);
        let pz: i128 = (self.z as i128) * (other.z as i128);
        saturate_quotient(px + py + pz, SCALE as i128)
    }

    pub fn cross(self, other: Vec3) -> (r: Vec3)
        requires
            in_range(self),
            in_range(other),
        ensures
            r.x == cross_term_spec(self.y as int, other.z as int, self.z as int, other.y as int),
            r.y == cross_term_spec(self.z as int, other.x as int, self.x as int, other.z as int),
            r.z == cross_term_spec(self.x as int, other.y as int, self.y as int, other.x as int),
            in_range(r),
    {
        Vec3 {
            x: cross_term(self.y, other.z, self.z, other.y),
            y: cross_term(self.z, other.x, self.x, other.z),
            z: cross_term(self.x, other.y, self.y, other.x),
        }
    }

    /// Euclidean length.  Always defined: the squared length is
    /// nonnegative by construction.
    pub fn length(self) -> (r: i64)
        requires
            in_range(self),
        ensures
            r == length_spec(self),
            0 <= r <= FP_MAX,
    {
        let d: i64 = self.dot(self);
        proof {
            lemma_dot_self_nonneg(self);
        }
        fp_sqrt(d)
    }

    /// Direction of the vector with unit length; the zero vector
    /// (which has no direction) is returned unchanged.
    pub fn normalized(self) -> (r: Vec3)
        requires
            in_range(self),
        ensures
            r == normalized_spec(self),
            in_range(r),
    {
        let len: i64 = self.length();
        if len == 0 {
            self
        } else {
            self.div_scalar(len)
        }
    }

    /// Componentwise square root, used for gamma correction.
    pub fn sqrt(self) -> (r: Vec3)
        requires
            0 <= self.x,
            0 <= self.y,
            0 <= self.z,
        ensures
            r.x == fp_sqrt_spec(self.x as int),
            r.y == fp_sqrt_spec(self.y as int),
            r.z == fp_sqrt_spec(self.z as int),
            in_range(r),
    {
        Vec3 { x: fp_sqrt(self.x), y: fp_sqrt(self.y), z: fp_sqrt(self.z) }
    }

    /// True when the vector is too small to define a direction; at
    /// this resolution that is exactly the zero vector.
    pub fn near_zero(self) -> (r: bool)
        ensures
            r == (self.x == 0 && self.y == 0 && self.z == 0),
    {
        self.x == 0 && self.y == 0 && self.z == 0
    }

    /// Mirror about a surface normal: `self - 2 (self . n) n`.
    pub fn reflect(self, n: Vec3) -> (r: Vec3)
        requires
            in_range(self),
            in_range(n),
        ensures
            r == reflect_spec(self, n),
            in_range(r),
    {
        let d: i64 = self.dot(n);
        let twice: i64 = fp_add(d, d);
        self.sub(n.scale(twice))
    }

    /// Bend through a surface by Snell's law with index ratio
    /// `etai_over_etat`; `self` should be unit length.  The parallel
    /// part takes the square root of the magnitude of the remaining
    /// energy, so it is defined for any input.
    pub fn refract(self, n: Vec3, etai_over_etat: i64) -> (r: Vec3)
        requires
            in_range(self),
            in_range(n),
        ensures
            r == refract_spec(self, n, etai_over_etat as int),
            in_range(r),
    {
        let mcos: i64 = self.neg().dot(n);
        let cos_theta: i64 = if mcos < SCALE {
            mcos
        } else {
            SCALE
        };
        let r_out_perp: Vec3 = self.add(n.scale(cos_theta)).scale(etai_over_etat);
        let k: i64 = fp_sub(SCALE, r_out_perp.dot(r_out_perp));
        let k_abs: i64 = if k < 0 {
            fp_neg(k)
        } else {
            k
        };
        let r_out_parallel: Vec3 = n.scale(fp_neg(fp_sqrt(k_abs)));
        r_out_perp.add(r_out_parallel)
    }

    /// A vector with each component drawn from `[lo, hi)`.
    pub fn random(rng: &mut RandomSource, lo: i64, hi: i64) -> (r: Vec3)
        requires
            -FP_MAX <= lo < hi <= FP_MAX,
        ensures
            lo <= r.x < hi,
            lo <= r.y < hi,
            lo <= r.z < hi,
            in_range(r),
    {
        let x: i64 = rng.next_range(lo, hi);
        let y: i64 = rng.next_range(lo, hi);
        let z: i64 = rng.next_range(lo, hi);
        Vec3 { x, y, z }
    }

    /// A vector of length below one, found by rejection sampling.
    /// After a bounded number of draws the origin is accepted instead
    /// of looping on; it satisfies the same bound.
    pub fn random_in_unit_sphere(rng: &mut RandomSource) -> (r: Vec3)
        ensures
            in_range(r),
            0 <= length_spec(r) < SCALE,
    {
        let mut tries: u64 = 0;
        while tries < 64
            invariant
                tries <= 64,
            decreases 64 - tries,
        {
            let v: Vec3 = Vec3::random(rng, -SCALE, SCALE);
            if v.length() < SCALE {
                proof {
                    lemma_dot_self_nonneg(v);
                }
                return v;
            }
            tries = tries + 1;
        }
        let o: Vec3 = Vec3 { x: 0, y: 0, z: 0 };
        proof {
            lemma_zero_length(o);
        }
        o
    }

    /// A vector of length below one lying on the side of `normal`:
    /// its dot product with `normal` is nonnegative.
    pub fn random_in_hemisphere(rng: &mut RandomSource, normal: Vec3) -> (r: Vec3)
        requires
            in_range(normal),
        ensures
            in_range(r),
            dot_spec(r, normal) >= 0,
            0 <= length_spec(r) < SCALE,
    {
        let v: Vec3 = Vec3::random_in_unit_sphere(rng);
        if v.dot(normal) > 0 {
            v
        } else {
            let nv: Vec3 = v.neg();
            proof {
                lemma_dot_neg(v, normal, nv);
                lemma_length_neg(v, nv);
            }
            nv
        }
    }

    /// Apply a function to each component.
    pub fn map<F: Fn(i64) -> i64>(self, f: &F) -> (r: Vec3)
        requires
            call_requires(*f, (self.x,)),
            call_requires(*f, (self.y,)),
            call_requires(*f, (self.z,)),
        ensures
            call_ensures(*f, (self.x,), r.x),
            call_ensures(*f, (self.y,), r.y),
            call_ensures(*f, (self.z,), r.z),
    {
        Vec3 { x: f(self.x), y: f(self.y), z: f(self.z) }
    }
}

fn clamp_component(e: i64) -> (r: i64)
    ensures
        r == sat(e as int),
{
    if e > FP_MAX {
        FP_MAX
    } else if e < -FP_MAX {
        -FP_MAX
    } else {
        e
    }
}

fn cross_term(p: i64, q: i64, r: i64, s: i64) -> (out: i64)
    requires
        -FP_MAX <= p <= FP_MAX,
        -FP_MAX <= q <= FP_MAX,
        -FP_MAX <= r <= FP_MAX,
        -FP_MAX <= s <= FP_MAX,
    ensures
        out == cross_term_spec(p as int, q as int, r as int, s as int),
{
    proof {
        lemma_prod_bound(p as int, q as int);
        lemma_prod_bound(r as int, s as int);
    }
    let a: i128 = (p as i128) * (q as i128);
    let b: i128 = (r as i128) * (s as i128);
    saturate_quotient(a - b, SCALE as i128)
}

} // verus!
