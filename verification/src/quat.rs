//! Rotation quaternions with fixed-point components.
//!
//! A unit rotation is stored with components scaled by [`FX_ONE`]; the same
//! struct also carries the dual part of a dual quaternion, whose components
//! use the wider translation range.

use vstd::prelude::*;
use crate::fixed::{
    spec_clamp, spec_lerp, tdiv, abs_int, fx_lerp, mul_div, tdiv_i128, isqrt_u64,
    spec_isqrt, lemma_isqrt_bounds, lemma_isqrt_unique, lemma_mul_abs_bound, lemma_mul_sign,
    lemma_tdiv_bound, lemma_tdiv_multiples, lemma_lerp_range, FX_ONE, TR_BOUND, DUAL_BOUND,
};
use crate::vec3::Vec3;
use vstd::arithmetic::div_mod::{lemma_div_multiples_vanish, lemma_div_of0};

verus! {

/// Largest magnitude accepted by [`Quat::normalize`].
pub const NORM_IN_BOUND: i64 = 2_000_000_000;

/// A quaternion of fixed-point components, stored `w + xi + yj + zk`.
#[derive(Clone, Copy, PartialEq, Eq, Structural, Debug)]
pub struct Quat {
    pub w: i64,
    pub x: i64,
    pub y: i64,
    pub z: i64,
}

impl Quat {
    /// All components lie in `[-b, b]`.
    pub open spec fn bounded(self, b: int) -> bool {
        &&& -b <= self.w <= b
        &&& -b <= self.x <= b
        &&& -b <= self.y <= b
        &&& -b <= self.z <= b
    }

    /// The component range of a normalized rotation.
    pub open spec fn unit_bounded(self) -> bool {
        self.bounded(FX_ONE as int)
    }

    /// The identity rotation.
    pub open spec fn spec_identity() -> Quat {
        Quat { w: FX_ONE, x: 0, y: 0, z: 0 }
    }

    /// Sum of the squared components.
    pub open spec fn spec_norm_sq(self) -> int {
        self.w * self.w + self.x * self.x + self.y * self.y + self.z * self.z
    }

    /// Component-wise negation.
    pub open spec fn spec_neg(q: Quat) -> Quat {
        Quat {
            w: (-(q.w as int)) as i64,
            x: (-(q.x as int)) as i64,
            y: (-(q.y as int)) as i64,
            z: (-(q.z as int)) as i64,
        }
    }

    /// Four-component dot product.
    pub open spec fn spec_dot(a: Quat, b: Quat) -> int {
        a.w * b.w + a.x * b.x + a.y * b.y + a.z * b.z
    }

    /// Quaternion product before re-normalization, one fixed-point
    /// rescale per component.
    pub open spec fn spec_raw_mul(a: Quat, b: Quat) -> Quat {
        let one = FX_ONE as int;
        Quat {
            w: tdiv(a.w * b.w - a.x * b.x - a.y * b.y - a.z * b.z, one) as i64,
            x: tdiv(a.w * b.x + a.x * b.w + a.y * b.z - a.z * b.y, one) as i64,
            y: tdiv(a.w * b.y - a.x * b.z + a.y * b.w + a.z * b.x, one) as i64,
            z: tdiv(a.w * b.z + a.x * b.y - a.y * b.x + a.z * b.w, one) as i64,
        }
    }

    /// Scaling to unit length; the zero quaternion maps to the identity.
    pub open spec fn spec_normalize(q: Quat) -> Quat {
        let ns = q.spec_norm_sq();
        if ns == 0 {
            Quat::spec_identity()
        } else {
            let n = spec_isqrt(ns as nat) as int;
            Quat {
                w: tdiv(q.w * FX_ONE as int, n) as i64,
                x: tdiv(q.x * FX_ONE as int, n) as i64,
                y: tdiv(q.y * FX_ONE as int, n) as i64,
                z: tdiv(q.z * FX_ONE as int, n) as i64,
            }
        }
    }

    /// Normalized product of two rotations.
    pub open spec fn spec_concat(a: Quat, b: Quat) -> Quat {
        Quat::spec_normalize(Quat::spec_raw_mul(a, b))
    }

    /// Normalized linear interpolation along the shorter arc, exact at the
    /// ends of the fraction range.
    pub open spec fn spec_nlerp(a: Quat, b: Quat, t: int) -> Quat {
        if t == 0 {
            a
        } else if t == FX_ONE as int {
            b
        } else {
            let bb = if Quat::spec_dot(a, b) < 0 {
                Quat::spec_neg(b)
            } else {
                b
            };
            Quat::spec_normalize(
                Quat {
                    w: spec_lerp(a.w as int, bb.w as int, t) as i64,
                    x: spec_lerp(a.x as int, bb.x as int, t) as i64,
                    y: spec_lerp(a.y as int, bb.y as int, t) as i64,
                    z: spec_lerp(a.z as int, bb.z as int, t) as i64,
                },
            )
        }
    }

    /// The conjugate rotation (inverse for unit quaternions).
    pub open spec fn spec_conj(q: Quat) -> Quat {
        Quat {
            w: q.w,
            x: (-(q.x as int)) as i64,
            y: (-(q.y as int)) as i64,
            z: (-(q.z as int)) as i64,
        }
    }

    /// Rotation of a vector by a unit quaternion:
    /// `v + 2w (u x v) + 2 (u x (u x v))`, rescaled and clamped to the
    /// translation range.
    pub open spec fn spec_rotate(q: Quat, v: Vec3) -> Vec3 {
        let one2 = FX_ONE as int * FX_ONE as int;
        let c1x = q.y * v.z - q.z * v.y;
        let c1y = q.z * v.x - q.x * v.z;
        let c1z = q.x * v.y - q.y * v.x;
        let t1x = tdiv(2 * q.w * c1x, one2);
        let t1y = tdiv(2 * q.w * c1y, one2);
        let t1z = tdiv(2 * q.w * c1z, one2);
        let c2x = q.y * c1z - q.z * c1y;
        let c2y = q.z * c1x - q.x * c1z;
        let c2z = q.x * c1y - q.y * c1x;
        let t2x = tdiv(2 * c2x, one2);
        let t2y = tdiv(2 * c2y, one2);
        let t2z = tdiv(2 * c2z, one2);
        Vec3 {
            x: spec_clamp(v.x + t1x + t2x, -TR_BOUND as int, TR_BOUND as int) as i64,
            y: spec_clamp(v.y + t1y + t2y, -TR_BOUND as int, TR_BOUND as int) as i64,
            z: spec_clamp(v.z + t1z + t2z, -TR_BOUND as int, TR_BOUND as int) as i64,
        }
    }

    /// The identity rotation.
    pub fn identity() -> (r: Quat)
        ensures
            r == Quat::spec_identity(),
            r.unit_bounded(),
    {
        Quat { w: FX_ONE, x: 0, y: 0, z: 0 }
    }

    /// Component-wise check of the normalized-rotation range.
    pub fn check_unit(&self) -> (r: bool)
        ensures
            r == self.unit_bounded(),
    {
        -FX_ONE <= self.w && self.w <= FX_ONE && -FX_ONE <= self.x && self.x <= FX_ONE
            && -FX_ONE <= self.y && self.y <= FX_ONE && -FX_ONE <= self.z && self.z <= FX_ONE
    }

    /// Component-wise negation (the same rotation, opposite sign).
    pub fn negated(q: &Quat) -> (r: Quat)
        requires
            q.bounded(DUAL_BOUND as int),
        ensures
            r == Quat::spec_neg(*q),
            q.unit_bounded() ==> r.unit_bounded(),
    {
        Quat { w: -q.w, x: -q.x, y: -q.y, z: -q.z }
    }

    /// Scale to unit length; the zero quaternion becomes the identity.
    pub fn normalize(q: &Quat) -> (r: Quat)
        requires
            q.bounded(NORM_IN_BOUND as int),
        ensures
            r == Quat::spec_normalize(*q),
            r.unit_bounded(),
    {
        proof {
            lemma_mul_sign(q.w as int, q.w as int);
            lemma_mul_sign(q.x as int, q.x as int);
            lemma_mul_sign(q.y as int, q.y as int);
            lemma_mul_sign(q.z as int, q.z as int);
            lemma_mul_abs_bound(q.w as int, q.w as int, NORM_IN_BOUND as int, NORM_IN_BOUND as int);
            lemma_mul_abs_bound(q.x as int, q.x as int, NORM_IN_BOUND as int, NORM_IN_BOUND as int);
            lemma_mul_abs_bound(q.y as int, q.y as int, NORM_IN_BOUND as int, NORM_IN_BOUND as int);
            lemma_mul_abs_bound(q.z as int, q.z as int, NORM_IN_BOUND as int, NORM_IN_BOUND as int);
        }
        let sw: i128 = (q.w as i128) * (q.w as i128);
        let sx: i128 = (q.x as i128) * (q.x as i128);
        let sy: i128 = (q.y as i128) * (q.y as i128);
        let sz: i128 = (q.z as i128) * (q.z as i128);
        let ns128: i128 = sw + sx + sy + sz;
        let ns: u64 = ns128 as u64;
        if ns == 0 {
            Quat::identity()
        } else {
            let n64: u64 = isqrt_u64(ns);
            proof {
                if n64 == 0 {
                    assert((n64 as int + 1) * (n64 as int + 1) == 1) by (nonlinear_arith)
                        requires
                            n64 as int == 0,
                    ;
                    assert(ns < 1);
                    assert(false);
                }
                let ni = n64 as int;
                let nsi = ns as int;
                assert(q.w as int * q.w as int <= nsi);
                assert(abs_int(q.w as int) <= ni) by (nonlinear_arith)
                    requires
                        q.w as int * q.w as int <= nsi,
                        nsi < (ni + 1) * (ni + 1),
                        ni >= 0,
                ;
                assert(abs_int(q.x as int) <= ni) by (nonlinear_arith)
                    requires
                        q.x as int * q.x as int <= nsi,
                        nsi < (ni + 1) * (ni + 1),
                        ni >= 0,
                ;
                assert(abs_int(q.y as int) <= ni) by (nonlinear_arith)
                    requires
                        q.y as int * q.y as int <= nsi,
                        nsi < (ni + 1) * (ni + 1),
                        ni >= 0,
                ;
                assert(abs_int(q.z as int) <= ni) by (nonlinear_arith)
                    requires
                        q.z as int * q.z as int <= nsi,
                        nsi < (ni + 1) * (ni + 1),
                        ni >= 0,
                ;
                lemma_mul_abs_bound(q.w as int, FX_ONE as int, ni, FX_ONE as int);
                lemma_mul_abs_bound(q.x as int, FX_ONE as int, ni, FX_ONE as int);
                lemma_mul_abs_bound(q.y as int, FX_ONE as int, ni, FX_ONE as int);
                lemma_mul_abs_bound(q.z as int, FX_ONE as int, ni, FX_ONE as int);
                lemma_tdiv_bound(q.w as int * FX_ONE as int, ni * FX_ONE as int, ni);
                lemma_tdiv_bound(q.x as int * FX_ONE as int, ni * FX_ONE as int, ni);
                lemma_tdiv_bound(q.y as int * FX_ONE as int, ni * FX_ONE as int, ni);
                lemma_tdiv_bound(q.z as int * FX_ONE as int, ni * FX_ONE as int, ni);
                lemma_div_multiples_vanish(FX_ONE as int, ni);
                assert(ni * (FX_ONE as int) == (ni * FX_ONE as int));
                assert((ni * FX_ONE as int) / ni == FX_ONE as int);
            }
            let n: i64 = n64 as i64;
            Quat {
                w: mul_div(q.w, FX_ONE, n),
                x: mul_div(q.x, FX_ONE, n),
                y: mul_div(q.y, FX_ONE, n),
                z: mul_div(q.z, FX_ONE, n),
            }
        }
    }

    /// Quaternion product before re-normalization. One side must hold
    /// normalized-range components.
    #[verifier::rlimit(60)]
    pub fn product_raw(a: &Quat, b: &Quat) -> (r: Quat)
        requires
            a.bounded(DUAL_BOUND as int),
            b.bounded(DUAL_BOUND as int),
            a.bounded(FX_ONE as int) || b.bounded(FX_ONE as int),
        ensures
            r == Quat::spec_raw_mul(*a, *b),
            r.bounded(4 * DUAL_BOUND as int),
            a.bounded(FX_ONE as int) && b.bounded(FX_ONE as int) ==> r.bounded(4 * FX_ONE as int),
    {
        proof {
            let du = DUAL_BOUND as int;
            lemma_mul_abs_bound(a.w as int, b.w as int, du, du);
            lemma_mul_abs_bound(a.w as int, b.x as int, du, du);
            lemma_mul_abs_bound(a.w as int, b.y as int, du, du);
            lemma_mul_abs_bound(a.w as int, b.z as int, du, du);
            lemma_mul_abs_bound(a.x as int, b.w as int, du, du);
            lemma_mul_abs_bound(a.x as int, b.x as int, du, du);
            lemma_mul_abs_bound(a.x as int, b.y as int, du, du);
            lemma_mul_abs_bound(a.x as int, b.z as int, du, du);
            lemma_mul_abs_bound(a.y as int, b.w as int, du, du);
            lemma_mul_abs_bound(a.y as int, b.x as int, du, du);
            lemma_mul_abs_bound(a.y as int, b.y as int, du, du);
            lemma_mul_abs_bound(a.y as int, b.z as int, du, du);
            lemma_mul_abs_bound(a.z as int, b.w as int, du, du);
            lemma_mul_abs_bound(a.z as int, b.x as int, du, du);
            lemma_mul_abs_bound(a.z as int, b.y as int, du, du);
            lemma_mul_abs_bound(a.z as int, b.z as int, du, du);
        }
        let aw: i128 = a.w as i128;
        let ax: i128 = a.x as i128;
        let ay: i128 = a.y as i128;
        let az: i128 = a.z as i128;
        let bw: i128 = b.w as i128;
        let bx: i128 = b.x as i128;
        let by: i128 = b.y as i128;
        let bz: i128 = b.z as i128;
        let pw: i128 = aw * bw - ax * bx - ay * by - az * bz;
        let px: i128 = aw * bx + ax * bw + ay * bz - az * by;
        let py: i128 = aw * by - ax * bz + ay * bw + az * bx;
        let pz: i128 = aw * bz + ax * by - ay * bx + az * bw;
        proof {
            let one = FX_ONE as int;
            let du = DUAL_BOUND as int;
            let cap = 4 * one * du;
            if a.bounded(one) {
                lemma_mul_abs_bound(a.w as int, b.w as int, one, du);
                lemma_mul_abs_bound(a.w as int, b.x as int, one, du);
                lemma_mul_abs_bound(a.w as int, b.y as int, one, du);
                lemma_mul_abs_bound(a.w as int, b.z as int, one, du);
                lemma_mul_abs_bound(a.x as int, b.w as int, one, du);
                lemma_mul_abs_bound(a.x as int, b.x as int, one, du);
                lemma_mul_abs_bound(a.x as int, b.y as int, one, du);
                lemma_mul_abs_bound(a.x as int, b.z as int, one, du);
                lemma_mul_abs_bound(a.y as int, b.w as int, one, du);
                lemma_mul_abs_bound(a.y as int, b.x as int, one, du);
                lemma_mul_abs_bound(a.y as int, b.y as int, one, du);
                lemma_mul_abs_bound(a.y as int, b.z as int, one, du);
                lemma_mul_abs_bound(a.z as int, b.w as int, one, du);
                lemma_mul_abs_bound(a.z as int, b.x as int, one, du);
                lemma_mul_abs_bound(a.z as int, b.y as int, one, du);
                lemma_mul_abs_bound(a.z as int, b.z as int, one, du);
            } else {
                lemma_mul_abs_bound(a.w as int, b.w as int, du, one);
                lemma_mul_abs_bound(a.w as int, b.x as int, du, one);
                lemma_mul_abs_bound(a.w as int, b.y as int, du, one);
                lemma_mul_abs_bound(a.w as int, b.z as int, du, one);
                lemma_mul_abs_bound(a.x as int, b.w as int, du, one);
                lemma_mul_abs_bound(a.x as int, b.x as int, du, one);
                lemma_mul_abs_bound(a.x as int, b.y as int, du, one);
                lemma_mul_abs_bound(a.x as int, b.z as int, du, one);
                lemma_mul_abs_bound(a.y as int, b.w as int, du, one);
                lemma_mul_abs_bound(a.y as int, b.x as int, du, one);
                lemma_mul_abs_bound(a.y as int, b.y as int, du, one);
                lemma_mul_abs_bound(a.y as int, b.z as int, du, one);
                lemma_mul_abs_bound(a.z as int, b.w as int, du, one);
                lemma_mul_abs_bound(a.z as int, b.x as int, du, one);
                lemma_mul_abs_bound(a.z as int, b.y as int, du, one);
                lemma_mul_abs_bound(a.z as int, b.z as int, du, one);
            }
            assert(one * du == du * one) by (nonlinear_arith);
            lemma_tdiv_bound(pw as int, cap, one);
            lemma_tdiv_bound(px as int, cap, one);
            lemma_tdiv_bound(py as int, cap, one);
            lemma_tdiv_bound(pz as int, cap, one);
            lemma_div_multiples_vanish(4 * du, one);
            assert(4 * one * du == one * (4 * du)) by (nonlinear_arith);
            assert(cap / one == 4 * du);
            if a.bounded(one) && b.bounded(one) {
                lemma_mul_abs_bound(a.w as int, b.w as int, one, one);
                lemma_mul_abs_bound(a.w as int, b.x as int, one, one);
                lemma_mul_abs_bound(a.w as int, b.y as int, one, one);
                lemma_mul_abs_bound(a.w as int, b.z as int, one, one);
                lemma_mul_abs_bound(a.x as int, b.w as int, one, one);
                lemma_mul_abs_bound(a.x as int, b.x as int, one, one);
                lemma_mul_abs_bound(a.x as int, b.y as int, one, one);
                lemma_mul_abs_bound(a.x as int, b.z as int, one, one);
                lemma_mul_abs_bound(a.y as int, b.w as int, one, one);
                lemma_mul_abs_bound(a.y as int, b.x as int, one, one);
                lemma_mul_abs_bound(a.y as int, b.y as int, one, one);
                lemma_mul_abs_bound(a.y as int, b.z as int, one, one);
                lemma_mul_abs_bound(a.z as int, b.w as int, one, one);
                lemma_mul_abs_bound(a.z as int, b.x as int, one, one);
                lemma_mul_abs_bound(a.z as int, b.y as int, one, one);
                lemma_mul_abs_bound(a.z as int, b.z as int, one, one);
                lemma_tdiv_bound(pw as int, 4 * one * one, one);
                lemma_tdiv_bound(px as int, 4 * one * one, one);
                lemma_tdiv_bound(py as int, 4 * one * one, one);
                lemma_tdiv_bound(pz as int, 4 * one * one, one);
                lemma_div_multiples_vanish(4 * one, one);
                assert(4 * one * one == one * (4 * one)) by (nonlinear_arith);
                assert((4 * one * one) / one == 4 * one);
            }
        }
        let rw: i128 = tdiv_i128(pw, FX_ONE as i128);
        let rx: i128 = tdiv_i128(px, FX_ONE as i128);
        let ry: i128 = tdiv_i128(py, FX_ONE as i128);
        let rz: i128 = tdiv_i128(pz, FX_ONE as i128);
        Quat { w: rw as i64, x: rx as i64, y: ry as i64, z: rz as i64 }
    }

    /// Normalized product of two rotations.
    pub fn concat(a: &Quat, b: &Quat) -> (r: Quat)
        requires
            a.unit_bounded(),
            b.unit_bounded(),
        ensures
            r == Quat::spec_concat(*a, *b),
            r.unit_bounded(),
    {
        let raw = Quat::product_raw(a, b);
        Quat::normalize(&raw)
    }

    /// Normalized linear interpolation along the shorter arc.
    pub fn nlerp(a: &Quat, b: &Quat, t: i64) -> (r: Quat)
        requires
            a.unit_bounded(),
            b.unit_bounded(),
            0 <= t <= FX_ONE,
        ensures
            r == Quat::spec_nlerp(*a, *b, t as int),
            r.unit_bounded(),
    {
        if t == 0 {
            *a
        } else if t == FX_ONE {
            *b
        } else {
            proof {
                let one = FX_ONE as int;
                lemma_mul_abs_bound(a.w as int, b.w as int, one, one);
                lemma_mul_abs_bound(a.x as int, b.x as int, one, one);
                lemma_mul_abs_bound(a.y as int, b.y as int, one, one);
                lemma_mul_abs_bound(a.z as int, b.z as int, one, one);
            }
            let d1: i64 = a.w * b.w;
            let d2: i64 = a.x * b.x;
            let d3: i64 = a.y * b.y;
            let d4: i64 = a.z * b.z;
            let dot: i64 = d1 + d2 + d3 + d4;
            let bb: Quat = if dot < 0 {
                Quat::negated(b)
            } else {
                *b
            };
            proof {
                lemma_lerp_range(a.w as int, bb.w as int, t as int);
                lemma_lerp_range(a.x as int, bb.x as int, t as int);
                lemma_lerp_range(a.y as int, bb.y as int, t as int);
                lemma_lerp_range(a.z as int, bb.z as int, t as int);
            }
            let lerped = Quat {
                w: fx_lerp(a.w, bb.w, t),
                x: fx_lerp(a.x, bb.x, t),
                y: fx_lerp(a.y, bb.y, t),
                z: fx_lerp(a.z, bb.z, t),
            };
            Quat::normalize(&lerped)
        }
    }

    /// The conjugate rotation.
    pub fn conj(q: &Quat) -> (r: Quat)
        requires
            q.bounded(DUAL_BOUND as int),
        ensures
            r == Quat::spec_conj(*q),
            q.unit_bounded() ==> r.unit_bounded(),
    {
        Quat { w: q.w, x: -q.x, y: -q.y, z: -q.z }
    }

    /// Rotate a vector by a unit quaternion.
    pub fn rotate_vec(q: &Quat, v: &Vec3) -> (r: Vec3)
        requires
            q.unit_bounded(),
            v.bounded(TR_BOUND as int),
        ensures
            r == Quat::spec_rotate(*q, *v),
            r.bounded(TR_BOUND as int),
    {
        let one = FX_ONE as i128;
        let one2: i128 = one * one;
        let qw: i128 = q.w as i128;
        let qx: i128 = q.x as i128;
        let qy: i128 = q.y as i128;
        let qz: i128 = q.z as i128;
        let vx: i128 = v.x as i128;
        let vy: i128 = v.y as i128;
        let vz: i128 = v.z as i128;
        proof {
            let bone = FX_ONE as int;
            let btr = TR_BOUND as int;
            lemma_mul_abs_bound(q.y as int, v.z as int, bone, btr);
            lemma_mul_abs_bound(q.z as int, v.y as int, bone, btr);
            lemma_mul_abs_bound(q.z as int, v.x as int, bone, btr);
            lemma_mul_abs_bound(q.x as int, v.z as int, bone, btr);
            lemma_mul_abs_bound(q.x as int, v.y as int, bone, btr);
            lemma_mul_abs_bound(q.y as int, v.x as int, bone, btr);
        }
        let c1x: i128 = qy * vz - qz * vy;
        let c1y: i128 = qz * vx - qx * vz;
        let c1z: i128 = qx * vy - qy * vx;
        proof {
            let bone = FX_ONE as int;
            let btr = TR_BOUND as int;
            let bc1 = 2 * bone * btr;
            lemma_mul_abs_bound(2 * q.w as int, c1x as int, 2 * bone, bc1);
            lemma_mul_abs_bound(2 * q.w as int, c1y as int, 2 * bone, bc1);
            lemma_mul_abs_bound(2 * q.w as int, c1z as int, 2 * bone, bc1);
            lemma_mul_abs_bound(q.y as int, c1z as int, bone, bc1);
            lemma_mul_abs_bound(q.z as int, c1y as int, bone, bc1);
            lemma_mul_abs_bound(q.z as int, c1x as int, bone, bc1);
            lemma_mul_abs_bound(q.x as int, c1z as int, bone, bc1);
            lemma_mul_abs_bound(q.x as int, c1y as int, bone, bc1);
            lemma_mul_abs_bound(q.y as int, c1x as int, bone, bc1);
        }
        let t1xs: i128 = 2 * qw * c1x;
        let t1ys: i128 = 2 * qw * c1y;
        let t1zs: i128 = 2 * qw * c1z;
        let c2x: i128 = qy * c1z - qz * c1y;
        let c2y: i128 = qz * c1x - qx * c1z;
        let c2z: i128 = qx * c1y - qy * c1x;
        let t1x: i128 = tdiv_i128(t1xs, one2);
        let t1y: i128 = tdiv_i128(t1ys, one2);
        let t1z: i128 = tdiv_i128(t1zs, one2);
        let t2x: i128 = tdiv_i128(2 * c2x, one2);
        let t2y: i128 = tdiv_i128(2 * c2y, one2);
        let t2z: i128 = tdiv_i128(2 * c2z, one2);
        Vec3 {
            x: crate::fixed::clamp_i128_to_i64(vx + t1x + t2x, -TR_BOUND, TR_BOUND),
            y: crate::fixed::clamp_i128_to_i64(vy + t1y + t2y, -TR_BOUND, TR_BOUND),
            z: crate::fixed::clamp_i128_to_i64(vz + t1z + t2z, -TR_BOUND, TR_BOUND),
        }
    }
}

/// Normalization always lands in the normalized component range.
pub proof fn lemma_normalize_unit(q: Quat)
    ensures
        Quat::spec_normalize(q).unit_bounded(),
{
    let ns = q.spec_norm_sq();
    lemma_mul_sign(q.w as int, q.w as int);
    lemma_mul_sign(q.x as int, q.x as int);
    lemma_mul_sign(q.y as int, q.y as int);
    lemma_mul_sign(q.z as int, q.z as int);
    if ns == 0 {
    } else {
        lemma_isqrt_bounds(ns as nat);
        let n = spec_isqrt(ns as nat) as int;
        if n == 0 {
            assert((0 + 1) * (0 + 1) == 1) by (nonlinear_arith);
            assert(false);
        }
        assert(abs_int(q.w as int) <= n) by (nonlinear_arith)
            requires
                q.w as int * q.w as int <= ns,
                ns < (n + 1) * (n + 1),
                n >= 0,
        ;
        assert(abs_int(q.x as int) <= n) by (nonlinear_arith)
            requires
                q.x as int * q.x as int <= ns,
                ns < (n + 1) * (n + 1),
                n >= 0,
        ;
        assert(abs_int(q.y as int) <= n) by (nonlinear_arith)
            requires
                q.y as int * q.y as int <= ns,
                ns < (n + 1) * (n + 1),
                n >= 0,
        ;
        assert(abs_int(q.z as int) <= n) by (nonlinear_arith)
            requires
                q.z as int * q.z as int <= ns,
                ns < (n + 1) * (n + 1),
                n >= 0,
        ;
        lemma_mul_abs_bound(q.w as int, FX_ONE as int, n, FX_ONE as int);
        lemma_mul_abs_bound(q.x as int, FX_ONE as int, n, FX_ONE as int);
        lemma_mul_abs_bound(q.y as int, FX_ONE as int, n, FX_ONE as int);
        lemma_mul_abs_bound(q.z as int, FX_ONE as int, n, FX_ONE as int);
        lemma_tdiv_bound(q.w as int * FX_ONE as int, n * FX_ONE as int, n);
        lemma_tdiv_bound(q.x as int * FX_ONE as int, n * FX_ONE as int, n);
        lemma_tdiv_bound(q.y as int * FX_ONE as int, n * FX_ONE as int, n);
        lemma_tdiv_bound(q.z as int * FX_ONE as int, n * FX_ONE as int, n);
        lemma_div_multiples_vanish(FX_ONE as int, n);
        assert((n * FX_ONE as int) / n == FX_ONE as int);
    }
}

/// Normalized interpolation between normalized rotations stays normalized.
pub proof fn lemma_nlerp_unit(a: Quat, b: Quat, t: int)
    requires
        a.unit_bounded(),
        b.unit_bounded(),
    ensures
        Quat::spec_nlerp(a, b, t).unit_bounded(),
{
    if t == 0 {
    } else if t == FX_ONE as int {
    } else {
        let bb = if Quat::spec_dot(a, b) < 0 {
            Quat::spec_neg(b)
        } else {
            b
        };
        lemma_normalize_unit(
            Quat {
                w: spec_lerp(a.w as int, bb.w as int, t) as i64,
                x: spec_lerp(a.x as int, bb.x as int, t) as i64,
                y: spec_lerp(a.y as int, bb.y as int, t) as i64,
                z: spec_lerp(a.z as int, bb.z as int, t) as i64,
            },
        );
    }
}

/// Rotating by the identity returns the vector unchanged.
pub proof fn lemma_rotate_identity(v: Vec3)
    requires
        v.bounded(TR_BOUND as int),
    ensures
        Quat::spec_rotate(Quat::spec_identity(), v) == v,
{
    let one2 = FX_ONE as int * FX_ONE as int;
    assert(one2 == 1_000_000_000_000) by (nonlinear_arith)
        requires
            one2 == FX_ONE as int * FX_ONE as int,
            FX_ONE as int == 1_000_000,
    ;
    lemma_div_of0(one2);
    let q = Quat::spec_identity();
    assert(q.x == 0 && q.y == 0 && q.z == 0 && q.w == FX_ONE);
    let c1x = q.y * v.z - q.z * v.y;
    let c1y = q.z * v.x - q.x * v.z;
    let c1z = q.x * v.y - q.y * v.x;
    assert(c1x == 0 && c1y == 0 && c1z == 0);
    assert(2 * q.w * c1x == 0) by (nonlinear_arith)
        requires
            c1x == 0,
    ;
    assert(2 * q.w * c1y == 0) by (nonlinear_arith)
        requires
            c1y == 0,
    ;
    assert(2 * q.w * c1z == 0) by (nonlinear_arith)
        requires
            c1z == 0,
    ;
    assert(tdiv(2 * q.w * c1x, one2) == 0);
    assert(q.y * c1z - q.z * c1y == 0);
    assert(q.z * c1x - q.x * c1z == 0);
    assert(q.x * c1y - q.y * c1x == 0);
    assert(tdiv(0, one2) == 0);
    assert(Quat::spec_rotate(q, v).x == v.x);
    assert(Quat::spec_rotate(q, v).y == v.y);
    assert(Quat::spec_rotate(q, v).z == v.z);
}

/// The raw product with the identity on either side returns the other
/// factor unchanged.
pub proof fn lemma_raw_mul_identity(q: Quat)
    requires
        q.bounded(DUAL_BOUND as int),
    ensures
        Quat::spec_raw_mul(Quat::spec_identity(), q) == q,
        Quat::spec_raw_mul(q, Quat::spec_identity()) == q,
{
    let one = FX_ONE as int;
    lemma_tdiv_multiples(q.w as int, one);
    lemma_tdiv_multiples(q.x as int, one);
    lemma_tdiv_multiples(q.y as int, one);
    lemma_tdiv_multiples(q.z as int, one);
}

/// A quaternion whose squared norm is exactly one is left unchanged by
/// normalization.
pub proof fn lemma_normalize_norm_one(q: Quat)
    requires
        q.spec_norm_sq() == FX_ONE as int * FX_ONE as int,
    ensures
        Quat::spec_normalize(q) == q,
{
    let one = FX_ONE as int;
    assert(one * one == 1_000_000_000_000) by (nonlinear_arith)
        requires
            one == 1_000_000,
    ;
    assert((1_000_000 + 1) * (1_000_000 + 1) > 1_000_000_000_000) by (nonlinear_arith);
    lemma_isqrt_unique((one * one) as nat, FX_ONE as nat);
    assert(spec_isqrt(q.spec_norm_sq() as nat) == FX_ONE as nat);
    lemma_tdiv_multiples(q.w as int, one);
    lemma_tdiv_multiples(q.x as int, one);
    lemma_tdiv_multiples(q.y as int, one);
    lemma_tdiv_multiples(q.z as int, one);
}

/// Facts about the identity rotation: it is normalized, and it is a left
/// and right unit for the normalized product.
pub proof fn lemma_identity_facts()
    ensures
        Quat::spec_identity().unit_bounded(),
        Quat::spec_normalize(Quat::spec_identity()) == Quat::spec_identity(),
        Quat::spec_concat(Quat::spec_identity(), Quat::spec_identity()) == Quat::spec_identity(),
{
    let id = Quat::spec_identity();
    assert(id.spec_norm_sq() == FX_ONE as int * FX_ONE as int);
    lemma_normalize_norm_one(id);
    lemma_raw_mul_identity(id);
}

} // verus!
