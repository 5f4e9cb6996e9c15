//! Translation vectors with fixed-point components.

use vstd::prelude::*;
use crate::fixed::{
    spec_clamp, spec_lerp, spec_mul_div, clamp_i64, fx_lerp, mul_div, lemma_mul_abs_bound,
    lemma_tdiv_bound, lemma_lerp_range, FX_ONE, TR_BOUND, SCALE_BOUND,
};

verus! {

/// A 3-vector of fixed-point components.
#[derive(Clone, Copy, PartialEq, Eq, Structural, Debug)]
pub struct Vec3 {
    pub x: i64,
    pub y: i64,
    pub z: i64,
}

impl Vec3 {
    /// All components lie in `[-b, b]`.
    pub open spec fn bounded(self, b: int) -> bool {
        &&& -b <= self.x <= b
        &&& -b <= self.y <= b
        &&& -b <= self.z <= b
    }

    /// The zero vector.
    pub open spec fn spec_zero() -> Vec3 {
        Vec3 { x: 0, y: 0, z: 0 }
    }

    /// Component-wise sum, clamped to the translation range.
    pub open spec fn spec_add_clamped(a: Vec3, b: Vec3) -> Vec3 {
        Vec3 {
            x: spec_clamp(a.x + b.x, -TR_BOUND as int, TR_BOUND as int) as i64,
            y: spec_clamp(a.y + b.y, -TR_BOUND as int, TR_BOUND as int) as i64,
            z: spec_clamp(a.z + b.z, -TR_BOUND as int, TR_BOUND as int) as i64,
        }
    }

    /// Component-wise linear interpolation.
    pub open spec fn spec_lerp_vec(a: Vec3, b: Vec3, t: int) -> Vec3 {
        Vec3 {
            x: spec_lerp(a.x as int, b.x as int, t) as i64,
            y: spec_lerp(a.y as int, b.y as int, t) as i64,
            z: spec_lerp(a.z as int, b.z as int, t) as i64,
        }
    }

    /// Uniform fixed-point scaling, clamped to the translation range.
    pub open spec fn spec_scale(s: int, v: Vec3) -> Vec3 {
        Vec3 {
            x: spec_clamp(
                spec_mul_div(s, v.x as int, FX_ONE as int),
                -TR_BOUND as int,
                TR_BOUND as int,
            ) as i64,
            y: spec_clamp(
                spec_mul_div(s, v.y as int, FX_ONE as int),
                -TR_BOUND as int,
                TR_BOUND as int,
            ) as i64,
            z: spec_clamp(
                spec_mul_div(s, v.z as int, FX_ONE as int),
                -TR_BOUND as int,
                TR_BOUND as int,
            ) as i64,
        }
    }

    /// The zero vector.
    pub fn zero() -> (r: Vec3)
        ensures
            r == Vec3::spec_zero(),
            r.bounded(TR_BOUND as int),
    {
        Vec3 { x: 0, y: 0, z: 0 }
    }

    /// Component-wise check of the translation range.
    pub fn check_bounded(&self) -> (r: bool)
        ensures
            r == self.bounded(TR_BOUND as int),
    {
        -TR_BOUND <= self.x && self.x <= TR_BOUND && -TR_BOUND <= self.y && self.y <= TR_BOUND
            && -TR_BOUND <= self.z && self.z <= TR_BOUND
    }

    /// Clamped component-wise sum.
    pub fn add_clamped(a: &Vec3, b: &Vec3) -> (r: Vec3)
        requires
            a.bounded(TR_BOUND as int),
            b.bounded(TR_BOUND as int),
        ensures
            r == Vec3::spec_add_clamped(*a, *b),
            r.bounded(TR_BOUND as int),
    {
        Vec3 {
            x: clamp_i64(a.x + b.x, -TR_BOUND, TR_BOUND),
            y: clamp_i64(a.y + b.y, -TR_BOUND, TR_BOUND),
            z: clamp_i64(a.z + b.z, -TR_BOUND, TR_BOUND),
        }
    }

    /// Component-wise linear interpolation; exact at the fraction's ends.
    pub fn lerp_vec(a: &Vec3, b: &Vec3, t: i64) -> (r: Vec3)
        requires
            a.bounded(TR_BOUND as int),
            b.bounded(TR_BOUND as int),
            0 <= t <= FX_ONE,
        ensures
            r == Vec3::spec_lerp_vec(*a, *b, t as int),
            r.bounded(TR_BOUND as int),
    {
        proof {
            lemma_lerp_range(a.x as int, b.x as int, t as int);
            lemma_lerp_range(a.y as int, b.y as int, t as int);
            lemma_lerp_range(a.z as int, b.z as int, t as int);
        }
        Vec3 {
            x: fx_lerp(a.x, b.x, t),
            y: fx_lerp(a.y, b.y, t),
            z: fx_lerp(a.z, b.z, t),
        }
    }

    /// Clamped uniform scaling by a fixed-point factor.
    pub fn scale(s: i64, v: &Vec3) -> (r: Vec3)
        requires
            -SCALE_BOUND <= s <= SCALE_BOUND,
            v.bounded(TR_BOUND as int),
        ensures
            r == Vec3::spec_scale(s as int, *v),
            r.bounded(TR_BOUND as int),
    {
        proof {
            lemma_mul_abs_bound(s as int, v.x as int, SCALE_BOUND as int, TR_BOUND as int);
            lemma_mul_abs_bound(s as int, v.y as int, SCALE_BOUND as int, TR_BOUND as int);
            lemma_mul_abs_bound(s as int, v.z as int, SCALE_BOUND as int, TR_BOUND as int);
            lemma_tdiv_bound(
                s as int * v.x as int,
                SCALE_BOUND as int * TR_BOUND as int,
                FX_ONE as int,
            );
            lemma_tdiv_bound(
                s as int * v.y as int,
                SCALE_BOUND as int * TR_BOUND as int,
                FX_ONE as int,
            );
            lemma_tdiv_bound(
                s as int * v.z as int,
                SCALE_BOUND as int * TR_BOUND as int,
                FX_ONE as int,
            );
            assert((SCALE_BOUND as int * TR_BOUND as int) / (FX_ONE as int)
                < i64::MAX as int) by (nonlinear_arith);
        }
        Vec3 {
            x: clamp_i64(mul_div(s, v.x, FX_ONE), -TR_BOUND, TR_BOUND),
            y: clamp_i64(mul_div(s, v.y, FX_ONE), -TR_BOUND, TR_BOUND),
            z: clamp_i64(mul_div(s, v.z, FX_ONE), -TR_BOUND, TR_BOUND),
        }
    }
}

} // verus!
