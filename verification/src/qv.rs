//! The scale / rotation / translation pose representation.

use vstd::prelude::*;
use crate::fixed::{
    spec_clamp, spec_lerp, spec_mul_div, clamp_i64, fx_lerp, mul_div, lemma_mul_abs_bound,
    lemma_tdiv_bound, lemma_tdiv_multiples, lemma_lerp_range, FX_ONE, TR_BOUND, SCALE_BOUND,
};
use crate::vec3::Vec3;
use crate::quat::{Quat, lemma_normalize_unit, lemma_nlerp_unit, lemma_rotate_identity,
    lemma_raw_mul_identity, lemma_identity_facts};
use crate::transform::{Transform, FromTransform};

verus! {

/// A transform split into uniform scale, rotation and translation.
///
/// Interpolation works component-wise: linear on scale and translation,
/// normalized linear along the shorter arc on rotation.
#[derive(Clone, Copy, PartialEq, Eq, Structural, Debug)]
pub struct QVTransform {
    pub scale: i64,
    pub rotation: Quat,
    pub translation: Vec3,
}

impl Transform for QVTransform {
    open spec fn wf(self) -> bool {
        &&& -SCALE_BOUND <= self.scale <= SCALE_BOUND
        &&& self.rotation.unit_bounded()
        &&& self.translation.bounded(TR_BOUND as int)
    }

    open spec fn spec_identity() -> QVTransform {
        QVTransform { scale: FX_ONE, rotation: Quat::spec_identity(), translation: Vec3::spec_zero() }
    }

    open spec fn spec_interpolate(a: QVTransform, b: QVTransform, t: int) -> QVTransform {
        QVTransform {
            scale: spec_lerp(a.scale as int, b.scale as int, t) as i64,
            rotation: Quat::spec_nlerp(a.rotation, b.rotation, t),
            translation: Vec3::spec_lerp_vec(a.translation, b.translation, t),
        }
    }

    open spec fn spec_concat(a: QVTransform, b: QVTransform) -> QVTransform {
        QVTransform {
            scale: spec_clamp(
                spec_mul_div(a.scale as int, b.scale as int, FX_ONE as int),
                -SCALE_BOUND as int,
                SCALE_BOUND as int,
            ) as i64,
            rotation: Quat::spec_concat(a.rotation, b.rotation),
            translation: Vec3::spec_add_clamped(
                a.translation,
                Quat::spec_rotate(a.rotation, Vec3::spec_scale(a.scale as int, b.translation)),
            ),
        }
    }

    open spec fn spec_translation(self) -> Vec3 {
        self.translation
    }

    open spec fn is_pure_translation(self) -> bool {
        self.scale == FX_ONE && self.rotation == Quat::spec_identity()
    }

    open spec fn spec_from_translation(v: Vec3) -> QVTransform {
        QVTransform { scale: FX_ONE, rotation: Quat::spec_identity(), translation: v }
    }

    fn identity() -> (r: QVTransform) {
        QVTransform { scale: FX_ONE, rotation: Quat::identity(), translation: Vec3::zero() }
    }

    fn check_wf(&self) -> (b: bool) {
        -SCALE_BOUND <= self.scale && self.scale <= SCALE_BOUND && self.rotation.check_unit()
            && self.translation.check_bounded()
    }

    fn interpolate(a: &QVTransform, b: &QVTransform, t: i64) -> (r: QVTransform) {
        proof {
            lemma_lerp_range(a.scale as int, b.scale as int, t as int);
        }
        QVTransform {
            scale: fx_lerp(a.scale, b.scale, t),
            rotation: Quat::nlerp(&a.rotation, &b.rotation, t),
            translation: Vec3::lerp_vec(&a.translation, &b.translation, t),
        }
    }

    fn concat(a: &QVTransform, b: &QVTransform) -> (r: QVTransform) {
        proof {
            lemma_mul_abs_bound(
                a.scale as int,
                b.scale as int,
                SCALE_BOUND as int,
                SCALE_BOUND as int,
            );
            lemma_tdiv_bound(
                a.scale as int * b.scale as int,
                SCALE_BOUND as int * SCALE_BOUND as int,
                FX_ONE as int,
            );
            assert((SCALE_BOUND as int * SCALE_BOUND as int) / (FX_ONE as int)
                < i64::MAX as int) by (nonlinear_arith);
        }
        let scale: i64 = clamp_i64(mul_div(a.scale, b.scale, FX_ONE), -SCALE_BOUND, SCALE_BOUND);
        let rotation = Quat::concat(&a.rotation, &b.rotation);
        let scaled = Vec3::scale(a.scale, &b.translation);
        let rotated = Quat::rotate_vec(&a.rotation, &scaled);
        let translation = Vec3::add_clamped(&a.translation, &rotated);
        QVTransform { scale, rotation, translation }
    }

    fn translation(&self) -> (r: Vec3) {
        self.translation
    }

    fn from_translation(v: &Vec3) -> (r: QVTransform) {
        QVTransform { scale: FX_ONE, rotation: Quat::identity(), translation: *v }
    }

    proof fn lemma_identity_props() {
    }

    proof fn lemma_interpolate_zero(a: QVTransform, b: QVTransform) {
        lemma_lerp_range(a.scale as int, b.scale as int, 0);
        lemma_lerp_range(a.translation.x as int, b.translation.x as int, 0);
        lemma_lerp_range(a.translation.y as int, b.translation.y as int, 0);
        lemma_lerp_range(a.translation.z as int, b.translation.z as int, 0);
    }

    proof fn lemma_interpolate_one(a: QVTransform, b: QVTransform) {
        lemma_lerp_range(a.scale as int, b.scale as int, FX_ONE as int);
        lemma_lerp_range(a.translation.x as int, b.translation.x as int, FX_ONE as int);
        lemma_lerp_range(a.translation.y as int, b.translation.y as int, FX_ONE as int);
        lemma_lerp_range(a.translation.z as int, b.translation.z as int, FX_ONE as int);
    }

    proof fn lemma_interpolate_wf(a: QVTransform, b: QVTransform, t: int) {
        lemma_lerp_range(a.scale as int, b.scale as int, t);
        lemma_nlerp_unit(a.rotation, b.rotation, t);
        lemma_lerp_range(a.translation.x as int, b.translation.x as int, t);
        lemma_lerp_range(a.translation.y as int, b.translation.y as int, t);
        lemma_lerp_range(a.translation.z as int, b.translation.z as int, t);
    }

    proof fn lemma_concat_wf(a: QVTransform, b: QVTransform) {
        lemma_normalize_unit(Quat::spec_raw_mul(a.rotation, b.rotation));
    }

    proof fn lemma_from_translation_props(v: Vec3) {
        lemma_identity_facts();
    }

    proof fn lemma_concat_translations(a: QVTransform, b: QVTransform) {
        lemma_tdiv_multiples(FX_ONE as int, FX_ONE as int);
        lemma_identity_facts();
        lemma_raw_mul_identity(Quat::spec_identity());
        lemma_tdiv_multiples(b.translation.x as int, FX_ONE as int);
        lemma_tdiv_multiples(b.translation.y as int, FX_ONE as int);
        lemma_tdiv_multiples(b.translation.z as int, FX_ONE as int);
        assert(Vec3::spec_scale(FX_ONE as int, b.translation) == b.translation);
        lemma_rotate_identity(b.translation);
    }
}

impl FromTransform<QVTransform> for QVTransform {
    open spec fn spec_from_transform(t: QVTransform) -> QVTransform {
        t
    }

    fn from_transform(t: &QVTransform) -> (r: QVTransform) {
        *t
    }
}

} // verus!
