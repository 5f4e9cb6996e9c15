//! The transform capability shared by the two pose representations.
//!
//! A blend tree and a pose-composition pass are written once against this
//! trait and instantiated per representation, so no per-joint inner loop
//! dispatches at run time.

use vstd::prelude::*;
use crate::fixed::{FX_ONE, TR_BOUND};
use crate::vec3::Vec3;

verus! {

/// A joint transform: identity, interpolation, composition, and a
/// translation component.
pub trait Transform: Sized + Copy {
    /// Components lie within the representation's ranges.
    spec fn wf(self) -> bool;

    /// The identity transform.
    spec fn spec_identity() -> Self;

    /// Interpolation from `a` to `b` by a fraction `t` of [`FX_ONE`].
    spec fn spec_interpolate(a: Self, b: Self, t: int) -> Self;

    /// Composition: `a` (the parent) applied after `b` (the child).
    spec fn spec_concat(a: Self, b: Self) -> Self;

    /// The translation component.
    spec fn spec_translation(self) -> Vec3;

    /// Whether the transform moves points without rotating or scaling.
    spec fn is_pure_translation(self) -> bool;

    /// The pure translation by `v`.
    spec fn spec_from_translation(v: Vec3) -> Self;

    /// The identity transform.
    fn identity() -> (r: Self)
        ensures
            r == Self::spec_identity(),
            r.wf(),
    ;

    /// Run-time check of the component ranges.
    fn check_wf(&self) -> (b: bool)
        ensures
            b == self.wf(),
    ;

    /// Interpolate between two transforms; exact at both ends of the
    /// fraction range.
    fn interpolate(a: &Self, b: &Self, t: i64) -> (r: Self)
        requires
            a.wf(),
            b.wf(),
            0 <= t <= FX_ONE,
        ensures
            r == Self::spec_interpolate(*a, *b, t as int),
            r.wf(),
    ;

    /// Compose a child transform under its parent.
    fn concat(a: &Self, b: &Self) -> (r: Self)
        requires
            a.wf(),
            b.wf(),
        ensures
            r == Self::spec_concat(*a, *b),
            r.wf(),
    ;

    /// Read the translation component.
    fn translation(&self) -> (r: Vec3)
        requires
            self.wf(),
        ensures
            r == self.spec_translation(),
    ;

    /// Build the pure translation by `v`.
    fn from_translation(v: &Vec3) -> (r: Self)
        requires
            v.bounded(TR_BOUND as int),
        ensures
            r == Self::spec_from_translation(*v),
            r.wf(),
    ;

    /// The identity is well formed and translates by zero.
    proof fn lemma_identity_props()
        ensures
            Self::spec_identity().wf(),
            Self::spec_identity().is_pure_translation(),
            Self::spec_identity().spec_translation() == Vec3::spec_zero(),
    ;

    /// Interpolating by fraction zero returns the first transform.
    proof fn lemma_interpolate_zero(a: Self, b: Self)
        ensures
            Self::spec_interpolate(a, b, 0) == a,
    ;

    /// Interpolating by the full fraction returns the second transform.
    proof fn lemma_interpolate_one(a: Self, b: Self)
        ensures
            Self::spec_interpolate(a, b, FX_ONE as int) == b,
    ;

    /// Interpolation preserves well-formedness.
    proof fn lemma_interpolate_wf(a: Self, b: Self, t: int)
        requires
            a.wf(),
            b.wf(),
            0 <= t <= FX_ONE,
        ensures
            Self::spec_interpolate(a, b, t).wf(),
    ;

    /// Composition preserves well-formedness.
    proof fn lemma_concat_wf(a: Self, b: Self)
        requires
            a.wf(),
            b.wf(),
        ensures
            Self::spec_concat(a, b).wf(),
    ;

    /// A built translation is a well-formed pure translation by `v`.
    proof fn lemma_from_translation_props(v: Vec3)
        requires
            v.bounded(TR_BOUND as int),
        ensures
            Self::spec_from_translation(v).wf(),
            Self::spec_from_translation(v).is_pure_translation(),
            Self::spec_from_translation(v).spec_translation() == v,
    ;

    /// Composing two pure translations adds their translation vectors,
    /// exactly, while the sums stay in the translation range.
    proof fn lemma_concat_translations(a: Self, b: Self)
        requires
            a.wf(),
            b.wf(),
            a.is_pure_translation(),
            b.is_pure_translation(),
            -TR_BOUND <= a.spec_translation().x + b.spec_translation().x <= TR_BOUND,
            -TR_BOUND <= a.spec_translation().y + b.spec_translation().y <= TR_BOUND,
            -TR_BOUND <= a.spec_translation().z + b.spec_translation().z <= TR_BOUND,
        ensures
            Self::spec_concat(a, b).is_pure_translation(),
            Self::spec_concat(a, b).spec_translation() == (Vec3 {
                x: (a.spec_translation().x + b.spec_translation().x) as i64,
                y: (a.spec_translation().y + b.spec_translation().y) as i64,
                z: (a.spec_translation().z + b.spec_translation().z) as i64,
            }),
    ;
}

/// Conversion between pose representations, used when a renderer's skinning
/// representation differs from the blend tree's working representation.
pub trait FromTransform<T: Transform>: Transform {
    /// The converted transform.
    spec fn spec_from_transform(t: T) -> Self;

    /// Convert a transform of the other representation.
    fn from_transform(t: &T) -> (r: Self)
        requires
            t.wf(),
        ensures
            r == Self::spec_from_transform(*t),
            r.wf(),
    ;
}

} // verus!
