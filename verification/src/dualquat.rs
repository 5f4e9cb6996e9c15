//! The dual-quaternion pose representation.
//!
//! A pose is a normalized real part (the rotation) and a dual part carrying
//! the translation. The dual part is stored as the translation quaternion
//! multiplied by the real part, without the conventional one-half factor;
//! the factor cancels in composition and extraction, and leaving it out
//! keeps both conversions exact in fixed point. The representation carries
//! no scale component.

use vstd::prelude::*;
use crate::fixed::{
    spec_clamp, tdiv, spec_isqrt, spec_lerp, clamp_i64, fx_lerp, mul_div, isqrt_u64,
    lemma_isqrt_unique, lemma_mul_abs_bound, lemma_mul_sign, lemma_tdiv_bound,
    lemma_tdiv_multiples, lemma_lerp_range, FX_ONE, TR_BOUND, DUAL_BOUND,
};
use crate::vec3::Vec3;
use crate::quat::{Quat, NORM_IN_BOUND, lemma_normalize_unit, lemma_normalize_norm_one,
    lemma_raw_mul_identity, lemma_identity_facts};
use crate::transform::{Transform, FromTransform};
use crate::qv::QVTransform;
use vstd::arithmetic::div_mod::lemma_div_nonincreasing;

verus! {

/// A rigid transform as a normalized dual quaternion.
#[derive(Clone, Copy, PartialEq, Eq, Structural, Debug)]
pub struct DualQuaternion {
    pub real: Quat,
    pub dual: Quat,
}

impl DualQuaternion {
    /// Renormalization by the real part's length; a degenerate zero real
    /// part maps to the identity.
    pub open spec fn spec_normalize_dq(d: DualQuaternion) -> DualQuaternion {
        let ns = d.real.spec_norm_sq();
        if ns == 0 {
            DualQuaternion {
                real: Quat::spec_identity(),
                dual: Quat { w: 0, x: 0, y: 0, z: 0 },
            }
        } else {
            let n = spec_isqrt(ns as nat) as int;
            DualQuaternion {
                real: Quat::spec_normalize(d.real),
                dual: Quat {
                    w: spec_clamp(
                        tdiv(d.dual.w * FX_ONE as int, n),
                        -DUAL_BOUND as int,
                        DUAL_BOUND as int,
                    ) as i64,
                    x: spec_clamp(
                        tdiv(d.dual.x * FX_ONE as int, n),
                        -DUAL_BOUND as int,
                        DUAL_BOUND as int,
                    ) as i64,
                    y: spec_clamp(
                        tdiv(d.dual.y * FX_ONE as int, n),
                        -DUAL_BOUND as int,
                        DUAL_BOUND as int,
                    ) as i64,
                    z: spec_clamp(
                        tdiv(d.dual.z * FX_ONE as int, n),
                        -DUAL_BOUND as int,
                        DUAL_BOUND as int,
                    ) as i64,
                },
            }
        }
    }

    /// Renormalize by the real part's length.
    pub fn normalize_dq(d: &DualQuaternion) -> (r: DualQuaternion)
        requires
            d.real.bounded(NORM_IN_BOUND as int),
            d.dual.bounded(DUAL_BOUND as int),
        ensures
            r == DualQuaternion::spec_normalize_dq(*d),
            r.wf(),
    {
        proof {
            lemma_mul_sign(d.real.w as int, d.real.w as int);
            lemma_mul_sign(d.real.x as int, d.real.x as int);
            lemma_mul_sign(d.real.y as int, d.real.y as int);
            lemma_mul_sign(d.real.z as int, d.real.z as int);
            lemma_mul_abs_bound(
                d.real.w as int,
                d.real.w as int,
                NORM_IN_BOUND as int,
                NORM_IN_BOUND as int,
            );
            lemma_mul_abs_bound(
                d.real.x as int,
                d.real.x as int,
                NORM_IN_BOUND as int,
                NORM_IN_BOUND as int,
            );
            lemma_mul_abs_bound(
                d.real.y as int,
                d.real.y as int,
                NORM_IN_BOUND as int,
                NORM_IN_BOUND as int,
            );
            lemma_mul_abs_bound(
                d.real.z as int,
                d.real.z as int,
                NORM_IN_BOUND as int,
                NORM_IN_BOUND as int,
            );
        }
        let sw: i128 = (d.real.w as i128) * (d.real.w as i128);
        let sx: i128 = (d.real.x as i128) * (d.real.x as i128);
        let sy: i128 = (d.real.y as i128) * (d.real.y as i128);
        let sz: i128 = (d.real.z as i128) * (d.real.z as i128);
        let ns: u64 = (sw + sx + sy + sz) as u64;
        if ns == 0 {
            DualQuaternion { real: Quat::identity(), dual: Quat { w: 0, x: 0, y: 0, z: 0 } }
        } else {
            let n64: u64 = isqrt_u64(ns);
            proof {
                if n64 == 0 {
                    assert((n64 as int + 1) * (n64 as int + 1) == 1) by (nonlinear_arith)
                        requires
                            n64 as int == 0,
                    ;
                    assert(false);
                }
                let du = DUAL_BOUND as int;
                let one = FX_ONE as int;
                let ni = n64 as int;
                lemma_mul_abs_bound(d.dual.w as int, one, du, one);
                lemma_mul_abs_bound(d.dual.x as int, one, du, one);
                lemma_mul_abs_bound(d.dual.y as int, one, du, one);
                lemma_mul_abs_bound(d.dual.z as int, one, du, one);
                lemma_tdiv_bound(d.dual.w as int * one, du * one, ni);
                lemma_tdiv_bound(d.dual.x as int * one, du * one, ni);
                lemma_tdiv_bound(d.dual.y as int * one, du * one, ni);
                lemma_tdiv_bound(d.dual.z as int * one, du * one, ni);
                lemma_div_nonincreasing(du * one, ni);
                assert(du * one <= i64::MAX as int) by (nonlinear_arith)
                    requires
                        du == 4_000_000_000_000,
                        one == 1_000_000,
                ;
            }
            let n: i64 = n64 as i64;
            let nreal = Quat::normalize(&d.real);
            let ndual = Quat {
                w: clamp_i64(mul_div(d.dual.w, FX_ONE, n), -DUAL_BOUND, DUAL_BOUND),
                x: clamp_i64(mul_div(d.dual.x, FX_ONE, n), -DUAL_BOUND, DUAL_BOUND),
                y: clamp_i64(mul_div(d.dual.y, FX_ONE, n), -DUAL_BOUND, DUAL_BOUND),
                z: clamp_i64(mul_div(d.dual.z, FX_ONE, n), -DUAL_BOUND, DUAL_BOUND),
            };
            DualQuaternion { real: nreal, dual: ndual }
        }
    }
}

/// Normalization lands in the representation's component ranges.
pub proof fn lemma_normalize_dq_wf(d: DualQuaternion)
    ensures
        DualQuaternion::spec_normalize_dq(d).wf(),
{
    lemma_normalize_unit(d.real);
}

impl Transform for DualQuaternion {
    open spec fn wf(self) -> bool {
        &&& self.real.unit_bounded()
        &&& self.dual.bounded(DUAL_BOUND as int)
    }

    open spec fn spec_identity() -> DualQuaternion {
        DualQuaternion { real: Quat::spec_identity(), dual: Quat { w: 0, x: 0, y: 0, z: 0 } }
    }

    open spec fn spec_interpolate(a: DualQuaternion, b: DualQuaternion, t: int) -> DualQuaternion {
        if t == 0 {
            a
        } else if t == FX_ONE as int {
            b
        } else {
            let flip = Quat::spec_dot(a.real, b.real) < 0;
            let br = if flip {
                Quat::spec_neg(b.real)
            } else {
                b.real
            };
            let bd = if flip {
                Quat::spec_neg(b.dual)
            } else {
                b.dual
            };
            DualQuaternion::spec_normalize_dq(
                DualQuaternion {
                    real: Quat {
                        w: spec_lerp(a.real.w as int, br.w as int, t) as i64,
                        x: spec_lerp(a.real.x as int, br.x as int, t) as i64,
                        y: spec_lerp(a.real.y as int, br.y as int, t) as i64,
                        z: spec_lerp(a.real.z as int, br.z as int, t) as i64,
                    },
                    dual: Quat {
                        w: spec_lerp(a.dual.w as int, bd.w as int, t) as i64,
                        x: spec_lerp(a.dual.x as int, bd.x as int, t) as i64,
                        y: spec_lerp(a.dual.y as int, bd.y as int, t) as i64,
                        z: spec_lerp(a.dual.z as int, bd.z as int, t) as i64,
                    },
                },
            )
        }
    }

    open spec fn spec_concat(a: DualQuaternion, b: DualQuaternion) -> DualQuaternion {
        let rr = Quat::spec_raw_mul(a.real, b.real);
        let rm1 = Quat::spec_raw_mul(a.real, b.dual);
        let rm2 = Quat::spec_raw_mul(a.dual, b.real);
        DualQuaternion::spec_normalize_dq(
            DualQuaternion {
                real: rr,
                dual: Quat {
                    w: spec_clamp(
                        rm1.w + rm2.w,
                        -DUAL_BOUND as int,
                        DUAL_BOUND as int,
                    ) as i64,
                    x: spec_clamp(
                        rm1.x + rm2.x,
                        -DUAL_BOUND as int,
                        DUAL_BOUND as int,
                    ) as i64,
                    y: spec_clamp(
                        rm1.y + rm2.y,
                        -DUAL_BOUND as int,
                        DUAL_BOUND as int,
                    ) as i64,
                    z: spec_clamp(
                        rm1.z + rm2.z,
                        -DUAL_BOUND as int,
                        DUAL_BOUND as int,
                    ) as i64,
                },
            },
        )
    }

    open spec fn spec_translation(self) -> Vec3 {
        let p = Quat::spec_raw_mul(self.dual, Quat::spec_conj(self.real));
        Vec3 {
            x: spec_clamp(p.x as int, -TR_BOUND as int, TR_BOUND as int) as i64,
            y: spec_clamp(p.y as int, -TR_BOUND as int, TR_BOUND as int) as i64,
            z: spec_clamp(p.z as int, -TR_BOUND as int, TR_BOUND as int) as i64,
        }
    }

    open spec fn is_pure_translation(self) -> bool {
        &&& self.real == Quat::spec_identity()
        &&& self.dual.w == 0
        &&& self.dual.bounded(TR_BOUND as int)
    }

    open spec fn spec_from_translation(v: Vec3) -> DualQuaternion {
        DualQuaternion {
            real: Quat::spec_identity(),
            dual: Quat { w: 0, x: v.x, y: v.y, z: v.z },
        }
    }

    fn identity() -> (r: DualQuaternion) {
        DualQuaternion { real: Quat::identity(), dual: Quat { w: 0, x: 0, y: 0, z: 0 } }
    }

    fn check_wf(&self) -> (b: bool) {
        self.real.check_unit() && -DUAL_BOUND <= self.dual.w && self.dual.w <= DUAL_BOUND
            && -DUAL_BOUND <= self.dual.x && self.dual.x <= DUAL_BOUND && -DUAL_BOUND <= self.dual.y
            && self.dual.y <= DUAL_BOUND && -DUAL_BOUND <= self.dual.z && self.dual.z <= DUAL_BOUND
    }

    fn interpolate(a: &DualQuaternion, b: &DualQuaternion, t: i64) -> (r: DualQuaternion) {
        if t == 0 {
            *a
        } else if t == FX_ONE {
            *b
        } else {
            proof {
                let one = FX_ONE as int;
                lemma_mul_abs_bound(a.real.w as int, b.real.w as int, one, one);
                lemma_mul_abs_bound(a.real.x as int, b.real.x as int, one, one);
                lemma_mul_abs_bound(a.real.y as int, b.real.y as int, one, one);
                lemma_mul_abs_bound(a.real.z as int, b.real.z as int, one, one);
            }
            let d1: i64 = a.real.w * b.real.w;
            let d2: i64 = a.real.x * b.real.x;
            let d3: i64 = a.real.y * b.real.y;
            let d4: i64 = a.real.z * b.real.z;
            let dot: i64 = d1 + d2 + d3 + d4;
            let flip: bool = dot < 0;
            let br: Quat = if flip {
                Quat::negated(&b.real)
            } else {
                b.real
            };
            let bd: Quat = if flip {
                Quat::negated(&b.dual)
            } else {
                b.dual
            };
            proof {
                lemma_lerp_range(a.real.w as int, br.w as int, t as int);
                lemma_lerp_range(a.real.x as int, br.x as int, t as int);
                lemma_lerp_range(a.real.y as int, br.y as int, t as int);
                lemma_lerp_range(a.real.z as int, br.z as int, t as int);
                lemma_lerp_range(a.dual.w as int, bd.w as int, t as int);
                lemma_lerp_range(a.dual.x as int, bd.x as int, t as int);
                lemma_lerp_range(a.dual.y as int, bd.y as int, t as int);
                lemma_lerp_range(a.dual.z as int, bd.z as int, t as int);
            }
            let mixed = DualQuaternion {
                real: Quat {
                    w: fx_lerp(a.real.w, br.w, t),
                    x: fx_lerp(a.real.x, br.x, t),
                    y: fx_lerp(a.real.y, br.y, t),
                    z: fx_lerp(a.real.z, br.z, t),
                },
                dual: Quat {
                    w: fx_lerp(a.dual.w, bd.w, t),
                    x: fx_lerp(a.dual.x, bd.x, t),
                    y: fx_lerp(a.dual.y, bd.y, t),
                    z: fx_lerp(a.dual.z, bd.z, t),
                },
            };
            DualQuaternion::normalize_dq(&mixed)
        }
    }

    fn concat(a: &DualQuaternion, b: &DualQuaternion) -> (r: DualQuaternion) {
        let rr = Quat::product_raw(&a.real, &b.real);
        let rm1 = Quat::product_raw(&a.real, &b.dual);
        let rm2 = Quat::product_raw(&a.dual, &b.real);
        let dsum = Quat {
            w: clamp_i64(rm1.w + rm2.w, -DUAL_BOUND, DUAL_BOUND),
            x: clamp_i64(rm1.x + rm2.x, -DUAL_BOUND, DUAL_BOUND),
            y: clamp_i64(rm1.y + rm2.y, -DUAL_BOUND, DUAL_BOUND),
            z: clamp_i64(rm1.z + rm2.z, -DUAL_BOUND, DUAL_BOUND),
        };
        DualQuaternion::normalize_dq(&DualQuaternion { real: rr, dual: dsum })
    }

    fn translation(&self) -> (r: Vec3) {
        let c = Quat::conj(&self.real);
        let p = Quat::product_raw(&self.dual, &c);
        Vec3 {
            x: clamp_i64(p.x, -TR_BOUND, TR_BOUND),
            y: clamp_i64(p.y, -TR_BOUND, TR_BOUND),
            z: clamp_i64(p.z, -TR_BOUND, TR_BOUND),
        }
    }

    fn from_translation(v: &Vec3) -> (r: DualQuaternion) {
        DualQuaternion {
            real: Quat::identity(),
            dual: Quat { w: 0, x: v.x, y: v.y, z: v.z },
        }
    }

    proof fn lemma_identity_props() {
        let id = Self::spec_identity();
        assert(Quat::spec_conj(id.real) == id.real);
        lemma_raw_mul_identity(id.dual);
    }

    proof fn lemma_interpolate_zero(a: DualQuaternion, b: DualQuaternion) {
    }

    proof fn lemma_interpolate_one(a: DualQuaternion, b: DualQuaternion) {
    }

    proof fn lemma_interpolate_wf(a: DualQuaternion, b: DualQuaternion, t: int) {
        if t == 0 {
        } else if t == FX_ONE as int {
        } else {
            let flip = Quat::spec_dot(a.real, b.real) < 0;
            let br = if flip {
                Quat::spec_neg(b.real)
            } else {
                b.real
            };
            let bd = if flip {
                Quat::spec_neg(b.dual)
            } else {
                b.dual
            };
            lemma_normalize_dq_wf(
                DualQuaternion {
                    real: Quat {
                        w: spec_lerp(a.real.w as int, br.w as int, t) as i64,
                        x: spec_lerp(a.real.x as int, br.x as int, t) as i64,
                        y: spec_lerp(a.real.y as int, br.y as int, t) as i64,
                        z: spec_lerp(a.real.z as int, br.z as int, t) as i64,
                    },
                    dual: Quat {
                        w: spec_lerp(a.dual.w as int, bd.w as int, t) as i64,
                        x: spec_lerp(a.dual.x as int, bd.x as int, t) as i64,
                        y: spec_lerp(a.dual.y as int, bd.y as int, t) as i64,
                        z: spec_lerp(a.dual.z as int, bd.z as int, t) as i64,
                    },
                },
            );
        }
    }

    proof fn lemma_concat_wf(a: DualQuaternion, b: DualQuaternion) {
        let rr = Quat::spec_raw_mul(a.real, b.real);
        let rm1 = Quat::spec_raw_mul(a.real, b.dual);
        let rm2 = Quat::spec_raw_mul(a.dual, b.real);
        lemma_normalize_dq_wf(
            DualQuaternion {
                real: rr,
                dual: Quat {
                    w: spec_clamp(rm1.w + rm2.w, -DUAL_BOUND as int, DUAL_BOUND as int) as i64,
                    x: spec_clamp(rm1.x + rm2.x, -DUAL_BOUND as int, DUAL_BOUND as int) as i64,
                    y: spec_clamp(rm1.y + rm2.y, -DUAL_BOUND as int, DUAL_BOUND as int) as i64,
                    z: spec_clamp(rm1.z + rm2.z, -DUAL_BOUND as int, DUAL_BOUND as int) as i64,
                },
            },
        );
    }

    proof fn lemma_from_translation_props(v: Vec3) {
        let r = Self::spec_from_translation(v);
        assert(Quat::spec_conj(r.real) == r.real);
        lemma_raw_mul_identity(r.dual);
    }

    proof fn lemma_concat_translations(a: DualQuaternion, b: DualQuaternion) {
        let id = Quat::spec_identity();
        lemma_identity_facts();
        lemma_raw_mul_identity(id);
        lemma_raw_mul_identity(a.dual);
        lemma_raw_mul_identity(b.dual);
        assert(Quat::spec_conj(id) == id);
        let rr = Quat::spec_raw_mul(a.real, b.real);
        assert(rr == id);
        let rm1 = Quat::spec_raw_mul(a.real, b.dual);
        let rm2 = Quat::spec_raw_mul(a.dual, b.real);
        assert(rm1 == b.dual);
        assert(rm2 == a.dual);
        let dsum = Quat {
            w: spec_clamp(rm1.w + rm2.w, -DUAL_BOUND as int, DUAL_BOUND as int) as i64,
            x: spec_clamp(rm1.x + rm2.x, -DUAL_BOUND as int, DUAL_BOUND as int) as i64,
            y: spec_clamp(rm1.y + rm2.y, -DUAL_BOUND as int, DUAL_BOUND as int) as i64,
            z: spec_clamp(rm1.z + rm2.z, -DUAL_BOUND as int, DUAL_BOUND as int) as i64,
        };
        let mixed = DualQuaternion { real: rr, dual: dsum };
        assert(mixed.real.spec_norm_sq() == FX_ONE as int * FX_ONE as int);
        assert(FX_ONE as int * FX_ONE as int == 1_000_000_000_000) by (nonlinear_arith)
            requires
                FX_ONE as int == 1_000_000,
        ;
        assert((1_000_000 + 1) * (1_000_000 + 1) > 1_000_000_000_000) by (nonlinear_arith);
        lemma_isqrt_unique(1_000_000_000_000 as nat, 1_000_000 as nat);
        lemma_normalize_norm_one(mixed.real);
        lemma_tdiv_multiples(dsum.w as int, FX_ONE as int);
        lemma_tdiv_multiples(dsum.x as int, FX_ONE as int);
        lemma_tdiv_multiples(dsum.y as int, FX_ONE as int);
        lemma_tdiv_multiples(dsum.z as int, FX_ONE as int);
        let res = Self::spec_concat(a, b);
        assert(res.real == id);
        assert(res.dual == dsum);
        lemma_raw_mul_identity(res.dual);
    }
}

impl FromTransform<DualQuaternion> for DualQuaternion {
    open spec fn spec_from_transform(t: DualQuaternion) -> DualQuaternion {
        t
    }

    fn from_transform(t: &DualQuaternion) -> (r: DualQuaternion) {
        *t
    }
}

impl FromTransform<QVTransform> for DualQuaternion {
    open spec fn spec_from_transform(t: QVTransform) -> DualQuaternion {
        let tq = Quat { w: 0, x: t.translation.x, y: t.translation.y, z: t.translation.z };
        let p = Quat::spec_raw_mul(tq, t.rotation);
        DualQuaternion {
            real: t.rotation,
            dual: Quat {
                w: spec_clamp(p.w as int, -DUAL_BOUND as int, DUAL_BOUND as int) as i64,
                x: spec_clamp(p.x as int, -DUAL_BOUND as int, DUAL_BOUND as int) as i64,
                y: spec_clamp(p.y as int, -DUAL_BOUND as int, DUAL_BOUND as int) as i64,
                z: spec_clamp(p.z as int, -DUAL_BOUND as int, DUAL_BOUND as int) as i64,
            },
        }
    }

    fn from_transform(t: &QVTransform) -> (r: DualQuaternion) {
        let tq = Quat { w: 0, x: t.translation.x, y: t.translation.y, z: t.translation.z };
        let p = Quat::product_raw(&tq, &t.rotation);
        DualQuaternion {
            real: t.rotation,
            dual: Quat {
                w: clamp_i64(p.w, -DUAL_BOUND, DUAL_BOUND),
                x: clamp_i64(p.x, -DUAL_BOUND, DUAL_BOUND),
                y: clamp_i64(p.y, -DUAL_BOUND, DUAL_BOUND),
                z: clamp_i64(p.z, -DUAL_BOUND, DUAL_BOUND),
            },
        }
    }
}

impl FromTransform<DualQuaternion> for QVTransform {
    open spec fn spec_from_transform(t: DualQuaternion) -> QVTransform {
        QVTransform {
            scale: FX_ONE,
            rotation: t.real,
            translation: t.spec_translation(),
        }
    }

    fn from_transform(t: &DualQuaternion) -> (r: QVTransform) {
        let tr = t.translation();
        QVTransform { scale: FX_ONE, rotation: t.real, translation: tr }
    }
}

} // verus!
