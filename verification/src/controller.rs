//! The animation controller: playback state, parameters, and the final
//! global pose.

use vstd::prelude::*;
use crate::blend_tree::BlendTree;
use crate::errors::AnimError;
use crate::fixed::{spec_clamp, spec_mul_div, clamp_i64, mul_div, lemma_mul_abs_bound,
    lemma_tdiv_bound, FX_ONE, TIME_BOUND};
use crate::params::ParamSet;
use crate::pose::{compose, spec_global_pose};
use crate::skeleton::Skeleton;
use crate::transform::Transform;

verus! {

/// Largest magnitude of the playback speed factor.
pub const SPEED_BOUND: i64 = 1_000_000_000;

/// One animated character's playback state: a blend tree, a skeleton, a
/// parameter set, a clock and a signed playback speed.
///
/// The clock saturates at the time range; a negative speed plays backward,
/// with each clip wrapping or clamping negative query times by its own
/// loop flag.
pub struct AnimationController<T: Transform> {
    pub skeleton: Skeleton<T>,
    pub blend_tree: BlendTree<T>,
    pub params: ParamSet,
    pub local_time: i64,
    pub playback_speed: i64,
}

impl<T: Transform> AnimationController<T> {
    /// Validity: well-formed parts, the tree built for this skeleton, and
    /// clock and speed within their ranges.
    pub open spec fn wf(self) -> bool {
        &&& self.skeleton.wf()
        &&& self.blend_tree.wf()
        &&& self.params.wf()
        &&& self.blend_tree.joint_count == self.skeleton.spec_joint_count()
        &&& -TIME_BOUND <= self.local_time <= TIME_BOUND
        &&& -SPEED_BOUND <= self.playback_speed <= SPEED_BOUND
    }

    /// The query time handed to the blend tree: the clock advanced by a
    /// render-side partial step, saturating at the time range.
    pub open spec fn spec_query_time(self, ext_dt: int) -> int {
        spec_clamp(
            self.local_time + spec_mul_div(ext_dt, self.playback_speed as int, FX_ONE as int),
            -TIME_BOUND as int,
            TIME_BOUND as int,
        )
    }

    /// Pair a blend tree with its skeleton and parameter set. The tree
    /// must cover exactly the skeleton's joints.
    pub fn new(skeleton: Skeleton<T>, blend_tree: BlendTree<T>, params: ParamSet) -> (r: Result<
        AnimationController<T>,
        AnimError,
    >)
        requires
            skeleton.wf(),
            blend_tree.wf(),
            params.wf(),
        ensures
            match r {
                Ok(c) => {
                    &&& blend_tree.joint_count == skeleton.spec_joint_count()
                    &&& c == (AnimationController {
                        skeleton,
                        blend_tree,
                        params,
                        local_time: 0,
                        playback_speed: FX_ONE,
                    })
                    &&& c.wf()
                },
                Err(e) => {
                    &&& e == AnimError::IndexError
                    &&& blend_tree.joint_count != skeleton.spec_joint_count()
                },
            },
    {
        if blend_tree.joint_count != skeleton.joint_count() {
            return Err(AnimError::IndexError);
        }
        Ok(
            AnimationController {
                skeleton,
                blend_tree,
                params,
                local_time: 0,
                playback_speed: FX_ONE,
            },
        )
    }

    /// Set the playback speed factor, clamped into the speed range. A
    /// negative factor plays backward, zero pauses.
    pub fn set_playback_speed(&mut self, speed: i64)
        requires
            old(self).wf(),
        ensures
            final(self).wf(),
            final(self).playback_speed == spec_clamp(
                speed as int,
                -SPEED_BOUND as int,
                SPEED_BOUND as int,
            ),
            *final(self) == (AnimationController {
                playback_speed: final(self).playback_speed,
                ..*old(self)
            }),
    {
        self.playback_speed = clamp_i64(speed, -SPEED_BOUND, SPEED_BOUND);
    }

    /// Advance the clock by `dt` scaled by the playback speed, saturating
    /// at the time range.
    pub fn update(&mut self, dt: i64)
        requires
            old(self).wf(),
            -TIME_BOUND <= dt <= TIME_BOUND,
        ensures
            final(self).wf(),
            final(self).local_time == spec_clamp(
                old(self).local_time + spec_mul_div(
                    dt as int,
                    old(self).playback_speed as int,
                    FX_ONE as int,
                ),
                -TIME_BOUND as int,
                TIME_BOUND as int,
            ),
            *final(self) == (AnimationController { local_time: final(self).local_time, ..*old(self) }),
    {
        proof {
            lemma_mul_abs_bound(
                dt as int,
                self.playback_speed as int,
                TIME_BOUND as int,
                SPEED_BOUND as int,
            );
            lemma_tdiv_bound(
                dt as int * self.playback_speed as int,
                TIME_BOUND as int * SPEED_BOUND as int,
                FX_ONE as int,
            );
            assert((TIME_BOUND as int * SPEED_BOUND as int) / (FX_ONE as int)
                < i64::MAX as int - TIME_BOUND as int) by (nonlinear_arith);
        }
        let step: i64 = mul_div(dt, self.playback_speed, FX_ONE);
        self.local_time = clamp_i64(self.local_time + step, -TIME_BOUND, TIME_BOUND);
    }

    /// Set a named parameter; an undeclared name is an error and changes
    /// nothing.
    pub fn set_param_value(&mut self, name: &String, value: i64) -> (r: Result<(), AnimError>)
        requires
            old(self).wf(),
        ensures
            final(self).wf(),
            final(self).skeleton == old(self).skeleton,
            final(self).blend_tree == old(self).blend_tree,
            final(self).local_time == old(self).local_time,
            final(self).playback_speed == old(self).playback_speed,
            final(self).params.names == old(self).params.names,
            match r {
                Ok(()) => exists|i: int|
                    0 <= i < old(self).params.names@.len() && (
                    #[trigger] old(self).params.names@[i])@ == name@ && final(self).params.values@
                        == old(self).params.values@.update(i, value),
                Err(e) => {
                    &&& e == AnimError::UnknownParameter
                    &&& !old(self).params.spec_has(name@)
                    &&& *final(self) == *old(self)
                },
            },
    {
        self.params.set_value(name, value)
    }

    /// Read a named parameter back; an undeclared name is an error.
    pub fn get_param_value(&self, name: &String) -> (r: Result<i64, AnimError>)
        requires
            self.wf(),
        ensures
            match r {
                Ok(v) => exists|i: int|
                    0 <= i < self.params.names@.len() && (#[trigger] self.params.names@[i])@
                        == name@ && v == self.params.values@[i],
                Err(e) => e == AnimError::UnknownParameter && !self.params.spec_has(name@),
            },
    {
        self.params.value_of(name)
    }

    /// The parameter set.
    pub fn get_parameters(&self) -> (r: &ParamSet)
        ensures
            r == &self.params,
    {
        &self.params
    }

    /// The current clock value.
    pub fn time(&self) -> (r: i64)
        ensures
            r == self.local_time,
    {
        self.local_time
    }

    /// Produce the global pose at the clock advanced by a render-side
    /// partial step `ext_dt` (not persisted): evaluate the blend tree into
    /// a local pose and compose it over the skeleton into `out`.
    ///
    /// `out` must hold exactly one slot per joint (else `IndexError`), and
    /// every parameter index the tree reads must exist (else
    /// `UnknownParameter`); in both cases `out` is unchanged.
    pub fn get_output_pose(&self, ext_dt: i64, out: &mut Vec<T>) -> (r: Result<(), AnimError>)
        requires
            self.wf(),
            -TIME_BOUND <= ext_dt <= TIME_BOUND,
        ensures
            match r {
                Ok(()) => {
                    &&& self.blend_tree.params_ok(self.params.values@.len() as int)
                    &&& old(out)@.len() == self.skeleton.spec_joint_count()
                    &&& final(out)@.len() == self.skeleton.spec_joint_count()
                    &&& forall|i: int|
                        0 <= i < final(out)@.len() ==> final(out)@[i] == spec_global_pose(
                            self.skeleton,
                            self.blend_tree.spec_output_pose(
                                self.spec_query_time(ext_dt as int),
                                self.params.values@,
                            ),
                            i,
                        )
                    &&& forall|i: int| 0 <= i < final(out)@.len() ==> (#[trigger] final(out)@[i]).wf()
                },
                Err(e) => {
                    &&& *final(out) == *old(out)
                    &&& if !self.blend_tree.params_ok(self.params.values@.len() as int) {
                        e == AnimError::UnknownParameter
                    } else {
                        e == AnimError::IndexError && old(out)@.len()
                            != self.skeleton.spec_joint_count()
                    }
                },
            },
    {
        proof {
            lemma_mul_abs_bound(
                ext_dt as int,
                self.playback_speed as int,
                TIME_BOUND as int,
                SPEED_BOUND as int,
            );
            lemma_tdiv_bound(
                ext_dt as int * self.playback_speed as int,
                TIME_BOUND as int * SPEED_BOUND as int,
                FX_ONE as int,
            );
            assert((TIME_BOUND as int * SPEED_BOUND as int) / (FX_ONE as int)
                < i64::MAX as int - TIME_BOUND as int) by (nonlinear_arith);
        }
        let step: i64 = mul_div(ext_dt, self.playback_speed, FX_ONE);
        let t: i64 = clamp_i64(self.local_time + step, -TIME_BOUND, TIME_BOUND);
        let jc: usize = self.skeleton.joint_count();
        let mut local: Vec<T> = Vec::new();
        let mut i: usize = 0;
        while i < jc
            invariant
                i <= jc,
                local@.len() == i,
            decreases jc - i,
        {
            local.push(T::identity());
            i = i + 1;
        }
        let filled = self.blend_tree.get_output_pose(t, &self.params, &mut local);
        match filled {
            Ok(()) => {
                let composed = compose(&self.skeleton, &local, out);
                match composed {
                    Ok(()) => Ok(()),
                    Err(e) => Err(e),
                }
            },
            Err(e) => Err(e),
        }
    }
}

} // verus!
