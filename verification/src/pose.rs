//! Local-to-global pose composition.
//!
//! The skeleton's topological order (parents before children) lets one
//! index-order pass compute every global transform; the recursive spec
//! states what that pass must equal.

use vstd::prelude::*;
use crate::errors::AnimError;
use crate::fixed::TR_BOUND;
use crate::skeleton::Skeleton;
use crate::transform::Transform;
use crate::vec3::Vec3;

verus! {

/// The global transform of joint `i`: its local transform, composed under
/// its parent's global transform, recursively up to a root.
pub open spec fn spec_global_pose<T: Transform>(skeleton: Skeleton<T>, local: Seq<T>, i: int) -> T
    decreases i,
{
    match skeleton.joints[i].parent {
        Option::Some(p) => {
            if p < i {
                T::spec_concat(spec_global_pose(skeleton, local, p as int), local[i])
            } else {
                T::spec_identity()
            }
        },
        Option::None => local[i],
    }
}

/// Global poses of well-formed locals are well formed.
pub proof fn lemma_global_pose_wf<T: Transform>(skeleton: Skeleton<T>, local: Seq<T>, i: int)
    requires
        skeleton.wf(),
        0 <= i < skeleton.joints.len(),
        local.len() == skeleton.joints.len(),
        forall|j: int| 0 <= j < local.len() ==> (#[trigger] local[j]).wf(),
    ensures
        spec_global_pose(skeleton, local, i).wf(),
    decreases i,
{
    match skeleton.joints[i].parent {
        Option::Some(p) => {
            lemma_global_pose_wf(skeleton, local, p as int);
            T::lemma_concat_wf(spec_global_pose(skeleton, local, p as int), local[i]);
        },
        Option::None => {
        },
    }
}

/// Expand local (parent-relative) transforms into global (skeleton-space)
/// transforms by one walk in index order.
///
/// `local` and `out` must both hold exactly one slot per joint; a wrong
/// length is the caller's mistake and reported as `IndexError`, leaving
/// `out` unchanged.
pub fn compose<T: Transform>(skeleton: &Skeleton<T>, local: &Vec<T>, out: &mut Vec<T>) -> (r:
    Result<(), AnimError>)
    requires
        skeleton.wf(),
        forall|j: int| 0 <= j < local@.len() ==> (#[trigger] local@[j]).wf(),
    ensures
        r is Ok <==> (local@.len() == skeleton.spec_joint_count() && old(out)@.len()
            == skeleton.spec_joint_count()),
        match r {
            Ok(()) => {
                &&& final(out)@.len() == skeleton.spec_joint_count()
                &&& forall|i: int|
                    0 <= i < final(out)@.len() ==> final(out)@[i] == spec_global_pose(
                        *skeleton,
                        local@,
                        i,
                    )
                &&& forall|i: int| 0 <= i < final(out)@.len() ==> (#[trigger] final(out)@[i]).wf()
            },
            Err(e) => e == AnimError::IndexError && *final(out) == *old(out),
        },
{
    let jc: usize = skeleton.joint_count();
    if local.len() != jc {
        return Err(AnimError::IndexError);
    }
    if out.len() != jc {
        return Err(AnimError::IndexError);
    }
    let mut result: Vec<T> = Vec::new();
    let mut i: usize = 0;
    while i < jc
        invariant
            i <= jc,
            result@.len() == i,
            jc == skeleton.spec_joint_count(),
            skeleton.wf(),
            local@.len() == jc,
            forall|j: int| 0 <= j < local@.len() ==> (#[trigger] local@[j]).wf(),
            forall|k: int|
                0 <= k < i ==> result@[k] == spec_global_pose(*skeleton, local@, k),
            forall|k: int| 0 <= k < i ==> (#[trigger] result@[k]).wf(),
        decreases jc - i,
    {
        let pr = skeleton.parent_of(i);
        let g: T = match pr {
            Option::Some(p) => T::concat(&result[p], &local[i]),
            Option::None => local[i],
        };
        result.push(g);
        i = i + 1;
    }
    *out = result;
    Ok(())
}

/// The translation accumulated along the ancestor chain of joint `i`.
pub open spec fn spec_chain_translation<T: Transform>(
    skeleton: Skeleton<T>,
    local: Seq<T>,
    i: int,
) -> (int, int, int)
    decreases i,
{
    let t = local[i].spec_translation();
    match skeleton.joints[i].parent {
        Option::None => (t.x as int, t.y as int, t.z as int),
        Option::Some(p) => {
            if p < i {
                let pt = spec_chain_translation(skeleton, local, p as int);
                (pt.0 + t.x, pt.1 + t.y, pt.2 + t.z)
            } else {
                (0, 0, 0)
            }
        },
    }
}

/// Hierarchy composition of pure translations: when every local transform
/// only translates and every accumulated chain stays in the translation
/// range, each joint's global transform is the pure translation by the sum
/// of the local translations along its ancestor chain.
pub proof fn lemma_compose_translations<T: Transform>(
    skeleton: Skeleton<T>,
    local: Seq<T>,
    i: int,
)
    requires
        skeleton.wf(),
        0 <= i < skeleton.joints.len(),
        local.len() == skeleton.joints.len(),
        forall|j: int| 0 <= j < local.len() ==> (#[trigger] local[j]).wf(),
        forall|j: int| 0 <= j < local.len() ==> (#[trigger] local[j]).is_pure_translation(),
        forall|j: int|
            0 <= j < local.len() ==> {
                let c = #[trigger] spec_chain_translation(skeleton, local, j);
                &&& -TR_BOUND <= c.0 <= TR_BOUND
                &&& -TR_BOUND <= c.1 <= TR_BOUND
                &&& -TR_BOUND <= c.2 <= TR_BOUND
            },
    ensures
        spec_global_pose(skeleton, local, i).is_pure_translation(),
        spec_global_pose(skeleton, local, i).spec_translation() == (Vec3 {
            x: spec_chain_translation(skeleton, local, i).0 as i64,
            y: spec_chain_translation(skeleton, local, i).1 as i64,
            z: spec_chain_translation(skeleton, local, i).2 as i64,
        }),
    decreases i,
{
    match skeleton.joints[i].parent {
        Option::None => {
        },
        Option::Some(p) => {
            lemma_compose_translations(skeleton, local, p as int);
            lemma_global_pose_wf(skeleton, local, p as int);
            let ci = spec_chain_translation(skeleton, local, i);
            let cp = spec_chain_translation(skeleton, local, p as int);
            assert(-TR_BOUND <= ci.0 <= TR_BOUND);
            assert(-TR_BOUND <= cp.0 <= TR_BOUND);
            assert(ci.0 == cp.0 + local[i].spec_translation().x);
            assert(ci.1 == cp.1 + local[i].spec_translation().y);
            assert(ci.2 == cp.2 + local[i].spec_translation().z);
            T::lemma_concat_translations(spec_global_pose(skeleton, local, p as int), local[i]);
        },
    }
}

} // verus!
