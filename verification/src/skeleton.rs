//! The static joint hierarchy.

use vstd::prelude::*;
use crate::errors::AnimError;
use crate::transform::Transform;

verus! {

/// One node of the joint hierarchy: a name for labelling, the parent's
/// index (`None` for a root), and the bind-pose local transform.
pub struct Joint<T: Transform> {
    pub name: String,
    pub parent: Option<usize>,
    pub bind_pose: T,
}

impl<T: Transform> Joint<T> {
    /// Validity of the joint standing at index `i`: its parent, if any,
    /// comes strictly before it, and its bind pose is well formed.
    pub open spec fn wf(self, i: int) -> bool {
        &&& match self.parent {
            Option::Some(p) => p < i,
            Option::None => true,
        }
        &&& self.bind_pose.wf()
    }
}

/// An ordered joint list in topological order: every joint's parent
/// precedes it. Never mutated after construction.
pub struct Skeleton<T: Transform> {
    pub joints: Vec<Joint<T>>,
}

impl<T: Transform> Skeleton<T> {
    /// Every joint is valid at its own index.
    pub open spec fn wf(self) -> bool {
        forall|i: int| 0 <= i < self.joints.len() ==> (#[trigger] self.joints[i]).wf(i)
    }

    /// Number of joints.
    pub open spec fn spec_joint_count(self) -> int {
        self.joints.len() as int
    }

    /// Validate a joint list: the parent of joint `i` must have an index
    /// below `i`, and each bind pose must be in range.
    pub fn new(joints: Vec<Joint<T>>) -> (r: Result<Skeleton<T>, AnimError>)
        ensures
            match r {
                Ok(s) => s.joints == joints && s.wf(),
                Err(e) => {
                    &&& e == AnimError::MalformedSkeleton
                    &&& exists|i: int| 0 <= i < joints.len() && !(#[trigger] joints[i]).wf(i)
                },
            },
    {
        let n: usize = joints.len();
        let mut i: usize = 0;
        while i < n
            invariant
                n == joints.len(),
                i <= n,
                forall|k: int| 0 <= k < i ==> (#[trigger] joints[k]).wf(k),
            decreases n - i,
        {
            let ok: bool = match joints[i].parent {
                Option::Some(p) => p < i,
                Option::None => true,
            };
            if !ok {
                return Err(AnimError::MalformedSkeleton);
            }
            if !joints[i].bind_pose.check_wf() {
                return Err(AnimError::MalformedSkeleton);
            }
            i = i + 1;
        }
        Ok(Skeleton { joints })
    }

    /// Number of joints.
    pub fn joint_count(&self) -> (r: usize)
        ensures
            r == self.spec_joint_count(),
    {
        self.joints.len()
    }

    /// The joint at index `i`; an out-of-range index is the caller's
    /// mistake and is reported, not tolerated.
    pub fn joint(&self, i: usize) -> (r: Result<&Joint<T>, AnimError>)
        ensures
            match r {
                Ok(j) => i < self.joints.len() && j == &self.joints[i as int],
                Err(e) => i >= self.joints.len() && e == AnimError::IndexError,
            },
    {
        if i < self.joints.len() {
            Ok(&self.joints[i])
        } else {
            Err(AnimError::IndexError)
        }
    }

    /// The parent index of joint `i`, `None` for a root.
    pub fn parent_of(&self, i: usize) -> (r: Option<usize>)
        requires
            i < self.joints.len(),
        ensures
            r == self.joints[i as int].parent,
    {
        self.joints[i].parent
    }

    /// The parent-child pairs of the hierarchy, in child order: one
    /// `(parent, child)` entry for every joint that has a parent. A
    /// wireframe drawer turns these into line segments between the
    /// corresponding global joint positions.
    pub fn parent_links(&self) -> (r: Vec<(usize, usize)>)
        requires
            self.wf(),
        ensures
            r@.len() <= self.joints@.len(),
            forall|k1: int, k2: int|
                0 <= k1 < k2 < r@.len() ==> (#[trigger] r@[k1]).1 < (#[trigger] r@[k2]).1,
            forall|k: int|
                0 <= k < r@.len() ==> {
                    let (p, c) = #[trigger] r@[k];
                    &&& c < self.joints@.len()
                    &&& self.joints@[c as int].parent == Option::Some(p)
                    &&& p < c
                },
            forall|c: int|
                0 <= c < self.joints@.len() && self.joints@[c].parent is Some ==> exists|k: int|
                    0 <= k < r@.len() && (#[trigger] r@[k]).1 == c,
    {
        let n: usize = self.joints.len();
        let mut links: Vec<(usize, usize)> = Vec::new();
        let mut i: usize = 0;
        while i < n
            invariant
                i <= n,
                n == self.joints@.len(),
                self.wf(),
                links@.len() <= i,
                forall|k1: int, k2: int|
                    0 <= k1 < k2 < links@.len() ==> (#[trigger] links@[k1]).1 < (
                    #[trigger] links@[k2]).1,
                forall|k: int|
                    0 <= k < links@.len() ==> {
                        let (p, c) = #[trigger] links@[k];
                        &&& c < i
                        &&& self.joints@[c as int].parent == Option::Some(p)
                        &&& p < c
                    },
                forall|c: int|
                    0 <= c < i && self.joints@[c].parent is Some ==> exists|k: int|
                        0 <= k < links@.len() && (#[trigger] links@[k]).1 == c,
            decreases n - i,
        {
            let ghost old_links = links@;
            match self.parent_of(i) {
                Option::Some(p) => {
                    links.push((p, i));
                },
                Option::None => {
                },
            }
            proof {
                assert forall|c: int|
                    0 <= c < i + 1 && self.joints@[c].parent is Some implies exists|k: int|
                    0 <= k < links@.len() && (#[trigger] links@[k]).1 == c by {
                    if c == i {
                        assert(links@[links@.len() - 1].1 == c);
                    } else {
                        let k0 = choose|k: int|
                            0 <= k < old_links.len() && (#[trigger] old_links[k]).1 == c;
                        assert(links@[k0].1 == c);
                    }
                }
            }
            i = i + 1;
        }
        links
    }
}

} // verus!
