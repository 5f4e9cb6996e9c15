//! Blend trees: clip leaves and binary interpolation nodes over a node
//! arena.
//!
//! Nodes live in a vector and address their children by index, children
//! before parents, so shared sub-trees need no shared ownership and every
//! evaluation is a bottom-up pass. Evaluation is stateless: the same time
//! and parameter values always produce the same pose.

use vstd::prelude::*;
use crate::clip::AnimationClip;
use crate::errors::AnimError;
use crate::fixed::{spec_clamp, clamp_i64, FX_ONE, TIME_BOUND};
use crate::params::ParamSet;
use crate::skeleton::Skeleton;
use crate::transform::Transform;

verus! {

/// A blend-tree node as defined by an asset: parameters by name.
pub enum NodeDef {
    /// A leaf sampling one clip, phase-shifted by `start_time`.
    ClipNode { clip: usize, start_time: i64 },
    /// Interpolation of two earlier nodes by a named parameter.
    LerpNode { left: usize, right: usize, param: String },
}

/// A blend-tree definition: an arena of nodes, children before parents,
/// and the index of the root.
pub struct BlendTreeDef {
    pub nodes: Vec<NodeDef>,
    pub root: usize,
}

/// A resolved node: parameters by index into the parameter set.
#[derive(Clone, Copy, PartialEq, Eq, Structural, Debug)]
pub enum Node {
    /// A leaf sampling one clip, phase-shifted by `start_time`.
    ClipNode { clip: usize, start_time: i64 },
    /// Interpolation of two earlier nodes by the parameter at `param`.
    LerpNode { left: usize, right: usize, param: usize },
}

/// Structural validity of a resolved node standing at index `i`.
pub open spec fn node_wf(n: Node, i: int, clips_len: int) -> bool {
    match n {
        Node::ClipNode { clip, start_time } => {
            &&& clip < clips_len
            &&& -TIME_BOUND <= start_time <= TIME_BOUND
        },
        Node::LerpNode { left, right, param: _ } => left < i && right < i,
    }
}

/// Structural validity of a definition node standing at index `i`.
pub open spec fn node_def_wf(n: NodeDef, i: int, clips_len: int) -> bool {
    match n {
        NodeDef::ClipNode { clip, start_time } => {
            &&& clip < clips_len
            &&& -TIME_BOUND <= start_time <= TIME_BOUND
        },
        NodeDef::LerpNode { left, right, param: _ } => left < i && right < i,
    }
}

/// A resolved node carries the same structure as its definition, with the
/// parameter name resolved against the set.
pub open spec fn node_matches(nd: NodeDef, n: Node, params: ParamSet) -> bool {
    match nd {
        NodeDef::ClipNode { clip, start_time } => n == (Node::ClipNode { clip, start_time }),
        NodeDef::LerpNode { left, right, param } => match n {
            Node::LerpNode { left: l2, right: r2, param: p2 } => {
                &&& l2 == left
                &&& r2 == right
                &&& p2 < params.names.len()
                &&& params.names[p2 as int]@ == param@
            },
            _ => false,
        },
    }
}

/// Structural validity of a whole definition.
pub open spec fn def_ok(def: BlendTreeDef, clips_len: int) -> bool {
    &&& def.nodes.len() > 0
    &&& def.root < def.nodes.len()
    &&& forall|i: int| 0 <= i < def.nodes.len() ==> node_def_wf(#[trigger] def.nodes[i], i, clips_len)
}

/// Every parameter name a definition refers to is declared.
pub open spec fn def_params_ok(def: BlendTreeDef, params: ParamSet) -> bool {
    forall|i: int|
        0 <= i < def.nodes.len() ==> match #[trigger] def.nodes[i] {
            NodeDef::LerpNode { left: _, right: _, param } => params.spec_has(param@),
            _ => true,
        }
}

/// Every clip covers exactly the skeleton's joints.
pub open spec fn clips_match<T: Transform>(clips: Seq<AnimationClip<T>>, jc: int) -> bool {
    forall|c: int| 0 <= c < clips.len() ==> (#[trigger] clips[c]).spec_joint_count() == jc
}

/// A blend tree instantiated against a clip store and a parameter schema.
pub struct BlendTree<T: Transform> {
    pub nodes: Vec<Node>,
    pub root: usize,
    pub clips: Vec<AnimationClip<T>>,
    pub joint_count: usize,
}

impl<T: Transform> BlendTree<T> {
    /// Validity: a nonempty arena in child-before-parent order, a root
    /// inside it, and well-formed clips covering the same joints.
    pub open spec fn wf(self) -> bool {
        &&& self.nodes.len() > 0
        &&& self.root < self.nodes.len()
        &&& forall|i: int|
            0 <= i < self.nodes.len() ==> node_wf(
                #[trigger] self.nodes[i],
                i,
                self.clips.len() as int,
            )
        &&& forall|c: int| 0 <= c < self.clips.len() ==> (#[trigger] self.clips[c]).wf()
        &&& clips_match(self.clips@, self.joint_count as int)
    }

    /// Every parameter index the tree reads exists in the value list.
    pub open spec fn params_ok(self, values_len: int) -> bool {
        forall|i: int|
            0 <= i < self.nodes.len() ==> match #[trigger] self.nodes[i] {
                Node::LerpNode { left: _, right: _, param } => param < values_len,
                _ => true,
            }
    }

    /// The pose that node `i` produces for joint `j` at a query time under
    /// given parameter values: a clip leaf samples its clip with the
    /// phase-shifted time; an interpolation node blends its children by
    /// its parameter clamped into the fraction range. The model reads an
    /// out-of-range parameter index as zero, but evaluation refuses such a
    /// parameter set before it reaches this point.
    pub open spec fn spec_node_pose(self, i: int, j: int, time: int, values: Seq<i64>) -> T
        decreases i,
    {
        match self.nodes[i] {
            Node::ClipNode { clip, start_time } => self.clips[clip as int].spec_sample(
                j,
                time - start_time,
            ),
            Node::LerpNode { left, right, param } => {
                if left < i && right < i {
                    let p = spec_clamp(
                        if param < values.len() {
                            values[param as int] as int
                        } else {
                            0
                        },
                        0,
                        FX_ONE as int,
                    );
                    T::spec_interpolate(
                        self.spec_node_pose(left as int, j, time, values),
                        self.spec_node_pose(right as int, j, time, values),
                        p,
                    )
                } else {
                    T::spec_identity()
                }
            },
        }
    }

    /// The full local pose: one transform per joint from the root node.
    pub open spec fn spec_output_pose(self, time: int, values: Seq<i64>) -> Seq<T> {
        Seq::new(
            self.joint_count as nat,
            |j: int| self.spec_node_pose(self.root as int, j, time, values),
        )
    }

    /// Node poses are always well formed.
    pub proof fn lemma_node_pose_wf(self, i: int, j: int, time: int, values: Seq<i64>)
        requires
            self.wf(),
            0 <= i < self.nodes.len(),
            0 <= j < self.joint_count,
        ensures
            self.spec_node_pose(i, j, time, values).wf(),
        decreases i,
    {
        match self.nodes[i] {
            Node::ClipNode { clip, start_time } => {
                self.clips[clip as int].lemma_sample_wf(j, time - start_time);
            },
            Node::LerpNode { left, right, param } => {
                self.lemma_node_pose_wf(left as int, j, time, values);
                self.lemma_node_pose_wf(right as int, j, time, values);
                let p = spec_clamp(
                    if param < values.len() {
                        values[param as int] as int
                    } else {
                        0
                    },
                    0,
                    FX_ONE as int,
                );
                T::lemma_interpolate_wf(
                    self.spec_node_pose(left as int, j, time, values),
                    self.spec_node_pose(right as int, j, time, values),
                    p,
                );
                T::lemma_identity_props();
            },
        }
    }

    /// Instantiate a definition: children must precede parents, clip and
    /// root indices must be in range (else `IndexError`), and every
    /// referenced parameter name must be declared (else
    /// `UnknownParameter`). Succeeds exactly when all three hold.
    pub fn new(
        def: &BlendTreeDef,
        clips: Vec<AnimationClip<T>>,
        skeleton: &Skeleton<T>,
        params: &ParamSet,
    ) -> (r: Result<BlendTree<T>, AnimError>)
        requires
            skeleton.wf(),
            params.wf(),
            forall|c: int| 0 <= c < clips.len() ==> (#[trigger] clips[c]).wf(),
        ensures
            r is Ok <==> (def_ok(*def, clips@.len() as int) && clips_match(
                clips@,
                skeleton.spec_joint_count(),
            ) && def_params_ok(*def, *params)),
            match r {
                Ok(tree) => {
                    &&& tree.wf()
                    &&& tree.root == def.root
                    &&& tree.clips == clips
                    &&& tree.joint_count == skeleton.spec_joint_count()
                    &&& tree.nodes@.len() == def.nodes@.len()
                    &&& forall|i: int|
                        0 <= i < def.nodes@.len() ==> node_matches(
                            #[trigger] def.nodes@[i],
                            tree.nodes@[i],
                            *params,
                        )
                },
                Err(e) => {
                    if def_ok(*def, clips@.len() as int) && clips_match(
                        clips@,
                        skeleton.spec_joint_count(),
                    ) {
                        e == AnimError::UnknownParameter
                    } else {
                        e == AnimError::IndexError
                    }
                },
            },
    {
        let jc: usize = skeleton.joint_count();
        let n: usize = def.nodes.len();
        if n == 0 {
            return Err(AnimError::IndexError);
        }
        if def.root >= n {
            return Err(AnimError::IndexError);
        }
        let mut c: usize = 0;
        while c < clips.len()
            invariant
                c <= clips.len(),
                forall|c2: int|
                    0 <= c2 < c ==> (#[trigger] clips[c2]).spec_joint_count() == jc,
                jc == skeleton.spec_joint_count(),
            decreases clips.len() - c,
        {
            if clips[c].joint_count() != jc {
                return Err(AnimError::IndexError);
            }
            c = c + 1;
        }
        let mut i: usize = 0;
        while i < n
            invariant
                n == def.nodes@.len(),
                i <= n,
                forall|i2: int|
                    0 <= i2 < i ==> node_def_wf(#[trigger] def.nodes@[i2], i2, clips@.len() as int),
            decreases n - i,
        {
            match &def.nodes[i] {
                NodeDef::ClipNode { clip, start_time } => {
                    if *clip >= clips.len() {
                        return Err(AnimError::IndexError);
                    }
                    if *start_time < -TIME_BOUND || *start_time > TIME_BOUND {
                        return Err(AnimError::IndexError);
                    }
                },
                NodeDef::LerpNode { left, right, param: _ } => {
                    if *left >= i || *right >= i {
                        return Err(AnimError::IndexError);
                    }
                },
            }
            i = i + 1;
        }
        let mut nodes: Vec<Node> = Vec::new();
        let mut k: usize = 0;
        while k < n
            invariant
                n == def.nodes@.len(),
                k <= n,
                nodes@.len() == k,
                params.wf(),
                n > 0,
                def.root < n,
                jc == skeleton.spec_joint_count(),
                clips_match(clips@, jc as int),
                forall|i2: int|
                    0 <= i2 < n ==> node_def_wf(#[trigger] def.nodes@[i2], i2, clips@.len() as int),
                forall|i2: int|
                    0 <= i2 < k ==> node_matches(#[trigger] def.nodes@[i2], nodes@[i2], *params),
                forall|i2: int|
                    0 <= i2 < k ==> node_wf(#[trigger] nodes@[i2], i2, clips@.len() as int),
            decreases n - k,
        {
            match &def.nodes[k] {
                NodeDef::ClipNode { clip, start_time } => {
                    nodes.push(Node::ClipNode { clip: *clip, start_time: *start_time });
                },
                NodeDef::LerpNode { left, right, param } => {
                    let found = params.find(param);
                    match found {
                        Option::Some(p) => {
                            nodes.push(Node::LerpNode { left: *left, right: *right, param: p });
                        },
                        Option::None => {
                            proof {
                                assert(match def.nodes@[k as int] {
                                    NodeDef::LerpNode { left: _, right: _, param: pn } => !params
                                        .spec_has(pn@),
                                    _ => false,
                                });
                                assert(!def_params_ok(*def, *params));
                            }
                            return Err(AnimError::UnknownParameter);
                        },
                    }
                },
            }
            k = k + 1;
        }
        Ok(BlendTree { nodes, root: def.root, clips, joint_count: jc })
    }

    /// Evaluate one node into a fresh per-joint buffer.
    fn eval_node(&self, i: usize, time: i64, params: &ParamSet) -> (r: Vec<T>)
        requires
            self.wf(),
            i < self.nodes.len(),
            params.wf(),
            self.params_ok(params.values@.len() as int),
            -TIME_BOUND <= time <= TIME_BOUND,
        ensures
            r@.len() == self.joint_count,
            forall|j: int|
                0 <= j < self.joint_count ==> r@[j] == self.spec_node_pose(
                    i as int,
                    j,
                    time as int,
                    params.values@,
                ),
            forall|j: int| 0 <= j < self.joint_count ==> (#[trigger] r@[j]).wf(),
        decreases i,
    {
        let jc: usize = self.joint_count;
        match &self.nodes[i] {
            Node::ClipNode { clip, start_time } => {
                let c: &AnimationClip<T> = &self.clips[*clip];
                let qt: i64 = time - *start_time;
                let mut out: Vec<T> = Vec::new();
                let mut j: usize = 0;
                while j < jc
                    invariant
                        j <= jc,
                        out@.len() == j,
                        self.wf(),
                        i < self.nodes.len(),
                        self.nodes[i as int] == (Node::ClipNode {
                            clip: *clip,
                            start_time: *start_time,
                        }),
                        *clip < self.clips.len(),
                        c == &self.clips[*clip as int],
                        jc == self.joint_count,
                        qt == time - *start_time,
                        qt > i64::MIN,
                        forall|j2: int|
                            0 <= j2 < j ==> out@[j2] == self.spec_node_pose(
                                i as int,
                                j2,
                                time as int,
                                params.values@,
                            ),
                        forall|j2: int| 0 <= j2 < j ==> (#[trigger] out@[j2]).wf(),
                    decreases jc - j,
                {
                    let s = c.sample(j, qt);
                    match s {
                        Ok(p) => {
                            out.push(p);
                        },
                        Err(_) => {
                            proof {
                                assert(false);
                            }
                        },
                    }
                    j = j + 1;
                }
                out
            },
            Node::LerpNode { left, right, param } => {
                let pv: i64 = params.values[*param];
                let pc: i64 = clamp_i64(pv, 0, FX_ONE);
                let lbuf = self.eval_node(*left, time, params);
                let rbuf = self.eval_node(*right, time, params);
                let mut out: Vec<T> = Vec::new();
                let mut j: usize = 0;
                while j < jc
                    invariant
                        j <= jc,
                        out@.len() == j,
                        self.wf(),
                        i < self.nodes.len(),
                        self.nodes[i as int] == (Node::LerpNode {
                            left: *left,
                            right: *right,
                            param: *param,
                        }),
                        *left < i,
                        *right < i,
                        *param < params.values@.len(),
                        jc == self.joint_count,
                        0 <= pc <= FX_ONE,
                        pc == spec_clamp(params.values@[*param as int] as int, 0, FX_ONE as int),
                        lbuf@.len() == jc,
                        rbuf@.len() == jc,
                        forall|j2: int|
                            0 <= j2 < jc ==> lbuf@[j2] == self.spec_node_pose(
                                *left as int,
                                j2,
                                time as int,
                                params.values@,
                            ),
                        forall|j2: int|
                            0 <= j2 < jc ==> rbuf@[j2] == self.spec_node_pose(
                                *right as int,
                                j2,
                                time as int,
                                params.values@,
                            ),
                        forall|j2: int| 0 <= j2 < jc ==> (#[trigger] lbuf@[j2]).wf(),
                        forall|j2: int| 0 <= j2 < jc ==> (#[trigger] rbuf@[j2]).wf(),
                        forall|j2: int|
                            0 <= j2 < j ==> out@[j2] == self.spec_node_pose(
                                i as int,
                                j2,
                                time as int,
                                params.values@,
                            ),
                        forall|j2: int| 0 <= j2 < j ==> (#[trigger] out@[j2]).wf(),
                    decreases jc - j,
                {
                    let v = T::interpolate(&lbuf[j], &rbuf[j], pc);
                    out.push(v);
                    j = j + 1;
                }
                out
            },
        }
    }

    /// Evaluate the tree into `out`, one local transform per joint.
    ///
    /// Fails with `UnknownParameter` when the tree reads a parameter index
    /// the set does not hold, and with `IndexError` when `out` does not
    /// have exactly one slot per joint; in both cases `out` is unchanged.
    pub fn get_output_pose(&self, time: i64, params: &ParamSet, out: &mut Vec<T>) -> (r: Result<
        (),
        AnimError,
    >)
        requires
            self.wf(),
            params.wf(),
            -TIME_BOUND <= time <= TIME_BOUND,
        ensures
            match r {
                Ok(()) => {
                    &&& self.params_ok(params.values@.len() as int)
                    &&& old(out)@.len() == self.joint_count
                    &&& final(out)@ == self.spec_output_pose(time as int, params.values@)
                    &&& forall|j: int|
                        0 <= j < self.joint_count ==> (#[trigger] final(out)@[j]).wf()
                },
                Err(e) => {
                    &&& *final(out) == *old(out)
                    &&& if !self.params_ok(params.values@.len() as int) {
                        e == AnimError::UnknownParameter
                    } else {
                        e == AnimError::IndexError && old(out)@.len() != self.joint_count
                    }
                },
            },
    {
        let n: usize = self.nodes.len();
        let mut i: usize = 0;
        while i < n
            invariant
                n == self.nodes@.len(),
                i <= n,
                self.wf(),
                params.wf(),
                forall|i2: int|
                    0 <= i2 < i ==> match #[trigger] self.nodes@[i2] {
                        Node::LerpNode { left: _, right: _, param } => param
                            < params.values@.len(),
                        _ => true,
                    },
            decreases n - i,
        {
            match &self.nodes[i] {
                Node::LerpNode { left: _, right: _, param } => {
                    if *param >= params.values.len() {
                        return Err(AnimError::UnknownParameter);
                    }
                },
                _ => {
                },
            }
            i = i + 1;
        }
        if out.len() != self.joint_count {
            return Err(AnimError::IndexError);
        }
        let result = self.eval_node(self.root, time, params);
        proof {
            assert(result@ =~= self.spec_output_pose(time as int, params.values@));
        }
        *out = result;
        Ok(())
    }
}

/// Evaluating a tree is deterministic: the pose is a function of the tree,
/// the query time and the parameter values alone, so two evaluations with
/// identical inputs agree.
pub proof fn lemma_output_pose_deterministic<T: Transform>(
    tree: BlendTree<T>,
    time: int,
    values: Seq<i64>,
    a: Seq<T>,
    b: Seq<T>,
)
    requires
        a == tree.spec_output_pose(time, values),
        b == tree.spec_output_pose(time, values),
    ensures
        a == b,
{
}

/// The child index of an interpolation node's first input.
pub open spec fn lerp_left(n: Node) -> int {
    match n {
        Node::LerpNode { left, right: _, param: _ } => left as int,
        _ => 0,
    }
}

/// The child index of an interpolation node's second input.
pub open spec fn lerp_right(n: Node) -> int {
    match n {
        Node::LerpNode { left: _, right, param: _ } => right as int,
        _ => 0,
    }
}

/// The parameter index an interpolation node reads.
pub open spec fn lerp_param(n: Node) -> int {
    match n {
        Node::LerpNode { left: _, right: _, param } => param as int,
        _ => 0,
    }
}

/// An interpolation node at the ends of its parameter range returns one
/// child's pose exactly: the first child at fraction zero and below, the
/// second at the full fraction and above.
pub proof fn lemma_lerp_endpoints<T: Transform>(
    tree: BlendTree<T>,
    i: int,
    j: int,
    time: int,
    values: Seq<i64>,
)
    requires
        tree.wf(),
        0 <= i < tree.nodes.len(),
        tree.nodes[i] is LerpNode,
        lerp_param(tree.nodes[i]) < values.len(),
    ensures
        values[lerp_param(tree.nodes[i])] <= 0 ==> tree.spec_node_pose(i, j, time, values)
            == tree.spec_node_pose(lerp_left(tree.nodes[i]), j, time, values),
        values[lerp_param(tree.nodes[i])] >= FX_ONE ==> tree.spec_node_pose(i, j, time, values)
            == tree.spec_node_pose(lerp_right(tree.nodes[i]), j, time, values),
{
    let n = tree.nodes[i];
    let l = lerp_left(n);
    let r = lerp_right(n);
    let p = lerp_param(n);
    if values[p] <= 0 {
        T::lemma_interpolate_zero(
            tree.spec_node_pose(l, j, time, values),
            tree.spec_node_pose(r, j, time, values),
        );
    }
    if values[p] >= FX_ONE {
        T::lemma_interpolate_one(
            tree.spec_node_pose(l, j, time, values),
            tree.spec_node_pose(r, j, time, values),
        );
    }
}

} // verus!
