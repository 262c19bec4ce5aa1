//! Blend trees: graphs of nodes that combine animation clips into one pose.
//!
//! A tree keeps its nodes in one arena per kind and refers to them by
//! handle. Evaluating a handle fills a buffer of local poses, one per joint.

pub mod construct;
pub mod definition;
pub mod evaluate;
pub mod laws;
pub mod synchronize;

pub use construct::{fresh_clips, fresh_cursor, joint_has_chain};
pub(crate) use construct::share;
pub use definition::{
    clips_wf, find_unknown_param, first_fault, first_unknown_param, node_counts, node_kind, or_else,
    spec_node_kind, unknown, BlendTreeError, BlendTreeNodeDef, BlendTreeNodeKind, ClipId, DefFault,
    NodeCounts, ParamId,
};
pub use evaluate::{new_identity_poses, param_value, AnimNode};
pub use laws::{
    lemma_additive_output_at_zero, lemma_ik_output_at_zero, lemma_lerp_output_at_one,
    lemma_lerp_output_at_zero,
};
pub use synchronize::{blended_duration, synchronized, synchronized_pair, with_rate};

use std::rc::Rc;
use vstd::prelude::*;
use crate::animation::ClipInstance;
use crate::ik::{spec_distance, spec_solve_ik_2d};
use crate::name_map::NameMap;
use crate::scalar::Scalar;
use crate::skeleton::{JointIndex, Skeleton, ROOT_JOINT_PARENT_INDEX};
use crate::transform::{Transform, Vector2, Vector3};

verus! {

/// A typed index into one of the arenas of a tree, or no node at all.
#[derive(Clone, Copy, Debug, PartialEq, Eq, Structural)]
pub enum AnimNodeHandle {
    Null,
    LerpAnimNodeHandle(usize),
    AdditiveAnimNodeHandle(usize),
    ClipAnimNodeHandle(usize),
    IKAnimNodeHandle(usize),
}

/// A node whose pose is the linear blend of the poses of its two inputs.
pub struct LerpAnimNode {
    pub input_1: AnimNodeHandle,
    pub input_2: AnimNodeHandle,
    pub blend_param: ParamId,
    /// An upper bound on the length of the paths below this node.
    pub height: Ghost<nat>,
}

/// A node whose pose is the pose of its base input with the pose of its
/// additive input, blended in from the identity, applied after it.
pub struct AdditiveAnimNode {
    pub base_input: AnimNodeHandle,
    pub additive_input: AnimNodeHandle,
    pub blend_param: ParamId,
    /// An upper bound on the length of the paths below this node.
    pub height: Ghost<nat>,
}

/// A node whose pose comes from a playback cursor over a clip.
pub struct ClipAnimNode<T: Transform> {
    pub clip: ClipInstance<T>,
}

/// A node that bends the two bones above an effector joint so that the
/// joint reaches a target, and blends the result with the pose of its input.
pub struct IKNode {
    pub input: AnimNodeHandle,
    pub blend_param: ParamId,
    pub target_x_param: ParamId,
    pub target_y_param: ParamId,
    pub target_z_param: ParamId,
    pub bend_x_param: ParamId,
    pub bend_y_param: ParamId,
    pub bend_z_param: ParamId,
    pub effector_bone_index: JointIndex,
    /// An upper bound on the length of the paths below this node.
    pub height: Ghost<nat>,
}

/// A tree of animation nodes.
pub struct AnimBlendTree<T: Transform> {
    pub root_node: AnimNodeHandle,
    pub lerp_nodes: Vec<LerpAnimNode>,
    pub additive_nodes: Vec<AdditiveAnimNode>,
    pub ik_nodes: Vec<IKNode>,
    pub clip_nodes: Vec<ClipAnimNode<T>>,
    pub skeleton: Rc<Skeleton>,
}

/// `len` identity poses.
pub open spec fn identity_poses<T: Transform>(len: nat) -> Seq<T> {
    Seq::new(len, |j: int| T::spec_identity())
}

/// The buffer `poses` after a cursor has written the pose of its clip at
/// `time` into its front.
pub open spec fn clip_output<T: Transform>(clip: ClipInstance<T>, time: Scalar, poses: Seq<T>) -> Seq<
    T,
> {
    let local = Scalar { raw: clip.spec_local_time(time) as i64 };
    Seq::new(
        poses.len(),
        |j: int|
            if j < clip.clip.joint_count() {
                clip.clip.spec_pose_at_time(local, j)
            } else {
                poses[j]
            },
    )
}

/// Joint by joint, the blend of `first` and `second` at `parameter`.
pub open spec fn lerp_output<T: Transform>(first: Seq<T>, second: Seq<T>, parameter: Scalar) -> Seq<
    T,
> {
    Seq::new(second.len(), |j: int| first[j].spec_lerp(second[j], parameter))
}

/// Joint by joint, `base` followed by `additive` blended in from the
/// identity at `parameter`.
pub open spec fn additive_output<T: Transform>(
    base: Seq<T>,
    additive: Seq<T>,
    parameter: Scalar,
) -> Seq<T> {
    Seq::new(
        additive.len(),
        |j: int| base[j].spec_concat(T::spec_identity().spec_lerp(additive[j], parameter)),
    )
}

/// Whether the joint at `effector` has a parent and a grandparent in
/// `skeleton`: the two bones that a solver bends.
pub open spec fn has_chain(skeleton: Skeleton, effector: JointIndex) -> bool {
    let middle = skeleton.joints@[effector as int].parent_index;
    &&& effector < skeleton.joints@.len()
    &&& middle != ROOT_JOINT_PARENT_INDEX
    &&& middle < skeleton.joints@.len()
    &&& skeleton.joints@[middle as int].parent_index != ROOT_JOINT_PARENT_INDEX
    &&& skeleton.joints@[middle as int].parent_index < skeleton.joints@.len()
}

/// The value of the three parameters named, as a vector.
pub open spec fn param_vector(params: NameMap<Scalar>, x: ParamId, y: ParamId, z: ParamId) -> Vector3 {
    Vector3 { x: params.value(x@), y: params.value(y@), z: params.value(z@) }
}

/// The direction to bend about that `bend` gives: none where `bend` is
/// zero.
pub open spec fn bend_direction(bend: Vector3) -> Option<Vector3> {
    if bend.x@ == 0 && bend.y@ == 0 && bend.z@ == 0 {
        None
    } else {
        Some(bend)
    }
}

/// The pose `input` after an IK node has bent the chain above its effector
/// toward its target and blended the result with `input`. Where the target
/// is out of reach, `input` itself.
///
/// The chain is solved in its bend plane, where the target lies on the
/// first axis, at its distance from the root of the chain; the lengths of
/// the two bones are the distances between the joints in the pose `input`.
pub open spec fn ik_output<T: Transform>(
    skeleton: Skeleton,
    node: IKNode,
    params: NameMap<Scalar>,
    input: Seq<T>,
) -> Seq<T> {
    let effector = node.effector_bone_index as int;
    let middle = skeleton.joints@[effector].parent_index as int;
    let root = skeleton.joints@[middle].parent_index as int;
    let root_parent = skeleton.joints@[root].parent_index;
    let target = param_vector(params, node.target_x_param, node.target_y_param, node.target_z_param);
    let bend = bend_direction(
        param_vector(params, node.bend_x_param, node.bend_y_param, node.bend_z_param),
    );
    let root_pose = skeleton.spec_global_pose(input, root);
    let middle_pose = skeleton.spec_global_pose(input, middle);
    let effector_pose = skeleton.spec_global_pose(input, effector);
    let root_position = root_pose.spec_get_translation();
    let middle_position = middle_pose.spec_get_translation();
    let effector_position = effector_pose.spec_get_translation();
    match spec_solve_ik_2d(
        Scalar { raw: spec_distance(root_position, middle_position) as i64 },
        Scalar { raw: spec_distance(middle_position, effector_position) as i64 },
        Vector2 {
            x: Scalar { raw: spec_distance(target, root_position) as i64 },
            y: Scalar { raw: 0 },
        },
    ) {
        None => input,
        Some(elbow) => {
            let root_parent_pose = if root_parent == ROOT_JOINT_PARENT_INDEX {
                T::spec_identity()
            } else {
                skeleton.spec_global_pose(input, root_parent as int)
            };
            let bones = T::spec_bend_bones(
                root_parent_pose,
                root_pose,
                middle_pose,
                effector_pose,
                target,
                bend,
                elbow,
            );
            let bent = input.update(root, bones.0).update(middle, bones.1);
            Seq::new(
                input.len(),
                |j: int| input[j].spec_lerp(bent[j], params.value(node.blend_param@)),
            )
        },
    }
}

impl<T: Transform> AnimBlendTree<T> {
    /// The skeleton that the tree poses.
    pub open spec fn bones(&self) -> Skeleton {
        *self.skeleton
    }

    /// Whether `handle` refers to a node of this tree.
    pub open spec fn has_node(&self, handle: AnimNodeHandle) -> bool {
        match handle {
            AnimNodeHandle::Null => false,
            AnimNodeHandle::LerpAnimNodeHandle(i) => i < self.lerp_nodes@.len(),
            AnimNodeHandle::AdditiveAnimNodeHandle(i) => i < self.additive_nodes@.len(),
            AnimNodeHandle::ClipAnimNodeHandle(i) => i < self.clip_nodes@.len(),
            AnimNodeHandle::IKAnimNodeHandle(i) => i < self.ik_nodes@.len(),
        }
    }

    /// An upper bound on the length of the paths below the node at
    /// `handle`.
    pub open spec fn height(&self, handle: AnimNodeHandle) -> nat {
        match handle {
            AnimNodeHandle::Null => 0,
            AnimNodeHandle::LerpAnimNodeHandle(i) => self.lerp_nodes@[i as int].height@,
            AnimNodeHandle::AdditiveAnimNodeHandle(i) => self.additive_nodes@[i as int].height@,
            AnimNodeHandle::ClipAnimNodeHandle(i) => 0,
            AnimNodeHandle::IKAnimNodeHandle(i) => self.ik_nodes@[i as int].height@,
        }
    }

    /// Whether `input` refers to a node of this tree that lies below a node
    /// of height `height`.
    pub open spec fn is_input(&self, input: AnimNodeHandle, height: nat) -> bool {
        self.has_node(input) && self.height(input) < height
    }

    /// The skeleton is in hierarchy order; the root and every input refer
    /// to nodes of this tree, every input to one that lies below; every
    /// clip has samples and poses no more joints than the skeleton has;
    /// every effector has its two bones.
    #[verifier::opaque]
    pub open spec fn wf(&self) -> bool {
        &&& self.skeleton.wf()
        &&& self.root_node is Null || self.has_node(self.root_node)
        &&& forall|i: int|
            0 <= i < self.lerp_nodes@.len() ==> {
                &&& self.is_input(
                    (#[trigger] self.lerp_nodes@[i]).input_1,
                    self.lerp_nodes@[i].height@,
                )
                &&& self.is_input(self.lerp_nodes@[i].input_2, self.lerp_nodes@[i].height@)
            }
        &&& forall|i: int|
            0 <= i < self.additive_nodes@.len() ==> {
                &&& self.is_input(
                    (#[trigger] self.additive_nodes@[i]).base_input,
                    self.additive_nodes@[i].height@,
                )
                &&& self.is_input(
                    self.additive_nodes@[i].additive_input,
                    self.additive_nodes@[i].height@,
                )
            }
        &&& forall|i: int|
            0 <= i < self.ik_nodes@.len() ==> {
                &&& self.is_input((#[trigger] self.ik_nodes@[i]).input, self.ik_nodes@[i].height@)
                &&& has_chain(*self.skeleton, self.ik_nodes@[i].effector_bone_index)
            }
        &&& forall|i: int|
            0 <= i < self.clip_nodes@.len() ==> {
                &&& (#[trigger] self.clip_nodes@[i]).clip.clip.wf()
                &&& self.clip_nodes@[i].clip.clip.joint_count() <= self.skeleton.joints@.len()
            }
    }

    /// The skeleton of a well-formed tree is in hierarchy order.
    pub proof fn lemma_skeleton_wf(&self)
        requires
            self.wf(),
        ensures
            self.skeleton.wf(),
    {
        reveal(AnimBlendTree::<_>::wf);
    }

    /// Whether `params` has a value for every parameter that a node of
    /// this tree names.
    pub open spec fn params_known(&self, params: NameMap<Scalar>) -> bool {
        &&& forall|i: int|
            0 <= i < self.lerp_nodes@.len() ==> params.contains(
                (#[trigger] self.lerp_nodes@[i]).blend_param@,
            )
        &&& forall|i: int|
            0 <= i < self.additive_nodes@.len() ==> params.contains(
                (#[trigger] self.additive_nodes@[i]).blend_param@,
            )
        &&& forall|i: int|
            0 <= i < self.ik_nodes@.len() ==> {
                &&& params.contains((#[trigger] self.ik_nodes@[i]).blend_param@)
                &&& params.contains(self.ik_nodes@[i].target_x_param@)
                &&& params.contains(self.ik_nodes@[i].target_y_param@)
                &&& params.contains(self.ik_nodes@[i].target_z_param@)
                &&& params.contains(self.ik_nodes@[i].bend_x_param@)
                &&& params.contains(self.ik_nodes@[i].bend_y_param@)
                &&& params.contains(self.ik_nodes@[i].bend_z_param@)
            }
    }

    /// The buffer `poses` after the node at `handle` has been evaluated
    /// into it at `time` under `params`.
    ///
    /// A clip node overwrites the front of the buffer with the pose of its
    /// clip. A blending node evaluates its second input into the buffer and
    /// its first input into a buffer of identity poses, and combines the two
    /// joint by joint. No node leaves the buffer as it is.
    pub open spec fn spec_output_pose(
        &self,
        handle: AnimNodeHandle,
        time: Scalar,
        params: NameMap<Scalar>,
        poses: Seq<T>,
    ) -> Seq<T>
        decreases self.height(handle),
    {
        match handle {
            AnimNodeHandle::Null => poses,
            AnimNodeHandle::ClipAnimNodeHandle(i) => clip_output(
                self.clip_nodes@[i as int].clip,
                time,
                poses,
            ),
            AnimNodeHandle::LerpAnimNodeHandle(i) => {
                let node = self.lerp_nodes@[i as int];
                if self.height(node.input_1) < node.height@ && self.height(node.input_2)
                    < node.height@ {
                    lerp_output(
                        self.spec_output_pose(
                            node.input_1,
                            time,
                            params,
                            identity_poses(poses.len()),
                        ),
                        self.spec_output_pose(node.input_2, time, params, poses),
                        params.value(node.blend_param@),
                    )
                } else {
                    poses
                }
            },
            AnimNodeHandle::AdditiveAnimNodeHandle(i) => {
                let node = self.additive_nodes@[i as int];
                if self.height(node.base_input) < node.height@ && self.height(node.additive_input)
                    < node.height@ {
                    additive_output(
                        self.spec_output_pose(
                            node.base_input,
                            time,
                            params,
                            identity_poses(poses.len()),
                        ),
                        self.spec_output_pose(node.additive_input, time, params, poses),
                        params.value(node.blend_param@),
                    )
                } else {
                    poses
                }
            },
            AnimNodeHandle::IKAnimNodeHandle(i) => {
                let node = self.ik_nodes@[i as int];
                if self.height(node.input) < node.height@ {
                    ik_output(
                        *self.skeleton,
                        node,
                        params,
                        self.spec_output_pose(node.input, time, params, poses),
                    )
                } else {
                    poses
                }
            },
        }
    }
}

} // verus!
