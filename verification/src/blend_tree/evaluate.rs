//! Evaluation of the nodes of a blend tree into a buffer of local poses.

use vstd::prelude::*;
use crate::blend_tree::{
    additive_output, clip_output, has_chain, identity_poses, ik_output, lerp_output,
    AdditiveAnimNode, AnimBlendTree, AnimNodeHandle, ClipAnimNode, IKNode, LerpAnimNode,
};
use crate::ik::{distance, solve_ik_2d};
use crate::name_map::NameMap;
use crate::scalar::Scalar;
use crate::skeleton::ROOT_JOINT_PARENT_INDEX;
use crate::transform::{Transform, Vector2, Vector3};

verus! {

/// A buffer of `len` identity poses.
pub fn new_identity_poses<T: Transform>(len: usize) -> (r: Vec<T>)
    ensures
        r@ == identity_poses::<T>(len as nat),
{
    let mut poses: Vec<T> = Vec::new();
    let mut i: usize = 0;
    while i < len
        invariant
            i <= len,
            poses@.len() == i,
            forall|j: int| 0 <= j < i ==> poses@[j] == T::spec_identity(),
        decreases len - i,
    {
        poses.push(T::identity());
        i += 1;
    }
    assert(poses@ =~= identity_poses::<T>(len as nat));
    poses
}

/// The value that `params` has for `name`.
pub fn param_value(params: &NameMap<Scalar>, name: &String) -> (r: Scalar)
    requires
        params.wf(),
        params.contains(name@),
    ensures
        r == params.value(name@),
{
    match params.get(name.as_str()) {
        Some(value) => *value,
        None => Scalar::zero(),
    }
}

impl<T: Transform> AnimBlendTree<T> {
    /// Evaluating a node leaves the length of the buffer as it is.
    pub proof fn lemma_output_len(
        &self,
        handle: AnimNodeHandle,
        time: Scalar,
        params: NameMap<Scalar>,
        poses: Seq<T>,
    )
        ensures
            self.spec_output_pose(handle, time, params, poses).len() == poses.len(),
        decreases self.height(handle),
    {
        match handle {
            AnimNodeHandle::Null => {},
            AnimNodeHandle::ClipAnimNodeHandle(i) => {},
            AnimNodeHandle::LerpAnimNodeHandle(i) => {
                let node = self.lerp_nodes@[i as int];
                if self.height(node.input_1) < node.height@ && self.height(node.input_2)
                    < node.height@ {
                    self.lemma_output_len(node.input_2, time, params, poses);
                }
            },
            AnimNodeHandle::AdditiveAnimNodeHandle(i) => {
                let node = self.additive_nodes@[i as int];
                if self.height(node.base_input) < node.height@ && self.height(node.additive_input)
                    < node.height@ {
                    self.lemma_output_len(node.additive_input, time, params, poses);
                }
            },
            AnimNodeHandle::IKAnimNodeHandle(i) => {
                let node = self.ik_nodes@[i as int];
                if self.height(node.input) < node.height@ {
                    self.lemma_output_len(node.input, time, params, poses);
                }
            },
        }
    }

    /// Writes the pose of the tree at `time` under `params` into
    /// `output_poses`, one local pose per joint.
    pub fn get_output_pose(
        &self,
        time: Scalar,
        params: &NameMap<Scalar>,
        output_poses: &mut Vec<T>,
    )
        requires
            self.wf(),
            params.wf(),
            self.params_known(*params),
            self.skeleton.joints@.len() <= old(output_poses)@.len(),
        ensures
            final(output_poses)@ == self.spec_output_pose(
                self.root_node,
                time,
                *params,
                old(output_poses)@,
            ),
            final(output_poses)@.len() == old(output_poses)@.len(),
    {
        proof {
            reveal(AnimBlendTree::<_>::wf);
        }
        self.get_node_output_pose(self.root_node, time, params, output_poses);
    }

    /// Writes the pose of the node at `handle` at `time` under `params`
    /// into `output_poses`. The null handle leaves the buffer as it is.
    pub fn get_node_output_pose(
        &self,
        handle: AnimNodeHandle,
        time: Scalar,
        params: &NameMap<Scalar>,
        output_poses: &mut Vec<T>,
    )
        requires
            self.wf(),
            params.wf(),
            self.params_known(*params),
            self.skeleton.joints@.len() <= old(output_poses)@.len(),
            handle is Null || self.has_node(handle),
        ensures
            final(output_poses)@ == self.spec_output_pose(
                handle,
                time,
                *params,
                old(output_poses)@,
            ),
            final(output_poses)@.len() == old(output_poses)@.len(),
        decreases self.height(handle), 1nat,
    {
        proof {
            reveal(AnimBlendTree::<_>::wf);
        }
        match handle {
            AnimNodeHandle::Null => {},
            AnimNodeHandle::ClipAnimNodeHandle(i) => {
                self.clip_node_output_pose(&self.clip_nodes[i], time, output_poses);
            },
            AnimNodeHandle::LerpAnimNodeHandle(i) => {
                self.lerp_node_output_pose(&self.lerp_nodes[i], time, params, output_poses);
            },
            AnimNodeHandle::AdditiveAnimNodeHandle(i) => {
                self.additive_node_output_pose(
                    &self.additive_nodes[i],
                    time,
                    params,
                    output_poses,
                );
            },
            AnimNodeHandle::IKAnimNodeHandle(i) => {
                self.ik_node_output_pose(&self.ik_nodes[i], time, params, output_poses);
            },
        }
    }

    /// The buffer `poses` after the lerp node `node` has been evaluated
    /// into it.
    pub open spec fn spec_lerp_node_output(
        &self,
        node: LerpAnimNode,
        time: Scalar,
        params: NameMap<Scalar>,
        poses: Seq<T>,
    ) -> Seq<T> {
        lerp_output(
            self.spec_output_pose(node.input_1, time, params, identity_poses(poses.len())),
            self.spec_output_pose(node.input_2, time, params, poses),
            params.value(node.blend_param@),
        )
    }

    /// The buffer `poses` after the additive node `node` has been
    /// evaluated into it.
    pub open spec fn spec_additive_node_output(
        &self,
        node: AdditiveAnimNode,
        time: Scalar,
        params: NameMap<Scalar>,
        poses: Seq<T>,
    ) -> Seq<T> {
        additive_output(
            self.spec_output_pose(node.base_input, time, params, identity_poses(poses.len())),
            self.spec_output_pose(node.additive_input, time, params, poses),
            params.value(node.blend_param@),
        )
    }

    /// The buffer `poses` after the IK node `node` has been evaluated into
    /// it.
    pub open spec fn spec_ik_node_output(
        &self,
        node: IKNode,
        time: Scalar,
        params: NameMap<Scalar>,
        poses: Seq<T>,
    ) -> Seq<T> {
        ik_output(*self.skeleton, node, params, self.spec_output_pose(node.input, time, params, poses))
    }

    /// Writes the pose of the clip node `node` at `time` into the front of
    /// `output_poses`.
    pub fn clip_node_output_pose(
        &self,
        node: &ClipAnimNode<T>,
        time: Scalar,
        output_poses: &mut Vec<T>,
    )
        requires
            node.clip.clip.wf(),
            node.clip.clip.joint_count() <= old(output_poses)@.len(),
        ensures
            final(output_poses)@ == clip_output(node.clip, time, old(output_poses)@),
            final(output_poses)@.len() == old(output_poses)@.len(),
    {
        node.clip.get_pose_at_time(time, output_poses);
        assert(output_poses@ =~= clip_output(node.clip, time, old(output_poses)@));
    }

    /// Writes the blend of the poses of the two inputs of `node` into
    /// `output_poses`.
    pub fn lerp_node_output_pose(
        &self,
        node: &LerpAnimNode,
        time: Scalar,
        params: &NameMap<Scalar>,
        output_poses: &mut Vec<T>,
    )
        requires
            self.wf(),
            params.wf(),
            self.params_known(*params),
            self.skeleton.joints@.len() <= old(output_poses)@.len(),
            self.is_input(node.input_1, node.height@),
            self.is_input(node.input_2, node.height@),
            params.contains(node.blend_param@),
        ensures
            final(output_poses)@ == self.spec_lerp_node_output(
                *node,
                time,
                *params,
                old(output_poses)@,
            ),
            final(output_poses)@.len() == old(output_poses)@.len(),
        decreases node.height@, 0nat,
    {
        proof {
            reveal(AnimBlendTree::<_>::wf);
        }
        let blend_parameter = param_value(params, &node.blend_param);
        let mut input_poses: Vec<T> = new_identity_poses(output_poses.len());
        self.get_node_output_pose(node.input_1, time, params, &mut input_poses);
        self.get_node_output_pose(node.input_2, time, params, output_poses);
        let ghost second = output_poses@;
        let mut j: usize = 0;
        while j < output_poses.len()
            invariant
                j <= output_poses@.len(),
                output_poses@.len() == second.len(),
                input_poses@.len() == second.len(),
                forall|k: int|
                    0 <= k < j ==> output_poses@[k] == input_poses@[k].spec_lerp(
                        second[k],
                        blend_parameter,
                    ),
                forall|k: int| j <= k < second.len() ==> output_poses@[k] == second[k],
            decreases output_poses@.len() - j,
        {
            let pose_1 = input_poses[j];
            let pose_2 = output_poses[j];
            output_poses[j] = pose_1.lerp(pose_2, blend_parameter);
            j += 1;
        }
        assert(output_poses@ =~= lerp_output(input_poses@, second, blend_parameter));
    }

    /// Writes the pose of the base input of `node`, followed by the pose
    /// of its additive input blended in from the identity, into
    /// `output_poses`.
    pub fn additive_node_output_pose(
        &self,
        node: &AdditiveAnimNode,
        time: Scalar,
        params: &NameMap<Scalar>,
        output_poses: &mut Vec<T>,
    )
        requires
            self.wf(),
            params.wf(),
            self.params_known(*params),
            self.skeleton.joints@.len() <= old(output_poses)@.len(),
            self.is_input(node.base_input, node.height@),
            self.is_input(node.additive_input, node.height@),
            params.contains(node.blend_param@),
        ensures
            final(output_poses)@ == self.spec_additive_node_output(
                *node,
                time,
                *params,
                old(output_poses)@,
            ),
            final(output_poses)@.len() == old(output_poses)@.len(),
        decreases node.height@, 0nat,
    {
        proof {
            reveal(AnimBlendTree::<_>::wf);
        }
        let blend_parameter = param_value(params, &node.blend_param);
        let mut input_poses: Vec<T> = new_identity_poses(output_poses.len());
        self.get_node_output_pose(node.base_input, time, params, &mut input_poses);
        self.get_node_output_pose(node.additive_input, time, params, output_poses);
        let ghost additive = output_poses@;
        let mut j: usize = 0;
        while j < output_poses.len()
            invariant
                j <= output_poses@.len(),
                output_poses@.len() == additive.len(),
                input_poses@.len() == additive.len(),
                forall|k: int|
                    0 <= k < j ==> output_poses@[k] == input_poses@[k].spec_concat(
                        T::spec_identity().spec_lerp(additive[k], blend_parameter),
                    ),
                forall|k: int| j <= k < additive.len() ==> output_poses@[k] == additive[k],
            decreases output_poses@.len() - j,
        {
            let pose_1 = input_poses[j];
            let pose_2 = output_poses[j];
            let additive_pose = T::identity().lerp(pose_2, blend_parameter);
            output_poses[j] = pose_1.concat(additive_pose);
            j += 1;
        }
        assert(output_poses@ =~= additive_output(input_poses@, additive, blend_parameter));
    }

    /// Writes the pose of the input of `node` into `output_poses`, bends
    /// the chain above the node's effector toward the node's target and
    /// blends the result with the pose of the input.
    pub fn ik_node_output_pose(
        &self,
        node: &IKNode,
        time: Scalar,
        params: &NameMap<Scalar>,
        output_poses: &mut Vec<T>,
    )
        requires
            self.wf(),
            params.wf(),
            self.params_known(*params),
            self.skeleton.joints@.len() <= old(output_poses)@.len(),
            self.is_input(node.input, node.height@),
            has_chain(*self.skeleton, node.effector_bone_index),
            params.contains(node.blend_param@),
            params.contains(node.target_x_param@),
            params.contains(node.target_y_param@),
            params.contains(node.target_z_param@),
            params.contains(node.bend_x_param@),
            params.contains(node.bend_y_param@),
            params.contains(node.bend_z_param@),
        ensures
            final(output_poses)@ == self.spec_ik_node_output(
                *node,
                time,
                *params,
                old(output_poses)@,
            ),
            final(output_poses)@.len() == old(output_poses)@.len(),
        decreases node.height@, 0nat,
    {
        proof {
            reveal(AnimBlendTree::<_>::wf);
        }
        self.get_node_output_pose(node.input, time, params, output_poses);
        self.apply_ik(node, params, output_poses);
    }

    /// Bends the chain above the effector of `node` in `output_poses`
    /// toward the node's target and blends the result with the pose that
    /// was there. Where the target is out of reach, the pose stays.
    pub fn apply_ik(&self, node: &IKNode, params: &NameMap<Scalar>, output_poses: &mut Vec<T>)
        requires
            self.skeleton.wf(),
            has_chain(*self.skeleton, node.effector_bone_index),
            self.skeleton.joints@.len() <= old(output_poses)@.len(),
            params.wf(),
            params.contains(node.blend_param@),
            params.contains(node.target_x_param@),
            params.contains(node.target_y_param@),
            params.contains(node.target_z_param@),
            params.contains(node.bend_x_param@),
            params.contains(node.bend_y_param@),
            params.contains(node.bend_z_param@),
        ensures
            final(output_poses)@ == ik_output(*self.skeleton, *node, *params, old(output_poses)@),
            final(output_poses)@.len() == old(output_poses)@.len(),
    {
        let target = Vector3 {
            x: param_value(params, &node.target_x_param),
            y: param_value(params, &node.target_y_param),
            z: param_value(params, &node.target_z_param),
        };
        let bend_params = Vector3 {
            x: param_value(params, &node.bend_x_param),
            y: param_value(params, &node.bend_y_param),
            z: param_value(params, &node.bend_z_param),
        };
        let bend = if bend_params.x.raw == 0 && bend_params.y.raw == 0 && bend_params.z.raw == 0 {
            None
        } else {
            Some(bend_params)
        };
        let effector_bone_index = node.effector_bone_index as usize;
        let middle_bone_index = self.skeleton.joints[effector_bone_index].parent_index as usize;
        let root_bone_index = self.skeleton.joints[middle_bone_index].parent_index as usize;
        let root_bone_parent_index = self.skeleton.joints[root_bone_index].parent_index;
        assert(crate::skeleton::parent_precedes(self.skeleton.joints@, effector_bone_index as int));
        assert(crate::skeleton::parent_precedes(self.skeleton.joints@, middle_bone_index as int));
        assert(crate::skeleton::parent_precedes(self.skeleton.joints@, root_bone_index as int));

        let mut global_poses: Vec<T> = new_identity_poses(self.skeleton.joints.len());
        self.skeleton.calculate_global_poses(output_poses, &mut global_poses);
        let root_pose = global_poses[root_bone_index];
        let middle_pose = global_poses[middle_bone_index];
        let effector_pose = global_poses[effector_bone_index];

        let root_position = root_pose.get_translation();
        let middle_position = middle_pose.get_translation();
        let effector_position = effector_pose.get_translation();
        let length_1 = distance(root_position, middle_position);
        let length_2 = distance(middle_position, effector_position);
        let plane_target = Vector2 { x: distance(target, root_position), y: Scalar::zero() };
        match solve_ik_2d(length_1, length_2, plane_target) {
            None => {},
            Some(elbow) => {
                let root_parent_pose = if root_bone_parent_index == ROOT_JOINT_PARENT_INDEX {
                    T::identity()
                } else {
                    global_poses[root_bone_parent_index as usize]
                };
                let bones = T::bend_bones(
                    root_parent_pose,
                    root_pose,
                    middle_pose,
                    effector_pose,
                    target,
                    bend,
                    elbow,
                );
                let blend_parameter = param_value(params, &node.blend_param);
                let ghost input = output_poses@;
                let ghost bent = input.update(root_bone_index as int, bones.0).update(
                    middle_bone_index as int,
                    bones.1,
                );
                let mut j: usize = 0;
                while j < output_poses.len()
                    invariant
                        j <= output_poses@.len(),
                        output_poses@.len() == input.len(),
                        root_bone_index < middle_bone_index < input.len(),
                        bent == input.update(root_bone_index as int, bones.0).update(
                            middle_bone_index as int,
                            bones.1,
                        ),
                        forall|k: int|
                            0 <= k < j ==> output_poses@[k] == input[k].spec_lerp(
                                bent[k],
                                blend_parameter,
                            ),
                        forall|k: int| j <= k < input.len() ==> output_poses@[k] == input[k],
                    decreases output_poses@.len() - j,
                {
                    let pose = output_poses[j];
                    let ik_pose = if j == middle_bone_index {
                        bones.1
                    } else if j == root_bone_index {
                        bones.0
                    } else {
                        pose
                    };
                    output_poses[j] = pose.lerp(ik_pose, blend_parameter);
                    j += 1;
                }
                assert(output_poses@ =~= ik_output(*self.skeleton, *node, *params, input));
            },
        }
    }
}

/// A node of a blend tree: something that gives a pose when it is
/// evaluated within its tree.
pub trait AnimNode<T: Transform> {
    /// Whether the node can be evaluated within `tree` under `params`: its
    /// inputs are nodes of `tree` below it, and `params` has a value for
    /// every parameter that it names.
    spec fn spec_in_tree(&self, tree: AnimBlendTree<T>, params: NameMap<Scalar>) -> bool;

    /// The buffer `poses` after the node has been evaluated into it.
    spec fn spec_get_output_pose(
        &self,
        tree: AnimBlendTree<T>,
        time: Scalar,
        params: NameMap<Scalar>,
        poses: Seq<T>,
    ) -> Seq<T>;

    /// Writes the pose of the node at `time` under `params` into
    /// `output_poses`.
    fn get_output_pose(
        &self,
        tree: &AnimBlendTree<T>,
        time: Scalar,
        params: &NameMap<Scalar>,
        output_poses: &mut Vec<T>,
    )
        requires
            tree.wf(),
            params.wf(),
            tree.params_known(*params),
            tree.skeleton.joints@.len() <= old(output_poses)@.len(),
            self.spec_in_tree(*tree, *params),
        ensures
            final(output_poses)@ == self.spec_get_output_pose(
                *tree,
                time,
                *params,
                old(output_poses)@,
            ),
    ;
}

impl<T: Transform> AnimNode<T> for LerpAnimNode {
    open spec fn spec_in_tree(&self, tree: AnimBlendTree<T>, params: NameMap<Scalar>) -> bool {
        &&& tree.is_input(self.input_1, self.height@)
        &&& tree.is_input(self.input_2, self.height@)
        &&& params.contains(self.blend_param@)
    }

    open spec fn spec_get_output_pose(
        &self,
        tree: AnimBlendTree<T>,
        time: Scalar,
        params: NameMap<Scalar>,
        poses: Seq<T>,
    ) -> Seq<T> {
        tree.spec_lerp_node_output(*self, time, params, poses)
    }

    fn get_output_pose(
        &self,
        tree: &AnimBlendTree<T>,
        time: Scalar,
        params: &NameMap<Scalar>,
        output_poses: &mut Vec<T>,
    ) {
        tree.lerp_node_output_pose(self, time, params, output_poses);
    }
}

impl<T: Transform> AnimNode<T> for AdditiveAnimNode {
    open spec fn spec_in_tree(&self, tree: AnimBlendTree<T>, params: NameMap<Scalar>) -> bool {
        &&& tree.is_input(self.base_input, self.height@)
        &&& tree.is_input(self.additive_input, self.height@)
        &&& params.contains(self.blend_param@)
    }

    open spec fn spec_get_output_pose(
        &self,
        tree: AnimBlendTree<T>,
        time: Scalar,
        params: NameMap<Scalar>,
        poses: Seq<T>,
    ) -> Seq<T> {
        tree.spec_additive_node_output(*self, time, params, poses)
    }

    fn get_output_pose(
        &self,
        tree: &AnimBlendTree<T>,
        time: Scalar,
        params: &NameMap<Scalar>,
        output_poses: &mut Vec<T>,
    ) {
        tree.additive_node_output_pose(self, time, params, output_poses);
    }
}

impl<T: Transform> AnimNode<T> for ClipAnimNode<T> {
    open spec fn spec_in_tree(&self, tree: AnimBlendTree<T>, params: NameMap<Scalar>) -> bool {
        &&& self.clip.clip.wf()
        &&& self.clip.clip.joint_count() <= tree.skeleton.joints@.len()
    }

    open spec fn spec_get_output_pose(
        &self,
        tree: AnimBlendTree<T>,
        time: Scalar,
        params: NameMap<Scalar>,
        poses: Seq<T>,
    ) -> Seq<T> {
        clip_output(self.clip, time, poses)
    }

    fn get_output_pose(
        &self,
        tree: &AnimBlendTree<T>,
        time: Scalar,
        params: &NameMap<Scalar>,
        output_poses: &mut Vec<T>,
    ) {
        tree.clip_node_output_pose(self, time, output_poses);
    }
}

impl<T: Transform> AnimNode<T> for IKNode {
    open spec fn spec_in_tree(&self, tree: AnimBlendTree<T>, params: NameMap<Scalar>) -> bool {
        &&& tree.is_input(self.input, self.height@)
        &&& has_chain(*tree.skeleton, self.effector_bone_index)
        &&& params.contains(self.blend_param@)
        &&& params.contains(self.target_x_param@)
        &&& params.contains(self.target_y_param@)
        &&& params.contains(self.target_z_param@)
        &&& params.contains(self.bend_x_param@)
        &&& params.contains(self.bend_y_param@)
        &&& params.contains(self.bend_z_param@)
    }

    open spec fn spec_get_output_pose(
        &self,
        tree: AnimBlendTree<T>,
        time: Scalar,
        params: NameMap<Scalar>,
        poses: Seq<T>,
    ) -> Seq<T> {
        tree.spec_ik_node_output(*self, time, params, poses)
    }

    fn get_output_pose(
        &self,
        tree: &AnimBlendTree<T>,
        time: Scalar,
        params: &NameMap<Scalar>,
        output_poses: &mut Vec<T>,
    ) {
        tree.ik_node_output_pose(self, time, params, output_poses);
    }
}

} // verus!
