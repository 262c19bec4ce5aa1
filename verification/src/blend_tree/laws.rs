//! What blending nodes give at the ends of their blend parameter.

use vstd::prelude::*;
use crate::blend_tree::{
    additive_output, identity_poses, ik_output, lerp_output, AnimBlendTree, AnimNodeHandle, IKNode,
};
use crate::name_map::NameMap;
use crate::scalar::{Scalar, SCALE};
use crate::skeleton::Skeleton;
use crate::transform::{identity_is_neutral, lerp_meets_ends, Transform};

verus! {

/// Blending at zero gives the first pose, for transforms whose blend
/// meets its ends.
pub proof fn lemma_lerp_output_at_zero<T: Transform>(first: Seq<T>, second: Seq<T>)
    requires
        first.len() == second.len(),
        lerp_meets_ends::<T>(),
    ensures
        lerp_output(first, second, Scalar { raw: 0 }) == first,
{
    reveal(lerp_meets_ends);
    assert(lerp_output(first, second, Scalar { raw: 0 }) =~= first);
}

/// Blending at one gives the second pose, for transforms whose blend
/// meets its ends.
pub proof fn lemma_lerp_output_at_one<T: Transform>(first: Seq<T>, second: Seq<T>)
    requires
        first.len() == second.len(),
        lerp_meets_ends::<T>(),
    ensures
        lerp_output(first, second, Scalar { raw: SCALE }) == second,
{
    reveal(lerp_meets_ends);
    assert(lerp_output(first, second, Scalar { raw: SCALE }) =~= second);
}

/// Adding at zero gives the base pose, for transforms whose blend meets
/// its ends and whose identity is neutral.
pub proof fn lemma_additive_output_at_zero<T: Transform>(base: Seq<T>, additive: Seq<T>)
    requires
        base.len() == additive.len(),
        lerp_meets_ends::<T>(),
        identity_is_neutral::<T>(),
    ensures
        additive_output(base, additive, Scalar { raw: 0 }) == base,
{
    reveal(lerp_meets_ends);
    reveal(identity_is_neutral);
    assert forall|j: int| 0 <= j < base.len() implies additive_output(
        base,
        additive,
        Scalar { raw: 0 },
    )[j] == base[j] by {
        assert(T::spec_identity().spec_lerp(additive[j], Scalar { raw: 0 }) == T::spec_identity());
    }
    assert(additive_output(base, additive, Scalar { raw: 0 }) =~= base);
}

/// An IK node that blends at zero gives the pose of its input, for
/// transforms whose blend meets its ends.
pub proof fn lemma_ik_output_at_zero<T: Transform>(
    skeleton: Skeleton,
    node: IKNode,
    params: NameMap<Scalar>,
    input: Seq<T>,
)
    requires
        params.value(node.blend_param@)@ == 0,
        lerp_meets_ends::<T>(),
    ensures
        ik_output(skeleton, node, params, input) == input,
{
    reveal(lerp_meets_ends);
    assert(params.value(node.blend_param@) == Scalar { raw: 0 });
    assert(ik_output(skeleton, node, params, input) =~= input);
}

impl<T: Transform> AnimBlendTree<T> {
    /// A lerp node whose blend parameter is zero gives the pose of its
    /// first input, for transforms whose blend meets its ends.
    pub proof fn lemma_lerp_node_at_zero(
        &self,
        index: usize,
        time: Scalar,
        params: NameMap<Scalar>,
        poses: Seq<T>,
    )
        requires
            index < self.lerp_nodes@.len(),
            self.is_input(self.lerp_nodes@[index as int].input_1, self.lerp_nodes@[index as int].height@),
            self.is_input(self.lerp_nodes@[index as int].input_2, self.lerp_nodes@[index as int].height@),
            params.value(self.lerp_nodes@[index as int].blend_param@)@ == 0,
            lerp_meets_ends::<T>(),
        ensures
            self.spec_output_pose(AnimNodeHandle::LerpAnimNodeHandle(index), time, params, poses)
                == self.spec_output_pose(
                self.lerp_nodes@[index as int].input_1,
                time,
                params,
                identity_poses(poses.len()),
            ),
    {
        let node = self.lerp_nodes@[index as int];
        let first = self.spec_output_pose(node.input_1, time, params, identity_poses(poses.len()));
        let second = self.spec_output_pose(node.input_2, time, params, poses);
        self.lemma_output_len(node.input_1, time, params, identity_poses(poses.len()));
        self.lemma_output_len(node.input_2, time, params, poses);
        assert(params.value(node.blend_param@) == Scalar { raw: 0 });
        lemma_lerp_output_at_zero(first, second);
    }

    /// A lerp node whose blend parameter is one gives the pose of its
    /// second input, for transforms whose blend meets its ends.
    pub proof fn lemma_lerp_node_at_one(
        &self,
        index: usize,
        time: Scalar,
        params: NameMap<Scalar>,
        poses: Seq<T>,
    )
        requires
            index < self.lerp_nodes@.len(),
            self.is_input(self.lerp_nodes@[index as int].input_1, self.lerp_nodes@[index as int].height@),
            self.is_input(self.lerp_nodes@[index as int].input_2, self.lerp_nodes@[index as int].height@),
            params.value(self.lerp_nodes@[index as int].blend_param@)@ == SCALE,
            lerp_meets_ends::<T>(),
        ensures
            self.spec_output_pose(AnimNodeHandle::LerpAnimNodeHandle(index), time, params, poses)
                == self.spec_output_pose(self.lerp_nodes@[index as int].input_2, time, params, poses),
    {
        let node = self.lerp_nodes@[index as int];
        let first = self.spec_output_pose(node.input_1, time, params, identity_poses(poses.len()));
        let second = self.spec_output_pose(node.input_2, time, params, poses);
        self.lemma_output_len(node.input_1, time, params, identity_poses(poses.len()));
        self.lemma_output_len(node.input_2, time, params, poses);
        assert(params.value(node.blend_param@) == Scalar { raw: SCALE });
        lemma_lerp_output_at_one(first, second);
    }

    /// An additive node whose blend parameter is zero gives the pose of
    /// its base input, for transforms whose blend meets its ends and whose
    /// identity is neutral.
    pub proof fn lemma_additive_node_at_zero(
        &self,
        index: usize,
        time: Scalar,
        params: NameMap<Scalar>,
        poses: Seq<T>,
    )
        requires
            index < self.additive_nodes@.len(),
            self.is_input(
                self.additive_nodes@[index as int].base_input,
                self.additive_nodes@[index as int].height@,
            ),
            self.is_input(
                self.additive_nodes@[index as int].additive_input,
                self.additive_nodes@[index as int].height@,
            ),
            params.value(self.additive_nodes@[index as int].blend_param@)@ == 0,
            lerp_meets_ends::<T>(),
            identity_is_neutral::<T>(),
        ensures
            self.spec_output_pose(
                AnimNodeHandle::AdditiveAnimNodeHandle(index),
                time,
                params,
                poses,
            ) == self.spec_output_pose(
                self.additive_nodes@[index as int].base_input,
                time,
                params,
                identity_poses(poses.len()),
            ),
    {
        let node = self.additive_nodes@[index as int];
        let base = self.spec_output_pose(
            node.base_input,
            time,
            params,
            identity_poses(poses.len()),
        );
        let additive = self.spec_output_pose(node.additive_input, time, params, poses);
        self.lemma_output_len(node.base_input, time, params, identity_poses(poses.len()));
        self.lemma_output_len(node.additive_input, time, params, poses);
        assert(params.value(node.blend_param@) == Scalar { raw: 0 });
        lemma_additive_output_at_zero(base, additive);
    }

    /// An IK node whose blend parameter is zero gives the pose of its
    /// input, for transforms whose blend meets its ends.
    pub proof fn lemma_ik_node_at_zero(
        &self,
        index: usize,
        time: Scalar,
        params: NameMap<Scalar>,
        poses: Seq<T>,
    )
        requires
            index < self.ik_nodes@.len(),
            self.is_input(self.ik_nodes@[index as int].input, self.ik_nodes@[index as int].height@),
            params.value(self.ik_nodes@[index as int].blend_param@)@ == 0,
            lerp_meets_ends::<T>(),
        ensures
            self.spec_output_pose(AnimNodeHandle::IKAnimNodeHandle(index), time, params, poses)
                == self.spec_output_pose(self.ik_nodes@[index as int].input, time, params, poses),
    {
        let node = self.ik_nodes@[index as int];
        let input = self.spec_output_pose(node.input, time, params, poses);
        lemma_ik_output_at_zero(self.bones(), node, params, input);
    }
}

} // verus!
