//! Building a blend tree from its definition.

use std::rc::Rc;
use vstd::prelude::*;
use crate::animation::{AnimationClip, ClipInstance};
use crate::blend_tree::definition::{
    clips_wf, first_fault, first_unknown_param, node_counts, BlendTreeError, BlendTreeNodeDef,
    NodeCounts, ParamId,
};
use crate::blend_tree::{
    has_chain, AdditiveAnimNode, AnimBlendTree, AnimNodeHandle, ClipAnimNode, IKNode, LerpAnimNode,
};
use crate::name_map::NameMap;
use crate::scalar::{Scalar, SCALE};
use crate::skeleton::{JointIndex, Skeleton, ROOT_JOINT_PARENT_INDEX};
use crate::transform::Transform;

verus! {

/// A cursor at the start of `clip`, playing at the rate one.
pub open spec fn fresh_cursor<T: Transform>(clip: Rc<AnimationClip<T>>) -> ClipInstance<T> {
    ClipInstance {
        clip,
        start_time: Scalar { raw: 0 },
        playback_rate: Scalar { raw: SCALE },
        time_offset: Scalar { raw: 0 },
    }
}

/// The clip nodes `clips` with every cursor back at the start of its clip.
pub open spec fn fresh_clips<T: Transform>(clips: Seq<ClipAnimNode<T>>) -> Seq<ClipAnimNode<T>> {
    Seq::new(clips.len(), |i: int| ClipAnimNode { clip: fresh_cursor(clips[i].clip.clip) })
}

/// `Rc::clone`: another pointer to the same value.
#[verifier::external_body]
pub(crate) fn share<V>(value: &Rc<V>) -> (r: Rc<V>)
    ensures
        r == *value,
{
    Rc::clone(value)
}

impl<T: Transform> AnimBlendTree<T> {
    /// How many nodes of each kind the tree holds.
    pub open spec fn arena_sizes(&self) -> NodeCounts {
        NodeCounts {
            lerp: self.lerp_nodes@.len(),
            additive: self.additive_nodes@.len(),
            ik: self.ik_nodes@.len(),
            clip: self.clip_nodes@.len(),
        }
    }

    /// Whether the node at `handle` is what `def` defines, and the nodes
    /// that `def` defines stand in the arenas from `first` on, inputs before
    /// the node that takes them and a first input before a second.
    ///
    /// A node is what its definition defines if it is of the kind and has
    /// the parameters that the definition names, over inputs that are what
    /// the inputs of the definition define; for a clip node, if it is a
    /// cursor over the clip called so among `animations`; for an IK node, if
    /// its effector is the joint called so in the skeleton.
    pub open spec fn describes(
        &self,
        handle: AnimNodeHandle,
        def: BlendTreeNodeDef,
        animations: NameMap<Rc<AnimationClip<T>>>,
        first: NodeCounts,
    ) -> bool
        decreases def,
    {
        match def {
            BlendTreeNodeDef::ClipNode(id) => {
                &&& handle matches AnimNodeHandle::ClipAnimNodeHandle(i)
                &&& i == first.clip
                &&& i < self.clip_nodes@.len()
                &&& self.clip_nodes@[i as int].clip.clip == animations.value(id@)
            },
            BlendTreeNodeDef::LerpNode(input_1, input_2, param) => {
                let second = first.plus(node_counts(*input_1));
                &&& handle matches AnimNodeHandle::LerpAnimNodeHandle(i)
                &&& i == second.plus(node_counts(*input_2)).lerp
                &&& i < self.lerp_nodes@.len()
                &&& self.lerp_nodes@[i as int].blend_param@ == param@
                &&& self.describes(self.lerp_nodes@[i as int].input_1, *input_1, animations, first)
                &&& self.describes(
                    self.lerp_nodes@[i as int].input_2,
                    *input_2,
                    animations,
                    second,
                )
            },
            BlendTreeNodeDef::AdditiveNode(input_1, input_2, param) => {
                let second = first.plus(node_counts(*input_1));
                &&& handle matches AnimNodeHandle::AdditiveAnimNodeHandle(i)
                &&& i == second.plus(node_counts(*input_2)).additive
                &&& i < self.additive_nodes@.len()
                &&& self.additive_nodes@[i as int].blend_param@ == param@
                &&& self.describes(
                    self.additive_nodes@[i as int].base_input,
                    *input_1,
                    animations,
                    first,
                )
                &&& self.describes(
                    self.additive_nodes@[i as int].additive_input,
                    *input_2,
                    animations,
                    second,
                )
            },
            BlendTreeNodeDef::IKNode(
                input,
                effector,
                blend,
                target_x,
                target_y,
                target_z,
                bend_x,
                bend_y,
                bend_z,
            ) => {
                &&& handle matches AnimNodeHandle::IKAnimNodeHandle(i)
                &&& i == first.plus(node_counts(*input)).ik
                &&& i < self.ik_nodes@.len()
                &&& self.ik_nodes@[i as int].blend_param@ == blend@
                &&& self.ik_nodes@[i as int].target_x_param@ == target_x@
                &&& self.ik_nodes@[i as int].target_y_param@ == target_y@
                &&& self.ik_nodes@[i as int].target_z_param@ == target_z@
                &&& self.ik_nodes@[i as int].bend_x_param@ == bend_x@
                &&& self.ik_nodes@[i as int].bend_y_param@ == bend_y@
                &&& self.ik_nodes@[i as int].bend_z_param@ == bend_z@
                &&& self.skeleton.spec_joint_index(effector@) == Some(
                    self.ik_nodes@[i as int].effector_bone_index,
                )
                &&& self.describes(self.ik_nodes@[i as int].input, *input, animations, first)
            },
        }
    }

    /// Whether every cursor of this tree is at the start of its clip and
    /// plays at the rate one.
    pub open spec fn cursors_fresh(&self) -> bool {
        forall|i: int|
            0 <= i < self.clip_nodes@.len() ==> (#[trigger] self.clip_nodes@[i]).clip == fresh_cursor(
                self.clip_nodes@[i].clip.clip,
            )
    }

    /// What a node is stays what it is when cursors move: in a tree with
    /// the same nodes over the same clips.
    pub proof fn lemma_describes_same_clips(
        &self,
        earlier: AnimBlendTree<T>,
        handle: AnimNodeHandle,
        def: BlendTreeNodeDef,
        animations: NameMap<Rc<AnimationClip<T>>>,
        first: NodeCounts,
    )
        requires
            earlier.describes(handle, def, animations, first),
            self.skeleton == earlier.skeleton,
            self.lerp_nodes == earlier.lerp_nodes,
            self.additive_nodes == earlier.additive_nodes,
            self.ik_nodes == earlier.ik_nodes,
            self.clip_nodes@.len() == earlier.clip_nodes@.len(),
            forall|i: int|
                0 <= i < self.clip_nodes@.len() ==> (#[trigger] self.clip_nodes@[i]).clip.clip
                    == earlier.clip_nodes@[i].clip.clip,
        ensures
            self.describes(handle, def, animations, first),
        decreases def,
    {
        match def {
            BlendTreeNodeDef::ClipNode(id) => {},
            BlendTreeNodeDef::LerpNode(input_1, input_2, param) => {
                let node = earlier.lerp_nodes@[handle->LerpAnimNodeHandle_0 as int];
                self.lemma_describes_same_clips(earlier, node.input_1, *input_1, animations, first);
                self.lemma_describes_same_clips(
                    earlier,
                    node.input_2,
                    *input_2,
                    animations,
                    first.plus(node_counts(*input_1)),
                );
            },
            BlendTreeNodeDef::AdditiveNode(input_1, input_2, param) => {
                let node = earlier.additive_nodes@[handle->AdditiveAnimNodeHandle_0 as int];
                self.lemma_describes_same_clips(
                    earlier,
                    node.base_input,
                    *input_1,
                    animations,
                    first,
                );
                self.lemma_describes_same_clips(
                    earlier,
                    node.additive_input,
                    *input_2,
                    animations,
                    first.plus(node_counts(*input_1)),
                );
            },
            BlendTreeNodeDef::IKNode(input, _, _, _, _, _, _, _, _) => {
                let node = earlier.ik_nodes@[handle->IKAnimNodeHandle_0 as int];
                self.lemma_describes_same_clips(earlier, node.input, *input, animations, first);
            },
        }
    }

    /// Whether this tree is `earlier` with nodes added: the same
    /// skeleton, and every node of `earlier` still in its place.
    pub open spec fn extends(&self, earlier: AnimBlendTree<T>) -> bool {
        &&& self.skeleton == earlier.skeleton
        &&& earlier.lerp_nodes@.is_prefix_of(self.lerp_nodes@)
        &&& earlier.additive_nodes@.is_prefix_of(self.additive_nodes@)
        &&& earlier.ik_nodes@.is_prefix_of(self.ik_nodes@)
        &&& earlier.clip_nodes@.is_prefix_of(self.clip_nodes@)
    }

    /// What a node is stays what it is when nodes are added to the tree.
    pub proof fn lemma_describes_extended(
        &self,
        earlier: AnimBlendTree<T>,
        handle: AnimNodeHandle,
        def: BlendTreeNodeDef,
        animations: NameMap<Rc<AnimationClip<T>>>,
        first: NodeCounts,
    )
        requires
            self.extends(earlier),
            earlier.describes(handle, def, animations, first),
        ensures
            self.describes(handle, def, animations, first),
        decreases def,
    {
        match def {
            BlendTreeNodeDef::ClipNode(id) => {},
            BlendTreeNodeDef::LerpNode(input_1, input_2, param) => {
                let i = handle->LerpAnimNodeHandle_0;
                let node = earlier.lerp_nodes@[i as int];
                assert(self.lerp_nodes@[i as int] == node);
                self.lemma_describes_extended(earlier, node.input_1, *input_1, animations, first);
                self.lemma_describes_extended(
                    earlier,
                    node.input_2,
                    *input_2,
                    animations,
                    first.plus(node_counts(*input_1)),
                );
            },
            BlendTreeNodeDef::AdditiveNode(input_1, input_2, param) => {
                let i = handle->AdditiveAnimNodeHandle_0;
                let node = earlier.additive_nodes@[i as int];
                assert(self.additive_nodes@[i as int] == node);
                self.lemma_describes_extended(
                    earlier,
                    node.base_input,
                    *input_1,
                    animations,
                    first,
                );
                self.lemma_describes_extended(
                    earlier,
                    node.additive_input,
                    *input_2,
                    animations,
                    first.plus(node_counts(*input_1)),
                );
            },
            BlendTreeNodeDef::IKNode(input, _, _, _, _, _, _, _, _) => {
                let i = handle->IKAnimNodeHandle_0;
                let node = earlier.ik_nodes@[i as int];
                assert(self.ik_nodes@[i as int] == node);
                self.lemma_describes_extended(earlier, node.input, *input, animations, first);
            },
        }
    }

    /// Builds the tree that `def` defines, over the clips that it names
    /// among `animations`, for `skeleton`.
    pub fn from_def(
        def: BlendTreeNodeDef,
        animations: &NameMap<Rc<AnimationClip<T>>>,
        skeleton: Rc<Skeleton>,
    ) -> (r: Result<AnimBlendTree<T>, BlendTreeError>)
        requires
            skeleton.wf(),
            animations.wf(),
            clips_wf(*animations),
        ensures
            match r {
                Ok(tree) => {
                    &&& first_fault(def, *animations, *skeleton) is None
                    &&& tree.wf()
                    &&& tree.skeleton == skeleton
                    &&& tree.has_node(tree.root_node)
                    &&& tree.arena_sizes() == node_counts(def)
                    &&& tree.describes(tree.root_node, def, *animations, NodeCounts::zero())
                    &&& tree.cursors_fresh()
                    &&& forall|params: NameMap<Scalar>|
                        first_unknown_param(def, params.names()) is None ==> #[trigger] tree.params_known(
                            params,
                        )
                },
                Err(error) => first_fault(def, *animations, *skeleton) == Some(error@),
            },
    {
        proof {
            reveal(AnimBlendTree::<_>::wf);
        }
        let mut tree = AnimBlendTree {
            root_node: AnimNodeHandle::Null,
            lerp_nodes: Vec::new(),
            additive_nodes: Vec::new(),
            ik_nodes: Vec::new(),
            clip_nodes: Vec::new(),
            skeleton,
        };
        match tree.add_node(&def, animations) {
            Ok(handle) => {
                let ghost built = tree;
                tree.root_node = handle;
                proof {
                    tree.lemma_describes_extended(
                        built,
                        handle,
                        def,
                        *animations,
                        NodeCounts::zero(),
                    );
                    assert forall|params: NameMap<Scalar>|
                        first_unknown_param(def, params.names()) is None implies #[trigger] tree.params_known(
                        params,
                    ) by {
                        assert(built.params_known(params));
                    }
                }
                Ok(tree)
            },
            Err(error) => Err(error),
        }
    }

    /// Whether this tree has grown from `earlier` and is otherwise the
    /// same: the nodes of `earlier` are in their places, the root is the
    /// root of `earlier`, and if the cursors of `earlier` had not moved, none
    /// has.
    pub open spec fn grown_from(&self, earlier: AnimBlendTree<T>) -> bool {
        &&& self.extends(earlier)
        &&& self.root_node == earlier.root_node
        &&& earlier.cursors_fresh() ==> self.cursors_fresh()
    }

    /// Adds a lerp node over the two inputs to the tree.
    pub fn push_lerp_node(
        &mut self,
        input_1: AnimNodeHandle,
        input_2: AnimNodeHandle,
        blend_param: ParamId,
    ) -> (r: AnimNodeHandle)
        requires
            old(self).wf(),
            old(self).has_node(input_1),
            old(self).has_node(input_2),
        ensures
            final(self).wf(),
            final(self).grown_from(*old(self)),
            final(self).arena_sizes() == old(self).arena_sizes().plus(
                NodeCounts { lerp: 1, additive: 0, ik: 0, clip: 0 },
            ),
            r matches AnimNodeHandle::LerpAnimNodeHandle(i) && i == old(self).lerp_nodes@.len(),
            final(self).has_node(r),
            final(self).lerp_nodes@.last().input_1 == input_1,
            final(self).lerp_nodes@.last().input_2 == input_2,
            final(self).lerp_nodes@.last().blend_param == blend_param,
            forall|params: NameMap<Scalar>|
                old(self).params_known(params) && params.contains(blend_param@)
                    ==> #[trigger] final(self).params_known(params),
    {
        proof {
            reveal(AnimBlendTree::<_>::wf);
        }
        let ghost height = if self.height(input_1) < self.height(input_2) {
            self.height(input_2) + 1
        } else {
            self.height(input_1) + 1
        };
        self.lerp_nodes.push(
            LerpAnimNode { input_1, input_2, blend_param, height: Ghost(height as nat) },
        );
        proof {
            assert forall|params: NameMap<Scalar>|
                old(self).params_known(params) && params.contains(
                    blend_param@,
                ) implies #[trigger] self.params_known(params) by {
                assert forall|k: int| 0 <= k < self.lerp_nodes@.len() implies params.contains(
                    (#[trigger] self.lerp_nodes@[k]).blend_param@,
                ) by {
                    if k < old(self).lerp_nodes@.len() {
                        assert(self.lerp_nodes@[k] == old(self).lerp_nodes@[k]);
                    }
                }
            }
        }
        AnimNodeHandle::LerpAnimNodeHandle(self.lerp_nodes.len() - 1)
    }

    /// Adds an additive node over the two inputs to the tree.
    pub fn push_additive_node(
        &mut self,
        base_input: AnimNodeHandle,
        additive_input: AnimNodeHandle,
        blend_param: ParamId,
    ) -> (r: AnimNodeHandle)
        requires
            old(self).wf(),
            old(self).has_node(base_input),
            old(self).has_node(additive_input),
        ensures
            final(self).wf(),
            final(self).grown_from(*old(self)),
            final(self).arena_sizes() == old(self).arena_sizes().plus(
                NodeCounts { lerp: 0, additive: 1, ik: 0, clip: 0 },
            ),
            r matches AnimNodeHandle::AdditiveAnimNodeHandle(i) && i == old(self).additive_nodes@.len(),
            final(self).has_node(r),
            final(self).additive_nodes@.last().base_input == base_input,
            final(self).additive_nodes@.last().additive_input == additive_input,
            final(self).additive_nodes@.last().blend_param == blend_param,
            forall|params: NameMap<Scalar>|
                old(self).params_known(params) && params.contains(blend_param@)
                    ==> #[trigger] final(self).params_known(params),
    {
        proof {
            reveal(AnimBlendTree::<_>::wf);
        }
        let ghost height = if self.height(base_input) < self.height(additive_input) {
            self.height(additive_input) + 1
        } else {
            self.height(base_input) + 1
        };
        self.additive_nodes.push(
            AdditiveAnimNode {
                base_input,
                additive_input,
                blend_param,
                height: Ghost(height as nat),
            },
        );
        proof {
            assert forall|params: NameMap<Scalar>|
                old(self).params_known(params) && params.contains(
                    blend_param@,
                ) implies #[trigger] self.params_known(params) by {
                assert forall|k: int| 0 <= k < self.additive_nodes@.len() implies params.contains(
                    (#[trigger] self.additive_nodes@[k]).blend_param@,
                ) by {
                    if k < old(self).additive_nodes@.len() {
                        assert(self.additive_nodes@[k] == old(self).additive_nodes@[k]);
                    }
                }
            }
        }
        AnimNodeHandle::AdditiveAnimNodeHandle(self.additive_nodes.len() - 1)
    }

    /// Adds `node` to the tree; its height is set above its input.
    pub fn push_ik_node(&mut self, node: IKNode) -> (r: AnimNodeHandle)
        requires
            old(self).wf(),
            old(self).has_node(node.input),
            has_chain(*old(self).skeleton, node.effector_bone_index),
        ensures
            final(self).wf(),
            final(self).grown_from(*old(self)),
            final(self).arena_sizes() == old(self).arena_sizes().plus(
                NodeCounts { lerp: 0, additive: 0, ik: 1, clip: 0 },
            ),
            r matches AnimNodeHandle::IKAnimNodeHandle(i) && i == old(self).ik_nodes@.len(),
            final(self).has_node(r),
            final(self).ik_nodes@.last() == (IKNode {
                height: final(self).ik_nodes@.last().height,
                ..node
            }),
            forall|params: NameMap<Scalar>|
                old(self).params_known(params) && params.contains(node.blend_param@)
                    && params.contains(node.target_x_param@) && params.contains(
                    node.target_y_param@,
                ) && params.contains(node.target_z_param@) && params.contains(node.bend_x_param@)
                    && params.contains(node.bend_y_param@) && params.contains(node.bend_z_param@)
                    ==> #[trigger] final(self).params_known(params),
    {
        proof {
            reveal(AnimBlendTree::<_>::wf);
        }
        let ghost height = self.height(node.input) + 1;
        self.ik_nodes.push(IKNode { height: Ghost(height as nat), ..node });
        proof {
            assert forall|params: NameMap<Scalar>|
                old(self).params_known(params) && params.contains(node.blend_param@)
                    && params.contains(node.target_x_param@) && params.contains(
                    node.target_y_param@,
                ) && params.contains(node.target_z_param@) && params.contains(node.bend_x_param@)
                    && params.contains(node.bend_y_param@) && params.contains(
                    node.bend_z_param@,
                ) implies #[trigger] self.params_known(params) by {
                assert forall|k: int| 0 <= k < self.ik_nodes@.len() implies {
                    &&& params.contains((#[trigger] self.ik_nodes@[k]).blend_param@)
                    &&& params.contains(self.ik_nodes@[k].target_x_param@)
                    &&& params.contains(self.ik_nodes@[k].target_y_param@)
                    &&& params.contains(self.ik_nodes@[k].target_z_param@)
                    &&& params.contains(self.ik_nodes@[k].bend_x_param@)
                    &&& params.contains(self.ik_nodes@[k].bend_y_param@)
                    &&& params.contains(self.ik_nodes@[k].bend_z_param@)
                } by {
                    if k < old(self).ik_nodes@.len() {
                        assert(self.ik_nodes@[k] == old(self).ik_nodes@[k]);
                    }
                }
            }
        }
        AnimNodeHandle::IKAnimNodeHandle(self.ik_nodes.len() - 1)
    }

    /// Adds a node that plays `clip` from its start to the tree.
    pub fn push_clip_node(&mut self, clip: Rc<AnimationClip<T>>) -> (r: AnimNodeHandle)
        requires
            old(self).wf(),
            clip.wf(),
            clip.joint_count() <= old(self).skeleton.joints@.len(),
        ensures
            final(self).wf(),
            final(self).grown_from(*old(self)),
            final(self).arena_sizes() == old(self).arena_sizes().plus(
                NodeCounts { lerp: 0, additive: 0, ik: 0, clip: 1 },
            ),
            r matches AnimNodeHandle::ClipAnimNodeHandle(i) && i == old(self).clip_nodes@.len(),
            final(self).has_node(r),
            final(self).clip_nodes@.last().clip == fresh_cursor(clip),
            forall|params: NameMap<Scalar>|
                old(self).params_known(params) ==> #[trigger] final(self).params_known(params),
    {
        proof {
            reveal(AnimBlendTree::<_>::wf);
        }
        self.clip_nodes.push(ClipAnimNode { clip: ClipInstance::new(clip) });
        AnimNodeHandle::ClipAnimNodeHandle(self.clip_nodes.len() - 1)
    }

    /// Adds the nodes that `def` defines to the tree, inputs first, and
    /// returns the handle of the node that `def` itself defines.
    #[verifier::spinoff_prover]
    #[verifier::rlimit(40)]
    pub fn add_node(
        &mut self,
        def: &BlendTreeNodeDef,
        animations: &NameMap<Rc<AnimationClip<T>>>,
    ) -> (r: Result<AnimNodeHandle, BlendTreeError>)
        requires
            old(self).wf(),
            animations.wf(),
            clips_wf(*animations),
        ensures
            final(self).wf(),
            final(self).grown_from(*old(self)),
            forall|params: NameMap<Scalar>|
                old(self).params_known(params) && first_unknown_param(*def, params.names()) is None
                    ==> #[trigger] final(self).params_known(params),
            match r {
                Ok(handle) => {
                    &&& first_fault(*def, *animations, *old(self).skeleton) is None
                    &&& final(self).has_node(handle)
                    &&& final(self).arena_sizes() == old(self).arena_sizes().plus(node_counts(*def))
                    &&& final(self).describes(
                        handle,
                        *def,
                        *animations,
                        old(self).arena_sizes(),
                    )
                },
                Err(error) => first_fault(*def, *animations, *old(self).skeleton) == Some(error@),
            },
        decreases def,
    {
        match def {
            BlendTreeNodeDef::LerpNode(input_1, input_2, param_id) => {
                let input_1_handle = match self.add_node(input_1, animations) {
                    Ok(handle) => handle,
                    Err(error) => {
                        return Err(error);
                    },
                };
                let ghost first = *self;
                let input_2_handle = match self.add_node(input_2, animations) {
                    Ok(handle) => handle,
                    Err(error) => {
                        return Err(error);
                    },
                };
                let ghost second = *self;
                let handle = self.push_lerp_node(input_1_handle, input_2_handle, param_id.clone());
                proof {
                    let start = old(self).arena_sizes();
                    second.lemma_describes_extended(
                        first,
                        input_1_handle,
                        **input_1,
                        *animations,
                        start,
                    );
                    self.lemma_describes_extended(
                        second,
                        input_1_handle,
                        **input_1,
                        *animations,
                        start,
                    );
                    self.lemma_describes_extended(
                        second,
                        input_2_handle,
                        **input_2,
                        *animations,
                        first.arena_sizes(),
                    );
                    assert forall|params: NameMap<Scalar>|
                        old(self).params_known(params) && first_unknown_param(*def, params.names())
                            is None implies #[trigger] self.params_known(params) by {
                        assert(first.params_known(params));
                        assert(second.params_known(params));
                    }
                }
                Ok(handle)
            },
            BlendTreeNodeDef::AdditiveNode(input_1, input_2, param_id) => {
                let input_1_handle = match self.add_node(input_1, animations) {
                    Ok(handle) => handle,
                    Err(error) => {
                        return Err(error);
                    },
                };
                let ghost first = *self;
                let input_2_handle = match self.add_node(input_2, animations) {
                    Ok(handle) => handle,
                    Err(error) => {
                        return Err(error);
                    },
                };
                let ghost second = *self;
                let handle = self.push_additive_node(
                    input_1_handle,
                    input_2_handle,
                    param_id.clone(),
                );
                proof {
                    let start = old(self).arena_sizes();
                    second.lemma_describes_extended(
                        first,
                        input_1_handle,
                        **input_1,
                        *animations,
                        start,
                    );
                    self.lemma_describes_extended(
                        second,
                        input_1_handle,
                        **input_1,
                        *animations,
                        start,
                    );
                    self.lemma_describes_extended(
                        second,
                        input_2_handle,
                        **input_2,
                        *animations,
                        first.arena_sizes(),
                    );
                    assert forall|params: NameMap<Scalar>|
                        old(self).params_known(params) && first_unknown_param(*def, params.names())
                            is None implies #[trigger] self.params_known(params) by {
                        assert(first.params_known(params));
                        assert(second.params_known(params));
                    }
                }
                Ok(handle)
            },
            BlendTreeNodeDef::IKNode(
                input,
                effector_name,
                blend_param,
                target_x_param,
                target_y_param,
                target_z_param,
                bend_x_param,
                bend_y_param,
                bend_z_param,
            ) => {
                let input_handle = match self.add_node(input, animations) {
                    Ok(handle) => handle,
                    Err(error) => {
                        return Err(error);
                    },
                };
                let ghost first = *self;
                proof {
                    self.lemma_skeleton_wf();
                }
                let effector_bone_index = match self.skeleton.get_joint_index(
                    effector_name.as_str(),
                ) {
                    Some(index) => index,
                    None => {
                        return Err(BlendTreeError::UnknownJoint(effector_name.clone()));
                    },
                };
                if !joint_has_chain(&self.skeleton, effector_bone_index) {
                    return Err(BlendTreeError::NoChain(effector_name.clone()));
                }
                let handle = self.push_ik_node(
                    IKNode {
                        input: input_handle,
                        blend_param: blend_param.clone(),
                        target_x_param: target_x_param.clone(),
                        target_y_param: target_y_param.clone(),
                        target_z_param: target_z_param.clone(),
                        bend_x_param: bend_x_param.clone(),
                        bend_y_param: bend_y_param.clone(),
                        bend_z_param: bend_z_param.clone(),
                        effector_bone_index,
                        height: Ghost(0),
                    },
                );
                proof {
                    self.lemma_describes_extended(
                        first,
                        input_handle,
                        **input,
                        *animations,
                        old(self).arena_sizes(),
                    );
                    assert forall|params: NameMap<Scalar>|
                        old(self).params_known(params) && first_unknown_param(*def, params.names())
                            is None implies #[trigger] self.params_known(params) by {
                        assert(first.params_known(params));
                    }
                }
                Ok(handle)
            },
            BlendTreeNodeDef::ClipNode(clip_id) => {
                let clip = match animations.get(clip_id.as_str()) {
                    Some(clip) => clip,
                    None => {
                        return Err(BlendTreeError::MissingClip(clip_id.clone()));
                    },
                };
                assert(clip.wf()) by {
                    let p = animations.position(clip_id@);
                    assert(animations.values@[p].wf());
                }
                if clip.samples[0].local_poses.len() > self.skeleton.joints.len() {
                    return Err(BlendTreeError::ClipTooWide(clip_id.clone()));
                }
                Ok(self.push_clip_node(share(clip)))
            },
        }
    }
}

/// Whether the joint at `effector` has the two bones above it that a
/// solver bends.
pub fn joint_has_chain(skeleton: &Skeleton, effector: JointIndex) -> (r: bool)
    ensures
        r == has_chain(*skeleton, effector),
{
    if effector as usize >= skeleton.joints.len() {
        return false;
    }
    let middle = skeleton.joints[effector as usize].parent_index;
    if middle == ROOT_JOINT_PARENT_INDEX || middle as usize >= skeleton.joints.len() {
        return false;
    }
    let root = skeleton.joints[middle as usize].parent_index;
    root != ROOT_JOINT_PARENT_INDEX && (root as usize) < skeleton.joints.len()
}

} // verus!
