//! Synchronization of the clips under a lerp node: both are brought to
//! one duration, so that two loops of different lengths stay in phase.

use vstd::prelude::*;
use crate::blend_tree::evaluate::param_value;
use crate::blend_tree::{AnimBlendTree, AnimNodeHandle, ClipAnimNode, LerpAnimNode};
use crate::name_map::NameMap;
use crate::scalar::{div_raw, mul_raw, saturate, Scalar, SCALE};
use crate::transform::Transform;

verus! {

/// The duration that two clips of durations `length_1` and `length_2`
/// are brought to when they are blended at `blend`: their average, weighted
/// by the blend.
pub open spec fn blended_duration(length_1: int, length_2: int, blend: int) -> int {
    saturate(mul_raw(saturate(SCALE - blend), length_1) + mul_raw(blend, length_2))
}

/// The clip node `node` after its playback rate has changed to `rate` at
/// `time`.
pub open spec fn with_rate<T: Transform>(node: ClipAnimNode<T>, time: Scalar, rate: int) -> ClipAnimNode<
    T,
> {
    ClipAnimNode { clip: node.clip.spec_with_playback_rate(time, Scalar { raw: rate as i64 }) }
}

/// The clip nodes `clips` after the two at `first` and `second` have been
/// brought to one duration for a blend at `blend`: each plays at its own
/// duration over the blended duration.
pub open spec fn synchronized_pair<T: Transform>(
    clips: Seq<ClipAnimNode<T>>,
    first: int,
    second: int,
    blend: Scalar,
    time: Scalar,
) -> Seq<ClipAnimNode<T>> {
    let length_1 = clips[first].clip.clip.spec_duration();
    let length_2 = clips[second].clip.clip.spec_duration();
    let target = blended_duration(length_1, length_2, blend@);
    let halfway = clips.update(first, with_rate(clips[first], time, div_raw(length_1, target)));
    halfway.update(second, with_rate(halfway[second], time, div_raw(length_2, target)))
}

/// The clip nodes `clips` after the first `count` of `lerp_nodes` have
/// synchronized their inputs, in order. A lerp node synchronizes its inputs
/// where both are clip nodes.
pub open spec fn synchronized<T: Transform>(
    clips: Seq<ClipAnimNode<T>>,
    lerp_nodes: Seq<LerpAnimNode>,
    params: NameMap<Scalar>,
    time: Scalar,
    count: nat,
) -> Seq<ClipAnimNode<T>>
    decreases count,
{
    if count == 0 {
        clips
    } else {
        let before = synchronized(clips, lerp_nodes, params, time, (count - 1) as nat);
        let node = lerp_nodes[count - 1];
        match (node.input_1, node.input_2) {
            (
                AnimNodeHandle::ClipAnimNodeHandle(first),
                AnimNodeHandle::ClipAnimNodeHandle(second),
            ) => synchronized_pair(
                before,
                first as int,
                second as int,
                params.value(node.blend_param@),
                time,
            ),
            _ => before,
        }
    }
}

impl<T: Transform> AnimBlendTree<T> {
    /// For each lerp node over two clips, brings the playback rates of the
    /// two in line with the blend parameter, so that both loops take the
    /// same time. Local times at `global_time` stay what they were.
    #[verifier::spinoff_prover]
    pub fn synchronize(&mut self, global_time: Scalar, params: &NameMap<Scalar>)
        requires
            old(self).wf(),
            params.wf(),
            old(self).params_known(*params),
        ensures
            final(self).wf(),
            final(self).params_known(*params),
            final(self).root_node == old(self).root_node,
            final(self).lerp_nodes == old(self).lerp_nodes,
            final(self).additive_nodes == old(self).additive_nodes,
            final(self).ik_nodes == old(self).ik_nodes,
            final(self).skeleton == old(self).skeleton,
            final(self).clip_nodes@ == synchronized(
                old(self).clip_nodes@,
                old(self).lerp_nodes@,
                *params,
                global_time,
                old(self).lerp_nodes@.len(),
            ),
            final(self).clip_nodes@.len() == old(self).clip_nodes@.len(),
            forall|i: int|
                0 <= i < old(self).clip_nodes@.len() ==> (#[trigger] final(self).clip_nodes@[i]).clip.clip
                    == old(self).clip_nodes@[i].clip.clip,
    {
        proof {
            reveal(AnimBlendTree::<_>::wf);
        }
        let mut i: usize = 0;
        while i < self.lerp_nodes.len()
            invariant
                self.wf(),
                params.wf(),
                self.params_known(*params),
                i <= self.lerp_nodes@.len(),
                self.root_node == old(self).root_node,
                self.lerp_nodes == old(self).lerp_nodes,
                self.additive_nodes == old(self).additive_nodes,
                self.ik_nodes == old(self).ik_nodes,
                self.skeleton == old(self).skeleton,
                self.clip_nodes@.len() == old(self).clip_nodes@.len(),
                self.clip_nodes@ == synchronized(
                    old(self).clip_nodes@,
                    old(self).lerp_nodes@,
                    *params,
                    global_time,
                    i as nat,
                ),
                forall|k: int|
                    0 <= k < old(self).clip_nodes@.len() ==> (#[trigger] self.clip_nodes@[k]).clip.clip
                        == old(self).clip_nodes@[k].clip.clip,
            decreases self.lerp_nodes@.len() - i,
        {
            proof {
                reveal(AnimBlendTree::<_>::wf);
            }
            let input_1 = self.lerp_nodes[i].input_1;
            let input_2 = self.lerp_nodes[i].input_2;
            match (input_1, input_2) {
                (
                    AnimNodeHandle::ClipAnimNodeHandle(clip_1),
                    AnimNodeHandle::ClipAnimNodeHandle(clip_2),
                ) => {
                    let blend_parameter = param_value(params, &self.lerp_nodes[i].blend_param);
                    let length_1 = self.clip_nodes[clip_1].clip.get_duration();
                    let length_2 = self.clip_nodes[clip_2].clip.get_duration();
                    let target_length = Scalar::one().sub(blend_parameter).mul(length_1).add(
                        blend_parameter.mul(length_2),
                    );
                    let ghost before = self.clip_nodes@;
                    self.clip_nodes[clip_1].clip.set_playback_rate(
                        global_time,
                        length_1.div(target_length),
                    );
                    let ghost halfway = self.clip_nodes@;
                    assert(halfway =~= before.update(
                        clip_1 as int,
                        with_rate(before[clip_1 as int], global_time, div_raw(length_1@, target_length@)),
                    ));
                    self.clip_nodes[clip_2].clip.set_playback_rate(
                        global_time,
                        length_2.div(target_length),
                    );
                    assert(self.clip_nodes@ =~= synchronized_pair(
                        before,
                        clip_1 as int,
                        clip_2 as int,
                        blend_parameter,
                        global_time,
                    ));
                },
                _ => {},
            }
            i += 1;
        }
    }
}

} // verus!
