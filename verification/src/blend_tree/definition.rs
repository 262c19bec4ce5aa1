//! Definitions of blend trees, and what can be at fault in one.

use std::rc::Rc;
use vstd::prelude::*;
use crate::animation::AnimationClip;
use crate::blend_tree::has_chain;
use crate::name_map::NameMap;
use crate::scalar::Scalar;
use crate::skeleton::Skeleton;
use crate::transform::Transform;

verus! {

/// Identifier of an animation clip within a blend tree definition.
pub type ClipId = String;

/// Identifier of a controller parameter.
pub type ParamId = String;

/// Definition of a blend tree, from which a tree is built.
#[derive(Debug)]
pub enum BlendTreeNodeDef {
    /// Two inputs and the blend parameter.
    LerpNode(Box<BlendTreeNodeDef>, Box<BlendTreeNodeDef>, ParamId),
    /// The base input, the additive input and the blend parameter.
    AdditiveNode(Box<BlendTreeNodeDef>, Box<BlendTreeNodeDef>, ParamId),
    /// The input, the name of the effector joint, the blend parameter, the
    /// three parameters of the target position and the three of the bend
    /// direction.
    IKNode(
        Box<BlendTreeNodeDef>,
        String,
        ParamId,
        ParamId,
        ParamId,
        ParamId,
        ParamId,
        ParamId,
        ParamId,
    ),
    /// The clip to play.
    ClipNode(ClipId),
}

/// The kinds of node that a blend tree definition has.
#[derive(Clone, Copy, Debug, PartialEq, Eq, Structural)]
pub enum BlendTreeNodeKind {
    Lerp,
    Additive,
    IK,
    Clip,
}

/// The kind of node that a definition of the type `node_type` defines.
pub open spec fn spec_node_kind(node_type: Seq<char>) -> Option<BlendTreeNodeKind> {
    if node_type == "LerpNode"@ {
        Some(BlendTreeNodeKind::Lerp)
    } else if node_type == "AdditiveNode"@ {
        Some(BlendTreeNodeKind::Additive)
    } else if node_type == "IKNode"@ {
        Some(BlendTreeNodeKind::IK)
    } else if node_type == "ClipNode"@ {
        Some(BlendTreeNodeKind::Clip)
    } else {
        None
    }
}

/// The kind of node that a definition of the type `node_type` defines;
/// none for a type that is not known.
pub fn node_kind(node_type: &str) -> (r: Option<BlendTreeNodeKind>)
    ensures
        r == spec_node_kind(node_type@),
{
    let node_type: String = node_type.to_owned();
    if node_type == "LerpNode".to_owned() {
        Some(BlendTreeNodeKind::Lerp)
    } else if node_type == "AdditiveNode".to_owned() {
        Some(BlendTreeNodeKind::Additive)
    } else if node_type == "IKNode".to_owned() {
        Some(BlendTreeNodeKind::IK)
    } else if node_type == "ClipNode".to_owned() {
        Some(BlendTreeNodeKind::Clip)
    } else {
        None
    }
}

impl Clone for BlendTreeNodeDef {
    fn clone(&self) -> (r: Self)
        ensures
            r == *self,
        decreases self,
    {
        match self {
            BlendTreeNodeDef::LerpNode(input_1, input_2, param) => BlendTreeNodeDef::LerpNode(
                Box::new((**input_1).clone()),
                Box::new((**input_2).clone()),
                param.clone(),
            ),
            BlendTreeNodeDef::AdditiveNode(
                input_1,
                input_2,
                param,
            ) => BlendTreeNodeDef::AdditiveNode(
                Box::new((**input_1).clone()),
                Box::new((**input_2).clone()),
                param.clone(),
            ),
            BlendTreeNodeDef::IKNode(
                input,
                effector,
                blend,
                target_x,
                target_y,
                target_z,
                bend_x,
                bend_y,
                bend_z,
            ) => BlendTreeNodeDef::IKNode(
                Box::new((**input).clone()),
                effector.clone(),
                blend.clone(),
                target_x.clone(),
                target_y.clone(),
                target_z.clone(),
                bend_x.clone(),
                bend_y.clone(),
                bend_z.clone(),
            ),
            BlendTreeNodeDef::ClipNode(id) => BlendTreeNodeDef::ClipNode(id.clone()),
        }
    }
}

/// Why a blend tree definition cannot be built into a tree.
#[derive(Debug)]
pub enum BlendTreeError {
    /// The definition names a clip that is not among the clips given.
    MissingClip(ClipId),
    /// The definition plays a clip that poses more joints than the
    /// skeleton has.
    ClipTooWide(ClipId),
    /// The definition names an effector joint that the skeleton lacks.
    UnknownJoint(String),
    /// The effector joint named has no two bones above it.
    NoChain(String),
}

/// What is at fault in a blend tree definition.
pub enum DefFault {
    MissingClip(Seq<char>),
    ClipTooWide(Seq<char>),
    UnknownJoint(Seq<char>),
    NoChain(Seq<char>),
}

impl View for BlendTreeError {
    type V = DefFault;

    open spec fn view(&self) -> DefFault {
        match self {
            BlendTreeError::MissingClip(id) => DefFault::MissingClip(id@),
            BlendTreeError::ClipTooWide(id) => DefFault::ClipTooWide(id@),
            BlendTreeError::UnknownJoint(name) => DefFault::UnknownJoint(name@),
            BlendTreeError::NoChain(name) => DefFault::NoChain(name@),
        }
    }
}

/// The first fault of `def`, inputs before the node that takes them and a
/// first input before a second; none where `def` can be built.
pub open spec fn first_fault<T: Transform>(
    def: BlendTreeNodeDef,
    animations: NameMap<Rc<AnimationClip<T>>>,
    skeleton: Skeleton,
) -> Option<DefFault>
    decreases def,
{
    match def {
        BlendTreeNodeDef::ClipNode(id) => {
            if !animations.contains(id@) {
                Some(DefFault::MissingClip(id@))
            } else if animations.value(id@).joint_count() > skeleton.joints@.len() {
                Some(DefFault::ClipTooWide(id@))
            } else {
                None
            }
        },
        BlendTreeNodeDef::LerpNode(input_1, input_2, _) => {
            match first_fault(*input_1, animations, skeleton) {
                Some(fault) => Some(fault),
                None => first_fault(*input_2, animations, skeleton),
            }
        },
        BlendTreeNodeDef::AdditiveNode(input_1, input_2, _) => {
            match first_fault(*input_1, animations, skeleton) {
                Some(fault) => Some(fault),
                None => first_fault(*input_2, animations, skeleton),
            }
        },
        BlendTreeNodeDef::IKNode(input, effector, _, _, _, _, _, _, _) => {
            match first_fault(*input, animations, skeleton) {
                Some(fault) => Some(fault),
                None => match skeleton.spec_joint_index(effector@) {
                    None => Some(DefFault::UnknownJoint(effector@)),
                    Some(index) => if has_chain(skeleton, index) {
                        None
                    } else {
                        Some(DefFault::NoChain(effector@))
                    },
                },
            }
        },
    }
}

/// `name`, unless it is among `known`.
pub open spec fn unknown(name: Seq<char>, known: Set<Seq<char>>) -> Option<Seq<char>> {
    if known.contains(name) {
        None
    } else {
        Some(name)
    }
}

/// The first of `first` and `second` that is some name.
pub open spec fn or_else(first: Option<Seq<char>>, second: Option<Seq<char>>) -> Option<Seq<char>> {
    if first is Some {
        first
    } else {
        second
    }
}

/// The first parameter that `def` names and that is not among `known`:
/// those of inputs before those of the node that takes them, a first input
/// before a second, and a node's own in the order blend, target, bend.
pub open spec fn first_unknown_param(def: BlendTreeNodeDef, known: Set<Seq<char>>) -> Option<
    Seq<char>,
>
    decreases def,
{
    match def {
        BlendTreeNodeDef::ClipNode(_) => None,
        BlendTreeNodeDef::LerpNode(input_1, input_2, param) => or_else(
            first_unknown_param(*input_1, known),
            or_else(first_unknown_param(*input_2, known), unknown(param@, known)),
        ),
        BlendTreeNodeDef::AdditiveNode(input_1, input_2, param) => or_else(
            first_unknown_param(*input_1, known),
            or_else(first_unknown_param(*input_2, known), unknown(param@, known)),
        ),
        BlendTreeNodeDef::IKNode(
            input,
            _,
            blend,
            target_x,
            target_y,
            target_z,
            bend_x,
            bend_y,
            bend_z,
        ) => or_else(
            first_unknown_param(*input, known),
            or_else(
                unknown(blend@, known),
                or_else(
                    unknown(target_x@, known),
                    or_else(
                        unknown(target_y@, known),
                        or_else(
                            unknown(target_z@, known),
                            or_else(
                                unknown(bend_x@, known),
                                or_else(unknown(bend_y@, known), unknown(bend_z@, known)),
                            ),
                        ),
                    ),
                ),
            ),
        ),
    }
}

/// `name`, if `params` has no value for it.
fn check_known(name: &String, params: &NameMap<Scalar>) -> (r: Option<String>)
    requires
        params.wf(),
    ensures
        r is Some == unknown(name@, params.names()) is Some,
        r matches Some(found) ==> unknown(name@, params.names()) == Some(found@),
{
    if params.contains_key(name.as_str()) {
        None
    } else {
        Some(name.clone())
    }
}

/// The first parameter that `def` names and `params` has no value for.
pub fn find_unknown_param(def: &BlendTreeNodeDef, params: &NameMap<Scalar>) -> (r: Option<String>)
    requires
        params.wf(),
    ensures
        r is Some == first_unknown_param(*def, params.names()) is Some,
        r matches Some(found) ==> first_unknown_param(*def, params.names()) == Some(found@),
    decreases def,
{
    match def {
        BlendTreeNodeDef::ClipNode(_) => None,
        BlendTreeNodeDef::LerpNode(input_1, input_2, param) => {
            if let Some(found) = find_unknown_param(input_1, params) {
                return Some(found);
            }
            if let Some(found) = find_unknown_param(input_2, params) {
                return Some(found);
            }
            check_known(param, params)
        },
        BlendTreeNodeDef::AdditiveNode(input_1, input_2, param) => {
            if let Some(found) = find_unknown_param(input_1, params) {
                return Some(found);
            }
            if let Some(found) = find_unknown_param(input_2, params) {
                return Some(found);
            }
            check_known(param, params)
        },
        BlendTreeNodeDef::IKNode(
            input,
            _,
            blend,
            target_x,
            target_y,
            target_z,
            bend_x,
            bend_y,
            bend_z,
        ) => {
            if let Some(found) = find_unknown_param(input, params) {
                return Some(found);
            }
            if let Some(found) = check_known(blend, params) {
                return Some(found);
            }
            if let Some(found) = check_known(target_x, params) {
                return Some(found);
            }
            if let Some(found) = check_known(target_y, params) {
                return Some(found);
            }
            if let Some(found) = check_known(target_z, params) {
                return Some(found);
            }
            if let Some(found) = check_known(bend_x, params) {
                return Some(found);
            }
            if let Some(found) = check_known(bend_y, params) {
                return Some(found);
            }
            check_known(bend_z, params)
        },
    }
}

/// Whether every clip among `animations` has samples.
pub open spec fn clips_wf<T: Transform>(animations: NameMap<Rc<AnimationClip<T>>>) -> bool {
    forall|i: int| 0 <= i < animations.values@.len() ==> (#[trigger] animations.values@[i]).wf()
}

/// A number of nodes of each kind; also, a place in each of the arenas of
/// a tree.
pub struct NodeCounts {
    pub lerp: nat,
    pub additive: nat,
    pub ik: nat,
    pub clip: nat,
}

impl NodeCounts {
    /// No nodes; the start of every arena.
    pub open spec fn zero() -> NodeCounts {
        NodeCounts { lerp: 0, additive: 0, ik: 0, clip: 0 }
    }

    /// Kind by kind, the sum of the two.
    pub open spec fn plus(self, other: NodeCounts) -> NodeCounts {
        NodeCounts {
            lerp: self.lerp + other.lerp,
            additive: self.additive + other.additive,
            ik: self.ik + other.ik,
            clip: self.clip + other.clip,
        }
    }
}

/// How many nodes of each kind `def` defines.
pub open spec fn node_counts(def: BlendTreeNodeDef) -> NodeCounts
    decreases def,
{
    match def {
        BlendTreeNodeDef::ClipNode(_) => NodeCounts { lerp: 0, additive: 0, ik: 0, clip: 1 },
        BlendTreeNodeDef::LerpNode(input_1, input_2, _) => node_counts(*input_1).plus(
            node_counts(*input_2),
        ).plus(NodeCounts { lerp: 1, additive: 0, ik: 0, clip: 0 }),
        BlendTreeNodeDef::AdditiveNode(input_1, input_2, _) => node_counts(*input_1).plus(
            node_counts(*input_2),
        ).plus(NodeCounts { lerp: 0, additive: 1, ik: 0, clip: 0 }),
        BlendTreeNodeDef::IKNode(input, _, _, _, _, _, _, _, _) => node_counts(*input).plus(
            NodeCounts { lerp: 0, additive: 0, ik: 1, clip: 0 },
        ),
    }
}

} // verus!
