//! Definitions of controllers, what can be at fault in one, and the building
//! of a controller from its definition.

use std::rc::Rc;
use vstd::prelude::*;
use crate::animation::AnimationClip;
use crate::blend_tree::{
    clips_wf, find_unknown_param, first_fault, first_unknown_param, fresh_clips, node_counts,
    share, synchronized, unknown, AnimBlendTree, BlendTreeError, BlendTreeNodeDef, DefFault,
    NodeCounts,
};
use crate::controller::{AnimationController, AnimationState, AnimationTransition};
use crate::name_map::NameMap;
use crate::scalar::{Scalar, SCALE};
use crate::search::{first_some, lemma_first_some, lemma_first_some_none};
use crate::skeleton::Skeleton;
use crate::transform::Transform;

verus! {

/// Definition of a state, from which a controller builds the state.
#[derive(Debug)]
pub struct AnimationStateDef {
    /// The name of the state.
    pub name: String,
    /// The definition of the state's blend tree.
    pub blend_tree: BlendTreeNodeDef,
    /// The transitions from this state to others.
    pub transitions: Vec<AnimationTransition>,
}

/// Definition of a controller.
#[derive(Debug)]
pub struct AnimationControllerDef {
    /// The name of the definition.
    pub name: String,
    /// The parameters that blend trees and conditions may name.
    pub parameters: Vec<String>,
    /// The definitions of the states. Of two states of one name, the
    /// later one counts.
    pub states: Vec<AnimationStateDef>,
    /// The name of the state in which the controller starts.
    pub initial_state: String,
}

/// Why a controller definition cannot be built into a controller.
#[derive(Debug)]
pub enum ControllerError {
    /// The blend tree of a state cannot be built.
    BlendTree(BlendTreeError),
    /// A blend tree or a condition names a parameter that is not declared.
    UnknownParameter(String),
    /// A transition, or the definition as its initial state, names a
    /// state that is not defined.
    UnknownState(String),
}

/// What is at fault in a controller definition.
pub enum ControllerFault {
    BlendTree(DefFault),
    UnknownParameter(Seq<char>),
    UnknownState(Seq<char>),
}

impl View for ControllerError {
    type V = ControllerFault;

    open spec fn view(&self) -> ControllerFault {
        match self {
            ControllerError::BlendTree(error) => ControllerFault::BlendTree(error@),
            ControllerError::UnknownParameter(name) => ControllerFault::UnknownParameter(name@),
            ControllerError::UnknownState(name) => ControllerFault::UnknownState(name@),
        }
    }
}

/// The names among `parameters`.
pub open spec fn declared(parameters: Seq<String>) -> Set<Seq<char>> {
    Set::new(
        |name: Seq<char>|
            exists|i: int| 0 <= i < parameters.len() && (#[trigger] parameters[i])@ == name,
    )
}

/// The definition that counts for the state called `name`: the last of
/// that name among `states`.
pub open spec fn state_def_of(states: Seq<AnimationStateDef>, name: Seq<char>) -> Option<
    AnimationStateDef,
>
    decreases states.len(),
{
    if states.len() == 0 {
        None
    } else if states.last().name@ == name {
        Some(states.last())
    } else {
        state_def_of(states.drop_last(), name)
    }
}

/// The names of the states that `states` defines.
pub open spec fn defined(states: Seq<AnimationStateDef>) -> Set<Seq<char>> {
    Set::new(|name: Seq<char>| state_def_of(states, name) is Some)
}

/// The definition that counts for a state is one of the definitions, and
/// has the state's name.
pub proof fn lemma_state_def_of(states: Seq<AnimationStateDef>, name: Seq<char>)
    requires
        state_def_of(states, name) is Some,
    ensures
        state_def_of(states, name)->0.name@ == name,
        exists|k: int| 0 <= k < states.len() && #[trigger] states[k] == state_def_of(states, name)->0,
    decreases states.len(),
{
    if states.len() > 0 {
        if states.last().name@ == name {
            assert(states[states.len() - 1] == states.last());
        } else {
            let front = states.drop_last();
            lemma_state_def_of(front, name);
            let k = choose|k: int| 0 <= k < front.len() && #[trigger] front[k] == state_def_of(front, name)->0;
            assert(states[k] == front[k]);
        }
    }
}

/// For a transition, the parameter of its condition, unless it is among
/// `known`.
pub open spec fn condition_unknown(known: Set<Seq<char>>) -> spec_fn(AnimationTransition) -> Option<
    Seq<char>,
> {
    |transition: AnimationTransition| unknown(transition.condition.parameter@, known)
}

/// For a transition, its target state, unless it is among `names`.
pub open spec fn target_unknown(names: Set<Seq<char>>) -> spec_fn(AnimationTransition) -> Option<
    Seq<char>,
> {
    |transition: AnimationTransition| unknown(transition.target_state@, names)
}

/// For the definition of a state, the first of its transitions' targets
/// that is not among `names`.
pub open spec fn state_target_unknown(names: Set<Seq<char>>) -> spec_fn(AnimationStateDef) -> Option<
    Seq<char>,
> {
    |state: AnimationStateDef| first_some(state.transitions@, target_unknown(names))
}

/// What is at fault in the definition `state` taken by itself: the first
/// fault of its blend tree; else the first parameter that its blend tree
/// names and that is not among `known`; else the first such parameter of
/// the conditions of its transitions.
pub open spec fn state_fault_of<T: Transform>(
    state: AnimationStateDef,
    known: Set<Seq<char>>,
    animations: NameMap<Rc<AnimationClip<T>>>,
    skeleton: Skeleton,
) -> Option<ControllerFault> {
    match first_fault(state.blend_tree, animations, skeleton) {
        Some(fault) => Some(ControllerFault::BlendTree(fault)),
        None => match first_unknown_param(state.blend_tree, known) {
            Some(name) => Some(ControllerFault::UnknownParameter(name)),
            None => match first_some(state.transitions@, condition_unknown(known)) {
                Some(name) => Some(ControllerFault::UnknownParameter(name)),
                None => None,
            },
        },
    }
}

/// For the definition of a state, what is at fault in it taken by itself.
pub open spec fn state_fault<T: Transform>(
    known: Set<Seq<char>>,
    animations: NameMap<Rc<AnimationClip<T>>>,
    skeleton: Rc<Skeleton>,
) -> spec_fn(AnimationStateDef) -> Option<ControllerFault> {
    |state: AnimationStateDef| state_fault_of(state, known, animations, *skeleton)
}

/// The first fault of the controller definition `def`: of the first state
/// that is at fault taken by itself; else the first target of a transition
/// that is no state, states and transitions in their order; else the initial
/// state if it is no state; none where `def` can be built.
pub open spec fn controller_fault<T: Transform>(
    def: AnimationControllerDef,
    animations: NameMap<Rc<AnimationClip<T>>>,
    skeleton: Rc<Skeleton>,
) -> Option<ControllerFault> {
    let known = declared(def.parameters@);
    let names = defined(def.states@);
    match first_some(def.states@, state_fault(known, animations, skeleton)) {
        Some(fault) => Some(fault),
        None => match first_some(def.states@, state_target_unknown(names)) {
            Some(name) => Some(ControllerFault::UnknownState(name)),
            None => if names.contains(def.initial_state@) {
                None
            } else {
                Some(ControllerFault::UnknownState(def.initial_state@))
            },
        },
    }
}

/// Whether `state` is what `def` defines: it has the transitions of
/// `def`, and its blend tree is what the blend tree definition of `def`
/// defines, with its cursors synchronized for the values of `parameters` at
/// time zero.
pub open spec fn built_from<T: Transform>(
    state: AnimationState<T>,
    def: AnimationStateDef,
    animations: NameMap<Rc<AnimationClip<T>>>,
    parameters: NameMap<Scalar>,
) -> bool {
    let tree = state.blend_tree;
    &&& state.transitions@ == def.transitions@
    &&& tree.has_node(tree.root_node)
    &&& tree.arena_sizes() == node_counts(def.blend_tree)
    &&& tree.describes(tree.root_node, def.blend_tree, animations, NodeCounts::zero())
    &&& tree.clip_nodes@ == synchronized(
        fresh_clips(tree.clip_nodes@),
        tree.lerp_nodes@,
        parameters,
        Scalar { raw: 0 },
        tree.lerp_nodes@.len(),
    )
}

/// A map in which each of `names` has the value zero.
pub fn declare_parameters(names: &Vec<String>) -> (r: NameMap<Scalar>)
    ensures
        r.wf(),
        r.names() == declared(names@),
        forall|name: Seq<char>| #[trigger] r.contains(name) ==> r.value(name)@ == 0,
{
    let mut parameters: NameMap<Scalar> = NameMap::new();
    let mut i: usize = 0;
    while i < names.len()
        invariant
            i <= names@.len(),
            parameters.wf(),
            forall|name: Seq<char>| #[trigger]
                parameters.contains(name) <==> exists|j: int|
                    0 <= j < i && (#[trigger] names@[j])@ == name,
            forall|name: Seq<char>| #[trigger]
                parameters.contains(name) ==> parameters.value(name)@ == 0,
        decreases names@.len() - i,
    {
        let ghost before = parameters;
        parameters.insert(names[i].as_str(), Scalar::zero());
        proof {
            let added = names@[i as int]@;
            assert forall|name: Seq<char>| #[trigger]
                parameters.contains(name) <==> exists|j: int|
                    0 <= j < i + 1 && (#[trigger] names@[j])@ == name by {
                if name != added {
                    assert(parameters.contains(name) == before.contains(name));
                    if before.contains(name) {
                        let j = choose|j: int| 0 <= j < i && (#[trigger] names@[j])@ == name;
                        assert(0 <= j < i + 1 && names@[j]@ == name);
                    }
                } else {
                    assert(names@[i as int]@ == name);
                }
            }
        }
        i += 1;
    }
    assert(parameters.names() =~= declared(names@));
    parameters
}

/// A copy of `transitions`, or the first parameter that one of their
/// conditions names and `parameters` has no value for.
pub fn copy_transitions(
    transitions: &Vec<AnimationTransition>,
    parameters: &NameMap<Scalar>,
) -> (r: Result<Vec<AnimationTransition>, String>)
    requires
        parameters.wf(),
    ensures
        match r {
            Ok(copy) => {
                &&& copy@ == transitions@
                &&& first_some(transitions@, condition_unknown(parameters.names())) is None
                &&& forall|j: int|
                    0 <= j < copy@.len() ==> parameters.contains(
                        (#[trigger] copy@[j]).condition.parameter@,
                    )
            },
            Err(name) => first_some(transitions@, condition_unknown(parameters.names())) == Some(
                name@,
            ),
        },
{
    let ghost find = condition_unknown(parameters.names());
    let mut copy: Vec<AnimationTransition> = Vec::new();
    let mut i: usize = 0;
    while i < transitions.len()
        invariant
            parameters.wf(),
            find == condition_unknown(parameters.names()),
            i <= transitions@.len(),
            copy@.len() == i,
            forall|j: int| 0 <= j < i ==> copy@[j] == transitions@[j],
            forall|j: int| 0 <= j < i ==> find(#[trigger] transitions@[j]) is None,
        decreases transitions@.len() - i,
    {
        if !parameters.contains_key(transitions[i].condition.parameter.as_str()) {
            proof {
                lemma_first_some(transitions@, find, i as int);
            }
            return Err(transitions[i].condition.parameter.clone());
        }
        copy.push(transitions[i].clone());
        i += 1;
    }
    proof {
        lemma_first_some(transitions@, find, i as int);
        assert(copy@ =~= transitions@);
        assert forall|j: int| 0 <= j < copy@.len() implies parameters.contains(
            (#[trigger] copy@[j]).condition.parameter@,
        ) by {
            assert(find(transitions@[j]) is None);
        }
    }
    Ok(copy)
}

/// The first target of `transitions` that is no state of `states`.
pub fn find_unknown_target<T: Transform>(
    transitions: &Vec<AnimationTransition>,
    states: &NameMap<AnimationState<T>>,
) -> (r: Option<String>)
    requires
        states.wf(),
    ensures
        match r {
            Some(name) => first_some(transitions@, target_unknown(states.names())) == Some(name@),
            None => first_some(transitions@, target_unknown(states.names())) is None,
        },
{
    let ghost find = target_unknown(states.names());
    let mut i: usize = 0;
    while i < transitions.len()
        invariant
            states.wf(),
            find == target_unknown(states.names()),
            i <= transitions@.len(),
            forall|j: int| 0 <= j < i ==> find(#[trigger] transitions@[j]) is None,
        decreases transitions@.len() - i,
    {
        if !states.contains_key(transitions[i].target_state.as_str()) {
            proof {
                lemma_first_some(transitions@, find, i as int);
            }
            return Some(transitions[i].target_state.clone());
        }
        i += 1;
    }
    proof {
        lemma_first_some(transitions@, find, i as int);
    }
    None
}

/// Builds the state that `state_def` defines: its blend tree over the
/// clips among `animations`, synchronized for `parameters` at time zero.
pub fn build_state<T: Transform>(
    state_def: &AnimationStateDef,
    parameters: &NameMap<Scalar>,
    animations: &NameMap<Rc<AnimationClip<T>>>,
    skeleton: &Rc<Skeleton>,
) -> (r: Result<AnimationState<T>, ControllerError>)
    requires
        skeleton.wf(),
        parameters.wf(),
        animations.wf(),
        clips_wf(*animations),
    ensures
        match r {
            Ok(state) => {
                &&& state_fault_of(*state_def, parameters.names(), *animations, **skeleton) is None
                &&& state.blend_tree.wf()
                &&& state.blend_tree.skeleton == *skeleton
                &&& state.blend_tree.params_known(*parameters)
                &&& built_from(state, *state_def, *animations, *parameters)
                &&& forall|j: int|
                    0 <= j < state.transitions@.len() ==> parameters.contains(
                        (#[trigger] state.transitions@[j]).condition.parameter@,
                    )
            },
            Err(error) => state_fault_of(*state_def, parameters.names(), *animations, **skeleton)
                == Some(error@),
        },
{
    let mut blend_tree = match AnimBlendTree::from_def(
        state_def.blend_tree.clone(),
        animations,
        share(skeleton),
    ) {
        Ok(tree) => tree,
        Err(error) => {
            return Err(ControllerError::BlendTree(error));
        },
    };
    if let Some(name) = find_unknown_param(&state_def.blend_tree, parameters) {
        return Err(ControllerError::UnknownParameter(name));
    }
    let ghost built = blend_tree;
    assert(built.params_known(*parameters));
    blend_tree.synchronize(Scalar::zero(), parameters);
    proof {
        blend_tree.lemma_describes_same_clips(
            built,
            built.root_node,
            state_def.blend_tree,
            *animations,
            NodeCounts::zero(),
        );
        assert(fresh_clips(blend_tree.clip_nodes@) =~= built.clip_nodes@);
        assert(blend_tree.arena_sizes() == node_counts(state_def.blend_tree));
        assert(blend_tree.params_known(*parameters));
        assert(blend_tree.has_node(blend_tree.root_node));
    }
    let transitions = match copy_transitions(&state_def.transitions, parameters) {
        Ok(copy) => copy,
        Err(name) => {
            return Err(ControllerError::UnknownParameter(name));
        },
    };
    let state = AnimationState { blend_tree, transitions };
    assert(built_from(state, *state_def, *animations, *parameters));
    Ok(state)
}

impl<T: Transform> AnimationController<T> {
    /// Builds the controller that `controller_def` defines, for
    /// `skeleton`, over the clips among `animations`. The controller starts
    /// in the initial state, with its clock and every parameter at zero.
    #[verifier::spinoff_prover]
    pub fn new(
        controller_def: AnimationControllerDef,
        skeleton: Rc<Skeleton>,
        animations: &NameMap<Rc<AnimationClip<T>>>,
    ) -> (r: Result<AnimationController<T>, ControllerError>)
        requires
            skeleton.wf(),
            animations.wf(),
            clips_wf(*animations),
        ensures
            match r {
                Ok(controller) => {
                    &&& controller_fault(controller_def, *animations, skeleton) is None
                    &&& controller.wf()
                    &&& controller.skeleton == skeleton
                    &&& controller.local_clock@ == 0
                    &&& controller.playback_speed@ == SCALE
                    &&& controller.transition is None
                    &&& controller.current_state@ == controller_def.initial_state@
                    &&& controller.parameters.names() == declared(controller_def.parameters@)
                    &&& forall|name: Seq<char>| #[trigger]
                        controller.parameters.contains(name) ==> controller.parameters.value(
                            name,
                        )@ == 0
                    &&& controller.states.names() == defined(controller_def.states@)
                    &&& forall|name: Seq<char>| #[trigger]
                        controller.states.contains(name) ==> built_from(
                            controller.states.value(name),
                            state_def_of(controller_def.states@, name)->0,
                            *animations,
                            controller.parameters,
                        )
                },
                Err(error) => controller_fault(controller_def, *animations, skeleton) == Some(
                    error@,
                ),
            },
    {
        let parameters = declare_parameters(&controller_def.parameters);
        let ghost defs = controller_def.states@;
        let ghost find = state_fault(parameters.names(), *animations, skeleton);
        let mut states: NameMap<AnimationState<T>> = NameMap::new();
        let mut i: usize = 0;
        while i < controller_def.states.len()
            invariant
                skeleton.wf(),
                animations.wf(),
                clips_wf(*animations),
                parameters.wf(),
                defs == controller_def.states@,
                parameters.names() == declared(controller_def.parameters@),
                find == state_fault(parameters.names(), *animations, skeleton),
                i <= defs.len(),
                states.wf(),
                forall|j: int| 0 <= j < i ==> find(#[trigger] defs[j]) is None,
                forall|name: Seq<char>| #[trigger]
                    states.contains(name) <==> state_def_of(defs.take(i as int), name) is Some,
                forall|name: Seq<char>| #[trigger]
                    states.contains(name) ==> {
                        let state = states.value(name);
                        &&& state.blend_tree.wf()
                        &&& state.blend_tree.skeleton == skeleton
                        &&& state.blend_tree.params_known(parameters)
                        &&& built_from(
                            state,
                            state_def_of(defs.take(i as int), name)->0,
                            *animations,
                            parameters,
                        )
                        &&& forall|j: int|
                            0 <= j < state.transitions@.len() ==> parameters.contains(
                                (#[trigger] state.transitions@[j]).condition.parameter@,
                            )
                    },
            decreases defs.len() - i,
        {
            let state_def = &controller_def.states[i];
            let state = match build_state(state_def, &parameters, animations, &skeleton) {
                Ok(state) => state,
                Err(error) => {
                    proof {
                        assert(find(defs[i as int]) == Some(error@));
                        lemma_first_some(defs, find, i as int);
                    }
                    return Err(error);
                },
            };
            let ghost before = states;
            states.insert(state_def.name.as_str(), state);
            proof {
                let longer = defs.take(i + 1);
                assert(longer.drop_last() =~= defs.take(i as int));
                assert(longer.last() == defs[i as int]);
                assert forall|name: Seq<char>| #[trigger]
                    states.contains(name) <==> state_def_of(longer, name) is Some by {
                    if name != state_def.name@ {
                        assert(states.contains(name) == before.contains(name));
                    }
                }
                assert forall|name: Seq<char>| #[trigger] states.contains(name) implies {
                    let state = states.value(name);
                    &&& state.blend_tree.wf()
                    &&& state.blend_tree.skeleton == skeleton
                    &&& state.blend_tree.params_known(parameters)
                    &&& built_from(state, state_def_of(longer, name)->0, *animations, parameters)
                    &&& forall|j: int|
                        0 <= j < state.transitions@.len() ==> parameters.contains(
                            (#[trigger] state.transitions@[j]).condition.parameter@,
                        )
                } by {
                    if name != state_def.name@ {
                        assert(before.contains(name));
                        assert(states.value(name) == before.value(name));
                    }
                }
            }
            i += 1;
        }
        proof {
            assert(defs.take(i as int) =~= defs);
            lemma_first_some(defs, find, i as int);
            assert(states.names() =~= defined(defs));
        }
        let ghost find_target = state_target_unknown(states.names());
        let mut k: usize = 0;
        while k < controller_def.states.len()
            invariant
                states.wf(),
                defs == controller_def.states@,
                parameters.names() == declared(controller_def.parameters@),
                find == state_fault(parameters.names(), *animations, skeleton),
                first_some(defs, find) is None,
                states.names() == defined(defs),
                find_target == state_target_unknown(states.names()),
                k <= defs.len(),
                forall|j: int| 0 <= j < k ==> find_target(#[trigger] defs[j]) is None,
            decreases defs.len() - k,
        {
            if let Some(name) = find_unknown_target(&controller_def.states[k].transitions, &states) {
                proof {
                    assert(find_target(defs[k as int]) == Some(name@));
                    lemma_first_some(defs, find_target, k as int);
                }
                return Err(ControllerError::UnknownState(name));
            }
            k += 1;
        }
        proof {
            lemma_first_some(defs, find_target, k as int);
        }
        if !states.contains_key(controller_def.initial_state.as_str()) {
            return Err(ControllerError::UnknownState(controller_def.initial_state.clone()));
        }
        let controller = AnimationController {
            parameters,
            skeleton,
            local_clock: Scalar::zero(),
            playback_speed: Scalar::one(),
            states,
            current_state: controller_def.initial_state.clone(),
            transition: None,
        };
        proof {
            assert forall|name: Seq<char>| #[trigger]
                controller.states.contains(name) implies controller.state_wf(
                controller.states.value(name),
            ) by {
                let state = controller.states.value(name);
                lemma_state_def_of(defs, name);
                let def = state_def_of(defs, name)->0;
                let at = choose|at: int| 0 <= at < defs.len() && #[trigger] defs[at] == def;
                assert(find_target(defs[at]) is None);
                lemma_first_some_none(def.transitions@, target_unknown(states.names()));
                assert forall|j: int| 0 <= j < state.transitions@.len() implies states.contains(
                    (#[trigger] state.transitions@[j]).target_state@,
                ) by {
                    assert(state.transitions@[j] == def.transitions@[j]);
                    assert(target_unknown(states.names())(def.transitions@[j]) is None);
                }
            }
        }
        Ok(controller)
    }
}

} // verus!
