//! The animation state machine: states that each own a blend tree, and
//! timed cross-fades between them that conditions on parameters start.

pub mod definition;

pub use definition::{
    build_state, built_from, condition_unknown, controller_fault, copy_transitions,
    declare_parameters, declared, defined, find_unknown_target, lemma_state_def_of, state_def_of,
    state_fault, state_fault_of, state_target_unknown, target_unknown, AnimationControllerDef,
    AnimationStateDef, ControllerError, ControllerFault,
};

use std::rc::Rc;
use vstd::prelude::*;
use crate::blend_tree::{
    identity_poses, lerp_output, new_identity_poses, param_value, synchronized, AnimBlendTree,
};
use crate::name_map::NameMap;
use crate::scalar::{clamp_unit_raw, div_raw, mul_raw, saturate, Scalar, SCALE};
use crate::skeleton::Skeleton;
use crate::transform::{FromTransform, Transform};

verus! {

/// The comparison that a transition condition makes.
#[derive(Clone, Copy, Debug, PartialEq, Eq, Structural)]
pub enum Operator {
    LessThan,
    LessThanEqual,
    GreaterThan,
    GreaterThanEqual,
    Equal,
    NotEqual,
}

impl Operator {
    /// Whether `left` stands in this relation to `right`.
    pub open spec fn spec_holds(self, left: int, right: int) -> bool {
        match self {
            Operator::LessThan => left < right,
            Operator::LessThanEqual => left <= right,
            Operator::GreaterThan => left > right,
            Operator::GreaterThanEqual => left >= right,
            Operator::Equal => left == right,
            Operator::NotEqual => left != right,
        }
    }

    /// The operator that `symbol` denotes: one of `<`, `>`, `<=`, `>=`,
    /// `=` and `!=`. Any other symbol is read as `=`.
    pub open spec fn spec_decode(symbol: Seq<char>) -> Operator {
        if symbol == "<"@ {
            Operator::LessThan
        } else if symbol == ">"@ {
            Operator::GreaterThan
        } else if symbol == "<="@ {
            Operator::LessThanEqual
        } else if symbol == ">="@ {
            Operator::GreaterThanEqual
        } else if symbol == "="@ {
            Operator::Equal
        } else if symbol == "!="@ {
            Operator::NotEqual
        } else {
            Operator::Equal
        }
    }

    /// The operator that `symbol` denotes.
    pub fn decode(symbol: &str) -> (r: Operator)
        ensures
            r == Self::spec_decode(symbol@),
    {
        let symbol: String = symbol.to_owned();
        if symbol == "<".to_owned() {
            Operator::LessThan
        } else if symbol == ">".to_owned() {
            Operator::GreaterThan
        } else if symbol == "<=".to_owned() {
            Operator::LessThanEqual
        } else if symbol == ">=".to_owned() {
            Operator::GreaterThanEqual
        } else if symbol == "=".to_owned() {
            Operator::Equal
        } else if symbol == "!=".to_owned() {
            Operator::NotEqual
        } else {
            Operator::Equal
        }
    }

    /// Whether `left` stands in this relation to `right`.
    pub fn holds(self, left: Scalar, right: Scalar) -> (r: bool)
        ensures
            r == self.spec_holds(left@, right@),
    {
        match self {
            Operator::LessThan => left.raw < right.raw,
            Operator::LessThanEqual => left.raw <= right.raw,
            Operator::GreaterThan => left.raw > right.raw,
            Operator::GreaterThanEqual => left.raw >= right.raw,
            Operator::Equal => left.raw == right.raw,
            Operator::NotEqual => left.raw != right.raw,
        }
    }
}

/// A condition on one controller parameter: `parameter operator value`.
#[derive(Debug)]
pub struct TransitionCondition {
    /// The name of the controller parameter to compare.
    pub parameter: String,
    /// The comparison to make.
    pub operator: Operator,
    /// The constant to compare the parameter with.
    pub value: Scalar,
}

impl Clone for TransitionCondition {
    fn clone(&self) -> (r: Self)
        ensures
            r == *self,
    {
        TransitionCondition {
            parameter: self.parameter.clone(),
            operator: self.operator,
            value: self.value,
        }
    }
}

impl TransitionCondition {
    /// Whether the condition holds of the values in `parameters`.
    pub open spec fn spec_is_true(&self, parameters: NameMap<Scalar>) -> bool {
        self.operator.spec_holds(parameters.value(self.parameter@)@, self.value@)
    }

    /// Whether the condition holds of the values in `parameters`.
    pub fn is_true(&self, parameters: &NameMap<Scalar>) -> (r: bool)
        requires
            parameters.wf(),
            parameters.contains(self.parameter@),
        ensures
            r == self.spec_is_true(*parameters),
    {
        let value = param_value(parameters, &self.parameter);
        self.operator.holds(value, self.value)
    }
}

/// A transition to a target state, with its condition and the duration of
/// the cross-fade.
#[derive(Debug)]
pub struct AnimationTransition {
    /// The name of the state to go to.
    pub target_state: String,
    /// The condition that starts the transition.
    pub condition: TransitionCondition,
    /// How long the poses of the two states are blended, in seconds.
    pub duration: Scalar,
}

impl Clone for AnimationTransition {
    fn clone(&self) -> (r: Self)
        ensures
            r == *self,
    {
        AnimationTransition {
            target_state: self.target_state.clone(),
            condition: self.condition.clone(),
            duration: self.duration,
        }
    }
}

/// A state of a controller: a blend tree, and the transitions that lead
/// to other states.
pub struct AnimationState<T: Transform> {
    /// The blend tree that gives the pose of this state.
    pub blend_tree: AnimBlendTree<T>,
    /// The transitions from this state, in the order in which their
    /// conditions are tried.
    pub transitions: Vec<AnimationTransition>,
}

/// The first of `transitions` whose condition holds of `parameters`.
pub open spec fn first_true(transitions: Seq<AnimationTransition>, parameters: NameMap<Scalar>) -> Option<
    int,
>
    decreases transitions.len(),
{
    if transitions.len() == 0 {
        None
    } else {
        match first_true(transitions.drop_last(), parameters) {
            Some(i) => Some(i),
            None => if transitions.last().condition.spec_is_true(parameters) {
                Some(transitions.len() - 1)
            } else {
                None
            },
        }
    }
}

/// The first transition whose condition holds is the one before which no
/// condition holds.
pub proof fn lemma_first_true(
    transitions: Seq<AnimationTransition>,
    parameters: NameMap<Scalar>,
    index: int,
)
    requires
        0 <= index <= transitions.len(),
        forall|j: int| 0 <= j < index ==> !transitions[j].condition.spec_is_true(parameters),
        index < transitions.len() ==> transitions[index].condition.spec_is_true(parameters),
    ensures
        index < transitions.len() ==> first_true(transitions, parameters) == Some(index),
        index == transitions.len() ==> first_true(transitions, parameters) is None,
    decreases transitions.len(),
{
    if transitions.len() > 0 {
        let front = transitions.drop_last();
        if index < front.len() {
            lemma_first_true(front, parameters, index);
        } else {
            lemma_first_true(front, parameters, front.len() as int);
        }
    }
}

/// Whether a transition that started at `start` and lasts `duration` is
/// over at the clock time `clock` plus `delta`.
pub open spec fn transition_is_over(clock: int, delta: int, start: int, duration: int) -> bool {
    saturate(clock + delta) >= saturate(start + duration)
}

/// The share of the target state's pose in the pose of a transition that
/// started at `start` and lasts `duration`, at the clock time `clock` plus
/// `delta`: the share of the duration that has passed, held between zero and
/// one. A transition without duration is all target.
pub open spec fn transition_blend(clock: int, delta: int, start: int, duration: int) -> int {
    if duration <= 0 {
        SCALE as int
    } else {
        clamp_unit_raw(div_raw(saturate(saturate(clock + delta) - start), duration))
    }
}

/// A cross-fade runs from the current state to the target and never back:
/// the share of the target is zero until the transition starts, does not
/// fall as time goes on, and is one from the end of the duration on.
pub proof fn lemma_transition_blend_rises(
    clock: int,
    earlier: int,
    later: int,
    start: int,
    duration: int,
)
    requires
        earlier <= later,
        0 < duration <= i64::MAX,
    ensures
        0 <= transition_blend(clock, earlier, start, duration) <= transition_blend(
            clock,
            later,
            start,
            duration,
        ) <= SCALE,
        saturate(clock + earlier) <= start ==> transition_blend(clock, earlier, start, duration)
            == 0,
        saturate(clock + later) - start >= duration ==> transition_blend(
            clock,
            later,
            start,
            duration,
        ) == SCALE,
{
    let scale = SCALE as int;
    let passed_earlier = saturate(saturate(clock + earlier) - start);
    let passed_later = saturate(saturate(clock + later) - start);
    assert(passed_earlier <= passed_later);
    assert(passed_earlier * scale <= passed_later * scale) by (nonlinear_arith)
        requires
            passed_earlier <= passed_later,
            scale == 1_000_000,
    ;
    vstd::arithmetic::div_mod::lemma_div_is_ordered(
        passed_earlier * scale,
        passed_later * scale,
        duration,
    );
    if passed_earlier <= 0 {
        assert(passed_earlier * scale <= 0) by (nonlinear_arith)
            requires
                passed_earlier <= 0,
                scale == 1_000_000,
        ;
        vstd::arithmetic::div_mod::lemma_div_is_ordered(passed_earlier * scale, 0, duration);
    }
    if saturate(clock + later) - start >= duration {
        assert(passed_later >= duration);
        assert(passed_later * scale >= duration * scale) by (nonlinear_arith)
            requires
                passed_later >= duration,
                scale == 1_000_000,
        ;
        vstd::arithmetic::div_mod::lemma_div_is_ordered(
            duration * scale,
            passed_later * scale,
            duration,
        );
        vstd::arithmetic::div_mod::lemma_div_multiples_vanish(scale, duration);
        assert(duration * scale == duration * 1_000_000);
        assert((duration * scale) / duration == scale) by {
            vstd::arithmetic::mul::lemma_mul_is_commutative(duration, scale);
        }
    }
}

/// The time at which the blend trees are sampled: the clock time `clock`
/// plus `delta` at the playback speed `speed`.
pub open spec fn sample_time(clock: int, delta: int, speed: int) -> int {
    saturate(clock + mul_raw(delta, speed))
}

/// Whether `after` is the state `before` with the cursors of its blend
/// tree brought in line with `parameters` at `time`: each pair of clips
/// under a lerp node plays at rates that give both the blended duration.
pub open spec fn resynchronized<T: Transform>(
    after: AnimationState<T>,
    before: AnimationState<T>,
    time: Scalar,
    parameters: NameMap<Scalar>,
) -> bool {
    &&& after.transitions == before.transitions
    &&& after.blend_tree.root_node == before.blend_tree.root_node
    &&& after.blend_tree.lerp_nodes == before.blend_tree.lerp_nodes
    &&& after.blend_tree.additive_nodes == before.blend_tree.additive_nodes
    &&& after.blend_tree.ik_nodes == before.blend_tree.ik_nodes
    &&& after.blend_tree.skeleton == before.blend_tree.skeleton
    &&& after.blend_tree.clip_nodes@ == synchronized(
        before.blend_tree.clip_nodes@,
        before.blend_tree.lerp_nodes@,
        parameters,
        time,
        before.blend_tree.lerp_nodes@.len(),
    )
}

/// A state machine over blend trees. The pose of the controller is the
/// pose of its current state, blended with the pose of the state that a
/// transition in flight leads to.
pub struct AnimationController<T: Transform> {
    /// The values of the parameters that blend trees and conditions name.
    pub parameters: NameMap<Scalar>,
    /// The skeleton that the controller poses.
    pub skeleton: Rc<Skeleton>,
    /// Seconds since the controller started to run.
    pub local_clock: Scalar,
    /// Playback speed multiplier.
    pub playback_speed: Scalar,
    /// The states by name.
    pub states: NameMap<AnimationState<T>>,
    /// The name of the current state.
    pub current_state: String,
    /// The transition in flight and the clock time at which it started.
    pub transition: Option<(Scalar, AnimationTransition)>,
}

impl<T: Transform> AnimationController<T> {
    /// The blend tree of `state` is well-formed, poses the controller's
    /// skeleton and names only known parameters; the transitions of `state`
    /// name only known parameters and states.
    pub open spec fn state_wf(&self, state: AnimationState<T>) -> bool {
        &&& state.blend_tree.wf()
        &&& state.blend_tree.skeleton == self.skeleton
        &&& state.blend_tree.params_known(self.parameters)
        &&& forall|j: int|
            0 <= j < state.transitions@.len() ==> {
                &&& self.parameters.contains((#[trigger] state.transitions@[j]).condition.parameter@)
                &&& self.states.contains(state.transitions@[j].target_state@)
            }
    }

    /// The current state and the target of the transition in flight are
    /// states of the controller, and every state is well-formed.
    pub open spec fn wf(&self) -> bool {
        &&& self.skeleton.wf()
        &&& self.parameters.wf()
        &&& self.states.wf()
        &&& self.states.contains(self.current_state@)
        &&& forall|name: Seq<char>| #[trigger]
            self.states.contains(name) ==> self.state_wf(self.states.value(name))
        &&& self.transition matches Some(pair) ==> self.states.contains(pair.1.target_state@)
    }

    /// The name of the current state after the state has been updated for
    /// a frame of `delta` seconds.
    pub open spec fn spec_next_state(&self, delta: Scalar) -> Seq<char> {
        match self.transition {
            Some(pair) => if transition_is_over(
                self.local_clock@,
                delta@,
                pair.0@,
                pair.1.duration@,
            ) {
                pair.1.target_state@
            } else {
                self.current_state@
            },
            None => self.current_state@,
        }
    }

    /// The transition in flight after the state has been updated for a
    /// frame of `delta` seconds: a transition in flight ends when its
    /// duration has passed; with none in flight, the first transition of the
    /// current state whose condition holds starts.
    pub open spec fn spec_next_transition(&self, delta: Scalar) -> Option<
        (Scalar, AnimationTransition),
    > {
        match self.transition {
            Some(pair) => if transition_is_over(
                self.local_clock@,
                delta@,
                pair.0@,
                pair.1.duration@,
            ) {
                None
            } else {
                self.transition
            },
            None => {
                let transitions = self.states.value(self.current_state@).transitions@;
                match first_true(transitions, self.parameters) {
                    Some(j) => Some(
                        (
                            Scalar { raw: saturate(self.local_clock@ + delta@) as i64 },
                            transitions[j],
                        ),
                    ),
                    None => None,
                }
            },
        }
    }

    /// The local poses of the controller for a frame of `delta` seconds:
    /// the pose of the current state's blend tree, blended with that of the
    /// target state's while a transition is in flight.
    pub open spec fn spec_local_poses(&self, delta: Scalar) -> Seq<T> {
        let time = Scalar {
            raw: sample_time(self.local_clock@, delta@, self.playback_speed@) as i64,
        };
        let rest = identity_poses::<T>(self.skeleton.joints@.len());
        let current = self.states.value(self.current_state@).blend_tree;
        let poses = current.spec_output_pose(current.root_node, time, self.parameters, rest);
        match self.transition {
            None => poses,
            Some(pair) => {
                let target = self.states.value(pair.1.target_state@).blend_tree;
                lerp_output(
                    poses,
                    target.spec_output_pose(target.root_node, time, self.parameters, rest),
                    Scalar {
                        raw: transition_blend(
                            self.local_clock@,
                            delta@,
                            pair.0@,
                            pair.1.duration@,
                        ) as i64,
                    },
                )
            },
        }
    }

    /// A state none of whose conditions holds is not left: with no
    /// transition in flight, updating the state changes neither the current
    /// state nor that no transition is in flight.
    pub proof fn lemma_idle_state_stays(&self, delta: Scalar)
        requires
            self.transition is None,
            forall|j: int|
                0 <= j < self.states.value(self.current_state@).transitions@.len()
                    ==> !(#[trigger] self.states.value(
                    self.current_state@,
                ).transitions@[j]).condition.spec_is_true(self.parameters),
        ensures
            self.spec_next_state(delta) == self.current_state@,
            self.spec_next_transition(delta) is None,
    {
        let transitions = self.states.value(self.current_state@).transitions@;
        lemma_first_true(transitions, self.parameters, transitions.len() as int);
    }

    /// A transition in flight ends in its target state: once its duration
    /// has passed, updating the state makes the target the current state and
    /// leaves no transition in flight.
    pub proof fn lemma_transition_completes(&self, delta: Scalar)
        requires
            self.transition matches Some(pair) && transition_is_over(
                self.local_clock@,
                delta@,
                pair.0@,
                pair.1.duration@,
            ),
        ensures
            self.spec_next_state(delta) == (self.transition->0).1.target_state@,
            self.spec_next_transition(delta) is None,
    {
    }

    /// With no transition in flight, the transition that starts is the
    /// first of the current state whose condition holds, and it starts at
    /// the clock time of the frame.
    pub proof fn lemma_transition_starts(&self, delta: Scalar, index: int)
        requires
            self.transition is None,
            0 <= index < self.states.value(self.current_state@).transitions@.len(),
            self.states.value(self.current_state@).transitions@[index].condition.spec_is_true(
                self.parameters,
            ),
            forall|j: int|
                0 <= j < index ==> !(#[trigger] self.states.value(
                    self.current_state@,
                ).transitions@[j]).condition.spec_is_true(self.parameters),
        ensures
            self.spec_next_state(delta) == self.current_state@,
            self.spec_next_transition(delta) matches Some(pair) && pair.0@ == saturate(
                self.local_clock@ + delta@,
            ) && pair.1 == self.states.value(self.current_state@).transitions@[index],
    {
        let transitions = self.states.value(self.current_state@).transitions@;
        lemma_first_true(transitions, self.parameters, index);
    }

    /// Advances the clock by `delta_time` seconds at the playback speed.
    pub fn update(&mut self, delta_time: Scalar)
        ensures
            final(self).local_clock@ == saturate(
                old(self).local_clock@ + mul_raw(delta_time@, old(self).playback_speed@),
            ),
            final(self).parameters == old(self).parameters,
            final(self).skeleton == old(self).skeleton,
            final(self).playback_speed == old(self).playback_speed,
            final(self).states == old(self).states,
            final(self).current_state == old(self).current_state,
            final(self).transition == old(self).transition,
    {
        self.local_clock = self.local_clock.add(delta_time.mul(self.playback_speed));
    }

    /// Ends the transition in flight if its duration has passed; with none
    /// in flight, starts the first transition of the current state whose
    /// condition holds.
    pub fn update_state(&mut self, ext_dt: Scalar)
        requires
            old(self).wf(),
        ensures
            final(self).wf(),
            final(self).current_state@ == old(self).spec_next_state(ext_dt),
            final(self).transition == old(self).spec_next_transition(ext_dt),
            final(self).parameters == old(self).parameters,
            final(self).skeleton == old(self).skeleton,
            final(self).local_clock == old(self).local_clock,
            final(self).playback_speed == old(self).playback_speed,
            final(self).states == old(self).states,
    {
        let now = self.local_clock.add(ext_dt);
        let over: Option<bool> = match &self.transition {
            Some(pair) => Some(now.raw >= pair.0.add(pair.1.duration).raw),
            None => None,
        };
        match over {
            Some(true) => {
                let target = match &self.transition {
                    Some(pair) => pair.1.target_state.clone(),
                    None => String::new(),
                };
                self.current_state = target;
                self.transition = None;
            },
            Some(false) => {},
            None => {
                let started = match self.states.get(self.current_state.as_str()) {
                    Some(current_state) => {
                        assert(self.state_wf(self.states.value(self.current_state@)));
                        let transitions = &current_state.transitions;
                        let mut found: Option<AnimationTransition> = None;
                        let mut i: usize = 0;
                        while i < transitions.len() && found.is_none()
                            invariant
                                self.parameters.wf(),
                                i <= transitions@.len(),
                                forall|j: int|
                                    0 <= j < transitions@.len() ==> self.parameters.contains(
                                        (#[trigger] transitions@[j]).condition.parameter@,
                                    ),
                                found is None ==> forall|j: int|
                                    0 <= j < i ==> !transitions@[j].condition.spec_is_true(
                                        self.parameters,
                                    ),
                                found matches Some(transition) ==> {
                                    &&& 0 < i
                                    &&& first_true(transitions@, self.parameters) == Some(i - 1)
                                    &&& transition == transitions@[i - 1]
                                },
                            decreases transitions@.len() - i + if found is None { 1int } else { 0 },
                        {
                            if transitions[i].condition.is_true(&self.parameters) {
                                proof {
                                    lemma_first_true(transitions@, self.parameters, i as int);
                                }
                                found = Some(transitions[i].clone());
                            }
                            i += 1;
                        }
                        proof {
                            if found is None {
                                lemma_first_true(transitions@, self.parameters, i as int);
                            }
                        }
                        found
                    },
                    None => None,
                };
                match started {
                    Some(transition) => {
                        self.transition = Some((now, transition));
                    },
                    None => {},
                }
            },
        }
    }

    /// Sets the playback speed of the controller.
    pub fn set_playback_speed(&mut self, speed: Scalar)
        ensures
            final(self).playback_speed == speed,
            final(self).parameters == old(self).parameters,
            final(self).skeleton == old(self).skeleton,
            final(self).local_clock == old(self).local_clock,
            final(self).states == old(self).states,
            final(self).current_state == old(self).current_state,
            final(self).transition == old(self).transition,
    {
        self.playback_speed = speed;
    }

    /// Sets the value of the parameter called `name`.
    pub fn set_param_value(&mut self, name: &str, value: Scalar)
        requires
            old(self).wf(),
        ensures
            final(self).wf(),
            final(self).parameters.contains(name@),
            final(self).parameters.value(name@) == value,
            forall|other: Seq<char>|
                other != name@
                    ==> final(self).parameters.contains(other)
                    == old(self).parameters.contains(other),
            forall|other: Seq<char>|
                other != name@ && old(self).parameters.contains(other)
                    ==> final(self).parameters.value(other) == old(self).parameters.value(other),
            final(self).skeleton == old(self).skeleton,
            final(self).local_clock == old(self).local_clock,
            final(self).playback_speed == old(self).playback_speed,
            final(self).states == old(self).states,
            final(self).current_state == old(self).current_state,
            final(self).transition == old(self).transition,
    {
        self.parameters.insert(name, value);
        proof {
            assert forall|state: Seq<char>| #[trigger]
                self.states.contains(state) implies self.state_wf(self.states.value(state)) by {
                assert(old(self).state_wf(old(self).states.value(state)));
            }
        }
    }

    /// The value of the parameter called `name`.
    pub fn get_param_value(&self, name: &str) -> (r: Scalar)
        requires
            self.parameters.wf(),
            self.parameters.contains(name@),
        ensures
            r == self.parameters.value(name@),
    {
        match self.parameters.get(name) {
            Some(value) => *value,
            None => Scalar::zero(),
        }
    }

    /// The parameters of the controller and their values.
    pub fn get_parameters(&self) -> (r: &NameMap<Scalar>)
        ensures
            *r == self.parameters,
    {
        &self.parameters
    }

    /// Whether the blend tree of the state called `name` is sampled for a
    /// frame: the state is the current state, or the target of the
    /// transition in flight.
    pub open spec fn is_sampled(&self, name: Seq<char>) -> bool {
        ||| name == self.current_state@
        ||| self.transition matches Some(pair) && name == pair.1.target_state@
    }

    /// Brings the cursors of the blend tree of the state at `index` in
    /// line with the parameters, at the time `time`.
    pub fn synchronize_state(&mut self, index: usize, time: Scalar)
        requires
            old(self).wf(),
            index < old(self).states.values@.len(),
        ensures
            final(self).wf(),
            final(self).parameters == old(self).parameters,
            final(self).skeleton == old(self).skeleton,
            final(self).local_clock == old(self).local_clock,
            final(self).playback_speed == old(self).playback_speed,
            final(self).current_state == old(self).current_state,
            final(self).transition == old(self).transition,
            final(self).states.names == old(self).states.names,
            final(self).states.values@.len() == old(self).states.values@.len(),
            forall|k: int|
                0 <= k < old(self).states.values@.len() && k != index ==> final(self).states.values@[k]
                    == old(self).states.values@[k],
            resynchronized(
                final(self).states.values@[index as int],
                old(self).states.values@[index as int],
                time,
                old(self).parameters,
            ),
    {
        proof {
            self.states.lemma_position(index as int);
            assert(self.state_wf(self.states.value(self.states.names@[index as int]@)));
        }
        self.states.values[index].blend_tree.synchronize(time, &self.parameters);
        proof {
            assert forall|name: Seq<char>| #[trigger]
                self.states.contains(name) implies self.state_wf(self.states.value(name)) by {
                assert(old(self).states.contains(name));
                assert(old(self).state_wf(old(self).states.value(name)));
                assert(self.states.position(name) == old(self).states.position(name));
            }
        }
    }

    /// Updates the state for a frame of `ext_dt` seconds, brings the
    /// cursors of the blend trees that are sampled in line with the
    /// parameters, and writes the global pose of every joint into the front
    /// of `output_poses`.
    #[verifier::spinoff_prover]
    pub fn get_output_pose<TOutput: Transform + FromTransform<T>>(
        &mut self,
        ext_dt: Scalar,
        output_poses: &mut Vec<TOutput>,
    )
        requires
            old(self).wf(),
            old(self).skeleton.joints@.len() <= old(output_poses)@.len(),
        ensures
            final(self).wf(),
            final(self).current_state@ == old(self).spec_next_state(ext_dt),
            final(self).transition == old(self).spec_next_transition(ext_dt),
            final(self).parameters == old(self).parameters,
            final(self).skeleton == old(self).skeleton,
            final(self).local_clock == old(self).local_clock,
            final(self).playback_speed == old(self).playback_speed,
            final(self).states.names == old(self).states.names,
            forall|name: Seq<char>| #[trigger]
                old(self).states.contains(name) ==> if final(self).is_sampled(name) {
                    resynchronized(
                        final(self).states.value(name),
                        old(self).states.value(name),
                        Scalar {
                            raw: sample_time(
                                old(self).local_clock@,
                                ext_dt@,
                                old(self).playback_speed@,
                            ) as i64,
                        },
                        old(self).parameters,
                    )
                } else {
                    final(self).states.value(name) == old(self).states.value(name)
                },
            final(output_poses)@.len() == old(output_poses)@.len(),
            forall|i: int|
                0 <= i < old(self).skeleton.joints@.len() ==> final(output_poses)@[i]
                    == old(self).skeleton.spec_converted_global_pose::<T, TOutput>(
                    final(self).spec_local_poses(ext_dt),
                    i,
                ),
            forall|i: int|
                old(self).skeleton.joints@.len() <= i < old(output_poses)@.len()
                    ==> final(output_poses)@[i] == old(output_poses)@[i],
    {
        self.update_state(ext_dt);
        let elapsed_time = self.local_clock.add(ext_dt.mul(self.playback_speed));
        let ghost updated = *self;
        let current = match self.states.find(self.current_state.as_str()) {
            Some(index) => index,
            None => 0,
        };
        self.synchronize_state(current, elapsed_time);
        let target = match &self.transition {
            Some(pair) => self.states.find(pair.1.target_state.as_str()),
            None => None,
        };
        match target {
            Some(index) => {
                if index != current {
                    self.synchronize_state(index, elapsed_time);
                }
            },
            None => {},
        }
        proof {
            assert forall|name: Seq<char>| #[trigger]
                old(self).states.contains(name) implies if self.is_sampled(name) {
                resynchronized(
                    self.states.value(name),
                    old(self).states.value(name),
                    elapsed_time,
                    old(self).parameters,
                )
            } else {
                self.states.value(name) == old(self).states.value(name)
            } by {
                assert(self.states.position(name) == updated.states.position(name));
            }
        }
        let joint_count = self.skeleton.joints.len();
        let mut local_poses: Vec<T> = new_identity_poses(joint_count);
        match self.states.get(self.current_state.as_str()) {
            Some(current_state) => {
                assert(self.state_wf(self.states.value(self.current_state@)));
                current_state.blend_tree.get_output_pose(
                    elapsed_time,
                    &self.parameters,
                    &mut local_poses,
                );
            },
            None => {},
        }
        match &self.transition {
            Some(pair) => {
                let mut target_poses: Vec<T> = new_identity_poses(joint_count);
                match self.states.get(pair.1.target_state.as_str()) {
                    Some(target_state) => {
                        assert(self.state_wf(self.states.value(pair.1.target_state@)));
                        target_state.blend_tree.get_output_pose(
                            elapsed_time,
                            &self.parameters,
                            &mut target_poses,
                        );
                    },
                    None => {},
                }
                let blend_parameter = if pair.1.duration.raw <= 0 {
                    Scalar::one()
                } else {
                    self.local_clock.add(ext_dt).sub(pair.0).div(pair.1.duration).clamp_unit()
                };
                let ghost first = local_poses@;
                let mut i: usize = 0;
                while i < joint_count
                    invariant
                        i <= joint_count,
                        local_poses@.len() == joint_count,
                        target_poses@.len() == joint_count,
                        first.len() == joint_count,
                        forall|k: int|
                            0 <= k < i ==> local_poses@[k] == first[k].spec_lerp(
                                target_poses@[k],
                                blend_parameter,
                            ),
                        forall|k: int| i <= k < joint_count ==> local_poses@[k] == first[k],
                    decreases joint_count - i,
                {
                    let pose_1 = local_poses[i];
                    let pose_2 = target_poses[i];
                    local_poses[i] = pose_1.lerp(pose_2, blend_parameter);
                    i += 1;
                }
                assert(local_poses@ =~= lerp_output(first, target_poses@, blend_parameter));
            },
            None => {},
        }
        assert(local_poses@ == self.spec_local_poses(ext_dt));
        self.skeleton.calculate_converted_global_poses(&local_poses, output_poses);
    }

    /// Resolves the global pose of every joint, in the representation
    /// `TOutput`, from the local poses.
    pub fn calculate_global_poses<TOutput: Transform + FromTransform<T>>(
        &self,
        local_poses: &Vec<T>,
        global_poses: &mut Vec<TOutput>,
    )
        requires
            self.skeleton.wf(),
            local_poses@.len() >= self.skeleton.joints@.len(),
            old(global_poses)@.len() >= self.skeleton.joints@.len(),
        ensures
            final(global_poses)@.len() == old(global_poses)@.len(),
            forall|i: int|
                0 <= i < self.skeleton.joints@.len() ==> final(global_poses)@[i]
                    == self.skeleton.spec_converted_global_pose::<T, TOutput>(local_poses@, i),
            forall|i: int|
                self.skeleton.joints@.len() <= i < old(global_poses)@.len()
                    ==> final(global_poses)@[i] == old(global_poses)@[i],
    {
        self.skeleton.calculate_converted_global_poses(local_poses, global_poses);
    }
}

} // verus!
