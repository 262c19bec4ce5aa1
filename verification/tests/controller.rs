use std::rc::Rc;

use skeletal_animation::animation::{AnimationClip, AnimationSample};
use skeletal_animation::blend_tree::{BlendTreeError, BlendTreeNodeDef};
use skeletal_animation::controller::{
    copy_transitions, declare_parameters, find_unknown_target, AnimationController,
    AnimationControllerDef, AnimationStateDef, AnimationTransition, ControllerError, Operator,
    TransitionCondition,
};
use skeletal_animation::name_map::NameMap;
use skeletal_animation::scalar::Scalar;
use skeletal_animation::skeleton::{Joint, Skeleton, ROOT_JOINT_PARENT_INDEX};
use skeletal_animation::transform::{FromTransform, Matrix4, Transform, Vector2, Vector3};

/// A transform that only moves: by `x` and `y` millionths.
#[derive(Clone, Copy, Debug, PartialEq, Eq)]
struct Shift {
    x: i64,
    y: i64,
}

fn blend(a: i64, b: i64, t: Scalar) -> i64 {
    (a as i128 + ((b - a) as i128 * t.raw as i128).div_euclid(1_000_000)) as i64
}

impl Transform for Shift {
    fn spec_identity() -> Self {
        Self::identity()
    }
    fn spec_concat(self, other: Self) -> Self {
        self.concat(other)
    }
    fn spec_inverse(self) -> Self {
        self.inverse()
    }
    fn spec_lerp(self, other: Self, parameter: Scalar) -> Self {
        self.lerp(other, parameter)
    }
    fn spec_from_matrix(m: Matrix4) -> Self {
        Self::from_matrix(m)
    }
    fn spec_get_translation(self) -> Vector3 {
        self.get_translation()
    }
    fn spec_bend_bones(
        root_parent: Self,
        root: Self,
        middle: Self,
        effector: Self,
        target: Vector3,
        bend: Option<Vector3>,
        elbow: Vector2,
    ) -> (Self, Self) {
        Self::bend_bones(root_parent, root, middle, effector, target, bend, elbow)
    }
    fn identity() -> Self {
        Shift { x: 0, y: 0 }
    }
    fn concat(self, other: Self) -> Self {
        Shift { x: self.x + other.x, y: self.y + other.y }
    }
    fn inverse(self) -> Self {
        Shift { x: -self.x, y: -self.y }
    }
    fn lerp(self, other: Self, parameter: Scalar) -> Self {
        Shift { x: blend(self.x, other.x, parameter), y: blend(self.y, other.y, parameter) }
    }
    fn from_matrix(m: Matrix4) -> Self {
        Shift { x: m.rows[0][3].raw, y: m.rows[1][3].raw }
    }
    fn get_translation(self) -> Vector3 {
        Vector3 { x: Scalar::from_raw(self.x), y: Scalar::from_raw(self.y), z: Scalar::zero() }
    }
    fn bend_bones(
        root_parent: Self,
        root: Self,
        _middle: Self,
        _effector: Self,
        target: Vector3,
        _bend: Option<Vector3>,
        elbow: Vector2,
    ) -> (Self, Self) {
        // The bend plane of a chain that only moves in two dimensions: its first
        // axis points from the root to the target, its second is a quarter turn
        // to the left of the first.
        let (tx, ty) = ((target.x.raw - root.x) as f64, (target.y.raw - root.y) as f64);
        let reach = tx.hypot(ty);
        let (ex, ey) = (elbow.x.raw as f64, elbow.y.raw as f64);
        let middle = Shift {
            x: ((ex * tx - ey * ty) / reach).round() as i64,
            y: ((ex * ty + ey * tx) / reach).round() as i64,
        };
        (root_parent.inverse().concat(root), middle)
    }
}

fn s(raw: i64) -> Scalar {
    Scalar::from_raw(raw)
}

fn at(x: i64, y: i64) -> Shift {
    Shift { x, y }
}

impl FromTransform<Shift> for Shift {
    fn spec_from_transform(t: Shift) -> Self {
        t
    }
    fn from_transform(t: Shift) -> Self {
        t
    }
}

fn joint(name: &str, parent_index: u8) -> Joint {
    Joint {
        name: name.to_string(),
        parent_index,
        inverse_bind_pose: Matrix4 { rows: [[s(0); 4]; 4] },
    }
}

fn arm() -> Rc<Skeleton> {
    Rc::new(
        Skeleton::new(vec![
            joint("shoulder", ROOT_JOINT_PARENT_INDEX),
            joint("elbow", 0),
            joint("hand", 1),
        ])
        .unwrap(),
    )
}

fn clip(samples: &[[i64; 3]], samples_per_second: i64) -> Rc<AnimationClip<Shift>> {
    Rc::new(AnimationClip {
        samples: samples
            .iter()
            .map(|xs| AnimationSample { local_poses: xs.iter().map(|&x| at(x, 0)).collect() })
            .collect(),
        samples_per_second: s(samples_per_second),
    })
}

fn clips() -> NameMap<Rc<AnimationClip<Shift>>> {
    let mut clips = NameMap::new();
    clips.insert("low", clip(&[[0, 100, 200]], 1_000_000));
    clips.insert("high", clip(&[[1000, 1100, 1200]], 1_000_000));
    clips.insert("walk", clip(&[[0, 0, 0], [10, 10, 10]], 1_000_000));
    clips.insert("run", clip(&[[0, 0, 0], [1, 1, 1], [2, 2, 2], [3, 3, 3]], 4_000_000));
    clips
}

fn play(id: &str) -> BlendTreeNodeDef {
    BlendTreeNodeDef::ClipNode(id.to_string())
}

fn transition(target: &str, parameter: &str, operator: Operator, value: i64, duration: i64) -> AnimationTransition {
    AnimationTransition {
        target_state: target.to_string(),
        condition: TransitionCondition { parameter: parameter.to_string(), operator, value: s(value) },
        duration: s(duration),
    }
}

fn state(name: &str, blend_tree: BlendTreeNodeDef, transitions: Vec<AnimationTransition>) -> AnimationStateDef {
    AnimationStateDef { name: name.to_string(), blend_tree, transitions }
}

fn definition(parameters: &[&str], states: Vec<AnimationStateDef>, initial_state: &str) -> AnimationControllerDef {
    AnimationControllerDef {
        name: "test".to_string(),
        parameters: parameters.iter().map(|p| p.to_string()).collect(),
        states,
        initial_state: initial_state.to_string(),
    }
}

/// Idle plays `low` and goes to moving, which plays `high`, when the speed
/// is above one half; moving goes back when it is not.
fn idle_and_moving(duration: i64) -> AnimationControllerDef {
    definition(
        &["speed"],
        vec![
            state(
                "idle",
                play("low"),
                vec![transition("moving", "speed", Operator::GreaterThan, 500_000, duration)],
            ),
            state(
                "moving",
                play("high"),
                vec![transition("idle", "speed", Operator::LessThanEqual, 500_000, duration)],
            ),
        ],
        "idle",
    )
}

fn controller(def: AnimationControllerDef) -> AnimationController<Shift> {
    AnimationController::new(def, arm(), &clips()).unwrap()
}

fn error(def: AnimationControllerDef) -> ControllerError {
    AnimationController::<Shift>::new(def, arm(), &clips()).err().unwrap()
}

fn frame(controller: &mut AnimationController<Shift>, dt: i64) -> Vec<Shift> {
    let mut poses = vec![at(-9, -9); 4];
    controller.get_output_pose(s(dt), &mut poses);
    assert_eq!(poses[3], at(-9, -9));
    poses.truncate(3);
    poses
}

#[test]
fn operators_are_decoded_from_symbols() {
    assert_eq!(Operator::decode("<"), Operator::LessThan);
    assert_eq!(Operator::decode(">"), Operator::GreaterThan);
    assert_eq!(Operator::decode("<="), Operator::LessThanEqual);
    assert_eq!(Operator::decode(">="), Operator::GreaterThanEqual);
    assert_eq!(Operator::decode("="), Operator::Equal);
    assert_eq!(Operator::decode("!="), Operator::NotEqual);
    assert_eq!(Operator::decode("=="), Operator::Equal);
    assert_eq!(Operator::decode(""), Operator::Equal);
}

#[test]
fn operators_compare() {
    let table = [
        (Operator::LessThan, [true, false, false]),
        (Operator::LessThanEqual, [true, true, false]),
        (Operator::GreaterThan, [false, false, true]),
        (Operator::GreaterThanEqual, [false, true, true]),
        (Operator::Equal, [false, true, false]),
        (Operator::NotEqual, [true, false, true]),
    ];
    for (operator, expected) in table {
        let found = [operator.holds(s(-1), s(5)), operator.holds(s(5), s(5)), operator.holds(s(6), s(5))];
        assert_eq!(found, expected, "{:?}", operator);
    }
}

#[test]
fn condition_compares_parameter_with_its_value() {
    let mut parameters = NameMap::new();
    parameters.insert("lean", s(0));
    parameters.insert("speed", s(500_001));
    let condition = transition("x", "speed", Operator::GreaterThan, 500_000, 0).condition;
    assert!(condition.is_true(&parameters));
    parameters.insert("speed", s(500_000));
    assert!(!condition.is_true(&parameters));
    assert_eq!(format!("{:?}", condition.clone()), format!("{:?}", condition));
}

#[test]
fn new_controller_starts_in_initial_state() {
    let controller = controller(idle_and_moving(300_000));
    assert_eq!(controller.current_state, "idle");
    assert_eq!(controller.local_clock.raw, 0);
    assert_eq!(controller.playback_speed.raw, 1_000_000);
    assert!(controller.transition.is_none());
    assert_eq!(controller.get_param_value("speed").raw, 0);
    assert_eq!(controller.get_parameters().len(), 1);
    assert_eq!(controller.states.len(), 2);
    let idle = controller.states.get("idle").unwrap();
    assert_eq!(idle.transitions.len(), 1);
    assert_eq!(idle.transitions[0].target_state, "moving");
    assert_eq!(idle.transitions[0].duration.raw, 300_000);
    assert_eq!(idle.transitions[0].condition.operator, Operator::GreaterThan);
}

#[test]
fn new_controller_synchronizes_its_trees() {
    let blend = BlendTreeNodeDef::LerpNode(Box::new(play("walk")), Box::new(play("run")), "mix".to_string());
    let controller = controller(definition(&["mix"], vec![state("go", blend, vec![])], "go"));
    let tree = &controller.states.get("go").unwrap().blend_tree;
    // With the blend at zero both clips take the 2 s of the first.
    assert_eq!(tree.clip_nodes[0].clip.playback_rate.raw, 1_000_000);
    assert_eq!(tree.clip_nodes[1].clip.playback_rate.raw, 500_000);
}

#[test]
fn later_state_of_a_name_counts() {
    let def = definition(&[], vec![state("a", play("low"), vec![]), state("a", play("high"), vec![])], "a");
    let mut controller = controller(def);
    assert_eq!(controller.states.len(), 1);
    assert_eq!(frame(&mut controller, 0), vec![at(1000, 0), at(2100, 0), at(3300, 0)]);
}

#[test]
fn blend_tree_fault_is_reported() {
    let def = definition(&[], vec![state("a", play("low"), vec![]), state("b", play("swim"), vec![])], "a");
    assert!(matches!(
        error(def),
        ControllerError::BlendTree(BlendTreeError::MissingClip(id)) if id == "swim"
    ));
}

#[test]
fn undeclared_parameter_of_a_tree_is_reported() {
    let blend = BlendTreeNodeDef::LerpNode(Box::new(play("walk")), Box::new(play("run")), "mix".to_string());
    let def = definition(&["speed"], vec![state("go", blend, vec![])], "go");
    assert!(matches!(error(def), ControllerError::UnknownParameter(name) if name == "mix"));
}

#[test]
fn undeclared_parameter_of_a_condition_is_reported() {
    let def = definition(
        &["speed"],
        vec![state(
            "a",
            play("low"),
            vec![
                transition("a", "speed", Operator::Equal, 0, 0),
                transition("a", "lean", Operator::Equal, 0, 0),
                transition("a", "turn", Operator::Equal, 0, 0),
            ],
        )],
        "a",
    );
    assert!(matches!(error(def), ControllerError::UnknownParameter(name) if name == "lean"));
}

#[test]
fn undefined_target_state_is_reported() {
    let def = definition(
        &["speed"],
        vec![
            state("a", play("low"), vec![transition("b", "speed", Operator::Equal, 0, 0)]),
            state(
                "b",
                play("high"),
                vec![
                    transition("a", "speed", Operator::Equal, 0, 0),
                    transition("c", "speed", Operator::Equal, 0, 0),
                    transition("d", "speed", Operator::Equal, 0, 0),
                ],
            ),
        ],
        "nowhere",
    );
    assert!(matches!(error(def), ControllerError::UnknownState(name) if name == "c"));
}

#[test]
fn undefined_initial_state_is_reported() {
    let def = definition(&[], vec![state("a", play("low"), vec![])], "b");
    assert!(matches!(error(def), ControllerError::UnknownState(name) if name == "b"));
    let def = definition(&[], vec![], "");
    assert!(matches!(error(def), ControllerError::UnknownState(name) if name.is_empty()));
}

#[test]
fn faults_of_states_come_before_faults_of_targets() {
    let def = definition(
        &[],
        vec![
            state("a", play("low"), vec![transition("z", "speed", Operator::Equal, 0, 0)]),
            state("b", play("swim"), vec![]),
        ],
        "a",
    );
    assert!(matches!(error(def), ControllerError::UnknownParameter(name) if name == "speed"));
    let def = definition(
        &["speed"],
        vec![
            state("a", play("low"), vec![transition("z", "speed", Operator::Equal, 0, 0)]),
            state("b", play("swim"), vec![]),
        ],
        "a",
    );
    assert!(matches!(error(def), ControllerError::BlendTree(BlendTreeError::MissingClip(_))));
}

#[test]
fn update_advances_clock_at_playback_speed() {
    let mut controller = controller(idle_and_moving(300_000));
    controller.update(s(250_000));
    assert_eq!(controller.local_clock.raw, 250_000);
    controller.set_playback_speed(s(2_500_000));
    assert_eq!(controller.playback_speed.raw, 2_500_000);
    controller.update(s(100_000));
    assert_eq!(controller.local_clock.raw, 500_000);
    controller.set_playback_speed(s(-1_000_000));
    controller.update(s(600_000));
    assert_eq!(controller.local_clock.raw, -100_000);
}

#[test]
fn parameters_are_set_and_read() {
    let mut controller = controller(idle_and_moving(300_000));
    controller.set_param_value("speed", s(750_000));
    assert_eq!(controller.get_param_value("speed").raw, 750_000);
    controller.set_param_value("lean", s(-1));
    assert_eq!(controller.get_param_value("lean").raw, -1);
    assert_eq!(controller.get_param_value("speed").raw, 750_000);
    assert_eq!(controller.get_parameters().get("lean"), Some(&s(-1)));
    assert_eq!(controller.get_parameters().get("turn"), None);
}

#[test]
fn state_without_true_condition_is_not_left() {
    let mut controller = controller(idle_and_moving(300_000));
    controller.set_param_value("speed", s(500_000));
    for _ in 0..50 {
        assert_eq!(frame(&mut controller, 50_000), vec![at(0, 0), at(100, 0), at(300, 0)]);
        assert_eq!(controller.current_state, "idle");
        assert!(controller.transition.is_none());
        controller.update(s(50_000));
    }
    assert_eq!(controller.local_clock.raw, 2_500_000);
}

#[test]
fn transition_crosses_over_in_its_duration() {
    let mut controller = controller(idle_and_moving(300_000));
    controller.set_param_value("speed", s(1_000_000));
    let mut elbows = Vec::new();
    let mut states = Vec::new();
    for _ in 0..8 {
        let poses = frame(&mut controller, 50_000);
        elbows.push(poses[1].x - poses[0].x);
        states.push((controller.current_state.clone(), controller.transition.is_some()));
        controller.update(s(50_000));
    }
    // The local pose of the elbow goes from 100 to 1100 in six even steps.
    assert_eq!(elbows, vec![100, 266, 433, 600, 766, 933, 1100, 1100]);
    let expected: Vec<(String, bool)> = [
        ("idle", true),
        ("idle", true),
        ("idle", true),
        ("idle", true),
        ("idle", true),
        ("idle", true),
        ("moving", false),
        ("moving", false),
    ]
    .iter()
    .map(|&(name, flying)| (name.to_string(), flying))
    .collect();
    assert_eq!(states, expected);
    let steps: Vec<i64> = elbows.windows(2).map(|pair| pair[1] - pair[0]).collect();
    assert!(steps.iter().all(|&step| (0..=167).contains(&step)));
}

#[test]
fn transition_starts_at_the_time_of_the_frame() {
    let mut controller = controller(idle_and_moving(300_000));
    controller.set_param_value("speed", s(1_000_000));
    controller.update(s(2_000_000));
    controller.update_state(s(125_000));
    let (start, transition) = controller.transition.clone().unwrap();
    assert_eq!(start.raw, 2_125_000);
    assert_eq!(transition.target_state, "moving");
    assert_eq!(transition.duration.raw, 300_000);
    assert_eq!(controller.current_state, "idle");
    // No second transition starts while one is in flight.
    controller.set_param_value("speed", s(0));
    controller.update_state(s(200_000));
    assert_eq!(controller.transition.clone().unwrap().0.raw, 2_125_000);
    controller.update_state(s(424_999));
    assert_eq!(controller.current_state, "idle");
    controller.update_state(s(425_000));
    assert_eq!(controller.current_state, "moving");
    assert!(controller.transition.is_none());
}

#[test]
fn first_true_condition_starts_its_transition() {
    let def = definition(
        &["speed", "lean"],
        vec![
            state(
                "a",
                play("low"),
                vec![
                    transition("b", "speed", Operator::GreaterThan, 0, 100_000),
                    transition("c", "lean", Operator::Equal, 0, 200_000),
                    transition("b", "lean", Operator::NotEqual, 7, 300_000),
                ],
            ),
            state("b", play("high"), vec![]),
            state("c", play("walk"), vec![]),
        ],
        "a",
    );
    let mut controller = controller(def);
    controller.update_state(s(0));
    let (_, started) = controller.transition.clone().unwrap();
    assert_eq!((started.target_state.as_str(), started.duration.raw), ("c", 200_000));
}

#[test]
fn transition_blend_is_held_between_zero_and_one() {
    let mut controller = controller(idle_and_moving(300_000));
    controller.set_param_value("speed", s(1_000_000));
    assert_eq!(frame(&mut controller, 100_000), vec![at(0, 0), at(100, 0), at(300, 0)]);
    // A frame that ends before the transition started shows the current state alone.
    assert_eq!(frame(&mut controller, 0), vec![at(0, 0), at(100, 0), at(300, 0)]);
    assert_eq!(frame(&mut controller, -500_000), vec![at(0, 0), at(100, 0), at(300, 0)]);
    assert_eq!(controller.current_state, "idle");
    assert_eq!(frame(&mut controller, 250_000), vec![at(500, 0), at(1100, 0), at(1800, 0)]);
}

#[test]
fn transition_without_duration_is_all_target() {
    let mut controller = controller(idle_and_moving(0));
    controller.set_param_value("speed", s(1_000_000));
    assert_eq!(frame(&mut controller, 50_000), vec![at(1000, 0), at(2100, 0), at(3300, 0)]);
    assert_eq!(controller.current_state, "idle");
    assert_eq!(frame(&mut controller, 50_000), vec![at(1000, 0), at(2100, 0), at(3300, 0)]);
    assert_eq!(controller.current_state, "moving");
}

#[test]
fn trees_are_sampled_ahead_at_playback_speed() {
    let def = definition(&[], vec![state("a", play("walk"), vec![])], "a");
    let mut controller = controller(def);
    controller.update(s(100_000));
    controller.set_playback_speed(s(2_000_000));
    // 0.1 s on the clock and 0.2 s at double speed: sample 0.5.
    assert_eq!(frame(&mut controller, 200_000), vec![at(5, 0), at(10, 0), at(15, 0)]);
    assert_eq!(controller.local_clock.raw, 100_000);
}

#[test]
fn global_poses_of_local_poses() {
    let controller = controller(idle_and_moving(300_000));
    let mut global = vec![at(0, 0); 3];
    controller.calculate_global_poses(&vec![at(1, 1), at(2, 2), at(3, 3)], &mut global);
    assert_eq!(global, vec![at(1, 1), at(3, 3), at(6, 6)]);
}

#[test]
fn declared_parameters_are_zero() {
    let parameters = declare_parameters(&vec!["a".to_string(), "b".to_string(), "a".to_string()]);
    assert_eq!(parameters.len(), 2);
    assert_eq!(parameters.get("a"), Some(&s(0)));
    assert_eq!(parameters.get("b"), Some(&s(0)));
}

#[test]
fn transitions_are_copied_where_their_parameters_are_known() {
    let parameters = declare_parameters(&vec!["speed".to_string()]);
    let transitions = vec![
        transition("a", "speed", Operator::LessThan, 1, 2),
        transition("b", "speed", Operator::NotEqual, 3, 4),
    ];
    let copy = copy_transitions(&transitions, &parameters).unwrap();
    assert_eq!(format!("{:?}", copy), format!("{:?}", transitions));
    let transitions = vec![transition("a", "lean", Operator::LessThan, 1, 2)];
    assert_eq!(copy_transitions(&transitions, &parameters).err(), Some("lean".to_string()));
}

#[test]
fn first_unknown_target_is_found() {
    let controller = controller(idle_and_moving(300_000));
    let transitions = vec![
        transition("idle", "speed", Operator::LessThan, 1, 2),
        transition("flying", "speed", Operator::LessThan, 1, 2),
        transition("swimming", "speed", Operator::LessThan, 1, 2),
    ];
    assert_eq!(find_unknown_target(&transitions, &controller.states), Some("flying".to_string()));
    assert_eq!(find_unknown_target(&transitions[..1].to_vec(), &controller.states), None);
}

#[test]
fn sampled_trees_are_synchronized_with_the_parameters() {
    let blend = |a: &str, b: &str| {
        BlendTreeNodeDef::LerpNode(Box::new(play(a)), Box::new(play(b)), "mix".to_string())
    };
    let def = definition(
        &["mix", "go"],
        vec![
            state("here", blend("walk", "run"), vec![transition("there", "go", Operator::Equal, 1, 1_000_000)]),
            state("there", blend("run", "walk"), vec![]),
            state("elsewhere", blend("walk", "run"), vec![]),
        ],
        "here",
    );
    let mut controller = controller(def);
    let rates = |controller: &AnimationController<Shift>, name: &str| -> Vec<i64> {
        let tree = &controller.states.get(name).unwrap().blend_tree;
        tree.clip_nodes.iter().map(|node| node.clip.playback_rate.raw).collect()
    };
    assert_eq!(rates(&controller, "here"), vec![1_000_000, 500_000]);
    assert_eq!(rates(&controller, "there"), vec![1_000_000, 2_000_000]);

    // Durations 2 s and 1 s at a blend of one quarter: 1.75 s.
    controller.set_param_value("mix", s(250_000));
    controller.update(s(3_000_000));
    frame(&mut controller, 0);
    assert_eq!(rates(&controller, "here"), vec![1_142_857, 571_428]);
    assert_eq!(rates(&controller, "there"), vec![1_000_000, 2_000_000]);
    let walk = &controller.states.get("here").unwrap().blend_tree.clip_nodes[0].clip;
    assert_eq!(walk.get_local_time(s(3_000_000)).raw, 3_000_000);

    // The target of a transition in flight is sampled too: 1.25 s there.
    controller.set_param_value("go", s(1));
    frame(&mut controller, 0);
    assert!(controller.transition.is_some());
    assert_eq!(rates(&controller, "there"), vec![800_000, 1_600_000]);
    assert_eq!(rates(&controller, "elsewhere"), vec![1_000_000, 500_000]);
}
