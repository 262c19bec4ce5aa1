use std::rc::Rc;

use skeletal_animation::animation::{AnimationClip, AnimationSample};
use skeletal_animation::blend_tree::{
    find_unknown_param, joint_has_chain, new_identity_poses, node_kind, param_value, AnimBlendTree,
    AnimNode, AnimNodeHandle, BlendTreeError, BlendTreeNodeDef, BlendTreeNodeKind,
};
use skeletal_animation::name_map::NameMap;
use skeletal_animation::scalar::Scalar;
use skeletal_animation::skeleton::{Joint, Skeleton, ROOT_JOINT_PARENT_INDEX};
use skeletal_animation::transform::{Matrix4, Transform, Vector2, Vector3};

/// A transform that only moves: by `x` and `y` millionths.
#[derive(Clone, Copy, Debug, PartialEq, Eq)]
struct Shift {
    x: i64,
    y: i64,
}

fn blend(a: i64, b: i64, t: Scalar) -> i64 {
    (a as i128 + ((b - a) as i128 * t.raw as i128).div_euclid(1_000_000)) as i64
}

impl Transform for Shift {
    fn spec_identity() -> Self {
        Self::identity()
    }
    fn spec_concat(self, other: Self) -> Self {
        self.concat(other)
    }
    fn spec_inverse(self) -> Self {
        self.inverse()
    }
    fn spec_lerp(self, other: Self, parameter: Scalar) -> Self {
        self.lerp(other, parameter)
    }
    fn spec_from_matrix(m: Matrix4) -> Self {
        Self::from_matrix(m)
    }
    fn spec_get_translation(self) -> Vector3 {
        self.get_translation()
    }
    fn spec_bend_bones(
        root_parent: Self,
        root: Self,
        middle: Self,
        effector: Self,
        target: Vector3,
        bend: Option<Vector3>,
        elbow: Vector2,
    ) -> (Self, Self) {
        Self::bend_bones(root_parent, root, middle, effector, target, bend, elbow)
    }
    fn identity() -> Self {
        Shift { x: 0, y: 0 }
    }
    fn concat(self, other: Self) -> Self {
        Shift { x: self.x + other.x, y: self.y + other.y }
    }
    fn inverse(self) -> Self {
        Shift { x: -self.x, y: -self.y }
    }
    fn lerp(self, other: Self, parameter: Scalar) -> Self {
        Shift { x: blend(self.x, other.x, parameter), y: blend(self.y, other.y, parameter) }
    }
    fn from_matrix(m: Matrix4) -> Self {
        Shift { x: m.rows[0][3].raw, y: m.rows[1][3].raw }
    }
    fn get_translation(self) -> Vector3 {
        Vector3 { x: Scalar::from_raw(self.x), y: Scalar::from_raw(self.y), z: Scalar::zero() }
    }
    fn bend_bones(
        root_parent: Self,
        root: Self,
        _middle: Self,
        _effector: Self,
        target: Vector3,
        _bend: Option<Vector3>,
        elbow: Vector2,
    ) -> (Self, Self) {
        // The bend plane of a chain that only moves in two dimensions: its first
        // axis points from the root to the target, its second is a quarter turn
        // to the left of the first.
        let (tx, ty) = ((target.x.raw - root.x) as f64, (target.y.raw - root.y) as f64);
        let reach = tx.hypot(ty);
        let (ex, ey) = (elbow.x.raw as f64, elbow.y.raw as f64);
        let middle = Shift {
            x: ((ex * tx - ey * ty) / reach).round() as i64,
            y: ((ex * ty + ey * tx) / reach).round() as i64,
        };
        (root_parent.inverse().concat(root), middle)
    }
}

fn s(raw: i64) -> Scalar {
    Scalar::from_raw(raw)
}

fn at(x: i64, y: i64) -> Shift {
    Shift { x, y }
}

fn joint(name: &str, parent_index: u8) -> Joint {
    Joint {
        name: name.to_string(),
        parent_index,
        inverse_bind_pose: Matrix4 { rows: [[s(0); 4]; 4] },
    }
}

/// A shoulder at the origin with an elbow and a hand, each one unit along.
fn arm() -> Rc<Skeleton> {
    Rc::new(
        Skeleton::new(vec![
            joint("shoulder", ROOT_JOINT_PARENT_INDEX),
            joint("elbow", 0),
            joint("hand", 1),
        ])
        .unwrap(),
    )
}

fn clip(samples: &[[i64; 3]], samples_per_second: i64) -> Rc<AnimationClip<Shift>> {
    Rc::new(AnimationClip {
        samples: samples
            .iter()
            .map(|xs| AnimationSample { local_poses: xs.iter().map(|&x| at(x, 0)).collect() })
            .collect(),
        samples_per_second: s(samples_per_second),
    })
}

fn clips() -> NameMap<Rc<AnimationClip<Shift>>> {
    let mut clips = NameMap::new();
    clips.insert("rest", clip(&[[0, 1_000_000, 1_000_000]], 1_000_000));
    clips.insert("low", clip(&[[0, 100, 200]], 1_000_000));
    clips.insert("high", clip(&[[1000, 1100, 1200]], 1_000_000));
    clips.insert("walk", clip(&[[0, 0, 0], [10, 10, 10]], 1_000_000));
    clips.insert("run", clip(&[[0, 0, 0], [1, 1, 1], [2, 2, 2], [3, 3, 3]], 4_000_000));
    clips
}

fn params(values: &[(&str, i64)]) -> NameMap<Scalar> {
    let mut params = NameMap::new();
    for &(name, value) in values {
        params.insert(name, s(value));
    }
    params
}

fn clip_node(id: &str) -> Box<BlendTreeNodeDef> {
    Box::new(BlendTreeNodeDef::ClipNode(id.to_string()))
}

fn lerp_node(a: &str, b: &str) -> BlendTreeNodeDef {
    BlendTreeNodeDef::LerpNode(clip_node(a), clip_node(b), "blend".to_string())
}

fn additive_node(a: &str, b: &str) -> BlendTreeNodeDef {
    BlendTreeNodeDef::AdditiveNode(clip_node(a), clip_node(b), "blend".to_string())
}

fn ik_node(input: BlendTreeNodeDef, effector: &str) -> BlendTreeNodeDef {
    BlendTreeNodeDef::IKNode(
        Box::new(input),
        effector.to_string(),
        "ik".to_string(),
        "tx".to_string(),
        "ty".to_string(),
        "tz".to_string(),
        "bx".to_string(),
        "by".to_string(),
        "bz".to_string(),
    )
}

fn build(def: BlendTreeNodeDef) -> AnimBlendTree<Shift> {
    AnimBlendTree::from_def(def, &clips(), arm()).unwrap()
}

fn evaluate(tree: &AnimBlendTree<Shift>, time: i64, params: &NameMap<Scalar>) -> Vec<Shift> {
    let mut poses = vec![at(-5, -5); 4];
    tree.get_output_pose(s(time), params, &mut poses);
    poses
}

#[test]
fn tree_of_one_clip_shares_the_clip() {
    let clips = clips();
    let tree = AnimBlendTree::from_def(BlendTreeNodeDef::ClipNode("walk".to_string()), &clips, arm())
        .unwrap();
    assert_eq!(tree.root_node, AnimNodeHandle::ClipAnimNodeHandle(0));
    assert_eq!(tree.clip_nodes.len(), 1);
    assert!(tree.lerp_nodes.is_empty() && tree.additive_nodes.is_empty() && tree.ik_nodes.is_empty());
    let cursor = &tree.clip_nodes[0].clip;
    assert!(Rc::ptr_eq(&cursor.clip, clips.get("walk").unwrap()));
    assert_eq!(Rc::strong_count(clips.get("walk").unwrap()), 2);
    assert_eq!((cursor.start_time.raw, cursor.playback_rate.raw, cursor.time_offset.raw), (0, 1_000_000, 0));
}

#[test]
fn tree_nodes_are_added_inputs_first() {
    let def = BlendTreeNodeDef::LerpNode(
        clip_node("walk"),
        Box::new(ik_node(additive_node("rest", "run"), "hand")),
        "speed".to_string(),
    );
    let clips = clips();
    let tree = AnimBlendTree::from_def(def, &clips, arm()).unwrap();
    assert_eq!(tree.root_node, AnimNodeHandle::LerpAnimNodeHandle(0));
    assert_eq!(tree.lerp_nodes[0].input_1, AnimNodeHandle::ClipAnimNodeHandle(0));
    assert_eq!(tree.lerp_nodes[0].input_2, AnimNodeHandle::IKAnimNodeHandle(0));
    assert_eq!(tree.lerp_nodes[0].blend_param, "speed");
    assert_eq!(tree.ik_nodes[0].input, AnimNodeHandle::AdditiveAnimNodeHandle(0));
    assert_eq!(tree.ik_nodes[0].effector_bone_index, 2);
    assert_eq!(tree.ik_nodes[0].blend_param, "ik");
    assert_eq!(tree.ik_nodes[0].target_y_param, "ty");
    assert_eq!(tree.ik_nodes[0].bend_z_param, "bz");
    assert_eq!(tree.additive_nodes[0].base_input, AnimNodeHandle::ClipAnimNodeHandle(1));
    assert_eq!(tree.additive_nodes[0].additive_input, AnimNodeHandle::ClipAnimNodeHandle(2));
    assert_eq!(tree.additive_nodes[0].blend_param, "blend");
    let played: Vec<bool> = ["walk", "rest", "run"]
        .iter()
        .zip(&tree.clip_nodes)
        .map(|(name, node)| Rc::ptr_eq(&node.clip.clip, clips.get(name).unwrap()))
        .collect();
    assert_eq!(played, vec![true, true, true]);
}

#[test]
fn definition_clone_is_equal() {
    let def = ik_node(lerp_node("walk", "run"), "hand");
    assert_eq!(format!("{:?}", def.clone()), format!("{:?}", def));
}

#[test]
fn missing_clip_is_reported() {
    let error = AnimBlendTree::<Shift>::from_def(lerp_node("walk", "swim"), &clips(), arm()).err();
    assert!(matches!(error, Some(BlendTreeError::MissingClip(id)) if id == "swim"));
    // The first fault counts.
    let error = AnimBlendTree::<Shift>::from_def(lerp_node("fly", "swim"), &clips(), arm()).err();
    assert!(matches!(error, Some(BlendTreeError::MissingClip(id)) if id == "fly"));
    let def = ik_node(BlendTreeNodeDef::ClipNode("fly".to_string()), "tail");
    let error = AnimBlendTree::<Shift>::from_def(def, &clips(), arm()).err();
    assert!(matches!(error, Some(BlendTreeError::MissingClip(id)) if id == "fly"));
}

#[test]
fn clip_for_a_larger_skeleton_is_reported() {
    let mut clips = clips();
    clips.insert(
        "wide",
        Rc::new(AnimationClip {
            samples: vec![AnimationSample { local_poses: vec![at(0, 0); 4] }],
            samples_per_second: s(1_000_000),
        }),
    );
    let error =
        AnimBlendTree::from_def(BlendTreeNodeDef::ClipNode("wide".to_string()), &clips, arm()).err();
    assert!(matches!(error, Some(BlendTreeError::ClipTooWide(id)) if id == "wide"));
}

#[test]
fn unknown_effector_is_reported() {
    let def = ik_node(BlendTreeNodeDef::ClipNode("rest".to_string()), "tail");
    let error = AnimBlendTree::<Shift>::from_def(def, &clips(), arm()).err();
    assert!(matches!(error, Some(BlendTreeError::UnknownJoint(name)) if name == "tail"));
}

#[test]
fn effector_without_two_bones_is_reported() {
    for effector in ["shoulder", "elbow"] {
        let def = ik_node(BlendTreeNodeDef::ClipNode("rest".to_string()), effector);
        let error = AnimBlendTree::<Shift>::from_def(def, &clips(), arm()).err();
        assert!(matches!(error, Some(BlendTreeError::NoChain(name)) if name == effector));
    }
    let skeleton = arm();
    assert!(joint_has_chain(&skeleton, 2));
    assert!(!joint_has_chain(&skeleton, 1));
    assert!(!joint_has_chain(&skeleton, 0));
    assert!(!joint_has_chain(&skeleton, 3));
    assert!(!joint_has_chain(&skeleton, 255));
}

#[test]
fn clip_node_writes_the_front_of_the_buffer() {
    let tree = build(BlendTreeNodeDef::ClipNode("walk".to_string()));
    assert_eq!(evaluate(&tree, 250_000, &params(&[])), vec![at(2, 0), at(2, 0), at(2, 0), at(-5, -5)]);
    assert_eq!(evaluate(&tree, 1_500_000, &params(&[])), vec![at(5, 0), at(5, 0), at(5, 0), at(-5, -5)]);
}

#[test]
fn tree_without_root_leaves_the_buffer() {
    let mut tree = build(BlendTreeNodeDef::ClipNode("walk".to_string()));
    tree.root_node = AnimNodeHandle::Null;
    assert_eq!(evaluate(&tree, 250_000, &params(&[])), vec![at(-5, -5); 4]);
}

#[test]
fn lerp_node_blends_its_inputs() {
    let tree = build(lerp_node("low", "high"));
    assert_eq!(
        evaluate(&tree, 0, &params(&[("blend", 250_000)])),
        vec![at(250, 0), at(350, 0), at(450, 0), at(-2, -2)]
    );
}

#[test]
fn lerp_node_at_zero_is_first_input() {
    let tree = build(lerp_node("walk", "run"));
    let first = build(BlendTreeNodeDef::ClipNode("walk".to_string()));
    let blend = params(&[("blend", 0)]);
    for time in [0, 123_456, 999_999, 1_000_000, 7_654_321, -333_333] {
        let mut expected = new_identity_poses::<Shift>(4);
        first.get_output_pose(s(time), &blend, &mut expected);
        assert_eq!(evaluate(&tree, time, &blend), expected);
    }
}

#[test]
fn lerp_node_at_one_is_second_input() {
    let tree = build(lerp_node("walk", "run"));
    let second = build(BlendTreeNodeDef::ClipNode("run".to_string()));
    let blend = params(&[("blend", 1_000_000)]);
    for time in [0, 123_456, 999_999, 1_000_000, 7_654_321, -333_333] {
        assert_eq!(evaluate(&tree, time, &blend), evaluate(&second, time, &blend));
    }
}

#[test]
fn additive_node_adds_blended_input_to_base() {
    let tree = build(additive_node("low", "high"));
    assert_eq!(
        evaluate(&tree, 0, &params(&[("blend", 500_000)])),
        vec![at(500, 0), at(650, 0), at(800, 0), at(-3, -3)]
    );
    assert_eq!(
        evaluate(&tree, 0, &params(&[("blend", 1_000_000)])),
        vec![at(1000, 0), at(1200, 0), at(1400, 0), at(-5, -5)]
    );
}

#[test]
fn additive_node_at_zero_is_base_input() {
    let tree = build(additive_node("walk", "high"));
    let base = build(BlendTreeNodeDef::ClipNode("walk".to_string()));
    let blend = params(&[("blend", 0)]);
    for time in [0, 250_000, 1_750_000, -1] {
        let mut expected = new_identity_poses::<Shift>(4);
        base.get_output_pose(s(time), &blend, &mut expected);
        assert_eq!(evaluate(&tree, time, &blend), expected);
    }
}

fn ik_params(blend: i64, target: (i64, i64)) -> NameMap<Scalar> {
    params(&[("ik", blend), ("tx", target.0), ("ty", target.1), ("tz", 0), ("bx", 0), ("by", 0), ("bz", 0)])
}

#[test]
fn ik_node_reaches_a_target_in_reach() {
    let tree = build(ik_node(BlendTreeNodeDef::ClipNode("rest".to_string()), "hand"));
    let poses = evaluate(&tree, 0, &ik_params(1_000_000, (1_000_000, 1_000_000)));
    // The elbow is raised; the hand keeps its own local pose.
    assert_eq!(poses, vec![at(0, 0), at(-1, 1_000_000), at(1_000_000, 0), at(-5, -5)]);
    let mut global = vec![at(0, 0); 4];
    tree.skeleton.calculate_global_poses(&poses, &mut global);
    // The hand is at the target, to the last digit but one.
    assert_eq!(global[2], at(999_999, 1_000_000));
}

#[test]
fn ik_node_leaves_pose_where_target_is_out_of_reach() {
    let tree = build(ik_node(BlendTreeNodeDef::ClipNode("rest".to_string()), "hand"));
    let poses = evaluate(&tree, 0, &ik_params(1_000_000, (3_000_000, 0)));
    assert_eq!(poses, vec![at(0, 0), at(1_000_000, 0), at(1_000_000, 0), at(-5, -5)]);
}

#[test]
fn ik_node_blends_with_its_input() {
    let tree = build(ik_node(BlendTreeNodeDef::ClipNode("rest".to_string()), "hand"));
    let target = (1_000_000, 1_000_000);
    let poses = evaluate(&tree, 0, &ik_params(500_000, target));
    assert_eq!(poses, vec![at(0, 0), at(499_999, 500_000), at(1_000_000, 0), at(-5, -5)]);
    let poses = evaluate(&tree, 0, &ik_params(0, target));
    assert_eq!(poses, vec![at(0, 0), at(1_000_000, 0), at(1_000_000, 0), at(-5, -5)]);
}

#[test]
fn synchronize_brings_two_clips_to_one_duration() {
    let mut tree = build(lerp_node("walk", "run"));
    // Durations 2 s and 1 s, blended three to one: 1.75 s.
    tree.synchronize(s(3_000_000), &params(&[("blend", 250_000)]));
    let walk = &tree.clip_nodes[0].clip;
    let run = &tree.clip_nodes[1].clip;
    assert_eq!(walk.playback_rate.raw, 1_142_857);
    assert_eq!(run.playback_rate.raw, 571_428);
    assert_eq!(walk.time_offset.raw, -428_571);
    assert_eq!(run.time_offset.raw, 1_285_716);
    assert_eq!(walk.get_local_time(s(3_000_000)).raw, 3_000_000);
    assert_eq!(run.get_local_time(s(3_000_000)).raw, 3_000_000);
}

#[test]
fn synchronize_at_the_ends_of_the_blend() {
    let mut tree = build(lerp_node("walk", "run"));
    tree.synchronize(s(0), &params(&[("blend", 0)]));
    assert_eq!(tree.clip_nodes[0].clip.playback_rate.raw, 1_000_000);
    assert_eq!(tree.clip_nodes[1].clip.playback_rate.raw, 500_000);
    tree.synchronize(s(0), &params(&[("blend", 1_000_000)]));
    assert_eq!(tree.clip_nodes[0].clip.playback_rate.raw, 2_000_000);
    assert_eq!(tree.clip_nodes[1].clip.playback_rate.raw, 1_000_000);
}

#[test]
fn synchronize_passes_over_other_nodes() {
    let def = BlendTreeNodeDef::LerpNode(
        clip_node("walk"),
        Box::new(additive_node("rest", "run")),
        "blend".to_string(),
    );
    let mut tree = build(def);
    tree.synchronize(s(1_000_000), &params(&[("blend", 500_000)]));
    for node in &tree.clip_nodes {
        assert_eq!((node.clip.playback_rate.raw, node.clip.time_offset.raw), (1_000_000, 0));
    }
}

#[test]
fn first_unknown_parameter_is_found() {
    let def = BlendTreeNodeDef::LerpNode(
        Box::new(ik_node(lerp_node("walk", "run"), "hand")),
        clip_node("rest"),
        "speed".to_string(),
    );
    fn unknown(def: &BlendTreeNodeDef, known: &[&str]) -> Option<String> {
        let values: Vec<(&str, i64)> = known.iter().map(|&name| (name, 0)).collect();
        find_unknown_param(def, &params(&values))
    }
    assert_eq!(unknown(&def, &[]), Some("blend".to_string()));
    assert_eq!(unknown(&def, &["blend"]), Some("ik".to_string()));
    assert_eq!(unknown(&def, &["blend", "ik", "ty"]), Some("tx".to_string()));
    assert_eq!(unknown(&def, &["blend", "ik", "tx", "ty", "tz", "bx", "bz"]), Some("by".to_string()));
    assert_eq!(
        unknown(&def, &["blend", "ik", "tx", "ty", "tz", "bx", "by", "bz"]),
        Some("speed".to_string())
    );
    assert_eq!(unknown(&def, &["blend", "ik", "tx", "ty", "tz", "bx", "by", "bz", "speed"]), None);
    assert_eq!(unknown(&BlendTreeNodeDef::ClipNode("fly".to_string()), &[]), None);
}

#[test]
fn node_kinds_by_name() {
    assert_eq!(node_kind("LerpNode"), Some(BlendTreeNodeKind::Lerp));
    assert_eq!(node_kind("AdditiveNode"), Some(BlendTreeNodeKind::Additive));
    assert_eq!(node_kind("IKNode"), Some(BlendTreeNodeKind::IK));
    assert_eq!(node_kind("ClipNode"), Some(BlendTreeNodeKind::Clip));
    assert_eq!(node_kind("lerpnode"), None);
    assert_eq!(node_kind(""), None);
}

#[test]
fn parameter_value_by_name() {
    let params = params(&[("a", 1), ("b", -2)]);
    assert_eq!(param_value(&params, &"b".to_string()).raw, -2);
    assert_eq!(param_value(&params, &"a".to_string()).raw, 1);
}

#[test]
fn nodes_evaluate_within_their_tree() {
    let def = BlendTreeNodeDef::LerpNode(
        Box::new(additive_node("low", "high")),
        Box::new(ik_node(BlendTreeNodeDef::ClipNode("rest".to_string()), "hand")),
        "blend".to_string(),
    );
    let tree = build(def);
    let mut values = ik_params(1_000_000, (1_000_000, 1_000_000));
    values.insert("blend", s(500_000));
    let time = s(0);

    let mut poses = vec![at(9, 9); 3];
    tree.clip_nodes[0].get_output_pose(&tree, time, &values, &mut poses);
    assert_eq!(poses, vec![at(0, 0), at(100, 0), at(200, 0)]);

    let mut poses = vec![at(9, 9); 3];
    tree.additive_nodes[0].get_output_pose(&tree, time, &values, &mut poses);
    assert_eq!(poses, vec![at(500, 0), at(650, 0), at(800, 0)]);

    let mut poses = vec![at(9, 9); 3];
    tree.ik_nodes[0].get_output_pose(&tree, time, &values, &mut poses);
    assert_eq!(poses, vec![at(0, 0), at(-1, 1_000_000), at(1_000_000, 0)]);

    let mut poses = vec![at(9, 9); 3];
    tree.lerp_nodes[0].get_output_pose(&tree, time, &values, &mut poses);
    assert_eq!(poses, vec![at(250, 0), at(324, 500_000), at(500_400, 0)]);
    let mut whole = vec![at(9, 9); 3];
    tree.get_output_pose(time, &values, &mut whole);
    assert_eq!(whole, poses);
}

#[test]
fn nodes_are_pushed_to_the_end_of_their_arena() {
    let mut tree = build(lerp_node("walk", "run"));
    let clip = tree.push_clip_node(clips().get("rest").unwrap().clone());
    assert_eq!(clip, AnimNodeHandle::ClipAnimNodeHandle(2));
    let additive = tree.push_additive_node(clip, tree.root_node, "blend".to_string());
    assert_eq!(additive, AnimNodeHandle::AdditiveAnimNodeHandle(0));
    let lerp = tree.push_lerp_node(additive, clip, "mix".to_string());
    assert_eq!(lerp, AnimNodeHandle::LerpAnimNodeHandle(1));
    assert_eq!(tree.root_node, AnimNodeHandle::LerpAnimNodeHandle(0));
    assert_eq!(tree.lerp_nodes[1].input_1, additive);
    assert_eq!(tree.lerp_nodes[1].input_2, clip);
    assert_eq!(tree.additive_nodes[0].additive_input, AnimNodeHandle::LerpAnimNodeHandle(0));

    let values = params(&[("blend", 1_000_000), ("mix", 0)]);
    let mut poses = vec![at(0, 0); 3];
    tree.get_node_output_pose(lerp, s(500_000), &values, &mut poses);
    // The rest pose with the run clip, half a second in, on top.
    assert_eq!(poses, vec![at(2, 0), at(1_000_002, 0), at(1_000_002, 0)]);
}

#[test]
fn ik_node_bends_a_chain_that_hangs_on_a_parent() {
    let skeleton = Rc::new(
        Skeleton::new(vec![
            joint("hip", ROOT_JOINT_PARENT_INDEX),
            joint("shoulder", 0),
            joint("elbow", 1),
            joint("hand", 2),
        ])
        .unwrap(),
    );
    let mut clips = NameMap::new();
    clips.insert(
        "rest",
        Rc::new(AnimationClip {
            samples: vec![AnimationSample {
                local_poses: vec![at(5_000_000, -2_000_000), at(0, 0), at(3_000_000, 0), at(0, -4_000_000)],
            }],
            samples_per_second: s(1_000_000),
        }),
    );
    let def = ik_node(BlendTreeNodeDef::ClipNode("rest".to_string()), "hand");
    let tree = AnimBlendTree::from_def(def, &clips, skeleton).unwrap();
    // Bones of 3 and 4 reach a target 5 away with a right angle at the elbow.
    let mut poses = vec![at(0, 0); 4];
    tree.get_output_pose(s(0), &ik_params(1_000_000, (10_000_000, -2_000_000)), &mut poses);
    assert_eq!(poses, vec![at(5_000_000, -2_000_000), at(0, 0), at(1_800_000, 2_400_000), at(0, -4_000_000)]);
    // A target 8 away is out of reach.
    let mut poses = vec![at(0, 0); 4];
    tree.get_output_pose(s(0), &ik_params(1_000_000, (13_000_000, -2_000_000)), &mut poses);
    assert_eq!(poses, vec![at(5_000_000, -2_000_000), at(0, 0), at(3_000_000, 0), at(0, -4_000_000)]);
    // So is a target at the root of the chain.
    let mut poses = vec![at(0, 0); 4];
    tree.get_output_pose(s(0), &ik_params(1_000_000, (5_000_000, -2_000_000)), &mut poses);
    assert_eq!(poses, vec![at(5_000_000, -2_000_000), at(0, 0), at(3_000_000, 0), at(0, -4_000_000)]);
}
