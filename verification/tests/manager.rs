use std::rc::Rc;

use skeletal_animation::animation::{AnimationClip, AnimationSample, DifferenceClipDef};
use skeletal_animation::controller::AnimationControllerDef;
use skeletal_animation::manager::{AssetError, AssetManager};
use skeletal_animation::scalar::Scalar;
use skeletal_animation::transform::{Matrix4, Transform, Vector2, Vector3};

/// A transform that only moves: by `x` and `y` millionths.
#[derive(Clone, Copy, Debug, PartialEq, Eq)]
struct Shift {
    x: i64,
    y: i64,
}

fn blend(a: i64, b: i64, t: Scalar) -> i64 {
    (a as i128 + ((b - a) as i128 * t.raw as i128).div_euclid(1_000_000)) as i64
}

impl Transform for Shift {
    fn spec_identity() -> Self {
        Self::identity()
    }
    fn spec_concat(self, other: Self) -> Self {
        self.concat(other)
    }
    fn spec_inverse(self) -> Self {
        self.inverse()
    }
    fn spec_lerp(self, other: Self, parameter: Scalar) -> Self {
        self.lerp(other, parameter)
    }
    fn spec_from_matrix(m: Matrix4) -> Self {
        Self::from_matrix(m)
    }
    fn spec_get_translation(self) -> Vector3 {
        self.get_translation()
    }
    fn spec_bend_bones(
        root_parent: Self,
        root: Self,
        middle: Self,
        effector: Self,
        target: Vector3,
        bend: Option<Vector3>,
        elbow: Vector2,
    ) -> (Self, Self) {
        Self::bend_bones(root_parent, root, middle, effector, target, bend, elbow)
    }
    fn identity() -> Self {
        Shift { x: 0, y: 0 }
    }
    fn concat(self, other: Self) -> Self {
        Shift { x: self.x + other.x, y: self.y + other.y }
    }
    fn inverse(self) -> Self {
        Shift { x: -self.x, y: -self.y }
    }
    fn lerp(self, other: Self, parameter: Scalar) -> Self {
        Shift { x: blend(self.x, other.x, parameter), y: blend(self.y, other.y, parameter) }
    }
    fn from_matrix(m: Matrix4) -> Self {
        Shift { x: m.rows[0][3].raw, y: m.rows[1][3].raw }
    }
    fn get_translation(self) -> Vector3 {
        Vector3 { x: Scalar::from_raw(self.x), y: Scalar::from_raw(self.y), z: Scalar::zero() }
    }
    fn bend_bones(
        root_parent: Self,
        root: Self,
        _middle: Self,
        _effector: Self,
        target: Vector3,
        _bend: Option<Vector3>,
        elbow: Vector2,
    ) -> (Self, Self) {
        // The bend plane of a chain that only moves in two dimensions: its first
        // axis points from the root to the target, its second is a quarter turn
        // to the left of the first.
        let (tx, ty) = ((target.x.raw - root.x) as f64, (target.y.raw - root.y) as f64);
        let reach = tx.hypot(ty);
        let (ex, ey) = (elbow.x.raw as f64, elbow.y.raw as f64);
        let middle = Shift {
            x: ((ex * tx - ey * ty) / reach).round() as i64,
            y: ((ex * ty + ey * tx) / reach).round() as i64,
        };
        (root_parent.inverse().concat(root), middle)
    }
}

fn s(raw: i64) -> Scalar {
    Scalar::from_raw(raw)
}

fn at(x: i64, y: i64) -> Shift {
    Shift { x, y }
}

fn clip(samples: &[&[i64]], samples_per_second: i64) -> AnimationClip<Shift> {
    AnimationClip {
        samples: samples
            .iter()
            .map(|xs| AnimationSample { local_poses: xs.iter().map(|&x| at(x, 0)).collect() })
            .collect(),
        samples_per_second: s(samples_per_second),
    }
}

fn difference(name: &str, source_clip: &str, reference_clip: &str) -> DifferenceClipDef {
    DifferenceClipDef {
        name: name.to_string(),
        source_clip: source_clip.to_string(),
        reference_clip: reference_clip.to_string(),
    }
}

fn manager() -> AssetManager<Shift> {
    let mut manager = AssetManager::new();
    manager.add_animation_clip("lean", clip(&[&[10, 20], &[30, 40], &[50, 60]], 3_000_000));
    manager.add_animation_clip("stand", clip(&[&[1, 2]], 1_000_000));
    manager.add_animation_clip("wave", clip(&[&[5, 5, 5]], 1_000_000));
    manager
}

fn poses(clip: &AnimationClip<Shift>) -> Vec<Vec<i64>> {
    clip.samples.iter().map(|s| s.local_poses.iter().map(|p| p.x).collect()).collect()
}

#[test]
fn new_manager_has_no_assets() {
    let manager: AssetManager<Shift> = AssetManager::new();
    assert_eq!(manager.animation_clips.len(), 0);
    assert_eq!(manager.controller_defs.len(), 0);
}

#[test]
fn clips_are_entered_by_name() {
    let mut manager = manager();
    assert_eq!(manager.animation_clips.len(), 3);
    assert_eq!(poses(manager.animation_clips.get("stand").unwrap()), vec![vec![1, 2]]);
    manager.add_animation_clip("stand", clip(&[&[7, 8]], 1_000_000));
    assert_eq!(manager.animation_clips.len(), 3);
    assert_eq!(poses(manager.animation_clips.get("stand").unwrap()), vec![vec![7, 8]]);
}

#[test]
fn difference_clip_is_made_of_loaded_clips() {
    let mut manager = manager();
    assert!(manager.add_difference_clip(&difference("lean-add", "lean", "stand")).is_ok());
    let made: &Rc<AnimationClip<Shift>> = manager.animation_clips.get("lean-add").unwrap();
    assert_eq!(poses(made), vec![vec![9, 18], vec![29, 38], vec![49, 58]]);
    assert_eq!(made.samples_per_second.raw, 3_000_000);
    assert_eq!(manager.animation_clips.len(), 4);
    // A difference clip can be the source of another.
    assert!(manager.add_difference_clip(&difference("lean", "lean-add", "wave")).is_ok());
    assert_eq!(poses(manager.animation_clips.get("lean").unwrap()), vec![vec![4, 13], vec![24, 33], vec![44, 53]]);
    assert_eq!(manager.animation_clips.len(), 4);
}

#[test]
fn difference_of_a_missing_clip_is_reported() {
    let mut manager = manager();
    let error = manager.add_difference_clip(&difference("x", "jump", "fall")).unwrap_err();
    assert!(matches!(error, AssetError::MissingClip(name) if name == "jump"));
    let error = manager.add_difference_clip(&difference("x", "lean", "fall")).unwrap_err();
    assert!(matches!(error, AssetError::MissingClip(name) if name == "fall"));
    assert_eq!(manager.animation_clips.len(), 3);
    assert!(manager.animation_clips.get("x").is_none());
}

#[test]
fn difference_to_a_narrower_reference_is_reported() {
    let mut manager = manager();
    let error = manager.add_difference_clip(&difference("x", "wave", "stand")).unwrap_err();
    assert!(matches!(error, AssetError::JointCountMismatch(name) if name == "x"));
    assert_eq!(manager.animation_clips.len(), 3);
}

#[test]
fn controller_definitions_are_entered_by_name() {
    let mut manager = manager();
    let def = |initial: &str| AnimationControllerDef {
        name: "human".to_string(),
        parameters: vec!["speed".to_string()],
        states: Vec::new(),
        initial_state: initial.to_string(),
    };
    manager.add_controller_def(def("idle"));
    assert_eq!(manager.controller_defs.get("human").unwrap().initial_state, "idle");
    manager.add_controller_def(def("walk"));
    assert_eq!(manager.controller_defs.len(), 1);
    assert_eq!(manager.controller_defs.get("human").unwrap().initial_state, "walk");
    assert_eq!(manager.animation_clips.len(), 3);
}
