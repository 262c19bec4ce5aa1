//! Data-driven skeletal animation: clip sampling, blend trees, two-bone
//! inverse kinematics and an animation state machine.
//!
//! The library computes the pose of a skeleton from animation clips that a
//! state machine selects and blends. It is agnostic of how a joint transform
//! is represented: a representation implements [`Transform`], and every
//! contract is stated over what that trait says of its operations. Times,
//! rates, parameters and lengths are fixed-point numbers ([`scalar::Scalar`]),
//! so that every decision of the library is exact.

pub mod animation;
pub mod blend_tree;
pub mod controller;
pub mod ik;
pub mod manager;
pub mod name_map;
pub mod scalar;
pub mod search;
pub mod skeleton;
pub mod transform;

pub use animation::{AnimationClip, AnimationSample};
pub use controller::AnimationController;
pub use manager::{AssetDefs, AssetManager};
pub use skeleton::Skeleton;
pub use transform::{FromTransform, Transform};
