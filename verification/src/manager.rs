//! The clips and controller definitions that an application has loaded,
//! by name.

use std::rc::Rc;
use vstd::prelude::*;
use crate::animation::{is_difference_clip, AnimationClip, AnimationClipDef, DifferenceClipDef};
use crate::blend_tree::clips_wf;
use crate::controller::AnimationControllerDef;
use crate::name_map::NameMap;
use crate::transform::Transform;

verus! {

/// The asset definitions of one definition file.
#[derive(Debug)]
pub struct AssetDefs {
    pub animation_clips: Option<Vec<AnimationClipDef>>,
    pub difference_clips: Option<Vec<DifferenceClipDef>>,
    pub animation_controllers: Option<Vec<AnimationControllerDef>>,
}

/// Why a difference clip cannot be made.
#[derive(Debug)]
pub enum AssetError {
    /// No clip of this name has been loaded.
    MissingClip(String),
    /// The source clip of the difference clip of this name poses more
    /// joints than its reference clip.
    JointCountMismatch(String),
}

/// What is at fault in the definition of a difference clip.
pub enum AssetFault {
    MissingClip(Seq<char>),
    JointCountMismatch(Seq<char>),
}

impl View for AssetError {
    type V = AssetFault;

    open spec fn view(&self) -> AssetFault {
        match self {
            AssetError::MissingClip(name) => AssetFault::MissingClip(name@),
            AssetError::JointCountMismatch(name) => AssetFault::JointCountMismatch(name@),
        }
    }
}

/// The assets that have been loaded.
pub struct AssetManager<T: Transform> {
    /// The animation clips, by name.
    pub animation_clips: NameMap<Rc<AnimationClip<T>>>,
    /// The controller definitions, by name.
    pub controller_defs: NameMap<AnimationControllerDef>,
}

impl<T: Transform> AssetManager<T> {
    /// No name occurs twice, and every clip has samples.
    pub open spec fn wf(&self) -> bool {
        &&& self.animation_clips.wf()
        &&& self.controller_defs.wf()
        &&& clips_wf(self.animation_clips)
    }

    /// What is at fault in `def`, given the clips that are loaded: the
    /// source clip if it is missing, else the reference clip if it is
    /// missing, else the joint counts of the two if they do not go together.
    pub open spec fn difference_fault(&self, def: DifferenceClipDef) -> Option<AssetFault> {
        if !self.animation_clips.contains(def.source_clip@) {
            Some(AssetFault::MissingClip(def.source_clip@))
        } else if !self.animation_clips.contains(def.reference_clip@) {
            Some(AssetFault::MissingClip(def.reference_clip@))
        } else if self.animation_clips.value(def.source_clip@).joint_count()
            > self.animation_clips.value(def.reference_clip@).joint_count() {
            Some(AssetFault::JointCountMismatch(def.name@))
        } else {
            None
        }
    }

    /// A manager without assets.
    pub fn new() -> (r: AssetManager<T>)
        ensures
            r.wf(),
            forall|name: Seq<char>| !r.animation_clips.contains(name),
            forall|name: Seq<char>| !r.controller_defs.contains(name),
    {
        AssetManager { animation_clips: NameMap::new(), controller_defs: NameMap::new() }
    }

    /// Enters `clip` under `name`, in place of the clip that had the name,
    /// if any.
    pub fn add_animation_clip(&mut self, name: &str, clip: AnimationClip<T>)
        requires
            old(self).wf(),
            clip.wf(),
        ensures
            final(self).wf(),
            final(self).controller_defs == old(self).controller_defs,
            final(self).animation_clips.contains(name@),
            *final(self).animation_clips.value(name@) == clip,
            forall|other: Seq<char>|
                other != name@
                    ==> final(self).animation_clips.contains(other)
                    == old(self).animation_clips.contains(other),
            forall|other: Seq<char>|
                other != name@ && old(self).animation_clips.contains(other)
                    ==> final(self).animation_clips.value(other)
                    == old(self).animation_clips.value(other),
    {
        let ghost before = self.animation_clips;
        self.animation_clips.insert(name, Rc::new(clip));
        proof {
            assert forall|i: int| 0 <= i < self.animation_clips.values@.len() implies (
            #[trigger] self.animation_clips.values@[i]).wf() by {
                let entry = self.animation_clips.names@[i]@;
                self.animation_clips.lemma_position(i);
                if entry != name@ {
                    let p = before.position(entry);
                    assert(before.values@[p].wf());
                }
            }
        }
    }

    /// Makes the difference clip that `def` defines of two clips that are
    /// loaded, and enters it under its name.
    pub fn add_difference_clip(&mut self, def: &DifferenceClipDef) -> (r: Result<(), AssetError>)
        requires
            old(self).wf(),
        ensures
            final(self).wf(),
            final(self).controller_defs == old(self).controller_defs,
            match r {
                Ok(()) => {
                    &&& old(self).difference_fault(*def) is None
                    &&& final(self).animation_clips.contains(def.name@)
                    &&& is_difference_clip(
                        *final(self).animation_clips.value(def.name@),
                        *old(self).animation_clips.value(def.source_clip@),
                        *old(self).animation_clips.value(def.reference_clip@),
                    )
                    &&& forall|other: Seq<char>|
                        other != def.name@
                            ==> final(self).animation_clips.contains(other)
                            == old(self).animation_clips.contains(other)
                    &&& forall|other: Seq<char>|
                        other != def.name@ && old(self).animation_clips.contains(other)
                            ==> final(self).animation_clips.value(other)
                            == old(self).animation_clips.value(other)
                },
                Err(error) => {
                    &&& old(self).difference_fault(*def) == Some(error@)
                    &&& final(self).animation_clips == old(self).animation_clips
                },
            },
    {
        let clip = {
            let source_clip = match self.animation_clips.get(def.source_clip.as_str()) {
                Some(clip) => clip,
                None => {
                    return Err(AssetError::MissingClip(def.source_clip.clone()));
                },
            };
            let reference_clip = match self.animation_clips.get(def.reference_clip.as_str()) {
                Some(clip) => clip,
                None => {
                    return Err(AssetError::MissingClip(def.reference_clip.clone()));
                },
            };
            proof {
                let s = self.animation_clips.position(def.source_clip@);
                let r = self.animation_clips.position(def.reference_clip@);
                assert(self.animation_clips.values@[s].wf());
                assert(self.animation_clips.values@[r].wf());
            }
            if source_clip.samples[0].local_poses.len() > reference_clip.samples[0].local_poses.len() {
                return Err(AssetError::JointCountMismatch(def.name.clone()));
            }
            AnimationClip::as_difference_clip(source_clip, reference_clip)
        };
        self.add_animation_clip(def.name.as_str(), clip);
        Ok(())
    }

    /// Enters `def` under its name, in place of the definition that had
    /// the name, if any.
    pub fn add_controller_def(&mut self, def: AnimationControllerDef)
        requires
            old(self).wf(),
        ensures
            final(self).wf(),
            final(self).animation_clips == old(self).animation_clips,
            final(self).controller_defs.contains(def.name@),
            final(self).controller_defs.value(def.name@) == def,
            forall|other: Seq<char>|
                other != def.name@
                    ==> final(self).controller_defs.contains(other)
                    == old(self).controller_defs.contains(other),
            forall|other: Seq<char>|
                other != def.name@ && old(self).controller_defs.contains(other)
                    ==> final(self).controller_defs.value(other)
                    == old(self).controller_defs.value(other),
    {
        let name = def.name.clone();
        self.controller_defs.insert(name.as_str(), def);
    }
}

} // verus!
