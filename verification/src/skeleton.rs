//! The joint hierarchy and the resolution of global poses.

use vstd::prelude::*;
use crate::transform::{FromTransform, Matrix4, Transform};

verus! {

/// The position of a joint in its skeleton.
pub type JointIndex = u8;

/// The parent index of a joint that has no parent.
pub const ROOT_JOINT_PARENT_INDEX: JointIndex = 255u8;

/// A node of the hierarchy of a skeleton.
#[derive(Debug)]
pub struct Joint {
    /// Name of the joint.
    pub name: String,
    /// Index of the parent joint in the skeleton, or the root sentinel.
    pub parent_index: JointIndex,
    /// Matrix taking vertex coordinates from model space to joint space.
    pub inverse_bind_pose: Matrix4,
}

impl Clone for Joint {
    fn clone(&self) -> (r: Self)
        ensures
            r == *self,
    {
        Joint {
            name: self.name.clone(),
            parent_index: self.parent_index,
            inverse_bind_pose: self.inverse_bind_pose,
        }
    }
}

impl Joint {
    /// Whether the joint has no parent.
    pub open spec fn spec_is_root(&self) -> bool {
        self.parent_index == ROOT_JOINT_PARENT_INDEX
    }

    /// Whether the joint has no parent.
    pub fn is_root(&self) -> (r: bool)
        ensures
            r == self.spec_is_root(),
    {
        self.parent_index == ROOT_JOINT_PARENT_INDEX
    }
}

/// Whether the joint at `index` of `joints` is a root or names an earlier
/// joint as its parent.
pub open spec fn parent_precedes(joints: Seq<Joint>, index: int) -> bool {
    joints[index].spec_is_root() || (joints[index].parent_index as int) < index
}

/// The position of the first joint of `joints` called `name`.
pub open spec fn first_named(joints: Seq<Joint>, name: Seq<char>) -> Option<int>
    decreases joints.len(),
{
    if joints.len() == 0 {
        None
    } else {
        match first_named(joints.drop_last(), name) {
            Some(i) => Some(i),
            None => if joints.last().name@ == name {
                Some(joints.len() - 1)
            } else {
                None
            },
        }
    }
}

/// The first joint called `name` is the one before which no joint is
/// called so.
pub proof fn lemma_first_named(joints: Seq<Joint>, name: Seq<char>, index: int)
    requires
        0 <= index <= joints.len(),
        forall|j: int| 0 <= j < index ==> joints[j].name@ != name,
        index < joints.len() ==> joints[index].name@ == name,
    ensures
        index < joints.len() ==> first_named(joints, name) == Some(index),
        index == joints.len() ==> first_named(joints, name) is None,
    decreases joints.len(),
{
    if joints.len() > 0 {
        let front = joints.drop_last();
        if index < front.len() {
            lemma_first_named(front, name, index);
        } else {
            lemma_first_named(front, name, front.len() as int);
        }
    }
}

/// Why a list of joints is no skeleton.
#[derive(Clone, Copy, Debug, PartialEq, Eq, Structural)]
pub enum SkeletonError {
    /// More joints than a joint index can tell apart from the root sentinel.
    TooManyJoints,
    /// The joint at this index names itself or a later joint as its parent.
    ParentNotBefore(usize),
}

/// A hierarchy of joints, in an order in which every parent stands before
/// its children.
#[derive(Debug)]
pub struct Skeleton {
    /// All joints of the skeleton, each parent before its children.
    pub joints: Vec<Joint>,
}

impl Clone for Skeleton {
    fn clone(&self) -> (r: Self)
        ensures
            r.joints@ == self.joints@,
    {
        let mut joints: Vec<Joint> = Vec::new();
        let mut i: usize = 0;
        while i < self.joints.len()
            invariant
                i <= self.joints@.len(),
                joints@.len() == i,
                forall|j: int| 0 <= j < i ==> joints@[j] == self.joints@[j],
            decreases self.joints@.len() - i,
        {
            joints.push(self.joints[i].clone());
            i += 1;
        }
        assert(joints@ =~= self.joints@);
        Skeleton { joints }
    }
}

impl Skeleton {
    /// Every joint index fits below the root sentinel, and every parent
    /// stands before its children.
    pub open spec fn wf(&self) -> bool {
        &&& self.joints@.len() <= ROOT_JOINT_PARENT_INDEX
        &&& forall|i: int| 0 <= i < self.joints@.len() ==> parent_precedes(self.joints@, i)
    }

    /// The global pose of joint `index` under the local poses `local`: the
    /// local pose for a root, else the parent's global pose followed by the
    /// local pose.
    pub open spec fn spec_global_pose<T: Transform>(&self, local: Seq<T>, index: int) -> T
        decreases index,
    {
        let parent = self.joints@[index].parent_index as int;
        if 0 <= parent < index && !self.joints@[index].spec_is_root() {
            self.spec_global_pose(local, parent).spec_concat(local[index])
        } else {
            local[index]
        }
    }

    /// The global pose of joint `index` in the representation `U`, under
    /// the local poses `local`: as [`Self::spec_global_pose`], with every
    /// local pose converted first.
    pub open spec fn spec_converted_global_pose<T: Transform, U: Transform + FromTransform<T>>(
        &self,
        local: Seq<T>,
        index: int,
    ) -> U
        decreases index,
    {
        let own = U::spec_from_transform(local[index]);
        let parent = self.joints@[index].parent_index as int;
        if 0 <= parent < index && !self.joints@[index].spec_is_root() {
            self.spec_converted_global_pose::<T, U>(local, parent).spec_concat(own)
        } else {
            own
        }
    }

    /// A skeleton of `joints`, if they stand in hierarchy order.
    pub fn new(joints: Vec<Joint>) -> (r: Result<Skeleton, SkeletonError>)
        ensures
            match r {
                Ok(skeleton) => skeleton.joints == joints && skeleton.wf(),
                Err(SkeletonError::TooManyJoints) => joints@.len() > ROOT_JOINT_PARENT_INDEX,
                Err(SkeletonError::ParentNotBefore(i)) => {
                    &&& joints@.len() <= ROOT_JOINT_PARENT_INDEX
                    &&& i < joints@.len()
                    &&& !parent_precedes(joints@, i as int)
                    &&& forall|j: int| 0 <= j < i ==> parent_precedes(joints@, j)
                },
            },
    {
        if joints.len() > ROOT_JOINT_PARENT_INDEX as usize {
            return Err(SkeletonError::TooManyJoints);
        }
        let mut i: usize = 0;
        while i < joints.len()
            invariant
                i <= joints@.len() <= ROOT_JOINT_PARENT_INDEX,
                forall|j: int| 0 <= j < i ==> parent_precedes(joints@, j),
            decreases joints@.len() - i,
        {
            let joint = &joints[i];
            if !joint.is_root() && joint.parent_index as usize >= i {
                return Err(SkeletonError::ParentNotBefore(i));
            }
            i += 1;
        }
        Ok(Skeleton { joints })
    }

    /// The position of the joint called `name`, if there is one. Of several
    /// joints of that name, the first.
    pub fn get_joint_index(&self, name: &str) -> (r: Option<JointIndex>)
        requires
            self.joints@.len() <= ROOT_JOINT_PARENT_INDEX,
        ensures
            r == self.spec_joint_index(name@),
    {
        let key: String = name.to_owned();
        let mut i: usize = 0;
        while i < self.joints.len()
            invariant
                key@ == name@,
                i <= self.joints@.len() <= ROOT_JOINT_PARENT_INDEX,
                forall|j: int| 0 <= j < i ==> self.joints@[j].name@ != name@,
            decreases self.joints@.len() - i,
        {
            if self.joints[i].name == key {
                proof {
                    lemma_first_named(self.joints@, name@, i as int);
                }
                return Some(i as JointIndex);
            }
            i += 1;
        }
        proof {
            lemma_first_named(self.joints@, name@, self.joints@.len() as int);
        }
        None
    }

    /// The position of the first joint called `name`.
    pub open spec fn spec_joint_index(&self, name: Seq<char>) -> Option<JointIndex> {
        match first_named(self.joints@, name) {
            Some(i) => Some(i as JointIndex),
            None => None,
        }
    }

    /// Resolves the global pose of every joint from the local poses, in
    /// storage order. Entries of `global_poses` beyond the joints are left
    /// as they were.
    pub fn calculate_global_poses<T: Transform>(
        &self,
        local_poses: &Vec<T>,
        global_poses: &mut Vec<T>,
    )
        requires
            self.wf(),
            local_poses@.len() >= self.joints@.len(),
            old(global_poses)@.len() >= self.joints@.len(),
        ensures
            final(global_poses)@.len() == old(global_poses)@.len(),
            forall|i: int|
                0 <= i < self.joints@.len() ==> final(global_poses)@[i] == self.spec_global_pose(
                    local_poses@,
                    i,
                ),
            forall|i: int|
                self.joints@.len() <= i < old(global_poses)@.len() ==> final(global_poses)@[i]
                    == old(global_poses)@[i],
    {
        let mut i: usize = 0;
        while i < self.joints.len()
            invariant
                self.wf(),
                i <= self.joints@.len(),
                local_poses@.len() >= self.joints@.len(),
                global_poses@.len() == old(global_poses)@.len(),
                global_poses@.len() >= self.joints@.len(),
                forall|j: int|
                    0 <= j < i ==> global_poses@[j] == self.spec_global_pose(local_poses@, j),
                forall|j: int|
                    self.joints@.len() <= j < global_poses@.len()
                        ==> global_poses@[j] == old(global_poses)@[j],
            decreases self.joints@.len() - i,
        {
            let joint = &self.joints[i];
            let own = local_poses[i];
            assert(parent_precedes(self.joints@, i as int));
            let pose = if joint.is_root() {
                own
            } else {
                let parent = global_poses[joint.parent_index as usize];
                parent.concat(own)
            };
            global_poses[i] = pose;
            i += 1;
        }
    }

    /// The transform of every joint that takes a vertex bound in the rest
    /// pose to where the joint's global pose puts it: the global pose
    /// followed by the inverse bind pose.
    pub fn calculate_skinning_transforms<T: Transform>(&self, global_poses: &Vec<T>) -> (r: Vec<T>)
        requires
            global_poses@.len() >= self.joints@.len(),
        ensures
            r@.len() == self.joints@.len(),
            forall|i: int|
                0 <= i < self.joints@.len() ==> r@[i] == global_poses@[i].spec_concat(
                    T::spec_from_matrix(self.joints@[i].inverse_bind_pose),
                ),
    {
        let mut transforms: Vec<T> = Vec::new();
        let mut i: usize = 0;
        while i < self.joints.len()
            invariant
                i <= self.joints@.len() <= global_poses@.len(),
                transforms@.len() == i,
                forall|j: int|
                    0 <= j < i ==> transforms@[j] == global_poses@[j].spec_concat(
                        T::spec_from_matrix(self.joints@[j].inverse_bind_pose),
                    ),
            decreases self.joints@.len() - i,
        {
            let bind = T::from_matrix(self.joints[i].inverse_bind_pose);
            transforms.push(global_poses[i].concat(bind));
            i += 1;
        }
        transforms
    }

    /// Resolves the global pose of every joint in the representation `U`
    /// from the local poses, in storage order. Entries of `global_poses`
    /// beyond the joints are left as they were.
    pub fn calculate_converted_global_poses<T: Transform, U: Transform + FromTransform<T>>(
        &self,
        local_poses: &Vec<T>,
        global_poses: &mut Vec<U>,
    )
        requires
            self.wf(),
            local_poses@.len() >= self.joints@.len(),
            old(global_poses)@.len() >= self.joints@.len(),
        ensures
            final(global_poses)@.len() == old(global_poses)@.len(),
            forall|i: int|
                0 <= i < self.joints@.len() ==> final(global_poses)@[i]
                    == self.spec_converted_global_pose::<T, U>(local_poses@, i),
            forall|i: int|
                self.joints@.len() <= i < old(global_poses)@.len() ==> final(global_poses)@[i]
                    == old(global_poses)@[i],
    {
        let mut i: usize = 0;
        while i < self.joints.len()
            invariant
                self.wf(),
                i <= self.joints@.len(),
                local_poses@.len() >= self.joints@.len(),
                global_poses@.len() == old(global_poses)@.len(),
                global_poses@.len() >= self.joints@.len(),
                forall|j: int|
                    0 <= j < i ==> global_poses@[j] == self.spec_converted_global_pose::<T, U>(
                        local_poses@,
                        j,
                    ),
                forall|j: int|
                    self.joints@.len() <= j < global_poses@.len()
                        ==> global_poses@[j] == old(global_poses)@[j],
            decreases self.joints@.len() - i,
        {
            let joint = &self.joints[i];
            let own = U::from_transform(local_poses[i]);
            assert(parent_precedes(self.joints@, i as int));
            let pose = if joint.is_root() {
                own
            } else {
                let parent = global_poses[joint.parent_index as usize];
                parent.concat(own)
            };
            global_poses[i] = pose;
            i += 1;
        }
    }
}

} // verus!
