//! Animation clips, their sampling in time, and playback cursors.

use std::rc::Rc;
use vstd::prelude::*;
use crate::scalar::{div_raw, mul_raw, saturate, Scalar, SCALE};
use crate::skeleton::Skeleton;
use crate::transform::{inverse_undoes, Transform};

verus! {

/// A single skeletal pose.
#[derive(Debug)]
pub struct AnimationSample<T: Transform> {
    /// Local pose of each joint of the targeted skeleton, relative to its
    /// parent joint.
    pub local_poses: Vec<T>,
}

/// A sequence of skeletal pose samples at a constant sample rate. Clips
/// loop: time wraps around at the end.
#[derive(Debug)]
pub struct AnimationClip<T: Transform> {
    /// The sequence of skeletal poses.
    pub samples: Vec<AnimationSample<T>>,
    /// Sample rate of the clip.
    pub samples_per_second: Scalar,
}

/// Where an animation clip is loaded from, and how it is adjusted on load.
#[derive(Debug)]
pub struct AnimationClipDef {
    pub name: String,
    pub source: String,
    /// The duration to rescale the clip to, if any.
    pub duration: Option<Scalar>,
    /// Degrees to turn the root pose about the z axis, if any.
    pub rotate_z: Option<Scalar>,
}

/// Names the two clips whose difference makes an additive clip.
#[derive(Debug)]
pub struct DifferenceClipDef {
    pub name: String,
    pub source_clip: String,
    pub reference_clip: String,
}

/// The position in samples, in raw units, that `time` has at the rate
/// `samples_per_second`.
pub open spec fn sample_position(time: int, samples_per_second: int) -> int {
    mul_raw(time, samples_per_second)
}

/// The index of the sample at or before `position`, wrapped into `count`
/// samples.
pub open spec fn sample_index_before(position: int, count: int) -> int {
    (position / (SCALE as int)) % count
}

/// The index of the sample at or after `position`, wrapped into `count`
/// samples.
pub open spec fn sample_index_after(position: int, count: int) -> int {
    if position % (SCALE as int) == 0 {
        (position / (SCALE as int)) % count
    } else {
        (position / (SCALE as int) + 1) % count
    }
}

/// How far `position` lies past the sample before it, as a share of the
/// way to the next.
pub open spec fn sample_blend_factor(position: int) -> Scalar {
    Scalar { raw: (position % (SCALE as int)) as i64 }
}

/// Whether `difference` is the clip of `source` relative to `reference`:
/// it has the sample rate and the samples of `source`, each pose preceded by
/// the inverse of the pose of `reference` in the same place, where a shorter
/// `reference` wraps around.
pub open spec fn is_difference_clip<T: Transform>(
    difference: AnimationClip<T>,
    source: AnimationClip<T>,
    reference: AnimationClip<T>,
) -> bool {
    &&& difference.samples_per_second == source.samples_per_second
    &&& difference.samples@.len() == source.samples@.len()
    &&& forall|s: int|
        0 <= s < difference.samples@.len() ==> (
        #[trigger] difference.samples@[s]).local_poses@.len()
            == source.samples@[s].local_poses@.len()
    &&& forall|s: int, j: int|
        0 <= s < difference.samples@.len() && 0 <= j < difference.samples@[s].local_poses@.len()
            ==> #[trigger] difference.samples@[s].local_poses@[j] == reference.samples@[s % (
        reference.samples@.len() as int)].local_poses@[j].spec_inverse().spec_concat(
            source.samples@[s].local_poses@[j],
        )
}

/// The difference of a clip and itself adds nothing: every pose of it is
/// the identity, for transforms whose inverse undoes them.
pub proof fn lemma_difference_of_itself<T: Transform>(
    difference: AnimationClip<T>,
    clip: AnimationClip<T>,
    sample: int,
    joint: int,
)
    requires
        is_difference_clip(difference, clip, clip),
        0 <= sample < clip.samples@.len(),
        0 <= joint < clip.samples@[sample].local_poses@.len(),
        inverse_undoes::<T>(),
    ensures
        difference.samples@[sample].local_poses@[joint] == T::spec_identity(),
{
    reveal(inverse_undoes);
    let count = clip.samples@.len() as int;
    vstd::arithmetic::div_mod::lemma_small_mod(sample as nat, count as nat);
    let pose = clip.samples@[sample].local_poses@[joint];
    assert(difference.samples@[sample].local_poses@.len()
        == clip.samples@[sample].local_poses@.len());
    assert(difference.samples@[sample].local_poses@[joint] == clip.samples@[sample
        % count].local_poses@[joint].spec_inverse().spec_concat(pose));
}

impl<T: Transform> AnimationClip<T> {
    /// The clip has a sample, and all samples pose the same number of
    /// joints.
    pub open spec fn wf(&self) -> bool {
        &&& self.samples@.len() > 0
        &&& forall|i: int|
            0 <= i < self.samples@.len() ==> #[trigger] self.samples@[i].local_poses@.len()
                == self.samples@[0].local_poses@.len()
    }

    /// The number of joints that each sample poses.
    pub open spec fn joint_count(&self) -> nat {
        self.samples@[0].local_poses@.len()
    }

    /// The duration of the clip in seconds: its sample count over its
    /// sample rate.
    pub open spec fn spec_duration(&self) -> int {
        div_raw(saturate(self.samples@.len() * SCALE), self.samples_per_second@)
    }

    /// The pose of `joint` at `time`: the blend of the samples before and
    /// after that time.
    pub open spec fn spec_pose_at_time(&self, time: Scalar, joint: int) -> T {
        let position = sample_position(time@, self.samples_per_second@);
        let count = self.samples@.len() as int;
        let before = self.samples@[sample_index_before(position, count)];
        let after = self.samples@[sample_index_after(position, count)];
        before.local_poses@[joint].spec_lerp(
            after.local_poses@[joint],
            sample_blend_factor(position),
        )
    }

    /// Overrides the sample rate of the clip so that it lasts `duration`
    /// seconds.
    pub fn set_duration(&mut self, duration: Scalar)
        ensures
            final(self).samples == old(self).samples,
            final(self).samples_per_second@ == div_raw(
                saturate(old(self).samples@.len() * SCALE),
                duration@,
            ),
    {
        self.samples_per_second = Scalar::from_count(self.samples.len()).div(duration);
    }

    /// The duration of the clip in seconds.
    pub fn get_duration(&self) -> (r: Scalar)
        ensures
            r@ == self.spec_duration(),
    {
        Scalar::from_count(self.samples.len()).div(self.samples_per_second)
    }

    /// Writes the interpolated pose of every joint at `elapsed_time`,
    /// relative to the start of the clip, into the front of
    /// `blended_poses`.
    pub fn get_pose_at_time(&self, elapsed_time: Scalar, blended_poses: &mut Vec<T>)
        requires
            self.wf(),
            old(blended_poses)@.len() >= self.joint_count(),
        ensures
            final(blended_poses)@.len() == old(blended_poses)@.len(),
            forall|i: int|
                0 <= i < self.joint_count() ==> final(blended_poses)@[i] == self.spec_pose_at_time(
                    elapsed_time,
                    i,
                ),
            forall|i: int|
                self.joint_count() <= i < old(blended_poses)@.len() ==> final(blended_poses)@[i]
                    == old(blended_poses)@[i],
    {
        let position = elapsed_time.mul(self.samples_per_second);
        let whole: i64 = position.floor();
        let blend_factor = position.fract();
        let count: i128 = self.samples.len() as i128;
        proof {
            crate::scalar::lemma_floor_div_between(position@, SCALE as int);
        }
        let next: i128 = if blend_factor.raw == 0 {
            whole as i128
        } else {
            whole as i128 + 1
        };
        let index_1: usize = match (whole as i128).checked_rem_euclid(count) {
            Some(m) => m as usize,
            None => 0,
        };
        let index_2: usize = match next.checked_rem_euclid(count) {
            Some(m) => m as usize,
            None => 0,
        };
        assert(index_1 == sample_index_before(position@, count as int));
        assert(index_2 == sample_index_after(position@, count as int));
        let sample_1 = &self.samples[index_1];
        let sample_2 = &self.samples[index_2];
        let joint_count = self.samples[0].local_poses.len();
        let mut i: usize = 0;
        while i < joint_count
            invariant
                self.wf(),
                i <= joint_count == self.joint_count(),
                blended_poses@.len() == old(blended_poses)@.len(),
                blended_poses@.len() >= joint_count,
                position@ == sample_position(elapsed_time@, self.samples_per_second@),
                blend_factor == sample_blend_factor(position@),
                index_1 == sample_index_before(position@, self.samples@.len() as int),
                index_2 == sample_index_after(position@, self.samples@.len() as int),
                0 <= index_1 < self.samples@.len(),
                0 <= index_2 < self.samples@.len(),
                *sample_1 == self.samples@[index_1 as int],
                *sample_2 == self.samples@[index_2 as int],
                forall|j: int|
                    0 <= j < i ==> blended_poses@[j] == self.spec_pose_at_time(elapsed_time, j),
                forall|j: int|
                    joint_count <= j < blended_poses@.len() ==> blended_poses@[j] == old(blended_poses)@[j],
            decreases joint_count - i,
        {
            let pose_1 = sample_1.local_poses[i];
            let pose_2 = sample_2.local_poses[i];
            blended_poses[i] = pose_1.lerp(pose_2, blend_factor);
            i += 1;
        }
    }

    /// The clip of `source_clip` relative to `reference_clip`, for additive
    /// blending: sample by sample and joint by joint, the inverse of the
    /// reference pose followed by the source pose. A shorter reference clip
    /// wraps around.
    pub fn as_difference_clip(
        source_clip: &AnimationClip<T>,
        reference_clip: &AnimationClip<T>,
    ) -> (r: AnimationClip<T>)
        requires
            reference_clip.wf(),
            forall|s: int|
                0 <= s < source_clip.samples@.len()
                    ==> #[trigger] source_clip.samples@[s].local_poses@.len()
                    <= reference_clip.joint_count(),
        ensures
            is_difference_clip(r, *source_clip, *reference_clip),
            source_clip.wf() ==> r.wf(),
    {
        let mut samples: Vec<AnimationSample<T>> = Vec::new();
        let reference_count = reference_clip.samples.len();
        let mut s: usize = 0;
        while s < source_clip.samples.len()
            invariant
                reference_clip.wf(),
                reference_count == reference_clip.samples@.len(),
                forall|k: int|
                    0 <= k < source_clip.samples@.len()
                        ==> #[trigger] source_clip.samples@[k].local_poses@.len()
                        <= reference_clip.joint_count(),
                s <= source_clip.samples@.len(),
                samples@.len() == s,
                forall|k: int|
                    0 <= k < s ==> #[trigger] samples@[k].local_poses@.len()
                        == source_clip.samples@[k].local_poses@.len(),
                forall|k: int, j: int|
                    0 <= k < s && 0 <= j < samples@[k].local_poses@.len()
                        ==> #[trigger] samples@[k].local_poses@[j] == reference_clip.samples@[k % (
                    reference_clip.samples@.len() as int)].local_poses@[j].spec_inverse().spec_concat(
                        source_clip.samples@[k].local_poses@[j],
                    ),
            decreases source_clip.samples@.len() - s,
        {
            let source_sample = &source_clip.samples[s];
            let reference_sample = &reference_clip.samples[s % reference_count];
            assert(source_clip.samples@[s as int].local_poses@.len()
                <= reference_clip.joint_count());
            assert(reference_clip.samples@[s as int % (reference_count as int)].local_poses@.len()
                == reference_clip.joint_count());
            let mut difference_poses: Vec<T> = Vec::new();
            let mut j: usize = 0;
            while j < source_sample.local_poses.len()
                invariant
                    j <= source_sample.local_poses@.len() <= reference_sample.local_poses@.len(),
                    difference_poses@.len() == j,
                    forall|k: int|
                        0 <= k < j ==> difference_poses@[k]
                            == reference_sample.local_poses@[k].spec_inverse().spec_concat(
                            source_sample.local_poses@[k],
                        ),
                decreases source_sample.local_poses@.len() - j,
            {
                let source_pose = source_sample.local_poses[j];
                let reference_pose = reference_sample.local_poses[j];
                difference_poses.push(reference_pose.inverse().concat(source_pose));
                j += 1;
            }
            samples.push(AnimationSample { local_poses: difference_poses });
            s += 1;
        }
        AnimationClip { samples_per_second: source_clip.samples_per_second, samples }
    }
}

/// Whether `x` is a raw value: arithmetic that stays among such values
/// does not saturate.
pub open spec fn fits(x: int) -> bool {
    i64::MIN <= x <= i64::MAX
}

/// A clip repeats after its duration: at `time` and one duration later it
/// gives the same pose, provided that the duration is exact (duration times
/// sample rate is the sample count, with nothing rounded away) and that no
/// step of either computation saturates.
pub proof fn lemma_pose_periodic<T: Transform>(clip: AnimationClip<T>, time: Scalar, joint: int)
    requires
        clip.samples@.len() > 0,
        clip.spec_duration() * clip.samples_per_second@ == clip.samples@.len() * SCALE * SCALE,
        fits(time@ + clip.spec_duration()),
        fits((time@ * clip.samples_per_second@) / (SCALE as int)),
        fits(((time@ + clip.spec_duration()) * clip.samples_per_second@) / (SCALE as int)),
    ensures
        clip.spec_pose_at_time(Scalar { raw: (time@ + clip.spec_duration()) as i64 }, joint)
            == clip.spec_pose_at_time(time, joint),
{
    let rate = clip.samples_per_second@;
    let count = clip.samples@.len() as int;
    let scale = SCALE as int;
    let later = time@ + clip.spec_duration();
    let position = sample_position(time@, rate);
    let position_later = sample_position(later, rate);
    assert(position == (time@ * rate) / scale);
    assert(position_later == (later * rate) / scale);
    assert(later * rate == time@ * rate + (count * scale) * scale) by (nonlinear_arith)
        requires
            later == time@ + clip.spec_duration(),
            clip.spec_duration() * rate == count * scale * scale,
    ;
    vstd::arithmetic::div_mod::lemma_hoist_over_denominator(
        time@ * rate,
        count * scale,
        scale as nat,
    );
    assert(position_later == position + count * scale);
    vstd::arithmetic::div_mod::lemma_hoist_over_denominator(position, count, scale as nat);
    assert(position_later / scale == position / scale + count);
    vstd::arithmetic::div_mod::lemma_mod_multiples_vanish(count, position, scale);
    assert(position_later % scale == position % scale);
    vstd::arithmetic::div_mod::lemma_mod_multiples_vanish(1, position / scale, count);
    vstd::arithmetic::div_mod::lemma_mod_multiples_vanish(1, position / scale + 1, count);
    assert(sample_index_before(position_later, count) == sample_index_before(position, count));
    assert(sample_index_after(position_later, count) == sample_index_after(position, count));
    assert(sample_blend_factor(position_later) == sample_blend_factor(position));
}

/// A playback cursor over a shared clip.
pub struct ClipInstance<T: Transform> {
    /// The clip that is played.
    pub clip: Rc<AnimationClip<T>>,
    /// Controller clock time at which playback started.
    pub start_time: Scalar,
    /// Playback rate, where one is the speed at which the clip was sampled.
    pub playback_rate: Scalar,
    /// Keeps the local time unchanged across changes of the playback rate.
    pub time_offset: Scalar,
}

/// The time within a clip that a cursor shows at `global_time`:
/// `(global_time - start_time) * playback_rate + time_offset`.
pub open spec fn local_time(
    global_time: int,
    start_time: int,
    playback_rate: int,
    time_offset: int,
) -> int {
    saturate(mul_raw(saturate(global_time - start_time), playback_rate) + time_offset)
}

/// The offset that makes a cursor started at `start_time` show
/// `local_time` at `global_time` when it plays at `playback_rate`.
pub open spec fn rebased_offset(
    local_time: int,
    global_time: int,
    start_time: int,
    playback_rate: int,
) -> int {
    saturate(local_time - mul_raw(saturate(global_time - start_time), playback_rate))
}

impl<T: Transform> ClipInstance<T> {
    /// The time within the clip at `global_time`.
    pub open spec fn spec_local_time(&self, global_time: Scalar) -> int {
        local_time(global_time@, self.start_time@, self.playback_rate@, self.time_offset@)
    }

    /// A cursor at the start of `clip`, playing at the rate one.
    pub fn new(clip: Rc<AnimationClip<T>>) -> (r: ClipInstance<T>)
        ensures
            r.clip == clip,
            r.start_time@ == 0,
            r.playback_rate@ == SCALE,
            r.time_offset@ == 0,
    {
        ClipInstance {
            clip,
            start_time: Scalar::zero(),
            playback_rate: Scalar::one(),
            time_offset: Scalar::zero(),
        }
    }

    /// The time within the clip at `global_time`.
    pub fn get_local_time(&self, global_time: Scalar) -> (r: Scalar)
        ensures
            r@ == self.spec_local_time(global_time),
    {
        global_time.sub(self.start_time).mul(self.playback_rate).add(self.time_offset)
    }

    /// The cursor after its playback rate has changed to `new_rate` at
    /// `global_time`: the time offset is rebased so that the local time at
    /// `global_time` stays what it was. A change to the rate that the cursor
    /// has already changes nothing.
    pub open spec fn spec_with_playback_rate(self, global_time: Scalar, new_rate: Scalar) -> Self {
        if self.playback_rate == new_rate {
            self
        } else {
            ClipInstance {
                clip: self.clip,
                start_time: self.start_time,
                playback_rate: new_rate,
                time_offset: Scalar {
                    raw: rebased_offset(
                        self.spec_local_time(global_time),
                        global_time@,
                        self.start_time@,
                        new_rate@,
                    ) as i64,
                },
            }
        }
    }

    /// Across a change of the playback rate at `global_time`, the local
    /// time at `global_time` stays exactly what it was, provided that no
    /// step of rebasing the offset saturates.
    pub proof fn lemma_rate_change_is_continuous(self, global_time: Scalar, new_rate: Scalar)
        requires
            fits(global_time@ - self.start_time@),
            fits(
                self.spec_local_time(global_time) - mul_raw(
                    global_time@ - self.start_time@,
                    new_rate@,
                ),
            ),
        ensures
            self.spec_with_playback_rate(global_time, new_rate).spec_local_time(global_time)
                == self.spec_local_time(global_time),
    {
    }

    /// Changes the playback rate to `new_rate` and rebases the time offset
    /// so that the local time at `global_time` stays what it was.
    pub fn set_playback_rate(&mut self, global_time: Scalar, new_rate: Scalar)
        ensures
            *final(self) == old(self).spec_with_playback_rate(global_time, new_rate),
    {
        if self.playback_rate.raw != new_rate.raw {
            let local_time = self.get_local_time(global_time);
            self.time_offset = local_time.sub(global_time.sub(self.start_time).mul(new_rate));
            self.playback_rate = new_rate;
        }
    }

    /// Writes the pose of every joint at `global_time` into the front of
    /// `blended_poses`.
    pub fn get_pose_at_time(&self, global_time: Scalar, blended_poses: &mut Vec<T>)
        requires
            self.clip.wf(),
            old(blended_poses)@.len() >= self.clip.joint_count(),
        ensures
            final(blended_poses)@.len() == old(blended_poses)@.len(),
            forall|i: int|
                0 <= i < self.clip.joint_count() ==> final(blended_poses)@[i]
                    == self.clip.spec_pose_at_time(
                    Scalar { raw: self.spec_local_time(global_time) as i64 },
                    i,
                ),
            forall|i: int|
                self.clip.joint_count() <= i < old(blended_poses)@.len()
                    ==> final(blended_poses)@[i] == old(blended_poses)@[i],
    {
        self.clip.get_pose_at_time(self.get_local_time(global_time), blended_poses);
    }

    /// The duration of the clip in seconds, at the rate one.
    pub fn get_duration(&self) -> (r: Scalar)
        ensures
            r@ == self.clip.spec_duration(),
    {
        self.clip.get_duration()
    }
}

/// The keyframes of one joint, as an importer hands them over.
pub struct JointAnimation<T: Transform> {
    /// What the keyframes animate: the name of the joint, then, after a
    /// slash, the property.
    pub target: String,
    /// The time of every keyframe.
    pub sample_times: Vec<Scalar>,
    /// The local pose of the joint at every keyframe.
    pub sample_poses: Vec<T>,
}

/// Whether the name of the joint in `target` ends at `end`: at the first
/// slash, or at the end of `target` where it has none.
pub open spec fn is_name_end(target: Seq<char>, end: int) -> bool {
    &&& 0 <= end <= target.len()
    &&& forall|k: int| 0 <= k < end ==> target[k] != '/'
    &&& end < target.len() ==> target[end] == '/'
}

/// The name of the joint in `target`: what stands before the first slash.
pub open spec fn joint_name(target: Seq<char>) -> Seq<char> {
    target.take(choose|end: int| is_name_end(target, end))
}

/// The name of a joint ends in one place only.
pub proof fn lemma_name_end_unique(target: Seq<char>, end: int)
    requires
        is_name_end(target, end),
    ensures
        joint_name(target) == target.take(end),
{
    let chosen = choose|e: int| is_name_end(target, e);
    assert(is_name_end(target, chosen));
    if chosen < end {
        assert(target[chosen] != '/');
    } else if end < chosen {
        assert(target[end] != '/');
    }
}

/// The name of the joint that `target` names.
pub fn target_joint_name(target: &str) -> (r: String)
    ensures
        r@ == joint_name(target@),
{
    let len = target.unicode_len();
    let mut end: usize = 0;
    while end < len && target.get_char(end) != '/'
        invariant
            len == target@.len(),
            end <= len,
            forall|k: int| 0 <= k < end ==> target@[k] != '/',
        decreases len - end,
    {
        end += 1;
    }
    proof {
        lemma_name_end_unique(target@, end as int);
    }
    target.substring_char(0, end).to_owned()
}

/// The keyframes that count for the joint called `name`: the last among
/// `animations` that name it.
pub open spec fn channel_of<T: Transform>(animations: Seq<JointAnimation<T>>, name: Seq<char>) -> Option<
    int,
>
    decreases animations.len(),
{
    if animations.len() == 0 {
        None
    } else if joint_name(animations.last().target@) == name {
        Some(animations.len() - 1)
    } else {
        channel_of(animations.drop_last(), name)
    }
}

/// Whether `found` is the position of the keyframes that count for the
/// joint called `name`.
pub open spec fn found_channel<T: Transform>(
    animations: Seq<JointAnimation<T>>,
    name: Seq<char>,
    found: Option<usize>,
) -> bool {
    match channel_of(animations, name) {
        Some(a) => found is Some && found->0 == a && 0 <= a < animations.len(),
        None => found is None,
    }
}

/// The local pose of the joint at `joint` of `skeleton` in a sample that
/// is made of the keyframes at `sample`: the pose of the joint's keyframes,
/// preceded by `transform` for a root; the identity for a joint without
/// keyframes.
pub open spec fn keyframe_pose<T: Transform>(
    skeleton: Skeleton,
    animations: Seq<JointAnimation<T>>,
    transform: T,
    sample: int,
    joint: int,
) -> T {
    match channel_of(animations, skeleton.joints@[joint].name@) {
        Some(a) => if skeleton.joints@[joint].spec_is_root() {
            transform.spec_concat(animations[a].sample_poses@[sample])
        } else {
            animations[a].sample_poses@[sample]
        },
        None => T::spec_identity(),
    }
}

impl<T: Transform> AnimationClip<T> {
    /// Makes a clip for `skeleton` of the keyframes of its joints.
    ///
    /// The first of `animations` gives the number of samples and, with the
    /// time of its last keyframe, the duration. A joint takes its poses from
    /// the last keyframes that name it, a joint without keyframes keeps the
    /// identity, and `transform` is applied before the pose of every root.
    pub fn from_collada(
        skeleton: &Skeleton,
        animations: &Vec<JointAnimation<T>>,
        transform: T,
    ) -> (r: AnimationClip<T>)
        requires
            animations@.len() > 0,
            animations@[0].sample_times@.len() > 0,
            forall|j: int|
                0 <= j < skeleton.joints@.len() ==> (channel_of(
                    animations@,
                    (#[trigger] skeleton.joints@[j]).name@,
                ) matches Some(a) ==> animations@[a].sample_poses@.len()
                    >= animations@[0].sample_times@.len()),
        ensures
            r.wf(),
            r.samples@.len() == animations@[0].sample_times@.len(),
            r.joint_count() == skeleton.joints@.len(),
            r.samples_per_second@ == div_raw(
                saturate(animations@[0].sample_times@.len() * SCALE),
                animations@[0].sample_times@.last()@,
            ),
            forall|s: int, j: int|
                0 <= s < r.samples@.len() && 0 <= j < skeleton.joints@.len()
                    ==> #[trigger] r.samples@[s].local_poses@[j] == keyframe_pose(
                    *skeleton,
                    animations@,
                    transform,
                    s,
                    j,
                ),
    {
        let mut channels: Vec<Option<usize>> = Vec::new();
        let mut j: usize = 0;
        while j < skeleton.joints.len()
            invariant
                j <= skeleton.joints@.len(),
                channels@.len() == j,
                forall|k: int|
                    0 <= k < j ==> found_channel(
                        animations@,
                        (#[trigger] skeleton.joints@[k]).name@,
                        channels@[k],
                    ),
            decreases skeleton.joints@.len() - j,
        {
            channels.push(find_channel(animations, &skeleton.joints[j].name));
            j += 1;
        }
        let sample_count = animations[0].sample_times.len();
        let duration = animations[0].sample_times[sample_count - 1];
        let samples_per_second = Scalar::from_count(sample_count).div(duration);
        let mut samples: Vec<AnimationSample<T>> = Vec::new();
        let mut s: usize = 0;
        while s < sample_count
            invariant
                s <= sample_count,
                sample_count == animations@[0].sample_times@.len(),
                samples@.len() == s,
                channels@.len() == skeleton.joints@.len(),
                forall|k: int|
                    0 <= k < skeleton.joints@.len() ==> found_channel(
                        animations@,
                        (#[trigger] skeleton.joints@[k]).name@,
                        channels@[k],
                    ),
                forall|k: int|
                    0 <= k < skeleton.joints@.len() ==> (channel_of(
                        animations@,
                        (#[trigger] skeleton.joints@[k]).name@,
                    ) matches Some(a) ==> animations@[a].sample_poses@.len() >= sample_count),
                forall|t: int|
                    0 <= t < s ==> (#[trigger] samples@[t]).local_poses@.len()
                        == skeleton.joints@.len(),
                forall|t: int, k: int|
                    0 <= t < s && 0 <= k < skeleton.joints@.len()
                        ==> #[trigger] samples@[t].local_poses@[k] == keyframe_pose(
                        *skeleton,
                        animations@,
                        transform,
                        t,
                        k,
                    ),
            decreases sample_count - s,
        {
            let mut local_poses: Vec<T> = Vec::new();
            let mut k: usize = 0;
            while k < skeleton.joints.len()
                invariant
                    s < sample_count,
                    k <= skeleton.joints@.len(),
                    local_poses@.len() == k,
                    channels@.len() == skeleton.joints@.len(),
                    forall|m: int|
                        0 <= m < skeleton.joints@.len() ==> found_channel(
                            animations@,
                            (#[trigger] skeleton.joints@[m]).name@,
                            channels@[m],
                        ),
                    forall|m: int|
                        0 <= m < skeleton.joints@.len() ==> (channel_of(
                            animations@,
                            (#[trigger] skeleton.joints@[m]).name@,
                        ) matches Some(a) ==> animations@[a].sample_poses@.len() >= sample_count),
                    forall|m: int|
                        0 <= m < k ==> local_poses@[m] == keyframe_pose(
                            *skeleton,
                            animations@,
                            transform,
                            s as int,
                            m,
                        ),
                decreases skeleton.joints@.len() - k,
            {
                let joint = &skeleton.joints[k];
                assert(found_channel(
                    animations@,
                    skeleton.joints@[k as int].name@,
                    channels@[k as int],
                ));
                assert(channel_of(animations@, skeleton.joints@[k as int].name@) matches Some(a)
                    ==> animations@[a].sample_poses@.len() >= sample_count);
                let pose = match channels[k] {
                    Some(a) => {
                        let pose = animations[a].sample_poses[s];
                        if joint.is_root() {
                            transform.concat(pose)
                        } else {
                            pose
                        }
                    },
                    None => T::identity(),
                };
                local_poses.push(pose);
                k += 1;
            }
            samples.push(AnimationSample { local_poses });
            s += 1;
        }
        AnimationClip { samples, samples_per_second }
    }
}

/// The position of the last of `animations` that name the joint called
/// `name`.
pub fn find_channel<T: Transform>(animations: &Vec<JointAnimation<T>>, name: &String) -> (r: Option<
    usize,
>)
    ensures
        found_channel(animations@, name@, r),
{
    let mut found: Option<usize> = None;
    let mut i: usize = 0;
    while i < animations.len()
        invariant
            i <= animations@.len(),
            found_channel(animations@.take(i as int), name@, found),
        decreases animations@.len() - i,
    {
        let joint = target_joint_name(animations[i].target.as_str());
        proof {
            let longer = animations@.take(i + 1);
            assert(longer.drop_last() =~= animations@.take(i as int));
            assert(longer.last() == animations@[i as int]);
        }
        if joint == *name {
            found = Some(i);
        }
        i += 1;
    }
    assert(animations@.take(i as int) =~= animations@);
    found
}

} // verus!
