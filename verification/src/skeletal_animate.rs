//! Plain looping playback of one clip, with the bones to draw for it.

use vstd::prelude::*;
use vstd::arithmetic::div_mod::*;
use web_time::Duration;
use crate::sample::{as_nanos, duration_nanos, AnimationClip, Playhead, SampleError};
use crate::skeleton::Skeleton;

verus! {

/// A bone to draw: a joint that has a parent. `leaf` says whether the
/// joint ends its chain, in which case the spine gets a point at the joint
/// itself beside the one at its parent.
#[derive(Clone, Copy, Debug, PartialEq, Eq, Structural)]
pub struct BoneLink {
    pub joint: usize,
    pub parent: usize,
    pub leaf: bool,
}

/// Looping playback of one clip on one skeleton.
pub struct OzzPlayback {
    pub seek: u64,
    pub skeleton: Skeleton,
    pub clip: AnimationClip,
    pub bone_count: usize,
    pub spine_count: usize,
}

/// The bones among the first `n` joints, in joint order.
pub open spec fn spec_links(skeleton: Skeleton, n: int) -> Seq<BoneLink>
    decreases n,
{
    if n <= 0 {
        Seq::empty()
    } else {
        let rest = spec_links(skeleton, n - 1);
        match skeleton.parents()[n - 1] {
            Some(p) => rest.push(
                BoneLink {
                    joint: (n - 1) as usize,
                    parent: p,
                    leaf: skeleton.spec_is_leaf(n - 1),
                },
            ),
            None => rest,
        }
    }
}

/// The number of leaf bones in `links`.
pub open spec fn spec_leaf_count(links: Seq<BoneLink>) -> nat
    decreases links.len(),
{
    if links.len() == 0 {
        0
    } else {
        spec_leaf_count(links.drop_last()) + if links.last().leaf {
            1nat
        } else {
            0nat
        }
    }
}

/// The number of points on the spines of `links`: one per bone, and one
/// more per leaf bone, as far as the machine's word holds it.
pub open spec fn spec_spine_count(links: Seq<BoneLink>) -> nat {
    if links.len() + spec_leaf_count(links) > usize::MAX {
        usize::MAX as nat
    } else {
        links.len() + spec_leaf_count(links)
    }
}

/// There are no more bones than joints, and every bone joins a joint to
/// an earlier one.
pub proof fn lemma_links_bounded(skeleton: Skeleton, n: int)
    requires
        skeleton.wf(),
        0 <= n <= skeleton.spec_joint_count(),
    ensures
        spec_links(skeleton, n).len() <= n,
        forall|k: int|
            0 <= k < spec_links(skeleton, n).len() ==> {
                let link = #[trigger] spec_links(skeleton, n)[k];
                &&& link.parent < link.joint
                &&& link.joint < n
                &&& skeleton.parents()[link.joint as int] == Some(link.parent)
            },
    decreases n,
{
    if n > 0 {
        lemma_links_bounded(skeleton, n - 1);
        let rest = spec_links(skeleton, n - 1);
        assert forall|k: int| 0 <= k < spec_links(skeleton, n).len() implies ({
            let link = #[trigger] spec_links(skeleton, n)[k];
            &&& link.parent < link.joint
            &&& link.joint < n
            &&& skeleton.parents()[link.joint as int] == Some(link.parent)
        }) by {
            if k < rest.len() {
                assert(spec_links(skeleton, n)[k] == rest[k]);
            }
        }
    }
}

/// Lists the bones of `skeleton`, in joint order.
pub fn bone_links(skeleton: &Skeleton) -> (links: Vec<BoneLink>)
    ensures
        links@ == spec_links(*skeleton, skeleton.spec_joint_count() as int),
        links@.len() <= skeleton.spec_joint_count(),
        forall|k: int|
            0 <= k < links@.len() ==> (#[trigger] links@[k]).parent < links@[k].joint
                && links@[k].joint < skeleton.spec_joint_count(),
{
    let count: usize = skeleton.joint_count();
    proof {
        lemma_links_bounded(*skeleton, count as int);
    }
    let mut links: Vec<BoneLink> = Vec::new();
    let mut i: usize = 0;
    while i < count
        invariant
            i <= count,
            count == skeleton.spec_joint_count(),
            links@ == spec_links(*skeleton, i as int),
        decreases count - i,
    {
        match skeleton.parent_of(i) {
            Some(parent) => {
                let leaf: bool = skeleton.is_leaf(i);
                links.push(BoneLink { joint: i, parent, leaf });
            },
            None => {},
        }
        i += 1;
    }
    links
}

/// Counts the leaf bones in `links`.
pub fn leaf_count(links: &Vec<BoneLink>) -> (n: usize)
    ensures
        n == spec_leaf_count(links@),
        n <= links@.len(),
{
    let mut n: usize = 0;
    let mut i: usize = 0;
    while i < links.len()
        invariant
            i <= links.len(),
            n == spec_leaf_count(links@.take(i as int)),
            n <= i,
        decreases links.len() - i,
    {
        proof {
            assert(links@.take(i + 1).drop_last() =~= links@.take(i as int));
        }
        if links[i].leaf {
            n += 1;
        }
        i += 1;
    }
    proof {
        assert(links@.take(i as int) =~= links@);
    }
    n
}

impl OzzPlayback {
    /// The outcome of a step of `dt` nanoseconds from `before`: with a
    /// clip of no length an error and the playback as it was, otherwise
    /// the playhead moved on by `dt` and wrapped at the end of the clip.
    pub open spec fn step_result(
        self,
        before: OzzPlayback,
        dt: nat,
        r: Result<Playhead, SampleError>,
    ) -> bool {
        &&& self.skeleton == before.skeleton
        &&& self.clip == before.clip
        &&& self.bone_count == before.bone_count
        &&& self.spine_count == before.spine_count
        &&& if before.clip.duration == 0 {
            r == Err::<Playhead, SampleError>(SampleError::ZeroDuration) && self.seek
                == before.seek
        } else {
            &&& self.seek == (before.seek + dt) % (before.clip.duration as int)
            &&& self.seek < before.clip.duration
            &&& r == Ok::<Playhead, SampleError>(
                Playhead {
                    clip: before.clip.id,
                    seek: self.seek,
                    duration: before.clip.duration,
                },
            )
        }
    }

    /// Creates a playback of `animation` on `skeleton`, at the start of
    /// the clip, and counts the bones and the spine points to draw.
    pub fn new(skeleton: Skeleton, animation: AnimationClip) -> (playback: Self)
        ensures
            playback.seek == 0,
            playback.skeleton == skeleton,
            playback.clip == animation,
            playback.bone_count == spec_links(
                skeleton,
                skeleton.spec_joint_count() as int,
            ).len(),
            playback.spine_count == spec_spine_count(
                spec_links(skeleton, skeleton.spec_joint_count() as int),
            ),
    {
        let links: Vec<BoneLink> = bone_links(&skeleton);
        let bone_count: usize = links.len();
        let leaves: usize = leaf_count(&links);
        let spine_count: usize = if leaves > usize::MAX - bone_count {
            usize::MAX
        } else {
            bone_count + leaves
        };
        OzzPlayback { seek: 0, skeleton, clip: animation, bone_count, spine_count }
    }

    /// The bones to draw, in joint order.
    pub fn links(&self) -> (links: Vec<BoneLink>)
        ensures
            links@ == spec_links(self.skeleton, self.skeleton.spec_joint_count() as int),
    {
        bone_links(&self.skeleton)
    }

    /// Moves the playhead by `dt` nanoseconds, wrapping at the end of the
    /// clip, and returns where to sample.
    pub fn advance(&mut self, dt: u64) -> (r: Result<Playhead, SampleError>)
        ensures
            final(self).step_result(*old(self), dt as nat, r),
    {
        if self.clip.duration == 0 {
            return Err(SampleError::ZeroDuration);
        }
        let reached: u128 = self.seek as u128 + dt as u128;
        let duration: u128 = self.clip.duration as u128;
        proof {
            lemma_mod_pos_bound(reached as int, duration as int);
        }
        let next: u128 = reached % duration;
        self.seek = next as u64;
        Ok(Playhead { clip: self.clip.id, seek: self.seek, duration: self.clip.duration })
    }

    /// Moves the playhead by the wall-clock step `dt`. A step of more than
    /// 2^64 - 1 nanoseconds is refused and leaves the playback as it was.
    pub fn update(&mut self, dt: Duration) -> (r: Result<Playhead, SampleError>)
        ensures
            duration_nanos(dt) > u64::MAX ==> r == Err::<Playhead, SampleError>(
                SampleError::StepTooLong,
            ) && *final(self) == *old(self),
            duration_nanos(dt) <= u64::MAX ==> final(self).step_result(
                *old(self),
                duration_nanos(dt) as nat,
                r,
            ),
    {
        let nanos: u128 = as_nanos(&dt);
        if nanos > u64::MAX as u128 {
            return Err(SampleError::StepTooLong);
        }
        self.advance(nanos as u64)
    }
}

} // verus!
