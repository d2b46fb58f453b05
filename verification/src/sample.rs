//! Clip playback: the playhead of one animation clip.

use vstd::prelude::*;
use vstd::arithmetic::div_mod::*;
use vstd::arithmetic::mul::*;
use web_time::Duration;
use crate::skeleton::Skeleton;
use crate::weight::{scaled, spec_scaled, SPEED_ONE};

verus! {

/// What the engine knows of a clip: which of the host's clips it is, how
/// long it runs in nanoseconds, and how many joint tracks it animates.
#[derive(Clone, Copy, Debug, PartialEq, Eq, Structural)]
pub struct AnimationClip {
    pub id: usize,
    pub duration: u64,
    pub track_count: usize,
}

/// Where to sample a clip: `seek` nanoseconds into its `duration`.
#[derive(Clone, Copy, Debug, PartialEq, Eq, Structural)]
pub struct Playhead {
    pub clip: usize,
    pub seek: u64,
    pub duration: u64,
}

/// Why a clip could not be advanced.
#[derive(Clone, Copy, Debug, PartialEq, Eq, Structural)]
pub enum SampleError {
    /// The node has no clip.
    MissingClip,
    /// The clip has no length.
    ZeroDuration,
    /// The step does not fit in 64 bits of nanoseconds.
    StepTooLong,
}

/// A node that plays one clip.
///
/// `seek` is the playhead in nanoseconds and `speed` the playback speed in
/// units of 1/65536; a negative speed plays backwards. A looping node wraps
/// at either end of the clip; any other node starts over from 0 once it
/// has left the clip at either end.
#[derive(Clone, Copy, Debug, PartialEq, Eq, Structural)]
pub struct SampleNode {
    pub clip: Option<AnimationClip>,
    pub joint_count: usize,
    pub seek: u64,
    pub speed: i32,
    pub looping: bool,
}

/// The playhead after a step of `dt` nanoseconds. A looping playhead
/// wraps by the mathematical modulus, so that a step backwards past 0
/// lands just below the end of the clip.
pub open spec fn spec_next_seek(seek: nat, dt: nat, speed: int, looping: bool, duration: nat) -> nat
    recommends
        duration > 0,
{
    let reached = seek + spec_scaled(dt, speed);
    if looping {
        (reached % (duration as int)) as nat
    } else if reached >= duration || reached < 0 {
        0
    } else {
        reached as nat
    }
}

/// After any step, forwards or backwards, the playhead lies inside the
/// clip.
pub proof fn lemma_next_seek_in_range(seek: nat, dt: nat, speed: int, looping: bool, duration: nat)
    requires
        duration > 0,
    ensures
        spec_next_seek(seek, dt, speed, looping, duration) < duration,
{
    let reached = seek + spec_scaled(dt, speed);
    lemma_mod_bound(reached, duration as int);
}

/// The remainder of a negative number: what its magnitude lacks to the
/// next multiple of the divisor.
pub proof fn lemma_negative_remainder(magnitude: int, divisor: int)
    requires
        magnitude >= 0,
        divisor > 0,
    ensures
        (-magnitude) % divisor == (if magnitude % divisor == 0 {
            0
        } else {
            divisor - magnitude % divisor
        }),
{
    let q = magnitude / divisor;
    let r = magnitude % divisor;
    lemma_fundamental_div_mod(magnitude, divisor);
    lemma_mod_bound(magnitude, divisor);
    if r == 0 {
        assert(-magnitude == (-q) * divisor + 0) by (nonlinear_arith)
            requires
                magnitude == divisor * q + r,
                r == 0,
        ;
        lemma_fundamental_div_mod_converse(-magnitude, divisor, -q, 0);
    } else {
        assert(-magnitude == (-q - 1) * divisor + (divisor - r)) by (nonlinear_arith)
            requires
                magnitude == divisor * q + r,
        ;
        lemma_fundamental_div_mod_converse(-magnitude, divisor, -q - 1, divisor - r);
    }
}

/// A node that can be played has its playhead inside its clip after any
/// step, wherever the playhead was before.
pub proof fn lemma_step_stays_in_clip(node: SampleNode, dt: nat)
    requires
        node.playable(),
    ensures
        node.after(dt).seek < node.clip->0.duration,
        node.after(dt).playable(),
{
    lemma_next_seek_in_range(
        node.seek as nat,
        dt,
        node.speed as int,
        node.looping,
        node.clip->0.duration as nat,
    );
}

/// The whole of `d` in nanoseconds.
pub uninterp spec fn duration_nanos(d: Duration) -> u128;

/// `Duration::as_nanos`: the total number of nanoseconds that the duration
/// holds. Nothing more is claimed of the number than that it depends on the
/// duration alone.
#[verifier::external_body]
pub(crate) fn as_nanos(d: &Duration) -> (n: u128)
    ensures
        n == duration_nanos(*d),
{
    d.as_nanos()
}

impl SampleNode {
    /// Whether the node has a clip that can be played.
    pub open spec fn playable(self) -> bool {
        self.clip matches Some(clip) && clip.duration > 0
    }

    /// The node after a step of `dt` nanoseconds. A node that cannot be
    /// played stays as it is.
    pub open spec fn after(self, dt: nat) -> SampleNode {
        match self.clip {
            Some(clip) => if clip.duration == 0 {
                self
            } else {
                SampleNode {
                    seek: spec_next_seek(
                        self.seek as nat,
                        dt,
                        self.speed as int,
                        self.looping,
                        clip.duration as nat,
                    ) as u64,
                    ..self
                }
            },
            None => self,
        }
    }

    /// What holds of the node after a step of `dt` nanoseconds over a clip
    /// of `duration`, given the node before the step.
    pub open spec fn stepped(self, before: SampleNode, dt: nat, duration: nat) -> bool {
        &&& self.seek == spec_next_seek(
            before.seek as nat,
            dt,
            before.speed as int,
            before.looping,
            duration,
        )
        &&& self.clip == before.clip
        &&& self.joint_count == before.joint_count
        &&& self.speed == before.speed
        &&& self.looping == before.looping
    }

    /// The outcome of a step of `dt` nanoseconds: without a clip, or with a
    /// clip of no length, an error and the node as it was; otherwise the
    /// advanced node and the place to sample.
    pub open spec fn step_result(
        self,
        before: SampleNode,
        dt: nat,
        r: Result<Playhead, SampleError>,
    ) -> bool {
        match before.clip {
            None => r == Err::<Playhead, SampleError>(SampleError::MissingClip) && self == before,
            Some(clip) => if clip.duration == 0 {
                r == Err::<Playhead, SampleError>(SampleError::ZeroDuration) && self == before
            } else {
                &&& self.stepped(before, dt, clip.duration as nat)
                &&& self.seek < clip.duration
                &&& r == Ok::<Playhead, SampleError>(
                    Playhead { clip: clip.id, seek: self.seek, duration: clip.duration },
                )
            },
        }
    }

    /// Creates a node that plays `animation` on the joints of `skeleton`:
    /// at the start of the clip, at speed 1, not looping.
    pub fn new(skeleton: &Skeleton, animation: AnimationClip) -> (node: Self)
        ensures
            node.clip == Some(animation),
            node.joint_count == skeleton.spec_joint_count(),
            node.seek == 0,
            node.speed == SPEED_ONE,
            !node.looping,
    {
        SampleNode {
            clip: Some(animation),
            joint_count: skeleton.joint_count(),
            seek: 0,
            speed: SPEED_ONE,
            looping: false,
        }
    }

    /// Moves the playhead by `dt` nanoseconds of wall-clock time, scaled by
    /// the node's speed, and returns where to sample the clip.
    pub fn advance(&mut self, dt: u64) -> (r: Result<Playhead, SampleError>)
        ensures
            final(self).step_result(*old(self), dt as nat, r),
            *final(self) == old(self).after(dt as nat),
            r is Ok <==> old(self).playable(),
    {
        let clip: AnimationClip = match self.clip {
            Some(c) => c,
            None => {
                return Err(SampleError::MissingClip);
            },
        };
        if clip.duration == 0 {
            return Err(SampleError::ZeroDuration);
        }
        let step: i128 = scaled(dt, self.speed);
        let reached: i128 = self.seek as i128 + step;
        let duration: u128 = clip.duration as u128;
        proof {
            lemma_next_seek_in_range(
                self.seek as nat,
                dt as nat,
                self.speed as int,
                self.looping,
                clip.duration as nat,
            );
        }
        let next: u128 = if reached >= 0 {
            let forwards: u128 = reached as u128;
            if self.looping {
                forwards % duration
            } else if forwards >= duration {
                0
            } else {
                forwards
            }
        } else if self.looping {
            let backwards: u128 = (-reached) as u128;
            let short: u128 = backwards % duration;
            proof {
                lemma_negative_remainder(backwards as int, duration as int);
            }
            if short == 0 {
                0
            } else {
                duration - short
            }
        } else {
            0
        };
        self.seek = next as u64;
        Ok(Playhead { clip: clip.id, seek: self.seek, duration: clip.duration })
    }

    /// Moves the playhead by the wall-clock step `dt`. A step of more than
    /// 2^64 - 1 nanoseconds is refused and leaves the node as it was.
    pub fn update(&mut self, dt: Duration) -> (r: Result<Playhead, SampleError>)
        ensures
            duration_nanos(dt) > u64::MAX ==> r == Err::<Playhead, SampleError>(
                SampleError::StepTooLong,
            ) && *final(self) == *old(self),
            duration_nanos(dt) <= u64::MAX ==> final(self).step_result(
                *old(self),
                duration_nanos(dt) as nat,
                r,
            ),
    {
        let nanos: u128 = as_nanos(&dt);
        if nanos > u64::MAX as u128 {
            return Err(SampleError::StepTooLong);
        }
        self.advance(nanos as u64)
    }
}

} // verus!
