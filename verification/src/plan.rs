//! From a frame's jobs to steps that name their operands.
//!
//! A job list is in postfix order: a job leaves a pose on a stack or takes
//! poses from it. Here each job is given the places of the jobs whose
//! poses it takes, so that whoever carries the steps out needs no stack
//! and decides nothing.

use vstd::prelude::*;
use crate::output::Job;
use crate::sample::Playhead;

verus! {

/// What to do for one job.
#[derive(Clone, Copy, Debug, PartialEq, Eq, Structural)]
pub enum Step {
    /// Sample a clip at a playhead. Leaves a pose.
    Sample(Playhead),
    /// Cross-fade the poses that the steps `from` and `to` left, the first
    /// at `weight1` and the second at `weight2`. Leaves a pose.
    CrossFade { from: usize, to: usize, weight1: u32, weight2: u32 },
    /// A cross-fade that found one pose only: the pose that the step
    /// `pose` left is taken as it is. Leaves a pose.
    Keep { pose: usize },
    /// Remember the buffer `input` at the normalised weight `share` for
    /// the next blend. Leaves nothing.
    Layer { input: usize, share: u32 },
    /// Blend the layers that the steps from `since` on have remembered
    /// into the buffer `output`, or copy the first of them where
    /// `pass_through` is set. Leaves a pose.
    Blend { output: usize, since: usize, pass_through: bool },
    /// Turn the local pose in the buffer `input` into model-space
    /// matrices. Leaves nothing.
    LocalToModel { input: usize, joint_count: usize },
    /// A cross-fade that found no pose. Leaves nothing.
    Nothing,
}

/// The steps whose poses lie on the stack after the first `n` jobs, the
/// newest last. A sample and a blend put their pose on the stack. A
/// cross-fade takes the two newest poses and puts its own there; with one
/// pose it takes that one; with none it does nothing.
pub open spec fn stack_after(jobs: Seq<Job>, n: nat) -> Seq<usize>
    decreases n,
{
    if n == 0 {
        Seq::empty()
    } else {
        let stack = stack_after(jobs, (n - 1) as nat);
        let here = (n - 1) as usize;
        match jobs[n - 1] {
            Job::Sample(_) => stack.push(here),
            Job::Blend { .. } => stack.push(here),
            Job::CrossFade { .. } => if stack.len() >= 2 {
                stack.drop_last().drop_last().push(here)
            } else if stack.len() == 1 {
                stack.drop_last().push(here)
            } else {
                stack
            },
            _ => stack,
        }
    }
}

/// Where the layers of the next blend start after the first `n` jobs:
/// behind the last blend, or at the first job.
pub open spec fn layers_since(jobs: Seq<Job>, n: nat) -> usize
    decreases n,
{
    if n == 0 {
        0
    } else {
        match jobs[n - 1] {
            Job::Blend { .. } => n as usize,
            _ => layers_since(jobs, (n - 1) as nat),
        }
    }
}

/// The step for job `k`.
pub open spec fn step_at(jobs: Seq<Job>, k: nat) -> Step {
    let stack = stack_after(jobs, k);
    match jobs[k as int] {
        Job::Sample(playhead) => Step::Sample(playhead),
        Job::BlendLayer { input, share } => Step::Layer { input, share },
        Job::Blend { output, layers, pass_through } => Step::Blend {
            output,
            since: layers_since(jobs, k),
            pass_through,
        },
        Job::LocalToModel { input, joint_count } => Step::LocalToModel { input, joint_count },
        Job::CrossFade { weight1, weight2 } => if stack.len() >= 2 {
            Step::CrossFade {
                from: stack[stack.len() - 2],
                to: stack[stack.len() - 1],
                weight1,
                weight2,
            }
        } else if stack.len() == 1 {
            Step::Keep { pose: stack[0] }
        } else {
            Step::Nothing
        },
    }
}

/// Whether a step leaves a pose.
pub open spec fn leaves_pose(step: Step) -> bool {
    step is Sample || step is CrossFade || step is Keep || step is Blend
}

/// The steps for all of `jobs`.
pub open spec fn spec_steps(jobs: Seq<Job>) -> Seq<Step> {
    Seq::new(jobs.len(), |k: int| step_at(jobs, k as nat))
}

/// The step whose pose is the outcome of `jobs`: the newest on the stack
/// in the end.
pub open spec fn spec_outcome(jobs: Seq<Job>) -> Option<usize> {
    let stack = stack_after(jobs, jobs.len());
    if stack.len() == 0 {
        None
    } else {
        Some(stack.last())
    }
}

/// Every pose on the stack was left by an earlier step that leaves a
/// pose, and the poses lie in the order in which they were left.
pub proof fn lemma_stack_holds_poses(jobs: Seq<Job>, n: nat)
    requires
        n <= jobs.len(),
        jobs.len() <= usize::MAX,
    ensures
        forall|i: int|
            0 <= i < stack_after(jobs, n).len() ==> {
                let at = #[trigger] stack_after(jobs, n)[i];
                at < n && leaves_pose(step_at(jobs, at as nat))
            },
        forall|i: int, j: int|
            0 <= i < j < stack_after(jobs, n).len() ==> stack_after(jobs, n)[i] < stack_after(
                jobs,
                n,
            )[j],
        layers_since(jobs, n) <= n,
    decreases n,
{
    if n > 0 {
        lemma_stack_holds_poses(jobs, (n - 1) as nat);
        let before = stack_after(jobs, (n - 1) as nat);
        let after = stack_after(jobs, n);
        assert forall|i: int| 0 <= i < after.len() implies ({
            let at = #[trigger] after[i];
            at < n && leaves_pose(step_at(jobs, at as nat))
        }) by {
            if i < after.len() - 1 {
                assert(after[i] == before[i]);
            } else if after[i] != (n - 1) as usize {
                assert(after[i] == before[i]);
            }
        }
        assert forall|i: int, j: int| 0 <= i < j < after.len() implies after[i] < after[j] by {
            assert(after[i] == before[i]);
            if after[j] != (n - 1) as usize {
                assert(after[j] == before[j]);
            }
        }
    }
}

/// Works out the steps for `jobs` and the step whose pose is their
/// outcome. A step names only earlier steps, and only steps that leave a
/// pose.
pub fn resolve(jobs: &Vec<Job>) -> (r: (Vec<Step>, Option<usize>))
    ensures
        r.0@ == spec_steps(jobs@),
        r.1 == spec_outcome(jobs@),
        forall|k: int|
            0 <= k < r.0@.len() ==> match #[trigger] r.0@[k] {
                Step::CrossFade { from, to, .. } => from < to < k && leaves_pose(r.0@[from as int])
                    && leaves_pose(r.0@[to as int]),
                Step::Keep { pose } => pose < k && leaves_pose(r.0@[pose as int]),
                Step::Blend { since, .. } => since <= k,
                _ => true,
            },
        r.1 matches Some(last) ==> last < r.0@.len() && leaves_pose(r.0@[last as int]),
{
    let mut steps: Vec<Step> = Vec::new();
    let mut stack: Vec<usize> = Vec::new();
    let mut since: usize = 0;
    let mut k: usize = 0;
    while k < jobs.len()
        invariant
            k <= jobs.len(),
            steps@.len() == k,
            forall|i: int| 0 <= i < k ==> steps@[i] == step_at(jobs@, i as nat),
            stack@ == stack_after(jobs@, k as nat),
            since == layers_since(jobs@, k as nat),
        decreases jobs.len() - k,
    {
        let depth: usize = stack.len();
        let step: Step = match jobs[k] {
            Job::Sample(playhead) => {
                stack.push(k);
                Step::Sample(playhead)
            },
            Job::BlendLayer { input, share } => Step::Layer { input, share },
            Job::Blend { output, layers, pass_through } => {
                let from: usize = since;
                stack.push(k);
                since = k + 1;
                Step::Blend { output, since: from, pass_through }
            },
            Job::LocalToModel { input, joint_count } => Step::LocalToModel { input, joint_count },
            Job::CrossFade { weight1, weight2 } => {
                if depth >= 2 {
                    let to: usize = stack[depth - 1];
                    let from: usize = stack[depth - 2];
                    stack.pop();
                    stack.pop();
                    stack.push(k);
                    Step::CrossFade { from, to, weight1, weight2 }
                } else if depth == 1 {
                    let pose: usize = stack[0];
                    stack.pop();
                    stack.push(k);
                    Step::Keep { pose }
                } else {
                    Step::Nothing
                }
            },
        };
        steps.push(step);
        proof {
            assert(stack@ =~= stack_after(jobs@, (k + 1) as nat));
        }
        k += 1;
    }
    let outcome: Option<usize> = if stack.len() == 0 {
        None
    } else {
        Some(stack[stack.len() - 1])
    };
    proof {
        assert(steps@ =~= spec_steps(jobs@));
        lemma_stack_holds_poses(jobs@, jobs@.len());
        assert forall|i: int| 0 <= i < steps@.len() implies match #[trigger] steps@[i] {
            Step::CrossFade { from, to, .. } => from < to < i && leaves_pose(steps@[from as int])
                && leaves_pose(steps@[to as int]),
            Step::Keep { pose } => pose < i && leaves_pose(steps@[pose as int]),
            Step::Blend { since, .. } => since <= i,
            _ => true,
        } by {
            lemma_stack_holds_poses(jobs@, i as nat);
            let stack = stack_after(jobs@, i as nat);
            if stack.len() >= 2 {
                assert(stack[stack.len() - 2] < stack[stack.len() - 1]);
            }
        }
    }
    (steps, outcome)
}

} // verus!
