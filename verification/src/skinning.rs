//! From model-space matrices to skinning matrices.

use vstd::prelude::*;

verus! {

/// Whether `bones` pairs every model matrix with the inverse bind pose of
/// the same joint under `compose`, model matrix first.
pub open spec fn skinned<M, C: Fn(&M, &M) -> M>(
    models: Seq<M>,
    inverse_bind_poses: Seq<M>,
    bones: Seq<M>,
    compose: C,
) -> bool {
    &&& bones.len() == models.len()
    &&& forall|j: int|
        0 <= j < bones.len() ==> compose.ensures(
            (&models[j], &inverse_bind_poses[j]),
            #[trigger] bones[j],
        )
}

/// Computes one skinning matrix per joint: what `compose` makes of the
/// joint's model matrix and its inverse bind pose.
pub fn skin<M, C: Fn(&M, &M) -> M>(
    model_matrices: &Vec<M>,
    inverse_bind_poses: &Vec<M>,
    compose: C,
) -> (bones: Vec<M>)
    requires
        model_matrices@.len() == inverse_bind_poses@.len(),
        forall|a: &M, b: &M| compose.requires((a, b)),
    ensures
        skinned(model_matrices@, inverse_bind_poses@, bones@, compose),
{
    let count: usize = model_matrices.len();
    let mut bones: Vec<M> = Vec::new();
    let mut j: usize = 0;
    while j < count
        invariant
            j <= count,
            count == model_matrices@.len(),
            count == inverse_bind_poses@.len(),
            forall|a: &M, b: &M| compose.requires((a, b)),
            bones@.len() == j,
            forall|k: int|
                0 <= k < j ==> compose.ensures(
                    (&model_matrices@[k], &inverse_bind_poses@[k]),
                    #[trigger] bones@[k],
                ),
        decreases count - j,
    {
        let b: M = compose(&model_matrices[j], &inverse_bind_poses[j]);
        bones.push(b);
        j += 1;
    }
    bones
}

/// Computes the skinning matrices of several characters that share one
/// skeleton, laid out character by character: the matrix of joint `j` of
/// character `c` stands at `c * J + j`, where `J` is the number of joints.
pub fn skin_all<M: Copy, C: Fn(&M, &M) -> M>(
    models: &Vec<Vec<M>>,
    inverse_bind_poses: &Vec<M>,
    compose: C,
) -> (bones: Vec<M>)
    requires
        forall|c: int| 0 <= c < models@.len() ==> models@[c]@.len() == inverse_bind_poses@.len(),
        forall|a: &M, b: &M| compose.requires((a, b)),
    ensures
        bones@.len() == models@.len() * inverse_bind_poses@.len(),
        forall|c: int, j: int|
            0 <= c < models@.len() && 0 <= j < inverse_bind_poses@.len() ==> compose.ensures(
                (&#[trigger] models@[c]@[j], &inverse_bind_poses@[j]),
                bones@[c * inverse_bind_poses@.len() + j],
            ),
{
    let count: usize = models.len();
    let joints: usize = inverse_bind_poses.len();
    let mut bones: Vec<M> = Vec::new();
    let mut c: usize = 0;
    while c < count
        invariant
            c <= count,
            count == models@.len(),
            joints == inverse_bind_poses@.len(),
            forall|k: int| 0 <= k < models@.len() ==> models@[k]@.len() == joints,
            forall|a: &M, b: &M| compose.requires((a, b)),
            bones@.len() == c * joints,
            forall|k: int, j: int|
                0 <= k < c && 0 <= j < joints ==> compose.ensures(
                    (&#[trigger] models@[k]@[j], &inverse_bind_poses@[j]),
                    bones@[k * joints + j],
                ),
        decreases count - c,
    {
        let mut j: usize = 0;
        while j < joints
            invariant
                j <= joints,
                c < count,
                count == models@.len(),
                joints == inverse_bind_poses@.len(),
                models@[c as int]@.len() == joints,
                forall|a: &M, b: &M| compose.requires((a, b)),
                bones@.len() == c * joints + j,
                forall|k: int, i: int|
                    0 <= k < c && 0 <= i < joints ==> compose.ensures(
                        (&#[trigger] models@[k]@[i], &inverse_bind_poses@[i]),
                        bones@[k * joints + i],
                    ),
                forall|i: int|
                    0 <= i < j ==> compose.ensures(
                        (&#[trigger] models@[c as int]@[i], &inverse_bind_poses@[i]),
                        bones@[c * joints + i],
                    ),
            decreases joints - j,
        {
            let ghost before = bones@;
            let b: M = compose(&models[c][j], &inverse_bind_poses[j]);
            bones.push(b);
            proof {
                assert forall|k: int, i: int| 0 <= k < c && 0 <= i < joints implies compose.ensures(
                    (&#[trigger] models@[k]@[i], &inverse_bind_poses@[i]),
                    bones@[k * joints + i],
                ) by {
                    lemma_slot_before(k, i, c as int, joints as int);
                    assert(bones@[k * joints + i] == before[k * joints + i]);
                }
                assert forall|i: int| 0 <= i < j + 1 implies compose.ensures(
                    (&#[trigger] models@[c as int]@[i], &inverse_bind_poses@[i]),
                    bones@[c * joints + i],
                ) by {
                    if i < j {
                        assert(bones@[c * joints + i] == before[c * joints + i]);
                    }
                }
            }
            j += 1;
        }
        proof {
            assert((c + 1) * joints == c * joints + joints) by (nonlinear_arith);
        }
        c += 1;
    }
    bones
}

/// A slot of an earlier character lies before the first slot of a later
/// one.
proof fn lemma_slot_before(k: int, i: int, c: int, joints: int)
    requires
        0 <= k < c,
        0 <= i < joints,
    ensures
        0 <= k * joints + i < c * joints,
{
    assert(k * joints + joints <= c * joints) by (nonlinear_arith)
        requires
            k + 1 <= c,
            joints >= 0,
    ;
    assert(k * joints >= 0) by (nonlinear_arith)
        requires
            k >= 0,
            joints >= 0,
    ;
}

/// The number of skinning matrices that a model with `num_bones` bones
/// starts with for `instance_count` instances: one per bone per instance.
pub open spec fn spec_initial_count(instance_count: nat, num_bones: nat) -> nat {
    instance_count * num_bones
}

/// Fills the skinning matrices that a model starts with: `identity` for
/// every bone of every instance.
pub fn initial_bone_matrices<M: Copy>(instance_count: usize, num_bones: usize, identity: M) -> (bones:
    Vec<M>)
    ensures
        bones@.len() == spec_initial_count(instance_count as nat, num_bones as nat),
        forall|k: int| 0 <= k < bones@.len() ==> bones@[k] == identity,
{
    let mut bones: Vec<M> = Vec::new();
    let mut s: usize = 0;
    while s < instance_count
        invariant
            s <= instance_count,
            bones@.len() == s * num_bones,
            forall|k: int| 0 <= k < bones@.len() ==> bones@[k] == identity,
        decreases instance_count - s,
    {
        let mut b: usize = 0;
        while b < num_bones
            invariant
                b <= num_bones,
                s < instance_count,
                bones@.len() == s * num_bones + b,
                forall|k: int| 0 <= k < bones@.len() ==> bones@[k] == identity,
            decreases num_bones - b,
        {
            bones.push(identity);
            b += 1;
        }
        proof {
            assert((s + 1) * num_bones == s * num_bones + num_bones) by (nonlinear_arith);
        }
        s += 1;
    }
    bones
}

} // verus!
