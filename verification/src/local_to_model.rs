//! From joint-local matrices to model-space matrices.

use vstd::prelude::*;
use crate::skeleton::Skeleton;

verus! {

/// A node that turns the local pose in one buffer into the model-space
/// matrices of another.
#[derive(Clone, Copy, Debug, PartialEq, Eq, Structural)]
pub struct LocalToModelNode {
    pub joint_count: usize,
    pub input: usize,
}

/// Whether joint `j` of `models` is resolved against its parent: a root
/// keeps its local matrix, and any other joint holds what `compose` makes
/// of its parent's model matrix and its own local matrix, in this order.
pub open spec fn joint_resolved<M, C: Fn(&M, &M) -> M>(
    parents: Seq<Option<usize>>,
    locals: Seq<M>,
    models: Seq<M>,
    compose: C,
    j: int,
) -> bool {
    match parents[j] {
        None => models[j] == locals[j],
        Some(p) => compose.ensures((&models[p as int], &locals[j]), models[j]),
    }
}

/// Whether `models` is the model-space form of `locals` over a hierarchy.
pub open spec fn propagated<M, C: Fn(&M, &M) -> M>(
    parents: Seq<Option<usize>>,
    locals: Seq<M>,
    models: Seq<M>,
    compose: C,
) -> bool {
    &&& models.len() == locals.len()
    &&& forall|j: int| 0 <= j < models.len() ==> joint_resolved(parents, locals, models, compose, j)
}

impl LocalToModelNode {
    /// Creates the node for the joints of `skeleton`, reading the local
    /// pose from the buffer `locals`.
    pub fn new(skeleton: &Skeleton, locals: usize) -> (node: Self)
        ensures
            node.joint_count == skeleton.spec_joint_count(),
            node.input == locals,
    {
        LocalToModelNode { joint_count: skeleton.joint_count(), input: locals }
    }

    /// Resolves the hierarchy: walks the joints in order, keeps the local
    /// matrix of each root and composes every other joint with the model
    /// matrix of its parent, which the walk has already produced.
    pub fn propagate<M: Copy, C: Fn(&M, &M) -> M>(
        skeleton: &Skeleton,
        locals: &Vec<M>,
        compose: C,
    ) -> (models: Vec<M>)
        requires
            locals@.len() == skeleton.spec_joint_count(),
            forall|a: &M, b: &M| compose.requires((a, b)),
        ensures
            propagated(skeleton.parents(), locals@, models@, compose),
    {
        let count: usize = skeleton.joint_count();
        let mut models: Vec<M> = Vec::new();
        let mut j: usize = 0;
        while j < count
            invariant
                j <= count,
                count == locals@.len(),
                count == skeleton.spec_joint_count(),
                skeleton.wf(),
                forall|a: &M, b: &M| compose.requires((a, b)),
                models@.len() == j,
                forall|k: int|
                    0 <= k < j ==> joint_resolved(
                        skeleton.parents(),
                        locals@,
                        models@,
                        compose,
                        k,
                    ),
            decreases count - j,
        {
            let ghost before = models@;
            let m: M = match skeleton.parent_of(j) {
                None => locals[j],
                Some(p) => compose(&models[p], &locals[j]),
            };
            models.push(m);
            proof {
                assert forall|k: int| 0 <= k < j + 1 implies joint_resolved(
                    skeleton.parents(),
                    locals@,
                    models@,
                    compose,
                    k,
                ) by {
                    if k < j {
                        assert(joint_resolved(skeleton.parents(), locals@, before, compose, k));
                        assert(models@[k] == before[k]);
                        match skeleton.parents()[k] {
                            Some(p) => {
                                assert(models@[p as int] == before[p as int]);
                            },
                            None => {},
                        }
                    }
                }
            }
            j += 1;
        }
        models
    }
}

/// In a resolved pose every root holds its local matrix, and every other
/// joint holds a composition of its parent's model matrix with its own
/// local matrix.
pub proof fn lemma_propagated_joint<M, C: Fn(&M, &M) -> M>(
    skeleton: Skeleton,
    locals: Seq<M>,
    models: Seq<M>,
    compose: C,
    j: int,
)
    requires
        skeleton.wf(),
        propagated(skeleton.parents(), locals, models, compose),
        0 <= j < models.len(),
        j < skeleton.spec_joint_count(),
    ensures
        skeleton.parents()[j] is None ==> models[j] == locals[j],
        skeleton.parents()[j] matches Some(p) ==> p < j && compose.ensures(
            (&models[p as int], &locals[j]),
            models[j],
        ),
{
    assert(joint_resolved(skeleton.parents(), locals, models, compose, j));
}

} // verus!
