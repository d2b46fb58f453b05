//! The joint hierarchy of a character.

use vstd::prelude::*;

verus! {

/// A rigid hierarchy of named joints, fixed once built.
///
/// Joints are numbered from 0. A joint either is a root or names its parent,
/// and a parent always has a smaller number than its children, so a walk in
/// joint order meets every parent before its children.
pub struct Skeleton {
    parents: Vec<Option<usize>>,
    names: Vec<String>,
}

/// Whether every parent in `parents` comes before its child.
pub open spec fn parents_ordered(parents: Seq<Option<usize>>) -> bool {
    forall|j: int|
        0 <= j < parents.len() ==> match #[trigger] parents[j] {
            Some(p) => p < j,
            None => true,
        }
}

/// The names as sequences of characters.
pub open spec fn name_views(names: Seq<String>) -> Seq<Seq<char>> {
    Seq::new(names.len(), |i: int| names[i]@)
}

impl Skeleton {
    /// The parent of each joint, in joint order.
    pub closed spec fn parents(&self) -> Seq<Option<usize>> {
        self.parents@
    }

    /// The name of each joint, in joint order.
    pub closed spec fn names(&self) -> Seq<Seq<char>> {
        name_views(self.names@)
    }

    /// What holds of every skeleton: one name per joint, parents first,
    /// and no more joints than fit a machine word.
    pub open spec fn wf(&self) -> bool {
        &&& self.names().len() == self.parents().len()
        &&& self.parents().len() <= usize::MAX
        &&& parents_ordered(self.parents())
    }

    #[verifier::type_invariant]
    spec fn inv(&self) -> bool {
        self.wf()
    }

    /// The number of joints.
    pub open spec fn spec_joint_count(&self) -> nat {
        self.parents().len()
    }

    /// Whether `joint` has no child, given that children directly follow
    /// their parent when the joints are laid out depth first: the joint is
    /// the last one, or the next joint hangs elsewhere.
    pub open spec fn spec_is_leaf(&self, joint: int) -> bool {
        joint + 1 == self.parents().len() || self.parents()[joint + 1] != Some(joint as usize)
    }

    /// Builds a skeleton from the parent and the name of each joint.
    /// Fails when the two lists differ in length or some joint names a
    /// parent that does not come before it.
    pub fn new(parents: Vec<Option<usize>>, names: Vec<String>) -> (r: Option<Skeleton>)
        ensures
            r is Some <==> names.len() == parents.len() && parents_ordered(parents@),
            r matches Some(s) ==> s.parents() == parents@ && s.names() == name_views(names@)
                && s.wf(),
    {
        if parents.len() != names.len() {
            return None;
        }
        let mut j: usize = 0;
        while j < parents.len()
            invariant
                j <= parents.len(),
                forall|k: int|
                    0 <= k < j ==> match #[trigger] parents[k] {
                        Some(p) => p < k,
                        None => true,
                    },
            decreases parents.len() - j,
        {
            match parents[j] {
                Some(p) => {
                    if p >= j {
                        return None;
                    }
                },
                None => {},
            }
            j += 1;
        }
        Some(Skeleton { parents, names })
    }

    /// The number of joints.
    pub fn joint_count(&self) -> (n: usize)
        ensures
            n == self.spec_joint_count(),
            self.wf(),
    {
        proof {
            use_type_invariant(self);
        }
        self.parents.len()
    }

    /// The number of four-joint groups that hold all joints.
    pub fn soa_joint_count(&self) -> (n: usize)
        ensures
            n == (self.spec_joint_count() + 3) / 4,
    {
        let count: usize = self.parents.len();
        count / 4 + (if count % 4 == 0 {
            0
        } else {
            1
        })
    }

    /// The parent of `joint`, or `None` for a root.
    pub fn parent_of(&self, joint: usize) -> (r: Option<usize>)
        requires
            joint < self.spec_joint_count(),
        ensures
            r == self.parents()[joint as int],
            r matches Some(p) ==> p < joint,
    {
        proof {
            use_type_invariant(self);
        }
        self.parents[joint]
    }

    /// Whether `joint` is a leaf of a depth-first laid out hierarchy.
    pub fn is_leaf(&self, joint: usize) -> (r: bool)
        requires
            joint < self.spec_joint_count(),
        ensures
            r == self.spec_is_leaf(joint as int),
    {
        let count: usize = self.parents.len();
        let next: usize = joint + 1;
        if next == count {
            true
        } else {
            match self.parents[next] {
                Some(p) => p != joint,
                None => true,
            }
        }
    }

    /// The first joint called `name`, if there is one.
    pub fn index_of_name(&self, name: &str) -> (r: Option<usize>)
        ensures
            match r {
                Some(j) => j < self.spec_joint_count() && self.names()[j as int] == name@
                    && forall|k: int| 0 <= k < j ==> self.names()[k] != name@,
                None => forall|k: int| 0 <= k < self.spec_joint_count() ==> self.names()[k]
                    != name@,
            },
    {
        proof {
            use_type_invariant(self);
        }
        let key: String = name.to_owned();
        let mut j: usize = 0;
        while j < self.names.len()
            invariant
                j <= self.names.len(),
                key@ == name@,
                self.names().len() == self.names.len(),
                self.spec_joint_count() == self.names.len(),
                self.names() == name_views(self.names@),
                forall|k: int| 0 <= k < j ==> self.names()[k] != name@,
            decreases self.names.len() - j,
        {
            if self.names[j] == key {
                assert(self.names()[j as int] == self.names@[j as int]@);
                return Some(j);
            }
            assert(self.names()[j as int] == self.names@[j as int]@);
            j += 1;
        }
        None
    }
}

} // verus!
