//! One animated character: a graph, a place in the world and the
//! parameters that the host sets for it.

use vstd::prelude::*;
use crate::animation_graph::{AnimGraph, MAX_DEPTH};
use crate::definition::{graph_buildable, machine_built, ClipMap, GraphDefinition};
use crate::names::NameTable;
use crate::sample::AnimationClip;
use crate::evaluation::graph_advanced;
use crate::output::{graph_jobs, Job};
use crate::skeleton::Skeleton;
use crate::transition::{request_outcome, TransitionError};
use glam::{Quat, Vec3};
use mapgraph::map::slotmap::{EdgeIndex, NodeIndex};

verus! {

/// `glam::Vec3`, a place in the world. It is carried, never read.
#[verifier::external_type_specification]
#[verifier::external_body]
pub struct ExVec3(Vec3);

/// `glam::Quat`, a rotation. It is carried, never read.
#[verifier::external_type_specification]
#[verifier::external_body]
pub struct ExQuat(Quat);

/// The parameters of one character, by small index and by type. The host
/// writes them; the graph only reads.
pub struct ParameterTable {
    pub bools: Vec<bool>,
    pub ints: Vec<i64>,
    pub uints: Vec<usize>,
}

impl ParameterTable {
    /// Creates a table without parameters.
    pub fn new() -> (table: Self)
        ensures
            table.bools@.len() == 0,
            table.ints@.len() == 0,
            table.uints@.len() == 0,
    {
        ParameterTable { bools: Vec::new(), ints: Vec::new(), uints: Vec::new() }
    }

    /// The truth value under `index`, if there is one.
    pub fn get_bool_param(&self, index: usize) -> (r: Option<bool>)
        ensures
            r == (if index < self.bools@.len() {
                Some(self.bools@[index as int])
            } else {
                None
            }),
    {
        if index < self.bools.len() {
            Some(self.bools[index])
        } else {
            None
        }
    }

    /// The signed number under `index`, if there is one.
    pub fn get_int_param(&self, index: usize) -> (r: Option<i64>)
        ensures
            r == (if index < self.ints@.len() {
                Some(self.ints@[index as int])
            } else {
                None
            }),
    {
        if index < self.ints.len() {
            Some(self.ints[index])
        } else {
            None
        }
    }

    /// The unsigned number under `index`, if there is one.
    pub fn get_uint_param(&self, index: usize) -> (r: Option<usize>)
        ensures
            r == (if index < self.uints@.len() {
                Some(self.uints@[index as int])
            } else {
                None
            }),
    {
        if index < self.uints.len() {
            Some(self.uints[index])
        } else {
            None
        }
    }
}

/// One character of the scene.
pub struct Character {
    pub skinned_model_node_idx: usize,
    pub position: Vec3,
    pub orientation: Quat,
    pub anim_graph: AnimGraph,
    pub parameters: ParameterTable,
}

impl Character {
    /// Whether the character differs from `before` in its graph at most.
    pub open spec fn same_body(self, before: Character) -> bool {
        &&& self.skinned_model_node_idx == before.skinned_model_node_idx
        &&& self.position == before.position
        &&& self.orientation == before.orientation
        &&& self.parameters == before.parameters
    }

    /// Whether the character is new: placed as asked, without parameters,
    /// with the graph that `definition` describes.
    pub open spec fn spawned(
        self,
        joint_count: nat,
        skinned_model_node_idx: usize,
        position: Vec3,
        orientation: Quat,
        definition: GraphDefinition,
        clips: ClipMap,
    ) -> bool {
        &&& self.skinned_model_node_idx == skinned_model_node_idx
        &&& self.position == position
        &&& self.orientation == orientation
        &&& self.parameters.bools@.len() == 0
        &&& self.parameters.ints@.len() == 0
        &&& self.parameters.uints@.len() == 0
        &&& machine_built(self.anim_graph.machine, definition, joint_count, clips)
    }

    /// Whether the character has lived through a frame of `dt`
    /// nanoseconds since `before`, and `jobs` is what it asks of the host
    /// for that frame.
    pub open spec fn stepped(self, before: Character, dt: nat, jobs: Seq<Job>) -> bool {
        &&& self.same_body(before)
        &&& self.anim_graph.machine.node_handles == before.anim_graph.machine.node_handles
        &&& self.anim_graph.machine.edge_handles == before.anim_graph.machine.edge_handles
        &&& self.anim_graph.machine.start == before.anim_graph.machine.start
        &&& self.anim_graph.machine.end == before.anim_graph.machine.end
        &&& graph_advanced(
            before.anim_graph.machine.edge_handles@,
            before.anim_graph.machine.nodes(),
            before.anim_graph.machine.edges(),
            before.anim_graph.machine.position(),
            self.anim_graph.machine.nodes(),
            self.anim_graph.machine.edges(),
            self.anim_graph.machine.position(),
            dt,
            MAX_DEPTH as nat,
        )
        &&& jobs == graph_jobs(
            self.anim_graph.machine.edge_handles@,
            self.anim_graph.machine.nodes(),
            self.anim_graph.machine.edges(),
            self.anim_graph.machine.position(),
            MAX_DEPTH as nat,
        )
    }

    /// Creates a character with the joints of `skeleton` at `position`,
    /// turned as `orientation`, animated by the graph that
    /// `animgraph_definition` describes. No character is made when the
    /// graph cannot be built.
    pub fn new(
        skeleton: &Skeleton,
        skinned_model_node_idx: usize,
        position: Vec3,
        orientation: Quat,
        animgraph_definition: &GraphDefinition,
        animations_by_name: &NameTable<AnimationClip>,
    ) -> (r: Option<Self>)
        ensures
            r is Some <==> graph_buildable(*animgraph_definition, animations_by_name@),
            r matches Some(c) ==> c.spawned(
                skeleton.spec_joint_count(),
                skinned_model_node_idx,
                position,
                orientation,
                *animgraph_definition,
                animations_by_name@,
            ),
            r matches Some(c) ==> c.anim_graph.machine.wf(),
    {
        let anim_graph = AnimGraph::build_from_definition(
            skeleton,
            animgraph_definition,
            animations_by_name,
        );
        match anim_graph {
            Some(val) => Some(
                Character {
                    skinned_model_node_idx,
                    position,
                    orientation,
                    anim_graph: val,
                    parameters: ParameterTable::new(),
                },
            ),
            None => None,
        }
    }

    /// Requests the transition to `target` if the truth value under
    /// `param` is set. Where the table has no such value, or the value is
    /// `false`, nothing is asked and nothing changes.
    pub fn request_transition_if(&mut self, param: usize, target: NodeIndex) -> (r: Option<
        Result<EdgeIndex, TransitionError>,
    >)
        ensures
            old(self).anim_graph.machine.wf() ==> final(self).anim_graph.machine.wf(),
            final(self).same_body(*old(self)),
            final(self).anim_graph.machine.node_handles == old(self).anim_graph.machine.node_handles,
            final(self).anim_graph.machine.edge_handles == old(self).anim_graph.machine.edge_handles,
            final(self).anim_graph.machine.start == old(self).anim_graph.machine.start,
            final(self).anim_graph.machine.end == old(self).anim_graph.machine.end,
            r is Some <==> param < old(self).parameters.bools@.len() && old(
                self,
            ).parameters.bools@[param as int],
            r is None ==> final(self).anim_graph.machine.nodes() == old(
                self,
            ).anim_graph.machine.nodes() && final(self).anim_graph.machine.edges() == old(
                self,
            ).anim_graph.machine.edges() && final(self).anim_graph.machine.position() == old(
                self,
            ).anim_graph.machine.position(),
            r matches Some(outcome) ==> request_outcome(
                old(self).anim_graph.machine.nodes(),
                old(self).anim_graph.machine.edges(),
                old(self).anim_graph.machine.position(),
                final(self).anim_graph.machine.nodes(),
                final(self).anim_graph.machine.edges(),
                final(self).anim_graph.machine.position(),
                target,
                outcome,
            ),
    {
        match self.parameters.get_bool_param(param) {
            Some(true) => Some(self.anim_graph.machine.request_transition(target)),
            _ => None,
        }
    }

    /// Advances the character's graph by a frame of `dt` nanoseconds and
    /// returns the jobs that make up its pose after the frame.
    pub fn evaluate(&mut self, dt: u64) -> (jobs: Vec<Job>)
        ensures
            final(self).stepped(*old(self), dt as nat, jobs@),
            old(self).anim_graph.machine.wf() ==> final(self).anim_graph.machine.wf(),
    {
        self.anim_graph.evaluate(dt);
        self.anim_graph.get_output()
    }
}

} // verus!
