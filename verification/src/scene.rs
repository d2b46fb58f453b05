//! The characters of a scene, grouped by type.

use vstd::prelude::*;
use crate::animation_graph::AnimGraph;
use crate::character::Character;
use crate::definition::{graph_buildable, machine_built, GraphDefinition};
use crate::names::NameTable;
use crate::sample::AnimationClip;
use crate::output::Job;
use crate::skeleton::Skeleton;
use crate::skinning::skin_all;
use glam::{Quat, Vec3};

verus! {

/// Where one character is put: its place and the way it faces.
pub struct Placement {
    pub position: Vec3,
    pub rotation: Quat,
}

/// The characters that share one skinned model.
pub struct CharactersContext {
    pub characters: Vec<Character>,
    pub skinned_model_idx: usize,
}

/// The animated part of the game world.
pub struct Scene {
    pub characters_contexts: Vec<CharactersContext>,
    pub character_types_by_name: NameTable<usize>,
}

impl CharactersContext {
    /// Whether every character of the context has lived through a frame
    /// of `dt` nanoseconds since `before`, with `frames` holding what each
    /// asks of the host.
    pub open spec fn stepped(self, before: CharactersContext, dt: nat, frames: Seq<Vec<Job>>) -> bool {
        &&& self.skinned_model_idx == before.skinned_model_idx
        &&& self.characters@.len() == before.characters@.len()
        &&& frames.len() == before.characters@.len()
        &&& forall|k: int|
            0 <= k < frames.len() ==> (#[trigger] self.characters@[k]).stepped(
                before.characters@[k],
                dt,
                frames[k]@,
            )
    }

    /// Where each character stands, in the order of the characters.
    pub fn placements(&self) -> (instances: Vec<Placement>)
        ensures
            instances@.len() == self.characters@.len(),
            forall|c: int|
                0 <= c < instances@.len() ==> (#[trigger] instances@[c]).position
                    == self.characters@[c].position && instances@[c].rotation
                    == self.characters@[c].orientation,
    {
        let mut instances: Vec<Placement> = Vec::new();
        let mut c: usize = 0;
        while c < self.characters.len()
            invariant
                c <= self.characters@.len(),
                instances@.len() == c,
                forall|k: int|
                    0 <= k < c ==> (#[trigger] instances@[k]).position
                        == self.characters@[k].position && instances@[k].rotation
                        == self.characters@[k].orientation,
            decreases self.characters@.len() - c,
        {
            instances.push(
                Placement {
                    position: self.characters[c].position,
                    rotation: self.characters[c].orientation,
                },
            );
            c += 1;
        }
        instances
    }

    /// Whether `models` holds one pose per character, each with one
    /// matrix per joint of `joints` joints.
    pub open spec fn poses_fit<M>(self, models: Seq<Vec<M>>, joints: nat) -> bool {
        &&& models.len() == self.characters@.len()
        &&& forall|c: int| 0 <= c < models.len() ==> (#[trigger] models[c])@.len() == joints
    }

    /// Puts together what the renderer takes of the context for one
    /// frame: where each character stands, and the skinning matrices of
    /// all characters laid out character by character, the matrix of
    /// joint `j` of character `c` at `c * J + j`. Nothing is put together
    /// when `models` does not hold one pose of `J` matrices per character.
    pub fn frame_output<M: Copy, C: Fn(&M, &M) -> M>(
        &self,
        models: &Vec<Vec<M>>,
        inverse_bind_poses: &Vec<M>,
        compose: C,
    ) -> (r: Option<(Vec<Placement>, Vec<M>)>)
        requires
            forall|a: &M, b: &M| compose.requires((a, b)),
        ensures
            r is Some <==> self.poses_fit(models@, inverse_bind_poses@.len()),
            r matches Some(out) ==> {
                &&& out.0@.len() == self.characters@.len()
                &&& forall|c: int|
                    0 <= c < out.0@.len() ==> (#[trigger] out.0@[c]).position
                        == self.characters@[c].position && out.0@[c].rotation
                        == self.characters@[c].orientation
                &&& out.1@.len() == self.characters@.len() * inverse_bind_poses@.len()
                &&& forall|c: int, j: int|
                    0 <= c < models@.len() && 0 <= j < inverse_bind_poses@.len()
                        ==> compose.ensures(
                        (&#[trigger] models@[c]@[j], &inverse_bind_poses@[j]),
                        out.1@[c * inverse_bind_poses@.len() + j],
                    )
            },
    {
        if models.len() != self.characters.len() {
            return None;
        }
        let joints: usize = inverse_bind_poses.len();
        let mut c: usize = 0;
        while c < models.len()
            invariant
                c <= models@.len(),
                joints == inverse_bind_poses@.len(),
                models@.len() == self.characters@.len(),
                forall|k: int| 0 <= k < c ==> (#[trigger] models@[k])@.len() == joints,
            decreases models@.len() - c,
        {
            if models[c].len() != joints {
                return None;
            }
            c += 1;
        }
        let instances: Vec<Placement> = self.placements();
        let bones: Vec<M> = skin_all(models, inverse_bind_poses, compose);
        Some((instances, bones))
    }

    /// Advances every character by a frame of `dt` nanoseconds, in order,
    /// and returns the jobs of each.
    pub fn update(&mut self, dt: u64) -> (frames: Vec<Vec<Job>>)
        ensures
            final(self).stepped(*old(self), dt as nat, frames@),
    {
        let ghost before = *self;
        let count: usize = self.characters.len();
        let mut frames: Vec<Vec<Job>> = Vec::new();
        let mut k: usize = 0;
        while k < count
            invariant
                k <= count,
                count == before.characters@.len(),
                self.characters@.len() == count,
                self.skinned_model_idx == before.skinned_model_idx,
                frames@.len() == k,
                forall|m: int|
                    0 <= m < k ==> (#[trigger] self.characters@[m]).stepped(
                        before.characters@[m],
                        dt as nat,
                        frames@[m]@,
                    ),
                forall|m: int| k <= m < count ==> self.characters@[m] == before.characters@[m],
            decreases count - k,
        {
            let jobs: Vec<Job> = self.characters[k].evaluate(dt);
            frames.push(jobs);
            k += 1;
        }
        frames
    }
}

impl Scene {
    /// Creates a scene without characters.
    pub fn new() -> (scene: Self)
        ensures
            scene.characters_contexts@.len() == 0,
            scene.character_types_by_name@ == Map::<Seq<char>, usize>::empty(),
    {
        Scene { characters_contexts: Vec::new(), character_types_by_name: NameTable::new() }
    }

    /// The character type registered under `name`.
    pub fn character_type(&self, name: &str) -> (r: Option<usize>)
        ensures
            r == (if self.character_types_by_name@.dom().contains(name@) {
                Some(self.character_types_by_name@[name@])
            } else {
                None
            }),
    {
        self.character_types_by_name.get(name)
    }

    /// Adds a type of characters under `name`, one character per
    /// placement, all animated by the graph that `animgraph_definition`
    /// describes, and returns the index of the type. A name that was
    /// taken names the new type from then on. When the graph cannot be
    /// built for a character, nothing is added.
    pub fn add_characters(
        &mut self,
        skinned_model_idx: usize,
        instances: &Vec<Placement>,
        animgraph_definition: &GraphDefinition,
        skeleton: &Skeleton,
        animations_by_name: &NameTable<AnimationClip>,
        name: String,
    ) -> (r: Option<usize>)
        ensures
            r is Some <==> instances@.len() == 0 || graph_buildable(
                *animgraph_definition,
                animations_by_name@,
            ),
            r is None ==> final(self).characters_contexts@ == old(self).characters_contexts@
                && final(self).character_types_by_name@ == old(self).character_types_by_name@,
            r matches Some(idx) ==> {
                &&& idx == old(self).characters_contexts@.len()
                &&& final(self).characters_contexts@.len() == idx + 1
                &&& forall|c: int|
                    0 <= c < idx ==> final(self).characters_contexts@[c] == old(self).characters_contexts@[c]
                &&& final(self).characters_contexts@[idx as int].skinned_model_idx
                    == skinned_model_idx
                &&& final(self).characters_contexts@[idx as int].characters@.len()
                    == instances@.len()
                &&& forall|k: int|
                    0 <= k < instances@.len() ==> (#[trigger] final(self).characters_contexts@[idx as int].characters@[k]).spawned(
                        skeleton.spec_joint_count(),
                        idx,
                        instances@[k].position,
                        instances@[k].rotation,
                        *animgraph_definition,
                        animations_by_name@,
                    )
                &&& final(self).character_types_by_name@ == old(self).character_types_by_name@.insert(
                    name@,
                    idx,
                )
            },
    {
        let idx: usize = self.characters_contexts.len();
        let mut characters: Vec<Character> = Vec::new();
        let mut k: usize = 0;
        while k < instances.len()
            invariant
                k <= instances.len(),
                characters@.len() == k,
                k > 0 ==> graph_buildable(*animgraph_definition, animations_by_name@),
                forall|m: int|
                    0 <= m < k ==> (#[trigger] characters@[m]).spawned(
                        skeleton.spec_joint_count(),
                        idx,
                        instances@[m].position,
                        instances@[m].rotation,
                        *animgraph_definition,
                        animations_by_name@,
                    ),
            decreases instances.len() - k,
        {
            let character = Character::new(
                skeleton,
                idx,
                instances[k].position,
                instances[k].rotation,
                animgraph_definition,
                animations_by_name,
            );
            match character {
                Some(val) => {
                    characters.push(val);
                },
                None => {
                    return None;
                },
            }
            k += 1;
        }
        self.characters_contexts.push(CharactersContext { characters, skinned_model_idx });
        let _ = self.character_types_by_name.insert(name, idx);
        Some(idx)
    }

    /// Advances every character of every type by a frame of `dt`
    /// nanoseconds and returns, type by type, the jobs of each character.
    pub fn update_characters(&mut self, dt: u64) -> (frames: Vec<Vec<Vec<Job>>>)
        ensures
            final(self).character_types_by_name@ == old(self).character_types_by_name@,
            final(self).characters_contexts@.len() == old(self).characters_contexts@.len(),
            frames@.len() == old(self).characters_contexts@.len(),
            forall|c: int|
                0 <= c < frames@.len() ==> (#[trigger] final(self).characters_contexts@[c]).stepped(
                    old(self).characters_contexts@[c],
                    dt as nat,
                    frames@[c]@,
                ),
    {
        let ghost before = *self;
        let count: usize = self.characters_contexts.len();
        let mut frames: Vec<Vec<Vec<Job>>> = Vec::new();
        let mut c: usize = 0;
        while c < count
            invariant
                c <= count,
                count == before.characters_contexts@.len(),
                self.characters_contexts@.len() == count,
                self.character_types_by_name@ == before.character_types_by_name@,
                frames@.len() == c,
                forall|m: int|
                    0 <= m < c ==> (#[trigger] self.characters_contexts@[m]).stepped(
                        before.characters_contexts@[m],
                        dt as nat,
                        frames@[m]@,
                    ),
                forall|m: int|
                    c <= m < count ==> self.characters_contexts@[m]
                        == before.characters_contexts@[m],
            decreases count - c,
        {
            let context_frames: Vec<Vec<Job>> = self.characters_contexts[c].update(dt);
            frames.push(context_frames);
            c += 1;
        }
        frames
    }

    /// Gives every character of the type `character_type_idx` the graph
    /// that `definition` describes, freshly built. When the graph cannot be
    /// built, no character changes and the result is `false`.
    pub fn change_anim_graphs(
        &mut self,
        character_type_idx: usize,
        definition: &GraphDefinition,
        skeleton: &Skeleton,
        animations_by_name: &NameTable<AnimationClip>,
    ) -> (r: bool)
        requires
            character_type_idx < old(self).characters_contexts@.len(),
        ensures
            r == (old(self).characters_contexts@[character_type_idx as int].characters@.len() == 0
                || graph_buildable(*definition, animations_by_name@)),
            final(self).character_types_by_name@ == old(self).character_types_by_name@,
            final(self).characters_contexts@.len() == old(self).characters_contexts@.len(),
            forall|c: int|
                0 <= c < old(self).characters_contexts@.len() && c != character_type_idx
                    ==> final(self).characters_contexts@[c] == old(self).characters_contexts@[c],
            final(self).characters_contexts@[character_type_idx as int].skinned_model_idx == old(self).characters_contexts@[character_type_idx as int].skinned_model_idx,
            final(self).characters_contexts@[character_type_idx as int].characters@.len() == old(self).characters_contexts@[character_type_idx as int].characters@.len(),
            forall|k: int|
                0 <= k < old(self).characters_contexts@[character_type_idx as int].characters@.len()
                    ==> {
                    let after = #[trigger] final(self).characters_contexts@[character_type_idx as int].characters@[k];
                    let before = old(self).characters_contexts@[character_type_idx as int].characters@[k];
                    if r {
                        after.same_body(before) && machine_built(
                            after.anim_graph.machine,
                            *definition,
                            skeleton.spec_joint_count(),
                            animations_by_name@,
                        )
                    } else {
                        after == before
                    }
                },
    {
        let ghost before = *self;
        let count: usize = self.characters_contexts[character_type_idx].characters.len();
        let mut k: usize = 0;
        while k < count
            invariant
                k <= count,
                before == *old(self),
                character_type_idx < before.characters_contexts@.len(),
                self.characters_contexts@.len() == before.characters_contexts@.len(),
                self.character_types_by_name@ == before.character_types_by_name@,
                count == before.characters_contexts@[character_type_idx as int].characters@.len(),
                self.characters_contexts@[character_type_idx as int].characters@.len() == count,
                self.characters_contexts@[character_type_idx as int].skinned_model_idx
                    == before.characters_contexts@[character_type_idx as int].skinned_model_idx,
                k > 0 ==> graph_buildable(*definition, animations_by_name@),
                forall|c: int|
                    0 <= c < before.characters_contexts@.len() && c != character_type_idx
                        ==> self.characters_contexts@[c] == before.characters_contexts@[c],
                forall|m: int|
                    0 <= m < k ==> {
                        let after = #[trigger] self.characters_contexts@[character_type_idx as int].characters@[m];
                        after.same_body(
                            before.characters_contexts@[character_type_idx as int].characters@[m],
                        ) && machine_built(
                            after.anim_graph.machine,
                            *definition,
                            skeleton.spec_joint_count(),
                            animations_by_name@,
                        )
                    },
                forall|m: int|
                    k <= m < count
                        ==> self.characters_contexts@[character_type_idx as int].characters@[m]
                        == before.characters_contexts@[character_type_idx as int].characters@[m],
            decreases count - k,
        {
            let updated_anim_graph = AnimGraph::build_from_definition(
                skeleton,
                definition,
                animations_by_name,
            );
            match updated_anim_graph {
                Some(val) => {
                    self.characters_contexts[character_type_idx].characters[k].anim_graph = val;
                },
                None => {
                    return false;
                },
            }
            k += 1;
        }
        true
    }
}

} // verus!
