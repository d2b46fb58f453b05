//! Control core of a skeletal animation engine.
//!
//! The crate keeps the discrete side of character animation: skeleton
//! hierarchies, clip playheads, blend weights, cross-fade transitions, nested
//! state machines and the graph that ties them together. Time is counted in
//! whole nanoseconds and weights and speeds in units of 1/65536, so every
//! rule below is exact. A frame advances the graph and yields a list of
//! jobs; the jobs are resolved into steps that name their operands. The
//! numeric kernels that touch joint transforms are handed in by the caller,
//! and the traversals that drive them are proved against whatever those
//! kernels promise.

pub mod animation_graph;
pub mod blend;
pub mod character;
pub mod definition;
pub mod evaluation;
pub mod local_to_model;
pub mod names;
pub mod output;
pub mod plan;
pub mod sample;
pub mod scene;
pub mod skeletal_animate;
pub mod skeleton;
pub mod skinning;
pub mod store;
pub mod transition;
pub mod ui;
pub mod weight;
