//! Node update and hot-reload engine of a live shader-composition graph.
//!
//! Every node of the graph owns a controller that decides, once per frame,
//! whether the resource behind the node (a shader file, a model file, a piece
//! of expression text) has to be rebuilt. The decisions are made here; the
//! file system and the render backend are reached by the caller, which
//! performs the action a decision asks for and reports back what happened.

pub mod catalog;
pub mod editing;
pub mod error;
pub mod frame;
pub mod graph;
pub mod input;
pub mod meta;
pub mod node;
pub mod order;
pub mod path;
pub mod update;
pub mod value;
