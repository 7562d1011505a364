//! A modular audio synthesis engine: a graph of signal nodes sampled one frame
//! at a time, and a postfix compiler that builds such a graph from program text.
//!
//! The engine is generic over the sample scalar: every arithmetic step that a
//! node takes goes through the [`scalar::Scalar`] trait, so the contracts here
//! state each node's update as an exact composition of scalar operations.
pub mod scalar;
pub mod module;
pub mod modules;
pub mod prelude;
pub mod pure;
pub mod topo;
pub mod graph;
pub mod laws;
pub mod text;
pub mod catalog;
pub mod compiler;
pub mod program;
