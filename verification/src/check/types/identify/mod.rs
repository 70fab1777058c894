//! Identifying the types of program values by inference over a graph.

pub mod graph_ops;
pub mod type_graph;
pub mod expr_checker;

pub use self::type_graph::{InferenceSource, TypeGraph, TypeNode, TypeNodeView};
