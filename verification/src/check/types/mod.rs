//! Types of protosnirk values.

pub mod types;
pub mod environment;
pub mod concrete_type;
pub mod identify;
pub mod item_collector;
pub mod expression_collector;
pub mod inferred_type;
pub mod expr_identifier;
pub mod type_concretifier;
