//! The query engine: planner and volcano-style operators.

pub mod operator;
pub mod plan;
