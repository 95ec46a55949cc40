//! Planning a statement and carrying the plan out.

pub mod executor;
pub mod planner;
