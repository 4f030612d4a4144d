//! Planning changes to source files and applying them.

pub mod diff;
pub mod patch;
pub mod planner;
