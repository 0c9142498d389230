//! Decides which local branches of a repository can be deleted safely, and
//! drives the deletion while keeping a usable branch checked out.
//!
//! The library never runs a version-control command itself: callers hand it
//! what the repository reported (branch lists, containment lists, command
//! results) and carry out the actions it asks for.
pub mod error;
pub mod names;
pub mod merged;
pub mod identical;
pub mod executor;
pub mod tracking;
pub mod batchappui;
pub mod git;
pub mod app;
pub mod model;
