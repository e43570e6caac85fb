//! Crash-safe update application for a desktop program whose resource
//! directory has to be replaced while the program itself is stopped.
//!
//! The crate holds the decisions of the update protocol and an in-memory
//! model of the directories it works on; the caller performs the
//! filesystem and process operations that the decisions ask for.

pub mod logline;
pub mod mirror;
pub mod orchestrator;
pub mod probe;
pub mod reaper;
pub mod request;
pub mod swap;
pub mod text;
pub mod tree;
pub mod workspace;
