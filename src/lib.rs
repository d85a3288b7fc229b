//! Resumable, concurrent moving of files and directory trees.
//!
//! The library holds the decisions of a move: how much of an existing
//! destination already matches its source, what a single file transfer does
//! next, how a tree's entries map to jobs, and when the source may be removed.
//! The I/O itself is performed by the caller, which feeds results back in.
pub mod prefix;
pub mod scan;
pub mod task;
pub mod engine;
pub mod config;
