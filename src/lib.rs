//! Rhiz: a deliberately minimal task runner.
//!
//! Tasks are declared in a `Rhizfile` as s-expressions:
//!
//! ```text
//! (task "clean"
//!   "Empty the 'target' directory."
//!   (empty-dir "target"))
//! ```
//!
//! The library parses such text into a value tree, compiles the tree into
//! named tasks, and plans the execution of a task as a sequence of validated
//! actions. Performing an action (printing, touching the filesystem,
//! spawning a process) is left to the host program, which reports each
//! outcome back to the plan.
pub mod ast;
pub mod parser;
pub mod compiler;
pub mod text;
pub mod executor;
pub mod functions;
