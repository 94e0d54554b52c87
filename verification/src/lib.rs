//! The expansion engine of a typestate code generator.
//!
//! A structure declares a finite list of named states. Each of its operations
//! may assert, reject, assign or delete some of them. The engine checks those
//! declarations for consistency and computes, for every operation, the marker
//! tuple that a value must carry to be accepted and the one it carries
//! afterwards.
//!
//! The engine works on a small model of the syntax it rewrites (options,
//! attributes, generic parameters, paths) and answers with a plan of edits.
//! Parsing source text into that model and applying the plan to a real syntax
//! tree is left to the caller.

pub use markers::{N, Y, __};

pub mod declaration;
pub mod designated;
pub mod documentation;
pub mod expand_impl;
pub mod expand_struct;
pub mod markers;
pub mod names;
pub mod ruleset;
pub mod signature;
pub mod stateset;
pub mod syntax;
pub mod typestate;
pub mod visit;
