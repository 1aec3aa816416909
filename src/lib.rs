//! An evaluator for a small Lisp: an explicit work-stack machine with proper
//! tail calls, user-defined functions and macros, and non-local exits.
pub mod builtins;
pub mod data_structures;
pub mod integer;
pub mod interpret;
pub mod machine;
pub mod parse;
pub mod render;
pub mod store;
