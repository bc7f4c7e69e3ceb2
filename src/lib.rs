//! An in-memory, register-based IR that a lowering script builds up through a
//! small set of primitives, and the walk that resolves it into a program ready
//! for a code-generation backend.
pub mod emit;
pub mod instruction;
pub mod range;
pub mod registry;
pub mod search;
