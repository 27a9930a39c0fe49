//! An interpreter for NoPHP programs given as a syntax tree.

pub mod ast;
pub mod compiler;
pub mod laws;
pub mod modules;
pub mod prelude;
pub mod semantics;
pub mod text;

pub use vstd::hash_map::StringHashMap;
