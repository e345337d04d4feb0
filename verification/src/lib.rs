//! Embedding a tree of Lua source files and serving it to `require`.
//!
//! The files of a tree are given names by [`naming`], collected into a map of
//! modules by [`tree`], and wrapped with a label into [`LuaModules`]. A
//! [`Searcher`] serves such a tree to the engine; [`ContextExt`] makes one and
//! appends it to the engine's list of searchers.

pub mod engine;
pub mod invocation;
pub mod modules;
pub mod naming;
pub mod searcher;
pub mod text;
pub mod tree;

pub use modules::{LuaModules, ModuleMap};
pub use searcher::{ContextExt, Searcher};
