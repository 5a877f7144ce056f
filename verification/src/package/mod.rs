//! Package recipes: names and versions, dependencies, the recipe itself,
//! its build script and the tree of what it needs.

pub mod dependency;
pub mod name;
pub mod package;
pub mod resolution;
pub mod script;
pub mod tree;
