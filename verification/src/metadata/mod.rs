//! Reflection: a normalised description of every function that an engine
//! knows, laid out by module.

pub mod document;
pub mod function;
pub mod tags;
pub mod tree;
