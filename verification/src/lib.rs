//! Module resolution and function-metadata reflection for an embeddable
//! scripting engine.
//!
//! A host registers modules under path names in a [`StaticModuleResolver`];
//! script imports are resolved against it through the [`ModuleResolver`]
//! interface.  The [`metadata`] module walks every function an [`Engine`]
//! knows about and normalises it into one hierarchical description.

pub mod ast;
pub mod engine;
pub mod entries;
pub mod metadata;
pub mod module;
pub mod resolvers;
pub mod result;
pub mod text;
pub mod token;
