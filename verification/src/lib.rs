//! A resolver for a localization resource language.
//!
//! Resources declare named entities, macros, and hashes (branching values).
//! A `Locale` compiles resource text into an environment and resolves every
//! public entity, together with caller-supplied runtime data, into plain
//! runtime values.

pub mod ast;
pub mod compiler;
pub mod numstr;
pub mod resolver;
pub mod model;
pub mod parse;
pub mod context;
pub mod laws;
