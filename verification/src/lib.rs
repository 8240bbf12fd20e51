//! Extraction of ECMAScript-module export dependencies from a parsed module.
//!
//! A module's top-level statements are walked twice. The pre-walk defines the
//! bindings that the statements introduce and turns every re-export into
//! dependency records; the walk turns the remaining export forms into records,
//! resolving exported names against the imports seen before. Each syntactic
//! form is offered to an ordered chain of plugins, and the first plugin that
//! claims it decides what is recorded.

pub mod span;
pub mod dependency;
pub mod ast;
pub mod bindings;
pub mod name_set;
pub mod import_map;
pub mod inner_graph;
pub mod parser;
pub mod records;
pub mod parser_plugin;
pub mod walk_block_pre;
pub mod walk;
pub mod invariants;
pub mod laws;
