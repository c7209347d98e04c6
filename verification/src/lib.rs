//! Semantic resolution and code generation pipeline for a small
//! smart-contract language: a syntax tree is resolved into a fully typed,
//! inheritance-flattened `Namespace`, lowered per contract into a
//! control-flow-graph object, linked into one loadable module, and run by
//! a small register machine.

pub mod ast;
pub mod bases;
pub mod cfg;
pub mod link;
pub mod vm;
pub mod diag;
pub mod docgen;
pub mod namespace;
pub mod sema;
pub mod types;
pub mod wide;
