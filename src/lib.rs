//! Scaffolding generator for deployment artifacts: a validated project
//! configuration is projected onto per-artifact templates, rendered by flat
//! placeholder substitution, and turned into a plan of non-destructive writes.
pub mod text;
pub mod template;
pub mod config;
pub mod authoring;
pub mod templates;
pub mod generator;
pub mod writer;
pub mod pipeline;
pub mod probe;
