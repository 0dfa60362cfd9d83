//! Resolution of semantic-convention registries.
//!
//! A registry is described by a set of schema documents, each holding raw
//! group definitions (attribute groups, metrics, spans, events, resources).
//! This crate merges those documents into one validated, immutable
//! [`pipeline::ResolvedRegistry`]: it resolves `extends` inheritance edges
//! between groups, merges attribute lists with field-level override rules,
//! detects duplicate and conflicting identifiers, and accumulates every
//! diagnostic it finds in a [`diag::DiagnosticResult`] without aborting on
//! the first error.

pub mod attributes;
pub mod checker;
pub mod diag;
pub mod loader;
pub mod logger;
pub mod lookup;
pub mod metrics;
pub mod model;
pub mod pipeline;
pub mod registry;
pub mod resolver;
