//! Validates and aggregates example-program metadata declared in a project
//! manifest, and prepares a deterministic catalog for rendering.
//!
//! The manifest is parsed by `toml_edit`; everything after that boundary —
//! required-field validation, strict-mode checks, grouping by category and
//! deterministic ordering — is verified code.

pub mod aggregate;
pub mod extract;
pub mod laws;
pub mod manifest;
pub mod order;
pub mod pipeline;
pub mod sorting;
pub mod types;
