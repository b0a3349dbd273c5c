//! Checks that every member package of a cargo workspace delegates its lint
//! configuration to the workspace root, by requiring `lints.workspace = true`
//! in each member's manifest.
//!
//! `manifest` holds the parsed manifest value tree and the `lints.workspace`
//! lookup; `validate` classifies each member package and aggregates every
//! failure without stopping at the first one; `laws` states and proves the
//! checker's guarantees once for all inputs.

pub mod laws;
pub mod manifest;
pub mod validate;
