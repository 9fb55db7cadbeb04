//! Relational integrity core: schema validation and referential-action
//! propagation for a database-agnostic query engine.
//!
//! The crate turns an already-parsed schema description into a validated
//! entity model, enforces per-backend naming-uniqueness rules for
//! constraints, resolves referential actions against backend capability,
//! and computes the update/delete propagation implied by those actions at
//! write time.

pub mod actions;
pub mod cascade;
pub mod diagnostics;
pub mod entity;
pub mod namespace;
pub mod propagate;
pub mod resolve;
pub mod schema;
