//! Verified orchestration of brokerage statement imports.
//!
//! The library decides which statement sources still need importing, picks the
//! importer that handles each of them, and writes the normalized records and
//! the import bookkeeping to a ledger store, either directly or inside one
//! transactional scope that is committed or aborted as a unit.

pub mod error;
pub mod guarantees;
pub mod importer;
pub mod model;
pub mod orchestrator;
pub mod phase;
pub mod registry;
pub mod store;
pub mod summary;
