//! Workflow engine for verifiable credentials: proof-format dispatch,
//! canonical statement positions, selector resolution, selective disclosure
//! and aggregation of verification outcomes.
//!
//! The engine decides and computes on plain values. Signing, verification,
//! identifier resolution and canonicalization are performed by collaborators
//! of the host, which hands their results to the functions of this crate.

pub mod disclosure;
pub mod error;
pub mod format;
pub mod lifecycle;
pub mod options;
pub mod outcome;
pub mod selector;
pub mod stage;
pub mod statement;
pub mod text;
