//! The faults that end an invocation.

use vstd::prelude::*;

verus! {

/// Why an invocation of the engine ended without its regular output.
#[derive(Clone, Copy, Debug, PartialEq, Eq, Structural)]
pub enum WorkflowError {
    /// A context could not be resolved or the claim graph is invalid.
    CanonicalizationError,
    /// The unsigned credential failed structural validation.
    MalformedCredential,
    /// The proof format tag names no known format.
    UnsupportedProofFormat,
    /// The requested combination of options is not supported.
    NotImplemented,
    /// A verification result carries at least one error.
    VerificationFailure,
    /// No key material could be obtained.
    KeyResolutionError,
    /// An identifier could not be resolved.
    ResolverError,
}

impl WorkflowError {
    /// Configuration faults are raised before any input is read and before
    /// any collaborator is contacted.
    pub open spec fn is_configuration_fault(self) -> bool {
        self == WorkflowError::UnsupportedProofFormat || self == WorkflowError::NotImplemented
    }

    /// Tells whether this fault belongs to the configuration of the
    /// invocation rather than to its input or its collaborators.
    pub fn is_configuration(&self) -> (fatal: bool)
        ensures
            fatal == self.is_configuration_fault(),
    {
        match self {
            WorkflowError::UnsupportedProofFormat => true,
            WorkflowError::NotImplemented => true,
            _ => false,
        }
    }

    /// A reported negative outcome is returned normally to the caller; every
    /// other fault aborts the invocation.
    pub fn is_reported_outcome(&self) -> (reported: bool)
        ensures
            reported == (*self == WorkflowError::VerificationFailure),
    {
        match self {
            WorkflowError::VerificationFailure => true,
            _ => false,
        }
    }
}

} // verus!
