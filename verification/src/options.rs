//! The commands of the engine and the options they carry.

use vstd::prelude::*;

verus! {

/// What a proof is meant to show.
#[derive(Clone, Copy, Debug, PartialEq, Eq, Structural)]
pub enum ProofPurpose {
    AssertionMethod,
    Authentication,
    KeyAgreement,
    ContractAgreement,
    CapabilityInvocation,
    CapabilityDelegation,
}

/// The options of a proof. The lifecycle reads them and never changes them.
#[derive(Debug)]
pub struct ProofOptions {
    /// The tag of the proof format, as the caller wrote it.
    pub proof_format: String,
    /// The identifier of the verification method.
    pub verification_method: Option<String>,
    /// The time of creation.
    pub created: Option<String>,
    /// The challenge that binds the proof against replay.
    pub challenge: Option<String>,
    /// The domain that binds the proof against replay.
    pub domain: Option<String>,
    /// What the proof is meant to show.
    pub proof_purpose: Option<ProofPurpose>,
}

/// Where the key material comes from.
#[derive(Debug)]
pub struct KeyArg {
    /// The file that holds the key.
    pub key_path: Option<String>,
    /// The key itself.
    pub jwk: Option<String>,
    /// Whether a signing agent holds the key and signs in its place.
    pub ssh_agent: bool,
}

impl KeyArg {
    /// Tells whether key material is given at all: inline, in a file, or
    /// through an agent.
    pub fn is_given(&self) -> (given: bool)
        ensures
            given == (self.ssh_agent || self.jwk is Some || self.key_path is Some),
    {
        self.ssh_agent || self.jwk.is_some() || self.key_path.is_some()
    }

    /// Tells whether a signing agent signs in place of the engine.
    pub fn uses_agent(&self) -> (agent: bool)
        ensures
            agent == self.ssh_agent,
    {
        self.ssh_agent
    }
}

/// How identifiers are resolved.
#[derive(Debug)]
pub struct ResolverOptions {
    /// The resolver to fall back on.
    pub fallback: Option<String>,
    /// The resolver to send every request through.
    pub tunnel: Option<String>,
}

/// The arguments of issuing.
#[derive(Debug)]
pub struct CredentialIssueArgs {
    pub key: KeyArg,
    pub proof_options: ProofOptions,
    pub resolver_options: ResolverOptions,
}

/// The arguments of deriving.
#[derive(Debug)]
pub struct CredentialDeriveArgs {
    /// The nonce that the verifier gave out.
    pub proof_nonce: String,
    /// The properties to disclose.
    pub selectors: Vec<String>,
}

/// The arguments of querying.
#[derive(Debug)]
pub struct CredentialQueryArgs {
    /// The properties to look for.
    pub selectors: Vec<String>,
}

/// The arguments of verifying.
#[derive(Debug)]
pub struct CredentialVerifyArgs {
    pub proof_options: ProofOptions,
    pub resolver_options: ResolverOptions,
}

/// The four operations on a credential.
#[derive(Debug)]
pub enum CredentialCmd {
    /// Issue a credential.
    Issue(Box<CredentialIssueArgs>),
    /// Verify a credential.
    Verify(CredentialVerifyArgs),
    /// Derive a credential that discloses part of another.
    Derive(CredentialDeriveArgs),
    /// Query the positions of statements.
    Query(CredentialQueryArgs),
}

} // verus!
