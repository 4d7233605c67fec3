//! The lifecycle of one invocation: what each operation decides before and
//! between the steps that the host performs.
//!
//! The host reads and writes, canonicalizes, signs and verifies. Between
//! those steps it asks the functions of this module what to do next, and
//! hands them what the last step produced.

use vstd::prelude::*;
use vstd::string::*;
use crate::disclosure::{derive_selected, disclosure, DerivedCredential};
use crate::error::WorkflowError;
use crate::format::{format_of_tag, recognized_tag, ProofFormat};
use crate::options::{
    CredentialCmd,
    CredentialDeriveArgs,
    CredentialIssueArgs,
    CredentialQueryArgs,
    CredentialVerifyArgs,
};
use crate::outcome::{ExitSignal, VerificationResult};
use crate::selector::{matching_positions, resolve};
use crate::statement::{texts, CanonicalStatementSet};
use crate::text::{
    is_space,
    lemma_trimmed_idempotent,
    lemma_trimmed_unchanged_iff,
    render_spaced,
    spaced_decimals,
    trim,
    trimmed,
};

verus! {

/// What the host does to issue a credential.
#[derive(Clone, Copy, Debug, PartialEq, Eq, Structural)]
pub enum IssuePlan {
    /// Sign the credential as a compact token and emit the token, one opaque
    /// string.
    SignToken,
    /// Compute a proof over the canonical statements, attach it to the
    /// credential and emit the credential document. With `via_agent` the
    /// signature comes from a signing agent.
    AttachProof { via_agent: bool },
}

/// What the host does to verify an artifact.
#[derive(Clone, Copy, Debug, PartialEq, Eq, Structural)]
pub enum VerifyPlan {
    /// Read a compact token, admit it, and check its signature.
    CheckToken,
    /// Read a credential document, validate it without its proof, and check
    /// the embedded proof.
    CheckEmbeddedProof,
}

/// The plan for issuing under the format that `tag` names, with or without a
/// signing agent.
pub open spec fn issue_decision(tag: Seq<char>, via_agent: bool) -> Result<
    IssuePlan,
    WorkflowError,
> {
    match format_of_tag(tag) {
        None => Err(WorkflowError::UnsupportedProofFormat),
        Some(ProofFormat::CompactToken) => if via_agent {
            Err(WorkflowError::NotImplemented)
        } else {
            Ok(IssuePlan::SignToken)
        },
        Some(ProofFormat::EmbeddedProof) => Ok(IssuePlan::AttachProof { via_agent }),
    }
}

/// The plan for verifying under the format that `tag` names.
pub open spec fn verify_decision(tag: Seq<char>) -> Result<VerifyPlan, WorkflowError> {
    match format_of_tag(tag) {
        None => Err(WorkflowError::UnsupportedProofFormat),
        Some(ProofFormat::CompactToken) => Ok(VerifyPlan::CheckToken),
        Some(ProofFormat::EmbeddedProof) => Ok(VerifyPlan::CheckEmbeddedProof),
    }
}

/// Decides how a credential is issued, before anything is read or signed.
///
/// An unknown format tag is `UnsupportedProofFormat`. A compact token cannot
/// be signed by an agent: that is `NotImplemented`. Both come before any
/// input is read and before any signature is attempted.
pub fn issue(args: &CredentialIssueArgs) -> (plan: Result<IssuePlan, WorkflowError>)
    ensures
        plan == issue_decision(args.proof_options.proof_format@, args.key.ssh_agent),
        !recognized_tag(args.proof_options.proof_format@) ==> plan == Err::<
            IssuePlan,
            WorkflowError,
        >(WorkflowError::UnsupportedProofFormat),
        plan is Err ==> plan->Err_0.is_configuration_fault(),
{
    match ProofFormat::from_tag(args.proof_options.proof_format.as_str()) {
        Err(fault) => Err(fault),
        Ok(ProofFormat::CompactToken) => {
            if args.key.ssh_agent {
                Err(WorkflowError::NotImplemented)
            } else {
                Ok(IssuePlan::SignToken)
            }
        },
        Ok(ProofFormat::EmbeddedProof) => Ok(IssuePlan::AttachProof { via_agent: args.key.ssh_agent }),
    }
}

/// Decides how an artifact is verified, before anything is read.
///
/// An unknown format tag is `UnsupportedProofFormat`.
pub fn verify(args: &CredentialVerifyArgs) -> (plan: Result<VerifyPlan, WorkflowError>)
    ensures
        plan == verify_decision(args.proof_options.proof_format@),
        plan is Ok <==> recognized_tag(args.proof_options.proof_format@),
        plan is Err ==> plan->Err_0 == WorkflowError::UnsupportedProofFormat,
{
    match ProofFormat::from_tag(args.proof_options.proof_format.as_str()) {
        Err(fault) => Err(fault),
        Ok(ProofFormat::CompactToken) => Ok(VerifyPlan::CheckToken),
        Ok(ProofFormat::EmbeddedProof) => Ok(VerifyPlan::CheckEmbeddedProof),
    }
}

/// The advisory for a token that had white space around it.
pub open spec fn trim_advisory() -> Seq<char> {
    "JWT was trimmed for extraneous whitespaces and new lines."@
}

/// A compact token as it goes to the verifier.
#[derive(Debug)]
pub struct AdmittedToken {
    /// The token without the white space that surrounded it.
    pub token: String,
    /// The advisory to report, where trimming changed the input.
    pub advisory: Option<String>,
}

/// The token that goes to the verifier for the input `raw`.
pub open spec fn token_of(raw: Seq<char>) -> Seq<char> {
    trimmed(raw)
}

/// Whether admitting `raw` gives an advisory: it does when trimming changed
/// the input.
pub open spec fn is_advised(raw: Seq<char>) -> bool {
    trimmed(raw) != raw
}

/// Admits a compact token as it was read: the white space around it is
/// taken off, and where there was any, an advisory says so. The advisory is
/// no error and decides nothing.
pub fn admit_token(raw: &str) -> (admitted: AdmittedToken)
    ensures
        admitted.token@ == token_of(raw@),
        admitted.advisory is Some <==> is_advised(raw@),
        admitted.advisory is Some <==> raw@.len() > 0 && (is_space(raw@[0]) || is_space(
            raw@.last(),
        )),
        admitted.advisory is Some ==> admitted.advisory->0@ == trim_advisory(),
{
    proof {
        lemma_trimmed_unchanged_iff(raw@);
    }
    let token = String::from_str(trim(raw));
    let advisory = if token == String::from_str(raw) {
        None
    } else {
        Some(String::from_str("JWT was trimmed for extraneous whitespaces and new lines."))
    };
    AdmittedToken { token, advisory }
}

/// Trimming never changes what is verified. The verifier is handed the same
/// token whether the input comes as it was read or already trimmed, and
/// admitting what was already trimmed gives no advisory.
pub proof fn lemma_trimming_keeps_the_token(raw: Seq<char>)
    ensures
        token_of(trimmed(raw)) == token_of(raw),
        token_of(token_of(raw)) == token_of(raw),
        !is_advised(trimmed(raw)),
{
    lemma_trimmed_idempotent(raw);
}

/// Takes the outcome of validating a credential without its proof. A
/// credential that failed validation is `MalformedCredential`, and its proof
/// is not looked at.
pub fn admit_credential(validation: Result<(), String>) -> (admitted: Result<(), WorkflowError>)
    ensures
        admitted is Ok <==> validation is Ok,
        admitted is Err ==> admitted->Err_0 == WorkflowError::MalformedCredential,
{
    match validation {
        Ok(()) => Ok(()),
        Err(_) => Err(WorkflowError::MalformedCredential),
    }
}

/// A verification result with the signal that goes with it.
#[derive(Debug)]
pub struct Verdict {
    /// The result, to be written out as it is.
    pub result: VerificationResult,
    /// The signal for automation.
    pub signal: ExitSignal,
}

/// Closes a verification: the result is handed on unchanged, with the signal
/// that tells a failing result from a passing one.
pub fn conclude(result: VerificationResult) -> (verdict: Verdict)
    ensures
        verdict.result@ == result@,
        verdict.signal == result@.signal(),
        verdict.signal == ExitSignal::Failed <==> result@.errors.len() > 0,
{
    let signal = result.exit_signal();
    Verdict { result, signal }
}

/// Derives the credential that discloses what the selectors of `args`
/// match in `set`, bound to the nonce of `args`.
pub fn derive(args: &CredentialDeriveArgs, set: &CanonicalStatementSet) -> (derived:
    DerivedCredential)
    ensures
        derived@ == disclosure(
            set@,
            matching_positions(set.texts(), texts(args.selectors@)),
            args.proof_nonce@,
        ),
{
    derive_selected(set, &args.selectors, args.proof_nonce.as_str())
}

/// The notice for a query without selectors.
pub open spec fn no_selectors_notice() -> Seq<char> {
    "No selectors given"@
}

/// The next step of a query.
#[derive(Debug)]
pub enum QueryStep {
    /// Nothing to look for: report the notice and stop. The credential is
    /// not canonicalized.
    Notice(String),
    /// Canonicalize the credential and come back with its statements.
    Canonicalize,
    /// Write out the positions and stop.
    Emit(String),
}

/// Whether `step` is the step of a query with `selectors`, before
/// (`statements` is `None`) or after the credential was canonicalized.
pub open spec fn is_query_step(
    selectors: Seq<Seq<char>>,
    statements: Option<Seq<Seq<char>>>,
    step: QueryStep,
) -> bool {
    if selectors.len() == 0 {
        step matches QueryStep::Notice(notice) && notice@ == no_selectors_notice()
    } else {
        match statements {
            None => step is Canonicalize,
            Some(said) => step matches QueryStep::Emit(line) && line@ == spaced_decimals(
                matching_positions(said, selectors),
            ),
        }
    }
}

/// What a canonical set says, where there is one.
pub open spec fn texts_of(canonical: Option<&CanonicalStatementSet>) -> Option<Seq<Seq<char>>> {
    match canonical {
        None => None,
        Some(set) => Some(set.texts()),
    }
}

/// Decides the next step of a query.
///
/// Without selectors the step is the notice, whether or not the credential
/// was canonicalized. With selectors and no canonical set yet, the host is
/// asked to canonicalize. With both, the positions of the matched
/// statements are written in canonical order, in decimal, one blank between
/// neighbours.
pub fn get_nquad_positions(
    args: &CredentialQueryArgs,
    canonical: Option<&CanonicalStatementSet>,
) -> (step: QueryStep)
    ensures
        is_query_step(texts(args.selectors@), texts_of(canonical), step),
{
    if args.selectors.len() == 0 {
        return QueryStep::Notice(String::from_str("No selectors given"));
    }
    match canonical {
        None => QueryStep::Canonicalize,
        Some(set) => {
            let positions = resolve(set, &args.selectors).positions();
            QueryStep::Emit(render_spaced(&positions))
        },
    }
}

/// The first step of an operation.
#[derive(Debug)]
pub enum FirstStep {
    /// Issue as planned.
    Issue(IssuePlan),
    /// Verify as planned.
    Verify(VerifyPlan),
    /// Canonicalize the credential, then derive.
    Derive,
    /// Go on with the query as the step says.
    Query(QueryStep),
}

/// Whether `step` is what `cmd` begins with.
pub open spec fn is_first_step(cmd: CredentialCmd, step: Result<FirstStep, WorkflowError>) -> bool {
    match cmd {
        CredentialCmd::Issue(args) => match issue_decision(
            args.proof_options.proof_format@,
            args.key.ssh_agent,
        ) {
            Ok(plan) => step matches Ok(FirstStep::Issue(first)) && first == plan,
            Err(fault) => step matches Err(first) && first == fault,
        },
        CredentialCmd::Verify(args) => match verify_decision(args.proof_options.proof_format@) {
            Ok(plan) => step matches Ok(FirstStep::Verify(first)) && first == plan,
            Err(fault) => step matches Err(first) && first == fault,
        },
        CredentialCmd::Derive(_) => step matches Ok(FirstStep::Derive),
        CredentialCmd::Query(args) => step matches Ok(FirstStep::Query(first)) && is_query_step(
            texts(args.selectors@),
            None,
            first,
        ),
    }
}

/// Decides what an operation begins with. An operation whose configuration
/// is at fault begins with nothing: the fault is all there is.
pub fn cli(cmd: &CredentialCmd) -> (step: Result<FirstStep, WorkflowError>)
    ensures
        is_first_step(*cmd, step),
        step is Err ==> step->Err_0.is_configuration_fault(),
{
    match cmd {
        CredentialCmd::Issue(args) => match issue(args) {
            Ok(plan) => Ok(FirstStep::Issue(plan)),
            Err(fault) => Err(fault),
        },
        CredentialCmd::Verify(args) => match verify(args) {
            Ok(plan) => Ok(FirstStep::Verify(plan)),
            Err(fault) => Err(fault),
        },
        CredentialCmd::Derive(_) => Ok(FirstStep::Derive),
        CredentialCmd::Query(args) => Ok(FirstStep::Query(get_nquad_positions(args, None))),
    }
}

} // verus!
