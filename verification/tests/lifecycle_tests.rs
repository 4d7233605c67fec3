use credential_workflow::error::WorkflowError;
use credential_workflow::lifecycle::{
    admit_credential, admit_token, cli, conclude, get_nquad_positions, issue, verify,
    FirstStep, IssuePlan, QueryStep, VerifyPlan,
};
use credential_workflow::options::{
    CredentialCmd, CredentialDeriveArgs, CredentialIssueArgs, CredentialQueryArgs,
    CredentialVerifyArgs, KeyArg, ProofOptions, ProofPurpose, ResolverOptions,
};
use credential_workflow::outcome::{ExitSignal, ResultAggregator};
use credential_workflow::stage::{advance, Operation, Progress, Stage};
use credential_workflow::statement::CanonicalStatementSet;

fn options(tag: &str) -> ProofOptions {
    ProofOptions {
        proof_format: tag.to_string(),
        verification_method: Some("did:example:issuer#key-1".to_string()),
        created: None,
        challenge: None,
        domain: None,
        proof_purpose: Some(ProofPurpose::AssertionMethod),
    }
}

fn resolver() -> ResolverOptions {
    ResolverOptions { fallback: None, tunnel: None }
}

fn issue_args(tag: &str, ssh_agent: bool) -> CredentialIssueArgs {
    let jwk = if ssh_agent { None } else { Some("{\"kty\":\"OKP\"}".to_string()) };
    CredentialIssueArgs {
        key: KeyArg { key_path: None, jwk, ssh_agent },
        proof_options: options(tag),
        resolver_options: resolver(),
    }
}

fn verify_args(tag: &str) -> CredentialVerifyArgs {
    CredentialVerifyArgs { proof_options: options(tag), resolver_options: resolver() }
}

fn query_args(selectors: &[&str]) -> CredentialQueryArgs {
    CredentialQueryArgs { selectors: selectors.iter().map(|s| s.to_string()).collect() }
}

fn sample_set() -> CanonicalStatementSet {
    let lines: Vec<String> = (0..12)
        .map(|i| {
            if i % 5 == 0 {
                format!("subject property-{} name", i)
            } else {
                format!("subject property-{} other", i)
            }
        })
        .collect();
    CanonicalStatementSet::from_lines(&lines)
}

#[test]
fn issuing_a_compact_token_signs_a_token() {
    assert_eq!(issue(&issue_args("jwt", false)), Ok(IssuePlan::SignToken));
}

#[test]
fn issuing_a_compact_token_through_an_agent_is_not_implemented() {
    assert_eq!(issue(&issue_args("jwt", true)), Err(WorkflowError::NotImplemented));
}

#[test]
fn issuing_an_embedded_proof_attaches_a_proof() {
    assert_eq!(issue(&issue_args("ldp", false)), Ok(IssuePlan::AttachProof { via_agent: false }));
    assert_eq!(issue(&issue_args("ldp", true)), Ok(IssuePlan::AttachProof { via_agent: true }));
}

#[test]
fn an_unknown_format_ends_issuing_and_verifying() {
    for tag in ["", "cose", "JWT", "ldp2"] {
        assert_eq!(issue(&issue_args(tag, false)), Err(WorkflowError::UnsupportedProofFormat));
        assert_eq!(issue(&issue_args(tag, true)), Err(WorkflowError::UnsupportedProofFormat));
        assert_eq!(verify(&verify_args(tag)), Err(WorkflowError::UnsupportedProofFormat));
    }
}

#[test]
fn verifying_goes_by_the_format() {
    assert_eq!(verify(&verify_args("jwt")), Ok(VerifyPlan::CheckToken));
    assert_eq!(verify(&verify_args("ldp")), Ok(VerifyPlan::CheckEmbeddedProof));
}

#[test]
fn key_arguments_say_where_the_key_comes_from() {
    let inline = issue_args("ldp", false).key;
    assert!(inline.is_given());
    assert!(!inline.uses_agent());
    let agent = issue_args("ldp", true).key;
    assert!(agent.is_given());
    assert!(agent.uses_agent());
    let file = KeyArg { key_path: Some("key.jwk".to_string()), jwk: None, ssh_agent: false };
    assert!(file.is_given());
    let none = KeyArg { key_path: None, jwk: None, ssh_agent: false };
    assert!(!none.is_given());
}

#[test]
fn a_clean_token_is_admitted_without_advisory() {
    let admitted = admit_token("eyJh.eyJ2.c2ln");
    assert_eq!(admitted.token, "eyJh.eyJ2.c2ln");
    assert_eq!(admitted.advisory, None);
}

#[test]
fn a_padded_token_is_trimmed_with_an_advisory() {
    let admitted = admit_token("  eyJh.eyJ2.c2ln\n");
    assert_eq!(admitted.token, "eyJh.eyJ2.c2ln");
    assert_eq!(
        admitted.advisory,
        Some("JWT was trimmed for extraneous whitespaces and new lines.".to_string())
    );
}

#[test]
fn trimming_does_not_change_the_token_that_is_verified() {
    for raw in ["a.b.c", " a.b.c", "a.b.c\r\n", "\t a.b.c \n\n", "", "  "] {
        let padded = admit_token(raw);
        let clean = admit_token(raw.trim());
        assert_eq!(padded.token, clean.token);
        assert_eq!(clean.advisory, None);
        assert_eq!(padded.advisory.is_some(), raw != raw.trim());
    }
}

#[test]
fn a_malformed_credential_is_stopped_before_its_proof() {
    assert_eq!(admit_credential(Ok(())), Ok(()));
    assert_eq!(
        admit_credential(Err("missing issuer".to_string())),
        Err(WorkflowError::MalformedCredential)
    );
}

#[test]
fn concluding_hands_the_result_on_with_its_signal() {
    let mut found = ResultAggregator::new();
    found.check("proof");
    found.warn("old context");
    let passed = conclude(found.finish());
    assert_eq!(passed.signal, ExitSignal::Passed);
    assert_eq!(passed.signal.code(), 0);
    assert_eq!(passed.result.warnings, vec!["old context".to_string()]);
    assert_eq!(passed.result.checks, vec!["proof".to_string()]);

    let mut found = ResultAggregator::new();
    found.warn("old context");
    found.fail("signature error");
    let failed = conclude(found.finish());
    assert_eq!(failed.signal, ExitSignal::Failed);
    assert_eq!(failed.signal.code(), 2);
    assert_eq!(failed.result.errors, vec!["signature error".to_string()]);
    assert_eq!(failed.result.warnings, vec!["old context".to_string()]);
}

#[test]
fn a_query_without_selectors_gives_the_notice_and_asks_for_nothing() {
    match get_nquad_positions(&query_args(&[]), None) {
        QueryStep::Notice(notice) => assert_eq!(notice, "No selectors given"),
        other => panic!("unexpected step {:?}", other),
    }
    let set = sample_set();
    match get_nquad_positions(&query_args(&[]), Some(&set)) {
        QueryStep::Notice(notice) => assert_eq!(notice, "No selectors given"),
        other => panic!("unexpected step {:?}", other),
    }
}

#[test]
fn a_query_with_selectors_asks_for_the_canonical_statements() {
    assert!(matches!(
        get_nquad_positions(&query_args(&["name"]), None),
        QueryStep::Canonicalize
    ));
}

#[test]
fn a_query_writes_the_positions_with_blanks_between() {
    let set = sample_set();
    match get_nquad_positions(&query_args(&["name"]), Some(&set)) {
        QueryStep::Emit(line) => assert_eq!(line, "0 5 10"),
        other => panic!("unexpected step {:?}", other),
    }
    match get_nquad_positions(&query_args(&["property-11", "property-1 "]), Some(&set)) {
        QueryStep::Emit(line) => assert_eq!(line, "1 11"),
        other => panic!("unexpected step {:?}", other),
    }
    match get_nquad_positions(&query_args(&["absent"]), Some(&set)) {
        QueryStep::Emit(line) => assert_eq!(line, ""),
        other => panic!("unexpected step {:?}", other),
    }
}

#[test]
fn deriving_discloses_what_the_selectors_match_under_the_nonce() {
    let set = sample_set();
    let args = CredentialDeriveArgs {
        proof_nonce: "verifier-nonce".to_string(),
        selectors: vec!["name".to_string()],
    };
    let derived = credential_workflow::lifecycle::derive(&args, &set);
    assert_eq!(derived.nonce, "verifier-nonce");
    assert_eq!(derived.positions(), vec![0, 5, 10]);
    assert_eq!(derived.disclosed[1].text(), "subject property-5 name");
    assert!(derived.check(&set, "verifier-nonce").is_passing());
    assert!(!derived.check(&set, "another").is_passing());
}

#[test]
fn every_command_begins_with_its_first_step() {
    let step = cli(&CredentialCmd::Issue(Box::new(issue_args("ldp", true))));
    assert!(matches!(step, Ok(FirstStep::Issue(IssuePlan::AttachProof { via_agent: true }))));
    let step = cli(&CredentialCmd::Issue(Box::new(issue_args("jwt", false))));
    assert!(matches!(step, Ok(FirstStep::Issue(IssuePlan::SignToken))));
    let step = cli(&CredentialCmd::Verify(verify_args("jwt")));
    assert!(matches!(step, Ok(FirstStep::Verify(VerifyPlan::CheckToken))));
    let step = cli(&CredentialCmd::Derive(CredentialDeriveArgs {
        proof_nonce: "n".to_string(),
        selectors: vec![],
    }));
    assert!(matches!(step, Ok(FirstStep::Derive)));
    let step = cli(&CredentialCmd::Query(query_args(&["name"])));
    assert!(matches!(step, Ok(FirstStep::Query(QueryStep::Canonicalize))));
    match cli(&CredentialCmd::Query(query_args(&[]))) {
        Ok(FirstStep::Query(QueryStep::Notice(notice))) => assert_eq!(notice, "No selectors given"),
        other => panic!("unexpected step {:?}", other),
    }
}

#[test]
fn a_command_with_a_faulty_configuration_begins_with_nothing() {
    let step = cli(&CredentialCmd::Issue(Box::new(issue_args("cwt", false))));
    assert!(matches!(step, Err(WorkflowError::UnsupportedProofFormat)));
    let step = cli(&CredentialCmd::Issue(Box::new(issue_args("jwt", true))));
    assert!(matches!(step, Err(WorkflowError::NotImplemented)));
    let step = cli(&CredentialCmd::Verify(verify_args("")));
    assert!(matches!(step, Err(WorkflowError::UnsupportedProofFormat)));
}

fn path(operation: Operation) -> Vec<Stage> {
    let mut stages = vec![operation.first_stage()];
    while let Some(next) = operation.next_stage(*stages.last().unwrap()) {
        stages.push(next);
    }
    stages
}

#[test]
fn each_operation_passes_its_stages_in_order() {
    let all = vec![
        Stage::ReadInput,
        Stage::Canonicalize,
        Stage::FormatDispatch,
        Stage::CryptoOperation,
        Stage::Aggregate,
        Stage::Emit,
    ];
    assert_eq!(path(Operation::Issue), all);
    assert_eq!(path(Operation::Verify), all);
    assert_eq!(
        path(Operation::Derive),
        vec![
            Stage::ReadInput,
            Stage::Canonicalize,
            Stage::CryptoOperation,
            Stage::Aggregate,
            Stage::Emit
        ]
    );
    assert_eq!(
        path(Operation::Query),
        vec![Stage::ReadInput, Stage::Canonicalize, Stage::Aggregate, Stage::Emit]
    );
    for operation in [Operation::Issue, Operation::Verify, Operation::Derive, Operation::Query] {
        for stage in &all {
            assert_eq!(path(operation).contains(stage), operation.passes(*stage));
        }
    }
}

#[test]
fn stages_are_ranked_in_their_order() {
    assert_eq!(Stage::ReadInput.ordinal(), 0);
    assert_eq!(Stage::Canonicalize.ordinal(), 1);
    assert_eq!(Stage::FormatDispatch.ordinal(), 2);
    assert_eq!(Stage::CryptoOperation.ordinal(), 3);
    assert_eq!(Stage::Aggregate.ordinal(), 4);
    assert_eq!(Stage::Emit.ordinal(), 5);
    assert!(Stage::Canonicalize.is_delegated());
    assert!(Stage::CryptoOperation.is_delegated());
    assert!(!Stage::ReadInput.is_delegated());
    assert!(!Stage::Emit.is_delegated());
}

#[test]
fn an_invocation_runs_from_reading_to_finished() {
    let mut progress = Progress::start(Operation::Query);
    assert_eq!(progress, Progress::At(Stage::ReadInput));
    let mut seen = vec![];
    while let Progress::At(stage) = progress {
        seen.push(stage);
        progress = advance(Operation::Query, progress, Ok(()));
    }
    assert_eq!(progress, Progress::Finished);
    assert!(progress.has_ended());
    assert_eq!(seen, path(Operation::Query));
}

#[test]
fn a_failure_ends_the_invocation_for_good() {
    let progress = advance(
        Operation::Verify,
        Progress::At(Stage::Canonicalize),
        Err(WorkflowError::CanonicalizationError),
    );
    assert_eq!(progress, Progress::Failed(WorkflowError::CanonicalizationError));
    assert!(progress.has_ended());
    assert_eq!(advance(Operation::Verify, progress, Ok(())), progress);
    assert_eq!(
        advance(Operation::Verify, progress, Err(WorkflowError::ResolverError)),
        progress
    );
    assert_eq!(advance(Operation::Issue, Progress::Finished, Ok(())), Progress::Finished);
    assert_eq!(
        advance(Operation::Issue, Progress::Finished, Err(WorkflowError::KeyResolutionError)),
        Progress::Finished
    );
    assert_eq!(
        advance(Operation::Issue, Progress::At(Stage::Emit), Err(WorkflowError::ResolverError)),
        Progress::Failed(WorkflowError::ResolverError)
    );
}
