use credential_workflow::error::WorkflowError;
use credential_workflow::selector::{
    any_selector_matches, resolve, selector_matches_any, spell_all, SelectorOutcome,
};
use credential_workflow::statement::{canonical_set, CanonicalStatement, CanonicalStatementSet};

fn strings(items: &[&str]) -> Vec<String> {
    items.iter().map(|s| s.to_string()).collect()
}

fn sample_lines() -> Vec<String> {
    strings(&[
        "<did:example:subject> <https://schema.org/email> \"ada@example.org\" .",
        "<did:example:subject> <https://schema.org/familyName> \"Lovelace\" .",
        "<did:example:subject> <https://schema.org/givenName> \"Ada\" .",
        "<urn:uuid:1> <https://www.w3.org/2018/credentials#credentialSubject> <did:example:subject> .",
        "<urn:uuid:1> <https://www.w3.org/2018/credentials#issuer> <did:example:issuer> .",
    ])
}

fn resolved(set: &CanonicalStatementSet, selectors: &[&str]) -> (Vec<usize>, Vec<usize>) {
    match resolve(set, &strings(selectors)) {
        SelectorOutcome::Resolved(resolution) => (resolution.positions, resolution.unmatched),
        SelectorOutcome::NoSelectors => panic!("selectors were given"),
    }
}

#[test]
fn lines_are_numbered_in_their_order() {
    let set = CanonicalStatementSet::from_lines(&sample_lines());
    assert_eq!(set.len(), 5);
    for position in 0..5 {
        let statement = set.get(position).unwrap();
        assert_eq!(statement.position(), position);
        assert_eq!(statement.text(), sample_lines()[position]);
    }
    assert!(set.get(5).is_none());
    assert!(set.is_well_formed());
}

#[test]
fn numbering_twice_gives_the_same_statements() {
    let first = CanonicalStatementSet::from_lines(&sample_lines());
    let second = CanonicalStatementSet::from_lines(&sample_lines());
    assert_eq!(first.len(), second.len());
    for position in 0..first.len() {
        assert!(first.get(position).unwrap().same_as(second.get(position).unwrap()));
    }
}

#[test]
fn numbering_survives_writing_out_and_reading_back() {
    let first = CanonicalStatementSet::from_lines(&sample_lines());
    let written = first.lines();
    assert_eq!(written, sample_lines());
    let second = CanonicalStatementSet::from_lines(&written);
    for position in 0..first.len() {
        assert!(first.get(position).unwrap().same_as(second.get(position).unwrap()));
    }
}

#[test]
fn the_empty_set_has_no_statement() {
    let set = CanonicalStatementSet::empty();
    assert_eq!(set.len(), 0);
    assert!(set.get(0).is_none());
    assert!(set.is_well_formed());
    assert_eq!(CanonicalStatementSet::from_lines(&vec![]).len(), 0);
}

#[test]
fn a_statement_out_of_place_is_noticed() {
    let set = CanonicalStatementSet {
        statements: vec![CanonicalStatement::new(0, "a"), CanonicalStatement::new(2, "b")],
    };
    assert!(!set.is_well_formed());
}

#[test]
fn statements_are_compared_by_position_and_text() {
    let a = CanonicalStatement::new(1, "x");
    assert!(a.same_as(&a.duplicate()));
    assert!(!a.same_as(&CanonicalStatement::new(2, "x")));
    assert!(!a.same_as(&CanonicalStatement::new(1, "y")));
}

#[test]
fn a_failed_canonicalization_ends_the_invocation() {
    let failed = canonical_set(Err("context not found".to_string()));
    assert_eq!(failed.err(), Some(WorkflowError::CanonicalizationError));
    let set = canonical_set(Ok(sample_lines())).unwrap();
    assert_eq!(set.len(), 5);
    assert_eq!(set.get(4).unwrap().position(), 4);
}

#[test]
fn no_selectors_is_its_own_outcome() {
    let set = CanonicalStatementSet::from_lines(&sample_lines());
    let outcome = resolve(&set, &vec![]);
    assert!(outcome.is_no_selectors());
    assert_eq!(outcome.positions(), Vec::<usize>::new());
    assert!(resolve(&CanonicalStatementSet::empty(), &vec![]).is_no_selectors());
}

#[test]
fn positions_follow_canonical_order_not_selector_order() {
    let set = CanonicalStatementSet::from_lines(&sample_lines());
    let (forward, _) = resolved(&set, &["email", "givenName"]);
    let (backward, _) = resolved(&set, &["givenName", "email"]);
    assert_eq!(forward, vec![0, 2]);
    assert_eq!(backward, vec![0, 2]);
}

#[test]
fn a_statement_matched_twice_is_listed_once() {
    let set = CanonicalStatementSet::from_lines(&sample_lines());
    let (positions, unmatched) = resolved(&set, &["email", "ada@example.org", "schema.org/e"]);
    assert_eq!(positions, vec![0]);
    assert_eq!(unmatched, Vec::<usize>::new());
}

#[test]
fn one_selector_may_match_many_statements() {
    let set = CanonicalStatementSet::from_lines(&sample_lines());
    let (positions, _) = resolved(&set, &["schema.org"]);
    assert_eq!(positions, vec![0, 1, 2]);
    let (all, _) = resolved(&set, &[""]);
    assert_eq!(all, vec![0, 1, 2, 3, 4]);
}

#[test]
fn unmatched_selectors_are_named_and_do_not_stop_the_others() {
    let set = CanonicalStatementSet::from_lines(&sample_lines());
    let (positions, unmatched) = resolved(&set, &["telephone", "issuer", "birthDate"]);
    assert_eq!(positions, vec![4]);
    assert_eq!(unmatched, vec![0, 2]);
    let (none, all_unmatched) = resolved(&set, &["telephone"]);
    assert_eq!(none, Vec::<usize>::new());
    assert_eq!(all_unmatched, vec![0]);
}

#[test]
fn every_position_is_a_position_of_the_set() {
    let set = CanonicalStatementSet::from_lines(&sample_lines());
    let (positions, _) = resolved(&set, &["did:example", "Name"]);
    assert_eq!(positions, vec![0, 1, 2, 3, 4]);
    for position in positions {
        assert!(set.get(position).is_some());
    }
    let (nothing, unmatched) = resolved(&CanonicalStatementSet::empty(), &["a"]);
    assert_eq!(nothing, Vec::<usize>::new());
    assert_eq!(unmatched, vec![0]);
}

#[test]
fn taking_a_selector_away_adds_no_position() {
    let set = CanonicalStatementSet::from_lines(&sample_lines());
    let selectors = ["email", "Name", "issuer", "telephone"];
    let (all, _) = resolved(&set, &selectors);
    assert_eq!(all, vec![0, 1, 2, 4]);
    for removed in 0..selectors.len() {
        let mut fewer = selectors.to_vec();
        fewer.remove(removed);
        let (positions, _) = resolved(&set, &fewer);
        for position in &positions {
            assert!(all.contains(position));
        }
    }
    let (without_name, _) = resolved(&set, &["email", "issuer", "telephone"]);
    assert_eq!(without_name, vec![0, 4]);
}

#[test]
fn matching_helpers_agree_with_resolution() {
    let statements = spell_all(&sample_lines());
    let selectors = spell_all(&strings(&["givenName", "nothing"]));
    assert!(any_selector_matches(&selectors, &statements[2]));
    assert!(!any_selector_matches(&selectors, &statements[0]));
    assert!(!any_selector_matches(&vec![], &statements[0]));
    assert!(selector_matches_any(&selectors[0], &statements));
    assert!(!selector_matches_any(&selectors[1], &statements));
    assert!(!selector_matches_any(&selectors[0], &vec![]));
}
