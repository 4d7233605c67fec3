//! Resolution of selectors to positions in a canonical statement set.
//!
//! A selector matches a statement when the selector's text stands in the
//! statement's text as an unbroken run of characters. Selectors filter the
//! statements: the positions come out in canonical order, each once, however
//! the selectors are ordered and however many of them match a statement.

use vstd::prelude::*;
use crate::statement::{texts, CanonicalStatementSet};
use crate::text::{chars_of, contains_text, occurs_in};

verus! {

/// One of `selectors` matches the statement `text`.
pub open spec fn selects(selectors: Seq<Seq<char>>, text: Seq<char>) -> bool {
    exists|k: int| 0 <= k < selectors.len() && occurs_in(#[trigger] selectors[k], text)
}

/// `selector` matches one of `statements`.
pub open spec fn matches_any(selector: Seq<char>, statements: Seq<Seq<char>>) -> bool {
    exists|p: int| 0 <= p < statements.len() && occurs_in(selector, #[trigger] statements[p])
}

/// The positions below `n` whose statement one of `selectors` matches, in
/// ascending order.
pub open spec fn positions_below(
    statements: Seq<Seq<char>>,
    selectors: Seq<Seq<char>>,
    n: nat,
) -> Seq<usize>
    decreases n,
{
    if n == 0 {
        Seq::empty()
    } else {
        let before = positions_below(statements, selectors, (n - 1) as nat);
        if selects(selectors, statements[n - 1]) {
            before.push((n - 1) as usize)
        } else {
            before
        }
    }
}

/// The positions of all statements that one of `selectors` matches, in
/// canonical order.
pub open spec fn matching_positions(
    statements: Seq<Seq<char>>,
    selectors: Seq<Seq<char>>,
) -> Seq<usize> {
    positions_below(statements, selectors, statements.len())
}

/// The indices below `n` of the selectors that match no statement, in
/// ascending order.
pub open spec fn unmatched_below(
    statements: Seq<Seq<char>>,
    selectors: Seq<Seq<char>>,
    n: nat,
) -> Seq<usize>
    decreases n,
{
    if n == 0 {
        Seq::empty()
    } else {
        let before = unmatched_below(statements, selectors, (n - 1) as nat);
        if matches_any(selectors[n - 1], statements) {
            before
        } else {
            before.push((n - 1) as usize)
        }
    }
}

/// The indices of all selectors that match no statement, in the order in
/// which the selectors were given.
pub open spec fn unmatched_selectors(
    statements: Seq<Seq<char>>,
    selectors: Seq<Seq<char>>,
) -> Seq<usize> {
    unmatched_below(statements, selectors, selectors.len())
}

/// What `positions_below` holds: every position is below `n`, they ascend,
/// and a position below `n` is among them exactly when a selector matches
/// its statement.
pub proof fn lemma_positions_below(
    statements: Seq<Seq<char>>,
    selectors: Seq<Seq<char>>,
    n: nat,
)
    requires
        n <= statements.len() <= usize::MAX,
    ensures
        positions_below(statements, selectors, n).len() <= n,
        forall|j: int|
            0 <= j < positions_below(statements, selectors, n).len() ==> (
            #[trigger] positions_below(statements, selectors, n)[j]) < n,
        forall|i: int, j: int|
            0 <= i < j < positions_below(statements, selectors, n).len()
                ==> positions_below(statements, selectors, n)[i] < positions_below(
                statements,
                selectors,
                n,
            )[j],
        forall|p: usize|
            positions_below(statements, selectors, n).contains(p) <==> (p < n && selects(
                selectors,
                statements[p as int],
            )),
    decreases n,
{
    let now = positions_below(statements, selectors, n);
    if n == 0 {
        assert forall|p: usize| now.contains(p) <==> (p < n && selects(
            selectors,
            statements[p as int],
        )) by {}
    } else {
        let m = (n - 1) as nat;
        let before = positions_below(statements, selectors, m);
        lemma_positions_below(statements, selectors, m);
        let hit = selects(selectors, statements[n - 1]);
        assert forall|p: usize| now.contains(p) <==> (p < n && selects(
            selectors,
            statements[p as int],
        )) by {
            if hit {
                assert(now == before.push(m as usize));
                if now.contains(p) {
                    let j = choose|j: int| 0 <= j < now.len() && now[j] == p;
                    if j < before.len() {
                        assert(before[j] == p);
                        assert(before.contains(p));
                    }
                }
                if p < n && selects(selectors, statements[p as int]) {
                    if p < m {
                        assert(before.contains(p));
                        let j = choose|j: int| 0 <= j < before.len() && before[j] == p;
                        assert(now[j] == p);
                    } else {
                        assert(now[before.len() as int] == p);
                    }
                }
            } else {
                assert(now == before);
            }
        }
    }
}

/// The resolved positions are valid, ascend, and are exactly the positions
/// of the statements that a selector matches.
pub proof fn lemma_matching_positions(statements: Seq<Seq<char>>, selectors: Seq<Seq<char>>)
    requires
        statements.len() <= usize::MAX,
    ensures
        forall|j: int|
            0 <= j < matching_positions(statements, selectors).len() ==> (
            #[trigger] matching_positions(statements, selectors)[j]) < statements.len(),
        forall|i: int, j: int|
            0 <= i < j < matching_positions(statements, selectors).len() ==> matching_positions(
                statements,
                selectors,
            )[i] < matching_positions(statements, selectors)[j],
        forall|p: usize|
            matching_positions(statements, selectors).contains(p) <==> (p < statements.len()
                && selects(selectors, statements[p as int])),
{
    lemma_positions_below(statements, selectors, statements.len());
}

/// Taking a selector away never adds a position: what the remaining
/// selectors resolve to is among what all of them resolve to.
pub proof fn lemma_removing_selector_adds_nothing(
    statements: Seq<Seq<char>>,
    selectors: Seq<Seq<char>>,
    removed: int,
)
    requires
        statements.len() <= usize::MAX,
        0 <= removed < selectors.len(),
    ensures
        forall|p: usize|
            matching_positions(statements, selectors.remove(removed)).contains(p)
                ==> matching_positions(statements, selectors).contains(p),
{
    let fewer = selectors.remove(removed);
    lemma_matching_positions(statements, selectors);
    lemma_matching_positions(statements, fewer);
    assert forall|p: usize| matching_positions(statements, fewer).contains(p) implies (
    matching_positions(statements, selectors).contains(p)) by {
        let text = statements[p as int];
        let k = choose|k: int| 0 <= k < fewer.len() && occurs_in(#[trigger] fewer[k], text);
        if k < removed {
            assert(selectors[k] == fewer[k]);
        } else {
            assert(selectors[k + 1] == fewer[k]);
        }
        assert(selects(selectors, text));
    }
}

/// Without selectors nothing is selected.
pub proof fn lemma_no_selectors_no_positions(statements: Seq<Seq<char>>, n: nat)
    ensures
        positions_below(statements, Seq::<Seq<char>>::empty(), n) == Seq::<usize>::empty(),
    decreases n,
{
    if n > 0 {
        lemma_no_selectors_no_positions(statements, (n - 1) as nat);
    }
}

/// What a list of selectors resolved to.
#[derive(Debug)]
pub struct Resolution {
    /// The positions of the matched statements, in canonical order.
    pub positions: Vec<usize>,
    /// The indices of the selectors that matched no statement.
    pub unmatched: Vec<usize>,
}

/// The outcome of resolving selectors.
#[derive(Debug)]
pub enum SelectorOutcome {
    /// No selector was given; nothing was resolved.
    NoSelectors,
    /// The selectors were resolved.
    Resolved(Resolution),
}

impl SelectorOutcome {
    /// The positions that were resolved; none where no selector was given.
    pub open spec fn positions_spec(&self) -> Seq<usize> {
        match self {
            SelectorOutcome::NoSelectors => Seq::empty(),
            SelectorOutcome::Resolved(resolution) => resolution.positions@,
        }
    }

    /// Tells whether no selector was given.
    pub fn is_no_selectors(&self) -> (none: bool)
        ensures
            none == (self is NoSelectors),
    {
        match self {
            SelectorOutcome::NoSelectors => true,
            SelectorOutcome::Resolved(_) => false,
        }
    }

    /// The positions that were resolved; none where no selector was given.
    pub fn positions(&self) -> (positions: Vec<usize>)
        ensures
            positions@ == self.positions_spec(),
    {
        match self {
            SelectorOutcome::NoSelectors => Vec::new(),
            SelectorOutcome::Resolved(resolution) => resolution.positions.clone(),
        }
    }
}

/// The characters of each string of a list.
pub open spec fn char_texts(lists: Seq<Vec<char>>) -> Seq<Seq<char>> {
    Seq::new(lists.len(), |i: int| lists[i]@)
}

/// Spells out each string of a list.
pub fn spell_all(lines: &Vec<String>) -> (lists: Vec<Vec<char>>)
    ensures
        char_texts(lists@) == texts(lines@),
{
    let mut lists: Vec<Vec<char>> = Vec::new();
    let mut i: usize = 0;
    while i < lines.len()
        invariant
            i <= lines@.len(),
            lists@.len() == i,
            forall|j: int| 0 <= j < i ==> (#[trigger] lists@[j])@ == lines@[j]@,
        decreases lines@.len() - i,
    {
        lists.push(chars_of(lines[i].as_str()));
        i = i + 1;
    }
    assert(char_texts(lists@) =~= texts(lines@));
    lists
}

/// Tells whether one of `selectors` matches the statement `text`.
pub fn any_selector_matches(selectors: &Vec<Vec<char>>, text: &Vec<char>) -> (hit: bool)
    ensures
        hit == selects(char_texts(selectors@), text@),
{
    let ghost wanted = char_texts(selectors@);
    let mut k: usize = 0;
    while k < selectors.len()
        invariant
            k <= selectors@.len(),
            wanted == char_texts(selectors@),
            forall|j: int| 0 <= j < k ==> !occurs_in(#[trigger] wanted[j], text@),
        decreases selectors@.len() - k,
    {
        if contains_text(text, &selectors[k]) {
            assert(occurs_in(wanted[k as int], text@));
            return true;
        }
        k = k + 1;
    }
    false
}

/// Tells whether `selector` matches one of `statements`.
pub fn selector_matches_any(selector: &Vec<char>, statements: &Vec<Vec<char>>) -> (hit: bool)
    ensures
        hit == matches_any(selector@, char_texts(statements@)),
{
    let ghost said = char_texts(statements@);
    let mut p: usize = 0;
    while p < statements.len()
        invariant
            p <= statements@.len(),
            said == char_texts(statements@),
            forall|j: int| 0 <= j < p ==> !occurs_in(selector@, #[trigger] said[j]),
        decreases statements@.len() - p,
    {
        if contains_text(&statements[p], selector) {
            assert(occurs_in(selector@, said[p as int]));
            return true;
        }
        p = p + 1;
    }
    false
}

/// Resolves `selectors` against the statements of `set`.
///
/// With no selector the outcome is `NoSelectors`. Otherwise it holds the
/// positions of the statements that at least one selector matches, in
/// canonical order, and the indices of the selectors that match nothing. A
/// selector that matches nothing takes no part in the positions and does not
/// keep the others from being resolved.
pub fn resolve(set: &CanonicalStatementSet, selectors: &Vec<String>) -> (outcome: SelectorOutcome)
    ensures
        outcome is NoSelectors <==> selectors@.len() == 0,
        outcome.positions_spec() == matching_positions(set.texts(), texts(selectors@)),
        outcome matches SelectorOutcome::Resolved(resolution) ==> resolution.unmatched@
            == unmatched_selectors(set.texts(), texts(selectors@)),
        forall|j: int|
            0 <= j < outcome.positions_spec().len() ==> (#[trigger] outcome.positions_spec()[j])
                < set@.len(),
        forall|i: int, j: int|
            0 <= i < j < outcome.positions_spec().len() ==> outcome.positions_spec()[i]
                < outcome.positions_spec()[j],
        forall|p: usize|
            outcome.positions_spec().contains(p) <==> (p < set@.len() && selects(
                texts(selectors@),
                set.texts()[p as int],
            )),
{
    let ghost said = set.texts();
    let ghost wanted = texts(selectors@);
    let total: usize = set.len();
    proof {
        assert(said.len() == total);
        lemma_matching_positions(said, wanted);
    }
    if selectors.len() == 0 {
        proof {
            assert(wanted =~= Seq::<Seq<char>>::empty());
            lemma_no_selectors_no_positions(said, said.len());
        }
        return SelectorOutcome::NoSelectors;
    }
    let lines = set.lines();
    let statement_chars = spell_all(&lines);
    let selector_chars = spell_all(selectors);
    assert(char_texts(statement_chars@) == said);
    assert(char_texts(selector_chars@) == wanted);
    let n: usize = statement_chars.len();
    let mut positions: Vec<usize> = Vec::new();
    let mut p: usize = 0;
    while p < n
        invariant
            p <= n,
            n == statement_chars@.len(),
            n == said.len(),
            char_texts(statement_chars@) == said,
            char_texts(selector_chars@) == wanted,
            positions@ == positions_below(said, wanted, p as nat),
        decreases n - p,
    {
        assert(statement_chars@[p as int]@ == said[p as int]);
        if any_selector_matches(&selector_chars, &statement_chars[p]) {
            positions.push(p);
        }
        p = p + 1;
    }
    let m: usize = selector_chars.len();
    let mut unmatched: Vec<usize> = Vec::new();
    let mut k: usize = 0;
    while k < m
        invariant
            k <= m,
            m == selector_chars@.len(),
            m == wanted.len(),
            char_texts(statement_chars@) == said,
            char_texts(selector_chars@) == wanted,
            unmatched@ == unmatched_below(said, wanted, k as nat),
        decreases m - k,
    {
        assert(selector_chars@[k as int]@ == wanted[k as int]);
        if !selector_matches_any(&selector_chars[k], &statement_chars) {
            unmatched.push(k);
        }
        k = k + 1;
    }
    SelectorOutcome::Resolved(Resolution { positions, unmatched })
}

} // verus!
