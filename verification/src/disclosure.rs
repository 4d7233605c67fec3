//! Selective disclosure: a credential reduced to the statements at chosen
//! positions, bound to a nonce, and the check that what was disclosed stands
//! in the canonical statement set at the same positions.

use vstd::prelude::*;
use vstd::string::*;
use crate::outcome::{ResultAggregator, VerificationResult};
use crate::selector::{matching_positions, resolve};
use crate::statement::{
    statement_views,
    texts,
    CanonicalStatement,
    CanonicalStatementSet,
    StatementView,
};
use crate::text::{decimal, render_decimal};

verus! {

/// The mathematical value of a derived credential.
pub struct DerivedView {
    pub nonce: Seq<char>,
    pub disclosed: Seq<StatementView>,
}

/// A credential reduced to the statements at chosen positions, with the
/// nonce that binds it to one presentation.
#[derive(Debug)]
pub struct DerivedCredential {
    pub nonce: String,
    pub disclosed: Vec<CanonicalStatement>,
}

impl View for DerivedCredential {
    type V = DerivedView;

    open spec fn view(&self) -> DerivedView {
        DerivedView { nonce: self.nonce@, disclosed: statement_views(self.disclosed@) }
    }
}

/// Every position names a statement of a set of `count` statements.
pub open spec fn valid_positions(positions: Seq<usize>, count: nat) -> bool {
    forall|j: int| 0 <= j < positions.len() ==> (#[trigger] positions[j]) < count
}

/// The statements of `statements` at `positions`, in the order of
/// `positions`.
pub open spec fn statements_at(
    statements: Seq<StatementView>,
    positions: Seq<usize>,
) -> Seq<StatementView> {
    Seq::new(positions.len(), |j: int| statements[positions[j] as int])
}

/// The derived credential that discloses the statements at `positions`
/// under `nonce`.
pub open spec fn disclosure(
    statements: Seq<StatementView>,
    positions: Seq<usize>,
    nonce: Seq<char>,
) -> DerivedView {
    DerivedView { nonce, disclosed: statements_at(statements, positions) }
}

/// A disclosed statement is faithful when the canonical set holds the same
/// statement at the same position.
pub open spec fn faithful(statements: Seq<StatementView>, disclosed: StatementView) -> bool {
    0 <= disclosed.position < statements.len() && statements[disclosed.position] == disclosed
}

/// The error that reports a nonce other than the expected one.
pub open spec fn nonce_error() -> Seq<char> {
    "nonce does not match"@
}

/// The error that reports an unfaithful statement, by its position.
pub open spec fn statement_error(position: int) -> Seq<char> {
    "statement is not in the canonical set at position "@ + decimal(position as nat)
}

/// The errors for the unfaithful ones among the first `n` disclosed
/// statements, in their order.
pub open spec fn statement_errors(
    statements: Seq<StatementView>,
    disclosed: Seq<StatementView>,
    n: nat,
) -> Seq<Seq<char>>
    decreases n,
{
    if n == 0 {
        Seq::empty()
    } else {
        let before = statement_errors(statements, disclosed, (n - 1) as nat);
        if faithful(statements, disclosed[n - 1]) {
            before
        } else {
            before.push(statement_error(disclosed[n - 1].position))
        }
    }
}

/// The errors that checking a derived credential gives: one for a wrong
/// nonce, then one for each unfaithful statement.
pub open spec fn disclosure_errors(
    statements: Seq<StatementView>,
    derived: DerivedView,
    nonce: Seq<char>,
) -> Seq<Seq<char>> {
    let first = if derived.nonce == nonce {
        Seq::<Seq<char>>::empty()
    } else {
        seq![nonce_error()]
    };
    first + statement_errors(statements, derived.disclosed, derived.disclosed.len())
}

/// The check that is recorded for every derived credential examined.
pub open spec fn disclosure_check() -> Seq<char> {
    "disclosure"@
}

/// There is no error among the first `n` statements exactly when all of
/// them are faithful.
pub proof fn lemma_statement_errors_empty(
    statements: Seq<StatementView>,
    disclosed: Seq<StatementView>,
    n: nat,
)
    requires
        n <= disclosed.len(),
    ensures
        statement_errors(statements, disclosed, n).len() == 0 <==> forall|j: int|
            0 <= j < n ==> faithful(statements, #[trigger] disclosed[j]),
    decreases n,
{
    if n > 0 {
        lemma_statement_errors_empty(statements, disclosed, (n - 1) as nat);
        if statement_errors(statements, disclosed, n).len() != 0 {
            if faithful(statements, disclosed[n - 1]) {
                let j = choose|j: int|
                    0 <= j < n - 1 && !faithful(statements, #[trigger] disclosed[j]);
                assert(!faithful(statements, disclosed[j]));
            } else {
                assert(!faithful(statements, disclosed[n - 1]));
            }
        }
    }
}

impl DerivedCredential {
    /// Tells whether every position names a statement of `set`.
    pub fn positions_are_valid(set: &CanonicalStatementSet, positions: &Vec<usize>) -> (valid:
        bool)
        ensures
            valid == valid_positions(positions@, set@.len()),
    {
        let count: usize = set.len();
        let mut j: usize = 0;
        while j < positions.len()
            invariant
                j <= positions@.len(),
                count == set@.len(),
                forall|k: int| 0 <= k < j ==> (#[trigger] positions@[k]) < count,
            decreases positions@.len() - j,
        {
            if positions[j] >= count {
                return false;
            }
            j = j + 1;
        }
        true
    }

    /// Builds the derived credential that discloses the statements of `set`
    /// at `positions`, bound to `nonce`. There is none where a position
    /// names no statement of `set`.
    pub fn from_positions(set: &CanonicalStatementSet, positions: &Vec<usize>, nonce: &str) -> (
        derived: Option<DerivedCredential>
    )
        ensures
            derived is Some <==> valid_positions(positions@, set@.len()),
            derived is Some ==> derived->0@ == disclosure(set@, positions@, nonce@),
    {
        if !Self::positions_are_valid(set, positions) {
            return None;
        }
        let mut disclosed: Vec<CanonicalStatement> = Vec::new();
        let mut j: usize = 0;
        while j < positions.len()
            invariant
                j <= positions@.len(),
                valid_positions(positions@, set@.len()),
                set@.len() == set.statements@.len(),
                disclosed@.len() == j,
                forall|k: int|
                    0 <= k < j ==> (#[trigger] disclosed@[k])@ == set@[positions@[k] as int],
            decreases positions@.len() - j,
        {
            let position: usize = positions[j];
            assert(position < set@.len());
            disclosed.push(set.statements[position].duplicate());
            j = j + 1;
        }
        let derived = DerivedCredential { nonce: String::from_str(nonce), disclosed };
        assert(derived@.disclosed =~= statements_at(set@, positions@));
        Some(derived)
    }

    /// Tells whether the credential is bound to `nonce`.
    pub fn is_bound_to(&self, nonce: &str) -> (bound: bool)
        ensures
            bound == (self@.nonce == nonce@),
    {
        self.nonce == String::from_str(nonce)
    }

    /// The positions of the disclosed statements, in their order.
    pub fn positions(&self) -> (positions: Vec<usize>)
        ensures
            positions@.len() == self@.disclosed.len(),
            forall|j: int|
                0 <= j < positions@.len() ==> (#[trigger] positions@[j]) == self@.disclosed[j].position,
    {
        let mut positions: Vec<usize> = Vec::new();
        let mut j: usize = 0;
        while j < self.disclosed.len()
            invariant
                j <= self.disclosed@.len(),
                self@.disclosed.len() == self.disclosed@.len(),
                positions@.len() == j,
                forall|k: int|
                    0 <= k < j ==> (#[trigger] positions@[k]) == self@.disclosed[k].position,
            decreases self.disclosed@.len() - j,
        {
            positions.push(self.disclosed[j].position);
            j = j + 1;
        }
        positions
    }

    /// Checks the credential against the canonical statement set that the
    /// issuer signed and against the nonce that the verifier gave out: the
    /// nonce must be the same, and every disclosed statement must stand in
    /// `set`, with the same text, at the position it claims.
    pub fn check(&self, set: &CanonicalStatementSet, nonce: &str) -> (result: VerificationResult)
        ensures
            result@.errors == disclosure_errors(set@, self@, nonce@),
            result@.warnings.len() == 0,
            result@.checks == seq![disclosure_check()],
            result@.passing() <==> (self@.nonce == nonce@ && forall|j: int|
                0 <= j < self@.disclosed.len() ==> faithful(set@, #[trigger] self@.disclosed[j])),
    {
        let mut found = ResultAggregator::new();
        found.check("disclosure");
        assert(found@.checks =~= seq![disclosure_check()]);
        if !self.is_bound_to(nonce) {
            found.fail("nonce does not match");
        }
        let ghost first = found@.errors;
        assert(first =~= if self@.nonce == nonce@ {
            Seq::<Seq<char>>::empty()
        } else {
            seq![nonce_error()]
        });
        let count: usize = self.disclosed.len();
        let mut j: usize = 0;
        while j < count
            invariant
                j <= count,
                count == self.disclosed@.len(),
                self@.disclosed.len() == count,
                set@.len() == set.statements@.len(),
                found@.checks == seq![disclosure_check()],
                found@.warnings.len() == 0,
                found@.errors == first + statement_errors(set@, self@.disclosed, j as nat),
            decreases count - j,
        {
            let statement = &self.disclosed[j];
            assert(statement@ == self@.disclosed[j as int]);
            let kept = match set.get(statement.position) {
                Some(canonical) => canonical.same_as(statement),
                None => false,
            };
            assert(kept == faithful(set@, statement@));
            if !kept {
                let message = String::from_str(
                    "statement is not in the canonical set at position ",
                ).concat(render_decimal(statement.position).as_str());
                found.fail(message.as_str());
            }
            assert(found@.errors =~= first + statement_errors(
                set@,
                self@.disclosed,
                (j + 1) as nat,
            ));
            j = j + 1;
        }
        proof {
            lemma_statement_errors_empty(set@, self@.disclosed, count as nat);
        }
        found.finish()
    }
}

/// Discloses the statements of `set` that `selectors` match, bound to
/// `nonce`. The statements come in canonical order, each with the position
/// it holds in `set`.
pub fn derive_selected(set: &CanonicalStatementSet, selectors: &Vec<String>, nonce: &str) -> (derived:
    DerivedCredential)
    ensures
        derived@ == disclosure(
            set@,
            matching_positions(set.texts(), texts(selectors@)),
            nonce@,
        ),
{
    let positions = resolve(set, selectors).positions();
    DerivedCredential::from_positions(set, &positions, nonce).unwrap()
}

/// What is disclosed from a well-formed set is faithful to it: the derived
/// credential holds exactly the statements at the chosen positions, each
/// under its own position and with its own text, it carries the nonce it was
/// derived with, and checking it against the same set and nonce finds no
/// error.
pub proof fn lemma_disclosure_is_faithful(
    set: CanonicalStatementSet,
    positions: Seq<usize>,
    nonce: Seq<char>,
)
    requires
        set.wf(),
        valid_positions(positions, set@.len()),
    ensures
        disclosure(set@, positions, nonce).nonce == nonce,
        disclosure(set@, positions, nonce).disclosed.len() == positions.len(),
        forall|j: int|
            0 <= j < positions.len() ==> {
                &&& (#[trigger] disclosure(set@, positions, nonce).disclosed[j]).position
                    == positions[j]
                &&& disclosure(set@, positions, nonce).disclosed[j] == set@[positions[j] as int]
                &&& faithful(set@, disclosure(set@, positions, nonce).disclosed[j])
            },
        disclosure_errors(set@, disclosure(set@, positions, nonce), nonce).len() == 0,
{
    let derived = disclosure(set@, positions, nonce);
    assert forall|j: int| 0 <= j < positions.len() implies {
        &&& (#[trigger] derived.disclosed[j]).position == positions[j]
        &&& derived.disclosed[j] == set@[positions[j] as int]
        &&& faithful(set@, derived.disclosed[j])
    } by {
        assert(positions[j] < set@.len());
        assert(set@[positions[j] as int].position == positions[j]);
    }
    lemma_statement_errors_empty(set@, derived.disclosed, derived.disclosed.len());
}

/// A derived credential in which a statement was changed, or which is
/// presented under another nonce, does not pass the check.
pub proof fn lemma_tampering_is_found(
    statements: Seq<StatementView>,
    derived: DerivedView,
    nonce: Seq<char>,
    changed: int,
)
    requires
        derived.nonce != nonce || (0 <= changed < derived.disclosed.len() && !faithful(
            statements,
            derived.disclosed[changed],
        )),
    ensures
        disclosure_errors(statements, derived, nonce).len() > 0,
{
    lemma_statement_errors_empty(statements, derived.disclosed, derived.disclosed.len());
}

} // verus!
