//! Canonical statements and the positions they hold.

use vstd::prelude::*;
use vstd::string::*;
use crate::error::WorkflowError;

verus! {

/// What a list of strings says, text by text.
pub open spec fn texts(lines: Seq<String>) -> Seq<Seq<char>> {
    Seq::new(lines.len(), |i: int| lines[i]@)
}

/// One atomic fact of a credential and the position it holds in the
/// canonical statement set.
#[derive(Debug)]
pub struct CanonicalStatement {
    pub position: usize,
    pub text: String,
}

/// The mathematical value of a statement.
pub struct StatementView {
    pub position: int,
    pub text: Seq<char>,
}

impl View for CanonicalStatement {
    type V = StatementView;

    open spec fn view(&self) -> StatementView {
        StatementView { position: self.position as int, text: self.text@ }
    }
}

impl CanonicalStatement {
    /// A statement with the given position and text.
    pub fn new(position: usize, text: &str) -> (statement: CanonicalStatement)
        ensures
            statement@ == (StatementView { position: position as int, text: text@ }),
    {
        CanonicalStatement { position, text: String::from_str(text) }
    }

    /// The position of the statement in its canonical set.
    pub fn position(&self) -> (position: usize)
        ensures
            position == self@.position,
    {
        self.position
    }

    /// The text of the statement.
    pub fn text(&self) -> (text: &str)
        ensures
            text@ == self@.text,
    {
        self.text.as_str()
    }

    /// A second statement with the same position and text.
    pub fn duplicate(&self) -> (copy: CanonicalStatement)
        ensures
            copy@ == self@,
    {
        CanonicalStatement { position: self.position, text: self.text.clone() }
    }

    /// Tells whether two statements hold the same position and say the same.
    pub fn same_as(&self, other: &CanonicalStatement) -> (same: bool)
        ensures
            same == (self@ == other@),
    {
        self.position == other.position && self.text == other.text
    }
}

/// The values of a list of statements.
pub open spec fn statement_views(statements: Seq<CanonicalStatement>) -> Seq<StatementView> {
    Seq::new(statements.len(), |i: int| statements[i]@)
}

/// The statements that `lines` make, each at the position where it stands.
pub open spec fn numbered(lines: Seq<Seq<char>>) -> Seq<StatementView> {
    Seq::new(lines.len(), |i: int| StatementView { position: i, text: lines[i] })
}

/// The ordered statements of one credential.
#[derive(Debug)]
pub struct CanonicalStatementSet {
    pub statements: Vec<CanonicalStatement>,
}

impl View for CanonicalStatementSet {
    type V = Seq<StatementView>;

    open spec fn view(&self) -> Seq<StatementView> {
        statement_views(self.statements@)
    }
}

impl CanonicalStatementSet {
    /// Every statement holds the position at which it stands.
    pub open spec fn wf(&self) -> bool {
        forall|i: int| 0 <= i < self@.len() ==> (#[trigger] self@[i]).position == i
    }

    /// The texts of the statements, in canonical order.
    pub open spec fn texts(&self) -> Seq<Seq<char>> {
        Seq::new(self@.len(), |i: int| self@[i].text)
    }

    /// The set without statements.
    pub fn empty() -> (set: CanonicalStatementSet)
        ensures
            set.wf(),
            set@ == Seq::<StatementView>::empty(),
    {
        let set = CanonicalStatementSet { statements: Vec::new() };
        assert(set@ =~= Seq::<StatementView>::empty());
        set
    }

    /// Numbers the canonical lines of a credential: the line at index `i`
    /// becomes the statement at position `i`.
    pub fn from_lines(lines: &Vec<String>) -> (set: CanonicalStatementSet)
        ensures
            set.wf(),
            set@ == numbered(texts(lines@)),
            set.texts() == texts(lines@),
    {
        let mut statements: Vec<CanonicalStatement> = Vec::new();
        let mut i: usize = 0;
        while i < lines.len()
            invariant
                i <= lines@.len(),
                statements@.len() == i,
                forall|j: int|
                    0 <= j < i ==> (#[trigger] statements@[j])@ == (StatementView {
                        position: j,
                        text: lines@[j]@,
                    }),
            decreases lines@.len() - i,
        {
            statements.push(CanonicalStatement { position: i, text: lines[i].clone() });
            i = i + 1;
        }
        let set = CanonicalStatementSet { statements };
        assert(set@ =~= numbered(texts(lines@)));
        assert(set.texts() =~= texts(lines@));
        set
    }

    /// The number of statements.
    pub fn len(&self) -> (count: usize)
        ensures
            count == self@.len(),
    {
        self.statements.len()
    }

    /// The statement at `position`, if the set has one there.
    pub fn get(&self, position: usize) -> (found: Option<&CanonicalStatement>)
        ensures
            found is Some <==> position < self@.len(),
            found is Some ==> found->0@ == self@[position as int],
    {
        if position < self.statements.len() {
            Some(&self.statements[position])
        } else {
            None
        }
    }

    /// Tells whether every statement holds the position at which it stands.
    pub fn is_well_formed(&self) -> (good: bool)
        ensures
            good == self.wf(),
    {
        let mut i: usize = 0;
        while i < self.statements.len()
            invariant
                i <= self@.len(),
                self@.len() == self.statements@.len(),
                forall|j: int| 0 <= j < i ==> (#[trigger] self@[j]).position == j,
            decreases self@.len() - i,
        {
            if self.statements[i].position != i {
                assert(self@[i as int].position != i);
                return false;
            }
            i = i + 1;
        }
        true
    }

    /// The texts of the statements in canonical order, as they are written
    /// out and read back.
    pub fn lines(&self) -> (lines: Vec<String>)
        ensures
            texts(lines@) == self.texts(),
            self.wf() ==> numbered(texts(lines@)) == self@,
    {
        let mut lines: Vec<String> = Vec::new();
        let mut i: usize = 0;
        while i < self.statements.len()
            invariant
                i <= self@.len(),
                self@.len() == self.statements@.len(),
                lines@.len() == i,
                forall|j: int| 0 <= j < i ==> (#[trigger] lines@[j])@ == self@[j].text,
            decreases self@.len() - i,
        {
            lines.push(self.statements[i].text.clone());
            i = i + 1;
        }
        assert(texts(lines@) =~= self.texts());
        proof {
            if self.wf() {
                assert(numbered(texts(lines@)) =~= self@);
            }
        }
        lines
    }
}

/// Takes what the canonicalizer of the host returned: its lines become the
/// canonical statement set, its failure ends the invocation.
pub fn canonical_set(outcome: Result<Vec<String>, String>) -> (set: Result<
    CanonicalStatementSet,
    WorkflowError,
>)
    ensures
        set is Ok <==> outcome is Ok,
        set is Ok ==> set->Ok_0.wf() && set->Ok_0@ == numbered(texts(outcome->Ok_0@)),
        set is Err ==> set->Err_0 == WorkflowError::CanonicalizationError,
{
    match outcome {
        Ok(lines) => Ok(CanonicalStatementSet::from_lines(&lines)),
        Err(_) => Err(WorkflowError::CanonicalizationError),
    }
}

/// Two well-formed sets that say the same, statement by statement, give
/// every statement the same position.
pub proof fn lemma_positions_follow_texts(a: CanonicalStatementSet, b: CanonicalStatementSet)
    requires
        a.wf(),
        b.wf(),
        a.texts() == b.texts(),
    ensures
        a@ == b@,
{
    assert(a@.len() == a.texts().len());
    assert(b@.len() == b.texts().len());
    assert forall|i: int| 0 <= i < a@.len() implies a@[i] == b@[i] by {
        assert(a@[i].position == i);
        assert(b@[i].position == i);
        assert(a.texts()[i] == a@[i].text);
        assert(b.texts()[i] == b@[i].text);
    }
    assert(a@ =~= b@);
}

/// Numbering is a function of the lines alone, and survives writing the
/// statements out and numbering what was written.
pub proof fn lemma_numbering_is_stable(lines: Seq<Seq<char>>, again: Seq<Seq<char>>)
    requires
        again == Seq::new(numbered(lines).len(), |i: int| numbered(lines)[i].text),
    ensures
        again == lines,
        numbered(again) == numbered(lines),
{
    assert(again =~= lines);
}

} // verus!
