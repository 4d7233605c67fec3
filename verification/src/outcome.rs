//! Verification results: warnings, errors and the verdict they give.

use vstd::prelude::*;
use vstd::string::*;
use crate::error::WorkflowError;
use crate::statement::texts;

verus! {

/// The signal by which automation tells a passing verification from a
/// failing one without reading the output.
#[derive(Clone, Copy, Debug, PartialEq, Eq, Structural)]
pub enum ExitSignal {
    /// The result carries no error.
    Passed,
    /// The result carries at least one error.
    Failed,
}

impl ExitSignal {
    /// The exit status that stands for the signal.
    pub open spec fn code_spec(self) -> int {
        match self {
            ExitSignal::Passed => 0,
            ExitSignal::Failed => 2,
        }
    }

    /// The exit status that stands for the signal: 0 for a pass, 2 for a
    /// failure.
    pub fn code(&self) -> (status: u8)
        ensures
            status == self.code_spec(),
    {
        match self {
            ExitSignal::Passed => 0,
            ExitSignal::Failed => 2,
        }
    }
}

/// The mathematical value of a verification result.
pub struct ResultView {
    pub checks: Seq<Seq<char>>,
    pub warnings: Seq<Seq<char>>,
    pub errors: Seq<Seq<char>>,
}

impl ResultView {
    /// A result passes exactly when it carries no error.
    pub open spec fn passing(self) -> bool {
        self.errors.len() == 0
    }

    /// The signal that the result gives.
    pub open spec fn signal(self) -> ExitSignal {
        if self.passing() {
            ExitSignal::Passed
        } else {
            ExitSignal::Failed
        }
    }
}

/// The outcome of one verification: the checks that were made, and the
/// warnings and errors they gave, each in the order in which it arose.
#[derive(Debug)]
pub struct VerificationResult {
    pub checks: Vec<String>,
    pub warnings: Vec<String>,
    pub errors: Vec<String>,
}

impl View for VerificationResult {
    type V = ResultView;

    open spec fn view(&self) -> ResultView {
        ResultView {
            checks: texts(self.checks@),
            warnings: texts(self.warnings@),
            errors: texts(self.errors@),
        }
    }
}

impl VerificationResult {
    /// Tells whether the result passes: it does exactly when it carries no
    /// error, whatever its warnings.
    pub fn is_passing(&self) -> (passing: bool)
        ensures
            passing == self@.passing(),
            passing == (self@.errors.len() == 0),
    {
        self.errors.len() == 0
    }

    /// The signal that the result gives to automation.
    pub fn exit_signal(&self) -> (signal: ExitSignal)
        ensures
            signal == self@.signal(),
            signal == ExitSignal::Passed <==> self@.errors.len() == 0,
    {
        if self.errors.len() == 0 {
            ExitSignal::Passed
        } else {
            ExitSignal::Failed
        }
    }

    /// The verdict as a value to branch on: a failing result is reported as
    /// `VerificationFailure`.
    pub fn verdict(&self) -> (verdict: Result<(), WorkflowError>)
        ensures
            verdict is Ok <==> self@.passing(),
            verdict is Err ==> verdict->Err_0 == WorkflowError::VerificationFailure,
    {
        if self.errors.len() == 0 {
            Ok(())
        } else {
            Err(WorkflowError::VerificationFailure)
        }
    }

    /// The number of warnings.
    pub fn warning_count(&self) -> (count: usize)
        ensures
            count == self@.warnings.len(),
    {
        self.warnings.len()
    }

    /// The number of errors.
    pub fn error_count(&self) -> (count: usize)
        ensures
            count == self@.errors.len(),
    {
        self.errors.len()
    }
}

/// Collects the warnings and errors of one verification.
#[derive(Debug)]
pub struct ResultAggregator {
    pub checks: Vec<String>,
    pub warnings: Vec<String>,
    pub errors: Vec<String>,
}

impl View for ResultAggregator {
    type V = ResultView;

    open spec fn view(&self) -> ResultView {
        ResultView {
            checks: texts(self.checks@),
            warnings: texts(self.warnings@),
            errors: texts(self.errors@),
        }
    }
}

/// Appending a string to a list appends its text to the texts of the list.
pub proof fn lemma_texts_push(lines: Seq<String>, line: String)
    ensures
        texts(lines.push(line)) == texts(lines).push(line@),
{
    assert(texts(lines.push(line)) =~= texts(lines).push(line@));
}

/// Appends copies of the strings of `more` to `list`.
pub fn extend_with(list: &mut Vec<String>, more: &Vec<String>)
    ensures
        texts(final(list)@) == texts(old(list)@) + texts(more@),
{
    let ghost before = texts(list@);
    let mut i: usize = 0;
    while i < more.len()
        invariant
            i <= more@.len(),
            texts(list@) == before + texts(more@.take(i as int)),
        decreases more@.len() - i,
    {
        let ghost so_far = list@;
        list.push(more[i].clone());
        proof {
            lemma_texts_push(so_far, list@.last());
            assert(texts(more@.take(i + 1)) =~= texts(more@.take(i as int)).push(more@[i as int]@));
            assert(texts(list@) =~= before + texts(more@.take(i + 1)));
        }
        i = i + 1;
    }
    assert(more@.take(i as int) =~= more@);
}

impl ResultAggregator {
    /// An aggregator that has seen nothing yet: its result would pass.
    pub fn new() -> (aggregator: ResultAggregator)
        ensures
            aggregator@.checks.len() == 0,
            aggregator@.warnings.len() == 0,
            aggregator@.errors.len() == 0,
            aggregator@.passing(),
    {
        ResultAggregator { checks: Vec::new(), warnings: Vec::new(), errors: Vec::new() }
    }

    /// Records that a check was made.
    pub fn check(&mut self, name: &str)
        ensures
            final(self)@.checks == old(self)@.checks.push(name@),
            final(self)@.warnings == old(self)@.warnings,
            final(self)@.errors == old(self)@.errors,
    {
        let ghost before = self.checks@;
        self.checks.push(String::from_str(name));
        proof {
            lemma_texts_push(before, self.checks@.last());
        }
    }

    /// Records a warning. Warnings inform; they neither make a result fail
    /// nor take an error away.
    pub fn warn(&mut self, message: &str)
        ensures
            final(self)@.warnings == old(self)@.warnings.push(message@),
            final(self)@.checks == old(self)@.checks,
            final(self)@.errors == old(self)@.errors,
            final(self)@.passing() == old(self)@.passing(),
    {
        let ghost before = self.warnings@;
        self.warnings.push(String::from_str(message));
        proof {
            lemma_texts_push(before, self.warnings@.last());
        }
    }

    /// Records an error. From here on the result fails.
    pub fn fail(&mut self, message: &str)
        ensures
            final(self)@.errors == old(self)@.errors.push(message@),
            final(self)@.checks == old(self)@.checks,
            final(self)@.warnings == old(self)@.warnings,
            !final(self)@.passing(),
    {
        let ghost before = self.errors@;
        self.errors.push(String::from_str(message));
        proof {
            lemma_texts_push(before, self.errors@.last());
        }
    }

    /// Takes over what another verification found, behind what is already
    /// recorded.
    pub fn absorb(&mut self, other: &VerificationResult)
        ensures
            final(self)@.checks == old(self)@.checks + other@.checks,
            final(self)@.warnings == old(self)@.warnings + other@.warnings,
            final(self)@.errors == old(self)@.errors + other@.errors,
            final(self)@.passing() == (old(self)@.passing() && other@.passing()),
    {
        extend_with(&mut self.checks, &other.checks);
        extend_with(&mut self.warnings, &other.warnings);
        extend_with(&mut self.errors, &other.errors);
    }

    /// Tells whether the result would pass as things stand.
    pub fn is_passing(&self) -> (passing: bool)
        ensures
            passing == self@.passing(),
    {
        self.errors.len() == 0
    }

    /// The result of the verification. Nothing can be added to it.
    pub fn finish(self) -> (result: VerificationResult)
        ensures
            result@ == self@,
    {
        VerificationResult { checks: self.checks, warnings: self.warnings, errors: self.errors }
    }
}

/// Warnings decide nothing. Two results with the same errors pass or fail
/// alike and give the same signal, and a result passes exactly when it
/// carries no error.
pub proof fn lemma_verdict_goes_by_errors_alone(a: ResultView, b: ResultView)
    requires
        a.errors == b.errors,
    ensures
        a.passing() == b.passing(),
        a.signal() == b.signal(),
        a.passing() <==> a.errors.len() == 0,
        a.signal() == ExitSignal::Failed <==> a.errors.len() > 0,
{
}

} // verus!
