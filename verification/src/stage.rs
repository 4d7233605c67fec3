//! The stages of one invocation and the order in which they are passed.
//!
//! An invocation passes its stages once, in one direction. A stage that
//! fails ends the invocation; nothing is tried again.

use vstd::prelude::*;
use crate::error::WorkflowError;

verus! {

/// The four operations on a credential.
#[derive(Clone, Copy, Debug, PartialEq, Eq, Structural)]
pub enum Operation {
    Issue,
    Verify,
    Derive,
    Query,
}

/// The stages of an invocation, in their order.
#[derive(Clone, Copy, Debug, PartialEq, Eq, Structural)]
pub enum Stage {
    /// One credential document is read from the input.
    ReadInput,
    /// The credential is turned into its canonical statements.
    Canonicalize,
    /// The proof format is chosen.
    FormatDispatch,
    /// A collaborator signs, verifies or derives.
    CryptoOperation,
    /// What was found is gathered and written as one value.
    Aggregate,
    /// One result is written to the output.
    Emit,
}

impl Stage {
    /// The place of the stage in the order of stages.
    pub open spec fn rank(self) -> nat {
        match self {
            Stage::ReadInput => 0,
            Stage::Canonicalize => 1,
            Stage::FormatDispatch => 2,
            Stage::CryptoOperation => 3,
            Stage::Aggregate => 4,
            Stage::Emit => 5,
        }
    }

    /// The place of the stage in the order of stages, from 0.
    pub fn ordinal(&self) -> (place: u8)
        ensures
            place == self.rank(),
    {
        match self {
            Stage::ReadInput => 0,
            Stage::Canonicalize => 1,
            Stage::FormatDispatch => 2,
            Stage::CryptoOperation => 3,
            Stage::Aggregate => 4,
            Stage::Emit => 5,
        }
    }

    /// Whether a collaborator of the host is awaited at this stage.
    pub fn is_delegated(&self) -> (delegated: bool)
        ensures
            delegated == (*self == Stage::Canonicalize || *self == Stage::CryptoOperation),
    {
        match self {
            Stage::Canonicalize => true,
            Stage::CryptoOperation => true,
            _ => false,
        }
    }
}

impl Operation {
    /// The stages that the operation passes. Every operation reads,
    /// canonicalizes, gathers and emits; only issuing and verifying choose a
    /// proof format; a query needs no collaborator that signs or verifies.
    pub open spec fn passes_spec(self, stage: Stage) -> bool {
        match stage {
            Stage::FormatDispatch => self == Operation::Issue || self == Operation::Verify,
            Stage::CryptoOperation => self != Operation::Query,
            _ => true,
        }
    }

    /// The stage that follows `stage` in this operation; none after the
    /// last, which is `Emit`.
    pub open spec fn successor(self, stage: Stage) -> Option<Stage> {
        match stage {
            Stage::ReadInput => Some(Stage::Canonicalize),
            Stage::Canonicalize => if self.passes_spec(Stage::FormatDispatch) {
                Some(Stage::FormatDispatch)
            } else if self.passes_spec(Stage::CryptoOperation) {
                Some(Stage::CryptoOperation)
            } else {
                Some(Stage::Aggregate)
            },
            Stage::FormatDispatch => if self.passes_spec(Stage::CryptoOperation) {
                Some(Stage::CryptoOperation)
            } else {
                Some(Stage::Aggregate)
            },
            Stage::CryptoOperation => Some(Stage::Aggregate),
            Stage::Aggregate => Some(Stage::Emit),
            Stage::Emit => None,
        }
    }

    /// `next` is the nearest stage after `stage` that the operation passes.
    pub open spec fn follows(self, stage: Stage, next: Stage) -> bool {
        &&& self.passes_spec(next)
        &&& stage.rank() < next.rank()
        &&& forall|other: Stage|
            self.passes_spec(other) && stage.rank() < #[trigger] other.rank() ==> next.rank()
                <= other.rank()
    }

    /// Tells whether the operation passes `stage`.
    pub fn passes(&self, stage: Stage) -> (passed: bool)
        ensures
            passed == self.passes_spec(stage),
    {
        match stage {
            Stage::FormatDispatch => match self {
                Operation::Issue => true,
                Operation::Verify => true,
                _ => false,
            },
            Stage::CryptoOperation => match self {
                Operation::Query => false,
                _ => true,
            },
            _ => true,
        }
    }

    /// The stage at which every operation begins.
    pub fn first_stage(&self) -> (stage: Stage)
        ensures
            stage == Stage::ReadInput,
            self.passes_spec(stage),
            forall|other: Stage| stage.rank() <= other.rank(),
    {
        Stage::ReadInput
    }

    /// The stage that follows `stage` in this operation; none after the
    /// last, which is `Emit`.
    pub fn next_stage(&self, stage: Stage) -> (next: Option<Stage>)
        ensures
            next == self.successor(stage),
            next is None <==> stage == Stage::Emit,
            next is Some ==> self.follows(stage, next->0),
    {
        proof {
            lemma_successor_is_nearest(*self, stage);
        }
        match stage {
            Stage::ReadInput => Some(Stage::Canonicalize),
            Stage::Canonicalize => match self {
                Operation::Issue => Some(Stage::FormatDispatch),
                Operation::Verify => Some(Stage::FormatDispatch),
                Operation::Derive => Some(Stage::CryptoOperation),
                Operation::Query => Some(Stage::Aggregate),
            },
            Stage::FormatDispatch => match self {
                Operation::Query => Some(Stage::Aggregate),
                _ => Some(Stage::CryptoOperation),
            },
            Stage::CryptoOperation => Some(Stage::Aggregate),
            Stage::Aggregate => Some(Stage::Emit),
            Stage::Emit => None,
        }
    }
}

/// The successor of a stage is the nearest later stage that the operation
/// passes, and only `Emit` has none: the stages are passed in their order,
/// none twice and none that the operation has no use for.
pub proof fn lemma_successor_is_nearest(operation: Operation, stage: Stage)
    ensures
        operation.successor(stage) is None <==> stage == Stage::Emit,
        operation.successor(stage) is Some ==> operation.follows(
            stage,
            operation.successor(stage)->0,
        ),
{
    if operation.successor(stage) is Some {
        let next = operation.successor(stage)->0;
        assert forall|other: Stage|
            operation.passes_spec(other) && stage.rank() < #[trigger] other.rank() implies next.rank()
            <= other.rank() by {}
    }
}

/// How far an invocation has come.
#[derive(Clone, Copy, Debug, PartialEq, Eq, Structural)]
pub enum Progress {
    /// The invocation is about to perform this stage.
    At(Stage),
    /// The one result was written.
    Finished,
    /// A stage failed; the invocation is over.
    Failed(WorkflowError),
}

impl Progress {
    /// An invocation that has ended, one way or the other.
    pub open spec fn is_terminal(self) -> bool {
        !(self is At)
    }

    /// How much of the invocation lies behind: the rank of the stage at
    /// hand, or more than any rank once the invocation has ended.
    pub open spec fn distance(self) -> nat {
        match self {
            Progress::At(stage) => stage.rank(),
            _ => 6,
        }
    }

    /// Where an invocation begins.
    pub fn start(operation: Operation) -> (progress: Progress)
        ensures
            progress == Progress::At(Stage::ReadInput),
    {
        Progress::At(operation.first_stage())
    }

    /// Tells whether the invocation has ended.
    pub fn has_ended(&self) -> (ended: bool)
        ensures
            ended == self.is_terminal(),
    {
        match self {
            Progress::At(_) => false,
            _ => true,
        }
    }
}

/// Where the invocation stands after the stage at hand came out as
/// `outcome`.
pub open spec fn advanced(
    operation: Operation,
    progress: Progress,
    outcome: Result<(), WorkflowError>,
) -> Progress {
    match progress {
        Progress::At(stage) => match outcome {
            Err(fault) => Progress::Failed(fault),
            Ok(_) => match operation.successor(stage) {
                Some(next) => Progress::At(next),
                None => Progress::Finished,
            },
        },
        _ => progress,
    }
}

/// Moves an invocation on by the outcome of the stage at hand.
///
/// A failure ends the invocation at once, with the fault as it came. A
/// success leads to the stage that follows, or ends the invocation after
/// `Emit`. An invocation that has ended stays as it is: no stage is
/// performed twice and nothing is tried again.
pub fn advance(operation: Operation, progress: Progress, outcome: Result<(), WorkflowError>) -> (after:
    Progress)
    ensures
        after == advanced(operation, progress, outcome),
        progress.is_terminal() ==> after == progress,
        !progress.is_terminal() ==> progress.distance() < after.distance(),
        outcome is Err && !progress.is_terminal() ==> after == Progress::Failed(outcome->Err_0),
{
    match progress {
        Progress::At(stage) => match outcome {
            Err(fault) => Progress::Failed(fault),
            Ok(_) => match operation.next_stage(stage) {
                Some(next) => Progress::At(next),
                None => Progress::Finished,
            },
        },
        Progress::Finished => Progress::Finished,
        Progress::Failed(fault) => Progress::Failed(fault),
    }
}

/// The stage that follows is determined: an operation has one path.
pub proof fn lemma_one_path(operation: Operation, stage: Stage, a: Stage, b: Stage)
    requires
        operation.follows(stage, a),
        operation.follows(stage, b),
    ensures
        a == b,
{
    assert(a.rank() <= b.rank());
    assert(b.rank() <= a.rank());
}

} // verus!
