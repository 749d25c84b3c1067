//! How a run ends, and the exit code that reports it.

use crate::error::{Error, ErrorView};
use vstd::prelude::*;

verus! {

/// The end of one run.
#[derive(Debug, PartialEq, Eq)]
pub enum Outcome {
    /// The target was fresh and the command was left alone.
    Skipped,
    /// The command ran and exited with `code`.
    Executed { code: i32 },
    /// The tool itself failed: the command line was unusable, inference
    /// found nothing, a dependency could not be read, or the command could
    /// not be started.
    Failed(Error),
}

/// An outcome as plain values.
pub enum OutcomeView {
    Skipped,
    Executed { code: i32 },
    Failed(ErrorView),
}

impl OutcomeView {
    /// The exit code that reports this outcome: 0 for a skipped run, the
    /// command's own code where it ran, the error's code otherwise.
    pub open spec fn exit_code(self) -> int {
        match self {
            OutcomeView::Skipped => 0,
            OutcomeView::Executed { code } => code as int,
            OutcomeView::Failed(error) => error.exit_code(),
        }
    }
}

impl View for Outcome {
    type V = OutcomeView;

    open spec fn view(&self) -> OutcomeView {
        match self {
            Outcome::Skipped => OutcomeView::Skipped,
            Outcome::Executed { code } => OutcomeView::Executed { code: *code },
            Outcome::Failed(error) => OutcomeView::Failed(error@),
        }
    }
}

impl Outcome {
    /// The exit code of the process for this outcome. A failure of the tool
    /// never exits with 0.
    pub fn exit_code(&self) -> (code: i32)
        ensures
            code == self@.exit_code(),
            self is Failed ==> code != 0,
    {
        match self {
            Outcome::Skipped => 0,
            Outcome::Executed { code } => *code,
            Outcome::Failed(error) => error.exit_code(),
        }
    }
}

} // verus!
