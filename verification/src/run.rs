//! One run of the tool, step by step.
//!
//! The run asks its caller for one thing at a time: the metadata of a path,
//! or the execution of the command. The caller does what is asked and hands
//! the answer back; the run decides what comes next. No step touches the
//! file system or a process itself.

use crate::error::{Error, ErrorView};
use crate::inference::{infer_dependencies, inference};
use crate::invocation::{Invocation, InvocationView};
use crate::outcome::{Outcome, OutcomeView};
use crate::probe::{metadata_view, paths, Probe, ProbeView};
use crate::staleness::{newer, unreadable};
use crate::timestamp::Timestamp;
use vstd::prelude::*;

verus! {

/// What the caller has to do next.
#[derive(Debug)]
pub enum Step {
    /// Query the metadata of a path and report it.
    Probe(Probing),
    /// Echo the command if the run asks for it, start it, wait for it, and
    /// report how it went.
    Execute(Executing),
    /// Nothing more: the run is over.
    Done(Outcome),
}

/// A run that waits for the metadata of a path.
#[derive(Debug)]
pub struct Probing {
    invocation: Invocation,
    stage: Stage,
}

/// A run that waits for its command to be executed.
#[derive(Debug)]
pub struct Executing {
    invocation: Invocation,
}

#[derive(Debug)]
enum Stage {
    Candidates { seen: Vec<Probe> },
    Target { dependencies: Vec<String> },
    Dependencies { target: Timestamp, dependencies: Vec<String>, passed: usize, stale: bool },
}

/// What a probing run is busy with.
pub enum StageView {
    /// Inference asks for each argument of the command in turn; `seen` holds
    /// the answers so far.
    Candidates { seen: Seq<ProbeView> },
    /// The dependency list is known, and the target is asked for.
    Target { dependencies: Seq<Seq<char>> },
    /// The target was modified at `target`, and the dependencies are asked
    /// for in turn; the first `passed` of them were read, and `stale` says
    /// whether one of those is newer than the target.
    Dependencies { target: int, dependencies: Seq<Seq<char>>, passed: int, stale: bool },
}

/// A probing run as plain values.
pub struct ProbingView {
    pub invocation: InvocationView,
    pub stage: StageView,
}

/// A step as plain values.
pub enum StepView {
    Probe(ProbingView),
    Execute(InvocationView),
    Done(OutcomeView),
}

/// The step after inference has gathered `seen`: the next argument where
/// one is left, else the target where a dependency was found, else the end.
pub open spec fn gathered(invocation: InvocationView, seen: Seq<ProbeView>) -> StepView {
    if seen.len() < invocation.arguments().len() {
        StepView::Probe(ProbingView { invocation, stage: StageView::Candidates { seen } })
    } else {
        match inference(seen) {
            Ok(dependencies) => StepView::Probe(
                ProbingView { invocation, stage: StageView::Target { dependencies } },
            ),
            Err(error) => StepView::Done(OutcomeView::Failed(error)),
        }
    }
}

/// The first step of a run: inference where it is asked for, else the
/// target with the dependencies from the command line.
pub open spec fn first_step(invocation: InvocationView) -> StepView {
    if invocation.infer {
        gathered(invocation, Seq::empty())
    } else {
        StepView::Probe(
            ProbingView {
                invocation,
                stage: StageView::Target { dependencies: invocation.dependencies },
            },
        )
    }
}

impl ProbingView {
    /// What holds of every probing run.
    pub open spec fn well_formed(self) -> bool {
        &&& self.invocation.usage_error() is None
        &&& match self.stage {
            StageView::Candidates { seen } => {
                &&& self.invocation.infer
                &&& seen.len() < self.invocation.arguments().len()
                &&& paths(seen) == self.invocation.arguments().take(seen.len() as int)
            },
            StageView::Target { dependencies } => true,
            StageView::Dependencies { target, dependencies, passed, stale } => 0 <= passed
                < dependencies.len(),
        }
    }

    /// The path whose metadata is asked for.
    pub open spec fn path(self) -> Seq<char> {
        match self.stage {
            StageView::Candidates { seen } => self.invocation.arguments()[seen.len() as int],
            StageView::Target { dependencies } => self.invocation.target,
            StageView::Dependencies { target, dependencies, passed, stale } => dependencies[passed],
        }
    }

    /// The number of queries that the run may still make, at most.
    pub open spec fn remaining(self) -> int {
        match self.stage {
            StageView::Candidates { seen } => 2 * self.invocation.arguments().len() + 1
                - seen.len(),
            StageView::Target { dependencies } => dependencies.len() + 1int,
            StageView::Dependencies { target, dependencies, passed, stale } => dependencies.len()
                - passed,
        }
    }

    /// The step that follows when the query is answered with `metadata`.
    ///
    /// An argument of the command is kept and the next one asked for; after
    /// the last, inference is made. A target that cannot be read, or one
    /// without dependencies, has the command executed. A dependency that
    /// cannot be read ends the run with an error. One that was read leads to
    /// the next one, and it is kept in mind whether it is newer than the
    /// target; after the last, the command is executed if some dependency
    /// was newer and skipped if none was.
    pub open spec fn next_step(self, metadata: Result<int, Seq<char>>) -> StepView {
        let probe = ProbeView { path: self.path(), modified: metadata };
        match self.stage {
            StageView::Candidates { seen } => gathered(self.invocation, seen.push(probe)),
            StageView::Target { dependencies } => match metadata {
                Err(_) => StepView::Execute(self.invocation),
                Ok(target) => if dependencies.len() == 0 {
                    StepView::Execute(self.invocation)
                } else {
                    StepView::Probe(
                        ProbingView {
                            invocation: self.invocation,
                            stage: StageView::Dependencies {
                                target,
                                dependencies,
                                passed: 0,
                                stale: false,
                            },
                        },
                    )
                },
            },
            StageView::Dependencies { target, dependencies, passed, stale } => if !probe.accessible(
            ) {
                StepView::Done(OutcomeView::Failed(unreadable(probe)))
            } else if passed + 1 < dependencies.len() {
                StepView::Probe(
                    ProbingView {
                        invocation: self.invocation,
                        stage: StageView::Dependencies {
                            target,
                            dependencies,
                            passed: passed + 1,
                            stale: stale || newer(target, probe),
                        },
                    },
                )
            } else if stale || newer(target, probe) {
                StepView::Execute(self.invocation)
            } else {
                StepView::Done(OutcomeView::Skipped)
            },
        }
    }
}

impl View for Stage {
    type V = StageView;

    closed spec fn view(&self) -> StageView {
        match self {
            Stage::Candidates { seen } => StageView::Candidates { seen: seen.deep_view() },
            Stage::Target { dependencies } => StageView::Target {
                dependencies: dependencies.deep_view(),
            },
            Stage::Dependencies { target, dependencies, passed, stale } => StageView::Dependencies {
                target: target@,
                dependencies: dependencies.deep_view(),
                passed: *passed as int,
                stale: *stale,
            },
        }
    }
}

impl View for Probing {
    type V = ProbingView;

    closed spec fn view(&self) -> ProbingView {
        ProbingView { invocation: self.invocation@, stage: self.stage@ }
    }
}

impl View for Executing {
    type V = InvocationView;

    closed spec fn view(&self) -> InvocationView {
        self.invocation@
    }
}

impl View for Step {
    type V = StepView;

    open spec fn view(&self) -> StepView {
        match self {
            Step::Probe(probing) => StepView::Probe(probing@),
            Step::Execute(executing) => StepView::Execute(executing@),
            Step::Done(outcome) => StepView::Done(outcome@),
        }
    }
}

/// A copy of each string of `items`.
fn copies(items: &[String]) -> (copied: Vec<String>)
    ensures
        copied.deep_view() == items.deep_view(),
{
    let mut copied: Vec<String> = Vec::new();
    let mut i: usize = 0;
    while i < items.len()
        invariant
            i <= items.len(),
            copied.deep_view() == items.deep_view().take(i as int),
        decreases items.len() - i,
    {
        let ghost before = copied.deep_view();
        copied.push(items[i].clone());
        assert(copied.deep_view() == before.push(items[i as int]@));
        i += 1;
    }
    copied
}

/// The step after inference has gathered `seen`.
fn after_gathering(invocation: Invocation, seen: Vec<Probe>) -> (step: Step)
    requires
        invocation@.infer,
        seen.len() <= invocation@.arguments().len(),
        paths(seen.deep_view()) == invocation@.arguments().take(seen.len() as int),
    ensures
        step@ == gathered(invocation@, seen.deep_view()),
{
    proof {
        use_type_invariant(&invocation);
    }
    if seen.len() < invocation.arguments().len() {
        Step::Probe(Probing { invocation, stage: Stage::Candidates { seen } })
    } else {
        match infer_dependencies(seen.as_slice()) {
            Ok(dependencies) => Step::Probe(
                Probing { invocation, stage: Stage::Target { dependencies } },
            ),
            Err(error) => Step::Done(Outcome::Failed(error)),
        }
    }
}

/// Begins a run. Nothing has been looked up yet.
pub fn start(invocation: Invocation) -> (step: Step)
    ensures
        step@ == first_step(invocation@),
{
    proof {
        use_type_invariant(&invocation);
    }
    if invocation.infer() {
        let seen: Vec<Probe> = Vec::new();
        proof {
            assert(seen.deep_view() == Seq::<ProbeView>::empty());
            assert(paths(seen.deep_view()) == invocation@.arguments().take(0));
        }
        after_gathering(invocation, seen)
    } else {
        let dependencies = copies(invocation.dependencies());
        Step::Probe(Probing { invocation, stage: Stage::Target { dependencies } })
    }
}

impl Probing {
    #[verifier::type_invariant]
    spec fn sound(&self) -> bool {
        self@.well_formed()
    }

    /// The path whose metadata the caller has to query.
    pub fn path(&self) -> (path: &String)
        ensures
            self@.well_formed(),
            path@ == self@.path(),
    {
        proof {
            use_type_invariant(self);
        }
        match &self.stage {
            Stage::Candidates { seen } => {
                let arguments = self.invocation.arguments();
                assert(arguments.deep_view()[seen.len() as int] == arguments[seen.len() as int]@);
                &arguments[seen.len()]
            },
            Stage::Target { dependencies } => self.invocation.target(),
            Stage::Dependencies { target, dependencies, passed, stale } => {
                assert(dependencies.deep_view()[*passed as int] == dependencies[*passed as int]@);
                &dependencies[*passed]
            },
        }
    }

    /// Takes the answer to the query and gives the next step.
    pub fn observe(self, metadata: Result<Timestamp, String>) -> (step: Step)
        ensures
            step@ == self@.next_step(metadata_view(metadata)),
    {
        proof {
            use_type_invariant(&self);
        }
        let path = self.path().clone();
        let ghost view = self@;
        let Probing { invocation, stage } = self;
        assert(view.stage == stage@ && view.well_formed());
        match stage {
            Stage::Candidates { seen } => {
                let mut seen = seen;
                let ghost before = seen.deep_view();
                let probe = Probe { path, metadata };
                let ghost added = probe@;
                seen.push(probe);
                proof {
                    assert(seen.deep_view() == before.push(added));
                    assert(paths(seen.deep_view()) == invocation@.arguments().take(
                        seen.len() as int,
                    ));
                }
                after_gathering(invocation, seen)
            },
            Stage::Target { dependencies } => match metadata {
                Err(_) => Step::Execute(Executing { invocation }),
                Ok(target) => {
                    if dependencies.len() == 0 {
                        Step::Execute(Executing { invocation })
                    } else {
                        Step::Probe(
                            Probing {
                                invocation,
                                stage: Stage::Dependencies {
                                    target,
                                    dependencies,
                                    passed: 0,
                                    stale: false,
                                },
                            },
                        )
                    }
                },
            },
            Stage::Dependencies { target, dependencies, passed, stale } => match metadata {
                Err(cause) => Step::Done(
                    Outcome::Failed(Error::UnreadableDependency { path, cause }),
                ),
                Ok(time) => {
                    assert(dependencies.deep_view().len() == dependencies.len());
                    let stale = stale || time.is_newer_than(&target);
                    if passed + 1 < dependencies.len() {
                        Step::Probe(
                            Probing {
                                invocation,
                                stage: Stage::Dependencies {
                                    target,
                                    dependencies,
                                    passed: passed + 1,
                                    stale,
                                },
                            },
                        )
                    } else if stale {
                        Step::Execute(Executing { invocation })
                    } else {
                        Step::Done(Outcome::Skipped)
                    }
                },
            },
        }
    }
}

impl Executing {
    /// The line to print before the command starts, if the run is verbose.
    pub fn echo(&self) -> (line: Option<String>)
        ensures
            line.deep_view() == self@.echo(),
    {
        self.invocation.echo()
    }

    /// The program to start.
    pub fn program(&self) -> (program: &String)
        ensures
            self@.command.len() > 0,
            program@ == self@.program(),
    {
        self.invocation.program()
    }

    /// The arguments to hand to the program.
    pub fn arguments(&self) -> (arguments: &[String])
        ensures
            arguments.deep_view() == self@.arguments(),
    {
        self.invocation.arguments()
    }

    /// The command ran and exited with `code`: the run ends with that code.
    pub fn exited(self, code: i32) -> (outcome: Outcome)
        ensures
            outcome@ == (OutcomeView::Executed { code }),
    {
        Outcome::Executed { code }
    }

    /// The command could not be started: the run ends with an error that
    /// names the program.
    pub fn not_started(self) -> (outcome: Outcome)
        ensures
            outcome@ == OutcomeView::Failed(
                ErrorView::CommandNotFound { program: self@.program() },
            ),
    {
        let program = self.invocation.program().clone();
        Outcome::Failed(Error::CommandNotFound { program })
    }
}

} // verus!
