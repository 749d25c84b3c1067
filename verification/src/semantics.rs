//! What a run amounts to.
//!
//! A run is fixed by three things: its invocation, what the file system
//! answers for each path, and what becomes of the command once it is
//! started. `outcome` says in one piece how such a run ends. The laws below
//! show that the steps of `run` arrive there, whichever way they take.

use crate::error::ErrorView;
use crate::inference::{accessible_paths, inference, is_accessible};
use crate::invocation::InvocationView;
use crate::outcome::OutcomeView;
use crate::probe::{paths, ProbeView};
use crate::run::{first_step, gathered, ProbingView, StageView, StepView};
use crate::staleness::{
    decision, first_unreadable, lemma_first_unreadable_exists, lemma_first_unreadable_fails,
    newer, some_newer, some_unreadable, unreadable,
};
use vstd::prelude::*;

verus! {

/// The file system as a run sees it: for each path, the answer of a
/// metadata query, which is the modification time or the error text.
pub type Files = spec_fn(Seq<char>) -> Result<int, Seq<char>>;

/// The probe of `path` in `files`.
pub open spec fn probe_at(files: Files, path: Seq<char>) -> ProbeView {
    ProbeView { path, modified: files(path) }
}

/// The probes of `paths` in `files`, in order.
pub open spec fn probes_at(files: Files, paths: Seq<Seq<char>>) -> Seq<ProbeView> {
    paths.map_values(|path: Seq<char>| probe_at(files, path))
}

/// How the run ends once the command is started: with the command's exit
/// code, or, where `child` is `None` because it could not be started, with
/// an error that names the program.
pub open spec fn executed(invocation: InvocationView, child: Option<i32>) -> OutcomeView {
    match child {
        Some(code) => OutcomeView::Executed { code },
        None => OutcomeView::Failed(ErrorView::CommandNotFound { program: invocation.program() }),
    }
}

/// How the run ends after the decision `decided`: the command is executed,
/// or skipped, or the run fails with the decision's error.
pub open spec fn concluded(
    invocation: InvocationView,
    decided: Result<bool, ErrorView>,
    child: Option<i32>,
) -> OutcomeView {
    match decided {
        Ok(execute) => if execute {
            executed(invocation, child)
        } else {
            OutcomeView::Skipped
        },
        Err(error) => OutcomeView::Failed(error),
    }
}

/// The decision over a list of which a part was read already: `stale` says
/// whether that part holds a dependency newer than the target, and `rest`
/// is the decision over what is left.
pub open spec fn joined(stale: bool, rest: Result<bool, ErrorView>) -> Result<bool, ErrorView> {
    match rest {
        Ok(execute) => Ok(stale || execute),
        Err(error) => Err(error),
    }
}

/// How the run ends with the dependency list `dependencies`: the target and
/// the dependencies are looked up, and the decision is carried out.
pub open spec fn judged(
    invocation: InvocationView,
    files: Files,
    child: Option<i32>,
    dependencies: Seq<Seq<char>>,
) -> OutcomeView {
    concluded(
        invocation,
        decision(probe_at(files, invocation.target), probes_at(files, dependencies)),
        child,
    )
}

/// How the run ends after inference has yielded `inferred`.
pub open spec fn resolved(
    invocation: InvocationView,
    files: Files,
    child: Option<i32>,
    inferred: Result<Seq<Seq<char>>, ErrorView>,
) -> OutcomeView {
    match inferred {
        Ok(dependencies) => judged(invocation, files, child, dependencies),
        Err(error) => OutcomeView::Failed(error),
    }
}

/// How a run of `invocation` ends.
///
/// The dependency list is the one from the command line, or, under
/// inference, the accessible arguments of the command; a failed inference
/// ends the run. Then the decision is made from the target and the
/// dependencies as `files` has them, and carried out: a skipped command
/// leaves nothing to do, an executed one ends the run as `child` says.
pub open spec fn outcome(
    invocation: InvocationView,
    files: Files,
    child: Option<i32>,
) -> OutcomeView {
    if invocation.infer {
        resolved(invocation, files, child, inference(probes_at(files, invocation.arguments())))
    } else {
        judged(invocation, files, child, invocation.dependencies)
    }
}

impl StepView {
    /// How a run ends that stands at this step, where every query from here
    /// on is answered from `files`.
    pub open spec fn leads_to(self, files: Files, child: Option<i32>) -> OutcomeView {
        match self {
            StepView::Done(outcome) => outcome,
            StepView::Execute(invocation) => executed(invocation, child),
            StepView::Probe(probing) => match probing.stage {
                StageView::Candidates { seen } => resolved(
                    probing.invocation,
                    files,
                    child,
                    inference(
                        seen + probes_at(
                            files,
                            probing.invocation.arguments().skip(seen.len() as int),
                        ),
                    ),
                ),
                StageView::Target { dependencies } => judged(
                    probing.invocation,
                    files,
                    child,
                    dependencies,
                ),
                StageView::Dependencies { target, dependencies, passed, stale } => concluded(
                    probing.invocation,
                    joined(
                        stale,
                        decision(
                            ProbeView { path: probing.invocation.target, modified: Ok(target) },
                            probes_at(files, dependencies.skip(passed)),
                        ),
                    ),
                    child,
                ),
            },
        }
    }
}

/// A dependency that was read can be taken off the head of the list, as
/// long as another one follows it: what is left decides, joined with
/// whether the one taken off is newer than the target.
pub proof fn lemma_readable_head_joins(target: ProbeView, time: int, dependencies: Seq<ProbeView>)
    requires
        target.modified == Ok::<int, Seq<char>>(time),
        dependencies.len() >= 2,
        dependencies[0].accessible(),
    ensures
        decision(target, dependencies) == joined(
            newer(time, dependencies[0]),
            decision(target, dependencies.skip(1)),
        ),
{
    let rest = dependencies.skip(1);
    if some_unreadable(rest) {
        let k = choose|k: int| 0 <= k < rest.len() && !(#[trigger] rest[k]).accessible();
        assert(!dependencies[k + 1].accessible());
    }
    if some_unreadable(dependencies) {
        let k = choose|k: int|
            0 <= k < dependencies.len() && !(#[trigger] dependencies[k]).accessible();
        let first = lemma_first_unreadable_exists(dependencies, k);
        assert(!rest[first - 1].accessible());
        assert(first_unreadable(rest, first - 1)) by {
            assert forall|earlier: int| 0 <= earlier < first - 1 implies (#[trigger] rest[
                earlier
            ]).accessible() by {
                assert(rest[earlier] == dependencies[earlier + 1]);
            }
        }
        lemma_first_unreadable_fails(target, time, dependencies, first);
        lemma_first_unreadable_fails(target, time, rest, first - 1);
    } else {
        if some_newer(time, dependencies) {
            let k = choose|k: int|
                0 <= k < dependencies.len() && newer(time, #[trigger] dependencies[k]);
            if k > 0 {
                assert(newer(time, rest[k - 1]));
            }
        }
        if some_newer(time, rest) {
            let k = choose|k: int| 0 <= k < rest.len() && newer(time, #[trigger] rest[k]);
            assert(newer(time, dependencies[k + 1]));
        }
    }
}

/// A run begins where `outcome` says it ends: the first step leads to the
/// outcome of the whole run.
pub proof fn lemma_first_step_leads_to_outcome(
    invocation: InvocationView,
    files: Files,
    child: Option<i32>,
)
    ensures
        first_step(invocation).leads_to(files, child) == outcome(invocation, files, child),
{
    if invocation.infer {
        let seen = Seq::<ProbeView>::empty();
        lemma_gathered_leads_on(invocation, files, child, seen);
        assert(invocation.arguments().skip(0) == invocation.arguments());
        assert(seen + probes_at(files, invocation.arguments()) == probes_at(
            files,
            invocation.arguments(),
        ));
    }
}

/// The step after gathering `seen` leads where inference over `seen` and
/// the arguments still to come leads.
proof fn lemma_gathered_leads_on(
    invocation: InvocationView,
    files: Files,
    child: Option<i32>,
    seen: Seq<ProbeView>,
)
    requires
        seen.len() <= invocation.arguments().len(),
    ensures
        gathered(invocation, seen).leads_to(files, child) == resolved(
            invocation,
            files,
            child,
            inference(seen + probes_at(files, invocation.arguments().skip(seen.len() as int))),
        ),
{
    if seen.len() == invocation.arguments().len() {
        assert(seen + probes_at(files, invocation.arguments().skip(seen.len() as int)) == seen);
    }
}

/// A step keeps the end of the run: where the query of a probing run is
/// answered as `files` has it, the next step leads to the same outcome.
pub proof fn lemma_next_step_keeps_outcome(probing: ProbingView, files: Files, child: Option<i32>)
    requires
        probing.well_formed(),
    ensures
        probing.next_step(files(probing.path())).leads_to(files, child) == StepView::Probe(
            probing,
        ).leads_to(files, child),
{
    let invocation = probing.invocation;
    let probe = probe_at(files, probing.path());
    match probing.stage {
        StageView::Candidates { seen } => {
            let arguments = invocation.arguments();
            let count = seen.len() as int;
            lemma_gathered_leads_on(invocation, files, child, seen.push(probe));
            assert(seen.push(probe) + probes_at(files, arguments.skip(count + 1)) == seen
                + probes_at(files, arguments.skip(count)));
        },
        StageView::Target { dependencies } => {
            assert(dependencies.skip(0) == dependencies);
        },
        StageView::Dependencies { target, dependencies, passed, stale } => {
            let read = ProbeView { path: invocation.target, modified: Ok(target) };
            let rest = probes_at(files, dependencies.skip(passed));
            assert(rest[0] == probe);
            if !probe.accessible() {
                assert(first_unreadable(rest, 0));
                lemma_first_unreadable_fails(read, target, rest, 0);
            } else if passed + 1 < dependencies.len() {
                lemma_readable_head_joins(read, target, rest);
                assert(rest.skip(1) == probes_at(files, dependencies.skip(passed + 1)));
            } else {
                assert(rest.len() == 1);
                assert(!some_unreadable(rest));
                assert(some_newer(target, rest) == newer(target, probe));
            }
        },
    }
}

/// Every step brings the run nearer to its end: the probing run that may
/// follow is well formed and has fewer queries left.
pub proof fn lemma_next_step_makes_progress(probing: ProbingView, metadata: Result<int, Seq<char>>)
    requires
        probing.well_formed(),
    ensures
        probing.next_step(metadata) matches StepView::Probe(next) ==> next.well_formed() && 0
            <= next.remaining() < probing.remaining(),
{
    let invocation = probing.invocation;
    match probing.stage {
        StageView::Candidates { seen } => {
            let probe = ProbeView { path: probing.path(), modified: metadata };
            let all = seen.push(probe);
            assert(paths(all) == invocation.arguments().take(all.len() as int));
            all.lemma_filter_len(is_accessible());
            assert(accessible_paths(all).len() <= all.len());
        },
        StageView::Target { dependencies } => {},
        StageView::Dependencies { target, dependencies, passed, stale } => {},
    }
}

impl StepView {
    /// What holds of every step of a run.
    pub open spec fn well_formed(self) -> bool {
        match self {
            StepView::Probe(probing) => probing.well_formed(),
            StepView::Execute(invocation) => invocation.usage_error() is None,
            StepView::Done(outcome) => true,
        }
    }

    /// The number of queries that the run may still make, at most.
    pub open spec fn queries_left(self) -> int {
        match self {
            StepView::Probe(probing) => probing.remaining(),
            StepView::Execute(invocation) => 0,
            StepView::Done(outcome) => 0,
        }
    }

    /// The end of a run that is carried on from this step by a caller who
    /// answers every query from `files` and reports the command's fate as
    /// `child`.
    pub open spec fn carried_on(self, files: Files, child: Option<i32>) -> OutcomeView
        decreases self.queries_left(),
        when self.well_formed()
    {
        match self {
            StepView::Probe(probing) => {
                proof {
                    lemma_next_step_makes_progress(probing, files(probing.path()));
                }
                probing.next_step(files(probing.path())).carried_on(files, child)
            },
            StepView::Execute(invocation) => executed(invocation, child),
            StepView::Done(outcome) => outcome,
        }
    }
}

/// Every step of a run is well formed.
pub proof fn lemma_steps_are_well_formed(probing: ProbingView, metadata: Result<int, Seq<char>>)
    requires
        probing.well_formed(),
    ensures
        probing.next_step(metadata).well_formed(),
{
    lemma_next_step_makes_progress(probing, metadata);
}

/// Carried on from any step, a run ends where that step leads.
pub proof fn lemma_carried_on_ends_as_foreseen(step: StepView, files: Files, child: Option<i32>)
    requires
        step.well_formed(),
    ensures
        step.carried_on(files, child) == step.leads_to(files, child),
    decreases step.queries_left(),
{
    match step {
        StepView::Probe(probing) => {
            let next = probing.next_step(files(probing.path()));
            lemma_next_step_makes_progress(probing, files(probing.path()));
            lemma_steps_are_well_formed(probing, files(probing.path()));
            lemma_next_step_keeps_outcome(probing, files, child);
            lemma_carried_on_ends_as_foreseen(next, files, child);
        },
        StepView::Execute(invocation) => {},
        StepView::Done(outcome) => {},
    }
}

/// The steps of a run amount to `outcome`: a run of a usable invocation
/// that is carried on from its first step to its last ends as `outcome`
/// says.
pub proof fn lemma_run_ends_as_outcome(invocation: InvocationView, files: Files, child: Option<i32>)
    requires
        invocation.usage_error() is None,
    ensures
        first_step(invocation).well_formed(),
        first_step(invocation).carried_on(files, child) == outcome(invocation, files, child),
{
    assert(first_step(invocation).well_formed()) by {
        assert(paths(Seq::<ProbeView>::empty()) == invocation.arguments().take(0));
    }
    lemma_first_step_leads_to_outcome(invocation, files, child);
    lemma_carried_on_ends_as_foreseen(first_step(invocation), files, child);
}

} // verus!
