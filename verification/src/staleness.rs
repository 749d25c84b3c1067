//! Whether the command has to run.

use crate::error::{result_view, Error, ErrorView};
use crate::probe::{Probe, ProbeView};
use vstd::prelude::*;

verus! {

/// The dependency was read and was modified strictly after `target`. A tie
/// is not newer.
pub open spec fn newer(target: int, dependency: ProbeView) -> bool {
    dependency.modified matches Ok(modified) && modified > target
}

/// Some dependency is newer than the target.
pub open spec fn some_newer(target: int, dependencies: Seq<ProbeView>) -> bool {
    exists|i: int| 0 <= i < dependencies.len() && newer(target, #[trigger] dependencies[i])
}

/// Some dependency could not be read.
pub open spec fn some_unreadable(dependencies: Seq<ProbeView>) -> bool {
    exists|i: int| 0 <= i < dependencies.len() && !(#[trigger] dependencies[i]).accessible()
}

/// The dependency at `index` could not be read, and every one before it
/// could.
pub open spec fn first_unreadable(dependencies: Seq<ProbeView>, index: int) -> bool {
    &&& 0 <= index < dependencies.len()
    &&& !dependencies[index].accessible()
    &&& forall|earlier: int|
        0 <= earlier < index ==> (#[trigger] dependencies[earlier]).accessible()
}

/// Every dependency was read and none is newer than the target.
pub open spec fn up_to_date(target: int, dependencies: Seq<ProbeView>) -> bool {
    forall|i: int|
        0 <= i < dependencies.len() ==> (#[trigger] dependencies[i]).accessible() && !newer(
            target,
            dependencies[i],
        )
}

/// The error for a dependency that could not be read: it carries the path
/// and the cause that the query gave.
pub open spec fn unreadable(dependency: ProbeView) -> ErrorView
    recommends
        !dependency.accessible(),
{
    ErrorView::UnreadableDependency {
        path: dependency.path,
        cause: match dependency.modified {
            Ok(_) => Seq::empty(),
            Err(cause) => cause,
        },
    }
}

/// The decision for a target and its dependencies: `Ok(true)` to execute the
/// command, `Ok(false)` to skip it.
///
/// A target whose metadata cannot be read is taken as absent, and the command
/// runs whatever the dependencies are. For a target that was read, one
/// dependency that could not be read makes the decision fail, wherever it
/// stands in the list; the error names the first such. Where all were read,
/// the command runs if there is no dependency at all or if some dependency
/// is newer than the target, and is skipped otherwise.
pub open spec fn decision(target: ProbeView, dependencies: Seq<ProbeView>) -> Result<
    bool,
    ErrorView,
> {
    match target.modified {
        Err(_) => Ok(true),
        Ok(target) => {
            if some_unreadable(dependencies) {
                Err(unreadable(dependencies[choose|i: int| first_unreadable(dependencies, i)]))
            } else {
                Ok(dependencies.len() == 0 || some_newer(target, dependencies))
            }
        },
    }
}

/// At most one dependency is the first that could not be read.
pub proof fn lemma_first_unreadable_unique(dependencies: Seq<ProbeView>, i: int, j: int)
    requires
        first_unreadable(dependencies, i),
        first_unreadable(dependencies, j),
    ensures
        i == j,
{
    if i < j {
        assert(dependencies[i].accessible());
    } else if j < i {
        assert(dependencies[j].accessible());
    }
}

/// Where some dependency could not be read, one of them is the first, and it
/// stands no later.
pub proof fn lemma_first_unreadable_exists(dependencies: Seq<ProbeView>, index: int) -> (first:
    int)
    requires
        0 <= index < dependencies.len(),
        !dependencies[index].accessible(),
    ensures
        first <= index,
        first_unreadable(dependencies, first),
    decreases index,
{
    if exists|earlier: int| 0 <= earlier < index && !dependencies[earlier].accessible() {
        let earlier = choose|earlier: int|
            0 <= earlier < index && !dependencies[earlier].accessible();
        lemma_first_unreadable_exists(dependencies, earlier)
    } else {
        index
    }
}

/// For a target modified at `time`, the decision fails with the error of the
/// first dependency that could not be read.
pub proof fn lemma_first_unreadable_fails(
    target: ProbeView,
    time: int,
    dependencies: Seq<ProbeView>,
    first: int,
)
    requires
        target.modified == Ok::<int, Seq<char>>(time),
        first_unreadable(dependencies, first),
    ensures
        decision(target, dependencies) == Err::<bool, ErrorView>(
            unreadable(dependencies[first]),
        ),
{
    let chosen = choose|i: int| first_unreadable(dependencies, i);
    lemma_first_unreadable_unique(dependencies, first, chosen);
}

/// One more dependency is newer exactly when it is newer itself or one
/// before it was.
pub proof fn lemma_some_newer_grows(target: int, dependencies: Seq<ProbeView>, count: int)
    requires
        0 <= count < dependencies.len(),
    ensures
        some_newer(target, dependencies.take(count + 1)) == (some_newer(
            target,
            dependencies.take(count),
        ) || newer(target, dependencies[count])),
{
    let more = dependencies.take(count + 1);
    let fewer = dependencies.take(count);
    if some_newer(target, more) {
        let i = choose|i: int| 0 <= i < more.len() && newer(target, #[trigger] more[i]);
        if i < count {
            assert(newer(target, fewer[i]));
        }
    }
    if some_newer(target, fewer) {
        let i = choose|i: int| 0 <= i < fewer.len() && newer(target, #[trigger] fewer[i]);
        assert(newer(target, more[i]));
    }
    if newer(target, dependencies[count]) {
        assert(newer(target, more[count]));
    }
}

/// The order of the dependencies is irrelevant to the decision. Two lists
/// that hold the same probes, each as often, in whatever order, both fail
/// or both succeed, and where they succeed they decide alike. Where they
/// fail, each names the unreadable dependency that comes first in it.
pub proof fn lemma_order_is_irrelevant(
    target: ProbeView,
    dependencies: Seq<ProbeView>,
    reordered: Seq<ProbeView>,
)
    requires
        dependencies.to_multiset() == reordered.to_multiset(),
    ensures
        decision(target, dependencies) is Err <==> decision(target, reordered) is Err,
        decision(target, dependencies) is Ok ==> decision(target, dependencies) == decision(
            target,
            reordered,
        ),
{
    lemma_same_members(dependencies, reordered);
    lemma_same_members(reordered, dependencies);
    assert(dependencies.len() == reordered.len()) by {
        dependencies.to_multiset_ensures();
        reordered.to_multiset_ensures();
    }
    match target.modified {
        Err(_) => {},
        Ok(time) => {
            if some_unreadable(dependencies) {
                let i = choose|i: int|
                    0 <= i < dependencies.len() && !(#[trigger] dependencies[i]).accessible();
                assert(reordered.contains(dependencies[i]));
                let j = choose|j: int| 0 <= j < reordered.len() && reordered[j] == dependencies[i];
                assert(!reordered[j].accessible());
            }
            if some_unreadable(reordered) {
                let j = choose|j: int|
                    0 <= j < reordered.len() && !(#[trigger] reordered[j]).accessible();
                assert(dependencies.contains(reordered[j]));
                let i = choose|i: int|
                    0 <= i < dependencies.len() && dependencies[i] == reordered[j];
                assert(!dependencies[i].accessible());
            }
            if some_newer(time, dependencies) {
                let i = choose|i: int|
                    0 <= i < dependencies.len() && newer(time, #[trigger] dependencies[i]);
                assert(reordered.contains(dependencies[i]));
                let j = choose|j: int| 0 <= j < reordered.len() && reordered[j] == dependencies[i];
                assert(newer(time, reordered[j]));
            }
            if some_newer(time, reordered) {
                let j = choose|j: int|
                    0 <= j < reordered.len() && newer(time, #[trigger] reordered[j]);
                assert(dependencies.contains(reordered[j]));
                let i = choose|i: int|
                    0 <= i < dependencies.len() && dependencies[i] == reordered[j];
                assert(newer(time, dependencies[i]));
            }
        },
    }
}

/// Every probe of `list` stands somewhere in `other`, where both hold the
/// same probes.
proof fn lemma_same_members(list: Seq<ProbeView>, other: Seq<ProbeView>)
    requires
        list.to_multiset() == other.to_multiset(),
    ensures
        forall|i: int| 0 <= i < list.len() ==> other.contains(#[trigger] list[i]),
{
    list.to_multiset_ensures();
    other.to_multiset_ensures();
    assert forall|i: int| 0 <= i < list.len() implies other.contains(#[trigger] list[i]) by {
        assert(list.contains(list[i]));
        assert(list.to_multiset().count(list[i]) > 0);
        assert(other.to_multiset().count(list[i]) > 0);
    }
}

/// Decides whether the command has to run, from what the file system
/// reported of the target and of each dependency.
///
/// Returns `Ok(true)` to execute and `Ok(false)` to skip. It fails exactly
/// when the target was read and some dependency was not, wherever that one
/// stands; the error names the first such dependency.
pub fn should_execute(target: &Probe, dependencies: &[Probe]) -> (result: Result<bool, Error>)
    ensures
        result_view(result) == decision(target@, dependencies.deep_view()),
        !target@.accessible() ==> result == Ok::<bool, Error>(true),
        dependencies@.len() == 0 ==> result == Ok::<bool, Error>(true),
        target@.modified matches Ok(modified) && dependencies@.len() > 0 && up_to_date(
            modified,
            dependencies.deep_view(),
        ) ==> result == Ok::<bool, Error>(false),
        target@.modified matches Ok(modified) && !some_unreadable(dependencies.deep_view())
            && some_newer(modified, dependencies.deep_view()) ==> result == Ok::<bool, Error>(
            true,
        ),
        result is Err <==> target@.accessible() && some_unreadable(dependencies.deep_view()),
{
    let ghost probes = dependencies.deep_view();
    let target_time = match &target.metadata {
        Ok(time) => *time,
        Err(_) => {
            return Ok(true);
        },
    };
    if dependencies.len() == 0 {
        return Ok(true);
    }
    let mut stale = false;
    let mut i: usize = 0;
    while i < dependencies.len()
        invariant
            i <= dependencies.len(),
            dependencies@.len() > 0,
            probes == dependencies.deep_view(),
            target@.modified == Ok::<int, Seq<char>>(target_time@),
            forall|j: int| 0 <= j < i ==> (#[trigger] probes[j]).accessible(),
            stale == some_newer(target_time@, probes.take(i as int)),
        decreases dependencies.len() - i,
    {
        let dependency = &dependencies[i];
        assert(probes[i as int] == dependency@);
        match &dependency.metadata {
            Ok(time) => {
                proof {
                    lemma_some_newer_grows(target_time@, probes, i as int);
                }
                if time.is_newer_than(&target_time) {
                    stale = true;
                }
            },
            Err(cause) => {
                proof {
                    lemma_first_unreadable_fails(target@, target_time@, probes, i as int);
                }
                return Err(
                    Error::UnreadableDependency {
                        path: dependency.path.clone(),
                        cause: cause.clone(),
                    },
                );
            },
        }
        i += 1;
    }
    proof {
        assert(probes.take(i as int) == probes);
        if stale {
            let k = choose|k: int|
                0 <= k < probes.len() && newer(target_time@, #[trigger] probes[k]);
            assert(!up_to_date(target_time@, probes));
        }
    }
    Ok(stale)
}

} // verus!
