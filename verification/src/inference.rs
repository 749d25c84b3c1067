//! Dependencies taken from the command's own arguments.

use crate::error::{result_view, Error, ErrorView};
use crate::probe::{paths, Probe, ProbeView};
use vstd::prelude::*;

verus! {

/// The test that inference applies to an argument: its metadata could be
/// read. Nothing is asked of the kind of file.
pub open spec fn is_accessible() -> spec_fn(ProbeView) -> bool {
    |probe: ProbeView| probe.accessible()
}

/// The paths of the accessible arguments, in the order of the arguments.
pub open spec fn accessible_paths(arguments: Seq<ProbeView>) -> Seq<Seq<char>> {
    paths(arguments.filter(is_accessible()))
}

/// What inference yields for `arguments`: the accessible paths, or, where
/// there is none, an error that names every argument considered.
pub open spec fn inference(arguments: Seq<ProbeView>) -> Result<Seq<Seq<char>>, ErrorView> {
    if accessible_paths(arguments).len() == 0 {
        Err(ErrorView::NoInferableDependency { arguments: paths(arguments) })
    } else {
        Ok(accessible_paths(arguments))
    }
}

/// Taking one more argument into account appends its path if it is
/// accessible and changes nothing otherwise.
proof fn lemma_accessible_paths_step(arguments: Seq<ProbeView>, count: int)
    requires
        0 <= count < arguments.len(),
    ensures
        accessible_paths(arguments.take(count + 1)) == if arguments[count].accessible() {
            accessible_paths(arguments.take(count)).push(arguments[count].path)
        } else {
            accessible_paths(arguments.take(count))
        },
{
    let before = arguments.take(count);
    assert(arguments.take(count + 1) == before.push(arguments[count]));
    before.lemma_filter_push(arguments[count], is_accessible());
    if arguments[count].accessible() {
        assert(paths(before.filter(is_accessible()).push(arguments[count])) == paths(
            before.filter(is_accessible()),
        ).push(arguments[count].path));
    }
}

/// Some argument is accessible exactly when inference finds a path.
pub proof fn lemma_found_iff_accessible(arguments: Seq<ProbeView>)
    ensures
        accessible_paths(arguments).len() > 0 <==> exists|i: int|
            0 <= i < arguments.len() && (#[trigger] arguments[i]).accessible(),
{
    let kept = arguments.filter(is_accessible());
    if kept.len() > 0 {
        arguments.lemma_filter_pred(is_accessible(), 0);
        arguments.lemma_filter_contains_rev(is_accessible(), kept[0]);
        let i = choose|i: int| 0 <= i < arguments.len() && arguments[i] == kept[0];
        assert(arguments[i].accessible());
    }
    if exists|i: int| 0 <= i < arguments.len() && (#[trigger] arguments[i]).accessible() {
        let i = choose|i: int| 0 <= i < arguments.len() && (#[trigger] arguments[i]).accessible();
        arguments.lemma_filter_contains(is_accessible(), i);
    }
}

/// Inference keeps exactly the accessible arguments and keeps them in
/// order. The sequence returned gives, for each inferred path, the place of
/// its argument: the places rise strictly, each holds an accessible argument
/// with that path, and no accessible argument is left out.
pub proof fn lemma_inference_keeps_order(arguments: Seq<ProbeView>) -> (places: Seq<int>)
    ensures
        places.len() == accessible_paths(arguments).len(),
        forall|k: int|
            0 <= k < places.len() ==> 0 <= #[trigger] places[k] < arguments.len()
                && arguments[places[k]].accessible() && accessible_paths(arguments)[k]
                == arguments[places[k]].path,
        forall|k: int, l: int| 0 <= k < l < places.len() ==> places[k] < places[l],
        forall|i: int|
            0 <= i < arguments.len() && (#[trigger] arguments[i]).accessible()
                ==> places.contains(i),
    decreases arguments.len(),
{
    if arguments.len() == 0 {
        assert(arguments.filter(is_accessible()).len() == 0) by {
            arguments.lemma_filter_len(is_accessible());
        }
        Seq::empty()
    } else {
        let rest = arguments.drop_last();
        let last = arguments.len() - 1;
        let earlier = lemma_inference_keeps_order(rest);
        assert(arguments == rest.push(arguments[last]));
        assert(rest.take(last) == rest);
        assert(arguments.take(last) == rest);
        assert(arguments.take(last + 1) == arguments);
        lemma_accessible_paths_step(arguments, last);
        if arguments[last].accessible() {
            let places = earlier.push(last);
            assert forall|i: int|
                0 <= i < arguments.len() && (#[trigger] arguments[i]).accessible()
                implies places.contains(i) by {
                if i < last {
                    assert(rest[i].accessible());
                    let k = choose|k: int| 0 <= k < earlier.len() && earlier[k] == i;
                    assert(places[k] == i);
                } else {
                    assert(places[earlier.len() as int] == i);
                }
            }
            places
        } else {
            assert forall|i: int|
                0 <= i < arguments.len() && (#[trigger] arguments[i]).accessible()
                implies earlier.contains(i) by {
                assert(rest[i].accessible());
            }
            earlier
        }
    }
}

/// Infers the dependency list from the command's arguments: the paths of
/// those arguments whose metadata could be read, in their order.
///
/// Fails where no argument is accessible; the error names all of them.
pub fn infer_dependencies(command: &[Probe]) -> (result: Result<Vec<String>, Error>)
    ensures
        result_view(result) == inference(command.deep_view()),
        result is Ok <==> exists|i: int|
            0 <= i < command@.len() && (#[trigger] command@[i])@.accessible(),
{
    let ghost arguments = command.deep_view();
    let mut found: Vec<String> = Vec::new();
    let mut i: usize = 0;
    while i < command.len()
        invariant
            i <= command.len(),
            arguments == command.deep_view(),
            found.deep_view() == accessible_paths(arguments.take(i as int)),
        decreases command.len() - i,
    {
        proof {
            lemma_accessible_paths_step(arguments, i as int);
        }
        let ghost before = found.deep_view();
        if command[i].metadata.is_ok() {
            found.push(command[i].path.clone());
            assert(found.deep_view() == before.push(arguments[i as int].path));
        }
        i += 1;
    }
    proof {
        assert(arguments.take(i as int) == arguments);
        lemma_found_iff_accessible(arguments);
        assert forall|k: int| 0 <= k < command@.len() implies (#[trigger] command@[k])@
            == arguments[k] by {}
    }
    if found.len() > 0 {
        return Ok(found);
    }
    let mut considered: Vec<String> = Vec::new();
    let mut j: usize = 0;
    while j < command.len()
        invariant
            j <= command.len(),
            arguments == command.deep_view(),
            considered.deep_view() == paths(arguments.take(j as int)),
        decreases command.len() - j,
    {
        let ghost before = considered.deep_view();
        considered.push(command[j].path.clone());
        proof {
            assert(arguments.take(j + 1) == arguments.take(j as int).push(arguments[j as int]));
            assert(considered.deep_view() == before.push(arguments[j as int].path));
        }
        j += 1;
    }
    assert(arguments.take(j as int) == arguments);
    Err(Error::NoInferableDependency { arguments: considered })
}

} // verus!
