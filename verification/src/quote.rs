//! Quoting of arguments for diagnostics.

use vstd::prelude::*;

verus! {

/// `text` between two double quotes. Quotes inside `text` are left as they are.
pub open spec fn quoted(text: Seq<char>) -> Seq<char> {
    seq!['"'] + text + seq!['"']
}

/// Every item between double quotes, with a single space between neighbours;
/// empty for no items.
pub open spec fn quoted_list(items: Seq<Seq<char>>) -> Seq<char>
    decreases items.len(),
{
    if items.len() == 0 {
        Seq::empty()
    } else if items.len() == 1 {
        quoted(items[0])
    } else {
        quoted_list(items.drop_last()) + seq![' '] + quoted(items.last())
    }
}

/// Writes `items` as a quoted, space-separated list.
pub fn quote_arguments(items: &[String]) -> (line: String)
    ensures
        line@ == quoted_list(items.deep_view()),
{
    let ghost texts = items.deep_view();
    let mut line = String::new();
    let mut i: usize = 0;
    while i < items.len()
        invariant
            i <= items.len(),
            texts == items.deep_view(),
            line@ == quoted_list(texts.take(i as int)),
        decreases items.len() - i,
    {
        proof {
            reveal_strlit(" ");
            reveal_strlit("\"");
            assert(texts.take(i + 1).drop_last() == texts.take(i as int));
            assert(texts.take(i + 1).last() == items[i as int]@);
        }
        if i > 0 {
            line.append(" ");
        }
        line.append("\"");
        line.append(items[i].as_str());
        line.append("\"");
        i += 1;
    }
    assert(texts.take(i as int) == texts);
    line
}

} // verus!
