//! Facts about rules that are applied to every item of a sequence.

use vstd::prelude::*;

verus! {

/// Two rules that give the same on two sequences, item by item, give the
/// same results on the whole of them.
pub proof fn lemma_filter_map_agrees<A, B>(
    a: Seq<A>,
    b: Seq<A>,
    first: spec_fn(A) -> Option<B>,
    second: spec_fn(A) -> Option<B>,
)
    requires
        a.len() == b.len(),
        forall|i: int| 0 <= i < a.len() ==> first(#[trigger] a[i]) == second(b[i]),
    ensures
        a.filter_map(first) == b.filter_map(second),
    decreases a.len(),
{
    if a.len() > 0 {
        assert forall|i: int| 0 <= i < a.drop_last().len() implies first(
            #[trigger] a.drop_last()[i],
        ) == second(b.drop_last()[i]) by {
            assert(a.drop_last()[i] == a[i]);
            assert(b.drop_last()[i] == b[i]);
        }
        lemma_filter_map_agrees(a.drop_last(), b.drop_last(), first, second);
        assert(first(a.last()) == second(b.last())) by {
            assert(a.last() == a[a.len() - 1]);
        }
    }
}

/// What a rule gives for an item of a sequence is among what it gives for
/// the sequence.
pub proof fn lemma_filter_map_holds<A, B>(items: Seq<A>, rule: spec_fn(A) -> Option<B>, i: int)
    requires
        0 <= i < items.len(),
        rule(items[i]) is Some,
    ensures
        items.filter_map(rule).contains(rule(items[i])->0),
    decreases items.len(),
{
    let front = items.drop_last().filter_map(rule);
    let all = items.filter_map(rule);
    if i == items.len() - 1 {
        assert(all[all.len() - 1] == rule(items[i])->0);
    } else {
        lemma_filter_map_holds(items.drop_last(), rule, i);
        let at = choose|at: int| 0 <= at < front.len() && front[at] == rule(items[i])->0;
        assert(all[at] == front[at]);
    }
}

} // verus!
