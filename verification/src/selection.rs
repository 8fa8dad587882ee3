//! Lists that are made of the items of another list, one entry for each item
//! that is kept, in the same order.

use vstd::prelude::*;

verus! {

/// `out` has one entry for each item of `items` that is kept, in the same
/// order, and the two fit.
pub open spec fn picks<A, B>(items: Seq<A>, keep: spec_fn(A) -> bool, fits: spec_fn(A, B) -> bool, out: Seq<B>) -> bool {
    &&& out.len() == items.filter(keep).len()
    &&& forall|k: int| 0 <= k < out.len() ==> fits(items.filter(keep)[k], #[trigger] out[k])
}

/// From no items nothing is picked.
pub proof fn lemma_picks_none<A, B>(items: Seq<A>, keep: spec_fn(A) -> bool, fits: spec_fn(A, B) -> bool, out: Seq<B>)
    requires
        items.len() == 0,
        out.len() == 0,
    ensures
        picks(items, keep, fits, out),
{
    reveal(Seq::filter);
}

/// One item more: it is kept and its entry comes last, or it is not kept.
pub proof fn lemma_picks_more<A, B>(
    items: Seq<A>,
    keep: spec_fn(A) -> bool,
    fits: spec_fn(A, B) -> bool,
    before: Seq<B>,
    out: Seq<B>,
)
    requires
        items.len() > 0,
        picks(items.drop_last(), keep, fits, before),
        if keep(items.last()) {
            out.len() == before.len() + 1 && out.drop_last() == before && fits(items.last(), out.last())
        } else {
            out == before
        },
    ensures
        picks(items, keep, fits, out),
{
    reveal(Seq::filter);
    let less = items.drop_last().filter(keep);
    if keep(items.last()) {
        assert(items.filter(keep) == less.push(items.last()));
        assert forall|k: int| 0 <= k < out.len() implies fits(items.filter(keep)[k], #[trigger] out[k]) by {
            if k < before.len() {
                assert(out[k] == before[k]);
            }
        }
    }
}

} // verus!
