//! First-in, first-out streams.

use vstd::prelude::*;

verus! {

/// Whether a step that let `entered` in at the end and `left` out at the front turns the contents
/// `before` into `after`.
pub open spec fn flows<T>(before: Seq<T>, entered: Seq<T>, left: Seq<T>, after: Seq<T>) -> bool {
    before + entered == left + after
}

/// What leaves a stream over any number of steps is what was in it and what entered, in that
/// order; what has not left is still there.
pub proof fn lemma_first_in_first_out<T>(
    contents: Seq<Seq<T>>,
    entered: Seq<Seq<T>>,
    left: Seq<Seq<T>>,
)
    requires
        contents.len() == entered.len() + 1,
        left.len() == entered.len(),
        forall|i: int|
            #![trigger entered[i]]
            0 <= i < entered.len() ==> flows(contents[i], entered[i], left[i], contents[i + 1]),
    ensures
        contents[0] + entered.flatten() == left.flatten() + contents.last(),
    decreases entered.len(),
{
    if entered.len() == 0 {
        assert(contents[0] + entered.flatten() =~= left.flatten() + contents.last());
    } else {
        let rest = contents.skip(1);
        let e = entered.skip(1);
        let l = left.skip(1);
        assert forall|i: int| #![trigger e[i]] 0 <= i < e.len() implies flows(
            rest[i],
            e[i],
            l[i],
            rest[i + 1],
        ) by {
            assert(e[i] == entered[i + 1]);
        }
        lemma_first_in_first_out(rest, e, l);
        assert(flows(contents[0], entered[0], left[0], contents[1]));
        assert(entered.flatten() == entered[0] + e.flatten());
        assert(left.flatten() == left[0] + l.flatten());
        assert(contents[0] + (entered[0] + e.flatten()) =~= (contents[0] + entered[0])
            + e.flatten());
        assert((left[0] + contents[1]) + e.flatten() =~= left[0] + (contents[1] + e.flatten()));
        assert(left[0] + (l.flatten() + rest.last()) =~= (left[0] + l.flatten()) + rest.last());
    }
}

} // verus!
