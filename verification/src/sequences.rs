//! Facts about filtered sequences that the canvas proofs share.

use vstd::prelude::*;

verus! {

/// Filtering a sequence with one more element filters the element too.
pub proof fn lemma_filter_push<A>(s: Seq<A>, x: A, pred: spec_fn(A) -> bool)
    ensures
        s.push(x).filter(pred) == if pred(x) {
            s.filter(pred).push(x)
        } else {
            s.filter(pred)
        },
{
    reveal(Seq::filter);
    assert(s.push(x).drop_last() =~= s);
}

/// A filter that every element passes keeps the sequence.
pub proof fn lemma_filter_all<A>(s: Seq<A>, pred: spec_fn(A) -> bool)
    requires
        forall|i: int| 0 <= i < s.len() ==> pred(#[trigger] s[i]),
    ensures
        s.filter(pred) == s,
    decreases s.len(),
{
    reveal(Seq::filter);
    if s.len() > 0 {
        lemma_filter_all(s.drop_last(), pred);
        assert(s.drop_last().push(s.last()) =~= s);
    }
}

/// A filter that the element at `i` alone fails removes that element.
pub proof fn lemma_filter_one_out<A>(s: Seq<A>, i: int, pred: spec_fn(A) -> bool)
    requires
        0 <= i < s.len(),
        !pred(s[i]),
        forall|j: int| 0 <= j < s.len() && j != i ==> pred(#[trigger] s[j]),
    ensures
        s.filter(pred) == s.remove(i),
    decreases s.len(),
{
    reveal(Seq::filter);
    let front = s.drop_last();
    if i == s.len() - 1 {
        lemma_filter_all(front, pred);
        assert(s.remove(i) =~= front);
    } else {
        lemma_filter_one_out(front, i, pred);
        assert(front.remove(i).push(s.last()) =~= s.remove(i));
    }
}

/// Every element of a filtered sequence stands in the sequence itself, and
/// passes the filter.
pub proof fn lemma_filter_from<A>(s: Seq<A>, pred: spec_fn(A) -> bool, k: int)
    requires
        0 <= k < s.filter(pred).len(),
    ensures
        pred(s.filter(pred)[k]),
        exists|i: int| 0 <= i < s.len() && #[trigger] s[i] == s.filter(pred)[k],
    decreases s.len(),
{
    reveal(Seq::filter);
    if s.len() > 0 {
        let front = s.drop_last();
        if k < front.filter(pred).len() {
            lemma_filter_from(front, pred, k);
            let i = choose|i: int| 0 <= i < front.len() && #[trigger] front[i] == front.filter(pred)[k];
            assert(s[i] == s.filter(pred)[k]);
        } else {
            assert(s[s.len() - 1] == s.filter(pred)[k]);
        }
    }
}

} // verus!
