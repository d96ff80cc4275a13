//! Selections from a range of positions: the positions `0, 1, .., n - 1`
//! that satisfy a predicate, in increasing order.

use vstd::prelude::*;

verus! {

/// The positions `0, 1, .., n - 1`.
pub open spec fn positions(n: nat) -> Seq<int> {
    Seq::new(n, |i: int| i)
}

/// Extending the range by one appends the new position to the selection or
/// leaves the selection alone.
pub proof fn lemma_selection_step(n: nat, pred: spec_fn(int) -> bool)
    ensures
        positions(n + 1).filter(pred) == if pred(n as int) {
            positions(n).filter(pred).push(n as int)
        } else {
            positions(n).filter(pred)
        },
{
    reveal(Seq::filter);
    assert(positions(n + 1).drop_last() =~= positions(n));
    assert(positions(n + 1).last() == n as int);
}

/// Where exactly one position satisfies a predicate, the selection is that
/// position alone.
pub proof fn lemma_selection_of_one(n: nat, pred: spec_fn(int) -> bool, m: int)
    requires
        forall|c: int| 0 <= c < n ==> (#[trigger] pred(c) <==> c == m),
    ensures
        positions(n).filter(pred) == if 0 <= m < n {
            seq![m]
        } else {
            Seq::<int>::empty()
        },
    decreases n,
{
    if n == 0 {
        reveal(Seq::filter);
        assert(positions(0).filter(pred) =~= Seq::<int>::empty());
    } else {
        let shorter = (n - 1) as nat;
        lemma_selection_of_one(shorter, pred, m);
        lemma_selection_step(shorter, pred);
        if m == n - 1 {
            assert(Seq::<int>::empty().push(m) =~= seq![m]);
        }
    }
}

} // verus!
