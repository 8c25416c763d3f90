//! Looking through lists.
use vstd::prelude::*;

verus! {

/// The first position at or after `from` whose item satisfies `pred`.
pub open spec fn first_from<A>(s: Seq<A>, pred: spec_fn(A) -> bool, from: int) -> Option<int>
    decreases s.len() - from,
{
    if from < 0 || from >= s.len() {
        None
    } else if pred(s[from]) {
        Some(from)
    } else {
        first_from(s, pred, from + 1)
    }
}

/// The first position whose item satisfies `pred`.
pub open spec fn first_where<A>(s: Seq<A>, pred: spec_fn(A) -> bool) -> Option<int> {
    first_from(s, pred, 0)
}

/// A position found holds an item that satisfies `pred`, and none before it
/// does.
pub proof fn lemma_first_from<A>(s: Seq<A>, pred: spec_fn(A) -> bool, from: int)
    requires
        0 <= from,
    ensures
        match first_from(s, pred, from) {
            Some(i) => from <= i < s.len() && pred(s[i]) && forall|j: int|
                from <= j < i ==> !pred(#[trigger] s[j]),
            None => forall|j: int| from <= j < s.len() ==> !pred(#[trigger] s[j]),
        },
    decreases s.len() - from,
{
    if from < s.len() && !pred(s[from]) {
        lemma_first_from(s, pred, from + 1);
    }
}

/// What is kept of one more item.
pub proof fn lemma_filter_step<A>(s: Seq<A>, pred: spec_fn(A) -> bool, i: int)
    requires
        0 <= i < s.len(),
    ensures
        s.take(i + 1).filter(pred) == if pred(s[i]) {
            s.take(i).filter(pred).push(s[i])
        } else {
            s.take(i).filter(pred)
        },
{
    reveal(Seq::filter);
    assert(s.take(i + 1).drop_last() =~= s.take(i));
    assert(s.take(i + 1).last() == s[i]);
}

/// One item is kept exactly when one position alone satisfies `pred`, and
/// then it is the item there; nothing is kept exactly when no position does.
pub proof fn lemma_filter_count<A>(s: Seq<A>, pred: spec_fn(A) -> bool)
    ensures
        s.filter(pred).len() == 0 <==> forall|i: int| 0 <= i < s.len() ==> !pred(#[trigger] s[i]),
        s.filter(pred).len() == 1 <==> exists|i: int| #[trigger] sole_position(s, pred, i),
        forall|i: int| #[trigger] sole_position(s, pred, i) ==> s.filter(pred) == seq![s[i]],
    decreases s.len(),
{
    reveal(Seq::filter);
    if s.len() > 0 {
        let front = s.drop_last();
        lemma_filter_count(front, pred);
        let n = s.len() - 1;
        assert(forall|i: int| 0 <= i < n ==> front[i] == s[i]);
        if pred(s.last()) {
            if front.filter(pred).len() == 0 {
                assert(sole_position(s, pred, n as int)) by {
                    assert forall|j: int| 0 <= j < s.len() && j != n implies !pred(#[trigger] s[j]) by {
                        assert(!pred(front[j]));
                    }
                }
                assert(s.filter(pred) =~= seq![s[n as int]]);
            }
            assert forall|i: int| #[trigger] sole_position(s, pred, i) implies i == n && s.filter(pred)
                == seq![s[i]] by {
                if i != n {
                    assert(!pred(s[n as int]));
                }
                assert forall|j: int| 0 <= j < front.len() implies !pred(#[trigger] front[j]) by {
                    assert(!pred(s[j]));
                }
                assert(s.filter(pred) =~= seq![s[i]]);
            }
            if front.filter(pred).len() > 0 {
                let k = choose|k: int| 0 <= k < front.len() && pred(#[trigger] front[k]);
                assert(pred(s[k]));
                assert forall|i: int| !#[trigger] sole_position(s, pred, i) by {
                    if sole_position(s, pred, i) {
                        if i != n {
                            assert(!pred(s[n as int]));
                        } else {
                            assert(!pred(s[k]));
                        }
                    }
                }
            }
        } else {
            assert forall|i: int|
                #[trigger] sole_position(s, pred, i) <==> sole_position(front, pred, i) by {
                if sole_position(s, pred, i) {
                    assert(i != n);
                    assert forall|j: int| 0 <= j < front.len() && j != i implies !pred(
                        #[trigger] front[j],
                    ) by {
                        assert(!pred(s[j]));
                    }
                }
                if sole_position(front, pred, i) {
                    assert forall|j: int| 0 <= j < s.len() && j != i implies !pred(#[trigger] s[j]) by {
                        if j < n {
                            assert(!pred(front[j]));
                        }
                    }
                }
            }
            if front.filter(pred).len() == 1 {
                let i = choose|i: int| #[trigger] sole_position(front, pred, i);
                assert(sole_position(s, pred, i));
            }
        }
    }
}

/// Does the item at `i`, and no other, satisfy `pred`?
pub open spec fn sole_position<A>(s: Seq<A>, pred: spec_fn(A) -> bool, i: int) -> bool {
    &&& 0 <= i < s.len()
    &&& pred(s[i])
    &&& forall|j: int| 0 <= j < s.len() && j != i ==> !pred(#[trigger] s[j])
}

/// As many items are kept as there are positions of items that satisfy `pred`,
/// where these positions are listed in order.
pub proof fn lemma_filter_positions<A>(s: Seq<A>, pred: spec_fn(A) -> bool, positions: Seq<int>)
    requires
        forall|a: int, b: int|
            0 <= a < b < positions.len() ==> #[trigger] positions[a] < #[trigger] positions[b],
        forall|k: int|
            0 <= k < positions.len() ==> 0 <= #[trigger] positions[k] < s.len() && pred(
                s[positions[k]],
            ),
        forall|i: int| 0 <= i < s.len() && pred(s[i]) ==> #[trigger] positions.contains(i),
    ensures
        s.filter(pred).len() == positions.len(),
    decreases s.len(),
{
    reveal(Seq::filter);
    if s.len() > 0 {
        let n = s.len() - 1;
        let front = s.drop_last();
        if pred(s.last()) {
            assert(positions.contains(n));
            let m = choose|m: int| 0 <= m < positions.len() && positions[m] == n;
            if m < positions.len() - 1 {
                assert(positions[m] < positions[positions.len() - 1]);
            }
            let before = positions.drop_last();
            assert forall|k: int| 0 <= k < before.len() implies 0 <= #[trigger] before[k]
                < front.len() && pred(front[before[k]]) by {
                assert(before[k] == positions[k]);
                assert(positions[k] < positions[m]);
            }
            assert forall|i: int|
                0 <= i < front.len() && pred(front[i]) implies #[trigger] before.contains(i) by {
                assert(positions.contains(i));
                let k = choose|k: int| 0 <= k < positions.len() && positions[k] == i;
                assert(before[k] == i);
            }
            lemma_filter_positions(front, pred, before);
        } else {
            assert forall|k: int| 0 <= k < positions.len() implies 0 <= #[trigger] positions[k]
                < front.len() && pred(front[positions[k]]) by {
                assert(positions[k] != n);
            }
            assert forall|i: int|
                0 <= i < front.len() && pred(front[i]) implies #[trigger] positions.contains(i) by {
                assert(pred(s[i]));
            }
            lemma_filter_positions(front, pred, positions);
        }
    } else if positions.len() > 0 {
        assert(0 <= positions[0] < s.len());
    }
}

/// The positions of the items that are kept, in order.
pub proof fn lemma_kept_positions<A>(s: Seq<A>, pred: spec_fn(A) -> bool) -> (positions: Seq<int>)
    ensures
        positions.len() == s.filter(pred).len(),
        forall|k: int|
            0 <= k < positions.len() ==> 0 <= #[trigger] positions[k] < s.len() && pred(
                s[positions[k]],
            ) && s.filter(pred)[k] == s[positions[k]],
        forall|a: int, b: int|
            0 <= a < b < positions.len() ==> #[trigger] positions[a] < #[trigger] positions[b],
        forall|i: int| 0 <= i < s.len() && pred(s[i]) ==> #[trigger] positions.contains(i),
    decreases s.len(),
{
    reveal(Seq::filter);
    if s.len() == 0 {
        Seq::empty()
    } else {
        let front = s.drop_last();
        let n = s.len() - 1;
        let before = lemma_kept_positions(front, pred);
        if pred(s.last()) {
            let positions = before.push(n);
            assert forall|i: int|
                0 <= i < s.len() && pred(s[i]) implies #[trigger] positions.contains(i) by {
                if i < n {
                    assert(pred(front[i]));
                    assert(before.contains(i));
                    let k = choose|k: int| 0 <= k < before.len() && before[k] == i;
                    assert(positions[k] == i);
                } else {
                    assert(positions[before.len() as int] == n);
                }
            }
            positions
        } else {
            assert forall|i: int|
                0 <= i < s.len() && pred(s[i]) implies #[trigger] before.contains(i) by {
                assert(pred(front[i]));
            }
            before
        }
    }
}

} // verus!
