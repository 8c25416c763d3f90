//! The order of texts, and lists of texts kept in that order.
use vstd::prelude::*;

use crate::text;

verus! {

/// Does `a` come before `b` when texts are ordered by their characters?
pub open spec fn text_before(a: Seq<char>, b: Seq<char>) -> bool
    decreases a.len(),
{
    if b.len() == 0 {
        false
    } else if a.len() == 0 {
        true
    } else if a[0] != b[0] {
        a[0] < b[0]
    } else {
        text_before(a.drop_first(), b.drop_first())
    }
}

/// Does every text of the list come before the ones behind it? Then the list
/// is in order and holds nothing twice.
pub open spec fn strictly_sorted(list: Seq<Seq<char>>) -> bool {
    forall|i: int, j: int|
        0 <= i < j < list.len() ==> text_before(#[trigger] list[i], #[trigger] list[j])
}

/// The order is total and strict.
pub proof fn lemma_before_total(a: Seq<char>, b: Seq<char>)
    ensures
        a == b ==> !text_before(a, b),
        a != b ==> (text_before(a, b) <==> !text_before(b, a)),
    decreases a.len(),
{
    if a.len() == 0 && b.len() == 0 {
        assert(a =~= b);
    } else if a.len() > 0 && b.len() > 0 && a[0] == b[0] {
        lemma_before_total(a.drop_first(), b.drop_first());
        if a.drop_first() == b.drop_first() {
            assert(a =~= seq![a[0]] + a.drop_first());
            assert(b =~= seq![b[0]] + b.drop_first());
        }
    }
}

/// The order is transitive.
pub proof fn lemma_before_transitive(a: Seq<char>, b: Seq<char>, c: Seq<char>)
    requires
        text_before(a, b),
        text_before(b, c),
    ensures
        text_before(a, c),
    decreases a.len(),
{
    if a.len() > 0 && b.len() > 0 && c.len() > 0 && a[0] == b[0] && b[0] == c[0] {
        lemma_before_transitive(a.drop_first(), b.drop_first(), c.drop_first());
    }
}

/// Two strictly sorted lists of the same texts are the same list.
pub proof fn lemma_sorted_unique(a: Seq<Seq<char>>, b: Seq<Seq<char>>)
    requires
        strictly_sorted(a),
        strictly_sorted(b),
        forall|t: Seq<char>| a.contains(t) <==> b.contains(t),
    ensures
        a == b,
    decreases a.len(),
{
    if a.len() == 0 {
        if b.len() > 0 {
            assert(b.contains(b[0]));
            assert(a.contains(b[0]));
        }
        assert(a =~= b);
    } else {
        assert(a.contains(a.last()));
        assert(b.contains(a.last()));
        let i = choose|i: int| 0 <= i < b.len() && b[i] == a.last();
        assert(b.contains(b.last()));
        assert(a.contains(b.last()));
        let j = choose|j: int| 0 <= j < a.len() && a[j] == b.last();
        if a.last() != b.last() {
            assert(text_before(a[j], a[a.len() - 1]));
            assert(text_before(b[i], b[b.len() - 1]));
            lemma_before_total(a.last(), b.last());
        }
        let x = a.drop_last();
        let y = b.drop_last();
        assert forall|t: Seq<char>| x.contains(t) <==> y.contains(t) by {
            if x.contains(t) {
                let k = choose|k: int| 0 <= k < x.len() && x[k] == t;
                assert(text_before(a[k], a[a.len() - 1]));
                lemma_before_total(t, a.last());
                assert(a.contains(t));
                let m = choose|m: int| 0 <= m < b.len() && b[m] == t;
                assert(y[m] == t);
            }
            if y.contains(t) {
                let k = choose|k: int| 0 <= k < y.len() && y[k] == t;
                assert(text_before(b[k], b[b.len() - 1]));
                lemma_before_total(t, b.last());
                assert(b.contains(t));
                let m = choose|m: int| 0 <= m < a.len() && a[m] == t;
                assert(x[m] == t);
            }
        }
        lemma_sorted_unique(x, y);
        assert(a =~= x.push(a.last()));
        assert(b =~= y.push(b.last()));
    }
}

/// Does the list hold exactly these texts, in order and each once?
pub open spec fn is_order_of(list: Seq<Seq<char>>, texts: Set<Seq<char>>) -> bool {
    &&& strictly_sorted(list)
    &&& forall|t: Seq<char>| #[trigger] list.contains(t) <==> texts.contains(t)
}

/// The texts in order, each once.
pub open spec fn in_order(texts: Set<Seq<char>>) -> Seq<Seq<char>> {
    choose|list: Seq<Seq<char>>| is_order_of(list, texts)
}

/// There is one such list at most.
pub proof fn lemma_in_order(list: Seq<Seq<char>>, texts: Set<Seq<char>>)
    requires
        is_order_of(list, texts),
    ensures
        in_order(texts) == list,
{
    let chosen = in_order(texts);
    assert(is_order_of(chosen, texts));
    assert forall|t: Seq<char>| chosen.contains(t) <==> list.contains(t) by {
        assert(texts.contains(t) <==> list.contains(t));
    }
    lemma_sorted_unique(chosen, list);
}

/// Does `a` come before `b`?
pub fn comes_before(a: &str, b: &str) -> (r: bool)
    ensures
        r == text_before(a@, b@),
{
    let xs: Vec<char> = text::chars_of(a);
    let ys: Vec<char> = text::chars_of(b);
    let mut i: usize = 0;
    assert(a@.skip(0) =~= a@);
    assert(b@.skip(0) =~= b@);
    while i < xs.len() && i < ys.len()
        invariant
            xs@ == a@,
            ys@ == b@,
            i <= xs.len(),
            i <= ys.len(),
            text_before(a@, b@) == text_before(a@.skip(i as int), b@.skip(i as int)),
        decreases xs.len() - i,
    {
        proof {
            let p = a@.skip(i as int);
            let q = b@.skip(i as int);
            assert(p[0] == a@[i as int]);
            assert(q[0] == b@[i as int]);
            assert(p.drop_first() =~= a@.skip(i + 1));
            assert(q.drop_first() =~= b@.skip(i + 1));
        }
        if xs[i] != ys[i] {
            return xs[i] < ys[i];
        }
        i = i + 1;
    }
    i < ys.len()
}

/// Puts `item` into a strictly sorted list, unless it is there.
pub fn insert_sorted(list: &mut Vec<String>, item: String)
    requires
        strictly_sorted(text::views(old(list)@)),
    ensures
        strictly_sorted(text::views(final(list)@)),
        forall|t: Seq<char>|
            text::views(final(list)@).contains(t) <==> (text::views(old(list)@).contains(t) || t == item@),
{
    let ghost before = list@;
    let ghost texts = text::views(before);
    let mut i: usize = 0;
    while i < list.len() && comes_before(list[i].as_str(), item.as_str())
        invariant
            list@ == before,
            texts == text::views(before),
            i <= list.len(),
            forall|k: int| 0 <= k < i ==> text_before(#[trigger] texts[k], item@),
        decreases list.len() - i,
    {
        i = i + 1;
    }
    if i < list.len() && text::same_text(list[i].as_str(), item.as_str()) {
        proof {
            assert(texts[i as int] == item@);
        }
        return;
    }
    let ghost text = item@;
    list.insert(i, item);
    proof {
        let now = text::views(list@);
        assert(now =~= texts.insert(i as int, text));
        if i < texts.len() {
            lemma_before_total(texts[i as int], text);
        }
        assert forall|a: int, b: int| 0 <= a < b < now.len() implies text_before(
            #[trigger] now[a],
            #[trigger] now[b],
        ) by {
            if b < i {
                assert(now[a] == texts[a] && now[b] == texts[b]);
            } else if b == i {
                assert(now[a] == texts[a]);
            } else if a < i {
                assert(now[a] == texts[a] && now[b] == texts[b - 1]);
            } else if a == i {
                assert(now[b] == texts[b - 1]);
                if b - 1 > i {
                    assert(text_before(texts[i as int], texts[b - 1]));
                    lemma_before_transitive(text, texts[i as int], texts[b - 1]);
                }
            } else {
                assert(now[a] == texts[a - 1] && now[b] == texts[b - 1]);
            }
        }
        assert forall|t: Seq<char>| now.contains(t) <==> (texts.contains(t) || t == text) by {
            if now.contains(t) {
                let k = choose|k: int| 0 <= k < now.len() && now[k] == t;
                if k < i {
                    assert(texts[k] == t);
                } else if k > i {
                    assert(texts[k - 1] == t);
                }
            }
            if texts.contains(t) {
                let k = choose|k: int| 0 <= k < texts.len() && texts[k] == t;
                if k < i {
                    assert(now[k] == t);
                } else {
                    assert(now[k + 1] == t);
                }
            }
            if t == text {
                assert(now[i as int] == t);
            }
        }
    }
}

/// Of two texts the one with the smaller character comes first where they
/// differ for the first time, and a text comes before those that it begins.
pub proof fn law_first_difference_decides(start: Seq<char>, a: Seq<char>, b: Seq<char>)
    requires
        a.len() > 0,
    ensures
        text_before(start, start + a),
        !text_before(start + a, start),
        b.len() > 0 && a[0] != b[0] ==> (text_before(start + a, start + b) <==> a[0] < b[0]),
    decreases start.len(),
{
    if start.len() > 0 {
        let rest = start.drop_first();
        law_first_difference_decides(rest, a, b);
        assert((start + a).drop_first() =~= rest + a);
        assert((start + b).drop_first() =~= rest + b);
        assert((start + a)[0] == start[0] && (start + b)[0] == start[0]);
    } else {
        assert(start + a =~= a);
        assert(start + b =~= b);
    }
}

/// The texts of a set are listed each once, in their order, and no others are.
pub proof fn law_listed_in_order(list: Seq<Seq<char>>, texts: Set<Seq<char>>)
    requires
        is_order_of(list, texts),
    ensures
        in_order(texts) == list,
        forall|t: Seq<char>|
            texts.contains(t) <==> exists|i: int| 0 <= i < list.len() && #[trigger] list[i] == t,
        forall|i: int, j: int|
            0 <= i < j < list.len() ==> text_before(#[trigger] list[i], #[trigger] list[j])
                && list[i] != list[j],
{
    lemma_in_order(list, texts);
    assert forall|t: Seq<char>|
        texts.contains(t) <==> exists|i: int| 0 <= i < list.len() && #[trigger] list[i] == t by {
        assert(list.contains(t) <==> texts.contains(t));
    }
    assert forall|i: int, j: int| 0 <= i < j < list.len() implies text_before(
        #[trigger] list[i],
        #[trigger] list[j],
    ) && list[i] != list[j] by {
        lemma_before_total(list[i], list[j]);
    }
}

/// A list in order with one more text in its place.
proof fn lemma_one_more(list: Seq<Seq<char>>, item: Seq<char>) -> (longer: Seq<Seq<char>>)
    requires
        strictly_sorted(list),
        !list.contains(item),
    ensures
        strictly_sorted(longer),
        forall|t: Seq<char>| #[trigger] longer.contains(t) <==> list.contains(t) || t == item,
    decreases list.len(),
{
    if list.len() == 0 {
        let longer = seq![item];
        assert(longer[0] == item);
        longer
    } else {
        let last = list.last();
        let n = list.len() - 1;
        assert(list[n] == last);
        lemma_before_total(item, last);
        if text_before(last, item) {
            let longer = list.push(item);
            assert forall|i: int, j: int| 0 <= i < j < longer.len() implies text_before(
                #[trigger] longer[i],
                #[trigger] longer[j],
            ) by {
                if j == list.len() && i < n {
                    assert(text_before(list[i], list[n]));
                    lemma_before_transitive(list[i], last, item);
                }
            }
            assert forall|t: Seq<char>| #[trigger] longer.contains(t) <==> list.contains(t) || t
                == item by {
                if list.contains(t) {
                    let k = choose|k: int| 0 <= k < list.len() && list[k] == t;
                    assert(longer[k] == t);
                }
                assert(longer[list.len() as int] == item);
            }
            longer
        } else {
            let front = list.drop_last();
            assert forall|i: int| 0 <= i < front.len() implies #[trigger] front[i] != item by {
                assert(list[i] == front[i]);
            }
            let more = lemma_one_more(front, item);
            let longer = more.push(last);
            assert forall|i: int| 0 <= i < more.len() implies text_before(
                #[trigger] more[i],
                last,
            ) by {
                assert(more.contains(more[i]));
                if more[i] != item {
                    assert(front.contains(more[i]));
                    let k = choose|k: int| 0 <= k < front.len() && front[k] == more[i];
                    assert(text_before(list[k], list[n]));
                }
            }
            assert forall|t: Seq<char>| #[trigger] longer.contains(t) <==> list.contains(t) || t
                == item by {
                if longer.contains(t) {
                    let k = choose|k: int| 0 <= k < longer.len() && longer[k] == t;
                    if k < more.len() {
                        assert(more.contains(t));
                        if t != item {
                            let m = choose|m: int| 0 <= m < front.len() && front[m] == t;
                            assert(list[m] == t);
                        }
                    }
                }
                if list.contains(t) || t == item {
                    if t == last {
                        assert(longer[more.len() as int] == t);
                    } else {
                        if list.contains(t) {
                            let k = choose|k: int| 0 <= k < list.len() && list[k] == t;
                            assert(front[k] == t);
                        }
                        assert(more.contains(t));
                        let m = choose|m: int| 0 <= m < more.len() && more[m] == t;
                        assert(longer[m] == t);
                    }
                }
            }
            longer
        }
    }
}

/// The texts of a list can be put in order: the list of them in order holds
/// exactly these texts, each once.
pub proof fn law_texts_can_be_ordered(list: Seq<Seq<char>>, texts: Set<Seq<char>>)
    requires
        forall|t: Seq<char>| #[trigger] texts.contains(t) ==> list.contains(t),
    ensures
        is_order_of(in_order(texts), texts),
{
    let found = lemma_ordered(list, texts);
    assert(is_order_of(found, texts));
}

/// The texts of a set, all of which are in a list, in order.
proof fn lemma_ordered(list: Seq<Seq<char>>, texts: Set<Seq<char>>) -> (found: Seq<Seq<char>>)
    requires
        forall|t: Seq<char>| #[trigger] texts.contains(t) ==> list.contains(t),
    ensures
        is_order_of(found, texts),
    decreases list.len(),
{
    if list.len() == 0 {
        let none = Seq::<Seq<char>>::empty();
        assert forall|t: Seq<char>| #[trigger] none.contains(t) <==> texts.contains(t) by {
            if texts.contains(t) {
                assert(list.contains(t));
            }
        }
        none
    } else {
        let front = list.drop_last();
        let last = list.last();
        let fewer = texts.remove(last);
        assert forall|t: Seq<char>| #[trigger] fewer.contains(t) implies front.contains(t) by {
            assert(texts.contains(t));
            let k = choose|k: int| 0 <= k < list.len() && list[k] == t;
            assert(front[k] == t);
        }
        let found = lemma_ordered(front, fewer);
        if texts.contains(last) {
            assert(found.contains(last) <==> fewer.contains(last));
            let longer = lemma_one_more(found, last);
            assert forall|t: Seq<char>| #[trigger] longer.contains(t) <==> texts.contains(t) by {
                assert(found.contains(t) <==> fewer.contains(t));
            }
            longer
        } else {
            assert(fewer =~= texts);
            found
        }
    }
}

} // verus!
