//! Facts about filtered and mapped sequences that the engine's proofs share.

use vstd::prelude::*;

verus! {

/// Filtering keeps nothing where no element passes.
pub proof fn lemma_filter_none<A>(s: Seq<A>, pred: spec_fn(A) -> bool)
    requires
        forall|i: int| 0 <= i < s.len() ==> !pred(#[trigger] s[i]),
    ensures
        s.filter(pred) == Seq::<A>::empty(),
    decreases s.len(),
{
    reveal(Seq::filter);
    if s.len() > 0 {
        assert forall|i: int| 0 <= i < s.drop_last().len() implies !pred(
            #[trigger] s.drop_last()[i],
        ) by {
            assert(s.drop_last()[i] == s[i]);
        }
        lemma_filter_none(s.drop_last(), pred);
        assert(!pred(s[s.len() - 1]));
    } else {
        assert(s =~= Seq::<A>::empty());
    }
}

/// Filtering keeps everything where every element passes.
pub proof fn lemma_filter_all<A>(s: Seq<A>, pred: spec_fn(A) -> bool)
    requires
        forall|i: int| 0 <= i < s.len() ==> pred(#[trigger] s[i]),
    ensures
        s.filter(pred) == s,
    decreases s.len(),
{
    reveal(Seq::filter);
    if s.len() > 0 {
        assert forall|i: int| 0 <= i < s.drop_last().len() implies pred(
            #[trigger] s.drop_last()[i],
        ) by {
            assert(s.drop_last()[i] == s[i]);
        }
        lemma_filter_all(s.drop_last(), pred);
        assert(pred(s[s.len() - 1]));
        assert(s.drop_last().push(s.last()) =~= s);
    }
}

/// Filtering keeps exactly one element where exactly one passes.
pub proof fn lemma_filter_one<A>(s: Seq<A>, pred: spec_fn(A) -> bool, k: int)
    requires
        0 <= k < s.len(),
        pred(s[k]),
        forall|i: int| 0 <= i < s.len() && i != k ==> !pred(#[trigger] s[i]),
    ensures
        s.filter(pred) == seq![s[k]],
{
    let before = s.take(k);
    let after = s.skip(k + 1);
    assert(s =~= before + seq![s[k]] + after);
    assert forall|i: int| 0 <= i < before.len() implies !pred(#[trigger] before[i]) by {
        assert(before[i] == s[i]);
    }
    assert forall|i: int| 0 <= i < after.len() implies !pred(#[trigger] after[i]) by {
        assert(after[i] == s[i + k + 1]);
    }
    lemma_filter_none(before, pred);
    lemma_filter_none(after, pred);
    lemma_filter_all(seq![s[k]], pred);
    Seq::filter_distributes_over_add(before, seq![s[k]], pred);
    Seq::filter_distributes_over_add(before + seq![s[k]], after, pred);
    assert(Seq::<A>::empty() + seq![s[k]] + Seq::<A>::empty() =~= seq![s[k]]);
}

/// Filtering one element more: the element is appended if it passes.
pub proof fn lemma_filter_step<A>(s: Seq<A>, i: int, pred: spec_fn(A) -> bool)
    requires
        0 <= i < s.len(),
    ensures
        s.take(i + 1).filter(pred) == if pred(s[i]) {
            s.take(i).filter(pred).push(s[i])
        } else {
            s.take(i).filter(pred)
        },
{
    reveal(Seq::filter);
    assert(s.take(i + 1).drop_last() =~= s.take(i));
    assert(s.take(i + 1).last() == s[i]);
}

/// An element is kept by a filter exactly if it occurs and passes.
pub proof fn lemma_filter_membership<A>(s: Seq<A>, pred: spec_fn(A) -> bool, x: A)
    ensures
        s.filter(pred).contains(x) <==> s.contains(x) && pred(x),
    decreases s.len(),
{
    reveal(Seq::filter);
    if s.len() > 0 {
        let rest = s.drop_last();
        lemma_filter_membership(rest, pred, x);
        if s.filter(pred).contains(x) {
            let i = choose|i: int| 0 <= i < s.filter(pred).len() && s.filter(pred)[i] == x;
            if pred(s.last()) && i == rest.filter(pred).len() {
                assert(s[s.len() - 1] == x);
            } else {
                assert(rest.filter(pred)[i] == x);
                assert(rest.contains(x));
                let j = choose|j: int| 0 <= j < rest.len() && rest[j] == x;
                assert(s[j] == x);
            }
        }
        if s.contains(x) && pred(x) {
            let j = choose|j: int| 0 <= j < s.len() && s[j] == x;
            if j == s.len() - 1 {
                assert(s.filter(pred) == rest.filter(pred).push(x));
                assert(s.filter(pred)[rest.filter(pred).len() as int] == x);
            } else {
                assert(rest[j] == x);
                assert(rest.contains(x));
                let i = choose|i: int| 0 <= i < rest.filter(pred).len() && rest.filter(pred)[i] == x;
                assert(s.filter(pred)[i] == x);
            }
        }
    }
}

/// Filtering twice is filtering once where the first filter lets through
/// everything that the second does.
pub proof fn lemma_filter_twice<A>(s: Seq<A>, first: spec_fn(A) -> bool, second: spec_fn(A) -> bool)
    requires
        forall|i: int| 0 <= i < s.len() && second(#[trigger] s[i]) ==> first(s[i]),
    ensures
        s.filter(first).filter(second) == s.filter(second),
    decreases s.len(),
{
    reveal(Seq::filter);
    if s.len() > 0 {
        let rest = s.drop_last();
        assert forall|i: int| 0 <= i < rest.len() && second(#[trigger] rest[i]) implies first(
            rest[i],
        ) by {
            assert(rest[i] == s[i]);
        }
        lemma_filter_twice(rest, first, second);
        let last = s[s.len() - 1];
        if first(last) {
            assert(rest.filter(first).push(last).drop_last() =~= rest.filter(first));
        }
    }
}

/// Filtering rows with unique keys leaves rows with unique keys.
pub proof fn lemma_filter_keeps_unique<A, K>(
    s: Seq<A>,
    pred: spec_fn(A) -> bool,
    key: spec_fn(A) -> K,
)
    requires
        s.map_values(key).no_duplicates(),
    ensures
        s.filter(pred).map_values(key).no_duplicates(),
    decreases s.len(),
{
    reveal(Seq::filter);
    if s.len() > 0 {
        let rest = s.drop_last();
        let keys = s.map_values(key);
        assert forall|i: int, j: int|
            0 <= i < rest.len() && 0 <= j < rest.len() && i != j implies rest.map_values(key)[i]
            != rest.map_values(key)[j] by {
            assert(keys[i] == key(s[i]) && keys[j] == key(s[j]));
        }
        lemma_filter_keeps_unique(rest, pred, key);
        if pred(s.last()) {
            let kept = rest.filter(pred);
            let out = kept.push(s.last()).map_values(key);
            assert forall|i: int, j: int|
                0 <= i < out.len() && 0 <= j < out.len() && i != j implies out[i] != out[j] by {
                if i < kept.len() && j < kept.len() {
                    assert(kept.map_values(key)[i] == out[i]);
                    assert(kept.map_values(key)[j] == out[j]);
                } else {
                    let m = if i < kept.len() {
                        i
                    } else {
                        j
                    };
                    assert(kept.contains(kept[m]));
                    lemma_filter_membership(rest, pred, kept[m]);
                    let p = choose|p: int| 0 <= p < rest.len() && rest[p] == kept[m];
                    assert(keys[p] == key(s[p]));
                    assert(keys[s.len() - 1] == key(s.last()));
                }
            }
        }
    }
}

/// A key that occurs after filtering is the key of a row that passed the filter.
pub proof fn lemma_filter_key_origin<A, K>(
    s: Seq<A>,
    pred: spec_fn(A) -> bool,
    key: spec_fn(A) -> K,
    x: K,
) -> (p: int)
    requires
        s.filter(pred).map_values(key).contains(x),
    ensures
        0 <= p < s.len(),
        key(s[p]) == x,
        pred(s[p]),
{
    let kept = s.filter(pred);
    let i = choose|i: int| 0 <= i < kept.len() && kept.map_values(key)[i] == x;
    assert(kept.contains(kept[i]));
    lemma_filter_membership(s, pred, kept[i]);
    let p = choose|p: int| 0 <= p < s.len() && s[p] == kept[i];
    p
}

/// A sequence without duplicates, extended by elements that are new and differ
/// from each other, has no duplicates.
pub proof fn lemma_no_duplicates_add<A>(a: Seq<A>, b: Seq<A>)
    requires
        a.no_duplicates(),
        b.no_duplicates(),
        forall|i: int, j: int| 0 <= i < a.len() && 0 <= j < b.len() ==> a[i] != b[j],
    ensures
        (a + b).no_duplicates(),
{
    let c = a + b;
    assert forall|i: int, j: int| 0 <= i < c.len() && 0 <= j < c.len() && i != j implies c[i]
        != c[j] by {
        if i < a.len() && j < a.len() {
        } else if i >= a.len() && j >= a.len() {
            assert(c[i] == b[i - a.len()] && c[j] == b[j - a.len()]);
        } else if i < a.len() {
            assert(c[j] == b[j - a.len()]);
        } else {
            assert(c[i] == b[i - a.len()]);
        }
    }
}

} // verus!
