//! Grouping of keyed rows: the in-memory step of every joined read.

use crate::text::Text;
use itertools::Itertools;
use vstd::prelude::*;

verus! {

/// The pairs whose key reads `key`.
pub open spec fn key_is<V>(key: Text) -> spec_fn((String, V)) -> bool {
    |pair: (String, V)| pair.0@ == key
}

/// `groups` partitions `items` by key: no key has two groups, each group holds
/// the items of its key in the order in which they came and is not empty, and
/// every item's key has a group. The order of the groups is left open.
pub open spec fn grouped<V>(
    items: Seq<(String, V)>,
    groups: Seq<(String, Vec<(String, V)>)>,
) -> bool {
    &&& forall|i: int, j: int|
        0 <= i < j < groups.len() ==> (#[trigger] groups[i]).0@ != (#[trigger] groups[j]).0@
    &&& forall|i: int|
        0 <= i < groups.len() ==> {
            &&& (#[trigger] groups[i]).1@ == items.filter(key_is(groups[i].0@))
            &&& groups[i].1.len() > 0
        }
    &&& forall|k: int|
        0 <= k < items.len() ==> exists|i: int|
            0 <= i < groups.len() && (#[trigger] groups[i]).0@ == (#[trigger] items[k]).0@
}

/// `Itertools::into_group_map_by`, keyed by the first component of each pair, and
/// the resulting map listed as pairs of key and group. The claim is what the
/// crate documents of the map: one entry per key that occurs, holding the items
/// of that key in the order in which they came. The map is walked in no particular
/// order, so nothing is said of the order of the groups.
#[verifier::external_body]
pub(crate) fn group_by_key<V>(pairs: Vec<(String, V)>) -> (groups: Vec<(String, Vec<(String, V)>)>)
    ensures
        grouped(pairs@, groups@),
{
    pairs.into_iter().into_group_map_by(|pair| pair.0.clone()).into_iter().collect()
}

/// The position of the group with key `key`, if there is one.
pub(crate) fn find_group<V>(groups: &Vec<(String, Vec<(String, V)>)>, key: &String) -> (found:
    Option<usize>)
    ensures
        match found {
            Some(g) => g < groups.len() && groups[g as int].0@ == key@,
            None => forall|i: int| 0 <= i < groups.len() ==> (#[trigger] groups[i]).0@ != key@,
        },
{
    let mut i: usize = 0;
    while i < groups.len()
        invariant
            i <= groups.len(),
            forall|j: int| 0 <= j < i ==> (#[trigger] groups[j]).0@ != key@,
        decreases groups.len() - i,
    {
        if groups[i].0 == *key {
            return Some(i);
        }
        i = i + 1;
    }
    None
}

/// Two sequences that agree position by position on a predicate and on a mapped
/// value also agree once both are filtered and mapped.
pub proof fn lemma_filter_related<A, B, C>(
    a: Seq<A>,
    b: Seq<B>,
    pa: spec_fn(A) -> bool,
    pb: spec_fn(B) -> bool,
    f: spec_fn(A) -> C,
    g: spec_fn(B) -> C,
)
    requires
        a.len() == b.len(),
        forall|i: int| 0 <= i < a.len() ==> pa(#[trigger] a[i]) == pb(b[i]),
        forall|i: int| 0 <= i < a.len() ==> f(#[trigger] a[i]) == g(b[i]),
    ensures
        a.filter(pa).map_values(f) == b.filter(pb).map_values(g),
    decreases a.len(),
{
    reveal(Seq::filter);
    if a.len() > 0 {
        let ra = a.drop_last();
        let rb = b.drop_last();
        assert forall|i: int| 0 <= i < ra.len() implies pa(#[trigger] ra[i]) == pb(rb[i]) by {
            assert(ra[i] == a[i] && rb[i] == b[i]);
        }
        assert forall|i: int| 0 <= i < ra.len() implies f(#[trigger] ra[i]) == g(rb[i]) by {
            assert(ra[i] == a[i] && rb[i] == b[i]);
        }
        lemma_filter_related(ra, rb, pa, pb, f, g);
        let last = a.len() - 1;
        assert(pa(a[last]) == pb(b[last]));
        assert(f(a[last]) == g(b[last]));
        if pa(a.last()) {
            assert(ra.filter(pa).push(a.last()).map_values(f) =~= ra.filter(pa).map_values(f).push(
                f(a.last()),
            ));
            assert(rb.filter(pb).push(b.last()).map_values(g) =~= rb.filter(pb).map_values(g).push(
                g(b.last()),
            ));
        }
    } else {
        assert(a.filter(pa).map_values(f) =~= Seq::<C>::empty());
        assert(b.filter(pb).map_values(g) =~= Seq::<C>::empty());
    }
}

} // verus!
