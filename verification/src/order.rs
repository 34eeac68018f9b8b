use vstd::prelude::*;

verus! {

/// `s` with `item` placed right after the last element whose key is at most
/// `item`'s, scanning from the back: on a list sorted by `key`, the place that
/// keeps it sorted and keeps `item` behind every element of equal key.
pub open spec fn insert_by_key<A>(s: Seq<A>, item: A, key: spec_fn(A) -> int) -> Seq<A>
    decreases s.len(),
{
    if s.len() == 0 {
        seq![item]
    } else if key(s.last()) <= key(item) {
        s.push(item)
    } else {
        insert_by_key(s.drop_last(), item, key).push(s.last())
    }
}

/// The stable sort of `s` by `key`: elements in ascending key order, elements
/// of equal key in the order they had in `s`.
pub open spec fn stable_sort_by_key<A>(s: Seq<A>, key: spec_fn(A) -> int) -> Seq<A>
    decreases s.len(),
{
    if s.len() == 0 {
        s
    } else {
        insert_by_key(stable_sort_by_key(s.drop_last(), key), s.last(), key)
    }
}

/// Whether `s` is in ascending order of `key`.
pub open spec fn sorted_by_key<A>(s: Seq<A>, key: spec_fn(A) -> int) -> bool {
    forall|i: int, j: int| 0 <= i <= j < s.len() ==> key(s[i]) <= key(s[j])
}

/// The elements of `s` whose key is `k`, in their order in `s`.
pub open spec fn with_key<A>(s: Seq<A>, key: spec_fn(A) -> int, k: int) -> Seq<A> {
    s.filter(key_is(key, k))
}

/// The test that an element's key is `k`.
pub open spec fn key_is<A>(key: spec_fn(A) -> int, k: int) -> spec_fn(A) -> bool {
    |a: A| key(a) == k
}

/// Where the backward scan stops, `insert_by_key` is `Seq::insert` at that place.
pub proof fn lemma_insert_at_scan_stop<A>(s: Seq<A>, item: A, key: spec_fn(A) -> int, p: int)
    requires
        0 <= p <= s.len(),
        p == 0 || key(s[p - 1]) <= key(item),
        forall|j: int| p <= j < s.len() ==> key(item) < key(#[trigger] s[j]),
    ensures
        insert_by_key(s, item, key) == s.insert(p, item),
    decreases s.len(),
{
    if s.len() == 0 {
        assert(s.insert(p, item) =~= seq![item]);
    } else if key(s.last()) <= key(item) {
        assert(p == s.len());
        assert(s.insert(p, item) =~= s.push(item));
    } else {
        let d = s.drop_last();
        lemma_insert_at_scan_stop(d, item, key, p);
        assert(d.insert(p, item).push(s.last()) =~= s.insert(p, item));
    }
}

proof fn lemma_insert_keeps_sorted<A>(s: Seq<A>, item: A, key: spec_fn(A) -> int)
    requires
        sorted_by_key(s, key),
    ensures
        sorted_by_key(insert_by_key(s, item, key), key),
        insert_by_key(s, item, key).len() == s.len() + 1,
        insert_by_key(s, item, key).to_multiset() =~= s.to_multiset().insert(item),
        forall|i: int|
            0 <= i < insert_by_key(s, item, key).len() ==> key(
                #[trigger] insert_by_key(s, item, key)[i],
            ) == key(item) || s.contains(insert_by_key(s, item, key)[i]),
    decreases s.len(),
{
    broadcast use vstd::seq_lib::group_to_multiset_ensures;

    let r = insert_by_key(s, item, key);
    if s.len() == 0 {
        assert(r.to_multiset() =~= Seq::<A>::empty().push(item).to_multiset()) by {
            assert(Seq::<A>::empty().push(item) =~= r);
        }
    } else if key(s.last()) <= key(item) {
    } else {
        let d = s.drop_last();
        assert(sorted_by_key(d, key));
        lemma_insert_keeps_sorted(d, item, key);
        let ri = insert_by_key(d, item, key);
        assert forall|i: int| 0 <= i < ri.len() implies key(#[trigger] ri[i]) <= key(s.last()) by {
            if key(ri[i]) != key(item) {
                assert(d.contains(ri[i]));
                let j = choose|j: int| 0 <= j < d.len() && d[j] == ri[i];
                assert(key(s[j]) <= key(s[s.len() - 1]));
            }
        }
        assert forall|i: int| 0 <= i < r.len() implies key(#[trigger] r[i]) == key(item) || s.contains(r[i]) by {
            if i < ri.len() {
                if key(ri[i]) != key(item) {
                    assert(d.contains(ri[i]));
                    let j = choose|j: int| 0 <= j < d.len() && d[j] == ri[i];
                    assert(s[j] == r[i]);
                }
            } else {
                assert(s[s.len() - 1] == r[i]);
            }
        }
        assert(d.push(s.last()) =~= s);
    }
}

/// The stable sort is in ascending key order and holds the same elements, as
/// often, as its input.
pub proof fn lemma_stable_sort_sorted_permutation<A>(s: Seq<A>, key: spec_fn(A) -> int)
    ensures
        sorted_by_key(stable_sort_by_key(s, key), key),
        stable_sort_by_key(s, key).len() == s.len(),
        stable_sort_by_key(s, key).to_multiset() =~= s.to_multiset(),
    decreases s.len(),
{
    broadcast use vstd::seq_lib::group_to_multiset_ensures;

    if s.len() > 0 {
        let d = s.drop_last();
        lemma_stable_sort_sorted_permutation(d, key);
        lemma_insert_keeps_sorted(stable_sort_by_key(d, key), s.last(), key);
        assert(d.push(s.last()) =~= s);
    }
}

proof fn lemma_insert_with_key<A>(s: Seq<A>, item: A, key: spec_fn(A) -> int, k: int)
    ensures
        with_key(insert_by_key(s, item, key), key, k) == if key(item) == k {
            with_key(s, key, k).push(item)
        } else {
            with_key(s, key, k)
        },
    decreases s.len(),
{
    let pred = key_is(key, k);
    if s.len() == 0 {
        assert(seq![item] =~= Seq::<A>::empty().push(item));
        Seq::<A>::empty().lemma_filter_push(item, pred);
        assert(Seq::<A>::empty().filter(pred) =~= Seq::<A>::empty());
    } else if key(s.last()) <= key(item) {
        s.lemma_filter_push(item, pred);
    } else {
        let d = s.drop_last();
        lemma_insert_with_key(d, item, key, k);
        insert_by_key(d, item, key).lemma_filter_push(s.last(), pred);
        d.lemma_filter_push(s.last(), pred);
        assert(d.push(s.last()) =~= s);
    }
}

/// The stable sort keeps the order of elements with equal keys.
pub proof fn lemma_stable_sort_keeps_ties<A>(s: Seq<A>, key: spec_fn(A) -> int, k: int)
    ensures
        with_key(stable_sort_by_key(s, key), key, k) == with_key(s, key, k),
    decreases s.len(),
{
    let pred = key_is(key, k);
    if s.len() == 0 {
    } else {
        let d = s.drop_last();
        lemma_stable_sort_keeps_ties(d, key, k);
        lemma_insert_with_key(stable_sort_by_key(d, key), s.last(), key, k);
        d.lemma_filter_push(s.last(), pred);
        assert(d.push(s.last()) =~= s);
    }
}

} // verus!
