//! Small sequence lemmas the store and mirror proofs lean on.

use vstd::prelude::*;

verus! {

/// Filtering a sequence extended by one element keeps the filtered
/// front and appends the element exactly when it satisfies the
/// predicate.
pub proof fn lemma_filter_push<A>(s: Seq<A>, x: A, pred: spec_fn(A) -> bool)
    ensures
        s.push(x).filter(pred) == if pred(x) {
            s.filter(pred).push(x)
        } else {
            s.filter(pred)
        },
{
    reveal(Seq::filter);
    assert(s.push(x).drop_last() =~= s);
}

/// One more element of a prefix: `take(i + 1)` is `take(i)` plus the
/// element at `i`.
pub proof fn lemma_take_push<A>(s: Seq<A>, i: int)
    requires
        0 <= i < s.len(),
    ensures
        s.take(i + 1) =~= s.take(i).push(s[i]),
{
}

/// A sequence none of whose elements satisfy the predicate filters to
/// nothing.
pub proof fn lemma_filter_none<A>(s: Seq<A>, pred: spec_fn(A) -> bool)
    requires
        forall|i: int| 0 <= i < s.len() ==> !pred(#[trigger] s[i]),
    ensures
        s.filter(pred) == Seq::<A>::empty(),
    decreases s.len(),
{
    reveal(Seq::filter);
    if s.len() > 0 {
        lemma_filter_none(s.drop_last(), pred);
    }
}

/// A sequence all of whose elements satisfy the predicate filters to
/// itself.
pub proof fn lemma_filter_all<A>(s: Seq<A>, pred: spec_fn(A) -> bool)
    requires
        forall|i: int| 0 <= i < s.len() ==> pred(#[trigger] s[i]),
    ensures
        s.filter(pred) =~= s,
    decreases s.len(),
{
    reveal(Seq::filter);
    if s.len() > 0 {
        lemma_filter_all(s.drop_last(), pred);
        assert(s.drop_last().push(s.last()) =~= s);
    }
}

/// Every element of a filtered sequence comes from the sequence.
pub proof fn lemma_filter_sub<A>(s: Seq<A>, pred: spec_fn(A) -> bool)
    ensures
        forall|i: int|
            0 <= i < s.filter(pred).len() ==> s.contains(#[trigger] s.filter(pred)[i]),
    decreases s.len(),
{
    reveal(Seq::filter);
    if s.len() > 0 {
        let dl = s.drop_last();
        lemma_filter_sub(dl, pred);
        assert forall|i: int|
            0 <= i < s.filter(pred).len() implies s.contains(#[trigger] s.filter(pred)[i]) by {
            let x = s.filter(pred)[i];
            if i < dl.filter(pred).len() {
                assert(dl.contains(x));
                let j = choose|j: int| 0 <= j < dl.len() && dl[j] == x;
                assert(s[j] == x);
            } else {
                assert(x == s.last());
                assert(s[s.len() - 1] == x);
            }
        }
    }
}

/// Two filters in sequence can be swapped.
pub proof fn lemma_filter_comm<A>(s: Seq<A>, p: spec_fn(A) -> bool, q: spec_fn(A) -> bool)
    ensures
        s.filter(p).filter(q) == s.filter(q).filter(p),
    decreases s.len(),
{
    reveal(Seq::filter);
    if s.len() > 0 {
        let dl = s.drop_last();
        let x = s.last();
        lemma_filter_comm(dl, p, q);
        lemma_filter_push(dl.filter(p), x, q);
        lemma_filter_push(dl.filter(q), x, p);
    }
}

/// Filtering by a predicate the first filter already guarantees does
/// nothing; equivalently, a stronger filter absorbs a weaker one run
/// first.
pub proof fn lemma_filter_absorb<A>(s: Seq<A>, p: spec_fn(A) -> bool, q: spec_fn(A) -> bool)
    requires
        forall|x: A| #[trigger] q(x) ==> p(x),
    ensures
        s.filter(p).filter(q) == s.filter(q),
    decreases s.len(),
{
    reveal(Seq::filter);
    if s.len() > 0 {
        let dl = s.drop_last();
        let x = s.last();
        lemma_filter_absorb(dl, p, q);
        lemma_filter_push(dl.filter(p), x, q);
    }
}

/// Mapping and filtering commute when the map leaves the predicate's
/// verdict alone.
pub proof fn lemma_filter_map<A>(s: Seq<A>, f: spec_fn(A) -> A, p: spec_fn(A) -> bool)
    requires
        forall|x: A| p(#[trigger] f(x)) == p(x),
    ensures
        s.map_values(f).filter(p) == s.filter(p).map_values(f),
    decreases s.len(),
{
    reveal(Seq::filter);
    if s.len() == 0 {
        assert(s.map_values(f) =~= Seq::<A>::empty());
        assert(s.filter(p).map_values(f) =~= Seq::<A>::empty());
    } else {
        let dl = s.drop_last();
        let x = s.last();
        lemma_filter_map(dl, f, p);
        assert(s.map_values(f) =~= dl.map_values(f).push(f(x)));
        lemma_filter_push(dl.map_values(f), f(x), p);
        lemma_filter_push(dl.filter(p), x, p);
        if p(x) {
            assert(dl.filter(p).push(x).map_values(f) =~= dl.filter(p).map_values(f).push(f(x)));
            assert(s.filter(p) == dl.filter(p).push(x));
        } else {
            assert(s.filter(p) == dl.filter(p));
        }
    }
}

/// A filter keeps pairwise-distinct keys pairwise distinct.
pub proof fn lemma_filter_distinct_keys<A>(s: Seq<A>, p: spec_fn(A) -> bool, key: spec_fn(A) -> int)
    requires
        forall|i: int, j: int| 0 <= i < j < s.len() ==> key(s[i]) != key(s[j]),
    ensures
        forall|i: int, j: int|
            0 <= i < j < s.filter(p).len() ==> key(s.filter(p)[i]) != key(s.filter(p)[j]),
    decreases s.len(),
{
    reveal(Seq::filter);
    if s.len() > 0 {
        let dl = s.drop_last();
        let x = s.last();
        lemma_filter_distinct_keys(dl, p, key);
        lemma_filter_sub(dl, p);
        assert forall|i: int, j: int|
            0 <= i < j < s.filter(p).len() implies key(s.filter(p)[i]) != key(s.filter(p)[j]) by {
            if j < dl.filter(p).len() {
            } else if p(x) && j == dl.filter(p).len() {
                let y = dl.filter(p)[i];
                assert(dl.contains(y));
                let k = choose|k: int| 0 <= k < dl.len() && dl[k] == y;
                assert(key(s[k]) != key(s[s.len() - 1]));
            }
        }
    }
}

} // verus!
