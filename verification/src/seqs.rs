//! Sequence lemmas the directory model rests on: a filter-map over raw
//! scan results, and the facts that its multiset image — and therefore a
//! sorted listing built from it — does not depend on enumeration order.

use vstd::prelude::*;
use vstd::seq_lib::group_to_multiset_ensures;
use vstd::seq_lib::lemma_sorted_unique;
use vstd::multiset::group_multiset_axioms;
use vstd::relations::sorted_by;
use vstd::relations::total_ordering;

use crate::text::{lex_le, lemma_lex_le_total_ordering};

verus! {

/// The elements of `s` that satisfy `keep`, each transformed by `f`,
/// in their original order.
pub open spec fn filter_map<A, B>(s: Seq<A>, keep: spec_fn(A) -> bool, f: spec_fn(A) -> B) -> Seq<
    B,
>
    decreases s.len(),
{
    if s.len() == 0 {
        Seq::empty()
    } else {
        let rest = filter_map(s.drop_last(), keep, f);
        if keep(s.last()) {
            rest.push(f(s.last()))
        } else {
            rest
        }
    }
}

/// Every product of a filter-map is the image of some kept element.
pub proof fn lemma_filter_map_contains<A, B>(
    s: Seq<A>,
    keep: spec_fn(A) -> bool,
    f: spec_fn(A) -> B,
    y: B,
)
    requires
        filter_map(s, keep, f).contains(y),
    ensures
        exists|i: int| 0 <= i < s.len() && keep(#[trigger] s[i]) && f(s[i]) == y,
    decreases s.len(),
{
    if s.len() > 0 {
        let rest = filter_map(s.drop_last(), keep, f);
        if keep(s.last()) && f(s.last()) == y && !rest.contains(y) {
            assert(keep(s[s.len() - 1]) && f(s[s.len() - 1]) == y);
        } else {
            assert(rest.contains(y));
            lemma_filter_map_contains(s.drop_last(), keep, f, y);
            let i = choose|i: int|
                0 <= i < s.drop_last().len() && keep(#[trigger] s.drop_last()[i]) && f(
                    s.drop_last()[i],
                ) == y;
            assert(keep(s[i]) && f(s[i]) == y);
        }
    }
}

/// Removing one element removes exactly its image (when kept) from the
/// filter-map's multiset.
pub proof fn lemma_filter_map_remove<A, B>(
    s: Seq<A>,
    i: int,
    keep: spec_fn(A) -> bool,
    f: spec_fn(A) -> B,
)
    requires
        0 <= i < s.len(),
    ensures
        keep(s[i]) ==> filter_map(s, keep, f).to_multiset() =~= filter_map(
            s.remove(i),
            keep,
            f,
        ).to_multiset().insert(f(s[i])),
        !keep(s[i]) ==> filter_map(s, keep, f).to_multiset() =~= filter_map(
            s.remove(i),
            keep,
            f,
        ).to_multiset(),
    decreases s.len(),
{
    broadcast use group_to_multiset_ensures;
    broadcast use group_multiset_axioms;

    if i == s.len() - 1 {
        assert(s.remove(i) =~= s.drop_last());
    } else {
        let t = s.remove(i);
        assert(t.last() == s.last());
        assert(t.drop_last() =~= s.drop_last().remove(i));
        lemma_filter_map_remove(s.drop_last(), i, keep, f);
    }
}

/// Sequences with the same multiset of elements have filter-maps with
/// the same multiset of products.
pub proof fn lemma_filter_map_permutation<A, B>(
    a: Seq<A>,
    b: Seq<A>,
    keep: spec_fn(A) -> bool,
    f: spec_fn(A) -> B,
)
    requires
        a.to_multiset() == b.to_multiset(),
    ensures
        filter_map(a, keep, f).to_multiset() == filter_map(b, keep, f).to_multiset(),
    decreases a.len(),
{
    broadcast use group_to_multiset_ensures;
    broadcast use group_multiset_axioms;

    if a.len() == 0 {
        assert(b.to_multiset().len() == 0);
        assert(b.len() == 0);
    } else {
        let x = a.last();
        assert(a.to_multiset().count(x) > 0) by {
            assert(a.contains(x));
        }
        assert(b.contains(x)) by {
            assert(b.to_multiset().count(x) > 0);
        }
        let i = choose|i: int| 0 <= i < b.len() && b[i] == x;
        assert(a.drop_last() =~= a.remove(a.len() - 1));
        assert(a.drop_last().to_multiset() =~= a.to_multiset().remove(x));
        assert(b.remove(i).to_multiset() =~= b.to_multiset().remove(x));
        lemma_filter_map_permutation(a.drop_last(), b.remove(i), keep, f);
        lemma_filter_map_remove(b, i, keep, f);
        if keep(x) {
            assert(filter_map(a, keep, f).to_multiset() =~= filter_map(
                a.drop_last(),
                keep,
                f,
            ).to_multiset().insert(f(x)));
        }
    }
}

/// Mapping the same function over sequences with the same multiset of
/// elements gives images with the same multiset.
pub proof fn lemma_map_values_multiset<A, B>(a: Seq<A>, b: Seq<A>, f: spec_fn(A) -> B)
    requires
        a.to_multiset() == b.to_multiset(),
    ensures
        a.map_values(f).to_multiset() == b.map_values(f).to_multiset(),
{
    assert(a.map_values(f) =~= filter_map(a, |x: A| true, f)) by {
        lemma_filter_map_total(a, f);
    }
    assert(b.map_values(f) =~= filter_map(b, |x: A| true, f)) by {
        lemma_filter_map_total(b, f);
    }
    lemma_filter_map_permutation(a, b, |x: A| true, f);
}

proof fn lemma_filter_map_total<A, B>(s: Seq<A>, f: spec_fn(A) -> B)
    ensures
        filter_map(s, |x: A| true, f) =~= s.map_values(f),
    decreases s.len(),
{
    if s.len() > 0 {
        lemma_filter_map_total(s.drop_last(), f);
        assert(s.drop_last().map_values(f) =~= s.map_values(f).drop_last());
    }
}

/// Every kept element's image is a product of the filter-map.
pub proof fn lemma_filter_map_complete<A, B>(
    s: Seq<A>,
    keep: spec_fn(A) -> bool,
    f: spec_fn(A) -> B,
    i: int,
)
    requires
        0 <= i < s.len(),
        keep(s[i]),
    ensures
        filter_map(s, keep, f).contains(f(s[i])),
    decreases s.len(),
{
    if i == s.len() - 1 {
        let r = filter_map(s, keep, f);
        assert(r.last() == f(s[i]));
    } else {
        lemma_filter_map_complete(s.drop_last(), keep, f, i);
        let rest = filter_map(s.drop_last(), keep, f);
        let j = choose|j: int| 0 <= j < rest.len() && rest[j] == f(s[i]);
        if keep(s.last()) {
            assert(filter_map(s, keep, f)[j] == f(s[i]));
        } else {
            assert(filter_map(s, keep, f)[j] == f(s[i]));
        }
    }
}

/// Inserting into a sequence inserts into its multiset.
pub proof fn lemma_insert_multiset<A>(s: Seq<A>, i: int, x: A)
    requires
        0 <= i <= s.len(),
    ensures
        s.insert(i, x).to_multiset() =~= s.to_multiset().insert(x),
{
    broadcast use group_to_multiset_ensures;
    broadcast use group_multiset_axioms;

    let t = s.insert(i, x);
    assert(t.remove(i) =~= s);
    assert(t.remove(i).to_multiset() =~= t.to_multiset().remove(t[i]));
    assert(t[i] == x);
    assert(t.contains(x));
    assert(t.to_multiset().count(x) > 0);
    assert forall|y: A| t.to_multiset().count(y) == s.to_multiset().insert(x).count(y) by {
        assert(s.to_multiset().count(y) == t.to_multiset().remove(x).count(y));
    }
}

/// Dropping the last element removes it from the multiset.
pub proof fn lemma_drop_last_multiset<A>(s: Seq<A>)
    requires
        s.len() > 0,
    ensures
        s.to_multiset() =~= s.drop_last().to_multiset().insert(s.last()),
{
    broadcast use group_to_multiset_ensures;
    broadcast use group_multiset_axioms;

    assert(s.drop_last() =~= s.remove(s.len() - 1));
    assert(s.drop_last().to_multiset() =~= s.to_multiset().remove(s.last()));
    assert(s.contains(s.last()));
    assert(s.to_multiset().count(s.last()) > 0);
    assert forall|y: A|
        s.to_multiset().count(y) == s.drop_last().to_multiset().insert(s.last()).count(y) by {
        assert(s.drop_last().to_multiset().count(y) == s.to_multiset().remove(s.last()).count(y));
    }
}

/// Name sequences that are both sorted and agree as multisets are equal.
pub proof fn lemma_sorted_names_unique(x: Seq<Seq<char>>, y: Seq<Seq<char>>)
    requires
        forall|i: int, j: int| 0 <= i < j < x.len() ==> lex_le(x[i], x[j]),
        forall|i: int, j: int| 0 <= i < j < y.len() ==> lex_le(y[i], y[j]),
        x.to_multiset() == y.to_multiset(),
    ensures
        x == y,
{
    let leq = |a: Seq<char>, b: Seq<char>| lex_le(a, b);
    lemma_lex_le_total_ordering();
    assert(sorted_by(x, leq));
    assert(sorted_by(y, leq));
    lemma_sorted_unique(x, y, leq);
    assert(x =~= y);
}

} // verus!
