//! Stable sorting, as a function on sequences.

use vstd::prelude::*;

verus! {

/// Puts an element behind every element that does not come after it.
pub open spec fn insert_by<A>(v: Seq<A>, e: A, less: spec_fn(A, A) -> bool) -> Seq<A>
    decreases v.len(),
{
    if v.len() > 0 && less(e, v.last()) {
        insert_by(v.drop_last(), e, less).push(v.last())
    } else {
        v.push(e)
    }
}

/// The elements in order; equal ones keep the order they came in.
pub open spec fn sorted_by<A>(v: Seq<A>, less: spec_fn(A, A) -> bool) -> Seq<A>
    decreases v.len(),
{
    if v.len() == 0 {
        Seq::empty()
    } else {
        insert_by(sorted_by(v.drop_last(), less), v.last(), less)
    }
}

/// No element comes before an earlier one.
pub open spec fn in_order<A>(v: Seq<A>, less: spec_fn(A, A) -> bool) -> bool {
    forall|i: int, j: int|
        #![trigger v[i], v[j]]
        0 <= i < j < v.len() ==> !less(v[j], v[i])
}

/// An order in which "does not come before" is transitive and nothing comes
/// both before and after another.
pub open spec fn weak_order<A>(less: spec_fn(A, A) -> bool) -> bool {
    &&& forall|a: A, b: A| #[trigger] less(a, b) ==> !less(b, a)
    &&& forall|a: A, b: A, c: A|
        #![trigger less(b, a), less(c, b)]
        !less(b, a) && !less(c, b) ==> !less(c, a)
}

proof fn lemma_insert<A>(v: Seq<A>, e: A, less: spec_fn(A, A) -> bool)
    requires
        in_order(v, less),
        weak_order(less),
    ensures
        in_order(insert_by(v, e, less), less),
        insert_by(v, e, less).to_multiset() =~= v.to_multiset().insert(e),
        forall|i: int|
            0 <= i < insert_by(v, e, less).len() ==> #[trigger] insert_by(v, e, less)[i] == e
                || v.contains(insert_by(v, e, less)[i]),
    decreases v.len(),
{
    broadcast use vstd::seq_lib::group_to_multiset_ensures;

    let r = insert_by(v, e, less);
    if v.len() > 0 && less(e, v.last()) {
        let w = v.drop_last();
        assert(in_order(w, less)) by {
            assert forall|i: int, j: int| #![trigger w[i], w[j]] 0 <= i < j < w.len() implies !less(
                w[j],
                w[i],
            ) by {
                assert(w[j] == v[j] && w[i] == v[i]);
            }
        }
        lemma_insert(w, e, less);
        let s = insert_by(w, e, less);
        assert(v =~= w.push(v.last()));
        assert forall|i: int, j: int| #![trigger r[i], r[j]] 0 <= i < j < r.len() implies !less(
            r[j],
            r[i],
        ) by {
            if j < s.len() {
                assert(r[i] == s[i] && r[j] == s[j]);
            } else {
                assert(r[j] == v.last());
                assert(r[i] == s[i]);
                if s[i] != e {
                    let k = choose|k: int| 0 <= k < w.len() && w[k] == s[i];
                    assert(v[k] == w[k]);
                    assert(v[v.len() - 1] == v.last());
                }
            }
        }
        assert forall|i: int| 0 <= i < r.len() implies #[trigger] r[i] == e || v.contains(r[i]) by {
            if i < s.len() {
                assert(r[i] == s[i]);
                if s[i] != e {
                    let k = choose|k: int| 0 <= k < w.len() && w[k] == s[i];
                    assert(v[k] == r[i]);
                }
            } else {
                assert(v[v.len() - 1] == r[i]);
            }
        }
    } else {
        assert forall|i: int, j: int| #![trigger r[i], r[j]] 0 <= i < j < r.len() implies !less(
            r[j],
            r[i],
        ) by {
            if j == v.len() {
                assert(r[j] == e);
                assert(r[i] == v[i]);
                if i < v.len() - 1 {
                    assert(v[v.len() - 1] == v.last());
                    assert(!less(v.last(), v[i]));
                }
            } else {
                assert(r[i] == v[i] && r[j] == v[j]);
            }
        }
        assert forall|i: int| 0 <= i < r.len() implies #[trigger] r[i] == e || v.contains(r[i]) by {
            if i < v.len() {
                assert(v[i] == r[i]);
            }
        }
    }
}

/// Sorting keeps exactly the elements, and puts them in order.
pub proof fn lemma_sorted_by<A>(v: Seq<A>, less: spec_fn(A, A) -> bool)
    requires
        weak_order(less),
    ensures
        in_order(sorted_by(v, less), less),
        sorted_by(v, less).to_multiset() == v.to_multiset(),
    decreases v.len(),
{
    broadcast use vstd::seq_lib::group_to_multiset_ensures;

    if v.len() > 0 {
        lemma_sorted_by(v.drop_last(), less);
        lemma_insert(sorted_by(v.drop_last(), less), v.last(), less);
        assert(v =~= v.drop_last().push(v.last()));
    } else {
        assert(v =~= Seq::<A>::empty());
    }
}

} // verus!
