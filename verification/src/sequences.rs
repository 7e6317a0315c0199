//! Small general facts about sequences: sums of a measure over a sequence,
//! and how insertion affects sums and multisets.

use vstd::prelude::*;

verus! {

use vstd::multiset::Multiset;

/// The sum of `f` over the elements of `s`.
pub open spec fn sum_by<A>(s: Seq<A>, f: spec_fn(A) -> int) -> int
    decreases s.len(),
{
    if s.len() == 0 {
        0
    } else {
        f(s[0]) + sum_by(s.drop_first(), f)
    }
}

/// Inserting an element adds its measure to the sum.
pub proof fn lemma_sum_by_insert<A>(s: Seq<A>, k: int, x: A, f: spec_fn(A) -> int)
    requires
        0 <= k <= s.len(),
    ensures
        sum_by(s.insert(k, x), f) == sum_by(s, f) + f(x),
    decreases s.len(),
{
    if k == 0 {
        assert(s.insert(0, x)[0] == x);
        assert(s.insert(0, x).drop_first() =~= s);
    } else {
        assert(s.insert(k, x)[0] == s[0]);
        assert(s.insert(k, x).drop_first() =~= s.drop_first().insert(k - 1, x));
        lemma_sum_by_insert(s.drop_first(), k - 1, x, f);
    }
}

/// Inserting an element anywhere inserts it into the multiset of elements.
pub proof fn lemma_to_multiset_insert<A>(s: Seq<A>, k: int, x: A)
    requires
        0 <= k <= s.len(),
    ensures
        s.insert(k, x).to_multiset() =~= s.to_multiset().insert(x),
{
    broadcast use vstd::seq_lib::group_to_multiset_ensures;

    let single = seq![x];
    assert(single =~= Seq::<A>::empty().push(x));
    assert(Seq::<A>::empty().to_multiset() =~= Multiset::<A>::empty());
    assert(single.to_multiset() =~= Multiset::<A>::empty().insert(x));
    assert(s.insert(k, x) =~= s.take(k) + (single + s.skip(k)));
    assert(s =~= s.take(k) + s.skip(k));
    vstd::seq_lib::lemma_multiset_commutative(s.take(k), single + s.skip(k));
    vstd::seq_lib::lemma_multiset_commutative(single, s.skip(k));
    vstd::seq_lib::lemma_multiset_commutative(s.take(k), s.skip(k));
}

} // verus!
