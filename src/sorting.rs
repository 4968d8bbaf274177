//! Sorting of keyed cell indices, and counting by key.
use vstd::prelude::*;

verus! {

broadcast use vstd::seq_lib::group_to_multiset_ensures;

/// Lexicographic order on `(key, index)` pairs.
pub open spec fn pair_le(a: (i64, usize), b: (i64, usize)) -> bool {
    a.0 < b.0 || (a.0 == b.0 && a.1 <= b.1)
}

pub open spec fn sorted_pairs(s: Seq<(i64, usize)>) -> bool {
    forall|i: int, j: int| 0 <= i < j < s.len() ==> pair_le(#[trigger] s[i], #[trigger] s[j])
}

/// Relies on `slice::sort_unstable` over tuples of integers: the result is a
/// permutation of the input in ascending lexicographic order.
#[verifier::external_body]
pub(crate) fn sort_pairs(v: &mut Vec<(i64, usize)>)
    ensures
        sorted_pairs(final(v)@),
        final(v)@.to_multiset() == old(v)@.to_multiset(),
{
    v.sort_unstable();
}

/// Number of pairs whose key is below `x`.
pub open spec fn count_key_below(s: Seq<(i64, usize)>, x: int) -> nat
    decreases s.len(),
{
    if s.len() == 0 {
        0
    } else {
        count_key_below(s.drop_last(), x) + if (s.last().0 as int) < x {
            1nat
        } else {
            0
        }
    }
}

/// Number of pairs whose key is at most `x`.
pub open spec fn count_key_at_most(s: Seq<(i64, usize)>, x: int) -> nat
    decreases s.len(),
{
    if s.len() == 0 {
        0
    } else {
        count_key_at_most(s.drop_last(), x) + if (s.last().0 as int) <= x {
            1nat
        } else {
            0
        }
    }
}

proof fn lemma_count_remove(s: Seq<(i64, usize)>, k: int, x: int)
    requires
        0 <= k < s.len(),
    ensures
        count_key_below(s, x) == count_key_below(s.remove(k), x) + if (s[k].0 as int) < x {
            1nat
        } else {
            0
        },
        count_key_at_most(s, x) == count_key_at_most(s.remove(k), x) + if (s[k].0 as int) <= x {
            1nat
        } else {
            0
        },
    decreases s.len(),
{
    if k < s.len() - 1 {
        lemma_count_remove(s.drop_last(), k, x);
        assert(s.remove(k).drop_last() =~= s.drop_last().remove(k));
        assert(s.remove(k).last() == s.last());
    } else {
        assert(s.remove(k) =~= s.drop_last());
    }
}

/// Counting by key depends only on the multiset of pairs.
pub proof fn lemma_count_permutation(a: Seq<(i64, usize)>, b: Seq<(i64, usize)>, x: int)
    requires
        a.to_multiset() == b.to_multiset(),
    ensures
        count_key_below(a, x) == count_key_below(b, x),
        count_key_at_most(a, x) == count_key_at_most(b, x),
    decreases a.len(),
{
    if a.len() > 0 {
        let l = a.last();
        vstd::seq_lib::to_multiset_contains(a, l);
        assert(a.contains(l)) by {
            assert(a[a.len() - 1] == l);
        }
        vstd::seq_lib::to_multiset_contains(b, l);
        let k = choose|k: int| 0 <= k < b.len() && b[k] == l;
        vstd::seq_lib::to_multiset_remove(b, k);
        assert(a.drop_last().to_multiset() == a.to_multiset().remove(l)) by {
            vstd::seq_lib::to_multiset_remove(a, a.len() - 1);
            assert(a.remove(a.len() - 1) =~= a.drop_last());
        }
        lemma_count_permutation(a.drop_last(), b.remove(k), x);
        lemma_count_remove(b, k, x);
    } else {
        assert(b.len() == 0) by {
            vstd::seq_lib::to_multiset_len(b);
            vstd::seq_lib::to_multiset_len(a);
        }
    }
}

/// In a sorted sequence, the pairs with key below that of position `k` all lie before it,
/// and the pairs up to `k` all have key at most that of `k`.
pub proof fn lemma_sorted_counts(s: Seq<(i64, usize)>, k: int)
    requires
        sorted_pairs(s),
        0 <= k < s.len(),
    ensures
        count_key_below(s, s[k].0 as int) <= k,
        count_key_at_most(s, s[k].0 as int) >= k + 1,
    decreases s.len(),
{
    let x = s[k].0 as int;
    if k < s.len() - 1 {
        assert(sorted_pairs(s.drop_last()));
        lemma_sorted_counts(s.drop_last(), k);
        assert(pair_le(s[k], s[s.len() - 1]));
    } else {
        lemma_count_below_prefix(s.drop_last(), x);
        lemma_count_at_most_all(s.drop_last(), x);
    }
}

proof fn lemma_count_below_prefix(s: Seq<(i64, usize)>, x: int)
    ensures
        count_key_below(s, x) <= s.len(),
    decreases s.len(),
{
    if s.len() > 0 {
        lemma_count_below_prefix(s.drop_last(), x);
    }
}

proof fn lemma_count_at_most_all(s: Seq<(i64, usize)>, x: int)
    requires
        forall|i: int| 0 <= i < s.len() ==> (#[trigger] s[i]).0 <= x,
    ensures
        count_key_at_most(s, x) == s.len(),
    decreases s.len(),
{
    if s.len() > 0 {
        lemma_count_at_most_all(s.drop_last(), x);
    }
}

} // verus!
