//! How many distinct things fit among given things.

use vstd::prelude::*;
use vstd::seq_lib::seq_to_set_is_finite;
use vstd::set_lib::lemma_len_subset;

verus! {

/// Things that are all different and all found among `within` are no more than `within`
/// holds.
pub proof fn lemma_distinct_within<A>(distinct: Seq<A>, within: Seq<A>)
    requires
        distinct.no_duplicates(),
        forall|i: int| 0 <= i < distinct.len() ==> within.contains(#[trigger] distinct[i]),
    ensures
        distinct.len() <= within.len(),
{
    distinct.unique_seq_to_set();
    within.lemma_cardinality_of_set();
    seq_to_set_is_finite(within);
    assert(distinct.to_set().subset_of(within.to_set())) by {
        assert forall|a: A| distinct.to_set().contains(a) implies within.to_set().contains(a) by {
            let i = choose|i: int| 0 <= i < distinct.len() && distinct[i] == a;
            assert(within.contains(distinct[i]));
        }
    }
    lemma_len_subset(distinct.to_set(), within.to_set());
}

/// The numbers from zero up to, and without, `bound`.
pub open spec fn numbers_below(bound: nat) -> Seq<usize> {
    Seq::new(bound, |i: int| i as usize)
}

/// Different numbers below `bound` are at most `bound` many.
pub proof fn lemma_distinct_below(numbers: Seq<usize>, bound: usize)
    requires
        forall|i: int| 0 <= i < numbers.len() ==> (#[trigger] numbers[i]) < bound,
        forall|i: int, j: int| 0 <= i < j < numbers.len() ==> numbers[i] != numbers[j],
    ensures
        numbers.len() <= bound,
{
    let all = numbers_below(bound as nat);
    assert forall|i: int| 0 <= i < numbers.len() implies all.contains(#[trigger] numbers[i]) by {
        assert(all[numbers[i] as int] == numbers[i]);
    }
    lemma_distinct_within(numbers, all);
}

/// Numbers among which every number below `bound` is found are at least `bound` many.
pub proof fn lemma_all_below(numbers: Seq<usize>, bound: usize)
    requires
        forall|n: usize| n < bound ==> numbers.contains(n),
    ensures
        bound <= numbers.len(),
{
    let all = numbers_below(bound as nat);
    lemma_distinct_within(all, numbers);
}

} // verus!
