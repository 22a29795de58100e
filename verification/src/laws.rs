//! Laws of the store, stated over the set of members that the operations'
//! contracts speak of: `add` ensures the new state is `old@.insert(item@)`,
//! `clear` ensures it is the empty set, `contains` answers `s.contains`, and
//! `size` answers `s.len()`.

use vstd::prelude::*;

verus! {

/// Adding a member twice is the same as adding it once: the second `add` of
/// the same string leaves the state — and so the size — unchanged.
pub proof fn lemma_add_idempotent(s: Set<Seq<char>>, x: Seq<char>)
    requires
        s.finite(),
    ensures
        s.insert(x).insert(x) == s.insert(x),
        s.insert(x).insert(x).len() == s.insert(x).len(),
{
    assert(s.insert(x).insert(x) =~= s.insert(x));
}

/// Membership follows the last mutation: any string is a member right after
/// it is added, and no string is a member right after the store is cleared.
pub proof fn lemma_membership(s: Set<Seq<char>>, x: Seq<char>)
    ensures
        s.insert(x).contains(x),
        !Set::<Seq<char>>::empty().contains(x),
{
}

/// The states that a run of `add` calls walks through, one call per item in
/// order.
pub open spec fn insert_all(s: Set<Seq<char>>, items: Seq<Seq<char>>) -> Set<Seq<char>>
    decreases items.len(),
{
    if items.len() == 0 {
        s
    } else {
        insert_all(s.insert(items[0]), items.drop_first())
    }
}

/// Distinct adds each count: a run of `add` calls over pairwise-distinct
/// strings, none yet a member, grows the size by exactly the number of
/// calls — in whatever order the calls were serialized.
pub proof fn lemma_distinct_adds_count(s: Set<Seq<char>>, items: Seq<Seq<char>>)
    requires
        s.finite(),
        items.no_duplicates(),
        forall|i: int| 0 <= i < items.len() ==> !s.contains(#[trigger] items[i]),
    ensures
        insert_all(s, items).finite(),
        insert_all(s, items).len() == s.len() + items.len(),
    decreases items.len(),
{
    if items.len() > 0 {
        let s1 = s.insert(items[0]);
        assert(s1.len() == s.len() + 1);
        assert(forall|i: int|
            0 <= i < items.drop_first().len() ==> items.drop_first()[i] == items[i + 1]);
        lemma_distinct_adds_count(s1, items.drop_first());
    }
}

} // verus!
