//! The store: an in-memory set of unique strings with the four operations
//! the protocol exposes. Each operation answers with the textual record that
//! goes straight into a reply body.
//!
//! The store is modelled as the set of the character sequences of its
//! members; the members are held without duplicates, so the member count is
//! the set's cardinality.

use vstd::prelude::*;

use crate::records::{exists_record, size_record, success_record};
use crate::text::{str_eq, usize_to_string};

verus! {

/// An in-memory set of unique strings.
pub struct InMemSetDB {
    items: Vec<String>,
}

impl View for InMemSetDB {
    type V = Set<Seq<char>>;

    closed spec fn view(&self) -> Set<Seq<char>> {
        self.member_seq().to_set()
    }
}

impl InMemSetDB {
    /// The members in storage order.
    closed spec fn member_seq(&self) -> Seq<Seq<char>> {
        self.items@.map_values(|s: String| s@)
    }

    /// The store holds no member twice.
    pub closed spec fn wf(&self) -> bool {
        self.member_seq().no_duplicates()
    }

    /// Creates an empty store.
    pub fn new() -> (r: InMemSetDB)
        ensures
            r.wf(),
            r@ == Set::<Seq<char>>::empty(),
    {
        let r = InMemSetDB { items: Vec::new() };
        proof {
            assert(r.member_seq() =~= Seq::<Seq<char>>::empty());
            assert(r.member_seq().to_set() =~= Set::<Seq<char>>::empty());
        }
        r
    }

    /// Reports whether `x` is currently a member.
    fn holds(&self, x: &str) -> (r: bool)
        ensures
            r == self@.contains(x@),
    {
        let n = self.items.len();
        let mut i: usize = 0;
        while i < n
            invariant
                i <= n,
                n == self.items.len(),
                forall|j: int| 0 <= j < i ==> self.member_seq()[j] != x@,
            decreases n - i,
        {
            if str_eq(self.items[i].as_str(), x) {
                proof {
                    assert(self.member_seq()[i as int] == x@);
                    assert(self.member_seq().to_set().contains(x@));
                }
                return true;
            }
            i += 1;
        }
        proof {
            if self.member_seq().to_set().contains(x@) {
                let j = choose|j: int|
                    0 <= j < self.member_seq().len() && self.member_seq()[j] == x@;
                assert(self.member_seq()[j] != x@);
            }
        }
        false
    }

    /// Inserts `item` if absent; inserting an existing member changes
    /// nothing. Always answers with the success marker.
    pub fn add(&mut self, item: String) -> (r: String)
        requires
            old(self).wf(),
        ensures
            final(self).wf(),
            final(self)@ == old(self)@.insert(item@),
            r@ == success_record(),
    {
        let present = self.holds(item.as_str());
        if !present {
            proof {
                assert(old(self).member_seq().push(item@) =~= old(self).items@.push(
                    item,
                ).map_values(|s: String| s@));
            }
            self.items.push(item);
            proof {
                assert(self.member_seq() == old(self).member_seq().push(item@));
                old(self).member_seq().lemma_push_to_set_commute(item@);
            }
        } else {
            proof {
                assert(self.member_seq().to_set() =~= old(self).member_seq().to_set().insert(
                    item@,
                ));
            }
        }
        String::from_str("{\"success\":true}")
    }

    /// Reports whether `item` is a member, as a membership record; never
    /// mutates.
    pub fn contains(&self, item: &str) -> (r: String)
        ensures
            r@ == exists_record(self@.contains(item@)),
    {
        if self.holds(item) {
            String::from_str("{\"exists\":true}")
        } else {
            String::from_str("{\"exists\":false}")
        }
    }

    /// Removes every member. Always answers with the success marker.
    pub fn clear(&mut self) -> (r: String)
        ensures
            final(self).wf(),
            final(self)@ == Set::<Seq<char>>::empty(),
            r@ == success_record(),
    {
        self.items.clear();
        proof {
            assert(self.member_seq() =~= Seq::<Seq<char>>::empty());
            assert(self.member_seq().to_set() =~= Set::<Seq<char>>::empty());
        }
        String::from_str("{\"success\":true}")
    }

    /// Answers with the count record for the current number of members.
    pub fn size(&self) -> (r: String)
        requires
            self.wf(),
        ensures
            r@ == size_record(self@.len()),
    {
        proof {
            self.member_seq().unique_seq_to_set();
        }
        let n = self.items.len();
        let mut r = String::from_str("{\"size\":");
        let digits = usize_to_string(n);
        r.append(digits.as_str());
        r.append("}");
        proof {
            assert(r@ =~= size_record(self@.len()));
        }
        r
    }
}

} // verus!
