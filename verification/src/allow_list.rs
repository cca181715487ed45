//! Who may speak through the bridge.

use crate::text::list_contains;
use crate::text::lists;
use vstd::hash_set::StringHashSet;
use vstd::prelude::*;

verus! {

/// The senders whose messages are accepted.
pub enum AllowList {
    /// Any sender.
    Any,
    /// Only these senders. The empty set denies everybody.
    Only(StringHashSet),
}

/// The senders that a configured list lets in: everybody if it holds `*`, else
/// those it names.
pub open spec fn permitted(raw: Seq<String>) -> Set<Seq<char>> {
    if lists(raw, "*"@) {
        Set::full()
    } else {
        Set::new(|id: Seq<char>| lists(raw, id))
    }
}

impl View for AllowList {
    type V = Set<Seq<char>>;

    /// The senders that are let in.
    open spec fn view(&self) -> Set<Seq<char>> {
        match *self {
            AllowList::Any => Set::full(),
            AllowList::Only(ids) => ids@,
        }
    }
}

impl AllowList {
    /// Reads a configured list, in which `*` stands for any sender.
    pub fn parse(raw: &[String]) -> (list: AllowList)
        ensures
            list@ == permitted(raw@),
            list is Any <==> lists(raw@, "*"@),
    {
        if list_contains(raw, "*") {
            AllowList::Any
        } else {
            let mut ids = StringHashSet::new();
            let mut i: usize = 0;
            while i < raw.len()
                invariant
                    i <= raw@.len(),
                    forall|id: Seq<char>| #[trigger]
                        ids@.contains(id) <==> lists(raw@.take(i as int), id),
                decreases raw@.len() - i,
            {
                let ghost before = ids@;
                ids.insert(raw[i].clone());
                proof {
                    let (s, t) = (raw@.take(i as int), raw@.take(i + 1));
                    assert forall|id: Seq<char>| #[trigger] ids@.contains(id) <==> lists(t, id) by {
                        if before.contains(id) {
                            let j = choose|j: int| 0 <= j < s.len() && (#[trigger] s[j])@ == id;
                            assert(t[j]@ == id);
                        }
                        if id == raw@[i as int]@ {
                            assert(t[i as int]@ == id);
                        }
                        if lists(t, id) {
                            let j = choose|j: int| 0 <= j < t.len() && (#[trigger] t[j])@ == id;
                            if j < i {
                                assert(s[j]@ == id);
                            }
                        }
                    }
                }
                i += 1;
            }
            proof {
                assert(raw@.take(i as int) =~= raw@);
                assert(ids@ =~= permitted(raw@));
            }
            AllowList::Only(ids)
        }
    }

    /// Whether a sender is let in.
    pub fn is_allowed(&self, sender_id: &str) -> (allowed: bool)
        ensures
            allowed == self@.contains(sender_id@),
    {
        match self {
            AllowList::Any => true,
            AllowList::Only(ids) => ids.contains(sender_id),
        }
    }
}

/// Nobody is let in by default: an empty list denies every sender.
pub proof fn law_empty_list_denies_all(id: Seq<char>)
    ensures
        !permitted(Seq::<String>::empty()).contains(id),
{
}

/// A list that holds `*` lets everybody in, whatever else it holds.
pub proof fn law_wildcard_allows_all(raw: Seq<String>, id: Seq<char>)
    requires
        lists(raw, "*"@),
    ensures
        permitted(raw).contains(id),
{
}

/// A list without `*` lets in exactly the senders it names.
pub proof fn law_names_are_exact(raw: Seq<String>, id: Seq<char>)
    requires
        !lists(raw, "*"@),
    ensures
        permitted(raw).contains(id) <==> lists(raw, id),
{
}

} // verus!
