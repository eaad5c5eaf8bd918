//! Keys of a map in ascending order.
use std::collections::HashMap;
use vstd::prelude::*;

verus! {

broadcast use vstd::std_specs::hash::group_hash_axioms;

/// Whether each key is smaller than those after it.
pub open spec fn is_ascending(keys: Seq<u64>) -> bool {
    forall|i: int, j: int| 0 <= i < j < keys.len() ==> keys[i] < keys[j]
}

/// Whether `keys` holds the members of `members`, in ascending order.
pub open spec fn lists(keys: Seq<u64>, members: Set<u64>) -> bool {
    &&& is_ascending(keys)
    &&& forall|k: u64|
        #![trigger members.contains(k)]
        #![trigger keys.contains(k)]
        members.contains(k) <==> keys.contains(k)
}

/// The members of a finite set in ascending order.
pub open spec fn ascending(members: Set<u64>) -> Seq<u64> {
    choose|keys: Seq<u64>| lists(keys, members)
}

proof fn lemma_greatest(members: Set<u64>) -> (greatest: u64)
    requires
        members.finite(),
        members.len() > 0,
    ensures
        members.contains(greatest),
        forall|k: u64| #[trigger] members.contains(k) ==> k <= greatest,
    decreases members.len(),
{
    let one = members.choose();
    let rest = members.remove(one);
    if rest.len() == 0 {
        assert forall|k: u64| #[trigger] members.contains(k) implies k <= one by {
            if k != one {
                assert(rest.contains(k));
            }
        }
        one
    } else {
        let other = lemma_greatest(rest);
        assert forall|k: u64| #[trigger] members.contains(k) implies k <= one || k <= other by {
            if k != one {
                assert(rest.contains(k));
            }
        }
        if other < one {
            one
        } else {
            other
        }
    }
}

/// Every finite set can be listed.
pub proof fn lemma_ascending(members: Set<u64>)
    requires
        members.finite(),
    ensures
        lists(ascending(members), members),
    decreases members.len(),
{
    if members.len() == 0 {
        assert(members =~= Set::empty());
        assert(lists(Seq::empty(), members));
    } else {
        let last = lemma_greatest(members);
        let rest = members.remove(last);
        lemma_ascending(rest);
        let start = ascending(rest);
        let keys = start.push(last);
        assert forall|i: int, j: int| 0 <= i < j < keys.len() implies keys[i] < keys[j] by {
            assert(rest.contains(start[i])) by {
                assert(start.contains(start[i]));
            }
        }
        assert forall|k: u64| #[trigger] members.contains(k) <==> keys.contains(k) by {
            if members.contains(k) {
                if k == last {
                    assert(keys[keys.len() - 1] == k);
                } else {
                    assert(rest.contains(k));
                    let i = choose|i: int| 0 <= i < start.len() && start[i] == k;
                    assert(keys[i] == k);
                }
            }
            if keys.contains(k) {
                let i = choose|i: int| 0 <= i < keys.len() && keys[i] == k;
                if i < start.len() {
                    assert(start[i] == k);
                    assert(start.contains(k));
                    assert(rest.contains(k));
                }
            }
        }
        assert(lists(keys, members));
    }
}

/// A set can be listed in one way only.
pub proof fn lemma_lists_unique(a: Seq<u64>, b: Seq<u64>, members: Set<u64>)
    requires
        lists(a, members),
        lists(b, members),
    ensures
        a == b,
    decreases a.len(),
{
    if a.len() == 0 {
        if b.len() > 0 {
            assert(b.contains(b[0]));
            assert(a.contains(b[0]));
        }
    } else {
        let last = a.last();
        assert(a.contains(last));
        assert(b.contains(last));
        let i = choose|i: int| 0 <= i < b.len() && b[i] == last;
        assert(b.contains(b.last()));
        assert(a.contains(b.last()));
        let j = choose|j: int| 0 <= j < a.len() && a[j] == b.last();
        assert(b.last() == last);
        lemma_lists_start(a, members);
        lemma_lists_start(b, members);
        lemma_lists_unique(a.drop_last(), b.drop_last(), members.remove(last));
        assert(a =~= a.drop_last().push(last));
        assert(b =~= b.drop_last().push(last));
    }
}

proof fn lemma_lists_start(keys: Seq<u64>, members: Set<u64>)
    requires
        lists(keys, members),
        keys.len() > 0,
    ensures
        lists(keys.drop_last(), members.remove(keys.last())),
{
    let start = keys.drop_last();
    let rest = members.remove(keys.last());
    assert forall|k: u64| #[trigger] rest.contains(k) <==> start.contains(k) by {
        if rest.contains(k) {
            assert(members.contains(k));
            let i = choose|i: int| 0 <= i < keys.len() && keys[i] == k;
            assert(start[i] == k);
        }
        if start.contains(k) {
            let i = choose|i: int| 0 <= i < start.len() && start[i] == k;
            assert(keys[i] == k);
            assert(keys.contains(k));
            assert(members.contains(k));
        }
    }
}

fn insert_ascending(keys: &mut Vec<u64>, key: u64)
    requires
        is_ascending(old(keys)@),
        !old(keys)@.contains(key),
    ensures
        is_ascending(final(keys)@),
        forall|k: u64| #[trigger]
            final(keys)@.contains(k) <==> old(keys)@.contains(k) || k == key,
{
    let ghost before = keys@;
    let mut at: usize = 0;
    while at < keys.len() && keys[at] < key
        invariant
            at <= keys.len(),
            keys@ == before,
            forall|i: int| 0 <= i < at ==> #[trigger] before[i] < key,
        decreases keys.len() - at,
    {
        at = at + 1;
    }
    proof {
        if at < before.len() {
            assert(before.contains(before[at as int]));
        }
    }
    keys.insert(at, key);
    assert forall|k: u64| #[trigger] keys@.contains(k) <==> before.contains(k) || k == key by {
        if before.contains(k) {
            let i = choose|i: int| 0 <= i < before.len() && before[i] == k;
            if i < at {
                assert(keys@[i] == k);
            } else {
                assert(keys@[i + 1] == k);
            }
        }
        if k == key {
            assert(keys@[at as int] == k);
        }
        if keys@.contains(k) {
            let i = choose|i: int| 0 <= i < keys@.len() && keys@[i] == k;
            if i < at {
                assert(before[i] == k);
            } else if i > at {
                assert(before[i - 1] == k);
            }
        }
    }
}

/// The keys of a map in ascending order.
pub fn ascending_keys<V>(map: &HashMap<u64, V>) -> (keys: Vec<u64>)
    ensures
        lists(keys@, map@.dom()),
        keys@ == ascending(map@.dom()),
{
    let mut keys: Vec<u64> = Vec::new();
    for key in walk: map.keys()
        invariant
            is_ascending(keys@),
            walk.seq().no_duplicates(),
            walk.seq().unref().to_set() == map@.dom(),
            forall|k: u64| #[trigger]
                keys@.contains(k) <==> exists|i: int|
                    0 <= i < walk.index() && *(#[trigger] walk.seq()[i]) == k,
    {
        insert_ascending(&mut keys, *key);
    }
    proof {
        let walked = choose|walked: Seq<&u64>|
            #![trigger walked.unref()]
            walked.unref().to_set() == map@.dom() && forall|k: u64| #[trigger]
                keys@.contains(k) <==> exists|i: int|
                    0 <= i < walked.len() && *(#[trigger] walked[i]) == k;
        assert forall|k: u64| #[trigger] map@.dom().contains(k) <==> keys@.contains(k) by {
            if map@.dom().contains(k) {
                assert(walked.unref().to_set().contains(k));
                let i = choose|i: int| 0 <= i < walked.unref().len() && walked.unref()[i] == k;
                assert(*walked[i] == k);
            }
            if keys@.contains(k) {
                let i = choose|i: int| 0 <= i < walked.len() && *(#[trigger] walked[i]) == k;
                assert(walked.unref()[i] == k);
                assert(walked.unref().to_set().contains(k));
            }
        }
        assert(lists(keys@, map@.dom()));
        lemma_lists_unique(keys@, ascending(map@.dom()), map@.dom());
    }
    keys
}

} // verus!
