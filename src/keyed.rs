//! Lists of values keyed by unique addresses, and the map each one stands for.

use crate::address::Address;
use vstd::prelude::*;

verus! {

/// `k` occupies a slot of `s`.
pub open spec fn holds_key<V: View>(s: Seq<(Address, V)>, k: Address) -> bool {
    exists|i: int| 0 <= i < s.len() && s[i].0 == k
}

/// The slot of `k` in `s` (meaningful where `holds_key(s, k)`).
pub open spec fn slot_of<V: View>(s: Seq<(Address, V)>, k: Address) -> int {
    choose|i: int| 0 <= i < s.len() && s[i].0 == k
}

/// No address occupies two slots.
pub open spec fn addresses_unique<V: View>(s: Seq<(Address, V)>) -> bool {
    forall|i: int, j: int| 0 <= i < s.len() && 0 <= j < s.len() && s[i].0 == s[j].0 ==> i == j
}

/// The accounts of a list with unique addresses, by address.
pub open spec fn map_of<V: View>(s: Seq<(Address, V)>) -> Map<Address, V::V> {
    Map::new(|k: Address| holds_key(s, k), |k: Address| s[slot_of(s, k)].1@)
}

/// The slot of `pubkey` in a list with unique addresses, if it has one.
pub fn find_slot<V: View>(entries: &Vec<(Address, V)>, pubkey: &Address) -> (r: Option<usize>)
    requires
        addresses_unique(entries@),
    ensures
        match r {
            Some(i) => i < entries@.len() && entries@[i as int].0 == *pubkey && holds_key(
                entries@,
                *pubkey,
            ) && slot_of(entries@, *pubkey) == i,
            None => !holds_key(entries@, *pubkey),
        },
{
    let mut i: usize = 0;
    while i < entries.len()
        invariant
            0 <= i <= entries.len(),
            addresses_unique(entries@),
            forall|j: int| 0 <= j < i ==> entries@[j].0 != *pubkey,
        decreases entries.len() - i,
    {
        if entries[i].0.equals(pubkey) {
            proof {
                assert(holds_key(entries@, *pubkey));
                let c = slot_of(entries@, *pubkey);
                assert(entries@[c].0 == entries@[i as int].0);
            }
            return Some(i);
        }
        i = i + 1;
    }
    None
}

/// Stores `account` at `pubkey` in a list with unique addresses.
pub fn insert_entry<V: View>(entries: &mut Vec<(Address, V)>, pubkey: Address, value: V)
    requires
        addresses_unique(old(entries)@),
    ensures
        addresses_unique(final(entries)@),
        map_of(final(entries)@) == map_of(old(entries)@).insert(pubkey, value@),
{
    let ghost old_entries = entries@;
    let ghost av = value@;
    match find_slot(entries, &pubkey) {
            Some(i) => {
                entries.set(i, (pubkey, value));
                proof {
                    let s = entries@;
                    assert forall|a: int, b: int|
                        0 <= a < s.len() && 0 <= b < s.len() && s[a].0 == s[b].0 implies a
                        == b by {
                        assert(old_entries[a].0 == s[a].0);
                        assert(old_entries[b].0 == s[b].0);
                    }
                    assert forall|k: Address| holds_key(s, k) == holds_key(old_entries, k) by {
                        if holds_key(s, k) {
                            let j = choose|j: int| 0 <= j < s.len() && s[j].0 == k;
                            assert(old_entries[j].0 == k);
                        }
                        if holds_key(old_entries, k) {
                            let j = choose|j: int| 0 <= j < old_entries.len() && old_entries[j].0 == k;
                            assert(s[j].0 == k);
                        }
                    }
                    assert forall|k: Address| holds_key(s, k) && k != pubkey implies slot_of(s, k)
                        == slot_of(old_entries, k) by {
                        let a = slot_of(s, k);
                        let b = slot_of(old_entries, k);
                        assert(s[b].0 == k);
                    }
                    assert(slot_of(s, pubkey) == i) by {
                        let a = slot_of(s, pubkey);
                        assert(s[i as int].0 == pubkey);
                    }
                    assert(map_of(s) =~= map_of(old_entries).insert(pubkey, av));
                }
            },
            None => {
                entries.push((pubkey, value));
                proof {
                    let s = entries@;
                    let n = old_entries.len() as int;
                    assert forall|a: int, b: int|
                        0 <= a < s.len() && 0 <= b < s.len() && s[a].0 == s[b].0 implies a
                        == b by {
                        if a < n && b == n {
                            assert(old_entries[a].0 == pubkey);
                        }
                        if b < n && a == n {
                            assert(old_entries[b].0 == pubkey);
                        }
                        if a < n && b < n {
                            assert(old_entries[a].0 == s[a].0);
                            assert(old_entries[b].0 == s[b].0);
                        }
                    }
                    assert forall|k: Address| holds_key(s, k) == (holds_key(old_entries, k) || k
                        == pubkey) by {
                        if holds_key(s, k) && k != pubkey {
                            let j = choose|j: int| 0 <= j < s.len() && s[j].0 == k;
                            assert(old_entries[j].0 == k);
                        }
                        if holds_key(old_entries, k) {
                            let j = choose|j: int| 0 <= j < old_entries.len() && old_entries[j].0 == k;
                            assert(s[j].0 == k);
                        }
                        if k == pubkey {
                            assert(s[n].0 == k);
                        }
                    }
                    assert forall|k: Address| holds_key(s, k) && k != pubkey implies slot_of(s, k)
                        == slot_of(old_entries, k) by {
                        let b = slot_of(old_entries, k);
                        assert(s[b].0 == k);
                    }
                    assert(slot_of(s, pubkey) == n) by {
                        assert(s[n].0 == pubkey);
                    }
                    assert(map_of(s) =~= map_of(old_entries).insert(pubkey, av));
                }
            },
        }
}

pub proof fn lemma_map_of_len<V: View>(s: Seq<(Address, V)>)
    requires
        addresses_unique(s),
    ensures
        map_of(s).dom().finite(),
        map_of(s).dom().len() == s.len(),
    decreases s.len(),
{
    if s.len() == 0 {
        assert(map_of(s).dom() =~= Set::<Address>::empty());
    } else {
        let t = s.drop_last();
        let k = s.last().0;
        assert(addresses_unique(t)) by {
            assert forall|i: int, j: int|
                0 <= i < t.len() && 0 <= j < t.len() && t[i].0 == t[j].0 implies i == j by {
                assert(s[i].0 == t[i].0 && s[j].0 == t[j].0);
            }
        }
        lemma_map_of_len(t);
        assert forall|x: Address| holds_key(s, x) == (holds_key(t, x) || x == k) by {
            if holds_key(s, x) && x != k {
                let j = choose|j: int| 0 <= j < s.len() && s[j].0 == x;
                assert(t[j].0 == x);
            }
            if holds_key(t, x) {
                let j = choose|j: int| 0 <= j < t.len() && t[j].0 == x;
                assert(s[j].0 == x);
            }
            if x == k {
                assert(s[s.len() - 1].0 == x);
            }
        }
        assert(!holds_key(t, k)) by {
            if holds_key(t, k) {
                let j = choose|j: int| 0 <= j < t.len() && t[j].0 == k;
                assert(s[j].0 == s[s.len() - 1].0);
            }
        }
        assert(map_of(s).dom() =~= map_of(t).dom().insert(k));
    }
}

} // verus!
