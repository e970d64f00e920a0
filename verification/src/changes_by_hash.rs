//! The balance changes of a shard that wait for the transaction or receipt
//! that caused them, found by its hash.

use vstd::prelude::*;
use crate::balances::{AccountWithBalance, AccountWithBalanceView};

verus! {

struct Entry {
    hash: String,
    change: AccountWithBalance,
}

/// A map from a hash to the account that changed and its new balance. No
/// hash has more than one entry.
pub struct ChangesByHash {
    entries: Vec<Entry>,
}

/// Whether an entry is filed under `hash`.
spec fn filed(entries: Seq<Entry>, hash: Seq<char>) -> bool {
    exists|i: int| 0 <= i < entries.len() && (#[trigger] entries[i]).hash@ == hash
}

/// The place of the entry filed under `hash`.
spec fn place(entries: Seq<Entry>, hash: Seq<char>) -> int {
    choose|i: int| 0 <= i < entries.len() && (#[trigger] entries[i]).hash@ == hash
}

spec fn distinct(entries: Seq<Entry>) -> bool {
    forall|i: int, j: int|
        0 <= i < entries.len() && 0 <= j < entries.len() && i != j ==> (#[trigger] entries[i]).hash@
            != (#[trigger] entries[j]).hash@
}

spec fn as_map(entries: Seq<Entry>) -> Map<Seq<char>, AccountWithBalanceView> {
    Map::new(|hash: Seq<char>| filed(entries, hash), |hash: Seq<char>| entries[place(entries, hash)].change@)
}

/// With distinct hashes, the entry at `i` is the one its hash leads to.
proof fn lemma_place(entries: Seq<Entry>, i: int)
    requires
        distinct(entries),
        0 <= i < entries.len(),
    ensures
        filed(entries, entries[i].hash@),
        place(entries, entries[i].hash@) == i,
        as_map(entries).contains_key(entries[i].hash@),
        as_map(entries)[entries[i].hash@] == entries[i].change@,
{
    let hash = entries[i].hash@;
    assert(filed(entries, hash));
    let p = place(entries, hash);
    assert(0 <= p < entries.len() && entries[p].hash@ == hash);
}

impl View for ChangesByHash {
    type V = Map<Seq<char>, AccountWithBalanceView>;

    closed spec fn view(&self) -> Map<Seq<char>, AccountWithBalanceView> {
        as_map(self.entries@)
    }
}

impl ChangesByHash {
    #[verifier::type_invariant]
    spec fn one_entry_per_hash(self) -> bool {
        distinct(self.entries@)
    }

    /// A map without entries.
    pub fn new() -> (changes: ChangesByHash)
        ensures
            changes@ == Map::<Seq<char>, AccountWithBalanceView>::empty(),
    {
        let changes = ChangesByHash { entries: Vec::new() };
        assert(changes@ =~= Map::<Seq<char>, AccountWithBalanceView>::empty());
        changes
    }

    /// Where the entry under `hash` stands, if there is one.
    fn find(&self, hash: &String) -> (found: Option<usize>)
        ensures
            match found {
                Some(i) => i < self.entries.len() && self.entries[i as int].hash@ == hash@,
                None => !filed(self.entries@, hash@),
            },
    {
        let mut i: usize = 0;
        while i < self.entries.len()
            invariant
                i <= self.entries.len(),
                forall|j: int| 0 <= j < i ==> (#[trigger] self.entries[j]).hash@ != hash@,
            decreases self.entries.len() - i,
        {
            if self.entries[i].hash == *hash {
                return Some(i);
            }
            i = i + 1;
        }
        None
    }

    /// Whether nothing is left in the map.
    pub fn is_empty(&self) -> (empty: bool)
        ensures
            empty == (self@ == Map::<Seq<char>, AccountWithBalanceView>::empty()),
    {
        proof {
            use_type_invariant(self);
            if self.entries.len() == 0 {
                assert(self@ =~= Map::<Seq<char>, AccountWithBalanceView>::empty());
            } else {
                lemma_place(self.entries@, 0);
            }
        }
        self.entries.len() == 0
    }

    /// Whether the map has an entry under `hash`.
    pub fn contains_key(&self, hash: &String) -> (present: bool)
        ensures
            present == self@.contains_key(hash@),
    {
        self.find(hash).is_some()
    }

    /// Files `change` under `hash` and hands back what was filed there
    /// before.
    pub fn insert(&mut self, hash: String, change: AccountWithBalance) -> (previous: Option<
        AccountWithBalance,
    >)
        ensures
            final(self)@ == old(self)@.insert(hash@, change@),
            previous.deep_view() == if old(self)@.contains_key(hash@) {
                Some(old(self)@[hash@])
            } else {
                None
            },
    {
        proof {
            use_type_invariant(&*self);
        }
        let ghost before = self.entries@;
        let found = self.find(&hash);
        let mut entries: Vec<Entry> = Vec::new();
        core::mem::swap(&mut self.entries, &mut entries);
        match found {
            Some(i) => {
                let removed = entries.swap_remove(i);
                proof {
                    lemma_place(before, i as int);
                }
                let ghost middle = entries@;
                entries.push(Entry { hash, change });
                proof {
                    let after = entries@;
                    assert(distinct(after));
                    assert forall|h: Seq<char>| filed(after, h) <==> (h == hash@ || filed(before, h)) by {
                        if filed(after, h) {
                            let k = place(after, h);
                            if k < middle.len() {
                                if k == i {
                                    assert(before[before.len() - 1].hash@ == h);
                                } else {
                                    assert(before[k].hash@ == h);
                                }
                            }
                        }
                        if h == hash@ {
                            assert(after[after.len() - 1].hash@ == h);
                        } else if filed(before, h) {
                            let k = place(before, h);
                            if k == before.len() - 1 {
                                assert(after[i as int].hash@ == h);
                            } else {
                                assert(after[k].hash@ == h);
                            }
                        }
                    }
                    assert forall|h: Seq<char>| filed(after, h) implies as_map(after)[h] == as_map(
                        before,
                    ).insert(hash@, change@)[h] by {
                        let k = place(after, h);
                        lemma_place(after, k);
                        if k == after.len() - 1 {
                        } else if k == i {
                            lemma_place(before, before.len() - 1);
                        } else {
                            lemma_place(before, k);
                        }
                    }
                    assert(as_map(after) =~= as_map(before).insert(hash@, change@));
                }
                self.entries = entries;
                Some(removed.change)
            },
            None => {
                entries.push(Entry { hash, change });
                proof {
                    let after = entries@;
                    assert(distinct(after));
                    assert forall|h: Seq<char>| filed(after, h) <==> (h == hash@ || filed(before, h)) by {
                        if filed(after, h) {
                            let k = place(after, h);
                            if k < before.len() {
                                assert(before[k].hash@ == h);
                            }
                        }
                        if h == hash@ {
                            assert(after[after.len() - 1].hash@ == h);
                        } else if filed(before, h) {
                            let k = place(before, h);
                            assert(after[k].hash@ == h);
                        }
                    }
                    assert forall|h: Seq<char>| filed(after, h) implies as_map(after)[h] == as_map(
                        before,
                    ).insert(hash@, change@)[h] by {
                        let k = place(after, h);
                        lemma_place(after, k);
                        if k < before.len() {
                            lemma_place(before, k);
                        }
                    }
                    assert(as_map(after) =~= as_map(before).insert(hash@, change@));
                }
                self.entries = entries;
                None
            },
        }
    }

    /// Takes the entry under `hash` out of the map.
    pub fn remove(&mut self, hash: &String) -> (removed: Option<AccountWithBalance>)
        ensures
            final(self)@ == old(self)@.remove(hash@),
            removed.deep_view() == if old(self)@.contains_key(hash@) {
                Some(old(self)@[hash@])
            } else {
                None
            },
    {
        proof {
            use_type_invariant(&*self);
        }
        let ghost before = self.entries@;
        match self.find(hash) {
            Some(i) => {
                let mut entries: Vec<Entry> = Vec::new();
                core::mem::swap(&mut self.entries, &mut entries);
                let removed = entries.swap_remove(i);
                proof {
                    lemma_place(before, i as int);
                    let after = entries@;
                    assert(distinct(after));
                    assert forall|h: Seq<char>| filed(after, h) <==> (h != hash@ && filed(before, h)) by {
                        if filed(after, h) {
                            let k = place(after, h);
                            if k == i {
                                assert(before[before.len() - 1].hash@ == h);
                            } else {
                                assert(before[k].hash@ == h);
                            }
                        }
                        if h != hash@ && filed(before, h) {
                            let k = place(before, h);
                            if k == before.len() - 1 {
                                assert(after[i as int].hash@ == h);
                            } else {
                                assert(after[k].hash@ == h);
                            }
                        }
                    }
                    assert forall|h: Seq<char>| filed(after, h) implies as_map(after)[h] == as_map(
                        before,
                    )[h] by {
                        let k = place(after, h);
                        lemma_place(after, k);
                        if k == i {
                            lemma_place(before, before.len() - 1);
                        } else {
                            lemma_place(before, k);
                        }
                    }
                    assert(as_map(after) =~= as_map(before).remove(hash@));
                }
                self.entries = entries;
                Some(removed.change)
            },
            None => {
                assert(as_map(before) =~= as_map(before).remove(hash@));
                None
            },
        }
    }
}

} // verus!
