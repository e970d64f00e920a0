//! The previous balances of accounts, kept in a cache that holds a bounded
//! number of them and drops the least recently used one for a new one.

use vstd::prelude::*;
use cached::{Cached, SizedCache};
use crate::balances::BalanceDetails;

verus! {

#[verifier::external_type_specification]
#[verifier::external_body]
#[verifier::reject_recursive_types(K)]
#[verifier::reject_recursive_types(V)]
pub struct ExSizedCache<K, V>(cached::SizedCache<K, V>);

/// The entries of a cache, the most recently used first: each an account
/// with the liquid and the locked amount kept for it.
pub uninterp spec fn cache_entries(cache: SizedCache<String, (u128, u128)>) -> Seq<
    (Seq<char>, (u128, u128)),
>;

/// The number of entries that a cache was made to hold.
pub uninterp spec fn cache_limit(cache: SizedCache<String, (u128, u128)>) -> nat;

/// The largest size that a cache is made with. Room for all entries is set
/// aside when the cache is made; this many still fit where addresses have
/// 32 bits.
pub const MAX_CACHE_SIZE: usize = 10_000_000;

/// The size of the cache that the indexer runs with.
pub const DEFAULT_CACHE_SIZE: usize = 100_000;

/// `SizedCache::with_size`: an empty cache that holds up to `size` entries.
/// It panics on a size of zero, and asks the allocator for room for `size`
/// entries at once, so both ends are left out.
#[verifier::external_body]
fn sized_cache_with_size(size: usize) -> (cache: SizedCache<String, (u128, u128)>)
    requires
        0 < size <= MAX_CACHE_SIZE,
    ensures
        cache_entries(cache) == Seq::<(Seq<char>, (u128, u128))>::empty(),
        cache_limit(cache) == size,
{
    SizedCache::with_size(size)
}

/// What a lookup of `key` does to the entries of a cache and what it
/// returns. An entry that is found becomes the most recently used one and
/// the others keep their order; a miss changes nothing.
pub open spec fn looked_up(
    before: Seq<(Seq<char>, (u128, u128))>,
    key: Seq<char>,
    value: Option<(u128, u128)>,
    after: Seq<(Seq<char>, (u128, u128))>,
) -> bool {
    match value {
        Some(found) => exists|i: int|
            0 <= i < before.len() && #[trigger] before[i] == (key, found) && after == seq![
                before[i],
            ] + before.remove(i),
        None => after == before && forall|i: int|
            0 <= i < before.len() ==> (#[trigger] before[i]).0 != key,
    }
}

/// What setting `value` under `key` does to the entries of a cache made for
/// `limit` entries. Where the key has an entry, the value is replaced in
/// its place and the order stays. Otherwise the new entry is put before all
/// others, and if the cache then holds more than it was made for, the last
/// entry is dropped.
pub open spec fn stored(
    before: Seq<(Seq<char>, (u128, u128))>,
    limit: nat,
    key: Seq<char>,
    value: (u128, u128),
    after: Seq<(Seq<char>, (u128, u128))>,
) -> bool {
    ||| exists|i: int|
        0 <= i < before.len() && (#[trigger] before[i]).0 == key && after == before.update(
            i,
            (key, value),
        )
    ||| {
        &&& forall|i: int| 0 <= i < before.len() ==> (#[trigger] before[i]).0 != key
        &&& after == if before.len() + 1 > limit {
            (seq![(key, value)] + before).drop_last()
        } else {
            seq![(key, value)] + before
        }
    }
}

/// `Cached::cache_get` of a `SizedCache`: the value kept under `key`, if
/// there is one, and the entry's move to the front of the order of use.
#[verifier::external_body]
fn sized_cache_get(cache: &mut SizedCache<String, (u128, u128)>, key: &String) -> (value: Option<
    (u128, u128),
>)
    ensures
        cache_limit(*final(cache)) == cache_limit(*old(cache)),
        looked_up(cache_entries(*old(cache)), key@, value, cache_entries(*final(cache))),
    no_unwind
{
    cache.cache_get(key).copied()
}

/// `Cached::cache_set` of a `SizedCache`: keeps `value` under `key`, in the
/// place of the key's entry or as a new entry for which the least recently
/// used one makes room.
#[verifier::external_body]
fn sized_cache_set(cache: &mut SizedCache<String, (u128, u128)>, key: String, value: (u128, u128))
    ensures
        cache_limit(*final(cache)) == cache_limit(*old(cache)),
        stored(
            cache_entries(*old(cache)),
            cache_limit(*old(cache)),
            key@,
            value,
            cache_entries(*final(cache)),
        ),
    no_unwind
{
    cache.cache_set(key, value);
}

/// One entry of the cache: an account and the balance kept for it.
pub struct CachedBalance {
    pub account_id: Seq<char>,
    pub balance: BalanceDetails,
}

/// What a [`BalanceCache`] stands for: its entries, the most recently used
/// first, and the number of entries that it holds at most.
pub struct BalanceCacheView {
    pub entries: Seq<CachedBalance>,
    pub capacity: nat,
}

impl BalanceCacheView {
    /// No account has two entries, and there are no more entries than the
    /// cache holds.
    pub open spec fn well_formed(self) -> bool {
        &&& 0 < self.capacity
        &&& self.entries.len() <= self.capacity
        &&& forall|i: int, j: int|
            0 <= i < self.entries.len() && 0 <= j < self.entries.len() && i != j ==> (
            #[trigger] self.entries[i]).account_id != (#[trigger] self.entries[j]).account_id
    }

    /// Whether a balance is kept for the account.
    pub open spec fn holds(self, account_id: Seq<char>) -> bool {
        exists|i: int|
            0 <= i < self.entries.len() && (#[trigger] self.entries[i]).account_id == account_id
    }

    /// Where the entry of the account stands.
    pub open spec fn place(self, account_id: Seq<char>) -> int {
        choose|i: int|
            0 <= i < self.entries.len() && (#[trigger] self.entries[i]).account_id == account_id
    }

    /// The balance kept for the account, if there is one.
    pub open spec fn balance_of(self, account_id: Seq<char>) -> Option<BalanceDetails> {
        if self.holds(account_id) {
            Some(self.entries[self.place(account_id)].balance)
        } else {
            None
        }
    }

    /// The cache after the account was looked up: its entry, if it has one,
    /// has become the most recently used.
    pub open spec fn after_get(self, account_id: Seq<char>) -> BalanceCacheView {
        if self.holds(account_id) {
            let place = self.place(account_id);
            BalanceCacheView {
                entries: seq![self.entries[place]] + self.entries.remove(place),
                ..self
            }
        } else {
            self
        }
    }

    /// The cache after a balance was set for the account. An entry that is
    /// there keeps its place. A new entry becomes the most recently used,
    /// and the least recently used one makes room for it where the cache is
    /// full.
    pub open spec fn after_set(self, account_id: Seq<char>, balance: BalanceDetails) -> BalanceCacheView {
        let entry = CachedBalance { account_id, balance };
        if self.holds(account_id) {
            BalanceCacheView { entries: self.entries.update(self.place(account_id), entry), ..self }
        } else if self.entries.len() + 1 > self.capacity {
            BalanceCacheView { entries: (seq![entry] + self.entries).drop_last(), ..self }
        } else {
            BalanceCacheView { entries: seq![entry] + self.entries, ..self }
        }
    }
}

/// In a well-formed cache an account's entry is where the account is found.
pub proof fn lemma_place_is_unique(cache: BalanceCacheView, i: int)
    requires
        cache.well_formed(),
        0 <= i < cache.entries.len(),
    ensures
        cache.holds(cache.entries[i].account_id),
        cache.place(cache.entries[i].account_id) == i,
        cache.balance_of(cache.entries[i].account_id) == Some(cache.entries[i].balance),
{
    let account_id = cache.entries[i].account_id;
    assert(cache.holds(account_id));
    let p = cache.place(account_id);
    assert(0 <= p < cache.entries.len() && cache.entries[p].account_id == account_id);
}

/// Looking an account up keeps the cache well-formed and every balance in
/// it.
pub proof fn lemma_after_get(cache: BalanceCacheView, account_id: Seq<char>)
    requires
        cache.well_formed(),
    ensures
        cache.after_get(account_id).well_formed(),
        forall|other: Seq<char>|
            cache.after_get(account_id).balance_of(other) == cache.balance_of(other),
{
    let after = cache.after_get(account_id);
    if cache.holds(account_id) {
        let place = cache.place(account_id);
        assert forall|other: Seq<char>| after.balance_of(other) == cache.balance_of(other) by {
            if cache.holds(other) {
                let k = cache.place(other);
                lemma_place_is_unique(cache, k);
                let moved = if k == place {
                    0
                } else if k < place {
                    k + 1
                } else {
                    k
                };
                assert(after.entries[moved] == cache.entries[k]);
                lemma_place_is_unique(after, moved);
            } else if after.holds(other) {
                let k = after.place(other);
                if k == 0 {
                    assert(cache.entries[place].account_id == other);
                } else if k <= place {
                    assert(cache.entries[k - 1].account_id == other);
                } else {
                    assert(cache.entries[k].account_id == other);
                }
            }
        }
    }
}

/// Setting a balance keeps the cache well-formed, leaves the balance under
/// the account and takes no other balance but, at most, that of the least
/// recently used account.
pub proof fn lemma_after_set(cache: BalanceCacheView, account_id: Seq<char>, balance: BalanceDetails)
    requires
        cache.well_formed(),
    ensures
        cache.after_set(account_id, balance).well_formed(),
        cache.after_set(account_id, balance).balance_of(account_id) == Some(balance),
        forall|other: Seq<char>|
            other != account_id && cache.after_set(account_id, balance).holds(other)
                ==> cache.after_set(account_id, balance).balance_of(other) == cache.balance_of(
                other,
            ),
        forall|other: Seq<char>|
            #![trigger cache.after_set(account_id, balance).holds(other)]
            cache.holds(other) && !(!cache.holds(account_id) && cache.entries.len()
                == cache.capacity && cache.entries.last().account_id == other) ==> cache.after_set(
                account_id,
                balance,
            ).holds(other),
{
    let after = cache.after_set(account_id, balance);
    let entry = CachedBalance { account_id, balance };
    if cache.holds(account_id) {
        let place = cache.place(account_id);
        assert(after.entries[place] == entry);
        lemma_place_is_unique(after, place);
        assert forall|other: Seq<char>| other != account_id && after.holds(other) implies after.balance_of(
            other,
        ) == cache.balance_of(other) by {
            let k = after.place(other);
            assert(cache.entries[k] == after.entries[k]);
            lemma_place_is_unique(after, k);
            lemma_place_is_unique(cache, k);
        }
        assert forall|other: Seq<char>| cache.holds(other) implies after.holds(other) by {
            let k = cache.place(other);
            assert(after.entries[k].account_id == other);
        }
    } else {
        assert(after.entries[0] == entry);
        assert(after.well_formed()) by {
            assert forall|i: int, j: int|
                0 <= i < after.entries.len() && 0 <= j < after.entries.len() && i != j implies (
            #[trigger] after.entries[i]).account_id != (#[trigger] after.entries[j]).account_id by {
                if i > 0 {
                    assert(after.entries[i] == cache.entries[i - 1]);
                }
                if j > 0 {
                    assert(after.entries[j] == cache.entries[j - 1]);
                }
            }
        }
        lemma_place_is_unique(after, 0);
        assert forall|other: Seq<char>| other != account_id && after.holds(other) implies after.balance_of(
            other,
        ) == cache.balance_of(other) by {
            let k = after.place(other);
            assert(k > 0);
            assert(cache.entries[k - 1] == after.entries[k]);
            lemma_place_is_unique(after, k);
            lemma_place_is_unique(cache, k - 1);
        }
        assert forall|other: Seq<char>|
            cache.holds(other) && !(cache.entries.len() == cache.capacity
                && cache.entries.last().account_id == other) implies after.holds(other) by {
            let k = cache.place(other);
            lemma_place_is_unique(cache, k);
            assert(after.entries[k + 1].account_id == other);
        }
    }
}

/// The cache of previous balances.
pub struct BalanceCache {
    store: SizedCache<String, (u128, u128)>,
}

/// The entries of the store as the cache's view has them.
spec fn as_entries(raw: Seq<(Seq<char>, (u128, u128))>) -> Seq<CachedBalance> {
    Seq::new(
        raw.len(),
        |i: int|
            CachedBalance {
                account_id: raw[i].0,
                balance: BalanceDetails { non_staked: raw[i].1.0, staked: raw[i].1.1 },
            },
    )
}

impl View for BalanceCache {
    type V = BalanceCacheView;

    closed spec fn view(&self) -> BalanceCacheView {
        BalanceCacheView {
            entries: as_entries(cache_entries(self.store)),
            capacity: cache_limit(self.store),
        }
    }
}

impl BalanceCache {
    /// A cache is well-formed at all times.
    #[verifier::type_invariant]
    pub open spec fn always_well_formed(self) -> bool {
        self@.well_formed()
    }

    /// An empty cache that holds up to `size` balances.
    pub fn with_size(size: usize) -> (cache: BalanceCache)
        requires
            0 < size <= MAX_CACHE_SIZE,
        ensures
            cache@.entries == Seq::<CachedBalance>::empty(),
            cache@.capacity == size,
            cache@.well_formed(),
    {
        let store = sized_cache_with_size(size);
        assert(as_entries(cache_entries(store)) =~= Seq::<CachedBalance>::empty());
        BalanceCache { store }
    }

    /// An empty cache of the size that the indexer runs with.
    pub fn new() -> (cache: BalanceCache)
        ensures
            cache@.entries == Seq::<CachedBalance>::empty(),
            cache@.capacity == DEFAULT_CACHE_SIZE,
            cache@.well_formed(),
    {
        Self::with_size(DEFAULT_CACHE_SIZE)
    }

    /// The balance kept for the account, which thereby becomes the most
    /// recently used one.
    pub fn get(&mut self, account_id: &String) -> (balance: Option<BalanceDetails>)
        ensures
            balance == old(self)@.balance_of(account_id@),
            final(self)@ == old(self)@.after_get(account_id@),
            final(self)@.well_formed(),
    {
        proof {
            use_type_invariant(&*self);
            lemma_after_get(self@, account_id@);
            let raw = cache_entries(self.store);
            let limit = cache_limit(self.store);
            assert forall|value: Option<(u128, u128)>, after: Seq<(Seq<char>, (u128, u128))>| #[trigger]
                looked_up(raw, account_id@, value, after) implies got(
                raw,
                limit,
                account_id@,
                value,
                after,
            ) by {
                lemma_looked_up(raw, limit, account_id@, value, after);
            }
        }
        let ghost raw = cache_entries(self.store);
        let ghost limit = cache_limit(self.store);
        let found = sized_cache_get(&mut self.store, account_id);
        assert(got(raw, limit, account_id@, found, cache_entries(self.store)));
        match found {
            Some(pair) => Some(BalanceDetails { non_staked: pair.0, staked: pair.1 }),
            None => None,
        }
    }

    /// Keeps `balance` for the account.
    pub fn set(&mut self, account_id: String, balance: BalanceDetails)
        ensures
            final(self)@ == old(self)@.after_set(account_id@, balance),
            final(self)@.well_formed(),
    {
        let ghost raw = cache_entries(self.store);
        let ghost limit = cache_limit(self.store);
        let ghost key = account_id@;
        let pair = (balance.non_staked, balance.staked);
        proof {
            use_type_invariant(&*self);
            lemma_after_set(self@, key, balance);
            assert forall|after: Seq<(Seq<char>, (u128, u128))>| #[trigger]
                stored(raw, limit, key, pair, after) implies model(after, limit) == model(
                raw,
                limit,
            ).after_set(key, balance) by {
                lemma_stored(raw, limit, key, pair, after);
            }
        }
        sized_cache_set(&mut self.store, account_id, pair);
        assert(stored(raw, limit, key, pair, cache_entries(self.store)));
    }
}

/// The cache that the store's entries and limit stand for.
spec fn model(raw: Seq<(Seq<char>, (u128, u128))>, limit: nat) -> BalanceCacheView {
    BalanceCacheView { entries: as_entries(raw), capacity: limit }
}

/// The balance that a pair of amounts stands for.
spec fn as_balance(value: Option<(u128, u128)>) -> Option<BalanceDetails> {
    match value {
        Some(pair) => Some(BalanceDetails { non_staked: pair.0, staked: pair.1 }),
        None => None,
    }
}

/// A lookup seen through the cache's view.
spec fn got(
    raw: Seq<(Seq<char>, (u128, u128))>,
    limit: nat,
    key: Seq<char>,
    value: Option<(u128, u128)>,
    after: Seq<(Seq<char>, (u128, u128))>,
) -> bool {
    &&& as_balance(value) == model(raw, limit).balance_of(key)
    &&& model(after, limit) == model(raw, limit).after_get(key)
}

proof fn lemma_looked_up(
    raw: Seq<(Seq<char>, (u128, u128))>,
    limit: nat,
    key: Seq<char>,
    value: Option<(u128, u128)>,
    after: Seq<(Seq<char>, (u128, u128))>,
)
    requires
        model(raw, limit).well_formed(),
        looked_up(raw, key, value, after),
    ensures
        got(raw, limit, key, value, after),
{
    let before = model(raw, limit);
    match value {
        Some(pair) => {
            let i = choose|i: int|
                0 <= i < raw.len() && #[trigger] raw[i] == (key, pair) && after == seq![raw[i]]
                    + raw.remove(i);
            assert(before.entries[i].account_id == key);
            lemma_place_is_unique(before, i);
            assert(as_entries(after) =~= before.after_get(key).entries);
        },
        None => {
            if before.holds(key) {
                let k = before.place(key);
                assert(raw[k].0 == key);
            }
        },
    }
}

proof fn lemma_stored(
    raw: Seq<(Seq<char>, (u128, u128))>,
    limit: nat,
    key: Seq<char>,
    pair: (u128, u128),
    after: Seq<(Seq<char>, (u128, u128))>,
)
    requires
        model(raw, limit).well_formed(),
        stored(raw, limit, key, pair, after),
    ensures
        model(after, limit) == model(raw, limit).after_set(
            key,
            BalanceDetails { non_staked: pair.0, staked: pair.1 },
        ),
{
    let before = model(raw, limit);
    let balance = BalanceDetails { non_staked: pair.0, staked: pair.1 };
    if exists|i: int|
        0 <= i < raw.len() && (#[trigger] raw[i]).0 == key && after == raw.update(i, (key, pair)) {
        let i = choose|i: int|
            0 <= i < raw.len() && (#[trigger] raw[i]).0 == key && after == raw.update(
                i,
                (key, pair),
            );
        assert(before.entries[i].account_id == key);
        lemma_place_is_unique(before, i);
        assert(as_entries(after) =~= before.after_set(key, balance).entries);
    } else {
        if before.holds(key) {
            let k = before.place(key);
            assert(raw[k].0 == key);
        }
        assert(as_entries(after) =~= before.after_set(key, balance).entries);
    }
}

} // verus!
