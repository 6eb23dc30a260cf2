//! Caches of key encryption keys that are shared between files.

use vstd::prelude::*;

use crate::assoc_map::AssocMap;
use crate::text::same_text;

verus! {

/// The time at which something that starts at `now` and lasts for `lifetime` has expired.
pub open spec fn expiry(now: u128, lifetime: Option<u128>) -> Option<u128> {
    match lifetime {
        Some(nanos) => Some((now + nanos) as u128),
        None => None,
    }
}

/// Whether something has expired, where there is a time at which it does.
pub open spec fn has_passed(expires_at: Option<u128>, now: u128) -> bool {
    match expires_at {
        Some(time) => time <= now,
        None => false,
    }
}

/// Whether a time and a lifetime are small enough to be added.
pub open spec fn addable(now: u128, lifetime: Option<u128>) -> bool {
    match lifetime {
        Some(nanos) => now + nanos <= u128::MAX,
        None => true,
    }
}

/// Finds the time at which something has expired.
pub(crate) fn expiry_time(now: u128, lifetime: Option<u128>) -> (r: Option<u128>)
    requires
        addable(now, lifetime),
    ensures
        r == expiry(now, lifetime),
{
    match lifetime {
        Some(nanos) => Some(now + nanos),
        None => None,
    }
}

/// Finds whether something has expired.
pub(crate) fn is_past(expires_at: Option<u128>, now: u128) -> (r: bool)
    ensures
        r == has_passed(expires_at, now),
{
    match expires_at {
        Some(time) => time <= now,
        None => false,
    }
}

/// One cache: the access token that it was made for, whether new holders may still share it, when
/// that ends, how many hold it, and the keys in it.
#[verifier::reject_recursive_types(T)]
pub struct CacheModel<T> {
    pub token: Seq<char>,
    pub shared: bool,
    pub expires_at: Option<u128>,
    pub holders: nat,
    pub keys: Map<Seq<char>, T>,
}

/// The caches by their handles.
pub type CachesModel<T> = Seq<Option<CacheModel<T>>>;

/// What is left of a cache once the caches that have expired are not shared any more, and those
/// that are neither shared nor held are gone.
pub open spec fn settled<T>(cache: Option<CacheModel<T>>, now: u128) -> Option<CacheModel<T>> {
    match cache {
        Some(c) => {
            let shared = c.shared && !has_passed(c.expires_at, now);
            if shared || c.holders > 0 {
                Some(CacheModel { shared, ..c })
            } else {
                None
            }
        },
        None => None,
    }
}

/// What is left of all caches.
pub open spec fn all_settled<T>(caches: CachesModel<T>, now: u128) -> CachesModel<T> {
    caches.map_values(|cache: Option<CacheModel<T>>| settled(cache, now))
}

/// Whether a handle is of a cache that is shared for an access token.
pub open spec fn shared_for<T>(caches: CachesModel<T>, handle: int, token: Seq<char>) -> bool {
    0 <= handle < caches.len() && (caches[handle] matches Some(c) && c.shared && c.token == token)
}

/// Whether at most one cache is shared for each access token.
pub open spec fn one_shared_per_token<T>(caches: CachesModel<T>) -> bool {
    forall|i: int, j: int, token: Seq<char>| #[trigger]
        shared_for(caches, i, token) && #[trigger] shared_for(caches, j, token) ==> i == j
}

/// The number of holders after one more, which stays at the largest number that can be counted.
pub open spec fn one_more(holders: nat) -> nat {
    if holders < u64::MAX {
        holders + 1
    } else {
        holders
    }
}

/// The number of holders after one left. A number that could not be counted any further stays.
pub open spec fn one_less(holders: nat) -> nat {
    if 0 < holders < u64::MAX {
        (holders - 1) as nat
    } else {
        holders
    }
}

/// Whether acquiring a cache for an access token can give a handle: that of the cache that is
/// shared for the token, or that of a new one.
pub open spec fn acquires<T>(
    before: CachesModel<T>,
    after: CachesModel<T>,
    token: Seq<char>,
    lifetime: Option<u128>,
    now: u128,
    handle: int,
) -> bool {
    let caches = all_settled(before, now);
    if exists|i: int| shared_for(caches, i, token) {
        &&& shared_for(caches, handle, token)
        &&& after == caches.update(
            handle,
            Some(
                CacheModel {
                    holders: one_more(caches[handle]->0.holders),
                    ..caches[handle]->0
                },
            ),
        )
    } else {
        let added = Some(
            CacheModel {
                token,
                shared: true,
                expires_at: expiry(now, lifetime),
                holders: 1,
                keys: Map::empty(),
            },
        );
        &&& 0 <= handle <= caches.len()
        &&& if handle < caches.len() {
            caches[handle] is None && after == caches.update(handle, added)
        } else {
            after == caches.push(added)
        }
    }
}

/// The caches after a holder of one left.
pub open spec fn released<T>(caches: CachesModel<T>, handle: int) -> CachesModel<T> {
    if 0 <= handle < caches.len() && caches[handle] is Some {
        let cache = caches[handle]->0;
        let left = CacheModel { holders: one_less(cache.holders), ..cache };
        caches.update(
            handle,
            if left.shared || left.holders > 0 {
                Some(left)
            } else {
                None
            },
        )
    } else {
        caches
    }
}

/// The keys in a cache.
pub open spec fn keys_of<T>(caches: CachesModel<T>, handle: int) -> Map<Seq<char>, T> {
    if 0 <= handle < caches.len() && caches[handle] is Some {
        caches[handle]->0.keys
    } else {
        Map::empty()
    }
}

/// The caches with one more key in one of them.
pub open spec fn stored<T>(
    caches: CachesModel<T>,
    handle: int,
    key: Seq<char>,
    value: T,
) -> CachesModel<T> {
    if 0 <= handle < caches.len() && caches[handle] is Some {
        let cache = caches[handle]->0;
        caches.update(handle, Some(CacheModel { keys: cache.keys.insert(key, value), ..cache }))
    } else {
        caches
    }
}

/// Whether a cache is held.
pub open spec fn is_held<T>(caches: CachesModel<T>, handle: int) -> bool {
    0 <= handle < caches.len() && (caches[handle] matches Some(c) && c.holders > 0)
}

/// The number of caches that are shared.
pub open spec fn count_shared<T>(caches: CachesModel<T>) -> nat
    decreases caches.len(),
{
    if caches.len() == 0 {
        0
    } else {
        count_shared(caches.drop_last()) + (if caches.last() matches Some(c) && c.shared {
            1nat
        } else {
            0nat
        })
    }
}

/// A cache that was acquired is held.
pub proof fn law_acquired_cache_is_held<T>(
    before: CachesModel<T>,
    after: CachesModel<T>,
    token: Seq<char>,
    lifetime: Option<u128>,
    now: u128,
    handle: int,
)
    requires
        acquires(before, after, token, lifetime, now, handle),
    ensures
        is_held(after, handle),
        after[handle]->0.token == token,
{
}

/// A cache that is held keeps its keys while others acquire caches, whether or not it has expired,
/// and stays held.
pub proof fn law_held_cache_survives_acquisition<T>(
    before: CachesModel<T>,
    after: CachesModel<T>,
    token: Seq<char>,
    lifetime: Option<u128>,
    now: u128,
    handle: int,
    held: int,
)
    requires
        acquires(before, after, token, lifetime, now, handle),
        is_held(before, held),
    ensures
        is_held(after, held),
        keys_of(after, held) == keys_of(before, held),
{
    let caches = all_settled(before, now);
    assert(caches[held] == settled(before[held], now));
}

/// A holder of a cache keeps it while another holder leaves, as long as the holders can be counted.
pub proof fn law_held_cache_survives_release<T>(
    caches: CachesModel<T>,
    released_handle: int,
    held: int,
)
    requires
        is_held(caches, held),
        held == released_handle ==> caches[held]->0.holders > 1,
    ensures
        is_held(released(caches, released_handle), held),
        keys_of(released(caches, released_handle), held) == keys_of(caches, held),
{
}

/// Acquiring a cache leaves at most one cache that is shared for each access token.
pub proof fn law_acquisition_keeps_one_shared<T>(
    before: CachesModel<T>,
    after: CachesModel<T>,
    token: Seq<char>,
    lifetime: Option<u128>,
    now: u128,
    handle: int,
)
    requires
        one_shared_per_token(before),
        acquires(before, after, token, lifetime, now, handle),
    ensures
        one_shared_per_token(after),
        shared_for(after, handle, token),
{
    let caches = all_settled(before, now);
    lemma_settled_shares_less(before, now);
    if exists|i: int| shared_for(caches, i, token) {
        lemma_same_sharing(caches, handle, after[handle]);
    } else {
        lemma_new_sharing(caches, after, handle, token);
    }
}

/// Until a shared cache expires, acquiring a cache for its access token gives this cache.
pub proof fn law_cache_is_shared_until_it_expires<T>(
    before: CachesModel<T>,
    after: CachesModel<T>,
    token: Seq<char>,
    lifetime: Option<u128>,
    now: u128,
    handle: int,
    shared: int,
)
    requires
        one_shared_per_token(before),
        shared_for(before, shared, token),
        !has_passed(before[shared]->0.expires_at, now),
        acquires(before, after, token, lifetime, now, handle),
    ensures
        handle == shared,
        keys_of(after, handle) == keys_of(before, shared),
{
    let caches = all_settled(before, now);
    assert(caches[shared] == settled(before[shared], now));
    assert(shared_for(caches, shared, token));
    assert(caches[handle] == settled(before[handle], now));
    assert(shared_for(before, handle, token));
}

/// Once the caches for an access token have expired, acquiring a cache for it gives a new, empty
/// one.
pub proof fn law_expired_cache_is_not_shared<T>(
    before: CachesModel<T>,
    after: CachesModel<T>,
    token: Seq<char>,
    lifetime: Option<u128>,
    now: u128,
    handle: int,
)
    requires
        forall|i: int| #[trigger]
            shared_for(before, i, token) ==> has_passed(before[i]->0.expires_at, now),
        acquires(before, after, token, lifetime, now, handle),
    ensures
        keys_of(after, handle) == Map::<Seq<char>, T>::empty(),
        handle < before.len() ==> settled(before[handle], now) is None,
{
    let caches = all_settled(before, now);
    assert forall|i: int| !shared_for(caches, i, token) by {
        if 0 <= i < caches.len() {
            assert(caches[i] == settled(before[i], now));
            if shared_for(caches, i, token) {
                assert(shared_for(before, i, token));
            }
        }
    }
    if handle < before.len() {
        assert(caches[handle] == settled(before[handle], now));
    }
}

struct Cache<T> {
    token: String,
    shared: bool,
    expires_at: Option<u128>,
    holders: u64,
    keys: AssocMap<String, T>,
}

impl<T> View for Cache<T> {
    type V = CacheModel<T>;

    closed spec fn view(&self) -> CacheModel<T> {
        CacheModel {
            token: self.token@,
            shared: self.shared,
            expires_at: self.expires_at,
            holders: self.holders as nat,
            keys: self.keys@,
        }
    }
}

spec fn model_of<T>(cache: Option<Cache<T>>) -> Option<CacheModel<T>> {
    match cache {
        Some(c) => Some(c@),
        None => None,
    }
}

spec fn models_of<T>(caches: Seq<Option<Cache<T>>>) -> CachesModel<T> {
    caches.map_values(|cache: Option<Cache<T>>| model_of(cache))
}

/// Caches of key encryption keys. Those who use the same access token share a cache until it
/// expires, and keep using the cache for as long as they hold it.
pub struct KekCaches<T> {
    caches: Vec<Option<Cache<T>>>,
}

impl<T> View for KekCaches<T> {
    type V = CachesModel<T>;

    closed spec fn view(&self) -> CachesModel<T> {
        models_of(self.caches@)
    }
}

fn settle<T>(cache: Option<Cache<T>>, now: u128) -> (r: Option<Cache<T>>)
    ensures
        model_of(r) == settled(model_of(cache), now),
{
    match cache {
        Some(c) => {
            let shared = c.shared && !is_past(c.expires_at, now);
            if shared || c.holders > 0 {
                Some(Cache { shared, ..c })
            } else {
                None
            }
        },
        None => None,
    }
}

fn settle_all<T>(caches: &mut Vec<Option<Cache<T>>>, now: u128)
    ensures
        models_of(final(caches)@) == all_settled(models_of(old(caches)@), now),
{
    let ghost before = models_of(caches@);
    let count: usize = caches.len();
    for i in 0..count
        invariant
            caches@.len() == count,
            before.len() == count,
            forall|j: int|
                0 <= j < i ==> (#[trigger] models_of(caches@)[j]) == settled(before[j], now),
            forall|j: int| i <= j < count ==> (#[trigger] models_of(caches@)[j]) == before[j],
    {
        let ghost unsettled = models_of(caches@);
        assert(unsettled[i as int] == before[i as int]);
        let mut cache: Option<Cache<T>> = None;
        std::mem::swap(&mut cache, &mut caches[i]);
        let cache = settle(cache, now);
        let ghost replaced = model_of(cache);
        caches.set(i, cache);
        assert(models_of(caches@) =~= unsettled.update(i as int, replaced));
    }
    assert(models_of(caches@) =~= all_settled(before, now));
}

proof fn lemma_settled_shares_less<T>(caches: CachesModel<T>, now: u128)
    requires
        one_shared_per_token(caches),
    ensures
        one_shared_per_token(all_settled(caches, now)),
{
    let after = all_settled(caches, now);
    assert forall|i: int, j: int, token: Seq<char>| #[trigger]
        shared_for(after, i, token) && #[trigger] shared_for(after, j, token) implies i == j by {
        assert(after[i] == settled(caches[i], now));
        assert(after[j] == settled(caches[j], now));
        assert(shared_for(caches, i, token) && shared_for(caches, j, token));
    }
}

impl<T> KekCaches<T> {
    #[verifier::type_invariant]
    spec fn inv(self) -> bool {
        one_shared_per_token(self@)
    }

    /// Starts without any caches.
    pub fn new() -> (r: Self)
        ensures
            r@ == CachesModel::<T>::empty(),
    {
        let r = KekCaches { caches: Vec::new() };
        assert(r@ =~= CachesModel::<T>::empty());
        r
    }

    /// Finds or makes the cache for an access token, and holds it.
    pub fn acquire(&mut self, token: &str, lifetime: Option<u128>, now: u128) -> (handle: usize)
        requires
            addable(now, lifetime),
        ensures
            acquires(old(self)@, final(self)@, token@, lifetime, now, handle as int),
            one_shared_per_token(old(self)@),
            one_shared_per_token(final(self)@),
    {
        proof {
            use_type_invariant(&*self);
        }
        let mut caches: Vec<Option<Cache<T>>> = Vec::new();
        std::mem::swap(&mut caches, &mut self.caches);
        let ghost before = models_of(caches@);
        settle_all(&mut caches, now);
        let ghost left = models_of(caches@);
        proof {
            lemma_settled_shares_less(before, now);
        }
        let count: usize = caches.len();
        let mut free: usize = count;
        for i in 0..count
            invariant
                count == caches@.len(),
                left == models_of(caches@),
                left == all_settled(before, now),
                one_shared_per_token(before),
                one_shared_per_token(left),
                old(self)@ == before,
                self.caches@.len() == 0,
                free <= count,
                free < count ==> left[free as int] is None,
                forall|j: int| 0 <= j < i ==> !(#[trigger] shared_for(left, j, token@)),
        {
            assert(left[i as int] == model_of(caches@[i as int]));
            let mut cache: Option<Cache<T>> = None;
            std::mem::swap(&mut cache, &mut caches[i]);
            match cache {
                Some(c) => {
                    if c.shared && same_text(c.token.as_str(), token) {
                        assert(shared_for(left, i as int, token@));
                        let holders: u64 = if c.holders < u64::MAX {
                            c.holders + 1
                        } else {
                            c.holders
                        };
                        let held = Some(Cache { holders, ..c });
                        let ghost replaced = model_of(held);
                        caches.set(i, held);
                        proof {
                            assert(models_of(caches@) =~= left.update(i as int, replaced));
                            lemma_same_sharing(left, i as int, replaced);
                        }
                        self.caches = caches;
                        return i;
                    }
                    caches.set(i, Some(c));
                },
                None => {
                    free = i;
                },
            }
            assert(models_of(caches@) =~= left);
        }
        let added = Some(
            Cache {
                token: token.to_owned(),
                shared: true,
                expires_at: expiry_time(now, lifetime),
                holders: 1,
                keys: AssocMap::new(),
            },
        );
        let ghost replaced = model_of(added);
        assert(forall|j: int| !(#[trigger] shared_for(left, j, token@)));
        if free < count {
            caches.set(free, added);
            proof {
                assert(models_of(caches@) =~= left.update(free as int, replaced));
                lemma_new_sharing(left, left.update(free as int, replaced), free as int, token@);
            }
        } else {
            caches.push(added);
            proof {
                assert(models_of(caches@) =~= left.push(replaced));
                lemma_new_sharing(left, left.push(replaced), free as int, token@);
            }
        }
        self.caches = caches;
        free
    }

    /// Lets go of a cache that was acquired.
    pub fn release(&mut self, handle: usize)
        ensures
            final(self)@ == released(old(self)@, handle as int),
            one_shared_per_token(final(self)@),
    {
        proof {
            use_type_invariant(&*self);
        }
        let mut caches: Vec<Option<Cache<T>>> = Vec::new();
        std::mem::swap(&mut caches, &mut self.caches);
        let ghost before = models_of(caches@);
        if handle < caches.len() {
            let mut cache: Option<Cache<T>> = None;
            std::mem::swap(&mut cache, &mut caches[handle]);
            assert(before[handle as int] == model_of(cache));
            if let Some(c) = cache {
                let holders: u64 = if 0 < c.holders && c.holders < u64::MAX {
                    c.holders - 1
                } else {
                    c.holders
                };
                if c.shared || holders > 0 {
                    caches.set(handle, Some(Cache { holders, ..c }));
                }
            }
        }
        proof {
            assert(models_of(caches@) =~= released(before, handle as int));
            if handle < before.len() && before[handle as int] is Some {
                lemma_same_sharing(
                    before,
                    handle as int,
                    released(before, handle as int)[handle as int],
                );
            }
        }
        self.caches = caches;
    }

    /// Finds a key in a cache.
    pub fn get(&self, handle: usize, key: &str) -> (r: Option<&T>)
        ensures
            match r {
                Some(value) => keys_of(self@, handle as int).contains_key(key@) && *value
                    == keys_of(self@, handle as int)[key@],
                None => !keys_of(self@, handle as int).contains_key(key@),
            },
    {
        if handle < self.caches.len() {
            assert(self@[handle as int] == model_of(self.caches@[handle as int]));
            match &self.caches[handle] {
                Some(c) => c.keys.get(&key.to_owned()),
                None => None,
            }
        } else {
            None
        }
    }

    /// Stores a key in a cache.
    pub fn put(&mut self, handle: usize, key: String, value: T)
        ensures
            final(self)@ == stored(old(self)@, handle as int, key@, value),
            one_shared_per_token(final(self)@),
    {
        proof {
            use_type_invariant(&*self);
        }
        let mut caches: Vec<Option<Cache<T>>> = Vec::new();
        std::mem::swap(&mut caches, &mut self.caches);
        let ghost before = models_of(caches@);
        let ghost added = (key@, value);
        if handle < caches.len() {
            let mut cache: Option<Cache<T>> = None;
            std::mem::swap(&mut cache, &mut caches[handle]);
            assert(before[handle as int] == model_of(cache));
            if let Some(c) = cache {
                let mut c = c;
                c.keys.insert(key, value);
                caches.set(handle, Some(c));
            }
        }
        proof {
            assert(models_of(caches@) =~= stored(before, handle as int, added.0, added.1));
            if handle < before.len() && before[handle as int] is Some {
                lemma_same_sharing(
                    before,
                    handle as int,
                    stored(before, handle as int, added.0, added.1)[handle as int],
                );
            }
        }
        self.caches = caches;
    }

    /// The number of caches that are shared.
    pub fn shared_count(&self) -> (n: usize)
        ensures
            n == count_shared(self@),
    {
        let mut n: usize = 0;
        assert(self@.take(0) =~= CachesModel::<T>::empty());
        for i in 0..self.caches.len()
            invariant
                n <= i,
                n == count_shared(self@.take(i as int)),
        {
            assert(self@.take(i + 1).drop_last() =~= self@.take(i as int));
            assert(self@[i as int] == model_of(self.caches@[i as int]));
            if let Some(c) = &self.caches[i] {
                if c.shared {
                    n = n + 1;
                }
            }
        }
        assert(self@.take(self@.len() as int) =~= self@);
        n
    }
}

/// Where nothing is shared that was not shared before, at most one cache is shared for each token.
pub(crate) proof fn lemma_shared_as_before<T>(before: CachesModel<T>, after: CachesModel<T>)
    requires
        one_shared_per_token(before),
        after.len() == before.len(),
        forall|i: int|
            0 <= i < after.len() ==> ((#[trigger] after[i]) matches Some(c) ==> before[i] matches Some(
                was,
            ) && (c.shared ==> was.shared) && c.token == was.token),
    ensures
        one_shared_per_token(after),
{
    assert forall|i: int, j: int, token: Seq<char>| #[trigger]
        shared_for(after, i, token) && #[trigger] shared_for(after, j, token) implies i == j by {
        assert(shared_for(before, i, token) && shared_for(before, j, token));
    }
}

proof fn lemma_same_sharing<T>(
    caches: CachesModel<T>,
    handle: int,
    replaced: Option<CacheModel<T>>,
)
    requires
        one_shared_per_token(caches),
        0 <= handle < caches.len(),
        caches[handle] is Some,
        replaced matches Some(c) ==> c.shared == caches[handle]->0.shared && c.token
            == caches[handle]->0.token,
    ensures
        one_shared_per_token(caches.update(handle, replaced)),
{
    let after = caches.update(handle, replaced);
    assert forall|i: int, j: int, token: Seq<char>| #[trigger]
        shared_for(after, i, token) && #[trigger] shared_for(after, j, token) implies i == j by {
        assert(shared_for(caches, i, token) && shared_for(caches, j, token));
    }
}

proof fn lemma_new_sharing<T>(
    caches: CachesModel<T>,
    after: CachesModel<T>,
    handle: int,
    token: Seq<char>,
)
    requires
        one_shared_per_token(caches),
        forall|i: int| !(#[trigger] shared_for(caches, i, token)),
        0 <= handle < after.len(),
        after[handle] matches Some(c) && c.token == token,
        forall|i: int| 0 <= i < after.len() && i != handle ==> i < caches.len() && after[i] == caches[i],
    ensures
        one_shared_per_token(after),
{
    assert forall|i: int, j: int, t: Seq<char>| #[trigger]
        shared_for(after, i, t) && #[trigger] shared_for(after, j, t) implies i == j by {
        if i != handle {
            assert(shared_for(caches, i, t));
        }
        if j != handle {
            assert(shared_for(caches, j, t));
        }
    }
}

/// A cache that is made for an access token is used again for this access token until its lifetime
/// is over, and is not used again after that.
pub proof fn law_lifetime_of_a_new_cache<T>(
    before: CachesModel<T>,
    between: CachesModel<T>,
    after: CachesModel<T>,
    token: Seq<char>,
    lifetime: Option<u128>,
    now: u128,
    handle: int,
    later_lifetime: Option<u128>,
    later: u128,
    later_handle: int,
)
    requires
        forall|i: int| !(#[trigger] shared_for(before, i, token)),
        one_shared_per_token(before),
        acquires(before, between, token, lifetime, now, handle),
        acquires(between, after, token, later_lifetime, later, later_handle),
        lifetime matches Some(nanos) ==> now + nanos <= u128::MAX,
    ensures
        keys_of(between, handle) == Map::<Seq<char>, T>::empty(),
        (later_handle == handle) == (lifetime matches Some(nanos) ==> later < now + nanos),
        later_handle != handle ==> keys_of(after, later_handle) == Map::<Seq<char>, T>::empty(),
{
    let settled_before = all_settled(before, now);
    assert forall|i: int| !(#[trigger] shared_for(settled_before, i, token)) by {
        if 0 <= i < before.len() {
            assert(settled_before[i] == settled(before[i], now));
            assert(!shared_for(before, i, token));
        }
    }
    law_acquisition_keeps_one_shared(before, between, token, lifetime, now, handle);
    assert(between[handle]->0.expires_at == expiry(now, lifetime));
    if has_passed(between[handle]->0.expires_at, later) {
        assert forall|i: int| #[trigger] shared_for(between, i, token) implies has_passed(
            between[i]->0.expires_at,
            later,
        ) by {
            assert(i == handle);
        }
        law_expired_cache_is_not_shared(
            between,
            after,
            token,
            later_lifetime,
            later,
            later_handle,
        );
        assert(settled(between[handle], later) is Some);
    } else {
        law_cache_is_shared_until_it_expires(
            between,
            after,
            token,
            later_lifetime,
            later,
            later_handle,
            handle,
        );
    }
}

/// Caches are not shared between access tokens: one that is held for an access token is not the one
/// that is acquired for another.
pub proof fn law_other_tokens_get_other_caches<T>(
    before: CachesModel<T>,
    after: CachesModel<T>,
    token: Seq<char>,
    lifetime: Option<u128>,
    now: u128,
    handle: int,
    held: int,
)
    requires
        acquires(before, after, token, lifetime, now, handle),
        is_held(before, held),
        before[held]->0.token != token,
    ensures
        handle != held,
        after[held]->0.token == before[held]->0.token,
        keys_of(after, held) == keys_of(before, held),
{
    let caches = all_settled(before, now);
    assert(caches[held] == settled(before[held], now));
    if 0 <= handle < before.len() {
        assert(caches[handle] == settled(before[handle], now));
    }
}

/// A key that was put into a cache is found there, and nothing else changes in any cache.
pub proof fn law_stored_key_is_found<T>(
    caches: CachesModel<T>,
    handle: int,
    key: Seq<char>,
    value: T,
)
    requires
        0 <= handle < caches.len(),
        caches[handle] is Some,
    ensures
        keys_of(stored(caches, handle, key, value), handle) == keys_of(caches, handle).insert(
            key,
            value,
        ),
        stored(caches, handle, key, value).len() == caches.len(),
        forall|i: int|
            0 <= i < caches.len() && i != handle ==> #[trigger] stored(caches, handle, key, value)[i]
                == caches[i],
        stored(caches, handle, key, value)[handle]->0.token == caches[handle]->0.token,
        stored(caches, handle, key, value)[handle]->0.shared == caches[handle]->0.shared,
        stored(caches, handle, key, value)[handle]->0.expires_at == caches[handle]->0.expires_at,
        stored(caches, handle, key, value)[handle]->0.holders == caches[handle]->0.holders,
{
}

/// When the last holder of a cache lets go of it, the cache is gone if it is not shared any more,
/// and is kept for others if it is. Other caches stay as they are.
pub proof fn law_last_release<T>(caches: CachesModel<T>, handle: int)
    requires
        0 <= handle < caches.len(),
        caches[handle] is Some,
        caches[handle]->0.holders == 1,
    ensures
        caches[handle]->0.shared ==> keys_of(released(caches, handle), handle) == keys_of(
            caches,
            handle,
        ) && !is_held(released(caches, handle), handle),
        !caches[handle]->0.shared ==> released(caches, handle)[handle] is None,
        released(caches, handle).len() == caches.len(),
        forall|i: int|
            0 <= i < caches.len() && i != handle ==> #[trigger] released(caches, handle)[i]
                == caches[i],
{
}

/// The number of shared caches is one more with one more shared cache, and is not changed by others.
pub proof fn law_shared_caches_are_counted<T>(
    caches: CachesModel<T>,
    added: Option<CacheModel<T>>,
)
    ensures
        count_shared(CachesModel::<T>::empty()) == 0,
        count_shared(caches.push(added)) == count_shared(caches) + (if added is Some
            && added->0.shared {
            1nat
        } else {
            0nat
        }),
{
    assert(caches.push(added).drop_last() =~= caches);
}

/// The number of holders of a cache; one that there is not has none.
pub open spec fn holders_of<T>(caches: CachesModel<T>, handle: int) -> nat {
    if 0 <= handle < caches.len() && caches[handle] is Some {
        caches[handle]->0.holders
    } else {
        0
    }
}

/// Acquiring a cache adds one holder to it and changes the number of holders of no other, as long
/// as the holders can be counted. Letting go of it takes this holder away.
pub proof fn law_release_undoes_acquisition<T>(
    before: CachesModel<T>,
    after: CachesModel<T>,
    token: Seq<char>,
    lifetime: Option<u128>,
    now: u128,
    handle: int,
    other: int,
)
    requires
        acquires(before, after, token, lifetime, now, handle),
        holders_of(before, handle) < u64::MAX - 1,
    ensures
        holders_of(after, handle) == holders_of(before, handle) + 1,
        other != handle ==> holders_of(after, other) == holders_of(before, other),
        holders_of(released(after, handle), other) == holders_of(before, other),
{
    let caches = all_settled(before, now);
    if 0 <= handle < before.len() {
        assert(caches[handle] == settled(before[handle], now));
    }
    if 0 <= other < before.len() {
        assert(caches[other] == settled(before[other], now));
    }
}

/// Once a cache was acquired, there are no caches left that are neither held nor shared, and none
/// is shared that has expired, but for the one that was acquired.
pub proof fn law_only_live_caches_are_left<T>(
    before: CachesModel<T>,
    after: CachesModel<T>,
    token: Seq<char>,
    lifetime: Option<u128>,
    now: u128,
    handle: int,
    other: int,
)
    requires
        acquires(before, after, token, lifetime, now, handle),
        0 <= other < after.len(),
        other != handle,
        after[other] is Some,
    ensures
        after[other]->0.holders > 0 || after[other]->0.shared,
        after[other]->0.shared ==> (after[other]->0.expires_at matches Some(time) ==> now < time),
        other < before.len() && before[other] is Some,
        after[other]->0.token == before[other]->0.token,
        after[other]->0.keys == before[other]->0.keys,
        after[other]->0.expires_at == before[other]->0.expires_at,
        after[other]->0.shared == (before[other]->0.shared && (
        before[other]->0.expires_at matches Some(time) ==> now < time)),
{
    let caches = all_settled(before, now);
    assert(caches[other] == settled(before[other], now));
}

/// A cache that is acquired for an access token for which none is shared is new.
pub(crate) proof fn lemma_new_cache_starts<T>(
    before: CachesModel<T>,
    after: CachesModel<T>,
    token: Seq<char>,
    lifetime: Option<u128>,
    now: u128,
    handle: int,
)
    requires
        acquires(before, after, token, lifetime, now, handle),
    ensures
        (forall|i: int| !(#[trigger] shared_for(before, i, token))) ==> keys_of(after, handle)
            == Map::<Seq<char>, T>::empty() && after[handle]->0.expires_at == expiry(now, lifetime)
            && shared_for(after, handle, token),
{
    let caches = all_settled(before, now);
    if forall|i: int| !(#[trigger] shared_for(before, i, token)) {
        assert forall|i: int| !(#[trigger] shared_for(caches, i, token)) by {
            if 0 <= i < before.len() {
                assert(caches[i] == settled(before[i], now));
                assert(!shared_for(before, i, token));
            }
        }
    }
}

/// Whether a cache is the same in two states, except for the keys in it.
pub open spec fn same_but_keys<T>(
    before: CachesModel<T>,
    after: CachesModel<T>,
    handle: int,
) -> bool {
    &&& after.len() == before.len()
    &&& 0 <= handle < before.len() ==> match before[handle] {
        Some(c) => after[handle] is Some && after[handle]->0 == (CacheModel {
            keys: after[handle]->0.keys,
            ..c
        }),
        None => after[handle] is None,
    }
}

} // verus!
