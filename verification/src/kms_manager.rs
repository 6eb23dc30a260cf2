//! Creation and caching of KMS clients, and caching of key encryption keys.

use ring::error::Unspecified;
use std::sync::Arc;
use std::time::Duration;
use vstd::prelude::*;

use crate::assoc_map::AssocMap;
use crate::assoc_map::Expiring;
use crate::assoc_map::Key;
use crate::assoc_map::unexpired;
use crate::crypto::Generator;
use crate::crypto::KEY_LENGTH;
use crate::crypto::base64_decoded;
use crate::crypto::base64_text;
use crate::crypto::draw_failed;
use crate::crypto::drawn;
use crate::crypto::well_decoded;
use crate::error::Error;
use crate::error::ErrorModel;
use crate::kek_caches::CachesModel;
use crate::kek_caches::KekCaches;
use crate::kek_caches::acquires;
use crate::kek_caches::addable;
use crate::kek_caches::count_shared;
use crate::kek_caches::expiry;
use crate::kek_caches::expiry_time;
use crate::kek_caches::has_passed;
use crate::kek_caches::is_past;
use crate::kek_caches::keys_of;
use crate::kek_caches::one_shared_per_token;
use crate::kek_caches::released;
use crate::kek_caches::stored;
use crate::kms::ConfigModel;
use crate::kms::KmsClientFactory;
use crate::kms::KmsConnectionConfig;
use crate::kms::creates;
use crate::kms::is_client;
use crate::kms::wraps;
use crate::text::same_text;
use crate::time::duration_nanos;
use crate::time::lifetime_in_nanos;
use crate::time::lifetime_nanos;

verus! {

/// A key encryption key, with its identifier and its form wrapped by the KMS.
pub struct KeyEncryptionKey {
    pub key_id: Vec<u8>,
    pub encoded_key_id: String,
    pub key: Vec<u8>,
    pub wrapped_key: String,
}

/// What a [`KeyEncryptionKey`] holds.
pub struct KekModel {
    pub key_id: Seq<u8>,
    pub encoded_key_id: Seq<char>,
    pub key: Seq<u8>,
    pub wrapped_key: Seq<char>,
}

impl View for KeyEncryptionKey {
    type V = KekModel;

    open spec fn view(&self) -> KekModel {
        KekModel {
            key_id: self.key_id@,
            encoded_key_id: self.encoded_key_id@,
            key: self.key@,
            wrapped_key: self.wrapped_key@,
        }
    }
}

/// Whether a key encryption key was wrapped with a master key by a client of the factory, and its
/// identifier is encoded.
pub open spec fn sound_kek<F: KmsClientFactory>(
    factory: F,
    master_key_id: Seq<char>,
    kek: KekModel,
) -> bool {
    &&& kek.key.len() == KEY_LENGTH
    &&& kek.key_id.len() == KEY_LENGTH
    &&& kek.encoded_key_id == base64_text(kek.key_id)
    &&& base64_decoded(kek.encoded_key_id) == well_decoded(kek.key_id)
    &&& exists|client: F::Client|
        is_client(factory, client) && #[trigger] wraps(
            client,
            kek.key,
            master_key_id,
            Ok::<Seq<char>, ErrorModel>(kek.wrapped_key),
        )
}

/// Identifies a KMS client: by the KMS instance and the access token.
pub struct ClientKey {
    kms_instance_id: String,
    key_access_token: String,
}

impl View for ClientKey {
    type V = (Seq<char>, Seq<char>);

    closed spec fn view(&self) -> (Seq<char>, Seq<char>) {
        (self.kms_instance_id@, self.key_access_token@)
    }
}

impl Key for ClientKey {
    fn same(&self, other: &Self) -> (r: bool) {
        same_text(self.kms_instance_id.as_str(), other.kms_instance_id.as_str()) && same_text(
            self.key_access_token.as_str(),
            other.key_access_token.as_str(),
        )
    }
}

impl ClientKey {
    fn new(config: &KmsConnectionConfig) -> (r: Self)
        ensures
            r@ == client_key(config@),
    {
        ClientKey {
            kms_instance_id: config.kms_instance_id().to_owned(),
            key_access_token: config.key_access_token().to_owned(),
        }
    }
}

/// What identifies the client for a configuration.
pub open spec fn client_key(config: ConfigModel) -> (Seq<char>, Seq<char>) {
    (config.kms_instance_id, config.key_access_token)
}

/// A KMS client and the time in nanoseconds at which it is not used any more.
pub struct CachedClient<C> {
    pub client: Arc<C>,
    pub expires_at: Option<u128>,
}

impl<C> Expiring for CachedClient<C> {
    open spec fn has_expired(&self, now: u128) -> bool {
        has_passed(self.expires_at, now)
    }

    fn is_expired(&self, now: u128) -> (r: bool) {
        is_past(self.expires_at, now)
    }
}

/// The state of a [`KmsManager`]: the factory for clients, the cached clients by KMS instance and
/// access token, the caches of unwrapped and of generated key encryption keys, and what the random
/// generator gave.
#[verifier::reject_recursive_types(F)]
pub struct ManagerModel<F: KmsClientFactory> {
    pub factory: F,
    pub clients: Map<(Seq<char>, Seq<char>), CachedClient<F::Client>>,
    pub read_caches: CachesModel<Vec<u8>>,
    pub write_caches: CachesModel<KeyEncryptionKey>,
    pub draws: Seq<Seq<u8>>,
}

/// The state after the random generator gave bytes.
pub open spec fn with_draw<F: KmsClientFactory>(
    manager: ManagerModel<F>,
    bytes: Seq<u8>,
) -> ManagerModel<F> {
    ManagerModel { draws: manager.draws.push(bytes), ..manager }
}

/// Whether asking for a client can have an outcome. A client that was created for the same KMS
/// instance and access token is reused until it expires. Otherwise the factory creates a client
/// for the configuration, which is kept. Either way it is a client of the factory.
pub open spec fn gets_client<F: KmsClientFactory>(
    before: ManagerModel<F>,
    after: ManagerModel<F>,
    config: ConfigModel,
    lifetime: Option<u128>,
    now: u128,
    outcome: Result<F::Client, ErrorModel>,
) -> bool {
    let clients = unexpired(before.clients, now);
    let key = client_key(config);
    &&& outcome matches Ok(client) ==> is_client(before.factory, client)
    &&& if clients.contains_key(key) {
        &&& outcome == Ok::<F::Client, ErrorModel>(*clients[key].client)
        &&& after == ManagerModel { clients, ..before }
    } else {
        &&& creates(before.factory, config, outcome)
        &&& match outcome {
            Ok(client) => exists|cached: CachedClient<F::Client>|
                *cached.client == client && cached.expires_at == expiry(now, lifetime) && after
                    == (ManagerModel { clients: #[trigger] clients.insert(key, cached), ..before }),
            Err(_) => after == ManagerModel { clients, ..before },
        }
    }
}

/// What asking for a client came to.
pub open spec fn shared_client_outcome<C>(r: Result<Arc<C>, Error>) -> Result<C, ErrorModel> {
    match r {
        Ok(client) => Ok(*client),
        Err(error) => Err(error@),
    }
}

/// The numbers of objects in the caches of a [`KmsManager`].
#[derive(Clone, Copy, Debug, PartialEq, Eq)]
pub struct CacheStats {
    pub num_kms_clients: usize,
    pub num_kek_read_caches: usize,
    pub num_kek_write_caches: usize,
}

/// Another reference to the same value: the clone of a reference-counted pointer in the standard
/// library refers to the same value.
#[verifier::external_body]
pub(crate) fn share<T>(pointer: &Arc<T>) -> (r: Arc<T>)
    ensures
        r == *pointer,
{
    pointer.clone()
}

/// Creates and caches KMS clients and caches key encryption keys.
pub struct KmsManager<F: KmsClientFactory> {
    factory: F,
    clients: AssocMap<ClientKey, CachedClient<F::Client>>,
    read_caches: KekCaches<Vec<u8>>,
    write_caches: KekCaches<KeyEncryptionKey>,
    generator: Generator,
}

impl<F: KmsClientFactory> View for KmsManager<F> {
    type V = ManagerModel<F>;

    closed spec fn view(&self) -> ManagerModel<F> {
        ManagerModel {
            factory: self.factory,
            clients: self.clients@,
            read_caches: self.read_caches@,
            write_caches: self.write_caches@,
            draws: self.generator@,
        }
    }
}

/// Whether the clients come from the factory.
pub open spec fn sound_clients<F: KmsClientFactory>(
    factory: F,
    clients: Map<(Seq<char>, Seq<char>), CachedClient<F::Client>>,
) -> bool {
    forall|key: (Seq<char>, Seq<char>)| #[trigger]
        clients.contains_key(key) ==> is_client(factory, *clients[key].client)
}

/// Whether the generated key encryption keys were wrapped by clients of the factory.
pub open spec fn sound_keks<F: KmsClientFactory>(
    factory: F,
    write_caches: CachesModel<KeyEncryptionKey>,
) -> bool {
    forall|handle: int, master_key_id: Seq<char>|
        #![trigger keys_of(write_caches, handle).contains_key(master_key_id)]
        keys_of(write_caches, handle).contains_key(master_key_id) ==> sound_kek(
            factory,
            master_key_id,
            keys_of(write_caches, handle)[master_key_id]@,
        )
}

impl<F: KmsClientFactory> KmsManager<F> {
    /// What is cached is sound, and at most one cache is shared for each access token.
    #[verifier::type_invariant]
    pub open spec fn inv(self) -> bool {
        &&& sound_clients(self@.factory, self@.clients)
        &&& sound_keks(self@.factory, self@.write_caches)
        &&& one_shared_per_token(self@.read_caches)
        &&& one_shared_per_token(self@.write_caches)
    }

    /// Starts with empty caches.
    pub fn new(kms_client_factory: F) -> (r: Self)
        ensures
            r@ == (ManagerModel {
                factory: kms_client_factory,
                clients: Map::empty(),
                read_caches: CachesModel::empty(),
                write_caches: CachesModel::empty(),
                draws: Seq::empty(),
            }),
    {
        KmsManager {
            factory: kms_client_factory,
            clients: AssocMap::new(),
            read_caches: KekCaches::new(),
            write_caches: KekCaches::new(),
            generator: Generator::new(),
        }
    }

    /// Draws random bytes.
    pub(crate) fn draw(&mut self, length: usize) -> (r: Result<Vec<u8>, Unspecified>)
        requires
            length <= isize::MAX,
        ensures
            match r {
                Ok(bytes) => {
                    &&& bytes@.len() == length
                    &&& drawn(bytes@, length)
                    &&& final(self)@ == with_draw(old(self)@, bytes@)
                },
                Err(_) => draw_failed(length) && final(self)@ == old(self)@,
            },
    {
        proof {
            use_type_invariant(&*self);
        }
        let mut generator = Generator::new();
        std::mem::swap(&mut generator, &mut self.generator);
        let r = generator.draw(length);
        self.generator = generator;
        r
    }

    /// Gets a client for a configuration, creating one where none is cached.
    pub fn get_client(
        &mut self,
        kms_connection_config: &KmsConnectionConfig,
        cache_lifetime: Option<Duration>,
        now: Duration,
    ) -> (r: Result<Arc<F::Client>, Error>)
        ensures
            gets_client(
                old(self)@,
                final(self)@,
                kms_connection_config@,
                lifetime_nanos(cache_lifetime),
                duration_nanos(now),
                shared_client_outcome(r),
            ),
    {
        proof {
            use_type_invariant(&*self);
        }
        let lifetime: Option<u128> = lifetime_in_nanos(cache_lifetime);
        let time: u128 = now.as_nanos();
        let key = ClientKey::new(kms_connection_config);
        let mut clients: AssocMap<ClientKey, CachedClient<F::Client>> = AssocMap::new();
        std::mem::swap(&mut clients, &mut self.clients);
        clients.evict(time);
        let ghost live = clients@;
        if let Some(cached) = clients.get(&key) {
            let client = share(&cached.client);
            self.clients = clients;
            return Ok(client);
        }
        let created = self.factory.create_client(kms_connection_config);
        proof {
            assert(creates(self.factory, kms_connection_config@, crate::kms::client_outcome(created)));
        }
        match created {
            Ok(client) => {
                let client = Arc::new(client);
                let cached = CachedClient {
                    client: share(&client),
                    expires_at: expiry_time(time, lifetime),
                };
                let ghost added = cached;
                clients.insert(key, cached);
                self.clients = clients;
                assert(self@ == ManagerModel {
                    clients: live.insert(client_key(kms_connection_config@), added),
                    ..old(self)@
                });
                Ok(client)
            },
            Err(e) => {
                self.clients = clients;
                Err(e)
            },
        }
    }

    /// Acquires the cache of unwrapped key encryption keys for the access token of a
    /// configuration.
    pub(crate) fn get_kek_read_cache(
        &mut self,
        kms_connection_config: &KmsConnectionConfig,
        cache_lifetime: Option<Duration>,
        now: Duration,
    ) -> (handle: usize)
        ensures
            acquires(
                old(self)@.read_caches,
                final(self)@.read_caches,
                kms_connection_config@.key_access_token,
                lifetime_nanos(cache_lifetime),
                duration_nanos(now),
                handle as int,
            ),
            final(self)@ == (ManagerModel {
                read_caches: final(self)@.read_caches,
                ..old(self)@
            }),
            one_shared_per_token(old(self)@.read_caches),
            one_shared_per_token(final(self)@.read_caches),
    {
        proof {
            use_type_invariant(&*self);
        }
        let lifetime: Option<u128> = lifetime_in_nanos(cache_lifetime);
        let time: u128 = now.as_nanos();
        let mut caches: KekCaches<Vec<u8>> = KekCaches::new();
        std::mem::swap(&mut caches, &mut self.read_caches);
        let handle = caches.acquire(kms_connection_config.key_access_token(), lifetime, time);
        self.read_caches = caches;
        handle
    }

    /// Acquires the cache of generated key encryption keys for the access token of a
    /// configuration.
    pub(crate) fn get_kek_write_cache(
        &mut self,
        kms_connection_config: &KmsConnectionConfig,
        cache_lifetime: Option<Duration>,
        now: Duration,
    ) -> (handle: usize)
        ensures
            acquires(
                old(self)@.write_caches,
                final(self)@.write_caches,
                kms_connection_config@.key_access_token,
                lifetime_nanos(cache_lifetime),
                duration_nanos(now),
                handle as int,
            ),
            final(self)@ == (ManagerModel {
                write_caches: final(self)@.write_caches,
                ..old(self)@
            }),
            one_shared_per_token(old(self)@.write_caches),
            one_shared_per_token(final(self)@.write_caches),
    {
        proof {
            use_type_invariant(&*self);
        }
        let lifetime: Option<u128> = lifetime_in_nanos(cache_lifetime);
        let time: u128 = now.as_nanos();
        let mut caches: KekCaches<KeyEncryptionKey> = KekCaches::new();
        std::mem::swap(&mut caches, &mut self.write_caches);
        let ghost before = caches@;
        let handle = caches.acquire(kms_connection_config.key_access_token(), lifetime, time);
        proof {
            lemma_acquired_keys(
                before,
                caches@,
                kms_connection_config@.key_access_token,
                lifetime,
                time,
                handle as int,
            );
            lemma_fewer_keks_are_sound(self.factory, before, caches@);
        }
        self.write_caches = caches;
        handle
    }

    /// Lets go of a cache of unwrapped key encryption keys.
    pub(crate) fn release_kek_read_cache(&mut self, handle: usize)
        ensures
            final(self)@ == (ManagerModel {
                read_caches: released(old(self)@.read_caches, handle as int),
                ..old(self)@
            }),
            one_shared_per_token(final(self)@.read_caches),
    {
        proof {
            use_type_invariant(&*self);
        }
        let mut caches: KekCaches<Vec<u8>> = KekCaches::new();
        std::mem::swap(&mut caches, &mut self.read_caches);
        caches.release(handle);
        self.read_caches = caches;
    }

    /// Lets go of a cache of generated key encryption keys.
    pub(crate) fn release_kek_write_cache(&mut self, handle: usize)
        ensures
            final(self)@ == (ManagerModel {
                write_caches: released(old(self)@.write_caches, handle as int),
                ..old(self)@
            }),
            one_shared_per_token(final(self)@.write_caches),
    {
        proof {
            use_type_invariant(&*self);
        }
        let mut caches: KekCaches<KeyEncryptionKey> = KekCaches::new();
        std::mem::swap(&mut caches, &mut self.write_caches);
        let ghost before = caches@;
        caches.release(handle);
        proof {
            lemma_fewer_keks_are_sound(self.factory, before, caches@);
        }
        self.write_caches = caches;
    }

    /// Finds an unwrapped key encryption key by its encoded identifier.
    pub(crate) fn get_read_kek(&self, handle: usize, kek_id: &str) -> (r: Option<&Vec<u8>>)
        ensures
            match r {
                Some(key) => keys_of(self@.read_caches, handle as int).contains_key(kek_id@)
                    && *key == keys_of(self@.read_caches, handle as int)[kek_id@],
                None => !keys_of(self@.read_caches, handle as int).contains_key(kek_id@),
            },
    {
        self.read_caches.get(handle, kek_id)
    }

    /// Keeps an unwrapped key encryption key.
    pub(crate) fn put_read_kek(&mut self, handle: usize, kek_id: String, key: Vec<u8>)
        ensures
            final(self)@ == (ManagerModel {
                read_caches: stored(old(self)@.read_caches, handle as int, kek_id@, key),
                ..old(self)@
            }),
    {
        proof {
            use_type_invariant(&*self);
        }
        let mut caches: KekCaches<Vec<u8>> = KekCaches::new();
        std::mem::swap(&mut caches, &mut self.read_caches);
        caches.put(handle, kek_id, key);
        self.read_caches = caches;
    }

    /// Finds the generated key encryption key for a master key, which a client of the factory
    /// wrapped.
    pub(crate) fn get_write_kek(&self, handle: usize, master_key_id: &str) -> (r: Option<
        &KeyEncryptionKey,
    >)
        ensures
            match r {
                Some(kek) => {
                    &&& keys_of(self@.write_caches, handle as int).contains_key(master_key_id@)
                    &&& *kek == keys_of(self@.write_caches, handle as int)[master_key_id@]
                    &&& sound_kek(self@.factory, master_key_id@, kek@)
                },
                None => !keys_of(self@.write_caches, handle as int).contains_key(master_key_id@),
            },
    {
        proof {
            use_type_invariant(self);
        }
        self.write_caches.get(handle, master_key_id)
    }

    /// Keeps a generated key encryption key for a master key, which a client of the factory
    /// wrapped.
    pub(crate) fn put_write_kek(&mut self, handle: usize, master_key_id: String, kek: KeyEncryptionKey)
        requires
            sound_kek(old(self)@.factory, master_key_id@, kek@),
        ensures
            final(self)@ == (ManagerModel {
                write_caches: stored(
                    old(self)@.write_caches,
                    handle as int,
                    master_key_id@,
                    kek,
                ),
                ..old(self)@
            }),
    {
        proof {
            use_type_invariant(&*self);
        }
        let mut caches: KekCaches<KeyEncryptionKey> = KekCaches::new();
        std::mem::swap(&mut caches, &mut self.write_caches);
        let ghost before = caches@;
        let ghost added = (master_key_id@, kek);
        caches.put(handle, master_key_id, kek);
        proof {
            assert forall|h: int, id: Seq<char>|
                #![trigger keys_of(caches@, h).contains_key(id)]
                keys_of(caches@, h).contains_key(id) implies sound_kek(
                self.factory,
                id,
                keys_of(caches@, h)[id]@,
            ) by {
                if !(h == handle && id == added.0) {
                    assert(keys_of(before, h).contains_key(id));
                }
            }
        }
        self.write_caches = caches;
    }

    /// The numbers of objects that are cached.
    pub fn cache_stats(&self) -> (r: CacheStats)
        ensures
            self@.clients.dom().finite(),
            r.num_kms_clients == self@.clients.len(),
            r.num_kek_read_caches == count_shared(self@.read_caches),
            r.num_kek_write_caches == count_shared(self@.write_caches),
            one_shared_per_token(self@.read_caches),
            one_shared_per_token(self@.write_caches),
    {
        proof {
            use_type_invariant(self);
        }
        CacheStats {
            num_kms_clients: self.clients.len(),
            num_kek_read_caches: self.read_caches.shared_count(),
            num_kek_write_caches: self.write_caches.shared_count(),
        }
    }
}

/// Whether each key in `after` is in the same cache of `before`.
spec fn has_fewer_keys<T>(before: CachesModel<T>, after: CachesModel<T>) -> bool {
    forall|handle: int, key: Seq<char>|
        #![trigger keys_of(after, handle).contains_key(key)]
        keys_of(after, handle).contains_key(key) ==> keys_of(before, handle).contains_key(key)
            && keys_of(after, handle)[key] == keys_of(before, handle)[key]
}

proof fn lemma_acquired_keys<T>(
    before: CachesModel<T>,
    after: CachesModel<T>,
    token: Seq<char>,
    lifetime: Option<u128>,
    now: u128,
    handle: int,
)
    requires
        acquires(before, after, token, lifetime, now, handle),
    ensures
        has_fewer_keys(before, after),
{
    let caches = crate::kek_caches::all_settled(before, now);
    assert forall|h: int, key: Seq<char>|
        #![trigger keys_of(after, h).contains_key(key)]
        keys_of(after, h).contains_key(key) implies keys_of(before, h).contains_key(key)
        && keys_of(after, h)[key] == keys_of(before, h)[key] by {
        if 0 <= h < caches.len() {
            assert(caches[h] == crate::kek_caches::settled(before[h], now));
        }
    }
}

proof fn lemma_fewer_keks_are_sound<F: KmsClientFactory>(
    factory: F,
    before: CachesModel<KeyEncryptionKey>,
    after: CachesModel<KeyEncryptionKey>,
)
    requires
        sound_keks(factory, before),
        has_fewer_keys(before, after),
    ensures
        sound_keks(factory, after),
{
}

/// A client that was created is used again for the same KMS instance and access token until its
/// lifetime is over.
pub proof fn law_client_is_reused_until_it_expires<F: KmsClientFactory>(
    before: ManagerModel<F>,
    between: ManagerModel<F>,
    after: ManagerModel<F>,
    config: ConfigModel,
    lifetime: Option<u128>,
    created_at: u128,
    client: F::Client,
    later_config: ConfigModel,
    later_lifetime: Option<u128>,
    now: u128,
    outcome: Result<F::Client, ErrorModel>,
)
    requires
        !unexpired(before.clients, created_at).contains_key(client_key(config)),
        gets_client(
            before,
            between,
            config,
            lifetime,
            created_at,
            Ok::<F::Client, ErrorModel>(client),
        ),
        client_key(later_config) == client_key(config),
        gets_client(between, after, later_config, later_lifetime, now, outcome),
        addable(created_at, lifetime),
        lifetime matches Some(nanos) ==> now < created_at + nanos,
    ensures
        outcome == Ok::<F::Client, ErrorModel>(client),
{
}

/// Once the lifetime of a client is over, the factory is asked for a new one.
pub proof fn law_client_is_replaced_once_it_expires<F: KmsClientFactory>(
    before: ManagerModel<F>,
    between: ManagerModel<F>,
    after: ManagerModel<F>,
    config: ConfigModel,
    nanos: u128,
    created_at: u128,
    client: F::Client,
    later_config: ConfigModel,
    later_lifetime: Option<u128>,
    now: u128,
    outcome: Result<F::Client, ErrorModel>,
)
    requires
        !unexpired(before.clients, created_at).contains_key(client_key(config)),
        gets_client(
            before,
            between,
            config,
            Some(nanos),
            created_at,
            Ok::<F::Client, ErrorModel>(client),
        ),
        client_key(later_config) == client_key(config),
        gets_client(between, after, later_config, later_lifetime, now, outcome),
        created_at + nanos <= now,
    ensures
        creates(before.factory, later_config, outcome),
{
}

/// A client that was cached for one access token or KMS instance is not used for another.
pub proof fn law_other_token_or_instance_gets_own_client<F: KmsClientFactory>(
    before: ManagerModel<F>,
    after: ManagerModel<F>,
    config: ConfigModel,
    lifetime: Option<u128>,
    now: u128,
    outcome: Result<F::Client, ErrorModel>,
)
    requires
        gets_client(before, after, config, lifetime, now, outcome),
        forall|key: (Seq<char>, Seq<char>)| #[trigger]
            before.clients.contains_key(key) ==> key.0 != config.kms_instance_id || key.1
                != config.key_access_token,
    ensures
        creates(before.factory, config, outcome),
{
}

/// A client is used again for any configuration with the same identifier of the KMS instance and
/// the same access token, whatever its URL and custom options are, and for no other.
pub proof fn law_clients_are_shared_by_instance_and_token<F: KmsClientFactory>(
    before: ManagerModel<F>,
    between: ManagerModel<F>,
    after: ManagerModel<F>,
    config: ConfigModel,
    lifetime: Option<u128>,
    created_at: u128,
    client: F::Client,
    later_config: ConfigModel,
    later_lifetime: Option<u128>,
    now: u128,
    outcome: Result<F::Client, ErrorModel>,
)
    requires
        before.clients == Map::<(Seq<char>, Seq<char>), CachedClient<F::Client>>::empty(),
        gets_client(
            before,
            between,
            config,
            lifetime,
            created_at,
            Ok::<F::Client, ErrorModel>(client),
        ),
        gets_client(between, after, later_config, later_lifetime, now, outcome),
        lifetime matches Some(nanos) ==> now < created_at + nanos <= u128::MAX,
    ensures
        creates(before.factory, config, Ok::<F::Client, ErrorModel>(client)),
        if later_config.kms_instance_id == config.kms_instance_id && later_config.key_access_token
            == config.key_access_token {
            outcome == Ok::<F::Client, ErrorModel>(client)
        } else {
            creates(before.factory, later_config, outcome)
        },
{
}

/// Where a client could not be created, the error is returned and nothing is kept: the factory is
/// asked again for the next request.
pub proof fn law_failed_creation_is_tried_again<F: KmsClientFactory>(
    before: ManagerModel<F>,
    between: ManagerModel<F>,
    after: ManagerModel<F>,
    config: ConfigModel,
    lifetime: Option<u128>,
    now: u128,
    error: ErrorModel,
    later_lifetime: Option<u128>,
    later: u128,
    outcome: Result<F::Client, ErrorModel>,
)
    requires
        gets_client(
            before,
            between,
            config,
            lifetime,
            now,
            Err::<F::Client, ErrorModel>(error),
        ),
        gets_client(between, after, config, later_lifetime, later, outcome),
    ensures
        creates(before.factory, config, Err::<F::Client, ErrorModel>(error)),
        creates(before.factory, config, outcome),
{
}

/// Asking for a client keeps the clients that have not expired, drops the others, and adds none but
/// the one for the instance and access token that were asked for, whose lifetime starts then. It
/// does nothing else.
pub proof fn law_only_live_clients_are_kept<F: KmsClientFactory>(
    before: ManagerModel<F>,
    after: ManagerModel<F>,
    config: ConfigModel,
    lifetime: Option<u128>,
    now: u128,
    outcome: Result<F::Client, ErrorModel>,
)
    requires
        gets_client(before, after, config, lifetime, now, outcome),
        lifetime matches Some(nanos) ==> now + nanos <= u128::MAX,
    ensures
        after.factory == before.factory,
        after.read_caches == before.read_caches,
        after.write_caches == before.write_caches,
        after.draws == before.draws,
        forall|key: (Seq<char>, Seq<char>)| #[trigger]
            after.clients.contains_key(key) ==> (before.clients.contains_key(key)
                && after.clients[key] == before.clients[key] && (
            before.clients[key].expires_at matches Some(time) ==> now < time)) || (key == (
                config.kms_instance_id,
                config.key_access_token,
            ) && outcome == Ok::<F::Client, ErrorModel>(*after.clients[key].client) && (
            match lifetime {
                Some(nanos) => after.clients[key].expires_at == Some((now + nanos) as u128),
                None => after.clients[key].expires_at is None,
            })),
        forall|key: (Seq<char>, Seq<char>)| #[trigger]
            before.clients.contains_key(key) && (before.clients[key].expires_at matches Some(time)
                ==> now < time) ==> after.clients.contains_key(key) && after.clients[key]
                == before.clients[key],
        outcome is Ok ==> after.clients.contains_key(
            (config.kms_instance_id, config.key_access_token),
        ),
{
}

} // verus!
