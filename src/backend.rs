//! The credential store together with the cache in front of it. Reads go
//! through the cache; every write to the store drops the cached entry, so a
//! cached credential always agrees with the store.

use vstd::prelude::*;
use crate::cache::{
    cache_key, cache_read, cache_read_evicts, expiry_of, lemma_cache_key_injective, CacheRepository,
    CachedMqttEntity,
};
use crate::model::{MqttEntity, MqttRepositoryError};
use crate::store::{
    stored, CreateMqttRepository, CredentialStore, DeleteMqttRepository, GetMqttListRepository,
    MqttLoginRepository,
};

verus! {

/// The cache after a lookup of `username` at `now`: unchanged on a hit;
/// on a miss an expired entry is dropped and, where the store holds the
/// username, its record is cached until `expiry_of(now)`. A miss on both
/// caches nothing.
pub open spec fn cache_after_lookup(
    cache: Map<Seq<char>, CachedMqttEntity>,
    records: Map<Seq<char>, MqttEntity>,
    username: Seq<char>,
    now: u64,
) -> Map<Seq<char>, CachedMqttEntity> {
    if cache_read(cache, username, now) is Some {
        cache
    } else {
        let kept = if cache_read_evicts(cache, username, now) {
            cache.remove(cache_key(username))
        } else {
            cache
        };
        if records.contains_key(username) {
            kept.insert(
                cache_key(username),
                CachedMqttEntity { entity: records[username], expires_at: expiry_of(now) },
            )
        } else {
            kept
        }
    }
}

/// What a lookup of `username` at `now` does: the records stay as they were,
/// the result is what the store holds, whatever the cache held, and the cache
/// changes as `cache_after_lookup` says.
pub open spec fn lookup_outcome(
    before: Map<Seq<char>, MqttEntity>,
    after: Map<Seq<char>, MqttEntity>,
    cache_before: Map<Seq<char>, CachedMqttEntity>,
    cache_after: Map<Seq<char>, CachedMqttEntity>,
    username: Seq<char>,
    now: u64,
    r: Option<MqttEntity>,
) -> bool {
    &&& after == before
    &&& r == stored(before, username)
    &&& cache_after == cache_after_lookup(cache_before, before, username, now)
}

/// A username the store does not hold is not found, on a cold cache and
/// again after another lookup has warmed it; and nothing is cached for it.
pub proof fn lemma_unknown_not_found(
    records0: Map<Seq<char>, MqttEntity>,
    records1: Map<Seq<char>, MqttEntity>,
    records2: Map<Seq<char>, MqttEntity>,
    records3: Map<Seq<char>, MqttEntity>,
    cache0: Map<Seq<char>, CachedMqttEntity>,
    cache1: Map<Seq<char>, CachedMqttEntity>,
    cache2: Map<Seq<char>, CachedMqttEntity>,
    cache3: Map<Seq<char>, CachedMqttEntity>,
    username: Seq<char>,
    other: Seq<char>,
    now: u64,
    cold: Option<MqttEntity>,
    priming: Option<MqttEntity>,
    warm: Option<MqttEntity>,
)
    requires
        !records0.contains_key(username),
        !cache0.contains_key(cache_key(username)),
        lookup_outcome(records0, records1, cache0, cache1, username, now, cold),
        lookup_outcome(records1, records2, cache1, cache2, other, now, priming),
        lookup_outcome(records2, records3, cache2, cache3, username, now, warm),
        other != username,
    ensures
        cold is None,
        warm is None,
        !cache1.contains_key(cache_key(username)),
        !cache3.contains_key(cache_key(username)),
{
    lemma_cache_key_injective(username, other);
}

pub struct MqttBackend {
    store: CredentialStore,
    cache: CacheRepository,
}

impl MqttBackend {
    /// Both parts are well formed, and every cache entry, expired or not,
    /// holds exactly what the store holds for its username.
    pub closed spec fn wf(&self) -> bool {
        &&& self.store.wf()
        &&& self.cache.wf()
        &&& forall|k: Seq<char>| #[trigger] self.cache@.contains_key(k) ==> {
            let e = self.cache@[k].entity;
            &&& k == cache_key(e.username@)
            &&& self.store@.contains_key(e.username@)
            &&& self.store@[e.username@] == e
        }
    }

    /// The authoritative records, by username.
    pub closed spec fn records(&self) -> Map<Seq<char>, MqttEntity> {
        self.store@
    }

    /// The cache entries, by cache key.
    pub closed spec fn cache(&self) -> Map<Seq<char>, CachedMqttEntity> {
        self.cache@
    }

    /// The records in the order in which the store keeps them.
    pub closed spec fn record_list(&self) -> Seq<MqttEntity> {
        self.store.entries()
    }

    /// Whether the cache holds an entry for `username`.
    pub open spec fn is_cached(&self, username: Seq<char>) -> bool {
        self.cache().contains_key(cache_key(username))
    }

    /// Every record is kept under its own username.
    pub proof fn lemma_records_keyed(&self)
        requires
            self.wf(),
        ensures
            forall|u: Seq<char>| #[trigger] self.records().contains_key(u) ==> self.records()[u].username@ == u,
    {
        self.store.lemma_keys();
    }

    pub fn new() -> (r: MqttBackend)
        ensures
            r.wf(),
            r.records() == Map::<Seq<char>, MqttEntity>::empty(),
    {
        MqttBackend { store: CredentialStore::new(), cache: CacheRepository::new() }
    }

    /// Cache-aside lookup: the cache when it holds a live entry, else the
    /// store, whose answer is then cached. Nothing is cached for a miss.
    pub fn lookup(&mut self, username: &str, now: u64) -> (r: Option<MqttEntity>)
        requires
            old(self).wf(),
        ensures
            final(self).wf(),
            lookup_outcome(
                old(self).records(),
                final(self).records(),
                old(self).cache(),
                final(self).cache(),
                username@,
                now,
                r,
            ),
            cache_read(old(self).cache(), username@, now) matches Some(e) ==> r == Some(e),
    {
        match self.cache.get_cached_user(username, now) {
            Some(e) => {
                proof {
                    let k = cache_key(username@);
                    let c = old(self).cache@[k].entity;
                    lemma_cache_key_injective(username@, c.username@);
                }
                return Some(e);
            },
            None => {},
        }
        let repo = MqttLoginRepository::new();
        match repo.login_with_credentials(&self.store, username) {
            Some(e) => {
                proof {
                    self.store.lemma_keys();
                }
                self.cache.set_cached_user(e.duplicate(), now);
                Some(e)
            },
            None => None,
        }
    }

    /// Inserts a new record, refused by the store where one exists; the
    /// cached entry for the username is dropped.
    pub fn insert_record(&mut self, username: &str, secret: &str, is_superuser: bool) -> (r: Result<(), MqttRepositoryError>)
        requires
            old(self).wf(),
        ensures
            final(self).wf(),
            !final(self).is_cached(username@),
            old(self).records().contains_key(username@) ==> r == Err::<(), MqttRepositoryError>(
                MqttRepositoryError::Conflict,
            ) && final(self).records() == old(self).records(),
            !old(self).records().contains_key(username@) ==> r is Ok && final(self).records().contains_key(username@)
                && final(self).records() == old(self).records().insert(username@, final(self).records()[username@])
                && final(self).records()[username@].is_record_of(username@, secret@, is_superuser),
    {
        let repo = CreateMqttRepository::new();
        let r = repo.create_mqtt(&mut self.store, username, secret, is_superuser);
        self.cache.invalidate_user(username);
        proof {
            self.store.lemma_keys();
            assert forall|k: Seq<char>| #[trigger] self.cache@.contains_key(k) implies {
                let e = self.cache@[k].entity;
                &&& k == cache_key(e.username@)
                &&& self.store@.contains_key(e.username@)
                &&& self.store@[e.username@] == e
            } by {
                let e = self.cache@[k].entity;
                assert(old(self).cache@.contains_key(k));
                if e.username@ == username@ {
                    assert(k == cache_key(username@));
                }
            }
        }
        r
    }

    /// Removes the record for good; the cached entry is dropped.
    pub fn remove_record(&mut self, username: &str) -> (r: Result<(), MqttRepositoryError>)
        requires
            old(self).wf(),
        ensures
            final(self).wf(),
            !final(self).is_cached(username@),
            final(self).records() == old(self).records().remove(username@),
            r is Ok <==> old(self).records().contains_key(username@),
            r is Err ==> r == Err::<(), MqttRepositoryError>(MqttRepositoryError::NotFound),
    {
        let repo = DeleteMqttRepository::new();
        let r = repo.delete_mqtt(&mut self.store, username);
        self.cache.invalidate_user(username);
        proof {
            assert forall|k: Seq<char>| #[trigger] self.cache@.contains_key(k) implies {
                let e = self.cache@[k].entity;
                &&& k == cache_key(e.username@)
                &&& self.store@.contains_key(e.username@)
                &&& self.store@[e.username@] == e
            } by {
                let e = self.cache@[k].entity;
                assert(old(self).cache@.contains_key(k));
                if e.username@ == username@ {
                    assert(k == cache_key(username@));
                }
            }
        }
        r
    }

    /// Every record, read from the store; the cache is not consulted.
    pub fn all_records(&self) -> (r: Vec<MqttEntity>)
        requires
            self.wf(),
        ensures
            r@ == self.record_list(),
            forall|i: int| 0 <= i < r@.len() ==> #[trigger] self.records().contains_key(r@[i].username@)
                && self.records()[r@[i].username@] == r@[i],
            forall|u: Seq<char>| #[trigger] self.records().contains_key(u)
                ==> exists|i: int| 0 <= i < r@.len() && r@[i] == self.records()[u],
            forall|i: int, j: int| 0 <= i < r@.len() && 0 <= j < r@.len() && i != j
                ==> r@[i].username@ != r@[j].username@,
    {
        GetMqttListRepository::new().get_mqtt_list(&self.store)
    }
}

} // verus!
