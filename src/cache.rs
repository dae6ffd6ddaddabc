//! The read-through cache of credential lookups: entries live for a fixed
//! time, expire lazily when read, and are dropped on every write to the
//! authoritative record.

use vstd::prelude::*;
use vstd::string::*;
use crate::model::MqttEntity;
use crate::table::KeyValueStore;

verus! {

/// How long a cache entry lives, in seconds.
pub const CACHE_TTL_SECS: u64 = 3600;

/// The key under which a username's entry is kept.
pub open spec fn cache_key(username: Seq<char>) -> Seq<char> {
    "cred:"@ + username
}

pub proof fn lemma_cache_key_injective(a: Seq<char>, b: Seq<char>)
    ensures
        cache_key(a) == cache_key(b) ==> a == b,
{
    let p = "cred:"@;
    if cache_key(a) == cache_key(b) {
        assert(a =~= cache_key(a).subrange(p.len() as int, cache_key(a).len() as int));
        assert(b =~= cache_key(b).subrange(p.len() as int, cache_key(b).len() as int));
    }
}

/// The expiry of an entry written at `now`: `now + CACHE_TTL_SECS`, held at
/// the largest timestamp where that would not fit.
pub open spec fn expiry_of(now: u64) -> u64 {
    if now <= u64::MAX - CACHE_TTL_SECS {
        (now + CACHE_TTL_SECS) as u64
    } else {
        u64::MAX
    }
}

/// A cached credential and the time after which it is no longer served.
pub struct CachedMqttEntity {
    pub entity: MqttEntity,
    pub expires_at: u64,
}

/// What a read of the cache returns for `username` at `now`: the cached
/// credential while it has not expired, nothing otherwise.
pub open spec fn cache_read(
    entries: Map<Seq<char>, CachedMqttEntity>,
    username: Seq<char>,
    now: u64,
) -> Option<MqttEntity> {
    let k = cache_key(username);
    if entries.contains_key(k) && now <= entries[k].expires_at {
        Some(entries[k].entity)
    } else {
        None
    }
}

/// Whether a read at `now` finds an expired entry, which it then removes.
pub open spec fn cache_read_evicts(
    entries: Map<Seq<char>, CachedMqttEntity>,
    username: Seq<char>,
    now: u64,
) -> bool {
    let k = cache_key(username);
    entries.contains_key(k) && now > entries[k].expires_at
}

/// An entry whose expiry lies before the time of a read is never returned.
pub proof fn lemma_expired_never_read(
    entries: Map<Seq<char>, CachedMqttEntity>,
    username: Seq<char>,
    now: u64,
)
    requires
        entries.contains_key(cache_key(username)),
        entries[cache_key(username)].expires_at < now,
    ensures
        cache_read(entries, username, now) is None,
        cache_read_evicts(entries, username, now),
{
}

pub struct CacheRepository {
    table: KeyValueStore<CachedMqttEntity>,
}

pub fn cache_key_text(username: &str) -> (r: String)
    ensures
        r@ == cache_key(username@),
{
    let mut key = String::from_str("cred:");
    key.append(username);
    key
}

impl CacheRepository {
    pub closed spec fn wf(&self) -> bool {
        self.table.wf()
    }

    /// Entries by cache key.
    pub closed spec fn view(&self) -> Map<Seq<char>, CachedMqttEntity> {
        self.table@
    }

    pub fn new() -> (r: CacheRepository)
        ensures
            r.wf(),
            r@ == Map::<Seq<char>, CachedMqttEntity>::empty(),
    {
        CacheRepository { table: KeyValueStore::new() }
    }

    /// Reads the entry for `username`. An entry that expired before `now` is
    /// never returned, and reading it removes it.
    pub fn get_cached_user(&mut self, username: &str, now: u64) -> (r: Option<MqttEntity>)
        requires
            old(self).wf(),
        ensures
            final(self).wf(),
            r == cache_read(old(self)@, username@, now),
            r matches Some(e) ==> now <= old(self)@[cache_key(username@)].expires_at,
            final(self)@ == if cache_read_evicts(old(self)@, username@, now) {
                old(self)@.remove(cache_key(username@))
            } else {
                old(self)@
            },
    {
        let key = cache_key_text(username);
        let expired = match self.table.get(key.as_str()) {
            None => {
                return None;
            },
            Some(cached) => {
                if now > cached.expires_at {
                    true
                } else {
                    return Some(cached.entity.duplicate());
                }
            },
        };
        if expired {
            self.table.remove(key.as_str());
        }
        None
    }

    /// Stores `entity` under its username, replacing any entry there, to be
    /// served until `now + CACHE_TTL_SECS`.
    pub fn set_cached_user(&mut self, entity: MqttEntity, now: u64)
        requires
            old(self).wf(),
        ensures
            final(self).wf(),
            final(self)@ == old(self)@.insert(
                cache_key(entity.username@),
                CachedMqttEntity { entity, expires_at: expiry_of(now) },
            ),
    {
        let key = cache_key_text(entity.username.as_str());
        let expires_at: u64 = if now <= u64::MAX - CACHE_TTL_SECS {
            now + CACHE_TTL_SECS
        } else {
            u64::MAX
        };
        self.table.insert(key, CachedMqttEntity { entity, expires_at });
    }

    /// Drops the entry for `username`, if any.
    pub fn invalidate_user(&mut self, username: &str)
        requires
            old(self).wf(),
        ensures
            final(self).wf(),
            final(self)@ == old(self)@.remove(cache_key(username@)),
    {
        let key = cache_key_text(username);
        self.table.remove(key.as_str());
    }
}

} // verus!
