//! The authoritative credential store, one record per username, and the
//! repositories that read and write it.

use vstd::prelude::*;
use crate::model::{MqttEntity, MqttRepositoryError};
use crate::table::KeyValueStore;

verus! {

pub struct CredentialStore {
    table: KeyValueStore<MqttEntity>,
}

impl CredentialStore {
    /// Every record is kept under its own username.
    pub closed spec fn wf(&self) -> bool {
        &&& self.table.wf()
        &&& forall|u: Seq<char>| #[trigger] self.table@.contains_key(u) ==> self.table@[u].username@ == u
    }

    /// The records, by username.
    pub closed spec fn view(&self) -> Map<Seq<char>, MqttEntity> {
        self.table@
    }

    /// The records in the order in which they are kept.
    pub closed spec fn entries(&self) -> Seq<MqttEntity> {
        self.table.entries()
    }

    pub fn new() -> (r: CredentialStore)
        ensures
            r.wf(),
            r@ == Map::<Seq<char>, MqttEntity>::empty(),
    {
        CredentialStore { table: KeyValueStore::new() }
    }

    pub proof fn lemma_keys(&self)
        requires
            self.wf(),
        ensures
            forall|u: Seq<char>| #[trigger] self@.contains_key(u) ==> self@[u].username@ == u,
    {
    }
}

/// What the store holds for `username`.
pub open spec fn stored(records: Map<Seq<char>, MqttEntity>, username: Seq<char>) -> Option<MqttEntity> {
    if records.contains_key(username) {
        Some(records[username])
    } else {
        None
    }
}

/// Reads a record by username.
pub struct MqttLoginRepository {}

impl MqttLoginRepository {
    pub fn new() -> MqttLoginRepository {
        MqttLoginRepository {  }
    }

    pub fn login_with_credentials(&self, store: &CredentialStore, username: &str) -> (r: Option<MqttEntity>)
        requires
            store.wf(),
        ensures
            r == stored(store@, username@),
    {
        match store.table.get(username) {
            Some(e) => Some(e.duplicate()),
            None => None,
        }
    }
}

/// Inserts records; the store itself refuses a second record for a username.
pub struct CreateMqttRepository {}

impl CreateMqttRepository {
    pub fn new() -> CreateMqttRepository {
        CreateMqttRepository {  }
    }

    pub fn create_mqtt(
        &self,
        store: &mut CredentialStore,
        username: &str,
        password_hash: &str,
        is_superuser: bool,
    ) -> (r: Result<(), MqttRepositoryError>)
        requires
            old(store).wf(),
        ensures
            final(store).wf(),
            old(store)@.contains_key(username@) ==> r == Err::<(), MqttRepositoryError>(
                MqttRepositoryError::Conflict,
            ) && final(store)@ == old(store)@,
            !old(store)@.contains_key(username@) ==> r is Ok && final(store)@.contains_key(username@)
                && final(store)@ == old(store)@.insert(username@, final(store)@[username@])
                && final(store)@[username@].is_record_of(username@, password_hash@, is_superuser),
    {
        if store.table.get(username).is_some() {
            return Err(MqttRepositoryError::Conflict);
        }
        let entity = MqttEntity::create(username, password_hash, is_superuser);
        let key = entity.username.clone();
        store.table.insert(key, entity);
        assert(store.table@ == old(store).table@.insert(username@, entity));
        Ok(())
    }
}

/// Removes records for good.
pub struct DeleteMqttRepository {}

impl DeleteMqttRepository {
    pub fn new() -> DeleteMqttRepository {
        DeleteMqttRepository {  }
    }

    pub fn delete_mqtt(&self, store: &mut CredentialStore, username: &str) -> (r: Result<(), MqttRepositoryError>)
        requires
            old(store).wf(),
        ensures
            final(store).wf(),
            final(store)@ == old(store)@.remove(username@),
            r is Ok <==> old(store)@.contains_key(username@),
            r is Err ==> r == Err::<(), MqttRepositoryError>(MqttRepositoryError::NotFound),
    {
        if store.table.remove(username) {
            Ok(())
        } else {
            Err(MqttRepositoryError::NotFound)
        }
    }
}

/// Lists every record.
pub struct GetMqttListRepository {}

impl GetMqttListRepository {
    pub fn new() -> GetMqttListRepository {
        GetMqttListRepository {  }
    }

    /// Each record once: the result holds exactly the stored records.
    pub fn get_mqtt_list(&self, store: &CredentialStore) -> (r: Vec<MqttEntity>)
        requires
            store.wf(),
        ensures
            r@ == store.entries(),
            forall|i: int| 0 <= i < r@.len() ==> #[trigger] store@.contains_key(r@[i].username@)
                && store@[r@[i].username@] == r@[i],
            forall|u: Seq<char>| #[trigger] store@.contains_key(u)
                ==> exists|i: int| 0 <= i < r@.len() && r@[i] == store@[u],
            forall|i: int, j: int| 0 <= i < r@.len() && 0 <= j < r@.len() && i != j
                ==> r@[i].username@ != r@[j].username@,
    {
        proof {
            store.table.lemma_entries();
        }
        let n: usize = store.table.len();
        let mut out: Vec<MqttEntity> = Vec::new();
        let mut i: usize = 0;
        while i < n
            invariant
                store.wf(),
                n == store.table.entries().len(),
                i <= n,
                out@.len() == i,
                forall|j: int| 0 <= j < i ==> out@[j] == store.table.entries()[j],
            decreases n - i,
        {
            let e = store.table.value_at(i).duplicate();
            out.push(e);
            i += 1;
        }
        proof {
            let t = &store.table;
            assert forall|j: int| 0 <= j < out@.len() implies #[trigger] store@.contains_key(out@[j].username@)
                && store@[out@[j].username@] == out@[j] by {
                let k = t.key_list()[j];
                assert(t@.contains_key(k) && t@[k] == t.entries()[j]);
            }
            assert forall|u: Seq<char>| #[trigger] store@.contains_key(u)
                implies exists|j: int| 0 <= j < out@.len() && out@[j] == store@[u] by {
                let j = choose|j: int| 0 <= j < t.entries().len() && t.key_list()[j] == u;
                assert(out@[j] == store@[u]);
            }
            assert forall|a: int, b: int| 0 <= a < out@.len() && 0 <= b < out@.len() && a != b
                implies out@[a].username@ != out@[b].username@ by {
                let ka = t.key_list()[a];
                let kb = t.key_list()[b];
                assert(t@.contains_key(ka) && t@[ka] == t.entries()[a]);
                assert(t@.contains_key(kb) && t@[kb] == t.entries()[b]);
            }
        }
        out
    }
}

} // verus!
