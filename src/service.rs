//! The decision services: creating and deleting credentials, listing them,
//! authenticating clients and deciding topic access.

use vstd::prelude::*;
use vstd::string::*;
use crate::backend::MqttBackend;
use crate::model::{
    AuthType, CheckMqttActiveDTO, CreateMqttDTO, MqttAclDTO, MqttCredentialsDTO, MqttDTO, MqttEntity,
    MqttServiceError,
};
use crate::password::{decrypted, encrypted_payload, PasswordCipher, PasswordScheme, NONCE_LEN};
use crate::store::stored;
use crate::text::{has_prefix, is_blank, starts_with_text};
use crate::token::{claims_json, create_jwt_at, issuer, signed_token, token_at, TOKEN_TTL_SECS};
use crate::validation::{
    acl_violations, credential_violations, fields_of, login_violations, username_violations,
    validate_acl_input, validate_credential_input, validate_login_input, validate_username,
};

verus! {

/// Whether `r` is a `BadRequest` that lists exactly the fields `expected`.
pub open spec fn is_bad_request<T>(r: Result<T, MqttServiceError>, expected: Seq<Seq<char>>) -> bool {
    r matches Err(MqttServiceError::BadRequest(errors)) && fields_of(errors@) == expected
}

/// What creating `username` does, given the records before and after: the
/// new record holds password material that `scheme` accepts for `password`.
/// Creation fails with `InternalError` only where making the password
/// material failed (a random-source fault, or a password too long to encrypt).
pub open spec fn create_outcome(
    scheme: PasswordScheme,
    before: Map<Seq<char>, MqttEntity>,
    after: Map<Seq<char>, MqttEntity>,
    username: Seq<char>,
    password: Seq<char>,
    is_superuser: bool,
    r: Result<(), MqttServiceError>,
) -> bool {
    if credential_violations(username, password).len() > 0 {
        is_bad_request(r, credential_violations(username, password)) && after == before
    } else if before.contains_key(username) {
        r matches Err(MqttServiceError::Conflict(_)) && after == before
    } else {
        match r {
            Ok(_) => {
                &&& after.contains_key(username)
                &&& after == before.insert(username, after[username])
                &&& after[username].username@ == username
                &&& after[username].is_superuser == is_superuser
                &&& after[username].client_id is None
                &&& scheme.accepts(password, after[username].password@)
            },
            Err(e) => e is InternalError && after == before,
        }
    }
}

/// What deleting `username` does, given the records before and after.
pub open spec fn delete_outcome(
    before: Map<Seq<char>, MqttEntity>,
    after: Map<Seq<char>, MqttEntity>,
    username: Seq<char>,
    r: Result<bool, MqttServiceError>,
) -> bool {
    if username_violations(username).len() > 0 {
        is_bad_request(r, username_violations(username)) && after == before
    } else if !before.contains_key(username) {
        r matches Err(MqttServiceError::MqttNotFound(_)) && after == before
    } else {
        r == Ok::<bool, MqttServiceError>(true) && after == before.remove(username)
    }
}

/// The namespace of topics that a user who is not a superuser may access.
pub open spec fn topic_prefix(username: Seq<char>) -> Seq<char> {
    "users/"@ + username + "/"@
}

/// What an authentication request returns against `records`.
pub open spec fn login_outcome(
    records: Map<Seq<char>, MqttEntity>,
    scheme: PasswordScheme,
    secret_key: Seq<char>,
    username: Seq<char>,
    password: Seq<char>,
    method: Option<AuthType>,
    now: u64,
    r: Result<(bool, String), MqttServiceError>,
) -> bool {
    if login_violations(username, password, method).len() > 0 {
        is_bad_request(r, login_violations(username, password, method))
    } else if !records.contains_key(username) {
        r matches Err(MqttServiceError::MqttNotFound(_))
    } else if method == Some(AuthType::Credentials) {
        if scheme.accepts(password, records[username].password@) {
            r matches Ok((granted, token)) && granted && token@.len() == 0
        } else {
            r matches Err(MqttServiceError::InvalidCredentials(_))
        }
    } else if now <= u64::MAX - TOKEN_TTL_SECS {
        r matches Ok((granted, token)) && granted && token@ == token_at(username, secret_key, now as nat)
    } else {
        r matches Err(MqttServiceError::JwtError(_))
    }
}

/// What a topic-access request returns against `records`.
pub open spec fn acl_outcome(
    records: Map<Seq<char>, MqttEntity>,
    username: Seq<char>,
    topic: Seq<char>,
    r: Result<bool, MqttServiceError>,
) -> bool {
    if acl_violations(username, topic).len() > 0 {
        is_bad_request(r, acl_violations(username, topic))
    } else if !records.contains_key(username) {
        r matches Err(MqttServiceError::MqttNotFound(_))
    } else {
        r == Ok::<bool, MqttServiceError>(
            records[username].is_superuser || has_prefix(topic, topic_prefix(username)),
        )
    }
}

/// Creating the same credential twice in a row: the second attempt fails with
/// `Conflict` and leaves the store as the first left it, with one record for
/// the username.
pub proof fn lemma_create_twice(
    scheme: PasswordScheme,
    before: Map<Seq<char>, MqttEntity>,
    middle: Map<Seq<char>, MqttEntity>,
    after: Map<Seq<char>, MqttEntity>,
    username: Seq<char>,
    password: Seq<char>,
    is_superuser: bool,
    first: Result<(), MqttServiceError>,
    second: Result<(), MqttServiceError>,
)
    requires
        create_outcome(scheme, before, middle, username, password, is_superuser, first),
        first is Ok,
        create_outcome(scheme, middle, after, username, password, is_superuser, second),
    ensures
        second matches Err(MqttServiceError::Conflict(_)),
        after == middle,
        after.contains_key(username),
        after.dom() == before.dom().insert(username),
{
    assert(after.dom() =~= before.dom().insert(username));
}

/// A lookup right after a successful creation finds the new record: nothing
/// that was known before, absent or present, hides it.
pub proof fn lemma_lookup_after_create(
    scheme: PasswordScheme,
    before: Map<Seq<char>, MqttEntity>,
    after: Map<Seq<char>, MqttEntity>,
    username: Seq<char>,
    password: Seq<char>,
    is_superuser: bool,
    r: Result<(), MqttServiceError>,
)
    requires
        create_outcome(scheme, before, after, username, password, is_superuser, r),
        r is Ok,
    ensures
        stored(after, username) matches Some(e) && e.username@ == username && e.is_superuser == is_superuser,
{
}

/// After a successful creation, authenticating with the same password is
/// granted with an empty token, and with a password that the stored material
/// does not accept it fails with `InvalidCredentials`.
pub proof fn lemma_login_after_create(
    scheme: PasswordScheme,
    before: Map<Seq<char>, MqttEntity>,
    after: Map<Seq<char>, MqttEntity>,
    secret_key: Seq<char>,
    username: Seq<char>,
    password: Seq<char>,
    wrong: Seq<char>,
    is_superuser: bool,
    now: u64,
    created: Result<(), MqttServiceError>,
    right_login: Result<(bool, String), MqttServiceError>,
    wrong_login: Result<(bool, String), MqttServiceError>,
)
    requires
        create_outcome(scheme, before, after, username, password, is_superuser, created),
        created is Ok,
        login_outcome(after, scheme, secret_key, username, password, Some(AuthType::Credentials), now, right_login),
        login_outcome(after, scheme, secret_key, username, wrong, Some(AuthType::Credentials), now, wrong_login),
        !is_blank(wrong),
        !scheme.accepts(wrong, after[username].password@),
    ensures
        right_login matches Ok((granted, token)) && granted && token@.len() == 0,
        wrong_login matches Err(MqttServiceError::InvalidCredentials(_)),
{
    assert(credential_violations(username, password).len() == 0);
    if is_blank(username) {
        assert(credential_violations(username, password).len() > 0);
    }
    if is_blank(password) {
        assert(credential_violations(username, password).len() > 0);
    }
    assert(login_violations(username, password, Some(AuthType::Credentials)) =~= Seq::<Seq<char>>::empty());
    assert(login_violations(username, wrong, Some(AuthType::Credentials)) =~= Seq::<Seq<char>>::empty());
}

/// A token login for a stored user succeeds, with a non-empty token whose
/// claims name the user and expire exactly `TOKEN_TTL_SECS` after they were
/// issued.
pub proof fn lemma_jwt_login_token(
    records: Map<Seq<char>, MqttEntity>,
    scheme: PasswordScheme,
    secret_key: Seq<char>,
    username: Seq<char>,
    password: Seq<char>,
    now: u64,
    r: Result<(bool, String), MqttServiceError>,
)
    requires
        login_outcome(records, scheme, secret_key, username, password, Some(AuthType::Jwt), now, r),
        login_violations(username, password, Some(AuthType::Jwt)).len() == 0,
        records.contains_key(username),
        now <= u64::MAX - TOKEN_TTL_SECS,
    ensures
        r matches Ok((granted, token)) && granted && token@.len() > 0 && exists|iat: nat|
            token@ == #[trigger] signed_token(
                secret_key,
                claims_json(username, (iat + TOKEN_TTL_SECS) as nat, iat, issuer()),
            ),
{
    reveal_strlit(".");
    let iat = now as nat;
    assert(token_at(username, secret_key, iat) == signed_token(
        secret_key,
        claims_json(username, (iat + TOKEN_TTL_SECS) as nat, iat, issuer()),
    ));
}

/// A superuser may access every topic.
pub proof fn lemma_superuser_any_topic(
    records: Map<Seq<char>, MqttEntity>,
    username: Seq<char>,
    topic: Seq<char>,
    r: Result<bool, MqttServiceError>,
)
    requires
        acl_outcome(records, username, topic, r),
        acl_violations(username, topic).len() == 0,
        records.contains_key(username),
        records[username].is_superuser,
    ensures
        r == Ok::<bool, MqttServiceError>(true),
{
}

/// A user who is not a superuser may access exactly the topics in its own
/// namespace.
pub proof fn lemma_user_own_namespace(
    records: Map<Seq<char>, MqttEntity>,
    username: Seq<char>,
    topic: Seq<char>,
    r: Result<bool, MqttServiceError>,
)
    requires
        acl_outcome(records, username, topic, r),
        acl_violations(username, topic).len() == 0,
        records.contains_key(username),
        !records[username].is_superuser,
    ensures
        r == Ok::<bool, MqttServiceError>(has_prefix(topic, topic_prefix(username))),
{
}

/// After a credential is deleted, authenticating as that user finds no
/// record, whatever the password and method.
pub proof fn lemma_login_after_delete(
    before: Map<Seq<char>, MqttEntity>,
    after: Map<Seq<char>, MqttEntity>,
    scheme: PasswordScheme,
    secret_key: Seq<char>,
    username: Seq<char>,
    password: Seq<char>,
    method: Option<AuthType>,
    now: u64,
    deleted: Result<bool, MqttServiceError>,
    login: Result<(bool, String), MqttServiceError>,
)
    requires
        delete_outcome(before, after, username, deleted),
        login_outcome(after, scheme, secret_key, username, password, method, now, login),
        login_violations(username, password, method).len() == 0,
    ensures
        login matches Err(MqttServiceError::MqttNotFound(_)),
{
    if is_blank(username) {
        assert(login_violations(username, password, method).len() > 0);
    }
}

fn not_found() -> (r: MqttServiceError)
    ensures
        r is MqttNotFound,
{
    MqttServiceError::MqttNotFound(String::from_str("User MQTT not found"))
}

/// Creates credentials.
pub struct CreateMqttService {
    scheme: PasswordScheme,
}

impl CreateMqttService {
    pub closed spec fn wf(&self) -> bool {
        self.scheme.wf()
    }

    pub closed spec fn scheme(&self) -> PasswordScheme {
        self.scheme
    }

    pub fn new(scheme: PasswordScheme) -> (r: CreateMqttService)
        requires
            scheme.wf(),
        ensures
            r.wf(),
            r.scheme() == scheme,
    {
        CreateMqttService { scheme }
    }

    /// Validates, refuses a username that exists, stores the password
    /// material for the password, and drops any cached entry.
    pub fn create_mqtt(&self, backend: &mut MqttBackend, dto: CreateMqttDTO, now: u64) -> (r: Result<(), MqttServiceError>)
        requires
            self.wf(),
            old(backend).wf(),
        ensures
            final(backend).wf(),
            create_outcome(
                self.scheme(),
                old(backend).records(),
                final(backend).records(),
                dto.username@,
                dto.password@,
                dto.is_superuser,
                r,
            ),
            credential_violations(dto.username@, dto.password@).len() > 0 ==> final(backend).cache()
                == old(backend).cache(),
            r is Ok ==> !final(backend).is_cached(dto.username@),
            r is Ok ==> (self.scheme() matches PasswordScheme::Encrypted(c) ==> exists|n: Seq<u8>|
                n.len() == NONCE_LEN && final(backend).records()[dto.username@].password@
                    == #[trigger] encrypted_payload(c.key(), n, dto.password@)),
    {
        let errors = validate_credential_input(dto.username.as_str(), dto.password.as_str());
        if errors.len() > 0 {
            return Err(MqttServiceError::BadRequest(errors));
        }
        if backend.lookup(dto.username.as_str(), now).is_some() {
            return Err(MqttServiceError::Conflict(String::from_str("User MQTT already exists")));
        }
        let secret = match self.scheme.hash_password(dto.password.as_str()) {
            Ok(s) => s,
            Err(e) => {
                return Err(MqttServiceError::InternalError(e));
            },
        };
        match backend.insert_record(dto.username.as_str(), secret.as_str(), dto.is_superuser) {
            Ok(()) => Ok(()),
            Err(_) => Err(MqttServiceError::Conflict(String::from_str("User MQTT already exists"))),
        }
    }
}

/// Deletes credentials for good.
pub struct DeleteMqttService {}

impl DeleteMqttService {
    pub fn new() -> DeleteMqttService {
        DeleteMqttService {  }
    }

    pub fn delete_mqtt(&self, backend: &mut MqttBackend, username: &str, now: u64) -> (r: Result<bool, MqttServiceError>)
        requires
            old(backend).wf(),
        ensures
            final(backend).wf(),
            delete_outcome(old(backend).records(), final(backend).records(), username@, r),
            username_violations(username@).len() > 0 ==> final(backend).cache() == old(backend).cache(),
            r is Ok ==> !final(backend).is_cached(username@),
    {
        let errors = validate_username(username);
        if errors.len() > 0 {
            return Err(MqttServiceError::BadRequest(errors));
        }
        if backend.lookup(username, now).is_none() {
            return Err(not_found());
        }
        match backend.remove_record(username) {
            Ok(()) => Ok(true),
            Err(_) => Err(not_found()),
        }
    }
}

/// Lists credentials, without their password material.
pub struct GetMqttListService {}

impl GetMqttListService {
    pub fn new() -> GetMqttListService {
        GetMqttListService {  }
    }

    /// Every stored credential once, read from the store and never from the cache.
    pub fn get_mqtt_list(&self, backend: &MqttBackend) -> (r: Result<Vec<MqttDTO>, MqttServiceError>)
        requires
            backend.wf(),
        ensures
            r matches Ok(list) && {
                &&& list@.len() == backend.record_list().len()
                &&& forall|i: int| 0 <= i < list@.len() ==> #[trigger] list@[i].username@
                    == backend.record_list()[i].username@ && list@[i].is_superuser
                    == backend.record_list()[i].is_superuser
                &&& forall|i: int| 0 <= i < list@.len() ==> #[trigger] backend.records().contains_key(list@[i].username@)
                    && backend.records()[list@[i].username@].is_superuser == list@[i].is_superuser
                &&& forall|u: Seq<char>| #[trigger] backend.records().contains_key(u)
                    ==> exists|i: int| 0 <= i < list@.len() && list@[i].username@ == u
                &&& forall|i: int, j: int| 0 <= i < list@.len() && 0 <= j < list@.len() && i != j
                    ==> list@[i].username@ != list@[j].username@
            },
    {
        let records = backend.all_records();
        let mut out: Vec<MqttDTO> = Vec::new();
        let mut i: usize = 0;
        while i < records.len()
            invariant
                i <= records@.len(),
                out@.len() == i,
                forall|j: int| 0 <= j < i ==> out@[j].username@ == records@[j].username@
                    && out@[j].is_superuser == records@[j].is_superuser,
            decreases records@.len() - i,
        {
            let e = &records[i];
            out.push(MqttDTO { username: e.username.clone(), is_superuser: e.is_superuser });
            i += 1;
        }
        proof {
            assert forall|u: Seq<char>| #[trigger] backend.records().contains_key(u)
                implies exists|j: int| 0 <= j < out@.len() && out@[j].username@ == u by {
                let j = choose|j: int| 0 <= j < records@.len() && records@[j] == backend.records()[u];
                backend.lemma_records_keyed();
                assert(out@[j].username@ == u);
            }
            assert forall|a: int| 0 <= a < out@.len() implies #[trigger] backend.records().contains_key(out@[a].username@)
                && backend.records()[out@[a].username@].is_superuser == out@[a].is_superuser by {
                assert(backend.records().contains_key(records@[a].username@));
            }
        }
        Ok(out)
    }
}

/// Authenticates clients by password, or issues them a token.
pub struct MqttLoginService {
    scheme: PasswordScheme,
    secret_key: String,
}

impl MqttLoginService {
    pub closed spec fn wf(&self) -> bool {
        self.scheme.wf()
    }

    pub closed spec fn scheme(&self) -> PasswordScheme {
        self.scheme
    }

    pub closed spec fn secret_key(&self) -> Seq<char> {
        self.secret_key@
    }

    pub fn new(scheme: PasswordScheme, secret_key: String) -> (r: MqttLoginService)
        requires
            scheme.wf(),
        ensures
            r.wf(),
            r.scheme() == scheme,
            r.secret_key() == secret_key@,
    {
        MqttLoginService { scheme, secret_key }
    }

    /// Every violated field of the request, in one `BadRequest`.
    pub fn mqtt_input_credentials_validation(&self, dto: &CheckMqttActiveDTO) -> (r: Result<bool, MqttServiceError>)
        ensures
            login_violations(dto.username@, dto.password@, dto.method).len() == 0 ==> r == Ok::<bool, MqttServiceError>(true),
            login_violations(dto.username@, dto.password@, dto.method).len() > 0 ==> is_bad_request(
                r,
                login_violations(dto.username@, dto.password@, dto.method),
            ),
    {
        let errors = validate_login_input(dto.username.as_str(), dto.password.as_str(), dto.method);
        if errors.len() > 0 {
            return Err(MqttServiceError::BadRequest(errors));
        }
        Ok(true)
    }

    /// Grants a client that presents the right password (with an empty
    /// token), or issues a token valid for an hour from `now`.
    pub fn login_with_credentials(&self, backend: &mut MqttBackend, dto: CheckMqttActiveDTO, now: u64) -> (r: Result<(bool, String), MqttServiceError>)
        requires
            self.wf(),
            old(backend).wf(),
        ensures
            final(backend).wf(),
            final(backend).records() == old(backend).records(),
            login_outcome(
                old(backend).records(),
                self.scheme(),
                self.secret_key(),
                dto.username@,
                dto.password@,
                dto.method,
                now,
                r,
            ),
            login_violations(dto.username@, dto.password@, dto.method).len() > 0 ==> final(backend).cache()
                == old(backend).cache(),
    {
        match self.mqtt_input_credentials_validation(&dto) {
            Ok(_) => {},
            Err(e) => {
                return Err(e);
            },
        }
        let mqtt = match backend.lookup(dto.username.as_str(), now) {
            Some(u) => u,
            None => {
                return Err(not_found());
            },
        };
        match dto.method {
            Some(AuthType::Credentials) => {
                if !self.scheme.verify_password(dto.password.as_str(), mqtt.password.as_str()) {
                    return Err(MqttServiceError::InvalidCredentials(String::from_str("Invalid credentials")));
                }
                Ok((true, String::new()))
            },
            _ => {
                if now > u64::MAX - TOKEN_TTL_SECS {
                    return Err(MqttServiceError::JwtError(String::from_str("Clock out of range")));
                }
                match create_jwt_at(dto.username.as_str(), self.secret_key.as_str(), now) {
                    Ok(token) => Ok((true, token)),
                    Err(e) => Err(MqttServiceError::JwtError(e)),
                }
            },
        }
    }
}

/// Decides whether a user may access a topic.
pub struct MqttAclService {}

impl MqttAclService {
    pub fn new() -> MqttAclService {
        MqttAclService {  }
    }

    /// A superuser may access every topic; any other user only the topics
    /// under `users/<username>/`.
    pub fn check_acl_permission(&self, backend: &mut MqttBackend, dto: MqttAclDTO, now: u64) -> (r: Result<bool, MqttServiceError>)
        requires
            old(backend).wf(),
        ensures
            final(backend).wf(),
            final(backend).records() == old(backend).records(),
            acl_outcome(old(backend).records(), dto.username@, dto.topic@, r),
            acl_violations(dto.username@, dto.topic@).len() > 0 ==> final(backend).cache() == old(backend).cache(),
    {
        let errors = validate_acl_input(dto.username.as_str(), dto.topic.as_str());
        if errors.len() > 0 {
            return Err(MqttServiceError::BadRequest(errors));
        }
        let mqtt = match backend.lookup(dto.username.as_str(), now) {
            Some(u) => u,
            None => {
                return Err(not_found());
            },
        };
        if mqtt.is_superuser {
            return Ok(true);
        }
        let mut prefix = String::from_str("users/");
        prefix.append(dto.username.as_str());
        prefix.append("/");
        Ok(starts_with_text(dto.topic.as_str(), prefix.as_str()))
    }
}

/// Recovers stored passwords, for deployments that encrypt them.
pub struct GetMqttCredentialsService {
    cipher: PasswordCipher,
}

impl GetMqttCredentialsService {
    pub closed spec fn wf(&self) -> bool {
        self.cipher.wf()
    }

    pub closed spec fn key(&self) -> Seq<u8> {
        self.cipher.key()
    }

    pub fn new(cipher: PasswordCipher) -> (r: GetMqttCredentialsService)
        requires
            cipher.wf(),
        ensures
            r.wf(),
            r.key() == cipher.key(),
    {
        GetMqttCredentialsService { cipher }
    }

    /// The username and its decrypted password. A username without a record
    /// is `MqttNotFound`; a payload that does not decrypt is an internal error.
    pub fn get_credentials(&self, backend: &mut MqttBackend, username: &str, now: u64) -> (r: Result<MqttCredentialsDTO, MqttServiceError>)
        requires
            self.wf(),
            old(backend).wf(),
        ensures
            final(backend).wf(),
            final(backend).records() == old(backend).records(),
            !old(backend).records().contains_key(username@) ==> r matches Err(MqttServiceError::MqttNotFound(_)),
            old(backend).records().contains_key(username@) ==> match decrypted(
                self.key(),
                old(backend).records()[username@].password@,
            ) {
                Some(p) => r matches Ok(c) && c.username@ == username@ && c.password@ == p,
                None => r matches Err(MqttServiceError::InternalError(_)),
            },
    {
        let mqtt = match backend.lookup(username, now) {
            Some(u) => u,
            None => {
                return Err(not_found());
            },
        };
        proof {
            old(backend).lemma_records_keyed();
        }
        match self.cipher.decrypt_password(mqtt.password.as_str()) {
            Ok(password) => Ok(MqttCredentialsDTO { username: mqtt.username, password }),
            Err(e) => Err(MqttServiceError::InternalError(e)),
        }
    }
}

} // verus!
