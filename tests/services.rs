use base64::Engine;
use mqtt_auth::backend::MqttBackend;
use mqtt_auth::cache::CacheRepository;
use mqtt_auth::model::{
    AuthType, CheckMqttActiveDTO, Claims, CreateMqttDTO, MqttAclDTO, MqttEntity, MqttServiceError,
};
use mqtt_auth::password::{PasswordCipher, PasswordScheme};
use mqtt_auth::service::{
    CreateMqttService, DeleteMqttService, GetMqttCredentialsService, GetMqttListService,
    MqttAclService, MqttLoginService,
};
use mqtt_auth::token::{create_jwt, create_jwt_at, create_jwt_from_clock};

const KEY_HEX: &str = "000102030405060708090a0b0c0d0e0f101112131415161718191a1b1c1d1e1f";
const NOW: u64 = 1_700_000_000;

fn scheme() -> PasswordScheme {
    PasswordScheme::Encrypted(PasswordCipher::from_hex(KEY_HEX).ok().unwrap())
}

fn create_req(username: &str, password: &str, is_superuser: bool) -> CreateMqttDTO {
    CreateMqttDTO { username: username.to_string(), password: password.to_string(), is_superuser }
}

fn login_req(username: &str, password: &str, method: Option<AuthType>) -> CheckMqttActiveDTO {
    CheckMqttActiveDTO { username: username.to_string(), password: password.to_string(), method }
}

fn acl_req(username: &str, topic: &str) -> MqttAclDTO {
    MqttAclDTO { username: username.to_string(), topic: topic.to_string() }
}

fn fields(r: &MqttServiceError) -> Vec<String> {
    match r {
        MqttServiceError::BadRequest(errors) => errors.iter().map(|e| e.field.clone()).collect(),
        _ => Vec::new(),
    }
}

#[test]
fn unknown_user_not_found_cold_and_warm() {
    let mut backend = MqttBackend::new();
    assert!(backend.lookup("ghost", NOW).is_none());
    let creator = CreateMqttService::new(scheme());
    assert!(creator.create_mqtt(&mut backend, create_req("alice", "p", false), NOW).is_ok());
    assert!(backend.lookup("alice", NOW).is_some());
    assert!(backend.lookup("alice", NOW).is_some());
    assert!(backend.lookup("ghost", NOW).is_none());
    assert!(backend.lookup("ghost", NOW).is_none());
}

#[test]
fn create_twice_conflicts() {
    let mut backend = MqttBackend::new();
    let creator = CreateMqttService::new(scheme());
    assert!(creator.create_mqtt(&mut backend, create_req("u", "p", false), NOW).is_ok());
    let second = creator.create_mqtt(&mut backend, create_req("u", "p", false), NOW);
    assert!(matches!(second, Err(MqttServiceError::Conflict(_))));
    let list = GetMqttListService::new().get_mqtt_list(&backend).ok().unwrap();
    assert_eq!(list.len(), 1);
    assert_eq!(list[0].username, "u");
    assert!(!list[0].is_superuser);
}

#[test]
fn authenticate_with_password() {
    let mut backend = MqttBackend::new();
    let creator = CreateMqttService::new(scheme());
    assert!(creator.create_mqtt(&mut backend, create_req("u", "p", false), NOW).is_ok());
    let login = MqttLoginService::new(scheme(), "signing-secret".to_string());
    let ok = login.login_with_credentials(&mut backend, login_req("u", "p", Some(AuthType::Credentials)), NOW);
    assert!(matches!(ok, Ok((true, ref t)) if t.is_empty()));
    let bad = login.login_with_credentials(&mut backend, login_req("u", "wrong", Some(AuthType::Credentials)), NOW);
    assert!(matches!(bad, Err(MqttServiceError::InvalidCredentials(_))));
}

#[test]
fn authenticate_with_argon2_hash() {
    let mut backend = MqttBackend::new();
    let creator = CreateMqttService::new(PasswordScheme::Argon2);
    assert!(creator.create_mqtt(&mut backend, create_req("u", "p", false), NOW).is_ok());
    let stored = backend.lookup("u", NOW).unwrap();
    assert_ne!(stored.password, "p");
    let login = MqttLoginService::new(PasswordScheme::Argon2, "signing-secret".to_string());
    let ok = login.login_with_credentials(&mut backend, login_req("u", "p", Some(AuthType::Credentials)), NOW);
    assert!(matches!(ok, Ok((true, ref t)) if t.is_empty()));
    let bad = login.login_with_credentials(&mut backend, login_req("u", "wrong", Some(AuthType::Credentials)), NOW);
    assert!(matches!(bad, Err(MqttServiceError::InvalidCredentials(_))));
}

#[test]
fn jwt_login_issues_token_for_an_hour() {
    let mut backend = MqttBackend::new();
    let creator = CreateMqttService::new(scheme());
    assert!(creator.create_mqtt(&mut backend, create_req("u", "p", false), NOW).is_ok());
    let login = MqttLoginService::new(scheme(), "signing-secret".to_string());
    let r = login.login_with_credentials(&mut backend, login_req("u", "", Some(AuthType::Jwt)), NOW);
    let (granted, token) = match r {
        Ok(v) => v,
        Err(_) => panic!("jwt login failed"),
    };
    assert!(granted);
    assert!(!token.is_empty());
    let parts: Vec<&str> = token.split('.').collect();
    assert_eq!(parts.len(), 3);
    let claims = base64::engine::general_purpose::URL_SAFE_NO_PAD.decode(parts[1]).unwrap();
    let claims = String::from_utf8(claims).unwrap();
    assert_eq!(claims, "{\"username\":\"u\",\"exp\":1700003600,\"iat\":1700000000,\"sub\":\"IoTNet\"}");
    let message = format!("{}.{}", parts[0], parts[1]);
    let key = jsonwebtoken::DecodingKey::from_secret(b"signing-secret");
    assert!(jsonwebtoken::crypto::verify(parts[2], message.as_bytes(), &key, jsonwebtoken::Algorithm::HS256).unwrap());
    let wrong = jsonwebtoken::DecodingKey::from_secret(b"other-secret");
    assert!(!jsonwebtoken::crypto::verify(parts[2], message.as_bytes(), &wrong, jsonwebtoken::Algorithm::HS256).unwrap());
}

#[test]
fn claims_json_is_exact() {
    let claims = Claims::issued_at("a\"b", 5);
    assert_eq!(claims.exp, 3605);
    assert_eq!(claims.to_json(), "{\"username\":\"a\\\"b\",\"exp\":3605,\"iat\":5,\"sub\":\"IoTNet\"}");
    let ctl = Claims::issued_at("a\u{2}", 1);
    assert_eq!(ctl.to_json(), "{\"username\":\"a\\u0002\",\"exp\":3601,\"iat\":1,\"sub\":\"IoTNet\"}");
    let zero = Claims::issued_at("z", 0);
    assert_eq!(zero.to_json(), "{\"username\":\"z\",\"exp\":3600,\"iat\":0,\"sub\":\"IoTNet\"}");
}

#[test]
fn tokens_from_the_clock() {
    let token = create_jwt("u", "k").ok().unwrap();
    assert_eq!(token.split('.').count(), 3);
    let fixed = create_jwt_at("u", "k", 10).ok().unwrap();
    assert_eq!(fixed, create_jwt_at("u", "k", 10).ok().unwrap());
    assert_ne!(fixed, create_jwt_at("u", "k", 11).ok().unwrap());
    assert_eq!(create_jwt_from_clock("u", "k", Some(10)).ok().unwrap(), fixed);
    assert!(create_jwt_from_clock("u", "k", None).is_err());
    assert!(create_jwt_from_clock("u", "k", Some(u64::MAX - 3599)).is_err());
    assert!(create_jwt_from_clock("u", "k", Some(u64::MAX - 3600)).is_ok());
}

#[test]
fn lookup_after_create_sees_record() {
    let mut backend = MqttBackend::new();
    assert!(backend.lookup("u", NOW).is_none());
    let creator = CreateMqttService::new(scheme());
    assert!(creator.create_mqtt(&mut backend, create_req("u", "p", true), NOW).is_ok());
    let found = backend.lookup("u", NOW).unwrap();
    assert_eq!(found.username, "u");
    assert!(found.is_superuser);
}

#[test]
fn expired_cache_entry_is_not_returned() {
    let mut cache = CacheRepository::new();
    cache.set_cached_user(MqttEntity::create("u", "secret", false), 100);
    assert!(cache.get_cached_user("u", 100 + 3600).is_some());
    assert!(cache.get_cached_user("u", 100 + 3601).is_none());
    assert!(cache.get_cached_user("u", 100).is_none());
    cache.set_cached_user(MqttEntity::create("v", "secret", false), 100);
    cache.invalidate_user("v");
    assert!(cache.get_cached_user("v", 100).is_none());
    cache.set_cached_user(MqttEntity::create("w", "s", false), u64::MAX - 10);
    assert!(cache.get_cached_user("w", u64::MAX).is_some());
}

#[test]
fn acl_superuser_and_namespaces() {
    let mut backend = MqttBackend::new();
    let creator = CreateMqttService::new(scheme());
    assert!(creator.create_mqtt(&mut backend, create_req("admin", "p", true), NOW).is_ok());
    assert!(creator.create_mqtt(&mut backend, create_req("alice", "p", false), NOW).is_ok());
    let acl = MqttAclService::new();
    assert!(matches!(acl.check_acl_permission(&mut backend, acl_req("admin", "other/x"), NOW), Ok(true)));
    assert!(matches!(acl.check_acl_permission(&mut backend, acl_req("admin", "users/bob/temp"), NOW), Ok(true)));
    assert!(matches!(acl.check_acl_permission(&mut backend, acl_req("alice", "users/alice/temp"), NOW), Ok(true)));
    assert!(matches!(acl.check_acl_permission(&mut backend, acl_req("alice", "users/bob/temp"), NOW), Ok(false)));
    assert!(matches!(acl.check_acl_permission(&mut backend, acl_req("alice", "users/alice"), NOW), Ok(false)));
    assert!(matches!(acl.check_acl_permission(&mut backend, acl_req("carol", "users/carol/x"), NOW), Err(MqttServiceError::MqttNotFound(_))));
    let bad = acl.check_acl_permission(&mut backend, acl_req(" ", ""), NOW);
    assert_eq!(fields(&bad.err().unwrap()), vec!["username".to_string(), "topic".to_string()]);
}

#[test]
fn delete_then_authenticate_not_found() {
    let mut backend = MqttBackend::new();
    let creator = CreateMqttService::new(scheme());
    assert!(creator.create_mqtt(&mut backend, create_req("u", "p", false), NOW).is_ok());
    let login = MqttLoginService::new(scheme(), "k".to_string());
    assert!(login.login_with_credentials(&mut backend, login_req("u", "p", Some(AuthType::Credentials)), NOW).is_ok());
    let deleter = DeleteMqttService::new();
    assert!(matches!(deleter.delete_mqtt(&mut backend, "u", NOW), Ok(true)));
    let r = login.login_with_credentials(&mut backend, login_req("u", "p", Some(AuthType::Credentials)), NOW);
    assert!(matches!(r, Err(MqttServiceError::MqttNotFound(_))));
    assert!(matches!(deleter.delete_mqtt(&mut backend, "u", NOW), Err(MqttServiceError::MqttNotFound(_))));
    let blank = deleter.delete_mqtt(&mut backend, "  ", NOW);
    assert_eq!(fields(&blank.err().unwrap()), vec!["username".to_string()]);
}

#[test]
fn bad_requests_list_every_field() {
    let mut backend = MqttBackend::new();
    let creator = CreateMqttService::new(scheme());
    let r = creator.create_mqtt(&mut backend, create_req("", " ", false), NOW);
    assert_eq!(fields(&r.err().unwrap()), vec!["username".to_string(), "password".to_string()]);
    let login = MqttLoginService::new(scheme(), "k".to_string());
    let r = login.login_with_credentials(&mut backend, login_req("", "", None), NOW);
    assert_eq!(fields(&r.err().unwrap()), vec!["username".to_string(), "method".to_string()]);
    let r = login.login_with_credentials(&mut backend, login_req("", "", Some(AuthType::Credentials)), NOW);
    assert_eq!(fields(&r.err().unwrap()), vec!["username".to_string(), "password".to_string()]);
    let r = login.login_with_credentials(&mut backend, login_req("u", "", Some(AuthType::Jwt)), NOW);
    assert!(matches!(r, Err(MqttServiceError::MqttNotFound(_))));
    assert!(login.mqtt_input_credentials_validation(&login_req("u", "", Some(AuthType::Jwt))).is_ok());
}

#[test]
fn credentials_are_recovered() {
    let mut backend = MqttBackend::new();
    let creator = CreateMqttService::new(scheme());
    assert!(creator.create_mqtt(&mut backend, create_req("u", "s3cret", false), NOW).is_ok());
    let service = GetMqttCredentialsService::new(PasswordCipher::from_hex(KEY_HEX).ok().unwrap());
    let creds = service.get_credentials(&mut backend, "u", NOW).ok().unwrap();
    assert_eq!(creds.username, "u");
    assert_eq!(creds.password, "s3cret");
    assert!(matches!(service.get_credentials(&mut backend, "x", NOW), Err(MqttServiceError::MqttNotFound(_))));
    let argon = CreateMqttService::new(PasswordScheme::Argon2);
    assert!(argon.create_mqtt(&mut backend, create_req("h", "p", false), NOW).is_ok());
    assert!(matches!(service.get_credentials(&mut backend, "h", NOW), Err(MqttServiceError::InternalError(_))));
}
