//! Records, request and response shapes, and errors.

use vstd::prelude::*;

verus! {

/// The authoritative credential of one broker user.
pub struct MqttEntity {
    pub username: String,
    /// Password material: a one-way hash or a reversibly encrypted password,
    /// depending on the scheme in use.
    pub password: String,
    pub is_superuser: bool,
    /// Informational only; never used in decisions.
    pub client_id: Option<String>,
}

impl MqttEntity {
    /// Whether this is the fresh record that creating `username` with this
    /// password material and flag gives.
    pub open spec fn is_record_of(&self, username: Seq<char>, password: Seq<char>, is_superuser: bool) -> bool {
        &&& self.username@ == username
        &&& self.password@ == password
        &&& self.is_superuser == is_superuser
        &&& self.client_id is None
    }

    pub fn create(username: &str, password: &str, is_superuser: bool) -> (r: MqttEntity)
        ensures
            r.username@ == username@,
            r.password@ == password@,
            r.is_superuser == is_superuser,
            r.client_id is None,
    {
        MqttEntity {
            username: String::from_str(username),
            password: String::from_str(password),
            is_superuser,
            client_id: None,
        }
    }

    /// A field-by-field copy.
    pub fn duplicate(&self) -> (r: MqttEntity)
        ensures
            r == *self,
    {
        let client_id = match &self.client_id {
            Some(c) => Some(c.clone()),
            None => None,
        };
        MqttEntity {
            username: self.username.clone(),
            password: self.password.clone(),
            is_superuser: self.is_superuser,
            client_id,
        }
    }
}

/// The claims carried by an issued token.
pub struct Claims {
    pub username: String,
    /// Expiry, in seconds since the Unix epoch.
    pub exp: u64,
    /// Issue time, in seconds since the Unix epoch.
    pub iat: u64,
    pub sub: String,
}

/// One entry of a credential listing; the password material is never listed.
pub struct MqttDTO {
    pub username: String,
    pub is_superuser: bool,
}

pub struct GetMqttListDTO {
    pub mqtts: Vec<MqttDTO>,
}

/// A request to create a credential.
pub struct CreateMqttDTO {
    pub username: String,
    pub password: String,
    pub is_superuser: bool,
}

/// How a client proves its identity.
#[derive(PartialEq, Eq, Structural, Clone, Copy, Debug)]
pub enum AuthType {
    /// Username and password.
    Credentials,
    /// Issue a token for the username.
    Jwt,
}

/// An authentication request.
pub struct CheckMqttActiveDTO {
    pub username: String,
    pub password: String,
    pub method: Option<AuthType>,
}

pub struct MqttJwtDTO {
    pub token: String,
}

/// A topic-access request.
pub struct MqttAclDTO {
    pub username: String,
    pub topic: String,
}

/// A credential with its password recovered.
pub struct MqttCredentialsDTO {
    pub username: String,
    pub password: String,
}

/// One violated input field.
pub struct ValidationError {
    pub field: String,
    pub message: String,
}

/// The body of a response that reports input-validation failures.
pub struct ErrorResponseValidation {
    pub success: bool,
    pub message: String,
    pub result: Option<String>,
    pub details: Option<Vec<ValidationError>>,
}

/// Failures of the credential store.
#[derive(PartialEq, Eq, Structural, Clone, Copy, Debug)]
pub enum MqttRepositoryError {
    /// No record for the username.
    NotFound,
    /// A record for the username exists already.
    Conflict,
}

/// Failures of the decision services.
pub enum MqttServiceError {
    MqttNotFound(String),
    InvalidCredentials(String),
    Conflict(String),
    /// Every violated field, in one list.
    BadRequest(Vec<ValidationError>),
    JwtError(String),
    InternalError(String),
}

} // verus!
