//! Short-lived signed tokens that bind a username: the claims are written as
//! JSON here, framed as a JWT, and signed with HMAC-SHA256.

use vstd::prelude::*;
use vstd::string::*;
use crate::model::Claims;
use crate::text::{decimal, escape_json_strict, push_decimal, push_escaped_strict};

verus! {

/// Lifetime of an issued token, in seconds.
pub const TOKEN_TTL_SECS: u64 = 3600;

/// Base64url without padding of the UTF-8 bytes of `text`.
pub uninterp spec fn base64url_of(text: Seq<char>) -> Seq<char>;

/// HMAC-SHA256 signature of the UTF-8 bytes of `message` under `secret`, in
/// base64url without padding.
pub uninterp spec fn hs256_signature(secret: Seq<char>, message: Seq<char>) -> Seq<char>;

/// Relies on `Engine::encode` of base64 with the `URL_SAFE_NO_PAD` engine.
#[verifier::external_body]
fn base64url_encode(text: &str) -> (r: String)
    ensures
        r@ == base64url_of(text@),
{
    base64::Engine::encode(&base64::engine::general_purpose::URL_SAFE_NO_PAD, text.as_bytes())
}

/// Relies on `jsonwebtoken::crypto::sign` with an HMAC key from
/// `EncodingKey::from_secret` and `Algorithm::HS256`, under the default
/// crypto provider: HMAC takes a key of any length, so signing never fails.
#[verifier::external_body]
fn hs256_sign(secret: &str, message: &str) -> (r: Option<String>)
    ensures
        r is Some,
        r matches Some(s) ==> s@ == hs256_signature(secret@, message@),
{
    let key = jsonwebtoken::EncodingKey::from_secret(secret.as_bytes());
    jsonwebtoken::crypto::sign(message.as_bytes(), &key, jsonwebtoken::Algorithm::HS256).ok()
}

/// Relies on `SystemTime::duration_since` of std, applied to
/// `SystemTime::now()` and `UNIX_EPOCH`: whole seconds since the Unix epoch,
/// or `None` for a clock set before it.
#[verifier::external_body]
fn unix_time_now() -> (r: Option<u64>) {
    std::time::SystemTime::now().duration_since(std::time::UNIX_EPOCH).ok().map(|d| d.as_secs())
}

/// The issuer named in every token.
pub open spec fn issuer() -> Seq<char> {
    "IoTNet"@
}

/// The JSON object of a token's claims.
pub open spec fn claims_json(username: Seq<char>, exp: nat, iat: nat, sub: Seq<char>) -> Seq<char> {
    "{\"username\":\""@ + escape_json_strict(username) + "\",\"exp\":"@ + decimal(exp) + ",\"iat\":"@
        + decimal(iat) + ",\"sub\":\""@ + escape_json_strict(sub) + "\"}"@
}

/// The JWT header: HMAC-SHA256.
pub open spec fn jwt_header() -> Seq<char> {
    "{\"alg\":\"HS256\",\"typ\":\"JWT\"}"@
}

/// The part of a token that is signed.
pub open spec fn signing_input(claims: Seq<char>) -> Seq<char> {
    base64url_of(jwt_header()) + "."@ + base64url_of(claims)
}

/// A compact JWT carrying `claims`, signed with `secret`.
pub open spec fn signed_token(secret: Seq<char>, claims: Seq<char>) -> Seq<char> {
    signing_input(claims) + "."@ + hs256_signature(secret, signing_input(claims))
}

/// The token issued to `username` at `now`: it expires exactly
/// `TOKEN_TTL_SECS` after it was issued.
pub open spec fn token_at(username: Seq<char>, secret: Seq<char>, now: nat) -> Seq<char> {
    signed_token(secret, claims_json(username, (now + TOKEN_TTL_SECS) as nat, now, issuer()))
}

impl Claims {
    /// The claims of a token issued to `username` at `now`.
    pub fn issued_at(username: &str, now: u64) -> (r: Claims)
        requires
            now <= u64::MAX - TOKEN_TTL_SECS,
        ensures
            r.username@ == username@,
            r.iat == now,
            r.exp == now + TOKEN_TTL_SECS,
            r.sub@ == issuer(),
    {
        Claims {
            username: String::from_str(username),
            exp: now + TOKEN_TTL_SECS,
            iat: now,
            sub: String::from_str("IoTNet"),
        }
    }

    /// The claims as a JSON object.
    pub fn to_json(&self) -> (r: String)
        ensures
            r@ == claims_json(self.username@, self.exp as nat, self.iat as nat, self.sub@),
    {
        let mut out = String::from_str("{\"username\":\"");
        push_escaped_strict(&mut out, self.username.as_str());
        out.append("\",\"exp\":");
        push_decimal(&mut out, self.exp);
        out.append(",\"iat\":");
        push_decimal(&mut out, self.iat);
        out.append(",\"sub\":\"");
        push_escaped_strict(&mut out, self.sub.as_str());
        out.append("\"}");
        assert(out@ =~= claims_json(self.username@, self.exp as nat, self.iat as nat, self.sub@));
        out
    }
}

/// Issues a token for `username` as of `now`.
pub fn create_jwt_at(username: &str, secret: &str, now: u64) -> (r: Result<String, String>)
    requires
        now <= u64::MAX - TOKEN_TTL_SECS,
    ensures
        r is Ok,
        r matches Ok(t) ==> t@ == token_at(username@, secret@, now as nat),
{
    let claims = Claims::issued_at(username, now);
    let body = claims.to_json();
    let header = base64url_encode("{\"alg\":\"HS256\",\"typ\":\"JWT\"}");
    let payload = base64url_encode(body.as_str());
    let mut input = header;
    input.append(".");
    input.append(payload.as_str());
    match hs256_sign(secret, input.as_str()) {
        Some(sig) => {
            let mut token = input;
            token.append(".");
            token.append(sig.as_str());
            assert(token@ =~= token_at(username@, secret@, now as nat));
            Ok(token)
        },
        None => Err(String::from_str("Token signing failed")),
    }
}

/// Whether a clock reading exists and leaves room for a token's expiry.
pub open spec fn clock_in_range(now: Option<u64>) -> bool {
    now matches Some(t) && t <= u64::MAX - TOKEN_TTL_SECS
}

/// Issues a token for `username` from a clock reading: the token of
/// `create_jwt_at` where the reading is within the range of timestamps a token
/// can carry, an error where it is missing or beyond it.
pub fn create_jwt_from_clock(username: &str, secret: &str, now: Option<u64>) -> (r: Result<String, String>)
    ensures
        clock_in_range(now) ==> (r matches Ok(tok) && tok@ == token_at(username@, secret@, now->0 as nat)),
        !clock_in_range(now) ==> r is Err,
{
    match now {
        Some(t) => if t <= u64::MAX - TOKEN_TTL_SECS {
            create_jwt_at(username, secret, t)
        } else {
            Err(String::from_str("Clock out of range"))
        },
        None => Err(String::from_str("Clock before the Unix epoch")),
    }
}

/// Issues a token for `username` as of the current time.
pub fn create_jwt(username: &str, secret: &str) -> (r: Result<String, String>)
    ensures
        r matches Ok(t) ==> exists|now: nat| t@ == #[trigger] token_at(username@, secret@, now),
{
    create_jwt_from_clock(username, secret, unix_time_now())
}

} // verus!
