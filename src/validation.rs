//! Input validation that reports every violated field at once.

use vstd::prelude::*;
use vstd::string::*;
use crate::model::{AuthType, ValidationError};
use crate::text::{is_blank, is_blank_text};

verus! {

/// The fields named by a list of validation errors, in order.
pub open spec fn fields_of(errors: Seq<ValidationError>) -> Seq<Seq<char>> {
    errors.map_values(|e: ValidationError| e.field@)
}

/// `field` when the condition holds, nothing otherwise.
pub open spec fn field_if(cond: bool, field: Seq<char>) -> Seq<Seq<char>> {
    if cond {
        seq![field]
    } else {
        Seq::empty()
    }
}

/// Violations of a credential creation request.
pub open spec fn credential_violations(username: Seq<char>, password: Seq<char>) -> Seq<Seq<char>> {
    field_if(is_blank(username), "username"@) + field_if(is_blank(password), "password"@)
}

/// Violations of a username-only request.
pub open spec fn username_violations(username: Seq<char>) -> Seq<Seq<char>> {
    field_if(is_blank(username), "username"@)
}

/// Violations of an authentication request: a password is needed only for
/// the credentials method.
pub open spec fn login_violations(username: Seq<char>, password: Seq<char>, method: Option<AuthType>) -> Seq<Seq<char>> {
    field_if(is_blank(username), "username"@) + field_if(method is None, "method"@) + field_if(
        method == Some(AuthType::Credentials) && is_blank(password),
        "password"@,
    )
}

/// Violations of a topic-access request.
pub open spec fn acl_violations(username: Seq<char>, topic: Seq<char>) -> Seq<Seq<char>> {
    field_if(is_blank(username), "username"@) + field_if(is_blank(topic), "topic"@)
}

fn push_error(errors: &mut Vec<ValidationError>, field: &str, message: &str)
    ensures
        fields_of(final(errors)@) == fields_of(old(errors)@).push(field@),
{
    errors.push(ValidationError { field: String::from_str(field), message: String::from_str(message) });
    assert(fields_of(final(errors)@) =~= fields_of(old(errors)@).push(field@));
}

pub fn validate_username(username: &str) -> (r: Vec<ValidationError>)
    ensures
        fields_of(r@) == username_violations(username@),
{
    let mut errors: Vec<ValidationError> = Vec::new();
    if is_blank_text(username) {
        push_error(&mut errors, "username", "username cannot be empty");
    }
    assert(fields_of(errors@) =~= username_violations(username@));
    errors
}

pub fn validate_credential_input(username: &str, password: &str) -> (r: Vec<ValidationError>)
    ensures
        fields_of(r@) == credential_violations(username@, password@),
{
    let mut errors: Vec<ValidationError> = Vec::new();
    if is_blank_text(username) {
        push_error(&mut errors, "username", "username cannot be empty");
    }
    if is_blank_text(password) {
        push_error(&mut errors, "password", "password cannot be empty");
    }
    assert(fields_of(errors@) =~= credential_violations(username@, password@));
    errors
}

pub fn validate_login_input(username: &str, password: &str, method: Option<AuthType>) -> (r: Vec<ValidationError>)
    ensures
        fields_of(r@) == login_violations(username@, password@, method),
{
    let mut errors: Vec<ValidationError> = Vec::new();
    if is_blank_text(username) {
        push_error(&mut errors, "username", "username cannot be empty");
    }
    match method {
        None => {
            push_error(&mut errors, "method", "method cannot be empty");
        },
        Some(AuthType::Credentials) => {
            if is_blank_text(password) {
                push_error(&mut errors, "password", "Password is required for credentials login");
            }
        },
        Some(AuthType::Jwt) => {},
    }
    assert(fields_of(errors@) =~= login_violations(username@, password@, method));
    errors
}

pub fn validate_acl_input(username: &str, topic: &str) -> (r: Vec<ValidationError>)
    ensures
        fields_of(r@) == acl_violations(username@, topic@),
{
    let mut errors: Vec<ValidationError> = Vec::new();
    if is_blank_text(username) {
        push_error(&mut errors, "username", "username cannot be empty");
    }
    if is_blank_text(topic) {
        push_error(&mut errors, "topic", "topic cannot be empty");
    }
    assert(fields_of(errors@) =~= acl_violations(username@, topic@));
    errors
}

} // verus!
