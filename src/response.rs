//! The JSON response of a user-create call:
//! `{"isSuccess":<bool>,"message":"<text>","data":{"username":"<text>"}|null}`.

use vstd::prelude::*;
use vstd::string::*;
use crate::text::{escape_json, push_escaped};

verus! {

pub open spec fn bool_json(b: bool) -> Seq<char> {
    if b {
        "true"@
    } else {
        "false"@
    }
}

pub open spec fn user_data_json(username: Option<Seq<char>>) -> Seq<char> {
    match username {
        Some(u) => "{\"username\":\""@ + escape_json(u) + "\"}"@,
        None => "null"@,
    }
}

pub open spec fn user_create_response(username: Option<Seq<char>>, is_success: bool, message: Seq<char>) -> Seq<char> {
    "{\"isSuccess\":"@ + bool_json(is_success) + ",\"message\":\""@ + escape_json(message) + "\",\"data\":"@
        + user_data_json(username) + "}"@
}

/// Builds the response of a user-create call; `username` is `None` for a
/// response that carries no data. The message and username are escaped.
pub fn build_user_create_response(username: Option<&str>, is_success: bool, message: &str) -> (r: String)
    ensures
        r@ == user_create_response(
            match username {
                Some(u) => Some(u@),
                None => None,
            },
            is_success,
            message@,
        ),
{
    let mut out = String::from_str("{\"isSuccess\":");
    if is_success {
        out.append("true");
    } else {
        out.append("false");
    }
    out.append(",\"message\":\"");
    push_escaped(&mut out, message);
    out.append("\",\"data\":");
    match username {
        Some(u) => {
            out.append("{\"username\":\"");
            push_escaped(&mut out, u);
            out.append("\"}");
        },
        None => {
            out.append("null");
        },
    }
    out.append("}");
    let ghost uv = match username {
        Some(u) => Some(u@),
        None => None,
    };
    assert(out@ =~= user_create_response(uv, is_success, message@));
    out
}

} // verus!
