//! The mapping from an upstream HTTP status to the canonical errors, shared
//! by all adapters.

use crate::json::{field, get_field, get_str, json_parse, result_view, str_of, Json};
use crate::model::{ForgeError, ForgeErrorView};
use vstd::prelude::*;

verus! {

/// Whether a status is one of success, 200 to 299.
pub open spec fn success_status(status: u16) -> bool {
    200 <= status <= 299
}

/// The message of a provider's error body, given what reading the body as
/// JSON gave: the string under `error.message` where there is one, else the
/// body itself.
pub open spec fn message_of(parsed: Result<crate::json::JsonValue, Seq<char>>, body: Seq<char>) -> Seq<
    char,
> {
    match parsed {
        Ok(v) => match str_of(field(v.get("error"@), "message"@)) {
            Some(m) => m,
            None => body,
        },
        Err(_) => body,
    }
}

/// The message of a provider's error body.
pub open spec fn provider_error(body: Seq<char>) -> Seq<char> {
    message_of(json_parse(body), body)
}

/// The canonical error for a status that is no success.
pub open spec fn http_error(status: u16, body: Seq<char>) -> ForgeErrorView {
    if status == 401 || status == 403 {
        ForgeErrorView::Authentication
    } else if status == 429 {
        ForgeErrorView::RateLimited
    } else {
        ForgeErrorView::Provider(provider_error(body))
    }
}

/// Whether a status is one of success, 200 to 299.
pub fn is_success(status: u16) -> (r: bool)
    ensures
        r == success_status(status),
{
    200 <= status && status <= 299
}

/// The message of a provider's error body, given what reading the body as
/// JSON gave.
pub fn provider_message(parsed: Result<Json, String>, body: String) -> (r: String)
    ensures
        r@ == message_of(result_view(parsed), body@),
{
    match parsed {
        Ok(v) => {
            match get_str(get_field(v.get("error"), "message")) {
                Some(m) => m.to_owned(),
                None => body,
            }
        },
        Err(_) => body,
    }
}

/// The message of a provider's error body: `error.message` of a JSON body,
/// else the raw body.
pub fn extract_provider_error(body: String) -> (r: String)
    ensures
        r@ == provider_error(body@),
{
    let parsed = Json::parse(body.as_str());
    provider_message(parsed, body)
}

/// The canonical error for an upstream status that is no success: 401 and
/// 403 are authentication errors, 429 is a rate limit, anything else is a
/// provider error with the message of the body.
pub fn parse_http_error(status: u16, body: String) -> (r: ForgeError)
    ensures
        r@ == http_error(status, body@),
{
    let message = extract_provider_error(body);
    if status == 401 || status == 403 {
        ForgeError::Authentication
    } else if status == 429 {
        ForgeError::RateLimited
    } else {
        ForgeError::Provider(message)
    }
}

} // verus!
