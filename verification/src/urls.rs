//! URLs, with the `url` crate behind the functions that parse, join and
//! extend them.

use crate::model::{ForgeError, ForgeErrorView};
use crate::text::concat2;
use url::Url;
use vstd::prelude::*;
use vstd::string::*;

verus! {

/// Makes `url::Url` known as an opaque type.
#[verifier::external_type_specification]
#[verifier::external_body]
pub struct ExUrl(Url);

/// The name, for contracts, of the text of a URL: its serialization.
pub uninterp spec fn url_text(url: Url) -> Seq<char>;

/// The name, for contracts, of what `Url::parse` makes of a text: the text
/// of the URL it reads, or the message of the error it reports.
pub uninterp spec fn url_parse(text: Seq<char>) -> Result<Seq<char>, Seq<char>>;

/// The name, for contracts, of what `Url::join` makes of a reference
/// against a base URL: the text of the URL it reads, or the message of the
/// error it reports.
pub uninterp spec fn url_join(base: Seq<char>, reference: Seq<char>) -> Result<
    Seq<char>,
    Seq<char>,
>;

/// The name, for contracts, of the text of a URL after a pair was appended
/// to its query.
pub uninterp spec fn url_with_pair(url: Seq<char>, key: Seq<char>, value: Seq<char>) -> Seq<
    char,
>;

/// The most characters that a URL and a pair for its query may have
/// together when the pair is appended.
pub const MAX_URL_MATERIAL: usize = 0x0fff_ffff;

/// The text of a URL that was read, or the message in its place.
pub open spec fn read_view(r: Result<Url, String>) -> Result<Seq<char>, Seq<char>> {
    match r {
        Ok(url) => Ok(url_text(url)),
        Err(m) => Err(m@),
    }
}

/// The text of an optional URL.
pub open spec fn opt_url_text(url: Option<Url>) -> Option<Seq<char>> {
    match url {
        Some(u) => Some(url_text(u)),
        None => None,
    }
}

/// Calls `Url::parse`.
///
/// Trusted: the outcome depends on the text alone. Nothing is claimed of
/// which texts are read, nor of what is read from them.
#[verifier::external_body]
pub(crate) fn parse_url(text: &str) -> (r: Result<Url, String>)
    ensures
        read_view(r) == url_parse(text@),
{
    match Url::parse(text) {
        Ok(url) => Ok(url),
        Err(e) => Err(e.to_string()),
    }
}

/// Calls `Url::join`.
///
/// Trusted: the outcome depends on the text of the base and on the
/// reference alone.
#[verifier::external_body]
pub(crate) fn join_url(base: &Url, reference: &str) -> (r: Result<Url, String>)
    ensures
        read_view(r) == url_join(url_text(*base), reference@),
{
    match base.join(reference) {
        Ok(url) => Ok(url),
        Err(e) => Err(e.to_string()),
    }
}

/// Calls `append_pair` on the `query_pairs_mut` of a URL.
///
/// Trusted: the text afterwards depends on the text before, the key and
/// the value alone. The call does not return for a URL that grows beyond
/// `u32::MAX` bytes; the bound keeps far from that.
#[verifier::external_body]
pub(crate) fn append_query_pair(url: &mut Url, key: &str, value: &str)
    requires
        url_text(*old(url)).len() + key@.len() + value@.len() <= MAX_URL_MATERIAL,
    ensures
        url_text(*final(url)) == url_with_pair(url_text(*old(url)), key@, value@),
{
    url.query_pairs_mut().append_pair(key, value);
}

/// Calls `Url::as_str`.
///
/// Trusted: the result is the text of the URL.
#[verifier::external_body]
pub(crate) fn url_string(url: &Url) -> (r: String)
    ensures
        r@ == url_text(*url),
{
    url.as_str().to_string()
}

/// Calls `Url::clone`.
///
/// Trusted: the copy has the text of the URL it was made from.
#[verifier::external_body]
pub(crate) fn clone_url(url: &Url) -> (r: Url)
    ensures
        url_text(r) == url_text(*url),
{
    url.clone()
}

/// The error for an endpoint that could not be put together.
pub open spec fn endpoint_failure(cause: Seq<char>) -> ForgeErrorView {
    ForgeErrorView::Internal("failed to construct endpoint url: "@ + cause)
}

/// The endpoint at `path` under a base URL, given what joining gave.
pub open spec fn endpoint_of(joined: Result<Seq<char>, Seq<char>>) -> Result<
    Seq<char>,
    ForgeErrorView,
> {
    match joined {
        Ok(text) => Ok(text),
        Err(cause) => Err(endpoint_failure(cause)),
    }
}

/// The text of an endpoint, or the error in its place.
pub open spec fn endpoint_view(r: Result<Url, ForgeError>) -> Result<Seq<char>, ForgeErrorView> {
    match r {
        Ok(url) => Ok(url_text(url)),
        Err(e) => Err(e@),
    }
}

/// The endpoint, given what joining its path to the base URL gave: the URL,
/// or an internal error with the cause.
pub fn endpoint_from(joined: Result<Url, String>) -> (r: Result<Url, ForgeError>)
    ensures
        endpoint_view(r) == endpoint_of(read_view(joined)),
{
    match joined {
        Ok(url) => Ok(url),
        Err(cause) => Err(
            ForgeError::Internal(concat2("failed to construct endpoint url: ", cause.as_str())),
        ),
    }
}

/// The endpoint at `path` under `base`.
pub fn endpoint(base: &Url, path: &str) -> (r: Result<Url, ForgeError>)
    ensures
        endpoint_view(r) == endpoint_of(url_join(url_text(*base), path@)),
{
    endpoint_from(join_url(base, path))
}

/// The text of a URL.
pub fn to_text(url: &Url) -> (r: String)
    ensures
        r@ == url_text(*url),
{
    url_string(url)
}

/// Reads a URL. The error is the parser's message.
pub fn parse(text: &str) -> (r: Result<Url, String>)
    ensures
        read_view(r) == url_parse(text@),
{
    parse_url(text)
}

/// Appends a pair to the query of a URL, where the URL and the pair have
/// no more than `MAX_URL_MATERIAL` characters together; says whether it did.
pub fn append_pair(url: &mut Url, key: &str, value: &str) -> (done: bool)
    ensures
        done == (url_text(*old(url)).len() + key@.len() + value@.len() <= MAX_URL_MATERIAL),
        done ==> url_text(*final(url)) == url_with_pair(url_text(*old(url)), key@, value@),
        !done ==> url_text(*final(url)) == url_text(*old(url)),
{
    let text = url_string(url);
    let a = text.as_str().unicode_len();
    let b = key.unicode_len();
    let c = value.unicode_len();
    if a <= MAX_URL_MATERIAL && b <= MAX_URL_MATERIAL - a && c <= MAX_URL_MATERIAL - a - b {
        append_query_pair(url, key, value);
        true
    } else {
        false
    }
}

} // verus!
