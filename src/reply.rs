//! Reading what the remote side returns: the metadata document, the asset
//! link it names, and the link inside a wallpaper page.

use vstd::prelude::*;
use crate::errors::SyncError;

verus! {

/// Whether serde_json reads `text` as one JSON document (which excludes
/// documents nested deeper than its fixed recursion limit).
pub uninterp spec fn json_parses(text: Seq<char>) -> bool;

/// Whether the JSON document `text` has a top-level `error` member.
pub uninterp spec fn reply_has_error(text: Seq<char>) -> bool;

/// The string at `data.path` in the JSON document `text`, if there is one.
pub uninterp spec fn reply_data_path(text: Seq<char>) -> Option<Seq<char>>;

/// Whether `s` is an absolute URL.
pub uninterp spec fn url_parses(s: Seq<char>) -> bool;

/// The first capture group of the first match of `pattern` in `text`; none
/// when there is no match or the pattern is not a valid expression.
pub uninterp spec fn regex_first_group(pattern: Seq<char>, text: Seq<char>) -> Option<Seq<char>>;

/// Relies on `serde_json::from_str` into a `Value`, which succeeds exactly
/// when the text is a JSON document, and on `serde_json::Value::get` and
/// `serde_json::Value::as_str` on the result: whether it has a top-level
/// `error` member, and the string at `data.path`.
#[verifier::external_body]
fn reply_fields(text: &str) -> (r: Option<(bool, Option<String>)>)
    ensures
        r is Some == json_parses(text@),
        r is Some ==> r->Some_0.0 == reply_has_error(text@),
        r is Some ==> reply_data_path(text@) == (match r->Some_0.1 {
            Some(s) => Some(s@),
            None => None::<Seq<char>>,
        }),
{
    let v = serde_json::from_str::<serde_json::Value>(text).ok()?;
    let path = match v.get("data") {
        Some(d) => match d.get("path") {
            Some(p) => p.as_str(),
            None => None,
        },
        None => None,
    };
    Some((v.get("error").is_some(), path.map(String::from)))
}

/// Relies on `url::Url::parse`, as re-exported by reqwest: whether the text
/// parses as an absolute URL.
#[verifier::external_body]
fn parses_as_url(s: &str) -> (r: bool)
    ensures
        r == url_parses(s@),
{
    reqwest::Url::parse(s).is_ok()
}

/// Relies on `regex::Regex::new` and `regex::Regex::captures`: the first
/// capture group of the leftmost match.
#[verifier::external_body]
fn first_group(pattern: &str, text: &str) -> (r: Option<String>)
    ensures
        regex_first_group(pattern@, text@) == (match r {
            Some(s) => Some(s@),
            None => None::<Seq<char>>,
        }),
{
    let re = regex::Regex::new(pattern).ok()?;
    match re.captures(text)?.get(1) {
        Some(m) => Some(m.as_str().to_string()),
        None => None,
    }
}

/// The outcome of a metadata document that carries an `error` member (or
/// not) and the asset link `link` under `data.path` (if any).
pub fn classify_reply(has_error: bool, link: Option<String>) -> (r: Result<String, SyncError>)
    ensures
        has_error ==> r == Err::<String, SyncError>(SyncError::Api),
        !has_error && link is None ==> r == Err::<String, SyncError>(SyncError::MissingLink),
        !has_error && link is Some ==> r == Ok::<String, SyncError>(link.unwrap()),
{
    if has_error {
        return Err(SyncError::Api);
    }
    match link {
        Some(l) => Ok(l),
        None => Err(SyncError::MissingLink),
    }
}

/// What a metadata reply `t` comes to: `Parse` when it is not JSON, else
/// `Api` when it has an `error` member, else the string at `data.path`, else
/// `MissingLink`.
pub open spec fn reply_outcome(t: Seq<char>) -> Result<Seq<char>, SyncError> {
    if !json_parses(t) {
        Err(SyncError::Parse)
    } else if reply_has_error(t) {
        Err(SyncError::Api)
    } else {
        match reply_data_path(t) {
            Some(l) => Ok(l),
            None => Err(SyncError::MissingLink),
        }
    }
}

/// The asset link named by a metadata document, or why there is none.
pub fn read_reply(text: &str) -> (r: Result<String, SyncError>)
    ensures
        match reply_outcome(text@) {
            Ok(l) => r matches Ok(s) && s@ == l,
            Err(e) => r == Err::<String, SyncError>(e),
        },
{
    match reply_fields(text) {
        None => Err(SyncError::Parse),
        Some((has_error, link)) => classify_reply(has_error, link),
    }
}

/// Whether an asset link can be requested.
pub fn is_valid_link(link: &str) -> (r: bool)
    ensures
        r == url_parses(link@),
{
    parses_as_url(link)
}

/// The pattern of the wallpaper image tag in a wallpaper page.
pub const IMG_TAG_PATTERN: &'static str = "<img[^>]*id=\"wallpaper\"[^>]*src=\"([^\">]+)\"";

/// The image link of a wallpaper page: the `src` of the first `img` tag with
/// id `wallpaper`.
pub fn scrape_img_link(curl_data: String) -> (r: Result<String, SyncError>)
    ensures
        r matches Ok(s) ==> regex_first_group(IMG_TAG_PATTERN@, curl_data@) == Some(s@),
        r is Err <==> regex_first_group(IMG_TAG_PATTERN@, curl_data@) is None,
        r is Err ==> r == Err::<String, SyncError>(SyncError::MissingLink),
{
    match first_group(IMG_TAG_PATTERN, curl_data.as_str()) {
        Some(s) => Ok(s),
        None => Err(SyncError::MissingLink),
    }
}

} // verus!
