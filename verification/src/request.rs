//! The inbound control interface: which stream a start request means, where
//! its remuxed output goes, and whether the request carries an accepted key.

use crate::config::{holds_key, stream_position, AppConfig};
use crate::srs::{has_rtsp_scheme, is_rtsp_url, safe_name, safe_name_of};
use crate::text::{strip_leading, trim, trimmed_of, without_leading};
use vstd::prelude::*;
use vstd::string::*;

verus! {

/// Why a start request is rejected.
#[derive(Clone, Copy, Debug, PartialEq, Eq, Structural)]
pub enum RequestError {
    /// The address given with the request is not an RTSP address.
    InvalidScheme,
    /// No stream of that name is configured.
    UnknownStream,
    /// The configured API address of the relay server is not a URL.
    InvalidApiUrl,
}

/// The stream a start request means.
#[derive(Clone, Debug, PartialEq, Eq)]
pub struct Source {
    pub name: String,
    pub url: String,
}

/// The host of the URL that `url` parses to: `None` where it does not parse,
/// `Some(None)` where the URL has no host.
pub uninterp spec fn host_of_url(url: Seq<char>) -> Option<Option<Seq<char>>>;

/// A parsed host as characters.
pub open spec fn host_view(host: Option<Option<String>>) -> Option<Option<Seq<char>>> {
    match host {
        None => None,
        Some(None) => Some(None),
        Some(Some(h)) => Some(Some(h@)),
    }
}

/// The host that the remuxed output is sent to, given the parsed host of
/// the relay server's API address: that host, or this machine where the
/// address has none.
pub open spec fn relay_host_of(parsed: Option<Option<Seq<char>>>) -> Option<Seq<char>> {
    match parsed {
        None => None,
        Some(None) => Some("127.0.0.1"@),
        Some(Some(h)) => Some(h),
    }
}

/// The address that the remuxed output of a stream is sent to.
pub open spec fn relay_url_of(host: Seq<char>, safe_name: Seq<char>) -> Seq<char> {
    "rtmp://"@ + host + ":1935/live/"@ + safe_name
}

/// The key that an `Authorization` header carries: the header without its
/// leading `Bearer ` marks, trimmed.
pub open spec fn bearer_token_of(header: Seq<char>) -> Seq<char> {
    trimmed_of(without_leading(header, "Bearer "@))
}

/// Calls `reqwest::Url::parse` (the parser of the `url` crate) and, on the
/// URL it gives, `Url::host_str`. The result is `None` where the address
/// does not parse as an absolute URL, and otherwise the URL's host, if it
/// has one. Of the result only this is claimed: it is determined by the
/// address's characters.
#[verifier::external_body]
fn parse_host(url: &str) -> (r: Option<Option<String>>)
    ensures
        host_view(r) == host_of_url(url@),
{
    match reqwest::Url::parse(url) {
        Ok(parsed) => Some(parsed.host_str().map(str::to_owned)),
        Err(_) => None,
    }
}

/// Resolves a start request. With a non-empty address the request means
/// that address, which must be an RTSP address; without one it means the
/// first configured stream of the requested name.
pub fn resolve_source(config: &AppConfig, name: &str, url: Option<&str>) -> (r: Result<
    Source,
    RequestError,
>)
    ensures
        url is Some && url->0@.len() > 0 ==> {
            if has_rtsp_scheme(url->0@) {
                r is Ok && r->Ok_0.name@ == name@ && r->Ok_0.url@ == url->0@
            } else {
                r == Err::<Source, RequestError>(RequestError::InvalidScheme)
            }
        },
        url is None || url->0@.len() == 0 ==> {
            let at = stream_position(config.streams@, name@);
            if at < config.streams@.len() {
                r is Ok && r->Ok_0.name@ == name@ && r->Ok_0.url@ == config.streams@[at].url@
            } else {
                r == Err::<Source, RequestError>(RequestError::UnknownStream)
            }
        },
{
    match url {
        Some(custom) if !custom.is_empty() => {
            if is_rtsp_url(custom) {
                Ok(Source { name: name.to_owned(), url: custom.to_owned() })
            } else {
                Err(RequestError::InvalidScheme)
            }
        },
        _ => match config.find_stream(name) {
            Some(stream) => Ok(Source { name: stream.name.clone(), url: stream.url.clone() }),
            None => Err(RequestError::UnknownStream),
        },
    }
}

/// The host that the remuxed output is sent to, given the parsed host of
/// the relay server's API address.
pub fn relay_host(parsed: Option<Option<String>>) -> (r: Result<String, RequestError>)
    ensures
        match relay_host_of(host_view(parsed)) {
            Some(h) => r is Ok && r->Ok_0@ == h,
            None => r == Err::<String, RequestError>(RequestError::InvalidApiUrl),
        },
{
    match parsed {
        None => Err(RequestError::InvalidApiUrl),
        Some(None) => Ok("127.0.0.1".to_owned()),
        Some(Some(h)) => Ok(h),
    }
}

/// The address that the remuxed output of a stream is sent to.
pub fn relay_url(host: &str, safe_name: &str) -> (r: String)
    ensures
        r@ == relay_url_of(host@, safe_name@),
{
    let mut url = "rtmp://".to_owned();
    url.append(host);
    url.append(":1935/live/");
    url.append(safe_name);
    url
}

/// The address that the remuxed output of stream `name` is sent to, on the
/// host of the relay server whose API is at `api_url`.
pub fn output_url(api_url: &str, name: &str) -> (r: Result<String, RequestError>)
    ensures
        match relay_host_of(host_of_url(api_url@)) {
            Some(h) => r is Ok && r->Ok_0@ == relay_url_of(h, safe_name_of(name@)),
            None => r == Err::<String, RequestError>(RequestError::InvalidApiUrl),
        },
{
    match relay_host(parse_host(api_url)) {
        Ok(host) => {
            let safe = safe_name(name);
            Ok(relay_url(host.as_str(), safe.as_str()))
        },
        Err(e) => Err(e),
    }
}

/// The key that an `Authorization` header carries.
pub fn bearer_token(header: &str) -> (r: String)
    ensures
        r@ == bearer_token_of(header@),
{
    let bare = strip_leading(header, "Bearer ");
    trim(bare.as_str())
}

/// Whether the `Authorization` header carries one of the accepted keys.
pub fn is_authorized(config: &AppConfig, header: &str) -> (r: bool)
    ensures
        r == holds_key(config.api_keys@, bearer_token_of(header@)),
{
    let token = bearer_token(header);
    config.has_api_key(token.as_str())
}

} // verus!
