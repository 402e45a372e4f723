//! The relay server's client side: what is checked before the server is
//! asked to play a stream, what it is asked, and the address viewers get.
//! Sending the request is the caller's part.

use crate::text::{
    contains, lowercase, lowercase_of, occurs_in, replace, replaced, starts_with, trim, trimmed_of,
};
use vstd::prelude::*;
use vstd::string::*;

verus! {

/// Whether the address begins with the RTSP scheme, in any letter case.
pub open spec fn has_rtsp_scheme(url: Seq<char>) -> bool {
    "rtsp://"@.is_prefix_of(lowercase_of(url))
}

/// Whether nothing is left of the address once it is trimmed: it holds
/// nothing but whitespace.
pub open spec fn is_blank(url: Seq<char>) -> bool {
    trimmed_of(url).len() == 0
}

/// The stream's name as it appears in addresses: spaces become underscores,
/// letters lowercase.
pub open spec fn safe_name_of(name: Seq<char>) -> Seq<char> {
    lowercase_of(replaced(name, " "@, "_"@))
}

/// The template with each `{stream_name}` replaced by `safe_name`.
pub open spec fn filled(template: Seq<char>, safe_name: Seq<char>) -> Seq<char> {
    replaced(template, "{stream_name}"@, safe_name)
}

/// Whether the API address points at this machine, in which case the
/// server is not asked.
pub open spec fn is_local(api_url: Seq<char>) -> bool {
    occurs_in(api_url, "localhost"@)
}

/// Why a stream cannot be played.
#[derive(Clone, Copy, Debug, PartialEq, Eq, Structural)]
pub enum SrsError {
    /// The source address is empty or blank.
    EmptyUrl,
    /// The source address is not an RTSP address.
    InvalidUrl,
}

/// What the relay server is asked.
#[derive(Clone, Debug, PartialEq, Eq)]
pub struct SrsRequest {
    pub url: String,
    pub stream_name: String,
}

/// What the relay server answers.
#[derive(Clone, Debug)]
pub struct SrsResponse {
    pub code: i32,
    pub server: Option<String>,
    pub session_id: Option<String>,
}

/// What is to be done to play a stream: the request to send to the relay
/// server, if it is to be asked, and the address viewers play from.
#[derive(Clone, Debug, PartialEq, Eq)]
pub struct PlayPlan {
    pub request: Option<SrsRequest>,
    pub playback_url: String,
}

/// Whether the address begins with the RTSP scheme, in any letter case.
pub fn is_rtsp_url(url: &str) -> (r: bool)
    ensures
        r == has_rtsp_scheme(url@),
{
    let lowered = lowercase(url);
    starts_with(lowered.as_str(), "rtsp://")
}

/// The stream's name as it appears in addresses.
pub fn safe_name(name: &str) -> (r: String)
    ensures
        r@ == safe_name_of(name@),
{
    let spaced = replace(name, " ", "_");
    lowercase(spaced.as_str())
}

/// The template with each `{stream_name}` replaced by `safe_name`.
pub fn fill_template(template: &str, safe_name: &str) -> (r: String)
    ensures
        r@ == filled(template@, safe_name@),
{
    replace(template, "{stream_name}", safe_name)
}

/// Checks a source address, given what is left of it after trimming and its
/// lowercase form: it must not be blank, and must be an RTSP address.
pub fn check_source(trimmed: &str, lowered: &str) -> (r: Result<(), SrsError>)
    ensures
        trimmed@.len() == 0 ==> r == Err::<(), SrsError>(SrsError::EmptyUrl),
        trimmed@.len() != 0 && !"rtsp://"@.is_prefix_of(lowered@) ==> r == Err::<(), SrsError>(
            SrsError::InvalidUrl,
        ),
        trimmed@.len() != 0 && "rtsp://"@.is_prefix_of(lowered@) ==> r is Ok,
{
    if trimmed.is_empty() {
        Err(SrsError::EmptyUrl)
    } else if !starts_with(lowered, "rtsp://") {
        Err(SrsError::InvalidUrl)
    } else {
        Ok(())
    }
}

/// Client of the relay server's API.
#[derive(Clone, Debug)]
pub struct SrsClient {
    api_url: String,
    playback_url_template: String,
}

impl SrsClient {
    pub closed spec fn api(&self) -> Seq<char> {
        self.api_url@
    }

    pub closed spec fn template(&self) -> Seq<char> {
        self.playback_url_template@
    }

    /// A client of the API at `api_url` whose viewers play from addresses
    /// made of `playback_url_template`.
    pub fn new(api_url: String, playback_url_template: String) -> (c: Self)
        ensures
            c.api() == api_url@,
            c.template() == playback_url_template@,
    {
        SrsClient { api_url, playback_url_template }
    }

    pub fn api_url(&self) -> (r: &str)
        ensures
            r@ == self.api(),
    {
        self.api_url.as_str()
    }

    pub fn playback_url_template(&self) -> (r: &str)
        ensures
            r@ == self.template(),
    {
        self.playback_url_template.as_str()
    }

    /// Plans the playing of stream `name` from `rtsp_url`: rejects a blank
    /// address and one that is not RTSP; otherwise gives the address that
    /// viewers play from and, unless the API is local, the request to send
    /// to the relay server.
    pub fn play_stream(&self, name: &str, rtsp_url: &str) -> (r: Result<PlayPlan, SrsError>)
        ensures
            is_blank(rtsp_url@) ==> r == Err::<PlayPlan, SrsError>(SrsError::EmptyUrl),
            !is_blank(rtsp_url@) && !has_rtsp_scheme(rtsp_url@) ==> r == Err::<PlayPlan, SrsError>(
                SrsError::InvalidUrl,
            ),
            !is_blank(rtsp_url@) && has_rtsp_scheme(rtsp_url@) ==> {
                &&& r is Ok
                &&& r->Ok_0.playback_url@ == filled(self.template(), safe_name_of(name@))
                &&& r->Ok_0.request is None <==> is_local(self.api())
                &&& r->Ok_0.request is Some ==> r->Ok_0.request->0.url@ == rtsp_url@
                    && r->Ok_0.request->0.stream_name@ == name@
            },
    {
        let lowered = lowercase(rtsp_url);
        let trimmed = trim(rtsp_url);
        match check_source(trimmed.as_str(), lowered.as_str()) {
            Err(e) => Err(e),
            Ok(_) => {
                let request = if contains(self.api_url.as_str(), "localhost") {
                    None
                } else {
                    Some(SrsRequest { url: rtsp_url.to_owned(), stream_name: name.to_owned() })
                };
                let safe = safe_name(name);
                let playback_url = fill_template(self.playback_url_template.as_str(), safe.as_str());
                Ok(PlayPlan { request, playback_url })
            },
        }
    }
}

} // verus!
