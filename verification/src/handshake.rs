//! The handshake: what the control plane answers to a request to open a
//! connection, and the one-time URL that the answer grants.

use crate::json::{
    bool_field, bool_member, json_object, object_members, optional_string_field,
    optional_string_member, Members,
};
use vstd::prelude::*;

verus! {

/// Why a handshake gave no URL.
#[derive(Debug, Clone, Copy, PartialEq, Eq, Structural)]
pub enum HandshakeError {
    /// The answer is no JSON object with a truth value `ok` and, where it
    /// has a `url` that is not `null`, a string there.
    Malformed,
    /// The control plane answered that the request was not in order.
    Refused,
    /// The control plane accepted the request and named no URL.
    MissingUrl,
}

/// Struct to parse WebSocket url request
#[derive(Debug)]
pub struct SocketResponse {
    pub ok: bool,
    pub url: Option<String>,
}

/// What a `SocketResponse` holds.
pub struct SocketResponseView {
    pub ok: bool,
    pub url: Option<Seq<char>>,
}

impl View for SocketResponse {
    type V = SocketResponseView;

    open spec fn view(&self) -> SocketResponseView {
        SocketResponseView { ok: self.ok, url: self.url.deep_view() }
    }
}

/// The answer that an object of these members is: `ok` must be a truth
/// value, and `url` a string where it is there and not `null`.
pub open spec fn response_of(m: Members) -> Option<SocketResponseView> {
    let ok = bool_member(m, "ok"@);
    let url = optional_string_member(m, "url"@);
    if ok is Some && url is Some {
        Some(SocketResponseView { ok: ok->0, url: url->0 })
    } else {
        None
    }
}

/// The answer that `text` encodes, where it encodes one.
pub open spec fn decode_response(text: Seq<char>) -> Option<SocketResponseView> {
    match json_object(text) {
        Some(m) => response_of(m),
        None => None,
    }
}

/// The URL that an answer grants: the one it names, if it says `ok`.
pub open spec fn granted(response: SocketResponseView) -> Result<Seq<char>, HandshakeError> {
    if !response.ok {
        Err(HandshakeError::Refused)
    } else {
        match response.url {
            Some(url) => Ok(url),
            None => Err(HandshakeError::MissingUrl),
        }
    }
}

/// The URL that the body of an answer grants.
pub open spec fn socket_url_of(body: Seq<char>) -> Result<Seq<char>, HandshakeError> {
    match decode_response(body) {
        Some(response) => granted(response),
        None => Err(HandshakeError::Malformed),
    }
}

/// The outcome of a handshake, the URL seen through its view.
pub open spec fn outcome(r: Result<String, HandshakeError>) -> Result<Seq<char>, HandshakeError> {
    match r {
        Ok(url) => Ok(url@),
        Err(e) => Err(e),
    }
}

impl HandshakeError {
    /// The error in words.
    pub fn message(&self) -> (r: String)
        ensures
            r@ == match *self {
                HandshakeError::Malformed => "error decoding response body"@,
                HandshakeError::Refused => "Slack API responed with an error"@,
                HandshakeError::MissingUrl => "URL not found"@,
            },
    {
        match self {
            HandshakeError::Malformed => "error decoding response body".to_owned(),
            HandshakeError::Refused => "Slack API responed with an error".to_owned(),
            HandshakeError::MissingUrl => "URL not found".to_owned(),
        }
    }
}

impl SocketResponse {
    /// Makes an answer of the members of an object.
    pub fn from_members(members: &Vec<(String, String)>) -> (r: Option<SocketResponse>)
        ensures
            crate::client::viewed(r) == response_of(members.deep_view()),
    {
        let ok = bool_field(members, "ok");
        let url = optional_string_field(members, "url");
        match (ok, url) {
            (Some(ok), Some(url)) => Some(SocketResponse { ok, url }),
            _ => None,
        }
    }

    /// Decodes the body of an answer.
    pub fn parse(text: &str) -> (r: Option<SocketResponse>)
        ensures
            crate::client::viewed(r) == decode_response(text@),
    {
        match object_members(text) {
            Some(members) => SocketResponse::from_members(&members),
            None => None,
        }
    }

    /// The URL that this answer grants. An answer that does not say `ok` is
    /// a refusal, whatever else it holds; one that says `ok` must name the
    /// URL.
    pub fn into_url(self) -> (r: Result<String, HandshakeError>)
        ensures
            outcome(r) == granted(self@),
    {
        if self.ok {
            match self.url {
                Some(url) => Ok(url),
                None => Err(HandshakeError::MissingUrl),
            }
        } else {
            Err(HandshakeError::Refused)
        }
    }
}

/// Reads the one-time connection URL out of the body with which the control
/// plane answered. Every error means that no connection is to be attempted.
pub fn socket_url(body: &str) -> (r: Result<String, HandshakeError>)
    ensures
        outcome(r) == socket_url_of(body@),
{
    match SocketResponse::parse(body) {
        Some(response) => response.into_url(),
        None => Err(HandshakeError::Malformed),
    }
}

} // verus!
