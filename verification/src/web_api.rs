//! The requests of the client: where each one goes and which credential
//! authorizes it.

use vstd::prelude::*;
use vstd::string::StringExecFns;

verus! {

/// The two credentials of a client. Neither stands in for the other.
#[derive(Debug, Clone, Copy, PartialEq, Eq, Structural)]
pub enum Credential {
    /// Authorizes the handshake.
    App,
    /// Authorizes every plain request.
    OAuth,
}

/// The requests that the client makes.
#[derive(Debug, Clone, Copy, PartialEq, Eq, Structural)]
pub enum Endpoint {
    /// Asks for the one-time URL of a connection.
    OpenConnection,
    /// Asks for the list of members.
    UsersList,
    /// Asks for the list of channels.
    ConversationsList,
    /// Posts a message to a channel.
    PostMessage,
}

impl Credential {
    /// The environment variable from which the credential is taken where
    /// the caller passes none.
    pub fn variable(&self) -> (r: &'static str)
        ensures
            r@ == match *self {
                Credential::App => "SLACK_APP_TOKEN"@,
                Credential::OAuth => "SLACK_OAUTH_TOKEN"@,
            },
    {
        match self {
            Credential::App => "SLACK_APP_TOKEN",
            Credential::OAuth => "SLACK_OAUTH_TOKEN",
        }
    }
}

impl Endpoint {
    /// The address that the request is posted to.
    pub fn url(&self) -> (r: &'static str)
        ensures
            r@ == match *self {
                Endpoint::OpenConnection => "https://slack.com/api/apps.connections.open"@,
                Endpoint::UsersList => "https://slack.com/api/users.list"@,
                Endpoint::ConversationsList => "https://slack.com/api/conversations.list"@,
                Endpoint::PostMessage => "https://slack.com/api/chat.postMessage"@,
            },
    {
        match self {
            Endpoint::OpenConnection => "https://slack.com/api/apps.connections.open",
            Endpoint::UsersList => "https://slack.com/api/users.list",
            Endpoint::ConversationsList => "https://slack.com/api/conversations.list",
            Endpoint::PostMessage => "https://slack.com/api/chat.postMessage",
        }
    }

    /// The credential that authorizes the request: the app credential for
    /// the handshake and for nothing else.
    pub fn credential(&self) -> (r: Credential)
        ensures
            r == Credential::App <==> *self == Endpoint::OpenConnection,
            r == Credential::OAuth <==> *self != Endpoint::OpenConnection,
    {
        match self {
            Endpoint::OpenConnection => Credential::App,
            _ => Credential::OAuth,
        }
    }
}

/// The token that a request presents: the one that the caller passed, and
/// only where the caller passed none the one found in the environment.
/// `None` means that there is no token to present.
pub fn bearer_token(given: Option<&str>, ambient: Option<String>) -> (r: Option<String>)
    ensures
        r.deep_view() == match given {
            Some(token) => Some(token@),
            None => ambient.deep_view(),
        },
{
    match given {
        Some(token) => Some(token.to_owned()),
        None => ambient,
    }
}

/// The value of the authorization header that presents `token` as a bearer
/// credential.
pub fn authorization(token: &str) -> (r: String)
    ensures
        r@ == "Bearer "@ + token@,
{
    String::from_str("Bearer ").concat(token)
}

/// The form that posts `text` to the channel `channel`: its fields, by name,
/// in the order in which they are sent.
pub fn message_form(channel: &str, text: &str) -> (r: Vec<(String, String)>)
    ensures
        r.deep_view() == seq![("channel"@, channel@), ("text"@, text@)],
{
    let mut form: Vec<(String, String)> = Vec::new();
    form.push(("channel".to_owned(), channel.to_owned()));
    form.push(("text".to_owned(), text.to_owned()));
    assert(form.deep_view() =~= seq![("channel"@, channel@), ("text"@, text@)]);
    form
}

} // verus!
