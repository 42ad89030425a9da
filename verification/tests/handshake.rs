use slackr::handshake::{socket_url, HandshakeError, SocketResponse};
use slackr::web_api::{authorization, bearer_token, message_form, Credential, Endpoint};

#[test]
fn a_refusal_gives_no_url() {
    assert_eq!(socket_url(r#"{"ok": false}"#), Err(HandshakeError::Refused));
    assert_eq!(
        socket_url(r#"{"ok":false,"error":"invalid_auth"}"#),
        Err(HandshakeError::Refused)
    );
    assert_eq!(
        socket_url(r#"{"ok":false,"url":"wss://example.test/link"}"#),
        Err(HandshakeError::Refused)
    );
}

#[test]
fn ok_without_a_url_is_an_error() {
    assert_eq!(socket_url(r#"{"ok": true, "url": null}"#), Err(HandshakeError::MissingUrl));
    assert_eq!(socket_url(r#"{"ok": true}"#), Err(HandshakeError::MissingUrl));
}

#[test]
fn ok_with_a_url_grants_it() {
    assert_eq!(
        socket_url(r#"{"ok":true,"url":"wss:\/\/wss-primary.slack.com\/link\/?ticket=1&app_id=2"}"#),
        Ok("wss://wss-primary.slack.com/link/?ticket=1&app_id=2".to_string())
    );
    assert_eq!(socket_url(r#"{"url":"wss://a","ok":true,"x":[1]}"#), Ok("wss://a".to_string()));
    assert_eq!(socket_url(r#"{"ok":true,"url":""}"#), Ok(String::new()));
}

#[test]
fn a_body_of_another_shape_is_malformed() {
    for body in [
        "",
        "<html>",
        "null",
        "[]",
        "{}",
        r#"{"url":"wss://a"}"#,
        r#"{"ok":"true","url":"wss://a"}"#,
        r#"{"ok":1,"url":"wss://a"}"#,
        r#"{"ok":null}"#,
        r#"{"ok":true,"url":7}"#,
        r#"{"ok":false,"url":{}}"#,
        r#"{"ok":true,"url":"wss://a"} trailing"#,
    ] {
        assert_eq!(socket_url(body), Err(HandshakeError::Malformed), "{}", body);
    }
}

#[test]
fn an_answer_is_decoded_and_judged() {
    let response = SocketResponse::parse(r#"{"ok":true,"url":"wss://a"}"#).unwrap();
    assert!(response.ok);
    assert_eq!(response.url.as_deref(), Some("wss://a"));
    assert_eq!(response.into_url(), Ok("wss://a".to_string()));
    let refused = SocketResponse::parse(r#"{"ok":false}"#).unwrap();
    assert!(!refused.ok);
    assert_eq!(refused.url, None);
    assert!(SocketResponse::parse(r#"{"ok":"no"}"#).is_none());

    let made = |ok: bool, url: Option<&str>| SocketResponse { ok, url: url.map(str::to_string) };
    assert_eq!(made(true, Some("u")).into_url(), Ok("u".to_string()));
    assert_eq!(made(true, None).into_url(), Err(HandshakeError::MissingUrl));
    assert_eq!(made(false, Some("u")).into_url(), Err(HandshakeError::Refused));
    assert_eq!(made(false, None).into_url(), Err(HandshakeError::Refused));

    let members = vec![
        ("ok".to_string(), "true".to_string()),
        ("url".to_string(), "\"wss://b\"".to_string()),
    ];
    assert_eq!(
        SocketResponse::from_members(&members).unwrap().into_url(),
        Ok("wss://b".to_string())
    );
    assert!(SocketResponse::from_members(&Vec::new()).is_none());
}

#[test]
fn handshake_errors_have_their_words() {
    assert_eq!(HandshakeError::Refused.message(), "Slack API responed with an error");
    assert_eq!(HandshakeError::MissingUrl.message(), "URL not found");
    assert_eq!(HandshakeError::Malformed.message(), "error decoding response body");
}

#[test]
fn the_token_is_presented_as_a_bearer() {
    assert_eq!(authorization("xapp-1-A"), "Bearer xapp-1-A");
    assert_eq!(authorization(""), "Bearer ");
    assert_eq!(authorization("a b"), "Bearer a b");
}

#[test]
fn requests_go_to_their_addresses() {
    assert_eq!(Endpoint::OpenConnection.url(), "https://slack.com/api/apps.connections.open");
    assert_eq!(Endpoint::UsersList.url(), "https://slack.com/api/users.list");
    assert_eq!(Endpoint::ConversationsList.url(), "https://slack.com/api/conversations.list");
    assert_eq!(Endpoint::PostMessage.url(), "https://slack.com/api/chat.postMessage");
}

#[test]
fn the_two_credentials_are_kept_apart() {
    assert_eq!(Endpoint::OpenConnection.credential(), Credential::App);
    assert_eq!(Endpoint::UsersList.credential(), Credential::OAuth);
    assert_eq!(Endpoint::ConversationsList.credential(), Credential::OAuth);
    assert_eq!(Endpoint::PostMessage.credential(), Credential::OAuth);
    assert_eq!(Credential::App.variable(), "SLACK_APP_TOKEN");
    assert_eq!(Credential::OAuth.variable(), "SLACK_OAUTH_TOKEN");
}

#[test]
fn a_message_is_posted_as_a_form() {
    assert_eq!(
        message_form("C1", "hello world"),
        vec![
            ("channel".to_string(), "C1".to_string()),
            ("text".to_string(), "hello world".to_string())
        ]
    );
}

#[test]
fn the_given_token_comes_before_the_environment() {
    assert_eq!(bearer_token(Some("given"), Some("env".to_string())), Some("given".to_string()));
    assert_eq!(bearer_token(Some("given"), None), Some("given".to_string()));
    assert_eq!(bearer_token(None, Some("env".to_string())), Some("env".to_string()));
    assert_eq!(bearer_token(None, None), None);
    assert_eq!(bearer_token(Some(""), Some("env".to_string())), Some(String::new()));
}
