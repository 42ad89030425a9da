use slackr::client::{active_members, parse_channel_list, parse_user_list, Channel, Member};

const USERS: &str = r#"{"ok":true,"members":[
    {"id":"U1","name":"ann","deleted":false,"real_name":"Ann A.","is_bot":false},
    {"id":"U2","name":"bob","deleted":true},
    {"id":"U3","name":"cy","deleted":false,"real_name":null}
],"cache_ts":1700000000}"#;

const CHANNELS: &str = r#"{"ok":true,"channels":[
    {"id":"C1","name":"general","is_private":false,"num_members":4},
    {"id":"C2","name":"ops","is_private":true}
]}"#;

#[test]
fn a_user_list_is_decoded_in_order() {
    let members = parse_user_list(USERS).unwrap();
    assert_eq!(members.len(), 3);
    assert_eq!(members[0].user_id, "U1");
    assert_eq!(members[0].name, "ann");
    assert_eq!(members[0].real_name.as_deref(), Some("Ann A."));
    assert!(!members[0].deleted);
    assert_eq!(members[1].user_id, "U2");
    assert!(members[1].deleted);
    assert_eq!(members[1].real_name, None);
    assert_eq!(members[2].name, "cy");
    assert_eq!(members[2].real_name, None);
}

#[test]
fn an_empty_user_list_is_a_list() {
    assert!(parse_user_list(r#"{"members":[]}"#).unwrap().is_empty());
}

#[test]
fn one_bad_member_spoils_the_list() {
    assert!(parse_user_list(r#"{"members":[{"id":"U1","name":"ann","deleted":false},{"id":"U2","name":"bob"}]}"#).is_none());
    assert!(parse_user_list(r#"{"members":[{"id":"U1","name":"ann","deleted":false,"real_name":3}]}"#).is_none());
    assert!(parse_user_list(r#"{"members":[7]}"#).is_none());
    assert!(parse_user_list(r#"{"members":{"id":"U1","name":"ann","deleted":false}}"#).is_none());
    assert!(parse_user_list(r#"{"members":null}"#).is_none());
    assert!(parse_user_list(r#"{"ok":false,"error":"invalid_auth"}"#).is_none());
    assert!(parse_user_list("[]").is_none());
    assert!(parse_user_list("").is_none());
}

#[test]
fn a_channel_list_is_decoded_in_order() {
    let channels = parse_channel_list(CHANNELS).unwrap();
    assert_eq!(channels.len(), 2);
    assert_eq!(channels[0].channel_id, "C1");
    assert_eq!(channels[0].name, "general");
    assert!(!channels[0].is_private);
    assert_eq!(channels[1].channel_id, "C2");
    assert_eq!(channels[1].name, "ops");
    assert!(channels[1].is_private);
}

#[test]
fn one_bad_channel_spoils_the_list() {
    assert!(parse_channel_list(r#"{"channels":[{"id":"C1","name":"general"}]}"#).is_none());
    assert!(parse_channel_list(r#"{"channels":[{"id":"C1","name":"general","is_private":0}]}"#).is_none());
    assert!(parse_channel_list(r#"{"members":[]}"#).is_none());
    assert!(parse_channel_list(USERS).is_none());
    assert!(parse_user_list(CHANNELS).is_none());
}

#[test]
fn members_and_channels_decode_on_their_own() {
    let m = Member::parse(r#"{"id":"U1","name":"ann","deleted":false,"real_name":"Ann"}"#).unwrap();
    assert_eq!(m.user_id, "U1");
    assert_eq!(m.real_name.as_deref(), Some("Ann"));
    assert!(Member::parse(r#"{"id":"U1","name":"ann"}"#).is_none());
    let c = Channel::parse(r#"{"id":"C1","name":"general","is_private":true}"#).unwrap();
    assert!(c.is_private);
    assert!(Channel::parse(r#"{"id":"C1","is_private":true}"#).is_none());

    let pairs = |items: &[(&str, &str)]| -> Vec<(String, String)> {
        items.iter().map(|(k, v)| (k.to_string(), v.to_string())).collect()
    };
    let m = Member::from_members(&pairs(&[
        ("deleted", "true"),
        ("id", "\"U7\""),
        ("name", "\"gus\""),
    ]))
    .unwrap();
    assert!(m.deleted);
    assert_eq!(m.user_id, "U7");
    assert_eq!(m.real_name, None);
    let c = Channel::from_members(&pairs(&[
        ("id", "\"C7\""),
        ("is_private", "false"),
        ("name", "\"dev\""),
    ]))
    .unwrap();
    assert_eq!(c.channel_id, "C7");
    assert_eq!(c.name, "dev");
    assert!(Channel::from_members(&pairs(&[("id", "\"C7\"")])).is_none());
}

#[test]
fn deleted_members_are_left_out() {
    let members = parse_user_list(USERS).unwrap();
    let kept = active_members(&members);
    let ids: Vec<&str> = kept.iter().map(|m| m.user_id.as_str()).collect();
    assert_eq!(ids, vec!["U1", "U3"]);
    assert!(active_members(&Vec::new()).is_empty());
    let all_gone = vec![Member {
        deleted: true,
        user_id: "U9".to_string(),
        name: "x".to_string(),
        real_name: None,
    }];
    assert!(active_members(&all_gone).is_empty());
}
