use qqbot::gateway::{parse_inbound, InboundAuthor, InboundData};

fn data() -> InboundData {
    InboundData {
        id: Some("mid".to_string()),
        content: Some("hi".to_string()),
        author: Some(InboundAuthor {
            user_openid: Some("uo".to_string()),
            member_openid: Some("mo".to_string()),
            id: Some("aid".to_string()),
        }),
        group_openid: Some("go".to_string()),
        guild_id: Some("gid".to_string()),
        channel_id: Some("cid".to_string()),
    }
}

#[test]
fn routes_each_message_event() {
    let cases = [
        ("C2C_MESSAGE_CREATE", "uo", "uo"),
        ("GROUP_AT_MESSAGE_CREATE", "go", "mo"),
        ("DIRECT_MESSAGE_CREATE", "gid", "aid"),
        ("GUILD_MESSAGE_CREATE", "cid", "aid"),
        ("GUILD_AT_MESSAGE_CREATE", "cid", "aid"),
    ];
    for (ev, chat, user) in cases {
        let m = parse_inbound(ev, data()).unwrap();
        assert_eq!(m.chat_id, chat);
        assert_eq!(m.user_id, user);
        assert_eq!(m.text, "hi");
        assert_eq!(m.platform, "qqbot");
        assert!(!m.is_dm);
    }
}

#[test]
fn unknown_event_is_dropped() {
    assert!(parse_inbound("MESSAGE_DELETE", data()).is_none());
}

#[test]
fn blank_text_is_dropped() {
    let mut d = data();
    d.content = Some(" \u{a0}\t".to_string());
    assert!(parse_inbound("C2C_MESSAGE_CREATE", d).is_none());
    let mut d = data();
    d.content = None;
    assert!(parse_inbound("C2C_MESSAGE_CREATE", d).is_none());
}

#[test]
fn missing_chat_or_user_is_dropped() {
    let mut d = data();
    d.author = None;
    assert!(parse_inbound("GROUP_AT_MESSAGE_CREATE", d).is_none());
    let mut d = data();
    d.group_openid = None;
    assert!(parse_inbound("GROUP_AT_MESSAGE_CREATE", d).is_none());
    let mut d = data();
    d.channel_id = Some(String::new());
    assert!(parse_inbound("GUILD_MESSAGE_CREATE", d).is_none());
}

#[test]
fn ids_are_not_trimmed() {
    let mut d = data();
    d.author = Some(InboundAuthor { user_openid: Some(" u ".to_string()), member_openid: None, id: None });
    let m = parse_inbound("C2C_MESSAGE_CREATE", d).unwrap();
    assert_eq!(m.chat_id, " u ");
}
