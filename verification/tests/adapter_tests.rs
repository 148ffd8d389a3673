use qqbot::adapter::QqBotAdapter;
use qqbot::config::{default_max_progress_messages, default_true, GatewayError, QqBotConfig};
use qqbot::gateway::{frame_action, FrameAction, Handshake, InboundAuthor, InboundData, WsAction, WsFrame, WsPayload, QQ_INTENTS};
use qqbot::state::{C2cStreamState, StreamNoticeState, TurnMetadata};

fn config() -> QqBotConfig {
    QqBotConfig::new("app".to_string(), "secret".to_string())
}

fn adapter() -> QqBotAdapter {
    QqBotAdapter::new(config()).ok().unwrap()
}

fn empty_data() -> InboundData {
    InboundData {
        id: None,
        content: None,
        author: None,
        group_openid: None,
        guild_id: None,
        channel_id: None,
    }
}

fn payload(op: Option<i64>) -> WsPayload {
    WsPayload {
        op,
        seq: None,
        event_type: None,
        heartbeat_interval: None,
        session_id: None,
        data: empty_data(),
    }
}

#[test]
fn defaults_match_serde_defaults() {
    assert!(default_true());
    assert_eq!(default_max_progress_messages(), 2);
    let c = config();
    assert!(!c.markdown_support);
    assert!(c.c2c_streaming && c.progress_coalesce && c.metadata_footer && c.notify_on_stream_end);
    assert_eq!(c.max_progress_messages, 2);
}

#[test]
fn stream_notice_state_default_is_empty() {
    let s = StreamNoticeState::default();
    assert!(s.last_sent.is_none());
    assert!(s.recent_sent.is_empty());
    let c = C2cStreamState::default();
    assert!(c.id.is_none() && c.index == 0 && !c.active && c.msg_type.is_none());
}

#[test]
fn new_requires_app_id() {
    let r = QqBotAdapter::new(QqBotConfig::new("  \t".to_string(), "secret".to_string()));
    match r {
        Err(GatewayError::Platform(m)) => {
            assert_eq!(m, "QQBot requires app_id (platforms.qqbot.extra.app_id)")
        }
        _ => panic!("expected a platform error"),
    }
}

#[test]
fn new_requires_client_secret() {
    let r = QqBotAdapter::new(QqBotConfig::new("app".to_string(), "\u{3000}".to_string()));
    match r {
        Err(GatewayError::Platform(m)) => assert_eq!(
            m,
            "QQBot requires client_secret (platforms.qqbot.extra.client_secret)"
        ),
        _ => panic!("expected a platform error"),
    }
}

#[test]
fn new_adapter_is_empty() {
    let a = adapter();
    assert!(a.access_token.is_none());
    assert_eq!(a.c2c_stream_state.len(), 0);
    assert_eq!(a.turn_metadata.len(), 0);
    assert_eq!(a.progress_state.len(), 0);
    assert_eq!(a.config.app_id, "app");
}

#[test]
fn token_cache_serves_until_expiry() {
    let mut a = adapter();
    assert_eq!(a.cached_token(0), None);
    let t = a.store_token(1_000, Some("tok".to_string()), Some(120)).ok().unwrap();
    assert_eq!(t, "tok");
    // 120 s lifetime, 60 s margin: usable until 1_000 + 60_000.
    assert_eq!(a.access_token.as_ref().unwrap().1, 61_000);
    assert_eq!(a.cached_token(1_000), Some("tok".to_string()));
    assert_eq!(a.cached_token(60_999), Some("tok".to_string()));
    assert_eq!(a.cached_token(61_000), None);
}

#[test]
fn token_default_lifetime_and_short_lifetime() {
    let mut a = adapter();
    a.store_token(5, Some("x".to_string()), None).ok().unwrap();
    assert_eq!(a.access_token.as_ref().unwrap().1, 5 + 7_140_000);
    a.store_token(5, Some("y".to_string()), Some(30)).ok().unwrap();
    assert_eq!(a.access_token.as_ref().unwrap().1, 5);
    assert_eq!(a.cached_token(5), None);
    a.store_token(7, Some("z".to_string()), Some(u64::MAX)).ok().unwrap();
    assert_eq!(a.access_token.as_ref().unwrap().1, u64::MAX);
}

#[test]
fn blank_or_missing_token_is_refused_and_cache_kept() {
    let mut a = adapter();
    a.store_token(0, Some("good".to_string()), None).ok().unwrap();
    for bad in [Some("   ".to_string()), None] {
        match a.store_token(10, bad, Some(100)) {
            Err(GatewayError::Auth(m)) => assert_eq!(m, "QQBot token response missing access_token"),
            _ => panic!("expected an auth error"),
        }
    }
    assert_eq!(a.cached_token(10), Some("good".to_string()));
}

#[test]
fn group_chat_detection() {
    assert!(QqBotAdapter::looks_like_group_chat("group_123"));
    assert!(QqBotAdapter::looks_like_group_chat("  GRP_abc "));
    assert!(QqBotAdapter::looks_like_group_chat("QQGroup_9"));
    assert!(!QqBotAdapter::looks_like_group_chat("user_group_1"));
    assert!(!QqBotAdapter::looks_like_group_chat("groupx"));
    assert!(!QqBotAdapter::looks_like_group_chat(""));
}

#[test]
fn msg_seq_formula() {
    // seed "a": salt 97; (1000 + 97) mod 65535.
    assert_eq!(QqBotAdapter::msg_seq_for(1000, "a"), 1097);
    // seed "ab": 97 * 31 + 98 = 3105.
    assert_eq!(QqBotAdapter::msg_seq_for(0, "ab"), 3105);
    // A multiple of 65535 is raised to 1.
    assert_eq!(QqBotAdapter::msg_seq_for(65535, ""), 1);
    // Negative sums reduce to a non-negative residue.
    assert_eq!(QqBotAdapter::msg_seq_for(-1, ""), 65534);
    // Multibyte seeds hash their UTF-8 bytes: "é" is C3 A9 = 195 * 31 + 169.
    assert_eq!(QqBotAdapter::msg_seq_for(0, "é"), 6214);
}

#[test]
fn next_msg_seq_in_range() {
    for seed in ["", "chat", "group_1"] {
        let s = QqBotAdapter::next_msg_seq(seed);
        assert!((1..65535).contains(&s));
    }
}

#[test]
fn backoff_doubles_to_a_cap_and_resets() {
    let mut b = 2000;
    let mut seen = vec![];
    for _ in 0..7 {
        b = QqBotAdapter::next_backoff_ms(b, false);
        seen.push(b);
    }
    assert_eq!(seen, vec![4000, 8000, 16000, 32000, 60000, 60000, 60000]);
    assert_eq!(QqBotAdapter::next_backoff_ms(60000, true), 2000);
    assert_eq!(QqBotAdapter::next_backoff_ms(u64::MAX, false), 60000);
}

#[test]
fn gateway_url_must_be_present() {
    assert_eq!(
        QqBotAdapter::gateway_url_from(Some("wss://x".to_string())).ok(),
        Some("wss://x".to_string())
    );
    for bad in [None, Some(" ".to_string())] {
        match QqBotAdapter::gateway_url_from(bad) {
            Err(GatewayError::ConnectionFailed(m)) => assert_eq!(m, "QQ gateway response missing url"),
            _ => panic!("expected a connection error"),
        }
    }
}

#[test]
fn hello_asks_for_identify_with_default_interval() {
    let mut a = adapter();
    let mut p = payload(Some(10));
    p.seq = Some(4);
    match a.handle_ws_payload(p).ok().unwrap() {
        WsAction::Identify { heartbeat_interval_ms } => assert_eq!(heartbeat_interval_ms, 30000),
        _ => panic!("expected identify"),
    }
    assert_eq!(a.ws_state.last_seq, Some(4));
    let mut p = payload(Some(10));
    p.heartbeat_interval = Some(41250);
    match a.handle_ws_payload(p).ok().unwrap() {
        WsAction::Identify { heartbeat_interval_ms } => assert_eq!(heartbeat_interval_ms, 41250),
        _ => panic!("expected identify"),
    }
    assert_eq!(a.ws_state.last_seq, Some(4));
}

#[test]
fn ready_records_session_and_handshake_resumes() {
    let mut a = adapter();
    let token = "abc";
    match a.identify_payload(token) {
        Handshake::Identify { token, intents } => {
            assert_eq!(token, "QQBot abc");
            assert_eq!(intents, (1u64 << 25) | (1u64 << 30) | (1u64 << 12) | (1u64 << 26));
            assert_eq!(intents, QQ_INTENTS);
        }
        _ => panic!("expected identify"),
    }
    let mut p = payload(Some(0));
    p.event_type = Some("READY".to_string());
    p.session_id = Some("sess".to_string());
    p.seq = Some(7);
    assert!(matches!(a.handle_ws_payload(p).ok().unwrap(), WsAction::Ready));
    assert_eq!(a.ws_state.session_id.as_deref(), Some("sess"));
    match a.identify_payload(token) {
        Handshake::Resume { token, session_id, seq } => {
            assert_eq!(token, "QQBot abc");
            assert_eq!(session_id, "sess");
            assert_eq!(seq, 7);
        }
        _ => panic!("expected resume"),
    }
}

#[test]
fn session_without_seq_still_identifies() {
    let mut a = adapter();
    a.ws_state.session_id = Some("s".to_string());
    assert!(matches!(a.identify_payload("t"), Handshake::Identify { .. }));
}

#[test]
fn reconnect_opcodes_fail_the_connection() {
    for op in [7, 9] {
        let mut a = adapter();
        match a.handle_ws_payload(payload(Some(op))) {
            Err(GatewayError::ConnectionFailed(m)) => assert_eq!(m, "QQ gateway requested reconnect"),
            _ => panic!("expected reconnect error"),
        }
    }
    let mut a = adapter();
    assert!(matches!(a.handle_ws_payload(payload(Some(11))).ok().unwrap(), WsAction::Ignore));
    assert!(matches!(a.handle_ws_payload(payload(None)).ok().unwrap(), WsAction::Ignore));
}

#[test]
fn c2c_message_is_delivered() {
    let mut a = adapter();
    let mut p = payload(Some(0));
    p.event_type = Some("C2C_MESSAGE_CREATE".to_string());
    p.data.id = Some("m1".to_string());
    p.data.content = Some("  hello \n".to_string());
    p.data.author = Some(InboundAuthor {
        user_openid: Some("u1".to_string()),
        member_openid: None,
        id: None,
    });
    match a.handle_ws_payload(p).ok().unwrap() {
        WsAction::Deliver(m) => {
            assert_eq!(m.platform, "qqbot");
            assert_eq!(m.chat_id, "u1");
            assert_eq!(m.user_id, "u1");
            assert_eq!(m.text, "hello");
            assert_eq!(m.message_id.as_deref(), Some("m1"));
            assert!(!m.is_dm);
        }
        _ => panic!("expected delivery"),
    }
}

#[test]
fn frames_map_to_actions() {
    assert!(matches!(frame_action(WsFrame::Text(Ok(payload(Some(11))))), Ok(FrameAction::Handle(p)) if p.op == Some(11)));
    match frame_action(WsFrame::Text(Err("EOF".to_string()))) {
        Err(GatewayError::Platform(m)) => assert_eq!(m, "QQ websocket JSON parse failed: EOF"),
        _ => panic!("expected a platform error"),
    }
    match frame_action(WsFrame::Close("None".to_string())) {
        Err(GatewayError::ConnectionFailed(m)) => assert_eq!(m, "QQ websocket close: None"),
        _ => panic!("expected a connection error"),
    }
    match frame_action(WsFrame::Ended) {
        Err(GatewayError::ConnectionFailed(m)) => assert_eq!(m, "QQ websocket closed"),
        _ => panic!("expected a connection error"),
    }
    match frame_action(WsFrame::ReadFailed("reset".to_string())) {
        Err(GatewayError::ConnectionFailed(m)) => assert_eq!(m, "QQ websocket read failed: reset"),
        _ => panic!("expected a connection error"),
    }
    assert!(matches!(frame_action(WsFrame::Ping(vec![1, 2])), Ok(FrameAction::Pong(d)) if d == vec![1, 2]));
    assert!(matches!(frame_action(WsFrame::Other), Ok(FrameAction::Nothing)));
}
