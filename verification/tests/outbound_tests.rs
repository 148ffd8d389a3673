use qqbot::adapter::QqBotAdapter;
use qqbot::config::QqBotConfig;
use qqbot::notice::stream_end_line;
use qqbot::outbound::{attachment_label, attachment_text};
use qqbot::state::TurnMetadata;
use qqbot::stream::{as_plain, markdown_rejected};

fn adapter_with(f: impl FnOnce(&mut QqBotConfig)) -> QqBotAdapter {
    let mut c = QqBotConfig::new("app".to_string(), "secret".to_string());
    f(&mut c);
    QqBotAdapter::new(c).ok().unwrap()
}

fn meta() -> TurnMetadata {
    TurnMetadata {
        model: Some("gpt".to_string()),
        provider: Some("  ".to_string()),
        ttft_ms: Some(120),
        total_secs: Some("3.5".to_string()),
        tool_count: Some(2),
    }
}

#[test]
fn footer_lists_the_turn_metadata() {
    let mut a = adapter_with(|_| {});
    assert_eq!(a.format_metadata_footer("u1"), "");
    a.set_turn_metadata("u1", meta());
    assert_eq!(
        a.format_metadata_footer("u1"),
        "\n\n---\n`model gpt | ttft 120ms | time 3.5s | tools 2`"
    );
    assert_eq!(a.format_metadata_footer("other"), "");
}

#[test]
fn footer_off_or_empty() {
    let mut a = adapter_with(|c| c.metadata_footer = false);
    a.set_turn_metadata("u1", meta());
    assert_eq!(a.format_metadata_footer("u1"), "");
    let mut b = adapter_with(|_| {});
    b.set_turn_metadata(
        "u1",
        TurnMetadata { model: None, provider: None, ttft_ms: None, total_secs: None, tool_count: Some(0) },
    );
    assert_eq!(b.format_metadata_footer("u1"), "");
}

#[test]
fn text_message_endpoints_and_footer() {
    let mut a = adapter_with(|_| {});
    a.set_turn_metadata("u1", TurnMetadata { model: Some("m".to_string()), provider: None, ttft_ms: None, total_secs: None, tool_count: None });
    let m = a.text_message("u1", "answer  \n", true, 42);
    assert_eq!(m.endpoint, "https://api.sgroup.qq.com/v2/users/u1/messages");
    assert_eq!(m.body.content, "answer\n\n---\n`model m`");
    assert_eq!(m.body.msg_seq, 42);
    assert_eq!(m.body.msg_type(), 0);
    assert!(m.body.stream.is_none() && m.body.msg_id.is_none());
    let m2 = a.text_message("u1", "answer  \n", false, 1);
    assert_eq!(m2.body.content, "answer  \n");
    let g = a.text_message("group_7", "x", true, 1);
    assert_eq!(g.endpoint, "https://api.sgroup.qq.com/v2/groups/group_7/messages");
    assert_eq!(g.body.content, "x");
    let md = adapter_with(|c| c.markdown_support = true);
    assert_eq!(md.text_message("u", "x", false, 1).body.msg_type(), 2);
}

#[test]
fn clearing_turn_state_forgets_the_chat_only() {
    let mut a = adapter_with(|_| {});
    a.set_turn_metadata("u1", meta());
    a.set_turn_metadata("u2", meta());
    let lines = vec!["tool".to_string()];
    a.progress_card("u1", &lines).unwrap();
    a.prepare_stream_chunk("u1", "hi", None, false, 1).unwrap();
    a.clear_turn_state("u1");
    assert!(a.turn_metadata.get(&"u1".to_string()).is_none());
    assert!(a.progress_state.get(&"u1".to_string()).is_none());
    assert!(a.c2c_stream_state.get(&"u1".to_string()).is_none());
    assert!(a.turn_metadata.get(&"u2".to_string()).is_some());
}

#[test]
fn prune_drops_only_oversized_maps() {
    let mut a = adapter_with(|_| {});
    for i in 0..513 {
        a.set_turn_metadata(&format!("u{i}"), meta());
    }
    a.progress_card("p", &vec!["x".to_string()]).unwrap();
    assert_eq!(a.turn_metadata.len(), 513);
    a.maintenance_prune();
    assert_eq!(a.turn_metadata.len(), 0);
    assert_eq!(a.progress_state.len(), 1);
    for i in 0..512 {
        a.set_turn_metadata(&format!("u{i}"), meta());
    }
    a.maintenance_prune();
    assert_eq!(a.turn_metadata.len(), 512);
}

#[test]
fn attachments() {
    assert_eq!(attachment_label("a.png", None), "[Attachment: a.png]");
    assert_eq!(attachment_label("a.png", Some("  ")), "[Attachment: a.png]");
    assert_eq!(attachment_label("a.png", Some("look")), "[Attachment: a.png] look");
    assert_eq!(attachment_text("/tmp/dir/report.pdf", Some("q3")), "[Attachment: report.pdf] q3");
    assert_eq!(attachment_text("/", None), "[Attachment: file]");
    assert_eq!(attachment_text("dir/..", None), "[Attachment: file]");
}

#[test]
fn stream_chunks_advance_and_end() {
    let mut a = adapter_with(|c| c.markdown_support = true);
    let c1 = a.prepare_stream_chunk("u1", "part one", Some("msg9"), false, 5).unwrap();
    assert_eq!(c1.endpoint, "https://api.sgroup.qq.com/v2/users/u1/messages");
    assert_eq!(c1.body.msg_type(), 2);
    let s = c1.body.stream.as_ref().unwrap();
    assert_eq!((s.state, s.index, s.reset, s.id.clone()), (1, 0, false, None));
    assert_eq!(c1.body.msg_id.as_deref(), Some("msg9"));
    a.complete_stream_chunk("u1", false, 2, Some("sid".to_string()));
    let c2 = a.prepare_stream_chunk("u1", "part two", Some(" "), false, 6).unwrap();
    let s2 = c2.body.stream.as_ref().unwrap();
    assert_eq!((s2.index, s2.id.clone()), (1, Some("sid".to_string())));
    assert!(c2.body.msg_id.is_none());
    a.complete_stream_chunk("u1", false, 2, None);
    let st = a.c2c_stream_state.get(&"u1".to_string()).unwrap();
    assert_eq!(st.index, 2);
    assert_eq!(st.id.as_ref().unwrap().len(), 36);
    assert!(st.active);
    let c3 = a.prepare_stream_chunk("u1", "end", None, true, 7).unwrap();
    let s3 = c3.body.stream.as_ref().unwrap();
    assert_eq!((s3.state, s3.index), (10, 2));
    assert_eq!(c3.body.content, "end\n");
    a.complete_stream_chunk("u1", true, 2, None);
    assert!(a.c2c_stream_state.get(&"u1".to_string()).is_none());
    let c4 = a.prepare_stream_chunk("u1", "again", None, false, 8).unwrap();
    assert_eq!(c4.body.stream.unwrap().index, 0);
}

#[test]
fn stream_skips() {
    let mut a = adapter_with(|_| {});
    assert!(a.prepare_stream_chunk("group_1", "x", None, false, 1).is_none());
    assert!(a.prepare_stream_chunk("u1", "   ", None, false, 1).is_none());
    assert_eq!(a.c2c_stream_state.len(), 0);
    let fin = a.prepare_stream_chunk("u1", "   ", None, true, 1).unwrap();
    assert_eq!(fin.body.content, "   \n");
    let mut off = adapter_with(|c| c.c2c_streaming = false);
    assert!(off.prepare_stream_chunk("u1", "x", None, false, 1).is_none());
}

#[test]
fn stream_chunk_is_truncated_and_final_gets_footer() {
    let mut a = adapter_with(|_| {});
    let long: String = "é".repeat(5000);
    let c = a.prepare_stream_chunk("u1", &long, None, false, 1).unwrap();
    assert_eq!(c.body.content.chars().count(), 4096);
    a.set_turn_metadata("u1", TurnMetadata { model: Some("m".to_string()), provider: None, ttft_ms: None, total_secs: None, tool_count: None });
    let f = a.prepare_stream_chunk("u1", "done  ", None, true, 2).unwrap();
    assert_eq!(f.body.content, "done\n\n---\n`model m`\n");
}

#[test]
fn final_chunk_keeps_metadata_for_the_notice() {
    let mut a = adapter_with(|_| {});
    a.set_turn_metadata("u1", meta());
    a.complete_stream_chunk("u1", true, 0, None);
    assert!(a.turn_metadata.get(&"u1".to_string()).is_some());
    let mut b = adapter_with(|c| c.notify_on_stream_end = false);
    b.set_turn_metadata("u1", meta());
    b.complete_stream_chunk("u1", true, 0, None);
    assert!(b.turn_metadata.get(&"u1".to_string()).is_none());
}

#[test]
fn markdown_fallback_locks_plain() {
    assert!(markdown_rejected("QQBot API error (400): Markdown not permitted"));
    assert!(markdown_rejected("code 40034016 MD"));
    assert!(markdown_rejected("Operation NOT ALLOWED"));
    assert!(markdown_rejected("不支持该消息类型"));
    assert!(!markdown_rejected("QQBot API error (500): internal"));
    let mut a = adapter_with(|c| c.markdown_support = true);
    let c = a.prepare_stream_chunk("u1", "hi", None, false, 1).unwrap();
    assert_eq!(c.body.msg_type(), 2);
    let plain = as_plain(c);
    assert_eq!(plain.body.msg_type(), 0);
    assert_eq!(plain.body.content, "hi");
    a.lock_stream_plain("u1");
    a.complete_stream_chunk("u1", false, 0, Some("s".to_string()));
    let c2 = a.prepare_stream_chunk("u1", "more", None, false, 2).unwrap();
    assert_eq!(c2.body.msg_type(), 0);
}

#[test]
fn progress_cards_dedup_and_limit() {
    let mut a = adapter_with(|_| {});
    assert!(a.progress_card("u1", &vec![]).is_none());
    assert_eq!(a.progress_state.len(), 0);
    let lines: Vec<String> = vec!["  a ".into(), "".into(), "a".into(), "b".into()];
    assert_eq!(a.progress_card("u1", &lines).unwrap(), "**Progress**\na\nb");
    let p = a.progress_state.get(&"u1".to_string()).unwrap();
    assert_eq!((p.sent_count, p.last_sent_idx, p.last_line.clone()), (1, 4, Some("b".to_string())));
    let more: Vec<String> = vec!["  a ".into(), "".into(), "a".into(), "b".into(), "c".into()];
    // Reading resumes after the four lines already read.
    assert_eq!(a.progress_card("u1", &more).unwrap(), "**Progress**\nc");
    let again: Vec<String> = vec!["x".into(); 9];
    assert!(a.progress_card("u1", &again).is_none());
    assert_eq!(a.progress_state.get(&"u1".to_string()).unwrap().sent_count, 2);
}

#[test]
fn progress_without_fresh_lines_sends_nothing() {
    let mut a = adapter_with(|_| {});
    let lines: Vec<String> = vec![" ".into(), "\t".into()];
    assert!(a.progress_card("u1", &lines).is_none());
    let p = a.progress_state.get(&"u1".to_string()).unwrap();
    assert_eq!((p.sent_count, p.last_sent_idx), (0, 2));
    let mut off = adapter_with(|c| c.progress_coalesce = false);
    assert!(off.progress_card("u1", &vec!["a".to_string()]).is_none());
}

#[test]
fn notice_rate_limit() {
    let mut a = adapter_with(|_| {});
    assert!(a.admit_stream_end_notice(10_000));
    assert!(!a.admit_stream_end_notice(12_999));
    assert!(a.admit_stream_end_notice(13_000));
    assert!(a.admit_stream_end_notice(16_000));
    // Three notices within five minutes: the fourth waits.
    assert!(!a.admit_stream_end_notice(19_000));
    assert!(!a.admit_stream_end_notice(309_999));
    assert!(a.admit_stream_end_notice(310_000));
    assert_eq!(a.notice_state.recent_sent, vec![13_000, 16_000, 310_000]);
    let mut off = adapter_with(|c| c.notify_on_stream_end = false);
    assert!(!off.admit_stream_end_notice(0));
}

#[test]
fn notice_text() {
    assert_eq!(stream_end_line(""), "completed");
    assert_eq!(
        stream_end_line("\n\n---\n`model m | ttft 5ms`"),
        "completed `model m | ttft 5ms`"
    );
    assert_eq!(stream_end_line("a----b"), "completed a-b");
}

#[test]
fn progress_never_resends_lines_after_blanks() {
    let mut a = adapter_with(|_| {});
    let first: Vec<String> = vec!["".into(), "".into(), "a".into(), "b".into()];
    assert_eq!(a.progress_card("u1", &first).unwrap(), "**Progress**\na\nb");
    let mut second = first.clone();
    second.push("c".into());
    assert_eq!(a.progress_card("u1", &second).unwrap(), "**Progress**\nc");
}

#[test]
fn progress_repeat_after_card_is_dropped() {
    let mut a = adapter_with(|c| c.max_progress_messages = 5);
    assert_eq!(a.progress_card("u1", &vec!["x".to_string()]).unwrap(), "**Progress**\nx");
    let lines: Vec<String> = vec!["x".into(), " x ".into(), "".into()];
    assert!(a.progress_card("u1", &lines).is_none());
    let lines: Vec<String> = vec!["x".into(), " x ".into(), "".into(), "y".into(), "x".into()];
    assert_eq!(a.progress_card("u1", &lines).unwrap(), "**Progress**\ny\nx");
}

#[test]
fn progress_limit_zero_sends_nothing() {
    let mut a = adapter_with(|c| c.max_progress_messages = 0);
    assert!(a.progress_card("u1", &vec!["x".to_string()]).is_none());
}

#[test]
fn stream_numbering_over_many_chunks() {
    let mut a = adapter_with(|_| {});
    for k in 0..6u64 {
        let c = a.prepare_stream_chunk("u1", "t", None, false, 1).unwrap();
        let s = c.body.stream.unwrap();
        assert_eq!(s.index, k);
        if k == 0 {
            assert!(s.id.is_none());
        } else {
            assert_eq!(s.id, Some(format!("id{}", k - 1)));
        }
        a.complete_stream_chunk("u1", false, 0, Some(format!("id{k}")));
    }
}

#[test]
fn notices_over_a_long_run() {
    let mut a = adapter_with(|_| {});
    let mut admitted = vec![];
    let mut t = 0u64;
    while t < 1_000_000 {
        if a.admit_stream_end_notice(t) {
            admitted.push(t);
        }
        t += 1_000;
    }
    for w in admitted.windows(2) {
        assert!(w[1] - w[0] >= 3_000);
    }
    for w in admitted.windows(4) {
        assert!(w[3] - w[0] >= 300_000);
    }
    assert_eq!(&admitted[..4], &[0, 3_000, 6_000, 300_000]);
}
