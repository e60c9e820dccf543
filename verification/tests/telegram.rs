//! The Telegram channel.
use loongclaw::channel::markdown::{escape_html, markdown_to_telegram_html};
use loongclaw::channel::telegram::{
    ack_reaction_at, api_url, build_telegram_message_body, build_telegram_plaintext_message_body,
    build_telegram_send_target, delete_request, draft_edit_due, draft_key, draft_request,
    edit_request, extract_marker_json_payload, mark_part, offset_file_name, offset_text, on_draft_answer, parse_offset,
    parse_telegram_target, parse_telegram_updates, pending_reactions, pick_uniform_index,
    plan_streaming, poll_request, polling_timeout, prepare_outgoing_text, random_ack_reaction,
    reaction_request, require_ok, sanitize_tool_markers, split_message_for_telegram,
    typing_request, uniform_index, DraftAction, SendAction, StreamingPlan, TelegramOffsetTracker,
    TelegramSend, TELEGRAM_ACK_REACTION_COUNT, TELEGRAM_MAX_MESSAGE_LENGTH,
};
use loongclaw::channel::{
    ChannelInboundMessage, ChannelOutboundMessage, ChannelOutboundTarget,
    ChannelOutboundTargetKind, ChannelPlatform, ChannelStreamingMode,
};
use loongclaw::json::{parse_json, render_json, Json};
use serde_json::Value;
use std::collections::BTreeSet;

fn json(text: &str) -> Json {
    parse_json(text).expect("json")
}

fn parsed(text: &str) -> Value {
    serde_json::from_str(text).expect("json")
}

fn value(json: &Json) -> Value {
    parsed(&render_json(json))
}

fn chat(id: &str) -> ChannelOutboundTarget {
    ChannelOutboundTarget {
        platform: ChannelPlatform::Telegram,
        kind: ChannelOutboundTargetKind::Conversation,
        id: id.to_owned(),
    }
}

fn session_key(message: &ChannelInboundMessage) -> String {
    format!(
        "{}:{}:{}",
        message.session.platform.as_str(),
        message.session.account_id,
        message.session.conversation_id
    )
}

#[test]
fn offset_file_roundtrip() {
    assert_eq!(parse_offset(&offset_text(42)), Some(42));
    assert_eq!(offset_text(42), "42");
    assert_eq!(parse_offset(" -7\n"), Some(-7));
    assert_eq!(parse_offset("seven"), None);
    assert_eq!(parse_offset(""), None);
}

#[test]
fn telegram_parser_filters_by_allowlist_and_updates_offset() {
    let payload = json(
        r#"{
        "ok": true,
        "result": [
            {"update_id": 100, "message": {"text": "hello", "chat": {"id": 123}}},
            {"update_id": 101, "message": {"text": "blocked", "chat": {"id": 456}}}
        ]
    }"#,
    );
    let allowlist = BTreeSet::from([123_i64]);
    let (inbox, next_offset) = parse_telegram_updates(&payload, &allowlist, 50, "bot_123456")
        .expect("parse telegram updates");
    assert_eq!(inbox.len(), 1);
    assert_eq!(session_key(&inbox[0]), "telegram:bot_123456:123");
    assert_eq!(inbox[0].reply_target.platform.as_str(), "telegram");
    assert_eq!(inbox[0].reply_target.kind.as_str(), "conversation");
    assert_eq!(inbox[0].reply_target.id, "123");
    assert_eq!(inbox[0].text, "hello");
    assert_eq!(inbox[0].delivery.ack_cursor.as_deref(), Some("101"));
    assert_eq!(next_offset, Some(102));
}

#[test]
fn telegram_parser_rejects_all_when_allowlist_is_empty() {
    let payload = json(
        r#"{
        "ok": true,
        "result": [{"update_id": 8, "message": {"text": "hello", "chat": {"id": 42}}}]
    }"#,
    );
    let allowlist = BTreeSet::new();
    let (inbox, next_offset) = parse_telegram_updates(&payload, &allowlist, 0, "bot_123456")
        .expect("parse telegram updates");
    assert!(inbox.is_empty());
    assert_eq!(next_offset, Some(9));
}

#[test]
fn telegram_batch_offset_is_not_persisted_until_ack() {
    let mut tracker = TelegramOffsetTracker::new(0);
    tracker.remember_polled_offset(Some(7));
    assert_eq!(tracker.current_offset(), 0);
    let offset = tracker.complete_batch().expect("an offset to keep");
    assert_eq!(offset, 7);
    tracker.saved(offset);
    assert_eq!(tracker.current_offset(), 7);
}

#[test]
fn telegram_batch_acknowledges_messages_incrementally_and_flushes_trailing_offset() {
    let mut tracker = TelegramOffsetTracker::new(0);
    tracker.remember_polled_offset(Some(12));
    let first = tracker
        .ack_delivery(Some("10"))
        .expect("ack successful message")
        .expect("an offset to keep");
    assert_eq!(first, 10);
    tracker.saved(first);
    assert_eq!(tracker.current_offset(), 10);
    let last = tracker.complete_batch().expect("an offset to keep");
    assert_eq!(last, 12);
    tracker.saved(last);
    assert_eq!(tracker.current_offset(), 12);
}

#[test]
fn telegram_offset_path_is_account_scoped() {
    let path = std::path::Path::new("home")
        .join("telegram-offsets")
        .join(offset_file_name("bot_123456"));
    assert!(path.ends_with("telegram-offsets/bot_123456.offset"));
    assert_eq!(offset_file_name(" bot "), "bot.offset");
}

#[test]
fn offsets_only_grow() {
    let mut tracker = TelegramOffsetTracker::new(5);
    assert_eq!(tracker.ack_delivery(Some("5")), Ok(None));
    assert_eq!(tracker.ack_delivery(Some("  ")), Ok(None));
    assert_eq!(tracker.ack_delivery(None), Ok(None));
    assert_eq!(
        tracker.ack_delivery(Some("x")),
        Err("invalid telegram ack cursor `x`: invalid digit found in string".to_owned())
    );
    tracker.remember_polled_offset(Some(5));
    assert_eq!(tracker.complete_batch(), None);
    assert_eq!(tracker.persist_if_newer(6), Some(6));
}

#[test]
fn split_message_for_telegram_short_message() {
    let short = "Hello, world!";
    let chunks = split_message_for_telegram(short);
    assert_eq!(chunks.len(), 1);
    assert_eq!(chunks[0], short);
}

#[test]
fn split_message_for_telegram_exactly_limit() {
    let exactly: String = "a".repeat(TELEGRAM_MAX_MESSAGE_LENGTH);
    let chunks = split_message_for_telegram(&exactly);
    assert_eq!(chunks.len(), 1);
    assert_eq!(chunks[0], exactly);
}

#[test]
fn split_message_for_telegram_over_limit() {
    let over: String = "a".repeat(TELEGRAM_MAX_MESSAGE_LENGTH + 100);
    let chunks = split_message_for_telegram(&over);
    assert!(chunks.len() > 1);
    let reconstructed: String = chunks.iter().map(|s| s.as_str()).collect();
    assert_eq!(reconstructed.len(), over.len());
}

#[test]
fn split_message_for_telegram_reserves_room_for_continuation_marker() {
    let over: String = "a".repeat(TELEGRAM_MAX_MESSAGE_LENGTH + 1);
    let chunks = split_message_for_telegram(&over);
    assert!(chunks.len() > 1);
    let first_payload = format!("{}\n\n(continues...)", chunks[0]);
    assert!(first_payload.chars().count() <= TELEGRAM_MAX_MESSAGE_LENGTH);
}

#[test]
fn split_message_for_telegram_preserves_content() {
    let text = "Hello\n\nWorld this is a test message that is longer than the limit";
    let chunks = split_message_for_telegram(text);
    let reconstructed: String = chunks.iter().map(|s| s.as_str()).collect();
    assert_eq!(reconstructed, text);
}

#[test]
fn long_messages_are_cut_behind_lines_and_every_part_fits() {
    let line = format!("{}\n", "é".repeat(99));
    let text = line.repeat(120);
    let parts = split_message_for_telegram(&text);
    assert_eq!(parts.concat(), text);
    assert_eq!(parts.len(), 3);
    assert!(parts[0].ends_with('\n'));
    for index in 0..parts.len() {
        let marked = mark_part(&parts, index);
        assert!(marked.chars().count() <= TELEGRAM_MAX_MESSAGE_LENGTH);
    }
    assert!(mark_part(&parts, 0).ends_with("\n\n(continues...)"));
    assert!(mark_part(&parts, 1).starts_with("(continued)\n\n"));
    assert!(mark_part(&parts, 1).ends_with("\n\n(continues...)"));
    assert!(mark_part(&parts, 2).starts_with("(continued)\n\n"));
    assert_eq!(mark_part(&vec!["one".to_owned()], 0), "one");
}

#[test]
fn markdown_to_telegram_html_bold() {
    let output = markdown_to_telegram_html("This is **bold** text");
    assert!(output.contains("<b>bold</b>"));
}

#[test]
fn markdown_to_telegram_html_italic() {
    let output = markdown_to_telegram_html("This is *italic* text");
    assert!(output.contains("<i>italic</i>"));
}

#[test]
fn markdown_to_telegram_html_code() {
    let output = markdown_to_telegram_html("Use `console.log()` for debugging");
    assert!(output.contains("<code>console.log()</code>"));
}

#[test]
fn markdown_to_telegram_html_link() {
    let output = markdown_to_telegram_html("Visit [our site](https://example.com) please");
    assert!(output.contains("<a href=\"https://example.com\">our site</a>"));
}

#[test]
fn markdown_to_telegram_html_escape_html() {
    let output = markdown_to_telegram_html("3 < 5 & 7 > 2");
    assert!(output.contains("&lt;"));
    assert!(output.contains("&gt;"));
    assert!(output.contains("&amp;"));
}

#[test]
fn markdown_to_telegram_html_header() {
    let output = markdown_to_telegram_html("## Title");
    assert!(output.contains("<b>Title</b>"));
}

#[test]
fn markdown_is_converted_as_a_whole() {
    assert_eq!(
        markdown_to_telegram_html("# A <b>\n__x__ ~~y~~ *z* `w` [t](http://u)\nplain 'q' \"r\""),
        "<b>A &lt;b&gt;</b>\n<b>x</b> <s>y</s> <i>z</i> <code>w</code> <a href=\"http://u\">t</a>\nplain &#39;q&#39; &quot;r&quot;"
    );
    assert_eq!(
        markdown_to_telegram_html("a\n```rust\nlet x = 1 < 2;\n```\nb"),
        "a\n<pre><code>let x = 1 < 2;</code></pre>\nb"
    );
    assert_eq!(
        markdown_to_telegram_html("```\nopen"),
        "<pre><code>open</code></pre>"
    );
    assert_eq!(
        markdown_to_telegram_html("[t](ftp://u) ** * #x"),
        "[t](ftp://u) ** * #x"
    );
    assert_eq!(markdown_to_telegram_html("größe ~~ö~~"), "größe <s>ö</s>");
}

#[test]
fn escaped_text_holds_no_markup() {
    assert_eq!(
        escape_html("<a href=\"x\">'&'</a>"),
        "&lt;a href=&quot;x&quot;&gt;&#39;&amp;&#39;&lt;/a&gt;"
    );
    assert_eq!(escape_html("plain"), "plain");
    let (a, b) = ("x<", "&y");
    assert_eq!(
        escape_html(&format!("{a}{b}")),
        format!("{}{}", escape_html(a), escape_html(b))
    );
}

#[test]
fn parse_telegram_target_chat_id_only() {
    let (chat_id, thread_id) = parse_telegram_target("123456789").unwrap();
    assert_eq!(chat_id, 123456789);
    assert!(thread_id.is_none());
}

#[test]
fn parse_telegram_target_with_thread_id() {
    let (chat_id, thread_id) = parse_telegram_target("123456789:42").unwrap();
    assert_eq!(chat_id, 123456789);
    assert_eq!(thread_id, Some(42));
}

#[test]
fn parse_telegram_target_negative_chat_id() {
    let (chat_id, thread_id) = parse_telegram_target("-1001234567890:42").unwrap();
    assert_eq!(chat_id, -1001234567890);
    assert_eq!(thread_id, Some(42));
}

#[test]
fn build_telegram_message_body_uses_numeric_thread_id() {
    let body = build_telegram_message_body(123456789, "Thinking...", Some(42), false);
    assert_eq!(
        body.get("message_thread_id").and_then(Json::as_i64),
        Some(42)
    );
    assert!(body
        .get("message_thread_id")
        .and_then(Json::as_str)
        .is_none());
}

#[test]
fn message_bodies_hold_what_is_sent() {
    assert_eq!(
        value(&build_telegram_message_body(1, "<b>x</b>", None, true)),
        parsed(
            r#"{"chat_id":1,"text":"<b>x</b>","parse_mode":"HTML","disable_web_page_preview":true}"#
        )
    );
    assert_eq!(
        value(&build_telegram_plaintext_message_body(
            -1,
            "x",
            Some(2),
            false
        )),
        parsed(r#"{"chat_id":-1,"text":"x","message_thread_id":2}"#)
    );
}

#[test]
fn parse_telegram_target_empty() {
    let result = parse_telegram_target("");
    assert!(result.is_err());
}

#[test]
fn targets_that_are_no_numbers_are_refused() {
    assert_eq!(
        parse_telegram_target("  "),
        Err("telegram target id is empty".to_owned())
    );
    assert_eq!(
        parse_telegram_target("x"),
        Err("invalid telegram chat id `x`: invalid digit found in string".to_owned())
    );
    assert_eq!(
        parse_telegram_target("1:"),
        Err(
            "invalid telegram thread id ``: cannot parse integer from empty string".to_owned()
        )
    );
    assert_eq!(
        parse_telegram_target("y:1"),
        Err("invalid telegram chat id `y`: invalid digit found in string".to_owned())
    );
    assert_eq!(
        parse_telegram_target("9223372036854775808"),
        Err(
            "invalid telegram chat id `9223372036854775808`: number too large to fit in target type"
                .to_owned()
        )
    );
    assert_eq!(parse_telegram_target("+5"), Ok((5, None)));
}

#[test]
fn parse_telegram_updates_with_thread_id() {
    let payload = json(
        r#"{
        "ok": true,
        "result": [{
            "update_id": 100,
            "message": {
                "text": "hello from thread",
                "chat": {"id": 123},
                "message_thread_id": 42
            }
        }]
    }"#,
    );
    let allowlist = BTreeSet::from([123_i64]);
    let (inbox, _next_offset) = parse_telegram_updates(&payload, &allowlist, 0, "bot_123456")
        .expect("parse telegram updates");
    assert_eq!(inbox.len(), 1);
    assert_eq!(inbox[0].session.thread_id, Some("42".to_string()));
    assert_eq!(inbox[0].reply_target.id, "123:42");
}

#[test]
fn refused_polls_and_odd_updates() {
    let allowlist = BTreeSet::from([7_i64]);
    let refused = json(r#"{"ok":false,"error_code":401}"#);
    assert_eq!(
        parse_telegram_updates(&refused, &allowlist, 3, "a").err(),
        Some("telegram getUpdates not ok: {\"error_code\":401,\"ok\":false}".to_owned())
    );
    let odd = json(
        r#"{"ok":true,"result":[
            {"update_id":1},
            {"message":{"text":"  ","chat":{"id":7}}},
            {"update_id":2,"message":{"text":" hi ","chat":{"id":7},"message_id":9}}
        ]}"#,
    );
    let (inbox, next) = parse_telegram_updates(&odd, &allowlist, 3, "a").expect("updates");
    assert_eq!(next, None);
    assert_eq!(inbox.len(), 1);
    assert_eq!(inbox[0].text, "hi");
    assert_eq!(inbox[0].delivery.source_message_id.as_deref(), Some("9"));
    assert_eq!(pending_reactions(&inbox), vec![(7, 9)]);
}

#[test]
fn random_ack_reaction_is_valid() {
    for _ in 0..100 {
        let emoji = random_ack_reaction();
        assert!(
            (0..TELEGRAM_ACK_REACTION_COUNT).any(|index| ack_reaction_at(index) == emoji),
            "Unexpected emoji: {}",
            emoji
        );
    }
}

#[test]
fn indices_are_drawn_evenly() {
    assert_eq!(uniform_index(0, 3), Some(0));
    assert_eq!(uniform_index(5, 3), Some(2));
    assert_eq!(uniform_index(u64::MAX, 3), None);
    assert_eq!(uniform_index(u64::MAX - 1, 3), Some(2));
    let mut seen = BTreeSet::new();
    for _ in 0..400 {
        seen.insert(pick_uniform_index(4));
    }
    assert_eq!(seen, BTreeSet::from([0, 1, 2, 3]));
}

#[test]
fn markers_do_not_reach_the_user() {
    assert_eq!(
        sanitize_tool_markers("[tool_result]\nhello\n[ok] {\"status\":\"ok\"}\nworld"),
        "hello\nworld"
    );
    assert_eq!(
        sanitize_tool_markers("[error] {\"tool\":\"shell.exec\",\"status\":\"failed\",\"payload_summary\":\"{\\\"stderr\\\":\\\" no such file \\\"}\"}"),
        "The shell.exec command failed: no such file"
    );
    assert_eq!(
        sanitize_tool_markers("[ok] {\"tool_name\":\"ls\",\"payload_summary\":\"{\\\"stdout\\\":\\\"a b\\\"}\"}"),
        "The ls command returned: a b"
    );
    assert_eq!(
        sanitize_tool_markers("[failed] {\"payload_summary\":\"{\\\"exit_code\\\":3}\"}"),
        "The tool command exited with code 3."
    );
    assert_eq!(
        sanitize_tool_markers("[ok] {\"status\":\"done\"}"),
        "The tool call done."
    );
    assert_eq!(
        sanitize_tool_markers("[tool_loop_guard] x\n[ok] {}"),
        "(no response text)"
    );
    assert_eq!(prepare_outgoing_text(" \n"), "(no response text)");
    assert_eq!(prepare_outgoing_text("hi"), "hi");
}

#[test]
fn lines_without_a_payload_in_braces_stay() {
    assert_eq!(extract_marker_json_payload("[ok] done :}"), None);
    assert_eq!(extract_marker_json_payload("[ok] {\"a\":1"), None);
    assert_eq!(extract_marker_json_payload("[ok] }"), None);
    assert_eq!(extract_marker_json_payload("[ok] "), None);
    assert_eq!(extract_marker_json_payload("[done] {}"), None);
    assert_eq!(
        extract_marker_json_payload("[error] {\"a\":1}"),
        Some("{\"a\":1}".to_owned())
    );
    assert_eq!(extract_marker_json_payload("[failed] {}"), Some("{}".to_owned()));
    assert_eq!(sanitize_tool_markers("[ok] done :}"), "[ok] done :}");
    assert_eq!(
        sanitize_tool_markers("[tool_result]\n[ok] {\"status\":\"ok\"}\n[error] oh :}"),
        "[error] oh :}"
    );
}

#[test]
fn sending_goes_part_by_part_and_falls_back_to_plain_text() {
    let message = ChannelOutboundMessage::Text("**x**".to_owned());
    let mut send = TelegramSend::start(&chat("5"), &message).expect("plan");
    assert_eq!(
        value(&send.request()),
        parsed(
            r#"{"chat_id":5,"text":"<b>x</b>","parse_mode":"HTML","disable_web_page_preview":true}"#
        )
    );
    match send.on_answer(&json(r#"{"ok":false}"#)) {
        SendAction::Post(body) => assert_eq!(
            value(&body),
            parsed(r#"{"chat_id":5,"text":"**x**","disable_web_page_preview":true}"#)
        ),
        _ => panic!("plain text should follow"),
    }
    match send.on_answer(&json(r#"{"ok":false}"#)) {
        SendAction::Fail(error) => {
            assert_eq!(error, "telegram sendMessage not ok: {\"ok\":false}")
        }
        _ => panic!("the second refusal is final"),
    }
    let long = ChannelOutboundMessage::MarkdownCard("a".repeat(5000));
    let mut send = TelegramSend::start(&chat("5:6"), &long).expect("plan");
    match send.on_answer(&json(r#"{"ok":true}"#)) {
        SendAction::PauseAndPost(body) => {
            assert_eq!(body.i64_at("message_thread_id"), Some(6));
            assert!(body.str_at("text").is_some_and(|t| t.starts_with("(continued)")));
        }
        _ => panic!("a second part should follow"),
    }
    assert!(matches!(
        send.on_answer(&json(r#"{"ok":true}"#)),
        SendAction::Done
    ));
}

#[test]
fn messages_that_cannot_be_sent_are_refused() {
    let text = ChannelOutboundMessage::Text("x".to_owned());
    let mut elsewhere = chat("5");
    elsewhere.platform = ChannelPlatform::Other("feishu".to_owned());
    assert_eq!(
        TelegramSend::start(&elsewhere, &text).err(),
        Some("telegram adapter cannot send to feishu target".to_owned())
    );
    let mut user = chat("5");
    user.kind = ChannelOutboundTargetKind::Other("receive_id".to_owned());
    assert_eq!(
        TelegramSend::start(&user, &text).err(),
        Some("telegram adapter requires conversation target, got receive_id".to_owned())
    );
    assert_eq!(
        TelegramSend::start(&chat("5"), &ChannelOutboundMessage::Image).err(),
        Some("telegram adapter does not support Image outbound messages".to_owned())
    );
    assert_eq!(
        TelegramSend::start(&chat("x"), &text).err(),
        Some("invalid telegram chat id `x`: invalid digit found in string".to_owned())
    );
    assert_eq!(
        build_telegram_send_target(
            ChannelOutboundTargetKind::Other("receive_id".to_owned()),
            "5"
        )
        .err(),
        Some("telegram send requires conversation target kind, got receive_id".to_owned())
    );
    assert_eq!(
        build_telegram_send_target(ChannelOutboundTargetKind::Conversation, "  ").err(),
        Some("telegram outbound target id is empty".to_owned())
    );
    let target = build_telegram_send_target(ChannelOutboundTargetKind::Conversation, " 5 ");
    assert_eq!(target.map(|t| t.id), Ok("5".to_owned()));
}

#[test]
fn drafts_are_sent_edited_and_taken_back() {
    let text = ChannelOutboundMessage::Text("x".to_owned());
    match plan_streaming(ChannelStreamingMode::Draft, &chat("5:6"), &text) {
        Ok(StreamingPlan::Draft {
            chat_id,
            thread_id,
            text,
        }) => {
            assert_eq!((chat_id, thread_id), (5, Some(6)));
            assert_eq!(text, "x");
        }
        _ => panic!("a draft should be planned"),
    }
    assert!(matches!(
        plan_streaming(ChannelStreamingMode::Off, &chat("5"), &text),
        Ok(StreamingPlan::Whole)
    ));
    assert_eq!(
        plan_streaming(
            ChannelStreamingMode::Draft,
            &chat("5"),
            &ChannelOutboundMessage::File
        )
        .err(),
        Some("telegram streaming does not support this message type".to_owned())
    );
    assert_eq!(
        value(&draft_request(5, None, "Thinking...")),
        parsed(r#"{"chat_id":5,"text":"Thinking...","parse_mode":"HTML"}"#)
    );
    let sent = json(r#"{"ok":true,"result":{"message_id":9}}"#);
    match on_draft_answer(5, None, "x", false, &sent) {
        DraftAction::Sent(id) => assert_eq!(id, "9"),
        _ => panic!("the draft is there"),
    }
    match on_draft_answer(5, None, "x", false, &json(r#"{"ok":false}"#)) {
        DraftAction::Post(body) => {
            assert_eq!(value(&body), parsed(r#"{"chat_id":5,"text":"x"}"#))
        }
        _ => panic!("plain text should follow"),
    }
    match on_draft_answer(5, None, "x", true, &json(r#"{"ok":true}"#)) {
        DraftAction::Fail(error) => {
            assert_eq!(error, "telegram sendMessage response missing message_id")
        }
        _ => panic!("a number is missing"),
    }
    assert!(draft_edit_due(None, 500));
    assert!(!draft_edit_due(Some(499), 500));
    assert!(draft_edit_due(Some(500), 500));
    assert_eq!(draft_key(5, "9"), "5:9");
    assert_eq!(
        value(&edit_request(5, "9", "*x*")),
        parsed(r#"{"chat_id":5,"message_id":"9","text":"<i>x</i>","parse_mode":"HTML"}"#)
    );
    assert_eq!(
        value(&delete_request(5, "9")),
        parsed(r#"{"chat_id":5,"message_id":"9"}"#)
    );
    assert_eq!(
        require_ok("deleteMessage", &json(r#"{"ok":false}"#)),
        Err("telegram deleteMessage not ok: {\"ok\":false}".to_owned())
    );
    assert_eq!(require_ok("deleteMessage", &json(r#"{"ok":true}"#)), Ok(()));
}

#[test]
fn requests_of_the_adapter() {
    assert_eq!(
        api_url("https://api.telegram.org//", "t", "getUpdates"),
        "https://api.telegram.org/bott/getUpdates"
    );
    assert_eq!(polling_timeout(0), 1);
    assert_eq!(polling_timeout(15), 15);
    assert_eq!(polling_timeout(900), 50);
    assert_eq!(
        value(&poll_request(7, 15)),
        parsed(r#"{"offset":7,"timeout":15,"allowed_updates":["message"]}"#)
    );
    assert_eq!(
        value(&typing_request(7)),
        parsed(r#"{"chat_id":7,"action":"typing"}"#)
    );
    assert_eq!(
        value(&reaction_request(7, 8, "x")),
        parsed(r#"{"chat_id":7,"message_id":8,"reaction":[{"type":"emoji","emoji":"x"}]}"#)
    );
}

#[test]
fn plain_text_is_kept() {
    assert_eq!(
        markdown_to_telegram_html("one (two), three.\n\n  four - five!\n\n"),
        "one (two), three.\n\n  four - five!"
    );
    assert_eq!(markdown_to_telegram_html("\n\n"), "");
}

#[test]
fn spans_hold_escaped_text() {
    assert_eq!(markdown_to_telegram_html("**<b>**"), "<b>&lt;b&gt;</b>");
    assert_eq!(markdown_to_telegram_html("`a<b`"), "<code>a&lt;b</code>");
    assert_eq!(
        markdown_to_telegram_html("[a&b](https://x.y/?q=\"1\")"),
        "<a href=\"https://x.y/?q=&quot;1&quot;\">a&amp;b</a>"
    );
}

#[test]
fn replies_and_cursors_lead_back_to_their_message() {
    let payload = json(
        "{\"ok\":true,\"result\":[{\"update_id\":8,\"message\":{\"message_id\":5,\"text\":\"hi\",\
         \"chat\":{\"id\":-100},\"message_thread_id\":7}}]}",
    );
    let (inbox, next) =
        parse_telegram_updates(&payload, &BTreeSet::from([-100_i64]), 0, "bot").expect("updates");
    assert_eq!(
        parse_telegram_target(&inbox[0].reply_target.id),
        Ok((-100, Some(7)))
    );
    assert_eq!(next, Some(9));
    assert_eq!(
        TelegramOffsetTracker::new(0).ack_delivery(inbox[0].delivery.ack_cursor.as_deref()),
        Ok(Some(9))
    );
    assert_eq!(pending_reactions(&inbox), vec![(-100, 5)]);
}

#[test]
fn replies_and_their_parts_are_not_empty() {
    for text in ["", " ", "[tool_result]", "[ok] {}", "x"] {
        let reply = sanitize_tool_markers(text);
        assert!(!reply.is_empty());
        for part in split_message_for_telegram(&reply) {
            assert!(!part.is_empty());
        }
    }
    for part in split_message_for_telegram(&"word ".repeat(2000)) {
        assert!(!part.is_empty());
    }
}

#[test]
fn only_known_tags_come_out() {
    let html = markdown_to_telegram_html(
        "<u>*a*</u> [x](javascript:y) [z](https://e.f)\n# <h1>\n  `` ` <i>\n[q](http://r\"s)",
    );
    assert_eq!(
        html,
        "&lt;u&gt;<i>a</i>&lt;/u&gt; [x](javascript:y) <a href=\"https://e.f\">z</a>\n<b>&lt;h1&gt;</b>\n  <code></code> ` &lt;i&gt;\n<a href=\"http://r&quot;s\">q</a>"
    );
    for (at, _) in html.match_indices('<') {
        let tags = [
            "<b>", "</b>", "<i>", "</i>", "<s>", "</s>", "<code>", "</code>", "</a>",
            "<a href=\"http://", "<a href=\"https://",
        ];
        assert!(tags.iter().any(|tag| html[at..].starts_with(tag)));
    }
}
