//! What is kept of conversations, and the foundations.
use loongclaw::json::{parse_json, render_json, scan_json, Json, JsonScan};
use loongclaw::memory::{
    dispatch_memory_core, load_prompt_context_with_diagnostics, ContextSnapshot,
    ConversationTurn, MemoryContextKind, MemoryCoreRequest, MemoryDispatch, MemoryMode,
    MemoryRuntimeConfig,
};
use loongclaw::text::{hex_text, integer_text, lines_of, lower_text, replace_text, to_text};

fn config(mode: MemoryMode, note: Option<&str>) -> MemoryRuntimeConfig {
    MemoryRuntimeConfig {
        mode,
        profile_note: note.map(str::to_owned),
    }
}

fn snapshot() -> ContextSnapshot {
    ContextSnapshot {
        window_turns: vec![
            ConversationTurn {
                role: "user".to_owned(),
                content: "hi".to_owned(),
            },
            ConversationTurn {
                role: "assistant".to_owned(),
                content: "hello".to_owned(),
            },
        ],
        summary_block: Some("## Summary".to_owned()),
    }
}

fn entries(mode: MemoryMode, note: Option<&str>) -> Vec<(MemoryContextKind, String, String)> {
    let (entries, diagnostics) =
        load_prompt_context_with_diagnostics(&config(mode, note), Ok((snapshot(), 7)))
            .expect("context");
    assert_eq!(diagnostics, 7);
    entries
        .into_iter()
        .map(|e| (e.kind, e.role, e.content))
        .collect()
}

#[test]
fn prompts_get_the_profile_the_summary_and_the_turns() {
    let plain = entries(MemoryMode::WindowOnly, Some("note"));
    assert_eq!(plain.len(), 2);
    assert_eq!(
        plain[0],
        (
            MemoryContextKind::Turn,
            "user".to_owned(),
            "hi".to_owned()
        )
    );
    let profile = entries(MemoryMode::ProfilePlusWindow, Some("  likes tea "));
    assert_eq!(profile.len(), 3);
    assert_eq!(profile[0].0, MemoryContextKind::Profile);
    assert_eq!(
        profile[0].2,
        "## Session Profile\nDurable preferences or imported identity carried into this session:\n- likes tea"
    );
    assert_eq!(entries(MemoryMode::ProfilePlusWindow, Some(" ")).len(), 2);
    assert_eq!(entries(MemoryMode::ProfilePlusWindow, None).len(), 2);
    let summed = entries(MemoryMode::WindowPlusSummary, Some("note"));
    assert_eq!(summed.len(), 3);
    assert_eq!(
        summed[0],
        (
            MemoryContextKind::Summary,
            "system".to_owned(),
            "## Summary".to_owned()
        )
    );
    assert_eq!(summed[2].2, "hello");
}

#[test]
fn errors_of_loading_are_handed_on() {
    let loaded: Result<(ContextSnapshot, ()), String> = Err("locked".to_owned());
    let result =
        load_prompt_context_with_diagnostics(&config(MemoryMode::WindowOnly, None), loaded);
    assert_eq!(result.err(), Some("locked".to_owned()));
}

#[test]
fn requests_are_sent_where_they_belong() {
    let dispatch = |operation: &str| {
        dispatch_memory_core(&MemoryCoreRequest {
            operation: operation.to_owned(),
            payload: parse_json("[1]").expect("json"),
        })
    };
    assert!(matches!(dispatch("append_turn"), MemoryDispatch::AppendTurn));
    assert!(matches!(dispatch("window"), MemoryDispatch::Window));
    assert!(matches!(
        dispatch("clear_session"),
        MemoryDispatch::ClearSession
    ));
    assert!(matches!(
        dispatch("read_context"),
        MemoryDispatch::ReadContext
    ));
    match dispatch("other") {
        MemoryDispatch::Answer(outcome) => {
            assert_eq!(outcome.status, "ok");
            assert_eq!(
                render_json(&outcome.payload),
                "{\"adapter\":\"kv-core\",\"operation\":\"other\",\"payload\":[1]}"
            );
        }
        _ => panic!("the request should be answered"),
    }
}

#[test]
fn json_is_read_and_written() {
    let text = "{\"a\":[1,-2,1.5,true,null,\"x\"]}";
    assert_eq!(
        render_json(&parse_json(text).expect("json")),
        "{\"a\":[1,-2,1.5,true,null,\"x\"]}"
    );
    let number = parse_json("18446744073709551615").expect("json");
    assert_eq!(number.as_u64(), Some(u64::MAX));
    assert_eq!(number.as_i64(), None);
    assert_eq!(
        parse_json("{").err().as_deref(),
        Some("EOF while parsing an object at line 1 column 1")
    );
    assert!(matches!(parse_json("null"), Ok(Json::Null)));
    assert!(matches!(
        scan_json("{\"a\":\"\u{f6}\"} rest"),
        JsonScan::Value(_, 9)
    ));
    assert!(matches!(scan_json("  "), JsonScan::End));
    assert!(matches!(scan_json("{"), JsonScan::Invalid));
}

#[test]
fn texts_are_cut_and_joined() {
    assert_eq!(lower_text("ÄbC-D"), "Äbc-d");
    assert_eq!(integer_text(i64::MIN), "-9223372036854775808");
    assert_eq!(integer_text(0), "0");
    assert_eq!(hex_text(0xbeef, 6), "00beef");
    let chars: Vec<char> = "a\r\nb\n".chars().collect();
    let lines: Vec<String> = lines_of(&chars).iter().map(to_text).collect();
    assert_eq!(lines, vec!["a", "b"]);
    let chars: Vec<char> = "aXbX".chars().collect();
    assert_eq!(to_text(&replace_text(&chars, "X", "--")), "a--b--");
}

#[test]
fn objects_are_in_the_order_of_their_keys() {
    let read = parse_json("{\"b\":{\"z\":1,\"y\":-2},\"a\":[{\"d\":1,\"c\":2}]}").expect("json");
    let keys: Vec<&str> = read
        .as_object()
        .expect("object")
        .iter()
        .map(|entry| entry.0.as_str())
        .collect();
    assert_eq!(keys, vec!["a", "b"]);
    assert_eq!(
        render_json(&read),
        "{\"a\":[{\"c\":2,\"d\":1}],\"b\":{\"y\":-2,\"z\":1}}"
    );
    let written = Json::Object(vec![
        ("b".to_owned(), Json::Unsigned(1)),
        ("a".to_owned(), Json::Signed(-1)),
    ]);
    assert_eq!(render_json(&written), "{\"a\":-1,\"b\":1}");
}
