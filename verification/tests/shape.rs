//! What the answers of providers mean.
use loongclaw::json::{parse_json, render_json, Json};
use loongclaw::provider::bridge::provider_tool_bridge_context_from_messages;
use loongclaw::provider::models::extract_model_ids;
use loongclaw::provider::shape::{
    extract_message_content, extract_provider_turn, extract_provider_turn_with_scope,
    extract_provider_turn_with_scope_and_messages,
};
use serde_json::Value;

fn json(text: &str) -> Json {
    parse_json(text).expect("json")
}

fn parsed(text: &str) -> Value {
    serde_json::from_str(text).expect("json")
}

fn value(json: &Json) -> Value {
    parsed(&render_json(json))
}

fn quoted(text: &str) -> String {
    serde_json::to_string(text).expect("encode text")
}

fn search_envelope(summary: &str, call: &str, chars: usize, truncated: bool) -> String {
    format!(
        "{{\"status\":\"ok\",\"tool\":\"tool.search\",\"tool_call_id\":{},\"payload_summary\":{},\"payload_chars\":{},\"payload_truncated\":{}}}",
        quoted(call),
        quoted(summary),
        chars,
        truncated
    )
}

fn assistant(content: &str) -> Json {
    json(&format!(
        "{{\"role\":\"assistant\",\"content\":{}}}",
        quoted(content)
    ))
}

fn discovery_followup_messages(tool_id: &str, lease: &str) -> Vec<Json> {
    let summary = format!(
        "{{\"results\":[{{\"tool_id\":{},\"lease\":{}}}]}}",
        quoted(tool_id),
        quoted(lease)
    );
    let envelope = search_envelope(&summary, "call-search", summary.chars().count(), false);
    vec![assistant(&format!("[tool_result]\n[ok] {envelope}"))]
}

fn compacted_summary(query: &str, lease: &str) -> String {
    format!(
        "{{\"query\":{},\"results\":[{{\"tool_id\":\"file.read\",\"summary\":\"Read a UTF-8 text file from the configured workspace root and return contents.\",\"argument_hint\":\"path:string,offset?:integer,limit?:integer\",\"required_fields\":[\"path\"],\"required_field_groups\":[[\"path\"]],\"lease\":{}}}]}}",
        quoted(query),
        quoted(lease)
    )
}

#[test]
fn bridge_context_skips_truncated_search_results() {
    let summary = r#"{"results":[{"tool_id":"file.read","lease":"lease-truncated"}]}"#;
    let envelope = search_envelope(summary, "call-search", summary.chars().count(), true);
    let messages = vec![assistant(&format!("[tool_result]\n[ok] {envelope}"))];
    let body = json(
        r#"{
        "choices": [{
            "message": {
                "content": "reading",
                "tool_calls": [{
                    "id": "call_trunc",
                    "type": "function",
                    "function": {
                        "name": "file_read",
                        "arguments": "{\"path\":\"README.md\"}"
                    }
                }]
            }
        }]
    }"#,
    );
    let turn = extract_provider_turn_with_scope_and_messages(
        &body,
        Some("session-trunc"),
        Some("turn-trunc"),
        &messages,
    )
    .expect("turn");
    assert_eq!(turn.tool_intents[0].tool_name, "file.read");
    assert_eq!(
        value(&turn.tool_intents[0].args_json),
        parsed(r#"{"path": "README.md"}"#)
    );
}

#[test]
fn bridge_context_accepts_compacted_search_results() {
    let summary = compacted_summary("read repo file", "lease-compacted");
    let envelope = search_envelope(&summary, "call-search", summary.chars().count(), false);
    let messages = vec![assistant(&format!("[tool_result]\n[ok] {envelope}"))];
    let context = provider_tool_bridge_context_from_messages(&messages);
    assert_eq!(context.lease("file.read"), Some("lease-compacted"));
}

#[test]
fn provider_shape_discovery_followup_uses_first_lease_in_multiline_source_order() {
    let first = search_envelope(
        &compacted_summary("read repo file", "lease-first"),
        "call-search-1",
        0,
        false,
    );
    let second = search_envelope(
        &compacted_summary("read repo file again", "lease-second"),
        "call-search-2",
        0,
        false,
    );
    let messages = vec![assistant(&format!(
        "[tool_result]\n[ok] {first}\n[ok] {second}"
    ))];
    let context = provider_tool_bridge_context_from_messages(&messages);
    assert_eq!(context.lease("file.read"), Some("lease-first"));
}

#[test]
fn extract_provider_turn_parses_tool_calls() {
    let body = json(r#"{
        "choices": [{
            "message": {
                "content": "checking",
                "tool_calls": [{
                    "id": "call_1",
                    "type": "function",
                    "function": {
                        "name": "file.read",
                        "arguments": "{\"path\":\"README.md\"}"
                    }
                }]
            }
        }]
    }"#);
    let turn = extract_provider_turn(&body).expect("turn");
    assert_eq!(turn.assistant_text, "checking");
    assert_eq!(turn.tool_intents.len(), 1);
    assert_eq!(turn.tool_intents[0].tool_name, "file.read");
    assert_eq!(value(&turn.tool_intents[0].args_json), parsed(r#"{"path":"README.md"}"#));
    assert_eq!(turn.tool_intents[0].tool_call_id, "call_1");
}

#[test]
fn extract_provider_turn_surfaces_malformed_json_args() {
    let body = json(r#"{
        "choices": [{
            "message": {
                "content": "calling",
                "tool_calls": [{
                    "id": "call_bad",
                    "type": "function",
                    "function": {
                        "name": "file.read",
                        "arguments": "{{not valid json"
                    }
                }]
            }
        }]
    }"#);
    let turn = extract_provider_turn(&body).expect("turn");
    assert_eq!(turn.tool_intents.len(), 1);
    let args = value(&turn.tool_intents[0].args_json);
    assert!(
        args.get("_parse_error").is_some(),
        "malformed args should surface parse error"
    );
    assert_eq!(
        args.get("_raw_arguments").and_then(|v| v.as_str()),
        Some("{{not valid json")
    );
}

#[test]
fn extract_provider_turn_normalizes_underscore_tool_aliases() {
    let body = json(r#"{
        "choices": [{
            "message": {
                "content": "calling",
                "tool_calls": [{
                    "id": "call_underscore",
                    "type": "function",
                    "function": {
                        "name": "file_read",
                        "arguments": "{\"path\":\"README.md\"}"
                    }
                }]
            }
        }]
    }"#);
    let turn = extract_provider_turn(&body).expect("turn");
    assert_eq!(turn.tool_intents.len(), 1);
    assert_eq!(turn.tool_intents[0].tool_name, "file.read");
    assert_eq!(value(&turn.tool_intents[0].args_json), parsed(r#"{"path":"README.md"}"#));
}

#[test]
fn extract_provider_turn_with_scope_rewrites_discoverable_tools_to_tool_invoke_after_search() {
    let body = json(r#"{
        "choices": [{
            "message": {
                "content": "checking",
                "tool_calls": [{
                    "id": "call_compat",
                    "type": "function",
                    "function": {
                        "name": "file.read",
                        "arguments": "{\"path\":\"README.md\"}"
                    }
                }]
            }
        }]
    }"#);
    let messages = discovery_followup_messages("file.read", "lease-openai");

    let turn = extract_provider_turn_with_scope_and_messages(
        &body,
        Some("session-shape"),
        Some("turn-shape"),
        &messages,
    )
    .expect("turn");
    assert_eq!(turn.assistant_text, "checking");
    assert_eq!(turn.tool_intents.len(), 1);
    assert_eq!(turn.tool_intents[0].tool_name, "tool.invoke");
    assert_eq!(turn.tool_intents[0].session_id, "session-shape");
    assert_eq!(turn.tool_intents[0].turn_id, "turn-shape");
    assert_eq!(turn.tool_intents[0].tool_call_id, "call_compat");
    assert_eq!(value(&turn.tool_intents[0].args_json)["tool_id"], "file.read");
    assert_eq!(
        value(&turn.tool_intents[0].args_json)["arguments"],
        parsed(r#"{"path":"README.md"}"#)
    );
    assert_eq!(value(&turn.tool_intents[0].args_json)["lease"], "lease-openai");
}

#[test]
fn extract_provider_turn_handles_text_only() {
    let body = json(r#"{
        "choices": [{
            "message": {
                "content": "hello world"
            }
        }]
    }"#);
    let turn = extract_provider_turn(&body).expect("turn");
    assert_eq!(turn.assistant_text, "hello world");
    assert!(turn.tool_intents.is_empty());
}

#[test]
fn extract_provider_turn_supports_responses_function_calls() {
    let body = json(r#"{
        "output": [
            {
                "type": "message",
                "role": "assistant",
                "content": [
                    {"type": "output_text", "text": "Reading the file."}
                ]
            },
            {
                "type": "function_call",
                "name": "file_read",
                "arguments": "{\"path\":\"README.md\"}",
                "call_id": "call_resp_1"
            }
        ]
    }"#);
    let messages = discovery_followup_messages("file.read", "lease-responses");
    let turn = extract_provider_turn_with_scope(
        &body,
        Some("session-responses"),
        Some("turn-responses"),
    )
    .expect("responses turn without search context should stay direct");
    assert_eq!(turn.assistant_text, "Reading the file.");
    assert_eq!(turn.tool_intents.len(), 1);
    assert_eq!(turn.tool_intents[0].tool_name, "file.read");
    assert_eq!(turn.tool_intents[0].session_id, "session-responses");
    assert_eq!(turn.tool_intents[0].turn_id, "turn-responses");
    assert_eq!(value(&turn.tool_intents[0].args_json), parsed(r#"{"path": "README.md"}"#));
    assert_eq!(turn.tool_intents[0].tool_call_id, "call_resp_1");

    let turn = extract_provider_turn_with_scope_and_messages(
        &body,
        Some("session-responses"),
        Some("turn-responses"),
        &messages,
    )
    .expect("responses turn with search context");
    assert_eq!(turn.tool_intents.len(), 1);
    assert_eq!(turn.tool_intents[0].tool_name, "tool.invoke");
    assert_eq!(value(&turn.tool_intents[0].args_json)["tool_id"], "file.read");
    assert_eq!(
        value(&turn.tool_intents[0].args_json)["arguments"],
        parsed(r#"{"path": "README.md"}"#)
    );
    assert_eq!(value(&turn.tool_intents[0].args_json)["lease"], "lease-responses");
}

#[test]
fn extract_provider_turn_parses_inline_shell_function_block() {
    let body = json(r#"{
        "choices": [{
            "message": {
                "content": "sorry, that command failed. let me retry with a simpler approach:\n<function=shell.exec><parameter=command>ls /root</parameter></function>"
            }
        }]
    }"#);
    let messages = discovery_followup_messages("shell.exec", "lease-shell-inline");

    let turn = extract_provider_turn_with_scope_and_messages(&body, None, None, &messages)
        .expect("turn");
    assert_eq!(
        turn.assistant_text,
        "sorry, that command failed. let me retry with a simpler approach:"
    );
    assert_eq!(turn.tool_intents.len(), 1);
    // shell.exec is now ProviderCore, so it's used directly instead of
    // being wrapped in tool.invoke
    assert_eq!(turn.tool_intents[0].tool_name, "shell.exec");
    assert_eq!(
        value(&turn.tool_intents[0].args_json),
        parsed(r#"{"command":"ls /root"}"#)
    );
    assert_eq!(
        value(&turn.raw_meta)["loongclaw_provider_parse"]["inline_function"]["status"],
        "parsed"
    );
    assert_eq!(
        value(&turn.raw_meta)["loongclaw_provider_parse"]["inline_function"]["tool_count"],
        1
    );
}

#[test]
fn extract_provider_turn_parses_inline_external_skill_function_block() {
    let body = json(r#"{
        "choices": [{
            "message": {
                "content": "i can see the Home Assistant skill is installed. let me call it to fetch all entity states.\n<function=external_skills.invoke><parameter=skill_id>home-assistant-1-0-0</parameter><parameter=action>get_states</parameter></function>"
            }
        }]
    }"#);
    let messages =
        discovery_followup_messages("external_skills.invoke", "lease-external-skill-inline");

    let turn = extract_provider_turn_with_scope_and_messages(&body, None, None, &messages)
        .expect("turn");
    assert_eq!(
        turn.assistant_text,
        "i can see the Home Assistant skill is installed. let me call it to fetch all entity states."
    );
    assert_eq!(turn.tool_intents.len(), 1);
    assert_eq!(turn.tool_intents[0].tool_name, "tool.invoke");
    assert_eq!(
        value(&turn.tool_intents[0].args_json)["tool_id"],
        "external_skills.invoke"
    );
    assert_eq!(
        value(&turn.tool_intents[0].args_json)["arguments"],
        parsed(r#"{"skill_id":"home-assistant-1-0-0","action":"get_states"}"#)
    );
    assert_eq!(
        value(&turn.tool_intents[0].args_json)["lease"],
        "lease-external-skill-inline"
    );
}

#[test]
fn extract_provider_turn_parses_plain_json_tool_block() {
    let body = json(r#"{
        "choices": [{
            "message": {
                "content": "let me search for the right tool first.\n{\n  \"name\": \"tool_search\",\n  \"arguments\": {\n    \"query\": \"read note.md\",\n    \"limit\": 3\n  }\n}"
            }
        }]
    }"#);

    let turn = extract_provider_turn(&body).expect("turn");
    assert_eq!(
        turn.assistant_text,
        "let me search for the right tool first."
    );
    assert_eq!(turn.tool_intents.len(), 1);
    assert_eq!(turn.tool_intents[0].tool_name, "tool.search");
    assert_eq!(
        value(&turn.tool_intents[0].args_json),
        parsed(r#"{
            "query": "read note.md",
            "limit": 3
        }"#)
    );
    assert_eq!(
        value(&turn.raw_meta)["loongclaw_provider_parse"]["json_tool_block"]["status"],
        "parsed"
    );
    assert_eq!(
        value(&turn.raw_meta)["loongclaw_provider_parse"]["json_tool_block"]["tool_count"],
        1
    );
}

#[test]
fn extract_provider_turn_parses_tool_call_wrapped_json_blocks() {
    let body = json(r#"{
        "choices": [{
            "message": {
                "content": "let me search for the right tool first.\n<tool_call>\n{\"name\":\"tool_search\",\"arguments\":{\"query\":\"read note.md\",\"limit\":3}}\n</tool_call>"
            }
        }]
    }"#);

    let turn = extract_provider_turn(&body).expect("turn");
    assert_eq!(
        turn.assistant_text,
        "let me search for the right tool first."
    );
    assert_eq!(turn.tool_intents.len(), 1);
    assert_eq!(turn.tool_intents[0].tool_name, "tool.search");
    assert_eq!(
        value(&turn.tool_intents[0].args_json),
        parsed(r#"{
            "query": "read note.md",
            "limit": 3
        }"#)
    );
}

#[test]
fn extract_provider_turn_parses_tool_call_wrapped_top_level_json_arguments() {
    let body = json(r#"{
        "choices": [{
            "message": {
                "content": "let me search for the right tool first.\n<tool_call>\n{\"name\":\"tool_search\",\"query\":\"read note.md\",\"limit\":3}\n</tool_call>"
            }
        }]
    }"#);

    let turn = extract_provider_turn(&body).expect("turn");
    assert_eq!(
        turn.assistant_text,
        "let me search for the right tool first."
    );
    assert_eq!(turn.tool_intents.len(), 1);
    assert_eq!(turn.tool_intents[0].tool_name, "tool.search");
    assert_eq!(
        value(&turn.tool_intents[0].args_json),
        parsed(r#"{
            "query": "read note.md",
            "limit": 3
        }"#)
    );
}

#[test]
fn extract_provider_turn_rewrites_plain_json_discoverable_tool_to_tool_invoke_after_search() {
    let body = json(r#"{
        "choices": [{
            "message": {
                "content": "now i'll read the file.\n{\n  \"name\": \"file_read\",\n  \"arguments\": {\n    \"path\": \"note.md\"\n  }\n}"
            }
        }]
    }"#);
    let messages = discovery_followup_messages("file.read", "lease-json-followup");

    let turn = extract_provider_turn_with_scope_and_messages(&body, None, None, &messages)
        .expect("turn");
    assert_eq!(turn.assistant_text, "now i'll read the file.");
    assert_eq!(turn.tool_intents.len(), 1);
    assert_eq!(turn.tool_intents[0].tool_name, "tool.invoke");
    assert_eq!(value(&turn.tool_intents[0].args_json)["tool_id"], "file.read");
    assert_eq!(
        value(&turn.tool_intents[0].args_json)["lease"],
        "lease-json-followup"
    );
    assert_eq!(
        value(&turn.tool_intents[0].args_json)["arguments"],
        parsed(r#"{
            "path": "note.md"
        }"#)
    );
}

#[test]
fn extract_provider_turn_does_not_execute_plain_json_top_level_arguments_without_envelope() {
    let body = json(r#"{
        "choices": [{
            "message": {
                "content": "example:\n{\n  \"name\": \"tool_search\",\n  \"query\": \"read note.md\"\n}"
            }
        }]
    }"#);

    let turn = extract_provider_turn(&body).expect("turn");
    assert!(turn.tool_intents.is_empty());
    assert_eq!(
        turn.assistant_text,
        "example:\n{\n  \"name\": \"tool_search\",\n  \"query\": \"read note.md\"\n}"
    );
}

#[test]
fn extract_provider_turn_marks_invalid_stringified_json_tool_arguments_malformed() {
    let body = json(r#"{
        "choices": [{
            "message": {
                "content": "let me search for the right tool first.\n{\n  \"name\": \"tool_search\",\n  \"arguments\": \"{bad\"\n}"
            }
        }]
    }"#);

    let turn = extract_provider_turn(&body).expect("turn");
    assert!(turn.tool_intents.is_empty());
    assert_eq!(
        turn.assistant_text,
        "let me search for the right tool first.\n{\n  \"name\": \"tool_search\",\n  \"arguments\": \"{bad\"\n}"
    );
    assert_eq!(
        value(&turn.raw_meta)["loongclaw_provider_parse"]["json_tool_block"]["status"],
        "malformed"
    );
    assert_eq!(
        value(&turn.raw_meta)["loongclaw_provider_parse"]["json_tool_block"]["error_code"],
        "invalid_json"
    );
}

#[test]
fn extract_provider_turn_does_not_execute_nested_tool_like_plain_json_objects() {
    let body = json(r#"{
        "choices": [{
            "message": {
                "content": "example:\n{\n  \"meta\":\n  {\n    \"name\": \"tool_search\",\n    \"arguments\": {\n      \"query\": \"read note.md\"\n    }\n  }\n}"
            }
        }]
    }"#);

    let turn = extract_provider_turn(&body).expect("turn");
    assert!(turn.tool_intents.is_empty());
    assert_eq!(
        turn.assistant_text,
        "example:\n{\n  \"meta\":\n  {\n    \"name\": \"tool_search\",\n    \"arguments\": {\n      \"query\": \"read note.md\"\n    }\n  }\n}"
    );
}

#[test]
fn extract_provider_turn_does_not_execute_fenced_json_tool_examples() {
    let body = json(r#"{
        "choices": [{
            "message": {
                "content": "example:\n```json\n{\n  \"name\": \"tool_search\",\n  \"arguments\": {\n    \"query\": \"read note.md\"\n  }\n}\n```"
            }
        }]
    }"#);

    let turn = extract_provider_turn(&body).expect("turn");
    assert!(turn.tool_intents.is_empty());
    assert_eq!(
        turn.assistant_text,
        "example:\n```json\n{\n  \"name\": \"tool_search\",\n  \"arguments\": {\n    \"query\": \"read note.md\"\n  }\n}\n```"
    );
}

#[test]
fn extract_provider_turn_does_not_execute_literal_inline_function_examples() {
    let body = json(r#"{
        "choices": [{
            "message": {
                "content": "if you want to invoke it manually, you can write it like ` <function=shell.exec><parameter=command>ls</parameter></function> `."
            }
        }]
    }"#);

    let turn = extract_provider_turn(&body).expect("turn");
    assert!(turn.tool_intents.is_empty());
    assert_eq!(
        turn.assistant_text,
        "if you want to invoke it manually, you can write it like ` <function=shell.exec><parameter=command>ls</parameter></function> `."
    );
}

#[test]
fn extract_provider_turn_does_not_execute_fenced_inline_function_examples() {
    let body = json(r#"{
        "choices": [{
            "message": {
                "content": "example:\n```xml\n<function=shell.exec><parameter=command>ls</parameter></function>\n```"
            }
        }]
    }"#);

    let turn = extract_provider_turn(&body).expect("turn");
    assert!(turn.tool_intents.is_empty());
    assert_eq!(
        turn.assistant_text,
        "example:\n```xml\n<function=shell.exec><parameter=command>ls</parameter></function>\n```"
    );
}

#[test]
fn extract_provider_turn_does_not_execute_indented_code_block_examples() {
    let body = json(r#"{
        "choices": [{
            "message": {
                "content": "example:\n\n    <function=shell.exec><parameter=command>ls</parameter></function>"
            }
        }]
    }"#);

    let turn = extract_provider_turn(&body).expect("turn");
    assert!(turn.tool_intents.is_empty());
    assert_eq!(
        turn.assistant_text,
        "example:\n\n    <function=shell.exec><parameter=command>ls</parameter></function>"
    );
}

#[test]
fn extract_provider_turn_does_not_execute_multiline_indented_code_block_examples() {
    let body = json(r#"{
        "choices": [{
            "message": {
                "content": "example:\n\n    step one\n    <function=shell.exec><parameter=command>ls</parameter></function>"
            }
        }]
    }"#);

    let turn = extract_provider_turn(&body).expect("turn");
    assert!(turn.tool_intents.is_empty());
    assert_eq!(
        turn.assistant_text,
        "example:\n\n    step one\n    <function=shell.exec><parameter=command>ls</parameter></function>"
    );
}

#[test]
fn extract_provider_turn_does_not_execute_tab_indented_code_block_examples() {
    let body = json(r#"{
        "choices": [{
            "message": {
                "content": "example:\n\n\t<function=shell.exec><parameter=command>ls</parameter></function>"
            }
        }]
    }"#);

    let turn = extract_provider_turn(&body).expect("turn");
    assert!(turn.tool_intents.is_empty());
    assert_eq!(
        turn.assistant_text,
        "example:\n\n\t<function=shell.exec><parameter=command>ls</parameter></function>"
    );
}

#[test]
fn extract_provider_turn_parses_indented_inline_function_when_not_code_block() {
    let body = json(r#"{
        "choices": [{
            "message": {
                "content": "let me retry:\n    <function=shell.exec><parameter=command>ls</parameter></function>"
            }
        }]
    }"#);

    let turn = extract_provider_turn(&body).expect("turn");
    assert_eq!(turn.assistant_text, "let me retry:");
    assert_eq!(turn.tool_intents.len(), 1);
    assert_eq!(turn.tool_intents[0].tool_name, "shell.exec");
    assert_eq!(value(&turn.tool_intents[0].args_json), parsed(r#"{"command": "ls"}"#));
}

#[test]
fn extract_provider_turn_parses_tab_indented_inline_function_when_not_code_block() {
    let body = json(r#"{
        "choices": [{
            "message": {
                "content": "let me retry:\n\t<function=shell.exec><parameter=command>ls</parameter></function>"
            }
        }]
    }"#);

    let turn = extract_provider_turn(&body).expect("turn");
    assert_eq!(turn.assistant_text, "let me retry:");
    assert_eq!(turn.tool_intents.len(), 1);
    assert_eq!(turn.tool_intents[0].tool_name, "shell.exec");
    assert_eq!(value(&turn.tool_intents[0].args_json), parsed(r#"{"command": "ls"}"#));
}

#[test]
fn extract_provider_turn_recovers_inline_parameter_json_types() {
    let body = json(r#"{
        "choices": [{
            "message": {
                "content": "let me retry with structured parameters.\n<function=shell.exec><parameter=command>\"echo\"</parameter><parameter=args>[\"hello\",\"world\"]</parameter><parameter=timeout_ms>3000</parameter><parameter=login>false</parameter></function>"
            }
        }]
    }"#);

    let turn = extract_provider_turn(&body).expect("turn");
    assert_eq!(turn.tool_intents.len(), 1);
    assert_eq!(
        value(&turn.tool_intents[0].args_json),
        parsed(r#"{
            "command": "echo",
            "args": ["hello", "world"],
            "timeout_ms": 3000,
            "login": false
        }"#)
    );
}

#[test]
fn extract_provider_turn_preserves_string_typed_inline_parameters() {
    let body = json(r#"{
        "choices": [{
            "message": {
                "content": "let me retry.\n<function=shell.exec><parameter=command>true</parameter><parameter=args>[\"hello\"]</parameter></function>"
            }
        }]
    }"#);

    let turn = extract_provider_turn(&body).expect("turn");
    assert_eq!(turn.tool_intents.len(), 1);
    assert_eq!(
        value(&turn.tool_intents[0].args_json),
        parsed(r#"{
            "command": "true",
            "args": ["hello"]
        }"#)
    );
}

#[test]
fn extract_provider_turn_records_malformed_inline_function_telemetry() {
    let body = json(r#"{
        "choices": [{
            "message": {
                "content": "let me retry.\n<function=shell.exec><parameter=command>ls /root</parameter>"
            }
        }]
    }"#);

    let turn = extract_provider_turn(&body).expect("turn");
    assert_eq!(
        turn.assistant_text,
        "let me retry.\n<function=shell.exec><parameter=command>ls /root</parameter>"
    );
    assert!(turn.tool_intents.is_empty());
    assert_eq!(
        value(&turn.raw_meta)["loongclaw_provider_parse"]["inline_function"]["status"],
        "malformed"
    );
    assert_eq!(
        value(&turn.raw_meta)["loongclaw_provider_parse"]["inline_function"]["error_code"],
        "missing_function_close"
    );
}

#[test]
fn extract_provider_turn_supports_array_content_shape() {
    let body = json(r#"{
        "choices": [{
            "message": {
                "content": [
                    {"type": "text", "text": "line1"},
                    {"type": "text", "text": {"value": "line2"}}
                ]
            }
        }]
    }"#);
    let turn = extract_provider_turn(&body).expect("turn");
    assert_eq!(turn.assistant_text, "line1\nline2");
    assert!(turn.tool_intents.is_empty());
}

#[test]
fn extract_provider_turn_preserves_reasoning_content_in_raw_meta() {
    let body = json(r#"{
        "choices": [{
            "message": {
                "content": "done",
                "reasoning_content": "thinking"
            }
        }]
    }"#);
    let turn = extract_provider_turn(&body).expect("turn");
    assert_eq!(turn.assistant_text, "done");
    assert_eq!(value(&turn.raw_meta)["reasoning_content"], "thinking");
}

#[test]
fn extract_provider_turn_supports_anthropic_native_content_blocks() {
    let body = json(r#"{
        "content": [
            {
                "type": "text",
                "text": "checking"
            },
            {
                "type": "tool_use",
                "id": "toolu_1",
                "name": "file_read",
                "input": {
                    "path": "README.md"
                }
            }
        ]
    }"#);
    let messages = discovery_followup_messages("file.read", "lease-anthropic");
    let turn = extract_provider_turn_with_scope_and_messages(&body, None, None, &messages)
        .expect("turn");
    assert_eq!(turn.assistant_text, "checking");
    assert_eq!(turn.tool_intents.len(), 1);
    assert_eq!(turn.tool_intents[0].tool_name, "tool.invoke");
    assert_eq!(turn.tool_intents[0].tool_call_id, "toolu_1");
    assert_eq!(value(&turn.tool_intents[0].args_json)["tool_id"], "file.read");
    assert_eq!(
        value(&turn.tool_intents[0].args_json)["arguments"]["path"],
        "README.md"
    );
    assert_eq!(value(&turn.tool_intents[0].args_json)["lease"], "lease-anthropic");
}

#[test]
fn extract_provider_turn_supports_bedrock_converse_content_blocks() {
    let body = json(r#"{
        "output": {
            "message": {
                "role": "assistant",
                "content": [
                    {
                        "text": "checking"
                    },
                    {
                        "toolUse": {
                            "toolUseId": "toolu_1",
                            "name": "file_read",
                            "input": {
                                "path": "README.md"
                            }
                        }
                    }
                ]
            }
        },
        "stopReason": "tool_use"
    }"#);
    let messages = discovery_followup_messages("file.read", "lease-bedrock");
    let turn = extract_provider_turn_with_scope_and_messages(&body, None, None, &messages)
        .expect("turn");
    assert_eq!(turn.assistant_text, "checking");
    assert_eq!(turn.tool_intents.len(), 1);
    assert_eq!(turn.tool_intents[0].tool_name, "tool.invoke");
    assert_eq!(turn.tool_intents[0].tool_call_id, "toolu_1");
    assert_eq!(value(&turn.tool_intents[0].args_json)["tool_id"], "file.read");
    assert_eq!(
        value(&turn.tool_intents[0].args_json)["arguments"]["path"],
        "README.md"
    );
    assert_eq!(value(&turn.tool_intents[0].args_json)["lease"], "lease-bedrock");
    assert_eq!(value(&turn.raw_meta)["content"][1]["type"], "tool_use");
    assert_eq!(value(&turn.raw_meta)["content"][1]["id"], "toolu_1");
}

#[test]
fn extract_message_content_supports_part_array_shape() {
    let body = json(r#"{
        "choices": [{
            "message": {
                "content": [
                    {"type": "text", "text": "line1"},
                    {"type": "text", "text": {"value": "line2"}}
                ]
            }
        }]
    }"#);
    let content = extract_message_content(&body).expect("content");
    assert_eq!(content, "line1\nline2");
}

#[test]
fn extract_message_content_keeps_plain_string_shape() {
    let body = json(r#"{
        "choices": [{
            "message": {
                "content": "  hello world  "
            }
        }]
    }"#);
    let content = extract_message_content(&body).expect("content");
    assert_eq!(content, "hello world");
}

#[test]
fn extract_message_content_supports_responses_output_shape() {
    let body = json(r#"{
        "output": [{
            "type": "message",
            "role": "assistant",
            "content": [
                {"type": "output_text", "text": "line1"},
                {"type": "output_text", "text": {"value": "line2"}}
            ]
        }]
    }"#);
    let content = extract_message_content(&body).expect("responses content");
    assert_eq!(content, "line1\nline2");
}

#[test]
fn extract_message_content_ignores_empty_parts() {
    let body = json(r#"{
        "choices": [{
            "message": {
                "content": [
                    {"type": "text", "text": "   "},
                    {"type": "text", "text": {"value": ""}}
                ]
            }
        }]
    }"#);
    assert!(extract_message_content(&body).is_none());
}

#[test]
fn extract_model_ids_prefers_newer_timestamp_when_available() {
    let body = json(r#"{
        "data": [
            {"id": "model-v1", "created": 100},
            {"id": "model-v2", "created": 200}
        ]
    }"#);
    let ids = extract_model_ids(&body);
    assert_eq!(ids, vec!["model-v2", "model-v1"]);
}

#[test]
fn extract_model_ids_supports_models_array_and_strings() {
    let body = json(r#"{
        "models": [
            "model-c",
            {"name": "model-b"},
            {"model": "model-a"}
        ]
    }"#);
    let ids = extract_model_ids(&body);
    assert_eq!(ids, vec!["model-a", "model-b", "model-c"]);
}

#[test]
fn model_summaries_of_bedrock_are_read() {
    let body = json(r#"{
        "modelSummaries": [
            {
                "modelId": "amazon.nova-lite-v1:0",
                "modelName": "Nova Lite",
                "providerName": "Amazon"
            },
            {
                "modelId": "meta.llama3-70b-instruct-v1:0",
                "modelName": "Llama 3 70B",
                "providerName": "Meta"
            }
        ]
    }"#);
    let ids = extract_model_ids(&body);
    assert_eq!(
        ids,
        vec![
            "amazon.nova-lite-v1:0",
            "meta.llama3-70b-instruct-v1:0"
        ]
    );
}

#[test]
fn extract_model_ids_deduplicates_results() {
    let body = json(r#"{
        "data": [
            {"id": "model-a", "created": 200},
            {"id": "model-a", "created": 100},
            {"id": "model-b", "created": 150}
        ]
    }"#);
    let ids = extract_model_ids(&body);
    assert_eq!(ids, vec!["model-a", "model-b"]);
}
