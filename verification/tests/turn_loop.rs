//! The loop that runs a turn.
use loongclaw::conversation::turn_loop::{
    build_round_limit_terminal_action, decide_round_kernel_action, format_fingerprint,
    initialize_turn_loop_session, text_fingerprint, tool_intent_signature, tool_name_signature,
    tool_round_outcome, truncate_followup_tool_payload, FollowupPayloadBudget, FollowupTail, RoundFollowup,
    RoundKernelDecision, RoundKernelEvaluation, RoundStep, ToolLoopSupervisor,
    ToolLoopSupervisorVerdict, TurnLoopConfig, TurnLoopPolicy, TurnLoopTerminalAction, TurnStep,
};
use loongclaw::conversation::turn_shared::{
    decide_provider_turn_request_action, join_non_empty_lines, tool_loop_circuit_breaker_reply,
    ProviderErrorMode, ProviderTurnRequestAction, ReplyPersistenceMode, ToolDrivenFollowupPayload,
    TurnRoundBudget, TurnRoundBudgetDecision,
};
use loongclaw::conversation::{
    ApprovalRequirement, ProviderTurn, ToolIntent, TurnFailure, TurnResult,
};
use loongclaw::json::{parse_json, Json};

fn tool_intent(name: &str, args: &str) -> ToolIntent {
    ToolIntent {
        tool_name: name.to_owned(),
        args_json: parse_json(args).expect("json"),
        source: "provider_tool_call".to_owned(),
        session_id: String::new(),
        turn_id: String::new(),
        tool_call_id: String::new(),
    }
}

fn turn(text: &str, tools: Vec<ToolIntent>) -> ProviderTurn {
    ProviderTurn {
        assistant_text: text.to_owned(),
        tool_intents: tools,
        raw_meta: Json::Null,
    }
}

#[test]
fn decide_round_kernel_action_continues_tool_result_with_warning_before_round_limit() {
    let evaluation = RoundKernelEvaluation {
        assistant_preface: "preface".to_owned(),
        had_tool_intents: true,
        turn_result: TurnResult::FinalText("tool output".to_owned()),
        loop_verdict: Some(ToolLoopSupervisorVerdict::InjectWarning {
            reason: "warning".to_owned(),
        }),
    };
    let reply_phase = evaluation.reply_phase(false);
    let decision = decide_round_kernel_action(
        TurnRoundBudget::for_round_index(0, 3),
        evaluation,
        reply_phase,
    );
    if let RoundKernelDecision::ContinueWithFollowup(RoundFollowup::Tool {
        assistant_preface,
        payload: ToolDrivenFollowupPayload::ToolResult { text },
        loop_warning_reason,
    }) = decision
    {
        assert_eq!(assistant_preface, "preface");
        assert_eq!(text, "tool output");
        assert_eq!(loop_warning_reason.as_deref(), Some("warning"));
    } else {
        panic!("unexpected decision");
    }
}

#[test]
fn decide_round_kernel_action_hard_stop_tool_result_uses_completion_pass() {
    let evaluation = RoundKernelEvaluation {
        assistant_preface: "preface".to_owned(),
        had_tool_intents: true,
        turn_result: TurnResult::FinalText("tool output".to_owned()),
        loop_verdict: Some(ToolLoopSupervisorVerdict::HardStop {
            reason: "stop".to_owned(),
        }),
    };
    let reply_phase = evaluation.reply_phase(false);
    let decision = decide_round_kernel_action(
        TurnRoundBudget::for_round_index(0, 3),
        evaluation,
        reply_phase,
    );
    if let RoundKernelDecision::FinalizeWithCompletionPass {
        raw_reply,
        followup:
            RoundFollowup::Guard {
                assistant_preface,
                reason,
                latest_tool_payload: Some(ToolDrivenFollowupPayload::ToolResult { text }),
            },
    } = decision
    {
        assert_eq!(raw_reply, "preface\ntool output");
        assert_eq!(assistant_preface, "preface");
        assert_eq!(reason, "stop");
        assert_eq!(text, "tool output");
    } else {
        panic!("unexpected decision");
    }
}

#[test]
fn decide_round_kernel_action_hard_stop_tool_failure_uses_completion_pass() {
    let evaluation = RoundKernelEvaluation {
        assistant_preface: "preface".to_owned(),
        had_tool_intents: true,
        turn_result: TurnResult::ToolError(TurnFailure::retryable("tool_failed", "tool failure")),
        loop_verdict: Some(ToolLoopSupervisorVerdict::HardStop {
            reason: "stop".to_owned(),
        }),
    };
    let reply_phase = evaluation.reply_phase(false);
    let decision = decide_round_kernel_action(
        TurnRoundBudget::for_round_index(0, 3),
        evaluation,
        reply_phase,
    );
    if let RoundKernelDecision::FinalizeWithCompletionPass {
        raw_reply,
        followup:
            RoundFollowup::Guard {
                assistant_preface,
                reason,
                latest_tool_payload:
                    Some(ToolDrivenFollowupPayload::ToolFailure {
                        reason: tool_reason,
                    }),
            },
    } = decision
    {
        assert_eq!(raw_reply, "preface\ntool failure");
        assert_eq!(assistant_preface, "preface");
        assert_eq!(reason, "stop");
        assert_eq!(tool_reason, "tool failure");
    } else {
        panic!("unexpected decision");
    }
}

#[test]
fn decide_round_kernel_action_raw_mode_finalizes_tool_result_directly() {
    let evaluation = RoundKernelEvaluation {
        assistant_preface: "preface".to_owned(),
        had_tool_intents: true,
        turn_result: TurnResult::FinalText("tool output".to_owned()),
        loop_verdict: Some(ToolLoopSupervisorVerdict::InjectWarning {
            reason: "warning".to_owned(),
        }),
    };
    let reply_phase = evaluation.reply_phase(true);
    let decision = decide_round_kernel_action(
        TurnRoundBudget::for_round_index(0, 3),
        evaluation,
        reply_phase,
    );
    if let RoundKernelDecision::FinalizeDirect { reply } = decision {
        assert_eq!(reply, "preface\ntool output");
    } else {
        panic!("unexpected decision");
    }
}

#[test]
fn turn_round_budget_detects_followup_capacity() {
    let first_round = TurnRoundBudget::for_round_index(0, 3);
    let last_round = TurnRoundBudget::for_round_index(2, 3);
    assert_eq!(
        first_round.followup_decision(),
        TurnRoundBudgetDecision::ContinueWithFollowup
    );
    assert_eq!(
        last_round.followup_decision(),
        TurnRoundBudgetDecision::FinalizeWithCompletionPass
    );
}

#[test]
fn decide_provider_turn_request_action_continues_successful_turns() {
    let action = decide_provider_turn_request_action(
        Ok(turn("preface", Vec::new())),
        ProviderErrorMode::Propagate,
    );
    match action {
        ProviderTurnRequestAction::Continue { turn } => {
            assert_eq!(turn.assistant_text, "preface");
            assert!(turn.tool_intents.is_empty());
        }
        ProviderTurnRequestAction::FinalizeInlineProviderError { reply } => {
            panic!("unexpected inline error action: {reply}");
        }
        ProviderTurnRequestAction::ReturnError { error } => {
            panic!("unexpected propagated error action: {error}");
        }
    }
}

#[test]
fn decide_provider_turn_request_action_formats_inline_provider_errors() {
    let action = decide_provider_turn_request_action(
        Err("timeout".to_owned()),
        ProviderErrorMode::InlineMessage,
    );
    match action {
        ProviderTurnRequestAction::FinalizeInlineProviderError { reply } => {
            assert_eq!(reply, "[provider_error] timeout");
        }
        ProviderTurnRequestAction::Continue { .. } => {
            panic!("unexpected continue action");
        }
        ProviderTurnRequestAction::ReturnError { error } => {
            panic!("unexpected propagated error action: {error}");
        }
    }
}

#[test]
fn decide_provider_turn_request_action_propagates_provider_errors() {
    let action = decide_provider_turn_request_action(
        Err("timeout".to_owned()),
        ProviderErrorMode::Propagate,
    );
    match action {
        ProviderTurnRequestAction::ReturnError { error } => {
            assert_eq!(error, "timeout");
        }
        ProviderTurnRequestAction::Continue { .. } => {
            panic!("unexpected continue action");
        }
        ProviderTurnRequestAction::FinalizeInlineProviderError { reply } => {
            panic!("unexpected inline error action: {reply}");
        }
    }
}

#[test]
fn build_round_limit_terminal_action_prefers_last_raw_reply() {
    match build_round_limit_terminal_action("last raw reply") {
        TurnLoopTerminalAction::PersistReply {
            reply,
            persistence_mode,
        } => {
            assert_eq!(reply, "last raw reply");
            assert_eq!(persistence_mode, ReplyPersistenceMode::Success);
        }
        TurnLoopTerminalAction::ReturnError { error } => {
            panic!("unexpected propagated error terminal action: {error}");
        }
    }
}

#[test]
fn build_round_limit_terminal_action_uses_synthetic_reply_when_raw_reply_missing() {
    match build_round_limit_terminal_action("") {
        TurnLoopTerminalAction::PersistReply {
            reply,
            persistence_mode,
        } => {
            assert_eq!(reply, "agent_loop_round_limit_reached");
            assert_eq!(persistence_mode, ReplyPersistenceMode::Success);
        }
        TurnLoopTerminalAction::ReturnError { error } => {
            panic!("unexpected propagated error terminal action: {error}");
        }
    }
}

fn test_policy_with_consecutive_limit(limit: usize) -> TurnLoopPolicy {
    TurnLoopPolicy {
        max_rounds: 100,
        max_tool_steps_per_round: 1,
        max_repeated_tool_call_rounds: 100,
        max_ping_pong_cycles: 100,
        max_same_tool_failure_rounds: 100,
        max_followup_tool_payload_chars: 8_000,
        max_followup_tool_payload_chars_total: 20_000,
        max_total_tool_calls: 200,
        max_consecutive_same_tool: limit,
    }
}

fn observe(
    supervisor: &mut ToolLoopSupervisor,
    policy: &TurnLoopPolicy,
    tool_name: &str,
) -> ToolLoopSupervisorVerdict {
    supervisor.observe_round(policy, tool_name, tool_name, "ok", false)
}

#[test]
fn consecutive_same_tool_injects_warning_at_threshold() {
    let policy = test_policy_with_consecutive_limit(3);
    let mut supervisor = ToolLoopSupervisor::default();
    assert!(matches!(
        observe(&mut supervisor, &policy, "shell.exec"),
        ToolLoopSupervisorVerdict::Continue
    ));
    assert!(matches!(
        observe(&mut supervisor, &policy, "shell.exec"),
        ToolLoopSupervisorVerdict::Continue
    ));
    assert!(matches!(
        observe(&mut supervisor, &policy, "shell.exec"),
        ToolLoopSupervisorVerdict::InjectWarning { .. }
    ));
}

#[test]
fn consecutive_same_tool_hard_stops_on_repeat_warning() {
    let policy = test_policy_with_consecutive_limit(3);
    let mut supervisor = ToolLoopSupervisor::default();
    observe(&mut supervisor, &policy, "shell.exec");
    observe(&mut supervisor, &policy, "shell.exec");
    observe(&mut supervisor, &policy, "shell.exec");
    assert!(matches!(
        observe(&mut supervisor, &policy, "shell.exec"),
        ToolLoopSupervisorVerdict::HardStop { .. }
    ));
}

#[test]
fn consecutive_same_tool_resets_on_tool_name_change() {
    let policy = test_policy_with_consecutive_limit(3);
    let mut supervisor = ToolLoopSupervisor::default();
    observe(&mut supervisor, &policy, "shell.exec");
    observe(&mut supervisor, &policy, "shell.exec");
    assert!(matches!(
        observe(&mut supervisor, &policy, "file.read"),
        ToolLoopSupervisorVerdict::Continue
    ));
    assert!(matches!(
        observe(&mut supervisor, &policy, "shell.exec"),
        ToolLoopSupervisorVerdict::Continue
    ));
}

#[test]
fn global_circuit_breaker_allows_reaching_limit_and_trips_only_above_it() {
    assert_eq!(tool_loop_circuit_breaker_reply(200, 200), None);
    assert_eq!(
        tool_loop_circuit_breaker_reply(201, 200).as_deref(),
        Some(
            "tool_loop_circuit_breaker: would exceed 201/200 tool calls this turn. Do you want to continue? Reply to resume."
        )
    );
    assert!(tool_loop_circuit_breaker_reply(usize::MAX, 200).is_some());
}

#[test]
fn ping_pong_and_failures_are_noticed() {
    let mut policy = test_policy_with_consecutive_limit(100);
    policy.max_ping_pong_cycles = 2;
    let mut supervisor = ToolLoopSupervisor::default();
    let mut verdicts = Vec::new();
    for round in 0..6 {
        let name = if round % 2 == 0 { "a" } else { "b" };
        verdicts.push(observe(&mut supervisor, &policy, name));
    }
    assert!(verdicts
        .iter()
        .any(|v| matches!(v, ToolLoopSupervisorVerdict::InjectWarning { .. })));

    let mut policy = test_policy_with_consecutive_limit(100);
    policy.max_same_tool_failure_rounds = 2;
    let mut supervisor = ToolLoopSupervisor::default();
    let first = supervisor.observe_round(&policy, "a:1", "a", "x", true);
    assert!(matches!(first, ToolLoopSupervisorVerdict::Continue));
    let second = supervisor.observe_round(&policy, "a:2", "a", "y", true);
    let third = supervisor.observe_round(&policy, "a:3", "a", "z", true);
    assert!(
        matches!(second, ToolLoopSupervisorVerdict::InjectWarning { .. })
            || matches!(third, ToolLoopSupervisorVerdict::InjectWarning { .. })
    );
}

#[test]
fn ping_pong_is_stopped_whichever_call_comes_last() {
    let mut policy = test_policy_with_consecutive_limit(100);
    policy.max_ping_pong_cycles = 2;
    let mut supervisor = ToolLoopSupervisor::default();
    for name in ["a", "b", "a"] {
        assert!(matches!(
            observe(&mut supervisor, &policy, name),
            ToolLoopSupervisorVerdict::Continue
        ));
    }
    assert!(matches!(
        observe(&mut supervisor, &policy, "b"),
        ToolLoopSupervisorVerdict::InjectWarning { .. }
    ));
    assert!(matches!(
        observe(&mut supervisor, &policy, "a"),
        ToolLoopSupervisorVerdict::HardStop { .. }
    ));
    assert!(matches!(
        observe(&mut supervisor, &policy, "c"),
        ToolLoopSupervisorVerdict::Continue
    ));
}

#[test]
fn no_stop_comes_without_a_warning_before() {
    let policy = test_policy_with_consecutive_limit(2);
    let mut supervisor = ToolLoopSupervisor::default();
    let mut passed = true;
    let mut in_a_row = 0;
    let mut last = "";
    for name in ["a", "b", "b", "b", "a", "a", "b", "a", "a", "a", "a", "c"] {
        in_a_row = if name == last { in_a_row + 1 } else { 1 };
        last = name;
        let verdict = observe(&mut supervisor, &policy, name);
        if matches!(verdict, ToolLoopSupervisorVerdict::HardStop { .. }) {
            assert!(!passed);
        }
        passed = matches!(verdict, ToolLoopSupervisorVerdict::Continue);
        assert!(in_a_row < 2 || !passed);
    }
}

#[test]
fn the_same_call_without_progress_is_noticed() {
    let mut policy = test_policy_with_consecutive_limit(100);
    policy.max_repeated_tool_call_rounds = 2;
    let mut supervisor = ToolLoopSupervisor::default();
    let mut warned = 0;
    for _ in 0..3 {
        if matches!(
            observe(&mut supervisor, &policy, "a"),
            ToolLoopSupervisorVerdict::InjectWarning { .. }
        ) {
            warned += 1;
        }
    }
    assert_eq!(warned, 1);
}

#[test]
fn payloads_are_cut_to_their_budget() {
    assert_eq!(truncate_followup_tool_payload("x", "  ab  ", 2), "ab");
    assert_eq!(
        truncate_followup_tool_payload("x", &"a".repeat(300), 100),
        format!("{}\n[x_truncated] removed_chars=280", "a".repeat(20))
    );
    assert_eq!(
        truncate_followup_tool_payload("x", "abc", 2),
        "a\n[x_truncated] removed_chars=2"
    );
    let mut budget = FollowupPayloadBudget::new(100, 120);
    assert_eq!(
        budget.truncate_payload("p", &"a".repeat(100)),
        "a".repeat(100)
    );
    assert_eq!(
        budget.truncate_payload("p", &"b".repeat(50)),
        "b\n[p_truncated] removed_chars=49"
    );
    assert_eq!(
        budget.truncate_payload("p", "ccc"),
        "[p_truncated] removed_chars=3 budget_exhausted=true"
    );
}

#[test]
fn fingerprints_tell_texts_apart() {
    assert_eq!(format_fingerprint("l", 255), "l:00000000000000ff");
    assert_eq!(text_fingerprint("l", " a "), text_fingerprint("l", "a"));
    assert_ne!(text_fingerprint("l", "a"), text_fingerprint("l", "b"));
    assert!(text_fingerprint("label", "a").starts_with("label:"));
    let outcome = tool_round_outcome(&TurnResult::NeedsApproval(ApprovalRequirement {
        approval_request_id: Some("id".to_owned()),
        reason: "why".to_owned(),
    }))
    .expect("outcome");
    assert!(!outcome.failed);
    assert_eq!(
        outcome.fingerprint,
        text_fingerprint("tool_approval_required", "id")
    );
    let denied = TurnFailure::retryable("c", "no");
    let outcome = tool_round_outcome(&TurnResult::ToolDenied(denied)).expect("outcome");
    assert!(outcome.failed);
    assert_eq!(outcome.fingerprint, text_fingerprint("tool_denied", "no"));
    let failed = TurnFailure::retryable("c", "no");
    assert!(tool_round_outcome(&TurnResult::ProviderError(failed)).is_none());
}

#[test]
fn signatures_name_the_tools() {
    let intents = vec![
        tool_intent(" file.read ", r#"{"path":"a"}"#),
        tool_intent("shell.exec", "{}"),
    ];
    assert_eq!(
        tool_intent_signature(&intents),
        "file.read:{\"path\":\"a\"}||shell.exec:{}"
    );
    assert_eq!(tool_name_signature(&intents), "file.read||shell.exec");
    assert_eq!(join_non_empty_lines("a", "b"), "a\nb");
    assert_eq!(join_non_empty_lines("", "b"), "b");
}

#[test]
fn limits_of_a_turn_allow_at_least_something() {
    let policy = TurnLoopPolicy::from_config(&TurnLoopConfig {
        max_rounds: 0,
        max_tool_steps_per_round: 0,
        max_repeated_tool_call_rounds: 0,
        max_ping_pong_cycles: 0,
        max_same_tool_failure_rounds: 0,
        max_followup_tool_payload_chars: 0,
        max_followup_tool_payload_chars_total: 0,
        max_total_tool_calls: 0,
        max_consecutive_same_tool: 0,
    });
    assert_eq!(policy.max_rounds, 1);
    assert_eq!(policy.max_total_tool_calls, 1);
    assert_eq!(policy.max_followup_tool_payload_chars, 256);
}

#[test]
fn a_session_goes_round_by_round() {
    let mut policy = test_policy_with_consecutive_limit(10);
    policy.max_rounds = 2;
    policy.max_total_tool_calls = 2;
    let mut session = initialize_turn_loop_session(Vec::new(), "hi", false, &policy);
    assert_eq!(session.messages().len(), 1);
    assert_eq!(session.messages()[0].str_at("content"), Some("hi"));
    let calls = || vec![tool_intent("file.read", "{}")];
    let step = session.on_turn(Ok(turn("one", calls())), ProviderErrorMode::Propagate);
    let first = match step {
        TurnStep::RunTools { turn } => turn,
        TurnStep::End { .. } => panic!("the tools should run"),
    };
    match session.on_tools(first, TurnResult::FinalText("out".to_owned())) {
        RoundStep::NextRound { .. } => {}
        _ => panic!("another round should follow"),
    }
    session.append_messages(vec![Json::Text("more".to_owned())]);
    assert_eq!(session.messages().len(), 2);
    let step = session.on_turn(
        Ok(turn("two", vec![tool_intent("a", "{}"), tool_intent("b", "{}")])),
        ProviderErrorMode::Propagate,
    );
    match step {
        TurnStep::End {
            action: TurnLoopTerminalAction::PersistReply { reply, .. },
        } => assert!(reply.starts_with("tool_loop_circuit_breaker: would exceed 3/2")),
        _ => panic!("there are too many calls"),
    }
    let step = session.on_turn(Ok(turn("two", calls())), ProviderErrorMode::Propagate);
    let second = match step {
        TurnStep::RunTools { turn } => turn,
        TurnStep::End { .. } => panic!("the tools should run"),
    };
    match session.on_tools(second, TurnResult::FinalText("out".to_owned())) {
        RoundStep::CompletionPass { raw_reply, .. } => assert_eq!(raw_reply, "two\nout"),
        _ => panic!("the last round should end the turn"),
    }
    match session.on_turn(Err("down".to_owned()), ProviderErrorMode::InlineMessage) {
        TurnStep::End {
            action:
                TurnLoopTerminalAction::PersistReply {
                    reply,
                    persistence_mode,
                },
        } => {
            assert_eq!(reply, "[provider_error] down");
            assert_eq!(persistence_mode, ReplyPersistenceMode::InlineProviderError);
        }
        _ => panic!("an error ends the turn"),
    }
}

#[test]
fn raw_output_and_plain_answers_end_the_turn() {
    let policy = test_policy_with_consecutive_limit(10);
    let mut session = initialize_turn_loop_session(Vec::new(), "hi", true, &policy);
    let called = turn("one", vec![tool_intent("file.read", "{}")]);
    match session.on_tools(called, TurnResult::FinalText("out".to_owned())) {
        RoundStep::End {
            action: TurnLoopTerminalAction::PersistReply { reply, .. },
        } => assert_eq!(reply, "one\nout"),
        _ => panic!("raw output is the reply"),
    }
    let mut session = initialize_turn_loop_session(Vec::new(), "hi", false, &policy);
    match session.on_tools(turn("bye", Vec::new()), TurnResult::FinalText("bye".to_owned())) {
        RoundStep::End {
            action: TurnLoopTerminalAction::PersistReply { reply, .. },
        } => assert_eq!(reply, "bye"),
        _ => panic!("a plain answer is the reply"),
    }
}

#[test]
fn a_turn_without_rounds_ends_with_what_its_tools_said_last() {
    let policy = test_policy_with_consecutive_limit(10);
    let mut session = initialize_turn_loop_session(Vec::new(), "hi", false, &policy);
    assert!(matches!(
        session.on_round_limit(),
        TurnLoopTerminalAction::PersistReply { reply, persistence_mode: ReplyPersistenceMode::Success }
            if reply == "agent_loop_round_limit_reached"
    ));
    let called = turn("one", vec![tool_intent("file.read", "{}")]);
    match session.on_tools(called, TurnResult::FinalText("out".to_owned())) {
        RoundStep::NextRound { .. } => {}
        _ => panic!("another round should follow"),
    }
    assert!(matches!(
        session.on_round_limit(),
        TurnLoopTerminalAction::PersistReply { reply, .. } if reply == "one\nout"
    ));
}

#[test]
fn followups_tell_what_came_of_the_round() {
    let guard = RoundFollowup::Guard {
        assistant_preface: "p".to_owned(),
        reason: "r".to_owned(),
        latest_tool_payload: Some(ToolDrivenFollowupPayload::ToolFailure {
            reason: "no".to_owned(),
        }),
    };
    match guard.into_tail() {
        FollowupTail::LoopGuard {
            assistant_preface,
            reason,
            latest_tool_context,
        } => {
            assert_eq!(assistant_preface, "p");
            assert_eq!(reason, "r");
            assert_eq!(latest_tool_context, Some(("tool_failure", "no".to_owned())));
        }
        FollowupTail::ToolDriven { .. } => panic!("a guard should follow"),
    }
    let tool = RoundFollowup::Tool {
        assistant_preface: "p".to_owned(),
        payload: ToolDrivenFollowupPayload::ToolResult {
            text: "out".to_owned(),
        },
        loop_warning_reason: Some("w".to_owned()),
    };
    match tool.into_tail() {
        FollowupTail::ToolDriven {
            payload,
            loop_warning_reason,
            ..
        } => {
            assert_eq!(payload.message_context(), ("tool_result", "out"));
            assert_eq!(loop_warning_reason.as_deref(), Some("w"));
        }
        FollowupTail::LoopGuard { .. } => panic!("the result should follow"),
    }
}

#[test]
fn payloads_of_followups_are_labelled() {
    let result = ToolDrivenFollowupPayload::ToolResult { text: "out".to_owned() };
    assert_eq!(result.message_context(), ("tool_result", "out"));
    let failure = ToolDrivenFollowupPayload::ToolFailure { reason: "no".to_owned() };
    assert_eq!(failure.message_context(), ("tool_failure", "no"));
}

#[test]
fn two_calls_in_turn_have_one_key() {
    let policy = test_policy_with_consecutive_limit(100);
    let mut supervisor = ToolLoopSupervisor::default();
    assert!(supervisor.check_ping_pong(1).is_none());
    observe(&mut supervisor, &policy, "a");
    assert!(supervisor.check_ping_pong(1).is_none());
    observe(&mut supervisor, &policy, "b");
    let first = supervisor.check_ping_pong(1).expect("two in turn");
    assert_eq!(first.key, "ping_pong:a::ok<->b::ok");
    assert_eq!(first.text, "ping_pong_tool_patterns cycles=1 threshold=1");
    observe(&mut supervisor, &policy, "a");
    let second = supervisor.check_ping_pong(1).expect("two in turn");
    assert_eq!(second.key, first.key);
    assert!(supervisor.check_ping_pong(0).is_none());
    assert!(supervisor.check_ping_pong(2).is_none());
    observe(&mut supervisor, &policy, "a");
    assert!(supervisor.check_ping_pong(1).is_none());
}
