//! Requests to providers.
use loongclaw::json::{parse_json, render_json, Json};
use loongclaw::provider::candidates::{
    prioritize_model_candidates_by_cooldown, rank_model_candidates,
    register_model_candidate_cooldown, ModelCandidateCooldownCache, ModelCandidateCooldownPolicy,
    ModelCatalogCache, ModelCatalogCacheLookup, MODEL_CANDIDATE_COOLDOWN_CACHE_MAX_ENTRIES,
    MODEL_CATALOG_CACHE_MAX_ENTRIES,
};
use loongclaw::provider::contracts::{
    adapt_payload_mode_for_error, classify_payload_adaptation_axis, parse_provider_api_error,
    provider_runtime_contract, should_disable_tool_schema_for_error,
    should_try_next_model_on_error, CompletionPayloadMode, PayloadAdaptationAxis,
    ProviderApiError, ProviderConfig, ProviderFeatureFamily, ProviderKind,
    ProviderProfileHealthMode, ProviderProfileHealthModeConfig, ProviderReasoningExtraBodyMode,
    ProviderToolSchemaMode, ProviderTransportMode, ReasoningEffort, ReasoningField,
    TemperatureField, TokenLimitField,
};
use loongclaw::provider::failover::{
    build_model_request_error, ProviderFailoverMetrics, ProviderFailoverReason,
    ProviderFailoverSnapshot, ProviderFailoverStage,
};
use loongclaw::provider::models::extract_model_ids;
use loongclaw::provider::request_executor::{
    is_success_status, provider_exchange_entry, render_status_failure_message, ModelRequest,
    ModelRequestAction, ModelRequestRuntime,
};
use loongclaw::provider::request_planner::{
    classify_model_status_failure_reason, next_backoff_ms, plan_model_request_status,
    plan_model_status_outcome, plan_transport_error_retry, ModelRequestStatusPlan,
    ModelStatusOutcome, ProviderRequestPolicy,
};
use serde_json::Value;

fn json(text: &str) -> Json {
    parse_json(text).expect("json")
}

fn parsed(text: &str) -> Value {
    serde_json::from_str(text).expect("json")
}

fn of_kind(kind: ProviderKind) -> ProviderConfig {
    ProviderConfig {
        kind,
        ..ProviderConfig::default()
    }
}

fn texts(list: &[&str]) -> Vec<String> {
    list.iter().map(|s| s.to_string()).collect()
}

fn with_message(message: &str) -> ProviderApiError {
    ProviderApiError {
        message: Some(message.to_owned()),
        ..ProviderApiError::default()
    }
}

#[test]
fn model_catalog_selection_prefers_user_preferences() {
    let config = ProviderConfig {
        model: "auto".to_owned(),
        preferred_models: vec!["model-latest".to_owned(), "model-fallback".to_owned()],
        ..ProviderConfig::default()
    };
    let ranked = rank_model_candidates(
        &config,
        &vec!["model-fallback".to_owned(), "model-latest".to_owned()],
    );
    let selected = ranked.first().expect("model selected");
    assert_eq!(selected, "model-latest");
}

#[test]
fn ranking_model_candidates_keeps_preferences_then_catalog() {
    let config = ProviderConfig {
        model: "auto".to_owned(),
        preferred_models: texts(&["model-z", "MODEL-A", "model-z"]),
        ..ProviderConfig::default()
    };
    let ranked = rank_model_candidates(&config, &texts(&["model-a", "model-b", "model-z"]));
    assert_eq!(ranked, vec!["model-z", "model-a", "model-b"]);
}

#[test]
fn ranking_leaves_out_what_the_catalog_lacks() {
    let config = ProviderConfig {
        preferred_models: texts(&["other"]),
        ..ProviderConfig::default()
    };
    assert_eq!(
        rank_model_candidates(&config, &texts(&["b", "a", "b"])),
        vec!["b", "a"]
    );
    assert!(rank_model_candidates(&config, &Vec::new()).is_empty());
}

#[test]
fn tool_schema_fallback_detects_unsupported_error_shapes() {
    let runtime_contract = provider_runtime_contract(&ProviderConfig::default());
    let unsupported_tools = json(
        r#"{"error": {
            "code": "unsupported_parameter",
            "param": "tools",
            "message": "Unsupported parameter: tools"
        }}"#,
    );
    let unsupported_tool_choice =
        json(r#"{"error": {"message": "Function calling is not supported for this model."}}"#);
    assert!(should_disable_tool_schema_for_error(
        &parse_provider_api_error(&unsupported_tools),
        &runtime_contract,
    ));
    assert!(should_disable_tool_schema_for_error(
        &parse_provider_api_error(&unsupported_tool_choice),
        &runtime_contract,
    ));
}

#[test]
fn completion_body_uses_provider_token_field_default() {
    let openai = ProviderConfig {
        kind: ProviderKind::Openai,
        max_tokens: Some(512),
        ..ProviderConfig::default()
    };
    let openai_mode = CompletionPayloadMode::default_for(&openai);
    assert_eq!(
        openai_mode.token_field,
        TokenLimitField::MaxCompletionTokens
    );

    let openrouter = ProviderConfig {
        kind: ProviderKind::Openrouter,
        max_tokens: Some(512),
        ..ProviderConfig::default()
    };
    let openrouter_mode = CompletionPayloadMode::default_for(&openrouter);
    assert_eq!(openrouter_mode.token_field, TokenLimitField::MaxTokens);
}

#[test]
fn provider_runtime_contract_defaults_are_stable() {
    let openai_contract = provider_runtime_contract(&of_kind(ProviderKind::Openai));
    assert_eq!(
        openai_contract.feature_family,
        ProviderFeatureFamily::OpenAiCompatible
    );
    assert_eq!(
        openai_contract.default_token_field,
        TokenLimitField::MaxCompletionTokens
    );
    assert_eq!(
        openai_contract.default_reasoning_field,
        ReasoningField::ReasoningEffort
    );
    assert_eq!(
        openai_contract.default_temperature_field,
        TemperatureField::Include
    );
    assert_eq!(
        openai_contract.payload_adaptation.token_field_progression,
        [
            TokenLimitField::MaxCompletionTokens,
            TokenLimitField::MaxTokens,
            TokenLimitField::Omit,
            TokenLimitField::Omit,
        ]
    );
    assert_eq!(
        openai_contract
            .payload_adaptation
            .reasoning_field_progression,
        [
            ReasoningField::ReasoningEffort,
            ReasoningField::ReasoningObject,
            ReasoningField::Omit,
        ]
    );
    assert_eq!(
        openai_contract.payload_adaptation.token_error_parameters,
        ["max_output_tokens", "max_tokens", "max_completion_tokens"]
    );
    assert_eq!(
        openai_contract
            .payload_adaptation
            .unsupported_parameter_message_fragments,
        ["unknown parameter", "unsupported parameter", "not supported"]
    );
    assert_eq!(
        openai_contract
            .payload_adaptation
            .reasoning_error_parameters,
        ["reasoning_effort", "reasoning"]
    );
    assert_eq!(
        openai_contract
            .payload_adaptation
            .temperature_error_parameters,
        ["temperature"]
    );
    assert_eq!(
        openai_contract
            .payload_adaptation
            .temperature_default_only_fragments,
        ["only the default"]
    );
    assert_eq!(
        openai_contract.transport_mode,
        ProviderTransportMode::OpenAiChatCompletions
    );
    assert_eq!(
        openai_contract.profile_health_mode,
        ProviderProfileHealthMode::EnforceUnusableWindows
    );
    assert!(!openai_contract.validation.forbid_kimi_coding_endpoint);
    assert!(
        !openai_contract
            .validation
            .require_kimi_cli_user_agent_prefix
    );
    assert_eq!(
        openai_contract
            .error_classification
            .tool_schema_error_parameters,
        ["tools", "tool_choice"]
    );
    assert_eq!(
        openai_contract.error_classification.model_not_found_codes,
        [
            "model_not_found",
            "unsupported_model",
            "invalid_model",
            "not_found_error",
        ]
    );
    assert!(openai_contract
        .error_classification
        .model_mismatch_message_fragments
        .contains(&"/v1/responses"));
    assert_eq!(
        openai_contract.capability.tool_schema_mode,
        ProviderToolSchemaMode::EnabledWithDowngradeOnUnsupported
    );
    assert_eq!(
        openai_contract.capability.reasoning_extra_body_mode,
        ProviderReasoningExtraBodyMode::Omit
    );
    assert!(openai_contract.capability.turn_tool_schema_enabled());
    assert!(openai_contract
        .capability
        .tool_schema_downgrade_on_unsupported());
    assert!(!openai_contract.capability.include_reasoning_extra_body());

    let anthropic_contract = provider_runtime_contract(&of_kind(ProviderKind::Anthropic));
    assert_eq!(
        anthropic_contract.feature_family,
        ProviderFeatureFamily::Anthropic
    );
    assert_eq!(
        anthropic_contract.transport_mode,
        ProviderTransportMode::AnthropicMessages
    );
    assert_eq!(
        anthropic_contract.default_reasoning_field,
        ReasoningField::Omit
    );

    let bedrock_contract = provider_runtime_contract(&of_kind(ProviderKind::Bedrock));
    assert_eq!(
        bedrock_contract.feature_family,
        ProviderFeatureFamily::Bedrock
    );
    assert_eq!(
        bedrock_contract.transport_mode,
        ProviderTransportMode::BedrockConverse
    );
    assert_eq!(
        bedrock_contract.default_reasoning_field,
        ReasoningField::Omit
    );

    let kimi_coding_contract = provider_runtime_contract(&of_kind(ProviderKind::KimiCoding));
    assert_eq!(
        kimi_coding_contract.feature_family,
        ProviderFeatureFamily::OpenAiCompatible
    );
    assert_eq!(
        kimi_coding_contract.default_token_field,
        TokenLimitField::MaxTokens
    );
    assert_eq!(
        kimi_coding_contract
            .payload_adaptation
            .token_field_progression,
        [
            TokenLimitField::MaxTokens,
            TokenLimitField::MaxCompletionTokens,
            TokenLimitField::Omit,
            TokenLimitField::Omit,
        ]
    );
    assert_eq!(
        kimi_coding_contract.transport_mode,
        ProviderTransportMode::KimiApi
    );
    assert!(!kimi_coding_contract.validation.forbid_kimi_coding_endpoint);
    assert!(
        kimi_coding_contract
            .validation
            .require_kimi_cli_user_agent_prefix
    );
    assert_eq!(
        kimi_coding_contract.profile_health_mode,
        ProviderProfileHealthMode::EnforceUnusableWindows
    );
    assert_eq!(
        kimi_coding_contract.capability.reasoning_extra_body_mode,
        ProviderReasoningExtraBodyMode::KimiThinking
    );
    assert!(kimi_coding_contract
        .capability
        .include_reasoning_extra_body());

    let kimi_contract = provider_runtime_contract(&of_kind(ProviderKind::Kimi));
    assert_eq!(
        kimi_contract.profile_health_mode,
        ProviderProfileHealthMode::EnforceUnusableWindows
    );
    assert!(kimi_contract.validation.forbid_kimi_coding_endpoint);
    assert!(!kimi_contract.validation.require_kimi_cli_user_agent_prefix);
    assert_eq!(
        kimi_contract.capability.reasoning_extra_body_mode,
        ProviderReasoningExtraBodyMode::Omit
    );
    assert!(!kimi_contract.capability.include_reasoning_extra_body());

    let volcengine_contract = provider_runtime_contract(&of_kind(ProviderKind::Volcengine));
    assert_eq!(
        volcengine_contract.feature_family,
        ProviderFeatureFamily::VolcengineCompatible
    );

    let openrouter_contract = provider_runtime_contract(&of_kind(ProviderKind::Openrouter));
    assert_eq!(
        openrouter_contract.profile_health_mode,
        ProviderProfileHealthMode::ObserveOnly
    );

    let openrouter_enforced_contract = provider_runtime_contract(&ProviderConfig {
        kind: ProviderKind::Openrouter,
        profile_health_mode: ProviderProfileHealthModeConfig::Enforce,
        ..ProviderConfig::default()
    });
    assert_eq!(
        openrouter_enforced_contract.profile_health_mode,
        ProviderProfileHealthMode::EnforceUnusableWindows
    );

    let openai_observe_only_contract = provider_runtime_contract(&ProviderConfig {
        kind: ProviderKind::Openai,
        profile_health_mode: ProviderProfileHealthModeConfig::ObserveOnly,
        ..ProviderConfig::default()
    });
    assert_eq!(
        openai_observe_only_contract.profile_health_mode,
        ProviderProfileHealthMode::ObserveOnly
    );
}

fn openrouter_with_limits() -> ProviderConfig {
    ProviderConfig {
        kind: ProviderKind::Openrouter,
        max_tokens: Some(1024),
        reasoning_effort: Some(ReasoningEffort::Medium),
        ..ProviderConfig::default()
    }
}

#[test]
fn payload_mode_adapts_for_parameter_incompatibility() {
    let provider = openrouter_with_limits();
    let runtime_contract = provider_runtime_contract(&provider);
    let max_tokens_error = json(
        r#"{"error": {
            "code": "unsupported_parameter",
            "param": "max_tokens",
            "message": "Unsupported parameter: 'max_tokens'. Use 'max_completion_tokens' instead."
        }}"#,
    );
    let reasoning_effort_error = json(
        r#"{"error": {
            "code": "unknown_parameter",
            "param": "reasoning_effort",
            "message": "Unknown parameter: 'reasoning_effort'."
        }}"#,
    );
    let mut mode = CompletionPayloadMode {
        token_field: TokenLimitField::MaxTokens,
        reasoning_field: ReasoningField::ReasoningEffort,
        temperature_field: TemperatureField::Include,
    };
    mode = adapt_payload_mode_for_error(
        mode,
        &provider,
        &runtime_contract,
        &parse_provider_api_error(&max_tokens_error),
    )
    .expect("max_tokens adapt");
    assert_eq!(mode.token_field, TokenLimitField::MaxCompletionTokens);
    mode = adapt_payload_mode_for_error(
        mode,
        &provider,
        &runtime_contract,
        &parse_provider_api_error(&reasoning_effort_error),
    )
    .expect("reasoning adapt");
    assert_eq!(mode.reasoning_field, ReasoningField::ReasoningObject);
}

#[test]
fn payload_mode_can_drop_temperature_when_model_rejects_it() {
    let provider = ProviderConfig::default();
    let runtime_contract = provider_runtime_contract(&provider);
    let unsupported_temperature = json(
        r#"{"error": {
            "code": "unsupported_value",
            "param": "temperature",
            "message": "Only the default (1) value is supported."
        }}"#,
    );
    let mode = CompletionPayloadMode::default_for(&provider);
    let adapted = adapt_payload_mode_for_error(
        mode,
        &provider,
        &runtime_contract,
        &parse_provider_api_error(&unsupported_temperature),
    )
    .expect("temperature adaptation");
    assert_eq!(adapted.temperature_field, TemperatureField::Omit);
}

#[test]
fn payload_mode_adaptation_progression_is_monotonic_without_cycles() {
    let provider = openrouter_with_limits();
    let runtime_contract = provider_runtime_contract(&provider);
    let unsupported = |param: &str| {
        parse_provider_api_error(&json(&format!(
            "{{\"error\":{{\"param\":\"{param}\",\"message\":\"Unsupported parameter: '{param}'.\"}}}}"
        )))
    };
    let unsupported_max_tokens = unsupported("max_tokens");
    let unsupported_max_completion_tokens = unsupported("max_completion_tokens");
    let unsupported_reasoning_effort = unsupported("reasoning_effort");
    let unsupported_reasoning_object = unsupported("reasoning");

    let mut mode = CompletionPayloadMode::default_for_contract(&runtime_contract);
    assert_eq!(mode.token_field, TokenLimitField::MaxTokens);
    assert_eq!(mode.reasoning_field, ReasoningField::ReasoningEffort);

    mode = adapt_payload_mode_for_error(
        mode,
        &provider,
        &runtime_contract,
        &unsupported_max_tokens,
    )
    .expect("token fallback to max_completion_tokens");
    assert_eq!(mode.token_field, TokenLimitField::MaxCompletionTokens);
    mode = adapt_payload_mode_for_error(
        mode,
        &provider,
        &runtime_contract,
        &unsupported_max_completion_tokens,
    )
    .expect("token fallback to omit");
    assert_eq!(mode.token_field, TokenLimitField::Omit);
    assert!(adapt_payload_mode_for_error(
        mode,
        &provider,
        &runtime_contract,
        &unsupported_max_tokens
    )
    .is_none());

    mode = adapt_payload_mode_for_error(
        mode,
        &provider,
        &runtime_contract,
        &unsupported_reasoning_effort,
    )
    .expect("reasoning fallback to object");
    assert_eq!(mode.reasoning_field, ReasoningField::ReasoningObject);
    mode = adapt_payload_mode_for_error(
        mode,
        &provider,
        &runtime_contract,
        &unsupported_reasoning_object,
    )
    .expect("reasoning fallback to omit");
    assert_eq!(mode.reasoning_field, ReasoningField::Omit);
    assert!(adapt_payload_mode_for_error(
        mode,
        &provider,
        &runtime_contract,
        &unsupported_reasoning_effort,
    )
    .is_none());
}

#[test]
fn model_error_parser_detects_endpoint_mismatch() {
    let runtime_contract = provider_runtime_contract(&ProviderConfig::default());
    let body = json(
        r#"{"error": {
            "message": "The model `gpt-5-pro` only supports /v1/responses and not this endpoint."
        }}"#,
    );
    let parsed = parse_provider_api_error(&body);
    assert!(should_try_next_model_on_error(&parsed, &runtime_contract));
}

#[test]
fn model_request_error_includes_parseable_failover_snapshot_payload() {
    let error = build_model_request_error(
        "provider returned status 429 for model `model-z`",
        false,
        ProviderFailoverSnapshot {
            reason: ProviderFailoverReason::RateLimited,
            stage: ProviderFailoverStage::StatusFailure,
            model: "model-z".to_owned(),
            attempt: 2,
            max_attempts: 3,
            status_code: Some(429),
        },
        None,
    );
    assert_eq!(error.reason, ProviderFailoverReason::RateLimited);
    assert_eq!(error.snapshot.stage, ProviderFailoverStage::StatusFailure);
    let (_, payload) = error
        .message
        .split_once("provider_failover=")
        .expect("message should embed structured failover payload");
    let parsed = parsed(payload);
    assert_eq!(parsed["reason"], "rate_limited");
    assert_eq!(parsed["stage"], "status_failure");
    assert_eq!(parsed["model"], "model-z");
    assert_eq!(parsed["attempt"], 2);
    assert_eq!(parsed["max_attempts"], 3);
    assert_eq!(parsed["status_code"], 429);
}

#[test]
fn model_request_error_omits_status_code_for_transport_failures() {
    let error = build_model_request_error(
        "provider request failed for model `model-a`",
        false,
        ProviderFailoverSnapshot {
            reason: ProviderFailoverReason::TransportFailure,
            stage: ProviderFailoverStage::TransportFailure,
            model: "model-a".to_owned(),
            attempt: 1,
            max_attempts: 3,
            status_code: None,
        },
        None,
    );
    let (_, payload) = error
        .message
        .split_once("provider_failover=")
        .expect("message should embed structured failover payload");
    let parsed = parsed(payload);
    assert_eq!(parsed["reason"], "transport_failure");
    assert_eq!(parsed["stage"], "transport_failure");
    assert!(parsed.get("status_code").is_none());
}

#[test]
fn provider_failover_metrics_record_even_without_kernel_context() {
    let mut metrics = ProviderFailoverMetrics::new();
    let snapshot = ProviderFailoverSnapshot {
        reason: ProviderFailoverReason::TransportFailure,
        stage: ProviderFailoverStage::TransportFailure,
        model: "model-a".to_owned(),
        attempt: 1,
        max_attempts: 3,
        status_code: None,
    };
    let before = (
        metrics.total_events,
        metrics.exhausted_events,
        metrics.by_reason.count("transport_failure"),
        metrics.by_stage.count("transport_failure"),
        metrics.by_provider.count("openai"),
    );
    metrics.record("openai", &snapshot, false, true);
    assert!(metrics.total_events > before.0);
    assert!(metrics.exhausted_events > before.1);
    assert!(metrics.by_reason.count("transport_failure") > before.2);
    assert!(metrics.by_stage.count("transport_failure") > before.3);
    assert!(metrics.by_provider.count("openai") > before.4);
}

#[test]
fn provider_failover_metrics_track_continue_path() {
    let mut metrics = ProviderFailoverMetrics::new();
    let snapshot = ProviderFailoverSnapshot {
        reason: ProviderFailoverReason::RateLimited,
        stage: ProviderFailoverStage::StatusFailure,
        model: "model-z".to_owned(),
        attempt: 2,
        max_attempts: 4,
        status_code: Some(429),
    };
    let before = (
        metrics.total_events,
        metrics.continued_events,
        metrics.by_reason.count("rate_limited"),
        metrics.by_stage.count("status_failure"),
        metrics.by_provider.count("kimi_coding"),
    );
    metrics.record("kimi_coding", &snapshot, true, false);
    assert!(metrics.total_events > before.0);
    assert!(metrics.continued_events > before.1);
    assert!(metrics.by_reason.count("rate_limited") > before.2);
    assert!(metrics.by_stage.count("status_failure") > before.3);
    assert!(metrics.by_provider.count("kimi_coding") > before.4);
    metrics.record("kimi_coding", &snapshot, true, false);
    assert_eq!(metrics.by_provider.count("kimi_coding"), 2);
    assert_eq!(metrics.by_provider.count("openai"), 0);
}

#[test]
fn model_request_status_plan_prefers_retry_when_retryable_status_has_budget() {
    let runtime_contract = provider_runtime_contract(&ProviderConfig::default());
    let plan = plan_model_request_status(
        429,
        Some(2),
        &ProviderApiError::default(),
        1,
        &ProviderRequestPolicy::default(),
        100,
        true,
        &runtime_contract,
    );
    assert_eq!(
        plan,
        ModelRequestStatusPlan::Retry {
            delay_ms: 2_000,
            next_backoff_ms: 3_000
        }
    );
}

#[test]
fn model_request_status_plan_switches_model_when_auto_and_model_mismatch() {
    let runtime_contract = provider_runtime_contract(&ProviderConfig::default());
    let plan = plan_model_request_status(
        400,
        None,
        &with_message("model does not exist"),
        1,
        &ProviderRequestPolicy::default(),
        100,
        true,
        &runtime_contract,
    );
    assert_eq!(plan, ModelRequestStatusPlan::TryNextModel);
}

#[test]
fn model_request_status_plan_does_not_switch_model_on_server_status() {
    let request_policy = ProviderRequestPolicy::default();
    let runtime_contract = provider_runtime_contract(&ProviderConfig::default());
    let plan = plan_model_request_status(
        503,
        None,
        &with_message("model does not exist"),
        request_policy.max_attempts,
        &request_policy,
        100,
        true,
        &runtime_contract,
    );
    assert_eq!(plan, ModelRequestStatusPlan::Fail);
}

#[test]
fn model_request_status_plan_fails_when_auto_mode_disabled() {
    let runtime_contract = provider_runtime_contract(&ProviderConfig::default());
    let plan = plan_model_request_status(
        400,
        None,
        &with_message("model does not exist"),
        1,
        &ProviderRequestPolicy::default(),
        100,
        false,
        &runtime_contract,
    );
    assert_eq!(plan, ModelRequestStatusPlan::Fail);
}

#[test]
fn model_request_status_plan_fails_when_retry_budget_exhausted() {
    let request_policy = ProviderRequestPolicy::default();
    let runtime_contract = provider_runtime_contract(&ProviderConfig::default());
    let plan = plan_model_request_status(
        503,
        Some(5),
        &ProviderApiError::default(),
        request_policy.max_attempts,
        &request_policy,
        100,
        true,
        &runtime_contract,
    );
    assert_eq!(plan, ModelRequestStatusPlan::Fail);
}

#[test]
fn status_failure_reason_classifies_rate_limit_and_overload() {
    let runtime_contract = provider_runtime_contract(&ProviderConfig::default());
    assert_eq!(
        classify_model_status_failure_reason(429, &ProviderApiError::default(), &runtime_contract),
        ProviderFailoverReason::RateLimited
    );
    assert_eq!(
        classify_model_status_failure_reason(503, &ProviderApiError::default(), &runtime_contract),
        ProviderFailoverReason::ProviderOverloaded
    );
}

#[test]
fn status_failure_reason_classifies_auth_rejection() {
    let runtime_contract = provider_runtime_contract(&ProviderConfig::default());
    assert_eq!(
        classify_model_status_failure_reason(401, &ProviderApiError::default(), &runtime_contract),
        ProviderFailoverReason::AuthRejected
    );
    assert_eq!(
        classify_model_status_failure_reason(403, &ProviderApiError::default(), &runtime_contract),
        ProviderFailoverReason::AuthRejected
    );
}

#[test]
fn status_failure_reason_classifies_payload_incompatibility() {
    let runtime_contract = provider_runtime_contract(&ProviderConfig::default());
    let api_error = ProviderApiError {
        code: Some("unsupported_parameter".to_owned()),
        param: Some("max_tokens".to_owned()),
        message: Some("unsupported parameter".to_owned()),
    };
    assert_eq!(
        classify_model_status_failure_reason(400, &api_error, &runtime_contract),
        ProviderFailoverReason::PayloadIncompatible
    );
}

#[test]
fn status_failure_reason_classifies_tool_schema_incompatibility() {
    let runtime_contract = provider_runtime_contract(&ProviderConfig::default());
    let api_error = parse_provider_api_error(&json(
        r#"{"error": {
            "code": "unsupported_parameter",
            "param": "tools",
            "message": "Unsupported parameter: 'tools'"
        }}"#,
    ));
    assert_eq!(
        classify_model_status_failure_reason(400, &api_error, &runtime_contract),
        ProviderFailoverReason::PayloadIncompatible
    );
    assert_eq!(
        classify_model_status_failure_reason(400, &ProviderApiError::default(), &runtime_contract),
        ProviderFailoverReason::RequestRejected
    );
}

#[test]
fn payload_adaptation_axis_honors_contract_temperature_fragments() {
    let runtime_contract = provider_runtime_contract(&ProviderConfig::default());
    let temperature_default_only = parse_provider_api_error(&json(
        r#"{"error": {
            "param": "temperature",
            "message": "Only the default value is supported."
        }}"#,
    ));
    assert_eq!(
        classify_payload_adaptation_axis(
            &temperature_default_only,
            &runtime_contract.payload_adaptation,
        ),
        Some(PayloadAdaptationAxis::TemperatureField)
    );
}

#[test]
fn status_failure_reason_keeps_server_errors_from_model_mismatch_switches() {
    let runtime_contract = provider_runtime_contract(&ProviderConfig::default());
    assert_eq!(
        classify_model_status_failure_reason(
            503,
            &with_message("model does not exist"),
            &runtime_contract
        ),
        ProviderFailoverReason::ProviderOverloaded
    );
}

#[test]
fn plan_model_status_outcome_matrix_is_stable() {
    let request_policy = ProviderRequestPolicy::default();
    let runtime_contract = provider_runtime_contract(&ProviderConfig::default());
    let backoff_ms = request_policy.initial_backoff_ms;
    let not_found = || ProviderApiError {
        code: Some("model_not_found".to_owned()),
        ..ProviderApiError::default()
    };
    let cases = vec![
        (
            429,
            1,
            true,
            ProviderApiError::default(),
            ModelStatusOutcome::Retry {
                delay_ms: backoff_ms,
                next_backoff_ms: next_backoff_ms(backoff_ms, request_policy.max_backoff_ms),
            },
        ),
        (404, 1, true, not_found(), ModelStatusOutcome::TryNextModel),
        (
            404,
            1,
            false,
            not_found(),
            ModelStatusOutcome::Fail {
                reason: ProviderFailoverReason::ModelMismatch,
            },
        ),
        (
            503,
            request_policy.max_attempts,
            true,
            ProviderApiError::default(),
            ModelStatusOutcome::Fail {
                reason: ProviderFailoverReason::ProviderOverloaded,
            },
        ),
        (
            400,
            1,
            true,
            with_message("unsupported parameter: max_completion_tokens"),
            ModelStatusOutcome::Fail {
                reason: ProviderFailoverReason::PayloadIncompatible,
            },
        ),
    ];
    for (status_code, attempt, auto_model_mode, api_error, expected) in cases {
        let observed = plan_model_status_outcome(
            status_code,
            None,
            &api_error,
            attempt,
            &request_policy,
            backoff_ms,
            auto_model_mode,
            &runtime_contract,
            &runtime_contract.capability,
        );
        assert_eq!(
            observed, expected,
            "unexpected status outcome for status={status_code}, attempt={attempt}, auto_mode={auto_model_mode}"
        );
    }
}

#[test]
fn model_catalog_cache_honors_ttl_and_prunes_expired_entries() {
    let mut cache = ModelCatalogCache::default();
    let now = 1_000;
    cache.put(
        "catalog-key".to_owned(),
        vec!["model-a".to_owned()],
        now,
        500,
        0,
        MODEL_CATALOG_CACHE_MAX_ENTRIES,
    );
    assert_eq!(
        cache.lookup("catalog-key", now),
        Some(ModelCatalogCacheLookup::Fresh(vec!["model-a".to_owned()]))
    );
    assert_eq!(cache.lookup("catalog-key", now + 501), None);
    assert_eq!(cache.len(), 0);
}

#[test]
fn model_catalog_cache_serves_stale_entry_within_grace_window() {
    let mut cache = ModelCatalogCache::default();
    let now = 1_000;
    cache.put(
        "catalog-key".to_owned(),
        vec!["model-a".to_owned(), "model-b".to_owned()],
        now,
        500,
        700,
        MODEL_CATALOG_CACHE_MAX_ENTRIES,
    );
    assert_eq!(
        cache.lookup("catalog-key", now + 499),
        Some(ModelCatalogCacheLookup::Fresh(vec![
            "model-a".to_owned(),
            "model-b".to_owned()
        ]))
    );
    assert_eq!(
        cache.lookup("catalog-key", now + 501),
        Some(ModelCatalogCacheLookup::Stale(vec![
            "model-a".to_owned(),
            "model-b".to_owned()
        ]))
    );
    assert_eq!(cache.lookup("catalog-key", now + 1_201), None);
}

#[test]
fn model_catalog_cache_evicts_oldest_entry_when_capacity_exceeded() {
    let mut cache = ModelCatalogCache::default();
    let now = 1_000;
    for idx in 0..(MODEL_CATALOG_CACHE_MAX_ENTRIES + 2) {
        cache.put(
            format!("cache-key-{idx}"),
            vec![format!("model-{idx}")],
            now,
            60 * 1_000,
            30 * 1_000,
            MODEL_CATALOG_CACHE_MAX_ENTRIES,
        );
    }
    assert_eq!(cache.len(), MODEL_CATALOG_CACHE_MAX_ENTRIES);
    assert!(cache.lookup("cache-key-0", now).is_none());
    assert!(cache.lookup("cache-key-1", now).is_none());
    assert!(cache.lookup("cache-key-2", now).is_some());
}

#[test]
fn model_catalog_cache_capacity_uses_runtime_limit() {
    let mut cache = ModelCatalogCache::default();
    let now = 1_000;
    for idx in 0..4 {
        cache.put(
            format!("cache-key-{idx}"),
            vec![format!("model-{idx}")],
            now,
            60 * 1_000,
            30 * 1_000,
            2,
        );
    }
    assert_eq!(cache.len(), 2);
    assert!(cache.lookup("cache-key-0", now).is_none());
    assert!(cache.lookup("cache-key-1", now).is_none());
    assert!(cache.lookup("cache-key-2", now).is_some());
    assert!(cache.lookup("cache-key-3", now).is_some());
}

#[test]
fn model_candidate_cooldown_reorders_candidates_with_active_cooldown() {
    let mut cache = ModelCandidateCooldownCache::default();
    let policy = ModelCandidateCooldownPolicy {
        namespace: "cooldown".to_owned(),
        cooldown: 60 * 1_000,
        max_cooldown: 600 * 1_000,
        max_entries: MODEL_CANDIDATE_COOLDOWN_CACHE_MAX_ENTRIES,
    };
    register_model_candidate_cooldown(
        &mut cache,
        &policy,
        "model-a",
        ProviderFailoverReason::ModelMismatch,
        0,
    );
    let candidates = texts(&["model-a", "model-b", "model-c"]);
    let ordered = prioritize_model_candidates_by_cooldown(&candidates, &cache, Some(&policy), 1);
    assert_eq!(ordered, vec!["model-b", "model-c", "model-a"]);
    let unordered = prioritize_model_candidates_by_cooldown(&candidates, &cache, None, 1);
    assert_eq!(unordered, candidates);
}

#[test]
fn model_candidate_cooldown_ignores_non_model_replacement_failures() {
    let mut cache = ModelCandidateCooldownCache::default();
    let policy = ModelCandidateCooldownPolicy {
        namespace: "cooldown".to_owned(),
        cooldown: 60 * 1_000,
        max_cooldown: 600 * 1_000,
        max_entries: MODEL_CANDIDATE_COOLDOWN_CACHE_MAX_ENTRIES,
    };
    register_model_candidate_cooldown(
        &mut cache,
        &policy,
        "model-a",
        ProviderFailoverReason::RequestRejected,
        0,
    );
    let candidates = texts(&["model-a", "model-b"]);
    let ordered = prioritize_model_candidates_by_cooldown(&candidates, &cache, Some(&policy), 1);
    assert_eq!(ordered, vec!["model-a", "model-b"]);
}

#[test]
fn model_candidate_cooldown_backoff_is_exponential_and_capped() {
    let mut cache = ModelCandidateCooldownCache::default();
    let key = "provider-model-candidate-cooldown::test";
    let (base, max, now) = (100, 250, 1_000);
    let put = |cache: &mut ModelCandidateCooldownCache, at: u64| {
        cache.put(
            key.to_owned(),
            ProviderFailoverReason::ModelMismatch,
            at,
            base,
            max,
            MODEL_CANDIDATE_COOLDOWN_CACHE_MAX_ENTRIES,
        )
    };
    put(&mut cache, now);
    let first = cache
        .lookup_active(key, now)
        .expect("first cooldown should exist");
    assert_eq!(first.failure_count, 1);
    assert_eq!(first.expires_at - now, 100);

    let second_now = now + 1;
    put(&mut cache, second_now);
    let second = cache
        .lookup_active(key, second_now)
        .expect("second cooldown should exist");
    assert_eq!(second.failure_count, 2);
    assert_eq!(second.expires_at - second_now, 200);

    let third_now = now + 2;
    put(&mut cache, third_now);
    let third = cache
        .lookup_active(key, third_now)
        .expect("third cooldown should exist");
    assert_eq!(third.failure_count, 3);
    assert_eq!(third.expires_at - third_now, 250);
}

#[test]
fn model_candidate_cooldown_resets_after_expiry() {
    let mut cache = ModelCandidateCooldownCache::default();
    let key = "provider-model-candidate-cooldown::expiry";
    let (base, max, now) = (100, 400, 1_000);
    cache.put(
        key.to_owned(),
        ProviderFailoverReason::ModelMismatch,
        now,
        base,
        max,
        MODEL_CANDIDATE_COOLDOWN_CACHE_MAX_ENTRIES,
    );
    let after_expiry = now + 101;
    cache.put(
        key.to_owned(),
        ProviderFailoverReason::ModelMismatch,
        after_expiry,
        base,
        max,
        MODEL_CANDIDATE_COOLDOWN_CACHE_MAX_ENTRIES,
    );
    let refreshed = cache
        .lookup_active(key, after_expiry)
        .expect("refreshed cooldown should exist");
    assert_eq!(refreshed.failure_count, 1);
    assert_eq!(refreshed.expires_at - after_expiry, base);
}

fn runtime(auto_model_mode: bool) -> ModelRequestRuntime {
    let provider = openrouter_with_limits();
    let runtime_contract = provider_runtime_contract(&provider);
    ModelRequestRuntime {
        provider,
        model: "m".to_owned(),
        runtime_contract,
        capability: runtime_contract.capability,
        auto_model_mode,
        request_policy: ProviderRequestPolicy::default(),
        auth_hint: Some("set a key".to_owned()),
        region_hint: Some("or a region".to_owned()),
    }
}

fn failed(action: ModelRequestAction) -> loongclaw::provider::failover::ModelRequestError {
    match action {
        ModelRequestAction::Fail(error) => error,
        _ => panic!("the request should fail"),
    }
}

#[test]
fn a_request_adapts_waits_and_gives_up() {
    let mut request = ModelRequest::new(runtime(true));
    let first = request.begin_attempt();
    assert_eq!(first.token_field, TokenLimitField::MaxTokens);
    let unsupported = json(
        r#"{"error":{"param":"max_tokens","message":"Unsupported parameter: 'max_tokens'."}}"#,
    );
    assert!(matches!(
        request.on_answer(400, None, &unsupported, false, "x", false),
        ModelRequestAction::Send
    ));
    let second = request.begin_attempt();
    assert_eq!(second.token_field, TokenLimitField::MaxCompletionTokens);
    let busy = json("{}");
    match request.on_answer(429, None, &busy, false, "x", false) {
        ModelRequestAction::Wait { delay_ms } => assert_eq!(delay_ms, 300),
        _ => panic!("the request should wait"),
    }
    request.begin_attempt();
    assert_eq!(request.backoff_ms, 600);
    let error = failed(request.on_answer(503, None, &busy, false, "x", false));
    assert!(error.message.starts_with(
        "provider returned status 503 for model `m` on attempt 3/3: {} | provider_failover={"
    ));
    assert_eq!(error.reason, ProviderFailoverReason::ProviderOverloaded);
    assert_eq!(error.snapshot.status_code, Some(503));
    assert!(!error.try_next_model);
}

#[test]
fn answers_of_a_request() {
    let mut request = ModelRequest::new(runtime(true));
    request.begin_attempt();
    let body = json(r#"{"x":1}"#);
    assert!(matches!(
        request.on_answer(200, None, &body, true, "choices", false),
        ModelRequestAction::Succeed
    ));
    let error = failed(request.on_answer(204, None, &body, false, "choices", false));
    assert!(error.message.starts_with(
        "provider response missing choices for model `m` on attempt 1/3: {\"x\":1} | "
    ));
    assert_eq!(error.reason, ProviderFailoverReason::ResponseShapeInvalid);
    assert!(matches!(
        request.on_answer(400, None, &body, false, "choices", true),
        ModelRequestAction::Send
    ));
    let missing = json(r#"{"error":{"code":"model_not_found"}}"#);
    let error = failed(request.on_answer(404, None, &missing, false, "choices", false));
    assert!(error.try_next_model);
    assert!(error
        .message
        .starts_with("model `m` rejected by provider endpoint; trying next candidate. status 404: "));
    let error = failed(request.on_answer(401, None, &body, false, "choices", false));
    assert!(error.message.starts_with(
        "provider returned status 401 for model `m` on attempt 1/3: {\"x\":1} set a key or a region | "
    ));
    assert!(is_success_status(299) && !is_success_status(300) && !is_success_status(199));
}

#[test]
fn requests_without_an_answer() {
    let mut request = ModelRequest::new(runtime(false));
    request.begin_attempt();
    match request.on_transport_failure("refused", true, None) {
        ModelRequestAction::Wait { delay_ms } => assert_eq!(delay_ms, 300),
        _ => panic!("the request should wait"),
    }
    let error = failed(request.on_transport_failure("refused", false, Some("try a proxy")));
    assert!(error.message.starts_with(
        "provider request failed for model `m` on attempt 1/3: refused try a proxy | "
    ));
    let error = request.setup_failure("no url");
    assert!(error.message.starts_with(
        "provider request setup failed for model `m` on attempt 1/3: no url | "
    ));
    assert_eq!(error.reason, ProviderFailoverReason::TransportFailure);
    let error = request.decode_failure("no json");
    assert!(error.message.starts_with(
        "provider response decode failed for model `m` on attempt 1/3: no json | "
    ));
    assert_eq!(error.snapshot.stage, ProviderFailoverStage::ResponseDecode);
    let policy = ProviderRequestPolicy::default();
    assert_eq!(
        plan_transport_error_retry(2, &policy, true, 2_000),
        Some((2_000, 3_000))
    );
    assert_eq!(plan_transport_error_retry(3, &policy, true, 2_000), None);
    assert_eq!(next_backoff_ms(u64::MAX, u64::MAX), u64::MAX);
}

#[test]
fn hints_follow_only_where_credentials_were_rejected() {
    let body = json("{}");
    let render = |reason| {
        render_status_failure_message(Some("hint"), None, reason, 401, "m", 1, 3, &body)
    };
    assert_eq!(
        render(ProviderFailoverReason::AuthRejected),
        "provider returned status 401 for model `m` on attempt 1/3: {} hint"
    );
    assert_eq!(
        render(ProviderFailoverReason::RequestRejected),
        "provider returned status 401 for model `m` on attempt 1/3: {}"
    );
}

#[test]
fn exchanges_are_logged_whole() {
    let request = json(r#"{"model":"m"}"#);
    let entry = provider_exchange_entry(
        7,
        "m",
        "http://e",
        &request,
        None,
        Some(500),
        12,
        Some("status_500"),
    );
    assert_eq!(
        parsed(&render_json(&entry)),
        parsed(
            r#"{"ts":7,"model":"m","endpoint":"http://e","request":{"model":"m"},"response":null,"status":500,"elapsed_ms":12,"error":"status_500"}"#
        )
    );
}

#[test]
fn models_that_do_not_chat_are_left_out() {
    let ids = extract_model_ids(&json(
        r#"{"data":[
            {"id":"old","deprecated":true,"created":900},
            {"id":"gone","status":" Retired "},
            {"id":"tagged","tags":["Deprecated"]},
            {"id":"embed","supportedEndpointTypes":["embedding"]},
            {"id":"talk","supported_endpoint_types":["Chat"]},
            {"id":"mute","supports_chat":false},
            {"id":"filed","archived":true},
            {"id":"paint","output_modalities":["image"]},
            {"id":"dated","created_at":"2025-01-01"},
            {"id":" "},
            {"id":"big","created":18446744073709551615,"created_at":5}
        ]}"#,
    ));
    assert_eq!(ids, vec!["dated", "big", "talk", "old", "gone", "tagged"]);
    assert!(extract_model_ids(&json("{}")).is_empty());
    assert_eq!(
        extract_model_ids(&json(r#"{"Result":{"Items":[{"name":"a"}]}}"#)),
        vec!["a"]
    );
    assert_eq!(extract_model_ids(&json(r#"["b","a"]"#)), vec!["a", "b"]);
}
