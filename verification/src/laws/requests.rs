//! Requests to a model: when they are made again, after what time, with which fields, and why
//! they fail.
use crate::json;
use crate::json::JsonView;
use crate::laws::texts;
use crate::provider::contracts;
use crate::provider::contracts::{
    ApiErrorView, CompletionPayloadMode, ProviderCapabilityContract, ProviderKind,
    ProviderProfileHealthMode, ProviderProfileHealthModeConfig, ProviderReasoningExtraBodyMode,
    ProviderRuntimeContract, ProviderToolSchemaMode, ProviderTransportMode, ReasoningEffort,
    ReasoningField, TemperatureField, TokenLimitField,
};
use crate::provider::failover;
use crate::provider::failover::{ProviderFailoverReason, ProviderFailoverStage, SnapshotView};
use crate::provider::request_executor;
use crate::provider::request_executor::{ActionView, RequestView};
use crate::provider::request_planner;
use crate::provider::request_planner::{ModelStatusOutcome, ProviderRequestPolicy};
use crate::text;
use vstd::prelude::*;

verus! {

/// Every failure of the server, from 500 to 599, and the statuses 408 and 429 are asked again
/// as long as an attempt is left. The wait is what the server asks for in seconds, else the
/// time of waiting; the next time is twice the wait, up to the limit.
pub proof fn law_failures_that_pass_are_asked_again(
    status: u16,
    retry_after_s: Option<u64>,
    e: ApiErrorView,
    attempt: int,
    policy: ProviderRequestPolicy,
    backoff_ms: u64,
    auto_model_mode: bool,
    contract: ProviderRuntimeContract,
    capability: ProviderCapabilityContract,
)
    requires
        500 <= status <= 599 || status == 408 || status == 429,
        attempt < policy.max_attempts,
    ensures
        ({
            let outcome = request_planner::status_outcome(
                status,
                retry_after_s,
                e,
                attempt,
                policy,
                backoff_ms,
                auto_model_mode,
                contract,
                capability,
            );
            &&& outcome matches ModelStatusOutcome::Retry { delay_ms, next_backoff_ms }
            &&& retry_after_s is None ==> delay_ms == backoff_ms
            &&& retry_after_s is Some && retry_after_s->0 * 1000 <= u64::MAX ==> delay_ms
                == retry_after_s->0 * 1000
            &&& retry_after_s is Some && retry_after_s->0 * 1000 > u64::MAX ==> delay_ms == u64::MAX
            &&& next_backoff_ms <= policy.max_backoff_ms
            &&& 2 * delay_ms <= policy.max_backoff_ms ==> next_backoff_ms == 2 * delay_ms
            &&& 2 * delay_ms > policy.max_backoff_ms ==> next_backoff_ms == policy.max_backoff_ms
        }),
{
}

/// No other failure is asked again, and none without an attempt left.
pub proof fn law_other_failures_are_not_asked_again(
    status: u16,
    retry_after_s: Option<u64>,
    e: ApiErrorView,
    attempt: int,
    policy: ProviderRequestPolicy,
    backoff_ms: u64,
    auto_model_mode: bool,
    contract: ProviderRuntimeContract,
    capability: ProviderCapabilityContract,
)
    requires
        attempt >= policy.max_attempts || (status < 500 || status > 599) && status != 408 && status
            != 429,
    ensures
        !(request_planner::status_outcome(
            status,
            retry_after_s,
            e,
            attempt,
            policy,
            backoff_ms,
            auto_model_mode,
            contract,
            capability,
        ) is Retry),
{
}

/// Where a request has failed for good, the status says why: a server that failed was
/// overloaded, 429 is a limit on the rate, 401 and 403 are refused credentials. A failure of
/// the server has no other model tried.
pub proof fn law_status_says_why(
    status: u16,
    retry_after_s: Option<u64>,
    e: ApiErrorView,
    attempt: int,
    policy: ProviderRequestPolicy,
    backoff_ms: u64,
    auto_model_mode: bool,
    contract: ProviderRuntimeContract,
    capability: ProviderCapabilityContract,
)
    ensures
        ({
            let outcome = request_planner::status_outcome(
                status,
                retry_after_s,
                e,
                attempt,
                policy,
                backoff_ms,
                auto_model_mode,
                contract,
                capability,
            );
            &&& 500 <= status <= 599 && attempt >= policy.max_attempts ==> outcome
                == (ModelStatusOutcome::Fail { reason: ProviderFailoverReason::ProviderOverloaded })
            &&& 500 <= status <= 599 ==> !(outcome is TryNextModel)
            &&& outcome matches ModelStatusOutcome::Fail { reason } ==> {
                &&& reason == ProviderFailoverReason::RateLimited <==> status == 429
                &&& reason == ProviderFailoverReason::AuthRejected <==> status == 401 || status
                    == 403
                &&& reason == ProviderFailoverReason::ProviderOverloaded <==> 500 <= status <= 599
                &&& reason != ProviderFailoverReason::TransportFailure
                &&& reason != ProviderFailoverReason::ResponseDecodeFailure
                &&& reason != ProviderFailoverReason::ResponseShapeInvalid
            }
        }),
{
}

/// Whether a text holds another.
pub open spec fn holds(s: Seq<char>, part: Seq<char>) -> bool {
    exists|i: int| #[trigger] text::matches_at(s, part, i)
}

proof fn lemma_holds(s: Seq<char>, part: Seq<char>)
    ensures
        holds(s, part) <==> text::find_from(s, part, 0) is Some,
{
    text::lemma_find_from_bounds(s, part, 0);
    if text::find_from(s, part, 0) is Some {
        assert(text::matches_at(s, part, text::find_from(s, part, 0)->0));
    }
}

/// Whether an error has one of the codes for a model that is not there.
pub open spec fn has_model_code(e: ApiErrorView) -> bool {
    e.code matches Some(code) && {
        let c = text::lower(code);
        c == "model_not_found"@ || c == "unsupported_model"@ || c == "invalid_model"@ || c
            == "not_found_error"@
    }
}

/// Whether the message of an error says that a model is not there, or not at this address.
pub open spec fn has_model_message(e: ApiErrorView) -> bool {
    e.message matches Some(m) && (holds(text::lower(m), "does not exist"@) || holds(
        text::lower(m),
        "/v1/responses"@,
    ))
}

/// Whether the message of an error says that something is not supported.
pub open spec fn says_unsupported(e: ApiErrorView) -> bool {
    e.message matches Some(m) && (holds(text::lower(m), "unknown parameter"@) || holds(
        text::lower(m),
        "unsupported parameter"@,
    ) || holds(text::lower(m), "not supported"@))
}

proof fn lemma_any_in_two(list: Seq<&'static str>, s: Seq<char>)
    requires
        list.len() == 2,
    ensures
        contracts::any_in(list, s) <==> holds(s, list[0]@) || holds(s, list[1]@),
{
    lemma_holds(s, list[0]@);
    lemma_holds(s, list[1]@);
}

proof fn lemma_any_in_three(list: Seq<&'static str>, s: Seq<char>)
    requires
        list.len() == 3,
    ensures
        contracts::any_in(list, s) <==> holds(s, list[0]@) || holds(s, list[1]@) || holds(
            s,
            list[2]@,
        ),
{
    lemma_holds(s, list[0]@);
    lemma_holds(s, list[1]@);
    lemma_holds(s, list[2]@);
}

proof fn lemma_model_refused(e: ApiErrorView, kind: ProviderKind, config: ProviderProfileHealthModeConfig)
    ensures
        contracts::refuses_model(e, contracts::contract_of(kind, config).error_classification)
            <==> has_model_code(e) || has_model_message(e),
{
    let c = contracts::contract_of(kind, config).error_classification;
    if let Some(m) = e.message {
        lemma_any_in_two(c.model_mismatch_message_fragments@, text::lower(m));
    }
    if let Some(code) = e.code {
        let l = c.model_not_found_codes@;
        let low = text::lower(code);
        assert(l[0]@ == "model_not_found"@ && l[1]@ == "unsupported_model"@ && l[2]@
            == "invalid_model"@ && l[3]@ == "not_found_error"@);
    }
}

proof fn lemma_unsupported(e: ApiErrorView, kind: ProviderKind, config: ProviderProfileHealthModeConfig)
    ensures
        contracts::says(
            e,
            contracts::contract_of(
                kind,
                config,
            ).payload_adaptation.unsupported_parameter_message_fragments@,
        ) <==> says_unsupported(e),
        contracts::says(
            e,
            contracts::contract_of(
                kind,
                config,
            ).error_classification.unsupported_parameter_message_fragments@,
        ) <==> says_unsupported(e),
{
    let c = contracts::contract_of(kind, config);
    if let Some(m) = e.message {
        lemma_any_in_three(
            c.payload_adaptation.unsupported_parameter_message_fragments@,
            text::lower(m),
        );
        lemma_any_in_three(
            c.error_classification.unsupported_parameter_message_fragments@,
            text::lower(m),
        );
    }
}

/// Another model is tried exactly where any may be taken, the server did not fail, nothing is
/// asked again, and the provider says that it does not have this one: by its code, or by its
/// message, whatever the case of the letters.
pub proof fn law_another_model_is_tried_where_this_is_missing(
    status: u16,
    retry_after_s: Option<u64>,
    e: ApiErrorView,
    attempt: int,
    policy: ProviderRequestPolicy,
    backoff_ms: u64,
    auto_model_mode: bool,
    kind: ProviderKind,
    config: ProviderProfileHealthModeConfig,
    capability: ProviderCapabilityContract,
)
    ensures
        request_planner::status_outcome(
            status,
            retry_after_s,
            e,
            attempt,
            policy,
            backoff_ms,
            auto_model_mode,
            contracts::contract_of(kind, config),
            capability,
        ) is TryNextModel <==> {
            &&& auto_model_mode
            &&& status < 500 || status > 599
            &&& attempt >= policy.max_attempts || status != 408 && status != 429
            &&& has_model_code(e) || has_model_message(e)
        },
{
    lemma_model_refused(e, kind, config);
}

/// A refusal that names no model, no credentials and nothing unsupported is a plain refusal;
/// one of a model by code or message that has no other model tried is a mismatch.
pub proof fn law_refusals_are_told_apart(
    status: u16,
    e: ApiErrorView,
    kind: ProviderKind,
    config: ProviderProfileHealthModeConfig,
    capability: ProviderCapabilityContract,
)
    requires
        status != 429 && status != 401 && status != 403 && (status < 500 || status > 599),
        !says_unsupported(e),
        !(e.message matches Some(m) && holds(text::lower(m), "only the default"@)),
    ensures
        request_planner::status_reason(
            status,
            e,
            contracts::contract_of(kind, config),
            capability,
        ) == (if has_model_code(e) || has_model_message(e) {
            ProviderFailoverReason::ModelMismatch
        } else {
            ProviderFailoverReason::RequestRejected
        }),
{
    lemma_model_refused(e, kind, config);
    lemma_unsupported(e, kind, config);
    lemma_only_default(e, kind, config);
}

proof fn lemma_only_default(e: ApiErrorView, kind: ProviderKind, config: ProviderProfileHealthModeConfig)
    ensures
        contracts::says(
            e,
            contracts::contract_of(
                kind,
                config,
            ).payload_adaptation.temperature_default_only_fragments@,
        ) <==> (e.message matches Some(m) && holds(text::lower(m), "only the default"@)),
{
    if let Some(m) = e.message {
        let l = contracts::contract_of(
            kind,
            config,
        ).payload_adaptation.temperature_default_only_fragments@;
        lemma_holds(text::lower(m), "only the default"@);
        assert(l[0]@ == "only the default"@);
    }
}

/// What stands next for a token field that a provider refused: the other field, then none. A
/// request to OpenAI starts with the limit on completions, any other with the plain limit.
pub open spec fn next_token(kind: ProviderKind, field: TokenLimitField) -> Option<TokenLimitField> {
    let second = if kind == ProviderKind::Openai {
        TokenLimitField::MaxTokens
    } else {
        TokenLimitField::MaxCompletionTokens
    };
    if field == TokenLimitField::Omit {
        None
    } else if field == second {
        Some(TokenLimitField::Omit)
    } else {
        Some(second)
    }
}

/// What stands next for a reasoning field that a provider refused.
pub open spec fn next_reasoning(field: ReasoningField) -> Option<ReasoningField> {
    match field {
        ReasoningField::ReasoningEffort => Some(ReasoningField::ReasoningObject),
        ReasoningField::ReasoningObject => Some(ReasoningField::Omit),
        ReasoningField::Omit => None,
    }
}

proof fn lemma_next_fields(kind: ProviderKind, config: ProviderProfileHealthModeConfig, t: TokenLimitField, r: ReasoningField)
    ensures
        contracts::token_after(
            contracts::contract_of(kind, config).payload_adaptation.token_field_progression@,
            t,
        ) == next_token(kind, t),
        contracts::reasoning_after(
            contracts::contract_of(kind, config).payload_adaptation.reasoning_field_progression@,
            r,
        ) == next_reasoning(r),
{
    let c = contracts::contract_of(kind, config);
    let p = c.payload_adaptation.token_field_progression@;
    let q = c.payload_adaptation.reasoning_field_progression@;
    reveal_with_fuel(contracts::token_after, 5);
    reveal_with_fuel(contracts::reasoning_after, 4);
    assert(p.skip(1)[0] == p[1] && p.skip(1)[1] == p[2]);
    assert(p.skip(1).skip(1) =~= p.skip(2));
    assert(p.skip(2)[0] == p[2] && p.skip(2)[1] == p[3]);
    assert(q.skip(1)[0] == q[1] && q.skip(1)[1] == q[2]);
    assert(q.skip(1).skip(1) =~= q.skip(2));
    assert(q.skip(2)[0] == q[2]);
}

/// The parameter that an error names decides which field is changed, and no other field is:
/// a token parameter the token field, a reasoning parameter the reasoning field, the
/// temperature the temperature. Fields that are not sent, or that cannot be changed any more,
/// are left alone, and so is everything where the error does not say that a parameter is not
/// supported.
pub proof fn law_the_named_field_is_changed(
    mode: CompletionPayloadMode,
    max_tokens: Option<u32>,
    effort: Option<ReasoningEffort>,
    kind: ProviderKind,
    config: ProviderProfileHealthModeConfig,
    e: ApiErrorView,
    param: Seq<char>,
)
    requires
        e.param == Some(param),
    ensures
        ({
            let p = text::lower(param);
            let next = contracts::adapted(
                mode,
                max_tokens,
                effort,
                contracts::contract_of(kind, config),
                e,
            );
            if says_unsupported(e) && (p == "max_output_tokens"@ || p == "max_tokens"@ || p
                == "max_completion_tokens"@) {
                next == (match next_token(kind, mode.token_field) {
                    Some(token_field) if max_tokens is Some => Some(
                        CompletionPayloadMode { token_field, ..mode },
                    ),
                    _ => None,
                })
            } else if says_unsupported(e) && (p == "reasoning_effort"@ || p == "reasoning"@) {
                next == (match next_reasoning(mode.reasoning_field) {
                    Some(reasoning_field) if effort is Some => Some(
                        CompletionPayloadMode { reasoning_field, ..mode },
                    ),
                    _ => None,
                })
            } else if p == "temperature"@ && mode.temperature_field == TemperatureField::Include && (
            says_unsupported(e) || (e.message matches Some(m) && holds(
                text::lower(m),
                "only the default"@,
            ))) {
                next == Some(
                    CompletionPayloadMode { temperature_field: TemperatureField::Omit, ..mode },
                )
            } else {
                next is None
            }
        }),
{
    lemma_unsupported(e, kind, config);
    lemma_only_default(e, kind, config);
    lemma_next_fields(kind, config, mode.token_field, mode.reasoning_field);
    lemma_parameters(kind, config, text::lower(param));
}

proof fn lemma_parameters(kind: ProviderKind, config: ProviderProfileHealthModeConfig, p: Seq<char>)
    ensures
        ({
            let a = contracts::contract_of(kind, config).payload_adaptation;
            &&& contracts::listed(a.token_error_parameters@, p) <==> (p == "max_output_tokens"@ || p
                == "max_tokens"@ || p == "max_completion_tokens"@)
            &&& contracts::listed(a.reasoning_error_parameters@, p) <==> (p == "reasoning_effort"@
                || p == "reasoning"@)
            &&& contracts::listed(a.temperature_error_parameters@, p) <==> p == "temperature"@
        }),
{
    let a = contracts::contract_of(kind, config).payload_adaptation;
    let t = a.token_error_parameters@;
    let r = a.reasoning_error_parameters@;
    let h = a.temperature_error_parameters@;
    assert(t[0]@ == "max_output_tokens"@ && t[1]@ == "max_tokens"@ && t[2]@
        == "max_completion_tokens"@);
    assert(r[0]@ == "reasoning_effort"@ && r[1]@ == "reasoning"@);
    assert(h[0]@ == "temperature"@);
}

/// Whether the message of an error holds a part, whatever the case of its letters.
pub open spec fn message_holds(e: ApiErrorView, part: Seq<char>) -> bool {
    e.message matches Some(m) && holds(text::lower(m), part)
}

proof fn lemma_mentioned(kind: ProviderKind, config: ProviderProfileHealthModeConfig, e: ApiErrorView)
    ensures
        ({
            let c = contracts::contract_of(kind, config);
            let a = c.payload_adaptation;
            let t = c.error_classification;
            &&& contracts::says(e, a.token_error_parameters@) <==> message_holds(
                e,
                "max_output_tokens"@,
            ) || message_holds(e, "max_tokens"@) || message_holds(e, "max_completion_tokens"@)
            &&& contracts::says(e, a.reasoning_error_parameters@) <==> message_holds(
                e,
                "reasoning_effort"@,
            ) || message_holds(e, "reasoning"@)
            &&& contracts::says(e, a.temperature_error_parameters@) <==> message_holds(
                e,
                "temperature"@,
            )
            &&& contracts::says(e, t.tool_schema_error_parameters@) <==> message_holds(e, "tools"@)
                || message_holds(e, "tool_choice"@)
            &&& contracts::says(e, t.tool_schema_error_fragments@) <==> message_holds(
                e,
                "function calling"@,
            )
        }),
{
    let c = contracts::contract_of(kind, config);
    let a = c.payload_adaptation;
    let t = c.error_classification;
    if let Some(m) = e.message {
        let s = text::lower(m);
        lemma_any_in_three(a.token_error_parameters@, s);
        lemma_any_in_two(a.reasoning_error_parameters@, s);
        lemma_any_in_two(t.tool_schema_error_parameters@, s);
        lemma_holds(s, "temperature"@);
        lemma_holds(s, "function calling"@);
        assert(a.temperature_error_parameters@[0]@ == "temperature"@);
        assert(t.tool_schema_error_fragments@[0]@ == "function calling"@);
    }
}

/// Where an error names no parameter, the first that its message holds decides which field is
/// changed: a token parameter, then one of reasoning, then the temperature.
pub proof fn law_the_mentioned_field_is_changed(
    mode: CompletionPayloadMode,
    max_tokens: Option<u32>,
    effort: Option<ReasoningEffort>,
    kind: ProviderKind,
    config: ProviderProfileHealthModeConfig,
    e: ApiErrorView,
)
    requires
        e.param is None,
    ensures
        ({
            let next = contracts::adapted(
                mode,
                max_tokens,
                effort,
                contracts::contract_of(kind, config),
                e,
            );
            if says_unsupported(e) && (message_holds(e, "max_output_tokens"@) || message_holds(
                e,
                "max_tokens"@,
            ) || message_holds(e, "max_completion_tokens"@)) {
                next == (match next_token(kind, mode.token_field) {
                    Some(token_field) if max_tokens is Some => Some(
                        CompletionPayloadMode { token_field, ..mode },
                    ),
                    _ => None,
                })
            } else if says_unsupported(e) && (message_holds(e, "reasoning_effort"@)
                || message_holds(e, "reasoning"@)) {
                next == (match next_reasoning(mode.reasoning_field) {
                    Some(reasoning_field) if effort is Some => Some(
                        CompletionPayloadMode { reasoning_field, ..mode },
                    ),
                    _ => None,
                })
            } else if message_holds(e, "temperature"@) && mode.temperature_field
                == TemperatureField::Include && (says_unsupported(e) || message_holds(
                e,
                "only the default"@,
            )) {
                next == Some(
                    CompletionPayloadMode { temperature_field: TemperatureField::Omit, ..mode },
                )
            } else {
                next is None
            }
        }),
{
    lemma_unsupported(e, kind, config);
    lemma_only_default(e, kind, config);
    lemma_next_fields(kind, config, mode.token_field, mode.reasoning_field);
    lemma_mentioned(kind, config, e);
}

/// Tools are refused exactly where something is not supported, and that is the parameter of the
/// tools or of their choice, or the message speaks of function calling. A parameter that an
/// error names counts, and its message only where it names none.
pub proof fn law_tools_are_refused_by_name(
    kind: ProviderKind,
    config: ProviderProfileHealthModeConfig,
    e: ApiErrorView,
)
    ensures
        contracts::refuses_tools(e, contracts::contract_of(kind, config).error_classification)
            <==> says_unsupported(e) && (message_holds(e, "function calling"@) || (match e.param {
            Some(p) => text::lower(p) == "tools"@ || text::lower(p) == "tool_choice"@,
            None => message_holds(e, "tools"@) || message_holds(e, "tool_choice"@),
        })),
{
    lemma_unsupported(e, kind, config);
    lemma_mentioned(kind, config, e);
    let t = contracts::contract_of(kind, config).error_classification.tool_schema_error_parameters@;
    assert(t[0]@ == "tools"@ && t[1]@ == "tool_choice"@);
}

/// An error that does not say that something is not supported changes no field.
pub proof fn law_other_errors_change_no_field(
    mode: CompletionPayloadMode,
    max_tokens: Option<u32>,
    effort: Option<ReasoningEffort>,
    kind: ProviderKind,
    config: ProviderProfileHealthModeConfig,
    e: ApiErrorView,
)
    requires
        !says_unsupported(e),
        !(e.message matches Some(m) && holds(text::lower(m), "only the default"@)),
    ensures
        contracts::adapted(mode, max_tokens, effort, contracts::contract_of(kind, config), e)
            is None,
{
    lemma_unsupported(e, kind, config);
    lemma_only_default(e, kind, config);
}

/// How requests to a provider of each kind begin: which interface, which fields.
pub proof fn law_kinds_differ_as_their_interfaces_do(
    kind: ProviderKind,
    config: ProviderProfileHealthModeConfig,
)
    ensures
        ({
            let c = contracts::contract_of(kind, config);
            let first = CompletionPayloadMode::first(c);
            &&& c.transport_mode == ProviderTransportMode::AnthropicMessages <==> kind
                == ProviderKind::Anthropic
            &&& c.transport_mode == ProviderTransportMode::BedrockConverse <==> kind
                == ProviderKind::Bedrock
            &&& c.transport_mode == ProviderTransportMode::KimiApi <==> kind == ProviderKind::Kimi
                || kind == ProviderKind::KimiCoding
            &&& first.token_field == TokenLimitField::MaxCompletionTokens <==> kind
                == ProviderKind::Openai
            &&& first.token_field != TokenLimitField::Omit
            &&& first.reasoning_field == ReasoningField::Omit <==> kind == ProviderKind::Anthropic
                || kind == ProviderKind::Bedrock
            &&& first.reasoning_field != ReasoningField::ReasoningObject
            &&& first.temperature_field == TemperatureField::Include
            &&& c.validation.forbid_kimi_coding_endpoint <==> kind == ProviderKind::Kimi
            &&& c.validation.require_kimi_cli_user_agent_prefix <==> kind
                == ProviderKind::KimiCoding
            &&& c.capability.tool_schema_mode
                == ProviderToolSchemaMode::EnabledWithDowngradeOnUnsupported
            &&& c.capability.reasoning_extra_body_mode
                == ProviderReasoningExtraBodyMode::KimiThinking <==> kind
                == ProviderKind::KimiCoding
            &&& config == ProviderProfileHealthModeConfig::Enforce ==> c.profile_health_mode
                == ProviderProfileHealthMode::EnforceUnusableWindows
            &&& config == ProviderProfileHealthModeConfig::ObserveOnly ==> c.profile_health_mode
                == ProviderProfileHealthMode::ObserveOnly
            &&& config == ProviderProfileHealthModeConfig::ProviderDefault ==> (
            c.profile_health_mode == ProviderProfileHealthMode::ObserveOnly <==> kind
                == ProviderKind::Openrouter)
        }),
{
}

/// What a provider says stands under `error` of its answer.
pub proof fn law_errors_are_read_from_the_answer(body: JsonView)
    ensures
        ({
            let e = contracts::error_in(body);
            match body.get("error"@) {
                Some(said) => {
                    &&& e.code == said.str_at("code"@)
                    &&& e.param == said.str_at("param"@)
                    &&& e.message == said.str_at("message"@)
                },
                None => e.code is None && e.param is None && e.message is None,
            }
        }),
{
}

/// A refusal of something unsupported is one of the request's form: of a field that is named,
/// or of the tools where they can be left out.
pub proof fn law_unsupported_parts_are_told(
    status: u16,
    e: ApiErrorView,
    param: Seq<char>,
    kind: ProviderKind,
    config: ProviderProfileHealthModeConfig,
    capability: ProviderCapabilityContract,
)
    requires
        status != 429 && status != 401 && status != 403 && (status < 500 || status > 599),
        says_unsupported(e),
        e.param == Some(param),
    ensures
        ({
            let p = text::lower(param);
            let reason = request_planner::status_reason(
                status,
                e,
                contracts::contract_of(kind, config),
                capability,
            );
            &&& p == "max_tokens"@ || p == "max_output_tokens"@ || p == "max_completion_tokens"@ || p
                == "reasoning_effort"@ || p == "reasoning"@ || p == "temperature"@ ==> reason
                == ProviderFailoverReason::PayloadIncompatible
            &&& (p == "tools"@ || p == "tool_choice"@) && capability.tool_schema_mode
                == ProviderToolSchemaMode::EnabledWithDowngradeOnUnsupported ==> reason
                == ProviderFailoverReason::PayloadIncompatible
        }),
{
    lemma_unsupported(e, kind, config);
    lemma_parameters(kind, config, text::lower(param));
    let t = contracts::contract_of(kind, config).error_classification.tool_schema_error_parameters@;
    assert(t[0]@ == "tools"@ && t[1]@ == "tool_choice"@);
}

/// Every reason and every stage of a failure has its name.
pub proof fn law_reasons_have_these_names()
    ensures
        ProviderFailoverReason::ModelMismatch.name() == "model_mismatch"@,
        ProviderFailoverReason::RateLimited.name() == "rate_limited"@,
        ProviderFailoverReason::ProviderOverloaded.name() == "provider_overloaded"@,
        ProviderFailoverReason::AuthRejected.name() == "auth_rejected"@,
        ProviderFailoverReason::PayloadIncompatible.name() == "payload_incompatible"@,
        ProviderFailoverReason::TransportFailure.name() == "transport_failure"@,
        ProviderFailoverReason::ResponseDecodeFailure.name() == "response_decode_failure"@,
        ProviderFailoverReason::ResponseShapeInvalid.name() == "response_shape_invalid"@,
        ProviderFailoverReason::RequestRejected.name() == "request_rejected"@,
        ProviderFailoverStage::TransportFailure.name() == "transport_failure"@,
        ProviderFailoverStage::ResponseDecode.name() == "response_decode"@,
        ProviderFailoverStage::ResponseShapeInvalid.name() == "response_shape_invalid"@,
        ProviderFailoverStage::ModelCandidateRejected.name() == "model_candidate_rejected"@,
        ProviderFailoverStage::StatusFailure.name() == "status_failure"@,
{
}

/// The error of a request says what happened, and behind it, as JSON, what is known: the model,
/// the attempt and how many there may be, why and where it failed, and the status where there
/// is one.
pub proof fn law_errors_say_what_is_known(
    message: Seq<char>,
    try_next_model: bool,
    known: SnapshotView,
    api_error: Option<ApiErrorView>,
)
    ensures
        ({
            let e = failover::request_error(message, try_next_model, known, api_error);
            let told = JsonView::Object(failover::failover_entries(known));
            &&& e.message == message + " | provider_failover="@ + json::rendered_json(told)
            &&& e.try_next_model == try_next_model
            &&& e.reason == known.reason
            &&& e.snapshot == known
            &&& e.api_error == api_error
            &&& told.str_at("model"@) == Some(known.model)
            &&& told.get("attempt"@) == Some(JsonView::Integer(known.attempt))
            &&& told.get("max_attempts"@) == Some(JsonView::Integer(known.max_attempts))
            &&& told.str_at("reason"@) == Some(known.reason.name())
            &&& told.str_at("stage"@) == Some(known.stage.name())
            &&& known.status_code matches Some(n) ==> told.get("status_code"@) == Some(
                JsonView::Integer(n as int),
            )
            &&& known.status_code is None ==> told.get("status_code"@) is None
        }),
{
    reveal_strlit("attempt");
    reveal_strlit("max_attempts");
    reveal_strlit("model");
    reveal_strlit("reason");
    reveal_strlit("stage");
    reveal_strlit("status_code");
    assert("attempt"@.len() == 7 && "max_attempts"@.len() == 12 && "model"@.len() == 5);
    assert("reason"@.len() == 6 && "stage"@.len() == 5 && "status_code"@.len() == 11);
    assert("model"@[0] == 'm' && "stage"@[0] == 's');
    let v = failover::failover_entries(known);
    assert(v[0].0 == "attempt"@ && v[1].0 == "max_attempts"@ && v[2].0 == "model"@ && v[3].0
        == "reason"@ && v[4].0 == "stage"@);
    texts::law_keys_find_their_first_value(v, "attempt"@, 0);
    texts::law_keys_find_their_first_value(v, "max_attempts"@, 1);
    texts::law_keys_find_their_first_value(v, "model"@, 2);
    texts::law_keys_find_their_first_value(v, "reason"@, 3);
    texts::law_keys_find_their_first_value(v, "stage"@, 4);
    if known.status_code is Some {
        assert(v[5].0 == "status_code"@);
    }
    texts::law_keys_find_their_first_value(v, "status_code"@, 5);
}

/// What is said of a status names it, the model, the attempt and how many there may be, and
/// gives the answer; the hints follow exactly where the credentials were refused.
pub proof fn law_statuses_are_told_with_the_answer(
    auth_hint: Option<Seq<char>>,
    region_hint: Option<Seq<char>>,
    reason: ProviderFailoverReason,
    status: u16,
    model: Seq<char>,
    attempt: int,
    max_attempts: int,
    body: JsonView,
)
    ensures
        ({
            let said = request_executor::status_text(
                auth_hint,
                region_hint,
                reason,
                status,
                model,
                attempt,
                max_attempts,
                body,
            );
            let plain = "provider returned status "@ + text::decimal(status as nat)
                + " for model `"@ + model + "` on attempt "@ + text::decimal(attempt as nat) + "/"@
                + text::decimal(max_attempts as nat) + ": "@ + json::rendered_json(body);
            &&& reason != ProviderFailoverReason::AuthRejected ==> said == plain
            &&& reason == ProviderFailoverReason::AuthRejected ==> said == plain + (
            match auth_hint {
                Some(h) => " "@ + h,
                None => Seq::empty(),
            }) + (match region_hint {
                Some(h) => " "@ + h,
                None => Seq::empty(),
            })
        }),
{
    let plain = "provider returned status "@ + text::decimal(status as nat) + " for model `"@
        + model + "` on attempt "@ + text::decimal(attempt as nat) + "/"@ + text::decimal(
        max_attempts as nat,
    ) + ": "@ + json::rendered_json(body);
    let a = match auth_hint {
        Some(h) => " "@ + h,
        None => Seq::empty(),
    };
    let r = match region_hint {
        Some(h) => " "@ + h,
        None => Seq::empty(),
    };
    assert(request_executor::with_hint(
        request_executor::with_hint(plain, auth_hint),
        region_hint,
    ) =~= plain + a + r);
}

/// The log of an exchange holds the request, the answer and what went with them, each under
/// its key; what there is not is null.
pub proof fn law_exchanges_are_logged_whole(
    ts: u64,
    model: Seq<char>,
    endpoint: Seq<char>,
    request: JsonView,
    response: Option<JsonView>,
    status: Option<u16>,
    elapsed_ms: u64,
    error: Option<Seq<char>>,
)
    ensures
        ({
            let entry = JsonView::Object(
                request_executor::exchange_entries(
                    ts,
                    model,
                    endpoint,
                    request,
                    response,
                    status,
                    elapsed_ms,
                    error,
                ),
            );
            &&& entry.get("ts"@) == Some(JsonView::Integer(ts as int))
            &&& entry.str_at("model"@) == Some(model)
            &&& entry.str_at("endpoint"@) == Some(endpoint)
            &&& entry.get("request"@) == Some(request)
            &&& entry.get("response"@) == Some(
                match response {
                    Some(v) => v,
                    None => JsonView::Null,
                },
            )
            &&& entry.get("status"@) == Some(
                match status {
                    Some(n) => JsonView::Integer(n as int),
                    None => JsonView::Null,
                },
            )
            &&& entry.get("elapsed_ms"@) == Some(JsonView::Integer(elapsed_ms as int))
            &&& entry.get("error"@) == Some(
                match error {
                    Some(e) => JsonView::Text(e),
                    None => JsonView::Null,
                },
            )
        }),
{
    reveal_strlit("ts");
    reveal_strlit("model");
    reveal_strlit("endpoint");
    reveal_strlit("request");
    reveal_strlit("response");
    reveal_strlit("status");
    reveal_strlit("elapsed_ms");
    reveal_strlit("error");
    assert("ts"@.len() == 2 && "model"@.len() == 5 && "endpoint"@.len() == 8 && "request"@.len()
        == 7);
    assert("response"@.len() == 8 && "status"@.len() == 6 && "elapsed_ms"@.len() == 10
        && "error"@.len() == 5);
    assert("model"@[0] == 'm' && "error"@[0] == 'e' && "endpoint"@[0] == 'e' && "response"@[0]
        == 'r');
    let v = request_executor::exchange_entries(
        ts,
        model,
        endpoint,
        request,
        response,
        status,
        elapsed_ms,
        error,
    );
    assert(v[0].0 == "ts"@ && v[1].0 == "model"@ && v[2].0 == "endpoint"@ && v[3].0 == "request"@);
    assert(v[4].0 == "response"@ && v[5].0 == "status"@ && v[6].0 == "elapsed_ms"@ && v[7].0
        == "error"@);
    texts::law_keys_find_their_first_value(v, "ts"@, 0);
    texts::law_keys_find_their_first_value(v, "model"@, 1);
    texts::law_keys_find_their_first_value(v, "endpoint"@, 2);
    texts::law_keys_find_their_first_value(v, "request"@, 3);
    texts::law_keys_find_their_first_value(v, "response"@, 4);
    texts::law_keys_find_their_first_value(v, "status"@, 5);
    texts::law_keys_find_their_first_value(v, "elapsed_ms"@, 6);
    texts::law_keys_find_their_first_value(v, "error"@, 7);
}

// A request from answer to answer.

/// An answer from 200 to 299 that holds what was asked for ends the request; one that lacks
/// it ends it too, as an answer of the wrong shape. Nothing is made again for either.
pub proof fn law_answers_end_the_request(
    s: RequestView,
    status: u16,
    retry_after_s: Option<u64>,
    body: JsonView,
    parsed: bool,
    missing: Seq<char>,
    handled: bool,
)
    requires
        200 <= status <= 299,
    ensures
        ({
            let (next, action) = s.after_answer(
                status,
                retry_after_s,
                body,
                parsed,
                missing,
                handled,
            );
            &&& next == s
            &&& parsed <==> action is Succeed
            &&& !parsed ==> {
                &&& action is Fail
                &&& action->Fail_0.reason == ProviderFailoverReason::ResponseShapeInvalid
                &&& action->Fail_0.snapshot.stage == ProviderFailoverStage::ResponseShapeInvalid
                &&& action->Fail_0.snapshot.model == s.model
                &&& action->Fail_0.snapshot.attempt == s.attempt
                &&& !action->Fail_0.try_next_model
            }
        }),
{
}

/// No answer outside 200 to 299 is a success.
pub proof fn law_refusals_are_no_success(
    s: RequestView,
    status: u16,
    retry_after_s: Option<u64>,
    body: JsonView,
    parsed: bool,
    missing: Seq<char>,
    handled: bool,
)
    requires
        status < 200 || status > 299,
    ensures
        ({
            let (next, action) = s.after_answer(
                status,
                retry_after_s,
                body,
                parsed,
                missing,
                handled,
            );
            &&& !(action is Succeed)
            &&& handled ==> next == s && action is Send
            &&& action matches ActionView::Fail(e) ==> {
                &&& e.reason == e.snapshot.reason
                &&& e.snapshot.model == s.model
                &&& e.snapshot.attempt == s.attempt
                &&& e.snapshot.max_attempts == s.policy.max_attempts
                &&& e.snapshot.status_code == Some(status)
                &&& e.api_error == Some(contracts::error_in(body))
                &&& e.try_next_model <==> e.snapshot.stage
                    == ProviderFailoverStage::ModelCandidateRejected
            }
        }),
{
}

/// Whether an answer says nothing of the fields of a request.
pub open spec fn says_nothing_of_fields(body: JsonView) -> bool {
    let e = contracts::error_in(body);
    &&& !says_unsupported(e)
    &&& !(e.message matches Some(m) && holds(text::lower(m), "only the default"@))
}

/// A request that meets a failure that passes is made again, unchanged, until its attempts
/// are used up: after the wait that the server asks for, else after the time of waiting.
pub proof fn law_requests_outlast_failures(
    s: RequestView,
    kind: ProviderKind,
    config: ProviderProfileHealthModeConfig,
    status: u16,
    retry_after_s: Option<u64>,
    body: JsonView,
    parsed: bool,
    missing: Seq<char>,
)
    requires
        s.contract == contracts::contract_of(kind, config),
        500 <= status <= 599 || status == 408 || status == 429,
        says_nothing_of_fields(body),
    ensures
        ({
            let (next, action) = s.after_answer(status, retry_after_s, body, parsed, missing, false);
            if s.attempt < s.policy.max_attempts {
                &&& action is Wait
                &&& retry_after_s is None ==> action == ActionView::Wait(s.backoff_ms)
                &&& retry_after_s is Some && retry_after_s->0 * 1000 <= u64::MAX ==> action->Wait_0
                    == retry_after_s->0 * 1000
                &&& next == (RequestView { backoff_ms: next.backoff_ms, ..s })
                &&& retry_after_s is None && 2 * s.backoff_ms <= s.policy.max_backoff_ms
                    ==> next.backoff_ms == 2 * s.backoff_ms
                &&& retry_after_s is None && 2 * s.backoff_ms > s.policy.max_backoff_ms
                    ==> next.backoff_ms == s.policy.max_backoff_ms
            } else {
                &&& action is Fail
                &&& next == s
                &&& status >= 500 ==> action->Fail_0.reason
                    == ProviderFailoverReason::ProviderOverloaded
            }
        }),
{
    law_other_errors_change_no_field(
        s.mode,
        s.max_tokens,
        s.effort,
        kind,
        config,
        contracts::error_in(body),
    );
}

/// A request that got no answer is made again exactly where the failure may pass and an
/// attempt is left; otherwise it fails as one that did not get through.
pub proof fn law_lost_requests_are_made_again(
    s: RequestView,
    error: Seq<char>,
    passing: bool,
    route_hint: Option<Seq<char>>,
)
    ensures
        ({
            let (next, action) = s.after_transport_failure(error, passing, route_hint);
            if passing && s.attempt < s.policy.max_attempts {
                &&& action == ActionView::Wait(s.backoff_ms)
                &&& next == (RequestView { backoff_ms: next.backoff_ms, ..s })
                &&& 2 * s.backoff_ms <= s.policy.max_backoff_ms ==> next.backoff_ms == 2
                    * s.backoff_ms
                &&& 2 * s.backoff_ms > s.policy.max_backoff_ms ==> next.backoff_ms
                    == s.policy.max_backoff_ms
            } else {
                &&& next == s
                &&& action is Fail
                &&& action->Fail_0.reason == ProviderFailoverReason::TransportFailure
                &&& action->Fail_0.snapshot.stage == ProviderFailoverStage::TransportFailure
                &&& action->Fail_0.snapshot.model == s.model
                &&& action->Fail_0.snapshot.attempt == s.attempt
                &&& action->Fail_0.snapshot.status_code is None
                &&& !action->Fail_0.try_next_model
            }
        }),
{
}

/// What is said where a request could not be made, its answer could not be read, lacks what was
/// asked for, or was not given: what went wrong, with which model and in which attempt.
pub proof fn law_failures_are_told_with_their_attempt(
    s: RequestView,
    error: Seq<char>,
    missing: Seq<char>,
    body: JsonView,
    route_hint: Option<Seq<char>>,
)
    ensures
        ({
            &&& s.setup_error(error).message == failover::request_error(
                "provider request setup failed"@ + " for model `"@ + s.model + "` on attempt "@
                    + text::decimal(s.attempt as nat) + "/"@ + text::decimal(
                    s.policy.max_attempts as nat,
                ) + ": "@ + error,
                false,
                s.setup_error(error).snapshot,
                None,
            ).message
            &&& s.decode_error(error).message == failover::request_error(
                "provider response decode failed"@ + " for model `"@ + s.model + "` on attempt "@
                    + text::decimal(s.attempt as nat) + "/"@ + text::decimal(
                    s.policy.max_attempts as nat,
                ) + ": "@ + error,
                false,
                s.decode_error(error).snapshot,
                None,
            ).message
            &&& s.transport_error(error, None).message == failover::request_error(
                "provider request failed"@ + " for model `"@ + s.model + "` on attempt "@
                    + text::decimal(s.attempt as nat) + "/"@ + text::decimal(
                    s.policy.max_attempts as nat,
                ) + ": "@ + error,
                false,
                s.transport_error(error, None).snapshot,
                None,
            ).message
            &&& route_hint matches Some(h) ==> s.transport_error(error, route_hint).message
                == failover::request_error(
                "provider request failed"@ + " for model `"@ + s.model + "` on attempt "@
                    + text::decimal(s.attempt as nat) + "/"@ + text::decimal(
                    s.policy.max_attempts as nat,
                ) + ": "@ + error + " "@ + h,
                false,
                s.transport_error(error, route_hint).snapshot,
                None,
            ).message
            &&& s.shape_error(missing, body).message == failover::request_error(
                "provider response missing "@ + missing + " for model `"@ + s.model + "` on attempt "@
                    + text::decimal(s.attempt as nat) + "/"@ + text::decimal(
                    s.policy.max_attempts as nat,
                ) + ": "@ + json::rendered_json(body),
                false,
                s.shape_error(missing, body).snapshot,
                None,
            ).message
            &&& s.setup_error(error).reason == ProviderFailoverReason::TransportFailure
            &&& s.decode_error(error).reason == ProviderFailoverReason::ResponseDecodeFailure
            &&& s.decode_error(error).snapshot.stage == ProviderFailoverStage::ResponseDecode
        }),
{
}

/// A model that is not there is told as such, and the next one is tried.
pub proof fn law_missing_models_are_told(s: RequestView, status: u16, body: JsonView)
    ensures
        ({
            let e = s.rejected_error(status, body);
            &&& e.try_next_model
            &&& e.reason == ProviderFailoverReason::ModelMismatch
            &&& e.snapshot.stage == ProviderFailoverStage::ModelCandidateRejected
            &&& e.snapshot.status_code == Some(status)
            &&& e.message == failover::request_error(
                "model `"@ + s.model
                    + "` rejected by provider endpoint; trying next candidate. status "@
                    + text::decimal(status as nat) + ": "@ + json::rendered_json(body),
                true,
                e.snapshot,
                e.api_error,
            ).message
        }),
{
}

/// Every attempt counts as one, and changes nothing else of the request.
pub proof fn law_attempts_count_one(s: RequestView)
    ensures
        s.begun() == (RequestView { attempt: s.begun().attempt, ..s }),
        s.begun().attempt == s.attempt + 1,
{
}

/// A request after a number of attempts that all meet the same failure, and what is done then.
pub open spec fn after_failures(s: RequestView, status: u16, body: JsonView, times: nat) -> (
    RequestView,
    ActionView,
)
    decreases times,
{
    if times == 0 {
        (s, ActionView::Send)
    } else {
        after_failures(s, status, body, (times - 1) as nat).0.begun().after_answer(
            status,
            None,
            body,
            false,
            Seq::empty(),
            false,
        )
    }
}

/// A request that meets nothing but failures of the server, without a wait that the server
/// asks for, is made as often as the policy allows and not once more.
pub proof fn law_a_failing_server_is_asked_as_often_as_allowed(
    s: RequestView,
    kind: ProviderKind,
    config: ProviderProfileHealthModeConfig,
    status: u16,
    body: JsonView,
    times: nat,
)
    requires
        s.contract == contracts::contract_of(kind, config),
        s.attempt == 0,
        500 <= status <= 599,
        says_nothing_of_fields(body),
        1 <= times <= s.policy.max_attempts,
    ensures
        times < s.policy.max_attempts ==> after_failures(s, status, body, times).1 is Wait,
        times == s.policy.max_attempts ==> after_failures(s, status, body, times).1 is Fail,
        after_failures(s, status, body, times).0.attempt == times,
        after_failures(s, status, body, times).0.contract == s.contract,
        after_failures(s, status, body, times).0.policy == s.policy,
    decreases times,
{
    reveal_with_fuel(after_failures, 2);
    if times > 1 {
        law_a_failing_server_is_asked_as_often_as_allowed(
            s,
            kind,
            config,
            status,
            body,
            (times - 1) as nat,
        );
    }
    let before = after_failures(s, status, body, (times - 1) as nat).0.begun();
    law_requests_outlast_failures(before, kind, config, status, None, body, false, Seq::empty());
}

} // verus!
