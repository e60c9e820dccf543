//! What the providers accept, and what their errors say of it.
use crate::json::{Json, JsonView};
use crate::text;
use crate::text::{chars_of, has_text, lower_text, same};
use vstd::prelude::*;

verus! {

/// The providers that differ in what they accept. `Other` stands for every provider
/// that speaks the chat completions of OpenAI.
#[derive(Clone, Copy, Debug, PartialEq, Eq, Structural)]
pub enum ProviderKind {
    Openai,
    Anthropic,
    Bedrock,
    Kimi,
    KimiCoding,
    Openrouter,
    Volcengine,
    Other,
}

/// How much a model is asked to reason.
#[derive(Clone, Copy, Debug, PartialEq, Eq, Structural)]
pub enum ReasoningEffort {
    Low,
    Medium,
    High,
}

/// What the configuration says of credentials that fail.
#[derive(Clone, Copy, Debug, PartialEq, Eq, Structural)]
pub enum ProviderProfileHealthModeConfig {
    ProviderDefault,
    Enforce,
    ObserveOnly,
}

/// The configuration of a provider, as far as requests depend on it.
pub struct ProviderConfig {
    pub kind: ProviderKind,
    pub model: String,
    pub preferred_models: Vec<String>,
    pub max_tokens: Option<u32>,
    pub reasoning_effort: Option<ReasoningEffort>,
    pub profile_health_mode: ProviderProfileHealthModeConfig,
}

impl Default for ProviderConfig {
    fn default() -> (r: ProviderConfig)
        ensures
            r.kind == ProviderKind::Openai,
            r.model@ == "auto"@,
            r.preferred_models@ == Seq::<String>::empty(),
            r.max_tokens is None,
            r.reasoning_effort is None,
            r.profile_health_mode == ProviderProfileHealthModeConfig::ProviderDefault,
    {
        ProviderConfig {
            kind: ProviderKind::Openai,
            model: "auto".to_owned(),
            preferred_models: Vec::new(),
            max_tokens: None,
            reasoning_effort: None,
            profile_health_mode: ProviderProfileHealthModeConfig::ProviderDefault,
        }
    }
}

#[derive(Clone, Copy, Debug, PartialEq, Eq, Structural)]
pub enum ProviderFeatureFamily {
    OpenAiCompatible,
    Anthropic,
    Bedrock,
    VolcengineCompatible,
}

#[derive(Clone, Copy, Debug, PartialEq, Eq, Structural)]
pub enum ProviderTransportMode {
    OpenAiChatCompletions,
    AnthropicMessages,
    BedrockConverse,
    KimiApi,
}

#[derive(Clone, Copy, Debug, PartialEq, Eq, Structural)]
pub enum ProviderProfileHealthMode {
    EnforceUnusableWindows,
    ObserveOnly,
}

/// The field that holds the limit on tokens.
#[derive(Clone, Copy, Debug, PartialEq, Eq, Structural)]
pub enum TokenLimitField {
    MaxCompletionTokens,
    MaxTokens,
    Omit,
}

/// The field that holds the effort of reasoning.
#[derive(Clone, Copy, Debug, PartialEq, Eq, Structural)]
pub enum ReasoningField {
    ReasoningEffort,
    ReasoningObject,
    Omit,
}

/// Whether the temperature is sent.
#[derive(Clone, Copy, Debug, PartialEq, Eq, Structural)]
pub enum TemperatureField {
    Include,
    Omit,
}

#[derive(Clone, Copy, Debug, PartialEq, Eq, Structural)]
pub enum ProviderToolSchemaMode {
    EnabledWithDowngradeOnUnsupported,
    EnabledStrict,
    Disabled,
}

#[derive(Clone, Copy, Debug, PartialEq, Eq, Structural)]
pub enum ProviderReasoningExtraBodyMode {
    Omit,
    KimiThinking,
}

/// What a provider can do.
#[derive(Clone, Copy)]
pub struct ProviderCapabilityContract {
    pub tool_schema_mode: ProviderToolSchemaMode,
    pub reasoning_extra_body_mode: ProviderReasoningExtraBodyMode,
}

impl ProviderCapabilityContract {
    pub open spec fn downgrades_tools(self) -> bool {
        self.tool_schema_mode == ProviderToolSchemaMode::EnabledWithDowngradeOnUnsupported
    }

    pub fn turn_tool_schema_enabled(&self) -> (r: bool)
        ensures
            r == (self.tool_schema_mode != ProviderToolSchemaMode::Disabled),
    {
        self.tool_schema_mode != ProviderToolSchemaMode::Disabled
    }

    pub fn tool_schema_downgrade_on_unsupported(&self) -> (r: bool)
        ensures
            r == self.downgrades_tools(),
    {
        self.tool_schema_mode == ProviderToolSchemaMode::EnabledWithDowngradeOnUnsupported
    }

    pub fn include_reasoning_extra_body(&self) -> (r: bool)
        ensures
            r == (self.reasoning_extra_body_mode != ProviderReasoningExtraBodyMode::Omit),
    {
        self.reasoning_extra_body_mode != ProviderReasoningExtraBodyMode::Omit
    }
}

pub const UNSUPPORTED_FRAGMENTS: [&'static str; 3] = [
    "unknown parameter",
    "unsupported parameter",
    "not supported",
];

pub const TOKEN_PARAMETERS: [&'static str; 3] = [
    "max_output_tokens",
    "max_tokens",
    "max_completion_tokens",
];

pub const REASONING_PARAMETERS: [&'static str; 2] = ["reasoning_effort", "reasoning"];

pub const TEMPERATURE_PARAMETERS: [&'static str; 1] = ["temperature"];

pub const DEFAULT_ONLY_FRAGMENTS: [&'static str; 1] = ["only the default"];

pub const TOOL_SCHEMA_PARAMETERS: [&'static str; 2] = ["tools", "tool_choice"];

pub const TOOL_SCHEMA_FRAGMENTS: [&'static str; 1] = ["function calling"];

pub const MODEL_NOT_FOUND_CODES: [&'static str; 4] = [
    "model_not_found",
    "unsupported_model",
    "invalid_model",
    "not_found_error",
];

pub const MODEL_MISMATCH_FRAGMENTS: [&'static str; 2] = ["does not exist", "/v1/responses"];

pub const TOKENS_COMPLETION_FIRST: [TokenLimitField; 4] = [
    TokenLimitField::MaxCompletionTokens,
    TokenLimitField::MaxTokens,
    TokenLimitField::Omit,
    TokenLimitField::Omit,
];

pub const TOKENS_PLAIN_FIRST: [TokenLimitField; 4] = [
    TokenLimitField::MaxTokens,
    TokenLimitField::MaxCompletionTokens,
    TokenLimitField::Omit,
    TokenLimitField::Omit,
];

pub const REASONING_PROGRESSION: [ReasoningField; 3] = [
    ReasoningField::ReasoningEffort,
    ReasoningField::ReasoningObject,
    ReasoningField::Omit,
];

/// What is changed in a request that a provider refused.
#[derive(Clone, Copy)]
pub struct PayloadAdaptationContract {
    pub token_field_progression: [TokenLimitField; 4],
    pub reasoning_field_progression: [ReasoningField; 3],
    pub token_error_parameters: [&'static str; 3],
    pub reasoning_error_parameters: [&'static str; 2],
    pub temperature_error_parameters: [&'static str; 1],
    pub unsupported_parameter_message_fragments: [&'static str; 3],
    pub temperature_default_only_fragments: [&'static str; 1],
}

/// How the errors of a provider are told apart.
#[derive(Clone, Copy)]
pub struct ErrorClassificationContract {
    pub tool_schema_error_parameters: [&'static str; 2],
    pub tool_schema_error_fragments: [&'static str; 1],
    pub unsupported_parameter_message_fragments: [&'static str; 3],
    pub model_not_found_codes: [&'static str; 4],
    pub model_mismatch_message_fragments: [&'static str; 2],
}

/// What has to hold of the configuration of a provider.
#[derive(Clone, Copy)]
pub struct ProviderValidationContract {
    pub forbid_kimi_coding_endpoint: bool,
    pub require_kimi_cli_user_agent_prefix: bool,
}

/// How requests to a provider are made.
#[derive(Clone, Copy)]
pub struct ProviderRuntimeContract {
    pub feature_family: ProviderFeatureFamily,
    pub transport_mode: ProviderTransportMode,
    pub profile_health_mode: ProviderProfileHealthMode,
    pub default_token_field: TokenLimitField,
    pub default_reasoning_field: ReasoningField,
    pub default_temperature_field: TemperatureField,
    pub payload_adaptation: PayloadAdaptationContract,
    pub error_classification: ErrorClassificationContract,
    pub validation: ProviderValidationContract,
    pub capability: ProviderCapabilityContract,
}

pub open spec fn family_of(kind: ProviderKind) -> ProviderFeatureFamily {
    match kind {
        ProviderKind::Anthropic => ProviderFeatureFamily::Anthropic,
        ProviderKind::Bedrock => ProviderFeatureFamily::Bedrock,
        ProviderKind::Volcengine => ProviderFeatureFamily::VolcengineCompatible,
        _ => ProviderFeatureFamily::OpenAiCompatible,
    }
}

pub open spec fn transport_of(kind: ProviderKind) -> ProviderTransportMode {
    match kind {
        ProviderKind::Anthropic => ProviderTransportMode::AnthropicMessages,
        ProviderKind::Bedrock => ProviderTransportMode::BedrockConverse,
        ProviderKind::Kimi | ProviderKind::KimiCoding => ProviderTransportMode::KimiApi,
        _ => ProviderTransportMode::OpenAiChatCompletions,
    }
}

/// What is done with credentials that fail: as configured, else only OpenRouter keeps
/// on using them.
pub open spec fn health_of(
    kind: ProviderKind,
    config: ProviderProfileHealthModeConfig,
) -> ProviderProfileHealthMode {
    match config {
        ProviderProfileHealthModeConfig::Enforce => {
            ProviderProfileHealthMode::EnforceUnusableWindows
        },
        ProviderProfileHealthModeConfig::ObserveOnly => ProviderProfileHealthMode::ObserveOnly,
        ProviderProfileHealthModeConfig::ProviderDefault => if kind == ProviderKind::Openrouter {
            ProviderProfileHealthMode::ObserveOnly
        } else {
            ProviderProfileHealthMode::EnforceUnusableWindows
        },
    }
}

pub open spec fn tokens_of(kind: ProviderKind) -> [TokenLimitField; 4] {
    if kind == ProviderKind::Openai {
        TOKENS_COMPLETION_FIRST
    } else {
        TOKENS_PLAIN_FIRST
    }
}

pub open spec fn reasoning_of(kind: ProviderKind) -> ReasoningField {
    if kind == ProviderKind::Anthropic || kind == ProviderKind::Bedrock {
        ReasoningField::Omit
    } else {
        ReasoningField::ReasoningEffort
    }
}

/// How requests to a provider of a kind are made.
pub open spec fn contract_of(
    kind: ProviderKind,
    config: ProviderProfileHealthModeConfig,
) -> ProviderRuntimeContract {
    ProviderRuntimeContract {
        feature_family: family_of(kind),
        transport_mode: transport_of(kind),
        profile_health_mode: health_of(kind, config),
        default_token_field: if kind == ProviderKind::Openai {
            TokenLimitField::MaxCompletionTokens
        } else {
            TokenLimitField::MaxTokens
        },
        default_reasoning_field: reasoning_of(kind),
        default_temperature_field: TemperatureField::Include,
        payload_adaptation: PayloadAdaptationContract {
            token_field_progression: tokens_of(kind),
            reasoning_field_progression: REASONING_PROGRESSION,
            token_error_parameters: TOKEN_PARAMETERS,
            reasoning_error_parameters: REASONING_PARAMETERS,
            temperature_error_parameters: TEMPERATURE_PARAMETERS,
            unsupported_parameter_message_fragments: UNSUPPORTED_FRAGMENTS,
            temperature_default_only_fragments: DEFAULT_ONLY_FRAGMENTS,
        },
        error_classification: ErrorClassificationContract {
            tool_schema_error_parameters: TOOL_SCHEMA_PARAMETERS,
            tool_schema_error_fragments: TOOL_SCHEMA_FRAGMENTS,
            unsupported_parameter_message_fragments: UNSUPPORTED_FRAGMENTS,
            model_not_found_codes: MODEL_NOT_FOUND_CODES,
            model_mismatch_message_fragments: MODEL_MISMATCH_FRAGMENTS,
        },
        validation: ProviderValidationContract {
            forbid_kimi_coding_endpoint: kind == ProviderKind::Kimi,
            require_kimi_cli_user_agent_prefix: kind == ProviderKind::KimiCoding,
        },
        capability: ProviderCapabilityContract {
            tool_schema_mode: ProviderToolSchemaMode::EnabledWithDowngradeOnUnsupported,
            reasoning_extra_body_mode: if kind == ProviderKind::KimiCoding {
                ProviderReasoningExtraBodyMode::KimiThinking
            } else {
                ProviderReasoningExtraBodyMode::Omit
            },
        },
    }
}

/// How requests to a provider are made.
pub fn provider_runtime_contract(provider: &ProviderConfig) -> (r: ProviderRuntimeContract)
    ensures
        r == contract_of(provider.kind, provider.profile_health_mode),
{
    let kind = provider.kind;
    let feature_family = match kind {
        ProviderKind::Anthropic => ProviderFeatureFamily::Anthropic,
        ProviderKind::Bedrock => ProviderFeatureFamily::Bedrock,
        ProviderKind::Volcengine => ProviderFeatureFamily::VolcengineCompatible,
        _ => ProviderFeatureFamily::OpenAiCompatible,
    };
    let transport_mode = match kind {
        ProviderKind::Anthropic => ProviderTransportMode::AnthropicMessages,
        ProviderKind::Bedrock => ProviderTransportMode::BedrockConverse,
        ProviderKind::Kimi | ProviderKind::KimiCoding => ProviderTransportMode::KimiApi,
        _ => ProviderTransportMode::OpenAiChatCompletions,
    };
    let observe = match provider.profile_health_mode {
        ProviderProfileHealthModeConfig::Enforce => false,
        ProviderProfileHealthModeConfig::ObserveOnly => true,
        ProviderProfileHealthModeConfig::ProviderDefault => kind == ProviderKind::Openrouter,
    };
    let native = kind == ProviderKind::Anthropic || kind == ProviderKind::Bedrock;
    let openai = kind == ProviderKind::Openai;
    let kimi_coding = kind == ProviderKind::KimiCoding;
    ProviderRuntimeContract {
        feature_family,
        transport_mode,
        profile_health_mode: if observe {
            ProviderProfileHealthMode::ObserveOnly
        } else {
            ProviderProfileHealthMode::EnforceUnusableWindows
        },
        default_token_field: if openai {
            TokenLimitField::MaxCompletionTokens
        } else {
            TokenLimitField::MaxTokens
        },
        default_reasoning_field: if native {
            ReasoningField::Omit
        } else {
            ReasoningField::ReasoningEffort
        },
        default_temperature_field: TemperatureField::Include,
        payload_adaptation: PayloadAdaptationContract {
            token_field_progression: if openai {
                TOKENS_COMPLETION_FIRST
            } else {
                TOKENS_PLAIN_FIRST
            },
            reasoning_field_progression: REASONING_PROGRESSION,
            token_error_parameters: TOKEN_PARAMETERS,
            reasoning_error_parameters: REASONING_PARAMETERS,
            temperature_error_parameters: TEMPERATURE_PARAMETERS,
            unsupported_parameter_message_fragments: UNSUPPORTED_FRAGMENTS,
            temperature_default_only_fragments: DEFAULT_ONLY_FRAGMENTS,
        },
        error_classification: ErrorClassificationContract {
            tool_schema_error_parameters: TOOL_SCHEMA_PARAMETERS,
            tool_schema_error_fragments: TOOL_SCHEMA_FRAGMENTS,
            unsupported_parameter_message_fragments: UNSUPPORTED_FRAGMENTS,
            model_not_found_codes: MODEL_NOT_FOUND_CODES,
            model_mismatch_message_fragments: MODEL_MISMATCH_FRAGMENTS,
        },
        validation: ProviderValidationContract {
            forbid_kimi_coding_endpoint: kind == ProviderKind::Kimi,
            require_kimi_cli_user_agent_prefix: kimi_coding,
        },
        capability: ProviderCapabilityContract {
            tool_schema_mode: ProviderToolSchemaMode::EnabledWithDowngradeOnUnsupported,
            reasoning_extra_body_mode: if kimi_coding {
                ProviderReasoningExtraBodyMode::KimiThinking
            } else {
                ProviderReasoningExtraBodyMode::Omit
            },
        },
    }
}

// Errors.

/// What a provider says of a request that it refused.
pub struct ProviderApiError {
    pub code: Option<String>,
    pub param: Option<String>,
    pub message: Option<String>,
}

/// What a `ProviderApiError` is.
#[verifier::ext_equal]
pub struct ApiErrorView {
    pub code: Option<Seq<char>>,
    pub param: Option<Seq<char>>,
    pub message: Option<Seq<char>>,
}

impl ProviderApiError {
    pub open spec fn view(&self) -> ApiErrorView {
        ApiErrorView {
            code: text::opt_text(self.code),
            param: text::opt_text(self.param),
            message: text::opt_text(self.message),
        }
    }

    pub fn duplicate(&self) -> (r: ProviderApiError)
        ensures
            r@ == self@,
    {
        ProviderApiError {
            code: match &self.code {
                Some(s) => Some(s.clone()),
                None => None,
            },
            param: match &self.param {
                Some(s) => Some(s.clone()),
                None => None,
            },
            message: match &self.message {
                Some(s) => Some(s.clone()),
                None => None,
            },
        }
    }
}

impl Default for ProviderApiError {
    fn default() -> (r: ProviderApiError)
        ensures
            r@ == (ApiErrorView { code: None, param: None, message: None }),
    {
        ProviderApiError { code: None, param: None, message: None }
    }
}

/// The error in the body of an answer.
pub open spec fn error_in(body: JsonView) -> ApiErrorView {
    match body.get("error"@) {
        Some(e) => ApiErrorView {
            code: e.str_at("code"@),
            param: e.str_at("param"@),
            message: e.str_at("message"@),
        },
        None => ApiErrorView { code: None, param: None, message: None },
    }
}

fn owned_at(value: &Json, key: &str) -> (r: Option<String>)
    ensures
        text::opt_text(r) == value@.str_at(key@),
{
    match value.str_at(key) {
        Some(s) => Some(s.to_owned()),
        None => None,
    }
}

/// The error in the body of an answer.
pub fn parse_provider_api_error(body: &Json) -> (r: ProviderApiError)
    ensures
        r@ == error_in(body@),
{
    match body.get("error") {
        Some(e) => ProviderApiError {
            code: owned_at(e, "code"),
            param: owned_at(e, "param"),
            message: owned_at(e, "message"),
        },
        None => ProviderApiError { code: None, param: None, message: None },
    }
}

/// Whether one of a list of texts is `s`.
pub open spec fn listed(list: Seq<&'static str>, s: Seq<char>) -> bool {
    exists|i: int| 0 <= i < list.len() && (#[trigger] list[i])@ == s
}

/// Whether one of a list of texts stands in `s`.
pub open spec fn any_in(list: Seq<&'static str>, s: Seq<char>) -> bool {
    exists|i: int|
        0 <= i < list.len() && text::find_from(s, (#[trigger] list[i])@, 0) is Some
}

fn is_listed(list: &[&'static str], s: &str) -> (r: bool)
    ensures
        r == listed(list@, s@),
{
    let mut i: usize = 0;
    while i < list.len()
        invariant
            i <= list@.len(),
            forall|k: int| 0 <= k < i ==> (#[trigger] list@[k])@ != s@,
        decreases list@.len() - i,
    {
        let one: &str = list[i];
        if same(one, s) {
            assert(list@[i as int]@ == s@);
            return true;
        }
        i += 1;
    }
    false
}

fn has_any(list: &[&'static str], s: &str) -> (r: bool)
    ensures
        r == any_in(list@, s@),
{
    let v = chars_of(s);
    let mut i: usize = 0;
    while i < list.len()
        invariant
            i <= list@.len(),
            v@ == s@,
            forall|k: int|
                0 <= k < i ==> text::find_from(s@, (#[trigger] list@[k])@, 0) is None,
        decreases list@.len() - i,
    {
        let one: &str = list[i];
        if has_text(&v, one) {
            assert(text::find_from(s@, list@[i as int]@, 0) is Some);
            return true;
        }
        i += 1;
    }
    false
}

/// Whether the message of an error, whatever the case of its letters, holds one of a
/// list of texts.
pub open spec fn says(e: ApiErrorView, fragments: Seq<&'static str>) -> bool {
    e.message matches Some(m) && any_in(fragments, text::lower(m))
}

/// Whether an error is about one of a list of parameters: the one that it names, or,
/// where it names none, one that its message holds.
pub open spec fn is_about(e: ApiErrorView, params: Seq<&'static str>) -> bool {
    match e.param {
        Some(p) => listed(params, text::lower(p)),
        None => says(e, params),
    }
}

fn error_says(e: &ProviderApiError, fragments: &[&'static str]) -> (r: bool)
    ensures
        r == says(e@, fragments@),
{
    match &e.message {
        Some(m) => {
            let low = lower_text(m.as_str());
            has_any(fragments, low.as_str())
        },
        None => false,
    }
}

fn error_is_about(e: &ProviderApiError, params: &[&'static str]) -> (r: bool)
    ensures
        r == is_about(e@, params@),
{
    match &e.param {
        Some(p) => {
            let low = lower_text(p.as_str());
            is_listed(params, low.as_str())
        },
        None => error_says(e, params),
    }
}

/// The part of a request that an error is about.
#[derive(Clone, Copy, Debug, PartialEq, Eq, Structural)]
pub enum PayloadAdaptationAxis {
    TokenField,
    ReasoningField,
    TemperatureField,
}

/// The part of a request that a provider does not support, where an error says so.
pub open spec fn refused_part(e: ApiErrorView, a: PayloadAdaptationContract) -> Option<
    PayloadAdaptationAxis,
> {
    let unsupported = says(e, a.unsupported_parameter_message_fragments@);
    if unsupported && is_about(e, a.token_error_parameters@) {
        Some(PayloadAdaptationAxis::TokenField)
    } else if unsupported && is_about(e, a.reasoning_error_parameters@) {
        Some(PayloadAdaptationAxis::ReasoningField)
    } else if (unsupported || says(e, a.temperature_default_only_fragments@)) && is_about(
        e,
        a.temperature_error_parameters@,
    ) {
        Some(PayloadAdaptationAxis::TemperatureField)
    } else {
        None
    }
}

/// The part of a request that a provider does not support, where an error says so.
pub fn classify_payload_adaptation_axis(
    e: &ProviderApiError,
    a: &PayloadAdaptationContract,
) -> (r: Option<PayloadAdaptationAxis>)
    ensures
        r == refused_part(e@, *a),
{
    let unsupported = error_says(e, &a.unsupported_parameter_message_fragments);
    if unsupported && error_is_about(e, &a.token_error_parameters) {
        return Some(PayloadAdaptationAxis::TokenField);
    }
    if unsupported && error_is_about(e, &a.reasoning_error_parameters) {
        return Some(PayloadAdaptationAxis::ReasoningField);
    }
    if (unsupported || error_says(e, &a.temperature_default_only_fragments)) && error_is_about(
        e,
        &a.temperature_error_parameters,
    ) {
        return Some(PayloadAdaptationAxis::TemperatureField);
    }
    None
}

/// Whether a provider refused the tools of a request.
pub open spec fn refuses_tools(e: ApiErrorView, c: ErrorClassificationContract) -> bool {
    says(e, c.unsupported_parameter_message_fragments@) && (is_about(
        e,
        c.tool_schema_error_parameters@,
    ) || says(e, c.tool_schema_error_fragments@))
}

/// Whether a provider refused the tools of a request.
pub fn should_disable_tool_schema_for_error(
    e: &ProviderApiError,
    contract: &ProviderRuntimeContract,
) -> (r: bool)
    ensures
        r == refuses_tools(e@, contract.error_classification),
{
    let c = &contract.error_classification;
    error_says(e, &c.unsupported_parameter_message_fragments) && (error_is_about(
        e,
        &c.tool_schema_error_parameters,
    ) || error_says(e, &c.tool_schema_error_fragments))
}

/// Whether a provider does not have a model, or not at this endpoint.
pub open spec fn refuses_model(e: ApiErrorView, c: ErrorClassificationContract) -> bool {
    ||| (e.code matches Some(code) && listed(c.model_not_found_codes@, text::lower(code)))
    ||| says(e, c.model_mismatch_message_fragments@)
}

/// Whether a provider does not have a model, or not at this endpoint.
pub fn should_try_next_model_on_error(
    e: &ProviderApiError,
    contract: &ProviderRuntimeContract,
) -> (r: bool)
    ensures
        r == refuses_model(e@, contract.error_classification),
{
    let c = &contract.error_classification;
    if let Some(code) = &e.code {
        let low = lower_text(code.as_str());
        if is_listed(&c.model_not_found_codes, low.as_str()) {
            return true;
        }
    }
    error_says(e, &c.model_mismatch_message_fragments)
}

// Payloads.

/// The fields that a request holds.
#[derive(Clone, Copy, Debug, PartialEq, Eq, Structural)]
pub struct CompletionPayloadMode {
    pub token_field: TokenLimitField,
    pub reasoning_field: ReasoningField,
    pub temperature_field: TemperatureField,
}

impl CompletionPayloadMode {
    /// The fields of a first request.
    pub open spec fn first(c: ProviderRuntimeContract) -> CompletionPayloadMode {
        CompletionPayloadMode {
            token_field: c.default_token_field,
            reasoning_field: c.default_reasoning_field,
            temperature_field: c.default_temperature_field,
        }
    }

    /// The fields of a first request.
    pub fn default_for_contract(contract: &ProviderRuntimeContract) -> (r: CompletionPayloadMode)
        ensures
            r == CompletionPayloadMode::first(*contract),
    {
        CompletionPayloadMode {
            token_field: contract.default_token_field,
            reasoning_field: contract.default_reasoning_field,
            temperature_field: contract.default_temperature_field,
        }
    }

    /// The fields of a first request to a provider.
    pub fn default_for(provider: &ProviderConfig) -> (r: CompletionPayloadMode)
        ensures
            r == CompletionPayloadMode::first(
                contract_of(provider.kind, provider.profile_health_mode),
            ),
    {
        let contract = provider_runtime_contract(provider);
        CompletionPayloadMode::default_for_contract(&contract)
    }
}

/// What stands behind the first `field` of a progression, where that is another.
pub open spec fn token_after(p: Seq<TokenLimitField>, field: TokenLimitField) -> Option<
    TokenLimitField,
>
    decreases p.len(),
{
    if p.len() == 0 {
        None
    } else if p[0] == field {
        if p.len() > 1 && p[1] != field {
            Some(p[1])
        } else {
            None
        }
    } else {
        token_after(p.skip(1), field)
    }
}

/// What stands behind the first `field` of a progression, where that is another.
pub open spec fn reasoning_after(p: Seq<ReasoningField>, field: ReasoningField) -> Option<
    ReasoningField,
>
    decreases p.len(),
{
    if p.len() == 0 {
        None
    } else if p[0] == field {
        if p.len() > 1 && p[1] != field {
            Some(p[1])
        } else {
            None
        }
    } else {
        reasoning_after(p.skip(1), field)
    }
}

fn next_token_field(p: &[TokenLimitField; 4], field: TokenLimitField) -> (r: Option<
    TokenLimitField,
>)
    ensures
        r == token_after(p@, field),
{
    let mut i: usize = 0;
    assert(p@.skip(0) =~= p@);
    while i < 4
        invariant
            i <= 4,
            p@.len() == 4,
            token_after(p@, field) == token_after(p@.skip(i as int), field),
        decreases 4 - i,
    {
        assert(p@.skip(i as int)[0] == p@[i as int]);
        assert(p@.skip(i as int).skip(1) =~= p@.skip(i + 1));
        if p[i] == field {
            if i < 3 && p[i + 1] != field {
                return Some(p[i + 1]);
            }
            return None;
        }
        i += 1;
    }
    None
}

fn next_reasoning_field(p: &[ReasoningField; 3], field: ReasoningField) -> (r: Option<
    ReasoningField,
>)
    ensures
        r == reasoning_after(p@, field),
{
    let mut i: usize = 0;
    assert(p@.skip(0) =~= p@);
    while i < 3
        invariant
            i <= 3,
            p@.len() == 3,
            reasoning_after(p@, field) == reasoning_after(p@.skip(i as int), field),
        decreases 3 - i,
    {
        assert(p@.skip(i as int)[0] == p@[i as int]);
        assert(p@.skip(i as int).skip(1) =~= p@.skip(i + 1));
        if p[i] == field {
            if i < 2 && p[i + 1] != field {
                return Some(p[i + 1]);
            }
            return None;
        }
        i += 1;
    }
    None
}

/// The fields of the next request, where an error says what to change and there is
/// something to change it to.
pub open spec fn adapted(
    mode: CompletionPayloadMode,
    max_tokens: Option<u32>,
    effort: Option<ReasoningEffort>,
    contract: ProviderRuntimeContract,
    e: ApiErrorView,
) -> Option<CompletionPayloadMode> {
    let a = contract.payload_adaptation;
    match refused_part(e, a) {
        Some(PayloadAdaptationAxis::TokenField) => if max_tokens is None {
            None
        } else {
            match token_after(a.token_field_progression@, mode.token_field) {
                Some(f) => Some(CompletionPayloadMode { token_field: f, ..mode }),
                None => None,
            }
        },
        Some(PayloadAdaptationAxis::ReasoningField) => if effort is None {
            None
        } else {
            match reasoning_after(a.reasoning_field_progression@, mode.reasoning_field) {
                Some(f) => Some(CompletionPayloadMode { reasoning_field: f, ..mode }),
                None => None,
            }
        },
        Some(PayloadAdaptationAxis::TemperatureField) => if mode.temperature_field
            == TemperatureField::Include {
            Some(CompletionPayloadMode { temperature_field: TemperatureField::Omit, ..mode })
        } else {
            None
        },
        None => None,
    }
}

/// The fields of the next request, where an error says what to change and there is
/// something to change it to.
pub fn adapt_payload_mode_for_error(
    mode: CompletionPayloadMode,
    provider: &ProviderConfig,
    contract: &ProviderRuntimeContract,
    e: &ProviderApiError,
) -> (r: Option<CompletionPayloadMode>)
    ensures
        r == adapted(mode, provider.max_tokens, provider.reasoning_effort, *contract, e@),
{
    let a = &contract.payload_adaptation;
    match classify_payload_adaptation_axis(e, a) {
        Some(PayloadAdaptationAxis::TokenField) => {
            if provider.max_tokens.is_none() {
                return None;
            }
            match next_token_field(&a.token_field_progression, mode.token_field) {
                Some(f) => Some(
                    CompletionPayloadMode {
                        token_field: f,
                        reasoning_field: mode.reasoning_field,
                        temperature_field: mode.temperature_field,
                    },
                ),
                None => None,
            }
        },
        Some(PayloadAdaptationAxis::ReasoningField) => {
            if provider.reasoning_effort.is_none() {
                return None;
            }
            match next_reasoning_field(&a.reasoning_field_progression, mode.reasoning_field) {
                Some(f) => Some(
                    CompletionPayloadMode {
                        token_field: mode.token_field,
                        reasoning_field: f,
                        temperature_field: mode.temperature_field,
                    },
                ),
                None => None,
            }
        },
        Some(PayloadAdaptationAxis::TemperatureField) => {
            if mode.temperature_field == TemperatureField::Include {
                Some(
                    CompletionPayloadMode {
                        token_field: mode.token_field,
                        reasoning_field: mode.reasoning_field,
                        temperature_field: TemperatureField::Omit,
                    },
                )
            } else {
                None
            }
        },
        None => None,
    }
}

/// How far a token field stands in the progression of a provider.
pub open spec fn token_rank(kind: ProviderKind, field: TokenLimitField) -> int {
    match field {
        TokenLimitField::Omit => 2,
        TokenLimitField::MaxCompletionTokens => if kind == ProviderKind::Openai {
            0
        } else {
            1
        },
        TokenLimitField::MaxTokens => if kind == ProviderKind::Openai {
            1
        } else {
            0
        },
    }
}

/// How far the fields of a request stand from those of a first one.
pub open spec fn mode_rank(kind: ProviderKind, mode: CompletionPayloadMode) -> int {
    token_rank(kind, mode.token_field) + (match mode.reasoning_field {
        ReasoningField::ReasoningEffort => 0int,
        ReasoningField::ReasoningObject => 1,
        ReasoningField::Omit => 2,
    }) + (match mode.temperature_field {
        TemperatureField::Include => 0int,
        TemperatureField::Omit => 1,
    })
}

/// Every change of a request moves one step on and none back, whatever the errors of a
/// provider say, so that a request is changed five times at most.
pub proof fn law_adaptation_moves_on(
    kind: ProviderKind,
    config: ProviderProfileHealthModeConfig,
    mode: CompletionPayloadMode,
    max_tokens: Option<u32>,
    effort: Option<ReasoningEffort>,
    e: ApiErrorView,
)
    requires
        adapted(mode, max_tokens, effort, contract_of(kind, config), e) is Some,
    ensures
        mode_rank(kind, adapted(mode, max_tokens, effort, contract_of(kind, config), e)->0)
            == mode_rank(kind, mode) + 1,
        mode_rank(kind, adapted(mode, max_tokens, effort, contract_of(kind, config), e)->0) <= 5,
{
    let c = contract_of(kind, config);
    let p = c.payload_adaptation.token_field_progression@;
    let q = c.payload_adaptation.reasoning_field_progression@;
    reveal_with_fuel(token_after, 5);
    reveal_with_fuel(reasoning_after, 4);
    assert(p.skip(1)[0] == p[1] && p.skip(1)[1] == p[2]);
    assert(p.skip(1).skip(1) =~= p.skip(2));
    assert(p.skip(2)[0] == p[2] && p.skip(2)[1] == p[3]);
    assert(q.skip(1)[0] == q[1] && q.skip(1)[1] == q[2]);
    assert(q.skip(1).skip(1) =~= q.skip(2));
    assert(q.skip(2)[0] == q[2]);
}

} // verus!
