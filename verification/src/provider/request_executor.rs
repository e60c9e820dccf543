//! A request to a model: made, adapted, made again, or given up.
use crate::json;
use crate::json::{no_entries, object, push_entry, render_json, text_value, Json, JsonView};
use crate::provider::contracts;
use crate::provider::contracts::{
    adapt_payload_mode_for_error, parse_provider_api_error, CompletionPayloadMode,
    ProviderCapabilityContract, ProviderConfig, ProviderKind, ProviderProfileHealthModeConfig,
    ProviderRuntimeContract, ReasoningEffort,
};
use crate::provider::failover;
use crate::provider::failover::{
    build_model_request_error, ModelRequestError, ProviderFailoverReason, ProviderFailoverSnapshot,
    ProviderFailoverStage, RequestErrorView, SnapshotView,
};
use crate::provider::request_planner;
use crate::provider::request_planner::{
    plan_model_status_outcome, plan_transport_error_retry, ModelStatusOutcome,
    ProviderRequestPolicy,
};
use crate::text;
use crate::text::{cat, cat3, cat4, cat5, decimal_text};
use vstd::prelude::*;

verus! {

/// What a request to a model is made with. The hints are what is said to the user where
/// the provider rejects the credentials.
pub struct ModelRequestRuntime {
    pub provider: ProviderConfig,
    pub model: String,
    pub runtime_contract: ProviderRuntimeContract,
    pub capability: ProviderCapabilityContract,
    pub auto_model_mode: bool,
    pub request_policy: ProviderRequestPolicy,
    pub auth_hint: Option<String>,
    pub region_hint: Option<String>,
}

/// A request to a model, between two answers.
pub struct ModelRequest {
    pub runtime: ModelRequestRuntime,
    pub attempt: usize,
    pub backoff_ms: u64,
    pub payload_mode: CompletionPayloadMode,
    pub tried_payload_modes: Vec<CompletionPayloadMode>,
}

/// What a `ModelRequest` is.
#[verifier::ext_equal]
pub struct RequestView {
    pub kind: ProviderKind,
    pub configured_model: Seq<char>,
    pub preferred_models: Seq<Seq<char>>,
    pub profile_health_mode: ProviderProfileHealthModeConfig,
    pub model: Seq<char>,
    pub max_tokens: Option<u32>,
    pub effort: Option<ReasoningEffort>,
    pub contract: ProviderRuntimeContract,
    pub capability: ProviderCapabilityContract,
    pub auto_model_mode: bool,
    pub policy: ProviderRequestPolicy,
    pub auth_hint: Option<Seq<char>>,
    pub region_hint: Option<Seq<char>>,
    pub attempt: int,
    pub backoff_ms: u64,
    pub mode: CompletionPayloadMode,
    pub tried: Seq<CompletionPayloadMode>,
}

impl ModelRequest {
    pub open spec fn view(&self) -> RequestView {
        RequestView {
            kind: self.runtime.provider.kind,
            configured_model: self.runtime.provider.model@,
            preferred_models: text::texts(self.runtime.provider.preferred_models@),
            profile_health_mode: self.runtime.provider.profile_health_mode,
            model: self.runtime.model@,
            max_tokens: self.runtime.provider.max_tokens,
            effort: self.runtime.provider.reasoning_effort,
            contract: self.runtime.runtime_contract,
            capability: self.runtime.capability,
            auto_model_mode: self.runtime.auto_model_mode,
            policy: self.runtime.request_policy,
            auth_hint: text::opt_text(self.runtime.auth_hint),
            region_hint: text::opt_text(self.runtime.region_hint),
            attempt: self.attempt as int,
            backoff_ms: self.backoff_ms,
            mode: self.payload_mode,
            tried: self.tried_payload_modes@,
        }
    }
}

/// What is done next with a request.
pub enum ModelRequestAction {
    /// Make the request again at once.
    Send,
    /// Make the request again after a while.
    Wait { delay_ms: u64 },
    /// Give the request up.
    Fail(ModelRequestError),
    /// The answer is what was asked for.
    Succeed,
}

/// What a `ModelRequestAction` is.
#[verifier::ext_equal]
pub enum ActionView {
    Send,
    Wait(u64),
    Fail(RequestErrorView),
    Succeed,
}

impl ModelRequestAction {
    pub open spec fn view(&self) -> ActionView {
        match self {
            ModelRequestAction::Send => ActionView::Send,
            ModelRequestAction::Wait { delay_ms } => ActionView::Wait(*delay_ms),
            ModelRequestAction::Fail(e) => ActionView::Fail(e@),
            ModelRequestAction::Succeed => ActionView::Succeed,
        }
    }
}

// Messages.

/// What is said of an attempt.
pub open spec fn attempt_text(
    head: Seq<char>,
    model: Seq<char>,
    attempt: int,
    max_attempts: int,
    tail: Seq<char>,
) -> Seq<char> {
    head + " for model `"@ + model + "` on attempt "@ + text::decimal(attempt as nat) + "/"@
        + text::decimal(max_attempts as nat) + ": "@ + tail
}

fn attempt_message(
    head: &str,
    model: &str,
    attempt: usize,
    max_attempts: usize,
    tail: &str,
) -> (r: String)
    ensures
        r@ == attempt_text(head@, model@, attempt as int, max_attempts as int, tail@),
{
    let a = decimal_text(attempt as u64);
    let m = decimal_text(max_attempts as u64);
    let start = cat5(head, " for model `", model, "` on attempt ", a.as_str());
    cat5(start.as_str(), "/", m.as_str(), ": ", tail)
}

/// A text with a hint behind it, where there is one.
pub open spec fn with_hint(s: Seq<char>, hint: Option<Seq<char>>) -> Seq<char> {
    match hint {
        Some(h) => s + " "@ + h,
        None => s,
    }
}

fn add_hint(s: String, hint: Option<&str>) -> (r: String)
    ensures
        r@ == with_hint(s@, text::opt_str(hint)),
{
    match hint {
        Some(h) => cat3(s.as_str(), " ", h),
        None => s,
    }
}

fn opt_as_str(o: &Option<String>) -> (r: Option<&str>)
    ensures
        text::opt_str(r) == text::opt_text(*o),
{
    match o {
        Some(s) => Some(s.as_str()),
        None => None,
    }
}

/// What is said of an answer with a status that is no success. Where the provider
/// rejected the credentials, the hints follow.
pub open spec fn status_text(
    auth_hint: Option<Seq<char>>,
    region_hint: Option<Seq<char>>,
    reason: ProviderFailoverReason,
    status: u16,
    model: Seq<char>,
    attempt: int,
    max_attempts: int,
    body: JsonView,
) -> Seq<char> {
    let plain = attempt_text(
        "provider returned status "@ + text::decimal(status as nat),
        model,
        attempt,
        max_attempts,
        json::rendered_json(body),
    );
    if reason == ProviderFailoverReason::AuthRejected {
        with_hint(with_hint(plain, auth_hint), region_hint)
    } else {
        plain
    }
}

/// What is said of an answer with a status that is no success.
pub fn render_status_failure_message(
    auth_hint: Option<&str>,
    region_hint: Option<&str>,
    reason: ProviderFailoverReason,
    status: u16,
    model: &str,
    attempt: usize,
    max_attempts: usize,
    body: &Json,
) -> (r: String)
    ensures
        r@ == status_text(
            text::opt_str(auth_hint),
            text::opt_str(region_hint),
            reason,
            status,
            model@,
            attempt as int,
            max_attempts as int,
            body@,
        ),
{
    let code = decimal_text(status as u64);
    let head = cat("provider returned status ", code.as_str());
    let tail = render_json(body);
    let plain = attempt_message(head.as_str(), model, attempt, max_attempts, tail.as_str());
    if reason == ProviderFailoverReason::AuthRejected {
        let hinted = add_hint(plain, auth_hint);
        add_hint(hinted, region_hint)
    } else {
        plain
    }
}

/// The entry of the debug log for a request and its answer.
pub open spec fn exchange_entries(
    ts: u64,
    model: Seq<char>,
    endpoint: Seq<char>,
    request: JsonView,
    response: Option<JsonView>,
    status: Option<u16>,
    elapsed_ms: u64,
    error: Option<Seq<char>>,
) -> Seq<(Seq<char>, JsonView)> {
    seq![
        ("ts"@, JsonView::Integer(ts as int)),
        ("model"@, JsonView::Text(model)),
        ("endpoint"@, JsonView::Text(endpoint)),
        ("request"@, request),
        (
            "response"@,
            match response {
                Some(v) => v,
                None => JsonView::Null,
            },
        ),
        (
            "status"@,
            match status {
                Some(n) => JsonView::Integer(n as int),
                None => JsonView::Null,
            },
        ),
        ("elapsed_ms"@, JsonView::Integer(elapsed_ms as int)),
        (
            "error"@,
            match error {
                Some(e) => JsonView::Text(e),
                None => JsonView::Null,
            },
        ),
    ]
}

/// The view of an optional value.
pub open spec fn opt_json(o: Option<&Json>) -> Option<JsonView> {
    match o {
        Some(v) => Some(v@),
        None => None,
    }
}

/// The entry of the debug log for a request and its answer.
pub fn provider_exchange_entry(
    ts: u64,
    model: &str,
    endpoint: &str,
    request: &Json,
    response: Option<&Json>,
    status: Option<u16>,
    elapsed_ms: u64,
    error: Option<&str>,
) -> (r: Json)
    ensures
        r@ == JsonView::Object(
            exchange_entries(
                ts,
                model@,
                endpoint@,
                request@,
                opt_json(response),
                status,
                elapsed_ms,
                text::opt_str(error),
            ),
        ),
{
    let mut v = no_entries();
    push_entry(&mut v, "ts", Json::Unsigned(ts));
    push_entry(&mut v, "model", text_value(model));
    push_entry(&mut v, "endpoint", text_value(endpoint));
    push_entry(&mut v, "request", request.duplicate());
    push_entry(
        &mut v,
        "response",
        match response {
            Some(b) => b.duplicate(),
            None => Json::Null,
        },
    );
    push_entry(
        &mut v,
        "status",
        match status {
            Some(n) => Json::Unsigned(n as u64),
            None => Json::Null,
        },
    );
    push_entry(&mut v, "elapsed_ms", Json::Unsigned(elapsed_ms));
    push_entry(
        &mut v,
        "error",
        match error {
            Some(e) => text_value(e),
            None => Json::Null,
        },
    );
    assert(json::entries(v@) =~= exchange_entries(
        ts,
        model@,
        endpoint@,
        request@,
        opt_json(response),
        status,
        elapsed_ms,
        text::opt_str(error),
    ));
    object(v)
}

// Steps.

/// Whether a status is a success.
pub open spec fn is_success(status: u16) -> bool {
    200 <= status <= 299
}

/// Whether a status is a success.
pub fn is_success_status(status: u16) -> (r: bool)
    ensures
        r == is_success(status),
{
    200 <= status && status <= 299
}

impl RequestView {
    /// What is known of the request.
    pub open spec fn snapshot(
        self,
        reason: ProviderFailoverReason,
        stage: ProviderFailoverStage,
        status_code: Option<u16>,
    ) -> SnapshotView {
        SnapshotView {
            reason,
            stage,
            model: self.model,
            attempt: self.attempt,
            max_attempts: self.policy.max_attempts as int,
            status_code,
        }
    }

    /// What is said of this attempt.
    pub open spec fn says(self, head: Seq<char>, tail: Seq<char>) -> Seq<char> {
        attempt_text(head, self.model, self.attempt, self.policy.max_attempts as int, tail)
    }

    /// The request with its next attempt begun.
    pub open spec fn begun(self) -> RequestView {
        RequestView { attempt: self.attempt + 1, ..self }
    }

    /// The error of a request that could not be made.
    pub open spec fn setup_error(self, error: Seq<char>) -> RequestErrorView {
        failover::request_error(
            self.says("provider request setup failed"@, error),
            false,
            self.snapshot(
                ProviderFailoverReason::TransportFailure,
                ProviderFailoverStage::TransportFailure,
                None,
            ),
            None,
        )
    }

    /// The error of an answer that cannot be read.
    pub open spec fn decode_error(self, error: Seq<char>) -> RequestErrorView {
        failover::request_error(
            self.says("provider response decode failed"@, error),
            false,
            self.snapshot(
                ProviderFailoverReason::ResponseDecodeFailure,
                ProviderFailoverStage::ResponseDecode,
                None,
            ),
            None,
        )
    }

    /// The error of a request that got no answer.
    pub open spec fn transport_error(
        self,
        error: Seq<char>,
        route_hint: Option<Seq<char>>,
    ) -> RequestErrorView {
        failover::request_error(
            with_hint(self.says("provider request failed"@, error), route_hint),
            false,
            self.snapshot(
                ProviderFailoverReason::TransportFailure,
                ProviderFailoverStage::TransportFailure,
                None,
            ),
            None,
        )
    }

    /// The error of an answer that lacks what was asked for.
    pub open spec fn shape_error(self, missing: Seq<char>, body: JsonView) -> RequestErrorView {
        failover::request_error(
            self.says("provider response missing "@ + missing, json::rendered_json(body)),
            false,
            self.snapshot(
                ProviderFailoverReason::ResponseShapeInvalid,
                ProviderFailoverStage::ResponseShapeInvalid,
                None,
            ),
            None,
        )
    }

    /// The error of a model that the provider does not have.
    pub open spec fn rejected_error(self, status: u16, body: JsonView) -> RequestErrorView {
        failover::request_error(
            "model `"@ + self.model
                + "` rejected by provider endpoint; trying next candidate. status "@
                + text::decimal(status as nat) + ": "@ + json::rendered_json(body),
            true,
            self.snapshot(
                ProviderFailoverReason::ModelMismatch,
                ProviderFailoverStage::ModelCandidateRejected,
                Some(status),
            ),
            Some(contracts::error_in(body)),
        )
    }

    /// The error of an answer with a status that is no success.
    pub open spec fn status_error(
        self,
        reason: ProviderFailoverReason,
        status: u16,
        body: JsonView,
    ) -> RequestErrorView {
        failover::request_error(
            status_text(
                self.auth_hint,
                self.region_hint,
                reason,
                status,
                self.model,
                self.attempt,
                self.policy.max_attempts as int,
                body,
            ),
            false,
            self.snapshot(reason, ProviderFailoverStage::StatusFailure, Some(status)),
            Some(contracts::error_in(body)),
        )
    }

    /// The fields that an answer asks for and that were not tried yet.
    pub open spec fn new_mode(self, body: JsonView) -> Option<CompletionPayloadMode> {
        match contracts::adapted(
            self.mode,
            self.max_tokens,
            self.effort,
            self.contract,
            contracts::error_in(body),
        ) {
            Some(m) => if self.tried.contains(m) {
                None
            } else {
                Some(m)
            },
            None => None,
        }
    }

    /// The request and what is done next, after an answer that refuses it. `handled` says
    /// that what is sent has changed already.
    pub open spec fn after_rejection(
        self,
        status: u16,
        retry_after_s: Option<u64>,
        body: JsonView,
        handled: bool,
    ) -> (RequestView, ActionView) {
        if handled {
            (self, ActionView::Send)
        } else {
            match self.new_mode(body) {
                Some(m) => (
                    RequestView { mode: m, tried: self.tried.push(m), ..self },
                    ActionView::Send,
                ),
                None => match request_planner::status_outcome(
                    status,
                    retry_after_s,
                    contracts::error_in(body),
                    self.attempt,
                    self.policy,
                    self.backoff_ms,
                    self.auto_model_mode,
                    self.contract,
                    self.capability,
                ) {
                    ModelStatusOutcome::Retry { delay_ms, next_backoff_ms } => (
                        RequestView { backoff_ms: next_backoff_ms, ..self },
                        ActionView::Wait(delay_ms),
                    ),
                    ModelStatusOutcome::TryNextModel => (
                        self,
                        ActionView::Fail(self.rejected_error(status, body)),
                    ),
                    ModelStatusOutcome::Fail { reason } => (
                        self,
                        ActionView::Fail(self.status_error(reason, status, body)),
                    ),
                },
            }
        }
    }

    /// The request and what is done next, after an answer. `parsed` says that the answer
    /// holds what was asked for.
    pub open spec fn after_answer(
        self,
        status: u16,
        retry_after_s: Option<u64>,
        body: JsonView,
        parsed: bool,
        missing: Seq<char>,
        handled: bool,
    ) -> (RequestView, ActionView) {
        if is_success(status) {
            if parsed {
                (self, ActionView::Succeed)
            } else {
                (self, ActionView::Fail(self.shape_error(missing, body)))
            }
        } else {
            self.after_rejection(status, retry_after_s, body, handled)
        }
    }

    /// The request and what is done next, where no answer came. `passing` says that the
    /// failure may pass.
    pub open spec fn after_transport_failure(
        self,
        error: Seq<char>,
        passing: bool,
        route_hint: Option<Seq<char>>,
    ) -> (RequestView, ActionView) {
        match request_planner::transport_retry(
            self.attempt,
            self.policy,
            passing,
            self.backoff_ms,
        ) {
            Some((delay_ms, next)) => (
                RequestView { backoff_ms: next, ..self },
                ActionView::Wait(delay_ms),
            ),
            None => (self, ActionView::Fail(self.transport_error(error, route_hint))),
        }
    }
}

impl ModelRequest {
    /// A request before its first attempt.
    pub fn new(runtime: ModelRequestRuntime) -> (r: ModelRequest)
        ensures
            r.runtime == runtime,
            r@.attempt == 0,
            r@.backoff_ms == runtime.request_policy.initial_backoff_ms,
            r@.mode == CompletionPayloadMode::first(runtime.runtime_contract),
            r@.tried == seq![CompletionPayloadMode::first(runtime.runtime_contract)],
    {
        let mode = CompletionPayloadMode::default_for_contract(&runtime.runtime_contract);
        let backoff_ms: u64 = runtime.request_policy.initial_backoff_ms;
        let mut tried: Vec<CompletionPayloadMode> = Vec::new();
        tried.push(mode);
        assert(tried@ =~= seq![mode]);
        ModelRequest {
            runtime,
            attempt: 0,
            backoff_ms,
            payload_mode: mode,
            tried_payload_modes: tried,
        }
    }

    /// Begins the next attempt. The result says what fields are sent.
    pub fn begin_attempt(&mut self) -> (r: CompletionPayloadMode)
        requires
            old(self).attempt < usize::MAX,
        ensures
            final(self)@ == old(self)@.begun(),
            final(self).runtime == old(self).runtime,
            r == old(self)@.mode,
    {
        self.attempt = self.attempt + 1;
        self.payload_mode
    }

    fn known(
        &self,
        reason: ProviderFailoverReason,
        stage: ProviderFailoverStage,
        status_code: Option<u16>,
    ) -> (r: ProviderFailoverSnapshot)
        ensures
            r@ == self@.snapshot(reason, stage, status_code),
    {
        ProviderFailoverSnapshot {
            reason,
            stage,
            model: self.runtime.model.clone(),
            attempt: self.attempt,
            max_attempts: self.runtime.request_policy.max_attempts,
            status_code,
        }
    }

    fn message(&self, head: &str, tail: &str) -> (r: String)
        ensures
            r@ == self@.says(head@, tail@),
    {
        attempt_message(
            head,
            self.runtime.model.as_str(),
            self.attempt,
            self.runtime.request_policy.max_attempts,
            tail,
        )
    }

    /// The error of a request that could not be made.
    pub fn setup_failure(&self, error: &str) -> (r: ModelRequestError)
        ensures
            r@ == self@.setup_error(error@),
    {
        let message = self.message("provider request setup failed", error);
        let known = self.known(
            ProviderFailoverReason::TransportFailure,
            ProviderFailoverStage::TransportFailure,
            None,
        );
        build_model_request_error(message.as_str(), false, known, None)
    }

    /// The error of an answer that cannot be read.
    pub fn decode_failure(&self, error: &str) -> (r: ModelRequestError)
        ensures
            r@ == self@.decode_error(error@),
    {
        let message = self.message("provider response decode failed", error);
        let known = self.known(
            ProviderFailoverReason::ResponseDecodeFailure,
            ProviderFailoverStage::ResponseDecode,
            None,
        );
        build_model_request_error(message.as_str(), false, known, None)
    }

    /// What is done next where no answer came. `passing` says that the failure may pass.
    pub fn on_transport_failure(
        &mut self,
        error: &str,
        passing: bool,
        route_hint: Option<&str>,
    ) -> (r: ModelRequestAction)
        ensures
            (final(self)@, r@) == old(self)@.after_transport_failure(
                error@,
                passing,
                text::opt_str(route_hint),
            ),
            final(self).runtime == old(self).runtime,
    {
        if let Some((delay_ms, next)) = plan_transport_error_retry(
            self.attempt,
            &self.runtime.request_policy,
            passing,
            self.backoff_ms,
        ) {
            self.backoff_ms = next;
            return ModelRequestAction::Wait { delay_ms };
        }
        let plain = self.message("provider request failed", error);
        let message = add_hint(plain, route_hint);
        let known = self.known(
            ProviderFailoverReason::TransportFailure,
            ProviderFailoverStage::TransportFailure,
            None,
        );
        ModelRequestAction::Fail(build_model_request_error(message.as_str(), false, known, None))
    }

    fn was_tried(&self, mode: CompletionPayloadMode) -> (r: bool)
        ensures
            r == self@.tried.contains(mode),
    {
        let v = &self.tried_payload_modes;
        let mut i: usize = 0;
        while i < v.len()
            invariant
                i <= v@.len(),
                v@ == self@.tried,
                forall|k: int| 0 <= k < i ==> #[trigger] v@[k] != mode,
            decreases v@.len() - i,
        {
            if v[i] == mode {
                return true;
            }
            i += 1;
        }
        false
    }

    /// What is done next after an answer. `parsed` says that the answer holds what was
    /// asked for, `missing` what it would otherwise lack, and `handled` that what is sent
    /// has changed already.
    pub fn on_answer(
        &mut self,
        status: u16,
        retry_after_s: Option<u64>,
        body: &Json,
        parsed: bool,
        missing: &str,
        handled: bool,
    ) -> (r: ModelRequestAction)
        ensures
            (final(self)@, r@) == old(self)@.after_answer(
                status,
                retry_after_s,
                body@,
                parsed,
                missing@,
                handled,
            ),
            final(self).runtime == old(self).runtime,
    {
        if is_success_status(status) {
            if parsed {
                return ModelRequestAction::Succeed;
            }
            let head = cat("provider response missing ", missing);
            let tail = render_json(body);
            let message = self.message(head.as_str(), tail.as_str());
            let known = self.known(
                ProviderFailoverReason::ResponseShapeInvalid,
                ProviderFailoverStage::ResponseShapeInvalid,
                None,
            );
            return ModelRequestAction::Fail(
                build_model_request_error(message.as_str(), false, known, None),
            );
        }
        if handled {
            return ModelRequestAction::Send;
        }
        let api_error = parse_provider_api_error(body);
        if let Some(mode) = adapt_payload_mode_for_error(
            self.payload_mode,
            &self.runtime.provider,
            &self.runtime.runtime_contract,
            &api_error,
        ) {
            if !self.was_tried(mode) {
                self.payload_mode = mode;
                self.tried_payload_modes.push(mode);
                return ModelRequestAction::Send;
            }
        }
        match plan_model_status_outcome(
            status,
            retry_after_s,
            &api_error,
            self.attempt,
            &self.runtime.request_policy,
            self.backoff_ms,
            self.runtime.auto_model_mode,
            &self.runtime.runtime_contract,
            &self.runtime.capability,
        ) {
            ModelStatusOutcome::Retry { delay_ms, next_backoff_ms } => {
                self.backoff_ms = next_backoff_ms;
                ModelRequestAction::Wait { delay_ms }
            },
            ModelStatusOutcome::TryNextModel => {
                let code = decimal_text(status as u64);
                let tail = render_json(body);
                let start = cat3(
                    "model `",
                    self.runtime.model.as_str(),
                    "` rejected by provider endpoint; trying next candidate. status ",
                );
                let end = cat4(start.as_str(), code.as_str(), ": ", tail.as_str());
                let known = self.known(
                    ProviderFailoverReason::ModelMismatch,
                    ProviderFailoverStage::ModelCandidateRejected,
                    Some(status),
                );
                ModelRequestAction::Fail(
                    build_model_request_error(end.as_str(), true, known, Some(api_error)),
                )
            },
            ModelStatusOutcome::Fail { reason } => {
                let message = render_status_failure_message(
                    opt_as_str(&self.runtime.auth_hint),
                    opt_as_str(&self.runtime.region_hint),
                    reason,
                    status,
                    self.runtime.model.as_str(),
                    self.attempt,
                    self.runtime.request_policy.max_attempts,
                    body,
                );
                let known = self.known(
                    reason,
                    ProviderFailoverStage::StatusFailure,
                    Some(status),
                );
                ModelRequestAction::Fail(
                    build_model_request_error(message.as_str(), false, known, Some(api_error)),
                )
            },
        }
    }
}

// Laws.

/// Whether no fields are tried twice and those that are sent were noted.
pub open spec fn modes_are_noted(s: RequestView) -> bool {
    &&& s.tried.contains(s.mode)
    &&& forall|i: int, j: int|
        0 <= i < j < s.tried.len() ==> #[trigger] s.tried[i] != #[trigger] s.tried[j]
}

/// Whatever the answer, no fields are sent twice for what a provider says of them: those
/// of every adapted request are new.
pub proof fn law_no_fields_are_tried_twice(
    s: RequestView,
    status: u16,
    retry_after_s: Option<u64>,
    body: JsonView,
    parsed: bool,
    missing: Seq<char>,
    handled: bool,
)
    requires
        modes_are_noted(s),
    ensures
        ({
            let next = s.after_answer(status, retry_after_s, body, parsed, missing, handled).0;
            &&& modes_are_noted(next)
            &&& next.mode != s.mode ==> !s.tried.contains(next.mode)
        }),
{
    let next = s.after_answer(status, retry_after_s, body, parsed, missing, handled).0;
    if next.tried != s.tried {
        assert(next.tried == s.tried.push(next.mode));
        assert(next.tried[s.tried.len() as int] == next.mode);
        assert forall|i: int, j: int| 0 <= i < j < next.tried.len() implies #[trigger] next.tried[i]
            != #[trigger] next.tried[j] by {
            assert(s.tried[i] == next.tried[i]);
            if j < s.tried.len() {
                assert(s.tried[j] == next.tried[j]);
            }
        }
    }
}

/// How many attempts may have begun: as many as the policy allows, at least one, and one
/// more for every change of the fields.
pub open spec fn within_budget(s: RequestView, kind: ProviderKind) -> bool {
    s.attempt <= (if s.policy.max_attempts > 1 {
        s.policy.max_attempts as int
    } else {
        1
    }) + contracts::mode_rank(kind, s.mode)
}

/// A request ends. Whatever is answered, as long as nothing but the fields of the request
/// is changed, the attempts stay within the budget, and that is five more than the policy
/// allows at most.
pub proof fn law_request_ends(
    s: RequestView,
    kind: ProviderKind,
    config: ProviderProfileHealthModeConfig,
    status: u16,
    retry_after_s: Option<u64>,
    body: JsonView,
    parsed: bool,
    missing: Seq<char>,
)
    requires
        s.contract == contracts::contract_of(kind, config),
        within_budget(s, kind),
    ensures
        ({
            let (next, action) = s.after_answer(
                status,
                retry_after_s,
                body,
                parsed,
                missing,
                false,
            );
            (action is Send || action is Wait) ==> within_budget(next.begun(), kind)
        }),
        contracts::mode_rank(kind, s.mode) <= 5,
{
    if let Some(m) = s.new_mode(body) {
        contracts::law_adaptation_moves_on(
            kind,
            config,
            s.mode,
            s.max_tokens,
            s.effort,
            contracts::error_in(body),
        );
    }
}

/// The first attempt is within the budget, and an attempt after no answer is too.
pub proof fn law_waiting_stays_within_budget(
    s: RequestView,
    kind: ProviderKind,
    error: Seq<char>,
    passing: bool,
    route_hint: Option<Seq<char>>,
)
    ensures
        s.attempt == 0 ==> within_budget(s.begun(), kind),
        s.after_transport_failure(error, passing, route_hint).1 is Wait ==> within_budget(
            s.after_transport_failure(error, passing, route_hint).0.begun(),
            kind,
        ),
{
}

/// The time of waiting never grows beyond the limit of the policy once the request has
/// waited.
pub proof fn law_backoff_is_capped(
    s: RequestView,
    status: u16,
    retry_after_s: Option<u64>,
    body: JsonView,
    parsed: bool,
    missing: Seq<char>,
    handled: bool,
)
    ensures
        ({
            let (next, action) = s.after_answer(
                status,
                retry_after_s,
                body,
                parsed,
                missing,
                handled,
            );
            action is Wait ==> next.backoff_ms <= s.policy.max_backoff_ms
        }),
{
}

} // verus!
