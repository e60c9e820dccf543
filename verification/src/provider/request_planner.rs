//! What is done after a request that failed.
use crate::provider::contracts;
use crate::provider::contracts::{
    classify_payload_adaptation_axis, should_disable_tool_schema_for_error,
    should_try_next_model_on_error, ApiErrorView, ProviderApiError, ProviderCapabilityContract,
    ProviderRuntimeContract,
};
use crate::provider::failover::ProviderFailoverReason;
use vstd::prelude::*;

verus! {

/// How often and how fast requests are made again.
#[derive(Clone, Copy, Debug, PartialEq, Eq, Structural)]
pub struct ProviderRequestPolicy {
    pub max_attempts: usize,
    pub initial_backoff_ms: u64,
    pub max_backoff_ms: u64,
}

impl Default for ProviderRequestPolicy {
    fn default() -> (r: ProviderRequestPolicy)
        ensures
            r.max_attempts == 3,
            r.initial_backoff_ms == 300,
            r.max_backoff_ms == 3000,
    {
        ProviderRequestPolicy { max_attempts: 3, initial_backoff_ms: 300, max_backoff_ms: 3000 }
    }
}

/// Twice a time of waiting, up to a limit.
pub open spec fn doubled(backoff_ms: int, max_backoff_ms: int) -> int {
    if 2 * backoff_ms <= max_backoff_ms {
        2 * backoff_ms
    } else {
        max_backoff_ms
    }
}

/// The next time of waiting: twice the last, up to a limit.
pub fn next_backoff_ms(backoff_ms: u64, max_backoff_ms: u64) -> (r: u64)
    ensures
        r == doubled(backoff_ms as int, max_backoff_ms as int),
{
    if backoff_ms <= max_backoff_ms / 2 {
        backoff_ms * 2
    } else {
        max_backoff_ms
    }
}

/// Whether a request may succeed when it is made again: it took too long, there were too
/// many, or the server failed.
pub open spec fn is_passing(status: u16) -> bool {
    status == 408 || status == 429 || 500 <= status <= 599
}

/// Whether the server failed.
pub open spec fn is_server_status(status: u16) -> bool {
    500 <= status <= 599
}

/// The milliseconds of a number of seconds, up to the greatest number.
pub open spec fn millis(seconds: int) -> int {
    if 1000 * seconds <= u64::MAX {
        1000 * seconds
    } else {
        u64::MAX as int
    }
}

fn seconds_as_millis(seconds: u64) -> (r: u64)
    ensures
        r == millis(seconds as int),
{
    if seconds <= u64::MAX / 1000 {
        seconds * 1000
    } else {
        u64::MAX
    }
}

/// What is done after an answer with a status that is no success.
#[derive(Clone, Copy, Debug, PartialEq, Eq, Structural)]
pub enum ModelRequestStatusPlan {
    Retry { delay_ms: u64, next_backoff_ms: u64 },
    TryNextModel,
    Fail,
}

/// How long to wait before the same request is made again: as long as the server asks,
/// else the time of waiting.
pub open spec fn delay(retry_after_s: Option<u64>, backoff_ms: u64) -> int {
    match retry_after_s {
        Some(s) => millis(s as int),
        None => backoff_ms as int,
    }
}

/// What is done after an answer with a status that is no success. The request is made
/// again where that may help and attempts are left. Otherwise another model is tried
/// where any may be taken and the provider says that it does not have this one.
pub open spec fn status_plan(
    status: u16,
    retry_after_s: Option<u64>,
    e: ApiErrorView,
    attempt: int,
    policy: ProviderRequestPolicy,
    backoff_ms: u64,
    auto_model_mode: bool,
    contract: ProviderRuntimeContract,
) -> ModelRequestStatusPlan {
    if is_passing(status) && attempt < policy.max_attempts {
        ModelRequestStatusPlan::Retry {
            delay_ms: delay(retry_after_s, backoff_ms) as u64,
            next_backoff_ms: doubled(
                delay(retry_after_s, backoff_ms),
                policy.max_backoff_ms as int,
            ) as u64,
        }
    } else if auto_model_mode && !is_server_status(status) && contracts::refuses_model(
        e,
        contract.error_classification,
    ) {
        ModelRequestStatusPlan::TryNextModel
    } else {
        ModelRequestStatusPlan::Fail
    }
}

/// What is done after an answer with a status that is no success.
pub fn plan_model_request_status(
    status: u16,
    retry_after_s: Option<u64>,
    api_error: &ProviderApiError,
    attempt: usize,
    policy: &ProviderRequestPolicy,
    backoff_ms: u64,
    auto_model_mode: bool,
    contract: &ProviderRuntimeContract,
) -> (r: ModelRequestStatusPlan)
    ensures
        r == status_plan(
            status,
            retry_after_s,
            api_error@,
            attempt as int,
            *policy,
            backoff_ms,
            auto_model_mode,
            *contract,
        ),
{
    let server = 500 <= status && status <= 599;
    if (status == 408 || status == 429 || server) && attempt < policy.max_attempts {
        let delay_ms: u64 = match retry_after_s {
            Some(s) => seconds_as_millis(s),
            None => backoff_ms,
        };
        return ModelRequestStatusPlan::Retry {
            delay_ms,
            next_backoff_ms: next_backoff_ms(delay_ms, policy.max_backoff_ms),
        };
    }
    if auto_model_mode && !server && should_try_next_model_on_error(api_error, contract) {
        return ModelRequestStatusPlan::TryNextModel;
    }
    ModelRequestStatusPlan::Fail
}

/// Why a request with a given answer failed. The status decides first, then what the
/// provider says.
pub open spec fn status_reason(
    status: u16,
    e: ApiErrorView,
    contract: ProviderRuntimeContract,
    capability: ProviderCapabilityContract,
) -> ProviderFailoverReason {
    if status == 429 {
        ProviderFailoverReason::RateLimited
    } else if status == 401 || status == 403 {
        ProviderFailoverReason::AuthRejected
    } else if is_server_status(status) {
        ProviderFailoverReason::ProviderOverloaded
    } else if contracts::refused_part(e, contract.payload_adaptation) is Some {
        ProviderFailoverReason::PayloadIncompatible
    } else if capability.downgrades_tools() && contracts::refuses_tools(
        e,
        contract.error_classification,
    ) {
        ProviderFailoverReason::PayloadIncompatible
    } else if contracts::refuses_model(e, contract.error_classification) {
        ProviderFailoverReason::ModelMismatch
    } else {
        ProviderFailoverReason::RequestRejected
    }
}

/// Why a request with a given answer failed.
pub fn classify_model_status_failure_reason_with_capability(
    status: u16,
    api_error: &ProviderApiError,
    contract: &ProviderRuntimeContract,
    capability: &ProviderCapabilityContract,
) -> (r: ProviderFailoverReason)
    ensures
        r == status_reason(status, api_error@, *contract, *capability),
{
    if status == 429 {
        return ProviderFailoverReason::RateLimited;
    }
    if status == 401 || status == 403 {
        return ProviderFailoverReason::AuthRejected;
    }
    if 500 <= status && status <= 599 {
        return ProviderFailoverReason::ProviderOverloaded;
    }
    if classify_payload_adaptation_axis(api_error, &contract.payload_adaptation).is_some() {
        return ProviderFailoverReason::PayloadIncompatible;
    }
    if capability.tool_schema_downgrade_on_unsupported() && should_disable_tool_schema_for_error(
        api_error,
        contract,
    ) {
        return ProviderFailoverReason::PayloadIncompatible;
    }
    if should_try_next_model_on_error(api_error, contract) {
        return ProviderFailoverReason::ModelMismatch;
    }
    ProviderFailoverReason::RequestRejected
}

/// Why a request with a given answer failed, for what the provider can do by default.
pub fn classify_model_status_failure_reason(
    status: u16,
    api_error: &ProviderApiError,
    contract: &ProviderRuntimeContract,
) -> (r: ProviderFailoverReason)
    ensures
        r == status_reason(status, api_error@, *contract, contract.capability),
{
    classify_model_status_failure_reason_with_capability(
        status,
        api_error,
        contract,
        &contract.capability,
    )
}

/// After an answer with a status that is no success.
#[derive(Clone, Copy, Debug, PartialEq, Eq, Structural)]
pub enum ModelStatusOutcome {
    Retry { delay_ms: u64, next_backoff_ms: u64 },
    TryNextModel,
    Fail { reason: ProviderFailoverReason },
}

/// What is done after an answer with a status that is no success, and why where the
/// request has failed.
pub open spec fn status_outcome(
    status: u16,
    retry_after_s: Option<u64>,
    e: ApiErrorView,
    attempt: int,
    policy: ProviderRequestPolicy,
    backoff_ms: u64,
    auto_model_mode: bool,
    contract: ProviderRuntimeContract,
    capability: ProviderCapabilityContract,
) -> ModelStatusOutcome {
    match status_plan(
        status,
        retry_after_s,
        e,
        attempt,
        policy,
        backoff_ms,
        auto_model_mode,
        contract,
    ) {
        ModelRequestStatusPlan::Retry { delay_ms, next_backoff_ms } => {
            ModelStatusOutcome::Retry { delay_ms, next_backoff_ms }
        },
        ModelRequestStatusPlan::TryNextModel => ModelStatusOutcome::TryNextModel,
        ModelRequestStatusPlan::Fail => ModelStatusOutcome::Fail {
            reason: status_reason(status, e, contract, capability),
        },
    }
}

/// What is done after an answer with a status that is no success, and why where the
/// request has failed.
pub fn plan_model_status_outcome(
    status: u16,
    retry_after_s: Option<u64>,
    api_error: &ProviderApiError,
    attempt: usize,
    policy: &ProviderRequestPolicy,
    backoff_ms: u64,
    auto_model_mode: bool,
    contract: &ProviderRuntimeContract,
    capability: &ProviderCapabilityContract,
) -> (r: ModelStatusOutcome)
    ensures
        r == status_outcome(
            status,
            retry_after_s,
            api_error@,
            attempt as int,
            *policy,
            backoff_ms,
            auto_model_mode,
            *contract,
            *capability,
        ),
{
    match plan_model_request_status(
        status,
        retry_after_s,
        api_error,
        attempt,
        policy,
        backoff_ms,
        auto_model_mode,
        contract,
    ) {
        ModelRequestStatusPlan::Retry { delay_ms, next_backoff_ms } => {
            ModelStatusOutcome::Retry { delay_ms, next_backoff_ms }
        },
        ModelRequestStatusPlan::TryNextModel => ModelStatusOutcome::TryNextModel,
        ModelRequestStatusPlan::Fail => ModelStatusOutcome::Fail {
            reason: classify_model_status_failure_reason_with_capability(
                status,
                api_error,
                contract,
                capability,
            ),
        },
    }
}

/// How long to wait before a request that got no answer is made again, and the time of
/// waiting after it. `passing` says that the failure may pass.
pub open spec fn transport_retry(
    attempt: int,
    policy: ProviderRequestPolicy,
    passing: bool,
    backoff_ms: u64,
) -> Option<(u64, u64)> {
    if passing && attempt < policy.max_attempts {
        Some((backoff_ms, doubled(backoff_ms as int, policy.max_backoff_ms as int) as u64))
    } else {
        None
    }
}

/// How long to wait before a request that got no answer is made again, and the time of
/// waiting after it.
pub fn plan_transport_error_retry(
    attempt: usize,
    policy: &ProviderRequestPolicy,
    passing: bool,
    backoff_ms: u64,
) -> (r: Option<(u64, u64)>)
    ensures
        r == transport_retry(attempt as int, *policy, passing, backoff_ms),
{
    if passing && attempt < policy.max_attempts {
        Some((backoff_ms, next_backoff_ms(backoff_ms, policy.max_backoff_ms)))
    } else {
        None
    }
}

/// A failed server never has another model tried: it is asked again, or the request
/// fails.
pub proof fn law_server_failures_keep_the_model(
    status: u16,
    retry_after_s: Option<u64>,
    e: ApiErrorView,
    attempt: int,
    policy: ProviderRequestPolicy,
    backoff_ms: u64,
    auto_model_mode: bool,
    contract: ProviderRuntimeContract,
    capability: ProviderCapabilityContract,
)
    requires
        is_server_status(status),
    ensures
        status_outcome(
            status,
            retry_after_s,
            e,
            attempt,
            policy,
            backoff_ms,
            auto_model_mode,
            contract,
            capability,
        ) == (if attempt < policy.max_attempts {
            ModelStatusOutcome::Retry {
                delay_ms: delay(retry_after_s, backoff_ms) as u64,
                next_backoff_ms: doubled(
                    delay(retry_after_s, backoff_ms),
                    policy.max_backoff_ms as int,
                ) as u64,
            }
        } else {
            ModelStatusOutcome::Fail { reason: ProviderFailoverReason::ProviderOverloaded }
        }),
{
}

/// Without the choice of a model no other one is tried.
pub proof fn law_chosen_model_is_kept(
    status: u16,
    retry_after_s: Option<u64>,
    e: ApiErrorView,
    attempt: int,
    policy: ProviderRequestPolicy,
    backoff_ms: u64,
    contract: ProviderRuntimeContract,
    capability: ProviderCapabilityContract,
)
    ensures
        status_outcome(
            status,
            retry_after_s,
            e,
            attempt,
            policy,
            backoff_ms,
            false,
            contract,
            capability,
        ) != ModelStatusOutcome::TryNextModel,
{
}

} // verus!
