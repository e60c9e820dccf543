//! Decisions that the ways to run a turn share.
use crate::conversation::{ProviderTurn, TurnResult};
use crate::text;
use crate::text::{cat, cat3, cat5, decimal_text};
use vstd::prelude::*;

verus! {

/// How an error of the provider reaches the user.
#[derive(Clone, Copy, PartialEq, Eq, Structural)]
pub enum ProviderErrorMode {
    /// The turn fails with the error.
    Propagate,
    /// The error becomes the reply.
    InlineMessage,
}

/// How a reply is kept.
#[derive(Clone, Copy, Debug, PartialEq, Eq, Structural)]
pub enum ReplyPersistenceMode {
    Success,
    InlineProviderError,
}

/// What to do with the answer to a request for a turn.
pub enum ProviderTurnRequestAction {
    Continue { turn: ProviderTurn },
    FinalizeInlineProviderError { reply: String },
    ReturnError { error: String },
}

/// What to do with the answer to a request for a turn: go on with it, or let its
/// error be the reply, or fail.
pub fn decide_provider_turn_request_action(
    result: Result<ProviderTurn, String>,
    error_mode: ProviderErrorMode,
) -> (r: ProviderTurnRequestAction)
    ensures
        (match result {
            Ok(turn) => r == (ProviderTurnRequestAction::Continue { turn }),
            Err(error) => match error_mode {
                ProviderErrorMode::Propagate => r == (ProviderTurnRequestAction::ReturnError {
                    error,
                }),
                ProviderErrorMode::InlineMessage => {
                    &&& r is FinalizeInlineProviderError
                    &&& r->reply@ == "[provider_error] "@ + error@
                },
            },
        }),
{
    match result {
        Ok(turn) => ProviderTurnRequestAction::Continue { turn },
        Err(error) => match error_mode {
            ProviderErrorMode::Propagate => ProviderTurnRequestAction::ReturnError { error },
            ProviderErrorMode::InlineMessage => ProviderTurnRequestAction::FinalizeInlineProviderError {
                reply: cat("[provider_error] ", error.as_str()),
            },
        },
    }
}

/// The reply of the circuit breaker, which trips above `limit` tool calls.
pub open spec fn circuit_breaker_reply(total: int, limit: int) -> Option<Seq<char>> {
    if total <= limit {
        None
    } else {
        Some(
            "tool_loop_circuit_breaker: would exceed "@ + text::decimal(total as nat) + "/"@
                + text::decimal(limit as nat)
                + " tool calls this turn. Do you want to continue? Reply to resume."@,
        )
    }
}

/// The reply of the circuit breaker, where it trips.
pub fn tool_loop_circuit_breaker_reply(total_tool_calls: usize, max_total_tool_calls: usize) -> (r:
    Option<String>)
    ensures
        text::opt_text(r) == circuit_breaker_reply(
            total_tool_calls as int,
            max_total_tool_calls as int,
        ),
{
    if total_tool_calls <= max_total_tool_calls {
        return None;
    }
    let total = decimal_text(total_tool_calls as u64);
    let limit = decimal_text(max_total_tool_calls as u64);
    Some(
        cat5(
            "tool_loop_circuit_breaker: would exceed ",
            total.as_str(),
            "/",
            limit.as_str(),
            " tool calls this turn. Do you want to continue? Reply to resume.",
        ),
    )
}

/// Whether another round may follow the one that is under way.
#[derive(Clone, Copy, Debug, PartialEq, Eq, Structural)]
pub enum TurnRoundBudgetDecision {
    ContinueWithFollowup,
    FinalizeWithCompletionPass,
}

/// The place of a round among those that are allowed.
#[derive(Clone, Copy)]
pub struct TurnRoundBudget {
    pub round_index: usize,
    pub max_rounds: usize,
}

impl TurnRoundBudget {
    pub fn for_round_index(round_index: usize, max_rounds: usize) -> (r: Self)
        ensures
            r.round_index == round_index,
            r.max_rounds == max_rounds,
    {
        TurnRoundBudget { round_index, max_rounds }
    }

    /// Whether another round may follow.
    pub open spec fn has_followup(&self) -> bool {
        self.round_index + 1 < self.max_rounds
    }

    pub fn followup_decision(&self) -> (r: TurnRoundBudgetDecision)
        ensures
            r == (if self.has_followup() {
                TurnRoundBudgetDecision::ContinueWithFollowup
            } else {
                TurnRoundBudgetDecision::FinalizeWithCompletionPass
            }),
    {
        if self.max_rounds > 0 && self.round_index < self.max_rounds - 1 {
            TurnRoundBudgetDecision::ContinueWithFollowup
        } else {
            TurnRoundBudgetDecision::FinalizeWithCompletionPass
        }
    }
}

/// What the tools of a round hand to the next request.
pub enum ToolDrivenFollowupPayload {
    ToolResult { text: String },
    ToolFailure { reason: String },
}

/// What a `ToolDrivenFollowupPayload` is.
pub enum PayloadView {
    ToolResult(Seq<char>),
    ToolFailure(Seq<char>),
}

impl ToolDrivenFollowupPayload {
    pub open spec fn view(&self) -> PayloadView {
        match self {
            ToolDrivenFollowupPayload::ToolResult { text } => PayloadView::ToolResult(text@),
            ToolDrivenFollowupPayload::ToolFailure { reason } => PayloadView::ToolFailure(reason@),
        }
    }

    /// The label of the payload, and its text.
    pub fn message_context(&self) -> (r: (&'static str, &str))
        ensures
            (match self@ {
                PayloadView::ToolResult(s) => r.0@ == "tool_result"@ && r.1@ == s,
                PayloadView::ToolFailure(s) => r.0@ == "tool_failure"@ && r.1@ == s,
            }),
    {
        match self {
            ToolDrivenFollowupPayload::ToolResult { text } => ("tool_result", text.as_str()),
            ToolDrivenFollowupPayload::ToolFailure { reason } => ("tool_failure", reason.as_str()),
        }
    }
}

/// Two texts on lines of their own; an empty one has none.
pub open spec fn join_lines(a: Seq<char>, b: Seq<char>) -> Seq<char> {
    if a.len() == 0 {
        b
    } else if b.len() == 0 {
        a
    } else {
        a + "\n"@ + b
    }
}

/// Two texts on lines of their own; an empty one has none.
pub fn join_non_empty_lines(a: &str, b: &str) -> (r: String)
    ensures
        r@ == join_lines(a@, b@),
{
    if a.is_empty() {
        b.to_owned()
    } else if b.is_empty() {
        a.to_owned()
    } else {
        cat3(a, "\n", b)
    }
}

/// What the reply of a round rests on.
pub enum ToolDrivenReplyBaseDecision {
    FinalizeDirect { reply: String },
    RequireFollowup { raw_reply: String, payload: ToolDrivenFollowupPayload },
}

/// What a `ToolDrivenReplyBaseDecision` is.
pub enum BaseDecisionView {
    FinalizeDirect(Seq<char>),
    RequireFollowup(Seq<char>, PayloadView),
}

impl ToolDrivenReplyBaseDecision {
    pub open spec fn view(&self) -> BaseDecisionView {
        match self {
            ToolDrivenReplyBaseDecision::FinalizeDirect { reply } => BaseDecisionView::FinalizeDirect(
                reply@,
            ),
            ToolDrivenReplyBaseDecision::RequireFollowup { raw_reply, payload } =>
                BaseDecisionView::RequireFollowup(raw_reply@, payload@),
        }
    }
}

/// The text of what came of a turn.
pub open spec fn result_text(result: TurnResult) -> Seq<char> {
    match result {
        TurnResult::FinalText(s) => s@,
        TurnResult::StreamingText(s) => s@,
        TurnResult::StreamingDone(s) => s@,
        TurnResult::NeedsApproval(a) => a.reason@,
        TurnResult::ToolDenied(f) => f.reason@,
        TurnResult::ToolError(f) => f.reason@,
        TurnResult::ProviderError(f) => f.reason@,
    }
}

/// What the tools of a round hand to the next request, where they ran or failed.
pub open spec fn result_payload(result: TurnResult) -> Option<PayloadView> {
    match result {
        TurnResult::FinalText(s) => Some(PayloadView::ToolResult(s@)),
        TurnResult::StreamingText(s) => Some(PayloadView::ToolResult(s@)),
        TurnResult::StreamingDone(s) => Some(PayloadView::ToolResult(s@)),
        TurnResult::ToolDenied(f) => Some(PayloadView::ToolFailure(f.reason@)),
        TurnResult::ToolError(f) => Some(PayloadView::ToolFailure(f.reason@)),
        _ => None,
    }
}

/// What the reply of a round rests on: without tools its text; with tools that ran
/// or failed a further request, unless their raw output was asked for.
pub open spec fn base_decision(
    preface: Seq<char>,
    had_tool_intents: bool,
    raw_requested: bool,
    result: TurnResult,
) -> BaseDecisionView {
    if !had_tool_intents {
        BaseDecisionView::FinalizeDirect(result_text(result))
    } else {
        let raw = join_lines(preface, result_text(result));
        match result_payload(result) {
            Some(p) => if raw_requested {
                BaseDecisionView::FinalizeDirect(raw)
            } else {
                BaseDecisionView::RequireFollowup(raw, p)
            },
            None => BaseDecisionView::FinalizeDirect(raw),
        }
    }
}

/// The text of what came of a turn.
pub fn turn_result_text(result: &TurnResult) -> (r: &str)
    ensures
        r@ == result_text(*result),
{
    match result {
        TurnResult::FinalText(s) => s.as_str(),
        TurnResult::StreamingText(s) => s.as_str(),
        TurnResult::StreamingDone(s) => s.as_str(),
        TurnResult::NeedsApproval(a) => a.reason.as_str(),
        TurnResult::ToolDenied(f) => f.as_str(),
        TurnResult::ToolError(f) => f.as_str(),
        TurnResult::ProviderError(f) => f.as_str(),
    }
}

/// The reply of a round before the loop decides what to do with it.
pub struct ToolDrivenReplyPhase {
    pub decision: ToolDrivenReplyBaseDecision,
}

impl ToolDrivenReplyPhase {
    pub fn new(
        assistant_preface: &str,
        had_tool_intents: bool,
        raw_tool_output_requested: bool,
        turn_result: &TurnResult,
    ) -> (r: Self)
        ensures
            r.decision@ == base_decision(
                assistant_preface@,
                had_tool_intents,
                raw_tool_output_requested,
                *turn_result,
            ),
    {
        let body = turn_result_text(turn_result);
        if !had_tool_intents {
            return ToolDrivenReplyPhase {
                decision: ToolDrivenReplyBaseDecision::FinalizeDirect { reply: body.to_owned() },
            };
        }
        let raw_reply = join_non_empty_lines(assistant_preface, body);
        let payload = match turn_result {
            TurnResult::FinalText(_) | TurnResult::StreamingText(_) | TurnResult::StreamingDone(
                _,
            ) => ToolDrivenFollowupPayload::ToolResult { text: body.to_owned() },
            TurnResult::ToolDenied(_) | TurnResult::ToolError(_) => {
                ToolDrivenFollowupPayload::ToolFailure { reason: body.to_owned() }
            },
            TurnResult::NeedsApproval(_) | TurnResult::ProviderError(_) => {
                return ToolDrivenReplyPhase {
                    decision: ToolDrivenReplyBaseDecision::FinalizeDirect { reply: raw_reply },
                };
            },
        };
        if raw_tool_output_requested {
            ToolDrivenReplyPhase {
                decision: ToolDrivenReplyBaseDecision::FinalizeDirect { reply: raw_reply },
            }
        } else {
            ToolDrivenReplyPhase {
                decision: ToolDrivenReplyBaseDecision::RequireFollowup { raw_reply, payload },
            }
        }
    }

    /// The reply as the tools gave it, where a further request is due.
    pub fn raw_reply(&self) -> (r: Option<&str>)
        ensures
            text::opt_str(r) == (match self.decision@ {
                BaseDecisionView::RequireFollowup(raw, _) => Some(raw),
                BaseDecisionView::FinalizeDirect(_) => None,
            }),
    {
        match &self.decision {
            ToolDrivenReplyBaseDecision::RequireFollowup { raw_reply, .. } => Some(
                raw_reply.as_str(),
            ),
            ToolDrivenReplyBaseDecision::FinalizeDirect { .. } => None,
        }
    }

    pub fn into_decision(self) -> (r: ToolDrivenReplyBaseDecision)
        ensures
            r == self.decision,
    {
        self.decision
    }
}

} // verus!
