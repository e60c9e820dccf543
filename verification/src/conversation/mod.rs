//! Conversations: turns of the provider, and the loop that runs their tools.
use crate::json::{Json, JsonView};
use vstd::prelude::*;

pub mod turn_loop;
pub mod turn_shared;

verus! {

/// A call of a tool that the provider asks for.
pub struct ToolIntent {
    pub tool_name: String,
    pub args_json: Json,
    pub source: String,
    pub session_id: String,
    pub turn_id: String,
    pub tool_call_id: String,
}

/// What a `ToolIntent` is.
#[verifier::ext_equal]
pub struct ToolIntentView {
    pub tool_name: Seq<char>,
    pub args_json: JsonView,
    pub source: Seq<char>,
    pub session_id: Seq<char>,
    pub turn_id: Seq<char>,
    pub tool_call_id: Seq<char>,
}

impl ToolIntent {
    pub open spec fn view(&self) -> ToolIntentView {
        ToolIntentView {
            tool_name: self.tool_name@,
            args_json: self.args_json@,
            source: self.source@,
            session_id: self.session_id@,
            turn_id: self.turn_id@,
            tool_call_id: self.tool_call_id@,
        }
    }
}

/// The views of a list of tool calls.
pub open spec fn intent_views(v: Seq<ToolIntent>) -> Seq<ToolIntentView> {
    Seq::new(v.len(), |i: int| v[i]@)
}

/// One turn of the provider.
pub struct ProviderTurn {
    pub assistant_text: String,
    pub tool_intents: Vec<ToolIntent>,
    pub raw_meta: Json,
}

/// What a `ProviderTurn` is.
#[verifier::ext_equal]
pub struct ProviderTurnView {
    pub assistant_text: Seq<char>,
    pub tool_intents: Seq<ToolIntentView>,
    pub raw_meta: JsonView,
}

impl ProviderTurn {
    pub open spec fn view(&self) -> ProviderTurnView {
        ProviderTurnView {
            assistant_text: self.assistant_text@,
            tool_intents: intent_views(self.tool_intents@),
            raw_meta: self.raw_meta@,
        }
    }
}

/// Why a turn failed.
pub struct TurnFailure {
    pub code: String,
    pub reason: String,
    pub retryable: bool,
}

impl TurnFailure {
    /// A failure after which the same turn may be tried again.
    pub fn retryable(code: &str, reason: &str) -> (r: TurnFailure)
        ensures
            r.code@ == code@,
            r.reason@ == reason@,
            r.retryable,
    {
        TurnFailure { code: code.to_owned(), reason: reason.to_owned(), retryable: true }
    }

    pub fn as_str(&self) -> (r: &str)
        ensures
            r@ == self.reason@,
    {
        self.reason.as_str()
    }
}

/// What has to be approved before a tool runs.
pub struct ApprovalRequirement {
    pub approval_request_id: Option<String>,
    pub reason: String,
}

/// What came of the tools of a turn.
pub enum TurnResult {
    FinalText(String),
    StreamingText(String),
    StreamingDone(String),
    NeedsApproval(ApprovalRequirement),
    ToolDenied(TurnFailure),
    ToolError(TurnFailure),
    ProviderError(TurnFailure),
}

} // verus!
