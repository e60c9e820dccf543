//! What the fields of a value mean.
use crate::channel;
use crate::channel::telegram;
use crate::channel::ChannelInboundMessage;
use crate::conversation;
use crate::conversation::turn_loop;
use crate::conversation::turn_loop::{
    ToolLoopObservation, ToolLoopSupervisorVerdict, VerdictView,
};
use crate::conversation::turn_shared::{PayloadView, ToolDrivenFollowupPayload};
use crate::conversation::{ProviderTurn, ToolIntent};
use crate::evolution::{EvolutionBreadcrumb, EvolutionDecision, EvolutionSessionSummary};
use crate::json;
use crate::json::Json;
use crate::memory;
use crate::memory::evolution_store;
use crate::memory::evolution_store::{BreadcrumbRow, SessionRow};
use crate::memory::MemoryContextEntry;
use crate::provider::bridge;
use crate::provider::contracts::ProviderApiError;
use crate::provider::failover::ModelRequestError;
use crate::provider::models;
use crate::provider::models::ModelCandidate;
use crate::provider::request_executor::{ActionView, ModelRequest, ModelRequestAction};
use crate::provider::sse;
use crate::provider::sse::SseItem;
use crate::provider::streaming::{
    EventView, StreamingAccumulator, StreamingEvent, ToolCallInfo,
};
use crate::text;
use crate::tools::catalog;
use crate::tools::catalog::{ToolCatalogEntry, ToolDescriptor};
use vstd::prelude::*;

verus! {

/// A tool call and a turn are what their fields say.
pub proof fn law_turns_are_their_fields(intent: ToolIntent, turn: ProviderTurn, i: int)
    ensures
        intent@.tool_name == intent.tool_name@,
        intent@.args_json == intent.args_json@,
        intent@.source == intent.source@,
        intent@.session_id == intent.session_id@,
        intent@.turn_id == intent.turn_id@,
        intent@.tool_call_id == intent.tool_call_id@,
        turn@.assistant_text == turn.assistant_text@,
        turn@.raw_meta == turn.raw_meta@,
        turn@.tool_intents.len() == turn.tool_intents@.len(),
        0 <= i < turn.tool_intents@.len() ==> turn@.tool_intents[i] == turn.tool_intents@[i]@,
{
}

/// A message that came in is what its fields say.
pub proof fn law_messages_are_their_fields(m: ChannelInboundMessage)
    ensures
        m@.account_id == m.session.account_id@,
        m@.conversation_id == m.session.conversation_id@,
        m@.thread_id == text::opt_text(m.session.thread_id),
        m@.reply_id == m.reply_target.id@,
        m@.text == m.text@,
        m@.ack_cursor == text::opt_text(m.delivery.ack_cursor),
        m@.source_message_id == text::opt_text(m.delivery.source_message_id),
        m@.sender_principal_key == text::opt_text(m.delivery.sender_principal_key),
        m@.thread_root_id == text::opt_text(m.delivery.thread_root_id),
        m@.parent_message_id == text::opt_text(m.delivery.parent_message_id),
        m@.platform is Telegram <==> m.session.platform is Telegram,
        m@.reply_platform is Telegram <==> m.reply_target.platform is Telegram,
        m@.reply_kind is Conversation <==> m.reply_target.kind is Conversation,
{
}

/// A request and its error are what their fields say.
pub proof fn law_requests_are_their_fields(
    r: ModelRequest,
    e: ModelRequestError,
    a: ProviderApiError,
)
    ensures
        r@.model == r.runtime.model@,
        r@.attempt == r.attempt,
        r@.backoff_ms == r.backoff_ms,
        r@.mode == r.payload_mode,
        r@.tried == r.tried_payload_modes@,
        r@.policy == r.runtime.request_policy,
        r@.auto_model_mode == r.runtime.auto_model_mode,
        r@.max_tokens == r.runtime.provider.max_tokens,
        r@.effort == r.runtime.provider.reasoning_effort,
        e@.message == e.message@,
        e@.try_next_model == e.try_next_model,
        e@.reason == e.reason,
        e@.snapshot.model == e.snapshot.model@,
        e@.snapshot.attempt == e.snapshot.attempt,
        e@.snapshot.max_attempts == e.snapshot.max_attempts,
        e@.snapshot.status_code == e.snapshot.status_code,
        e@.snapshot.reason == e.snapshot.reason,
        e@.snapshot.stage == e.snapshot.stage,
        a@.code == text::opt_text(a.code),
        a@.param == text::opt_text(a.param),
        a@.message == text::opt_text(a.message),
{
}

/// What came of a stream is what its fields say.
pub proof fn law_streams_are_their_fields(
    a: StreamingAccumulator,
    c: ToolCallInfo,
    s: String,
    t: String,
    index: u64,
)
    ensures
        a@.text == a.text@,
        a@.meta == a.meta@,
        a@.done == a.done,
        a@.error is Some <==> a.error is Some,
        c@.name == c.name@,
        c@.id == c.id@,
        c@.input == c.input@,
        StreamingEvent::Text(s)@ == EventView::Text(s@),
        StreamingEvent::StreamError(s)@ == EventView::StreamError(s@),
        StreamingEvent::Done@ == EventView::Done,
        (StreamingEvent::ToolCallStart { index, name: s, id: t })@ == (EventView::ToolCallStart {
            index: index as int,
            name: s@,
            id: t@,
        }),
        (StreamingEvent::ToolInputPartial { index, partial_json: s })@
            == (EventView::ToolInputPartial { index: index as int, partial_json: s@ }),
{
}

/// Tools are what their fields say.
pub proof fn law_tools_are_their_fields(d: ToolDescriptor, e: ToolCatalogEntry, i: int)
    ensures
        d@.name == d.name@,
        d@.provider_name == d.provider_name@,
        d@.description == d.description@,
        d@.execution_kind == d.execution_kind,
        d@.availability == d.availability,
        d@.exposure == d.exposure,
        d@.visibility_gate == d.visibility_gate,
        d@.aliases.len() == d.aliases@.len(),
        0 <= i < d.aliases@.len() ==> d@.aliases[i] == d.aliases@[i]@,
        e@.canonical_name == e.canonical_name@,
        e@.provider_function_name == e.provider_function_name@,
        e@.summary == e.summary@,
        e@.argument_hint == e.argument_hint@,
        e@.exposure == e.exposure,
        e@.execution_kind == e.execution_kind,
        e@.availability == e.availability,
        e@.scheduling_class == e.scheduling_class,
{
}

/// Attempts, sessions and their rows are what their fields say.
pub proof fn law_sessions_are_their_fields(
    b: EvolutionBreadcrumb,
    s: EvolutionSessionSummary,
    x: BreadcrumbRow,
    y: SessionRow,
    m: MemoryContextEntry,
    d: EvolutionDecision,
)
    ensures
        b@.breadcrumb_id == b.breadcrumb_id@,
        b@.session_id == b.session_id@,
        b@.issue_id == b.issue_id@,
        b@.phase_reached == b.phase_reached,
        b@.decision == b.decision@,
        b@.patch_description == b.patch_description@,
        b@.fingerprint_before == b.fingerprint_before@,
        b@.fingerprint_after == text::opt_text(b.fingerprint_after),
        d@ is Rollback <==> d is Rollback,
        d@ is Keep <==> d is Keep,
        s@.session_id == s.session_id@,
        s@.mode == s.mode,
        s@.trigger == s.trigger@,
        s@.started_at_epoch_s == s.started_at_epoch_s,
        s@.completed_at_epoch_s == s.completed_at_epoch_s,
        s@.issues_detected == s.issues_detected,
        s@.patches_applied == s.patches_applied,
        s@.patches_rolled_back == s.patches_rolled_back,
        s@.patches_skipped == s.patches_skipped,
        x@.breadcrumb_id == x.breadcrumb_id@,
        x@.session_id == x.session_id@,
        x@.issue_id == x.issue_id@,
        x@.phase_reached == x.phase_reached@,
        x@.decision_json == x.decision_json@,
        x@.files_modified_json == x.files_modified_json@,
        x@.fingerprint_before == x.fingerprint_before@,
        x@.fingerprint_after == text::opt_text(x.fingerprint_after),
        y@.session_id == y.session_id@,
        y@.mode == y.mode@,
        y@.trigger_kind == y.trigger_kind@,
        y@.trigger_detail == text::opt_text(y.trigger_detail),
        y@.issues_detected == y.issues_detected,
        y@.patches_applied == y.patches_applied,
        y@.patches_rolled_back == y.patches_rolled_back,
        y@.patches_skipped == y.patches_skipped,
        m@.kind == m.kind,
        m@.role == m.role@,
        m@.content == m.content@,
{
}

/// Lists are shown in their order, every item in its place.
pub proof fn law_lists_are_shown_in_order(
    texts_list: Seq<String>,
    pieces: Seq<Vec<char>>,
    strs: Seq<&'static str>,
    inbox: Seq<ChannelInboundMessage>,
    intents: Seq<ToolIntent>,
    values: Seq<Json>,
    fields: Seq<(String, Json)>,
    pairs: Seq<(i64, i64)>,
    i: int,
)
    ensures
        text::texts(texts_list).len() == texts_list.len(),
        0 <= i < texts_list.len() ==> text::texts(texts_list)[i] == texts_list[i]@,
        text::pieces(pieces).len() == pieces.len(),
        0 <= i < pieces.len() ==> text::pieces(pieces)[i] == pieces[i]@,
        catalog::strs(strs).len() == strs.len(),
        0 <= i < strs.len() ==> catalog::strs(strs)[i] == strs[i]@,
        channel::inbound_views(inbox).len() == inbox.len(),
        0 <= i < inbox.len() ==> channel::inbound_views(inbox)[i] == inbox[i]@,
        conversation::intent_views(intents).len() == intents.len(),
        0 <= i < intents.len() ==> conversation::intent_views(intents)[i] == intents[i]@,
        json::values(values).len() == values.len(),
        0 <= i < values.len() ==> json::values(values)[i] == values[i]@,
        json::entries(fields).len() == fields.len(),
        0 <= i < fields.len() ==> json::entries(fields)[i] == (fields[i].0@, fields[i].1@),
        telegram::pair_views(pairs).len() == pairs.len(),
        0 <= i < pairs.len() ==> telegram::pair_views(pairs)[i] == (
            pairs[i].0 as int,
            pairs[i].1 as int,
        ),
{
}

/// So are those of tools, rounds, models, leases, entries and decisions.
pub proof fn law_more_lists_are_shown_in_order(
    tools: Seq<ToolDescriptor>,
    entries: Seq<ToolCatalogEntry>,
    rounds: Seq<ToolLoopObservation>,
    listed: Seq<ModelCandidate>,
    leases: Seq<(String, String)>,
    context: Seq<MemoryContextEntry>,
    decisions: Seq<EvolutionDecision>,
    items: Seq<SseItem>,
    i: int,
)
    ensures
        catalog::descriptor_views(tools).len() == tools.len(),
        0 <= i < tools.len() ==> catalog::descriptor_views(tools)[i] == tools[i]@,
        catalog::entry_views(entries).len() == entries.len(),
        0 <= i < entries.len() ==> catalog::entry_views(entries)[i] == entries[i]@,
        turn_loop::observations(rounds).len() == rounds.len(),
        0 <= i < rounds.len() ==> turn_loop::observations(rounds)[i] == rounds[i]@,
        models::candidate_views(listed).len() == listed.len(),
        0 <= i < listed.len() ==> models::candidate_views(listed)[i] == listed[i]@,
        bridge::lease_views(leases).len() == leases.len(),
        0 <= i < leases.len() ==> bridge::lease_views(leases)[i] == (leases[i].0@, leases[i].1@),
        memory::entry_views(context).len() == context.len(),
        0 <= i < context.len() ==> memory::entry_views(context)[i] == context[i]@,
        evolution_store::decision_views(decisions).len() == decisions.len(),
        0 <= i < decisions.len() ==> evolution_store::decision_views(decisions)[i]
            == decisions[i]@,
        sse::item_views(items).len() == items.len(),
        0 <= i < items.len() ==> sse::item_views(items)[i] == items[i]@,
{
}

/// What is there is shown as there, and what is not as not.
pub proof fn law_options_are_shown_as_they_are(s: String, t: &'static str, n: i64)
    ensures
        text::opt_text(Some(s)) == Some(s@),
        text::opt_text(None) is None,
        text::opt_str(Some(t)) == Some(t@),
        text::opt_str(None) is None,
        telegram::opt_int(Some(n)) == Some(n as int),
        telegram::opt_int(None) is None,
        bridge::or_empty(Some(t)) == t@,
        bridge::or_empty(None).len() == 0,
{
}

/// A verdict, a follow-up and an action are shown as what they are.
pub proof fn law_decisions_are_shown_as_they_are(
    reason: String,
    preface: String,
    o: ToolLoopObservation,
    error: ModelRequestError,
    delay_ms: u64,
)
    ensures
        ToolLoopSupervisorVerdict::Continue@ == VerdictView::Continue,
        (ToolLoopSupervisorVerdict::InjectWarning { reason })@ == VerdictView::InjectWarning(
            reason@,
        ),
        (ToolLoopSupervisorVerdict::HardStop { reason })@ == VerdictView::HardStop(reason@),
        o@.pattern == o.pattern@,
        o@.name == o.tool_name_signature@,
        o@.failed == o.failed,
        (ToolDrivenFollowupPayload::ToolResult { text: reason })@ == PayloadView::ToolResult(
            reason@,
        ),
        (ToolDrivenFollowupPayload::ToolFailure { reason })@ == PayloadView::ToolFailure(reason@),
        ModelRequestAction::Send@ == ActionView::Send,
        ModelRequestAction::Succeed@ == ActionView::Succeed,
        (ModelRequestAction::Wait { delay_ms })@ == ActionView::Wait(delay_ms),
        ModelRequestAction::Fail(error)@ == ActionView::Fail(error@),
{
}

} // verus!
