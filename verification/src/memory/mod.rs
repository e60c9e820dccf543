//! What is kept of conversations.
use crate::json;
use crate::json::{no_entries, object, push_entry, text_value, Json, JsonView};
use crate::text;
use crate::text::{cat, same, trimmed_str};
use vstd::prelude::*;

pub mod evolution_store;

verus! {

/// What a prompt gets of the memory.
#[derive(Clone, Copy, Debug, PartialEq, Eq, Structural)]
pub enum MemoryMode {
    WindowOnly,
    WindowPlusSummary,
    ProfilePlusWindow,
}

/// The configuration of the memory, as far as prompts depend on it.
pub struct MemoryRuntimeConfig {
    pub mode: MemoryMode,
    pub profile_note: Option<String>,
}

/// What an entry of the memory is.
#[derive(Clone, Copy, Debug, PartialEq, Eq, Structural)]
pub enum MemoryContextKind {
    Profile,
    Summary,
    Turn,
}

/// An entry of the memory in a prompt.
#[derive(Debug, PartialEq, Eq)]
pub struct MemoryContextEntry {
    pub kind: MemoryContextKind,
    pub role: String,
    pub content: String,
}

/// What a `MemoryContextEntry` is.
#[verifier::ext_equal]
pub struct ContextEntryView {
    pub kind: MemoryContextKind,
    pub role: Seq<char>,
    pub content: Seq<char>,
}

impl MemoryContextEntry {
    pub open spec fn view(&self) -> ContextEntryView {
        ContextEntryView { kind: self.kind, role: self.role@, content: self.content@ }
    }
}

/// The views of a list of entries.
pub open spec fn entry_views(v: Seq<MemoryContextEntry>) -> Seq<ContextEntryView> {
    Seq::new(v.len(), |i: int| v[i]@)
}

/// A turn of a conversation that was kept.
pub struct ConversationTurn {
    pub role: String,
    pub content: String,
}

/// What was loaded of a session. The summary is as it stands in a prompt.
pub struct ContextSnapshot {
    pub window_turns: Vec<ConversationTurn>,
    pub summary_block: Option<String>,
}

/// The turns of a window as entries.
pub open spec fn turn_entries(v: Seq<ConversationTurn>) -> Seq<ContextEntryView> {
    Seq::new(
        v.len(),
        |i: int|
            ContextEntryView {
                kind: MemoryContextKind::Turn,
                role: v[i].role@,
                content: v[i].content@,
            },
    )
}

/// What a prompt says of the user, where the mode asks for it and there is something to
/// say.
pub open spec fn profile_entries(config: MemoryRuntimeConfig) -> Seq<ContextEntryView> {
    match config.profile_note {
        Some(note) => if config.mode == MemoryMode::ProfilePlusWindow && text::trim(note@).len()
            > 0 {
            seq![
                ContextEntryView {
                    kind: MemoryContextKind::Profile,
                    role: "system"@,
                    content:
                        "## Session Profile\nDurable preferences or imported identity carried into this session:\n- "@
                        + text::trim(note@),
                },
            ]
        } else {
            Seq::empty()
        },
        None => Seq::empty(),
    }
}

/// What a prompt says of earlier turns, where the mode asks for it.
pub open spec fn summary_entries(mode: MemoryMode, summary: Option<Seq<char>>) -> Seq<
    ContextEntryView,
> {
    match summary {
        Some(s) => if mode == MemoryMode::WindowPlusSummary {
            seq![
                ContextEntryView {
                    kind: MemoryContextKind::Summary,
                    role: "system"@,
                    content: s,
                },
            ]
        } else {
            Seq::empty()
        },
        None => Seq::empty(),
    }
}

/// What a prompt gets of the memory: the profile, the summary, then the turns.
pub open spec fn context_entries(config: MemoryRuntimeConfig, s: ContextSnapshot) -> Seq<
    ContextEntryView,
> {
    profile_entries(config) + summary_entries(config.mode, text::opt_text(s.summary_block))
        + turn_entries(s.window_turns@)
}

fn push_context(v: &mut Vec<MemoryContextEntry>, entry: MemoryContextEntry)
    ensures
        entry_views(final(v)@) == entry_views(old(v)@).push(entry@),
{
    v.push(entry);
    assert(entry_views(v@) =~= entry_views(old(v)@).push(entry@));
}

/// What a prompt gets of the memory, from what was loaded of a session. What the loading
/// says of itself is handed on, as is its error.
pub fn load_prompt_context_with_diagnostics<D>(
    config: &MemoryRuntimeConfig,
    loaded: Result<(ContextSnapshot, D), String>,
) -> (r: Result<(Vec<MemoryContextEntry>, D), String>)
    ensures
        (match loaded {
            Ok((snapshot, diagnostics)) => r is Ok && entry_views(r->Ok_0.0@) == context_entries(
                *config,
                snapshot,
            ) && r->Ok_0.1 == diagnostics,
            Err(e) => r == Err::<(Vec<MemoryContextEntry>, D), String>(e),
        }),
{
    let (snapshot, diagnostics) = match loaded {
        Ok(pair) => pair,
        Err(e) => {
            return Err(e);
        },
    };
    let ghost whole = snapshot;
    let mut entries: Vec<MemoryContextEntry> = Vec::new();
    assert(entry_views(entries@) =~= Seq::empty());
    if let Some(note) = &config.profile_note {
        let body = trimmed_str(note.as_str());
        if config.mode == MemoryMode::ProfilePlusWindow && !body.as_str().is_empty() {
            let content = cat(
                "## Session Profile\nDurable preferences or imported identity carried into this session:\n- ",
                body.as_str(),
            );
            push_context(
                &mut entries,
                MemoryContextEntry {
                    kind: MemoryContextKind::Profile,
                    role: "system".to_owned(),
                    content,
                },
            );
        }
    }
    assert(entry_views(entries@) =~= profile_entries(*config));
    let ContextSnapshot { window_turns, summary_block } = snapshot;
    if let Some(summary) = summary_block {
        if config.mode == MemoryMode::WindowPlusSummary {
            push_context(
                &mut entries,
                MemoryContextEntry {
                    kind: MemoryContextKind::Summary,
                    role: "system".to_owned(),
                    content: summary,
                },
            );
        }
    }
    let ghost head = profile_entries(*config) + summary_entries(
        config.mode,
        text::opt_text(whole.summary_block),
    );
    assert(entry_views(entries@) =~= head);
    let ghost turns = turn_entries(window_turns@);
    let mut i: usize = 0;
    assert(head + turns.take(0) =~= head);
    while i < window_turns.len()
        invariant
            i <= window_turns@.len(),
            turns == turn_entries(window_turns@),
            entry_views(entries@) == head + turns.take(i as int),
        decreases window_turns@.len() - i,
    {
        let entry = MemoryContextEntry {
            kind: MemoryContextKind::Turn,
            role: window_turns[i].role.clone(),
            content: window_turns[i].content.clone(),
        };
        assert(entry@ == turns[i as int]);
        assert(turns.take(i + 1) =~= turns.take(i as int).push(entry@));
        assert(head + turns.take(i + 1) =~= (head + turns.take(i as int)).push(entry@));
        push_context(&mut entries, entry);
        i += 1;
    }
    assert(turns.take(i as int) =~= turns);
    Ok((entries, diagnostics))
}

/// Every turn of the window stands in the prompt, in its order and behind everything else.
pub proof fn law_window_stands_last(config: MemoryRuntimeConfig, s: ContextSnapshot)
    ensures
        ({
            let all = context_entries(config, s);
            let n = s.window_turns@.len();
            &&& all.len() <= n + 1
            &&& n <= all.len()
            &&& all.skip(all.len() - n) == turn_entries(s.window_turns@)
        }),
{
    let all = context_entries(config, s);
    let n = s.window_turns@.len();
    assert(all.skip(all.len() - n) =~= turn_entries(s.window_turns@));
}

// Requests.

pub const MEMORY_OP_APPEND_TURN: &'static str = "append_turn";

pub const MEMORY_OP_WINDOW: &'static str = "window";

pub const MEMORY_OP_CLEAR_SESSION: &'static str = "clear_session";

pub const MEMORY_OP_READ_CONTEXT: &'static str = "read_context";

/// A request to the memory.
pub struct MemoryCoreRequest {
    pub operation: String,
    pub payload: Json,
}

/// What the memory answers.
pub struct MemoryCoreOutcome {
    pub status: String,
    pub payload: Json,
}

/// What is done with a request to the memory.
pub enum MemoryDispatch {
    AppendTurn,
    Window,
    ClearSession,
    ReadContext,
    /// The request needs nothing that is kept.
    Answer(MemoryCoreOutcome),
}

/// The answer to a request for an operation that the memory does not know: the request.
pub open spec fn echoed(operation: Seq<char>, payload: JsonView) -> JsonView {
    JsonView::Object(
        seq![
            ("adapter"@, JsonView::Text("kv-core"@)),
            ("operation"@, JsonView::Text(operation)),
            ("payload"@, payload),
        ],
    )
}

/// What is done with a request to the memory.
pub fn dispatch_memory_core(request: &MemoryCoreRequest) -> (r: MemoryDispatch)
    ensures
        r is AppendTurn <==> request.operation@ == MEMORY_OP_APPEND_TURN@,
        r is Window <==> request.operation@ == MEMORY_OP_WINDOW@,
        r is ClearSession <==> request.operation@ == MEMORY_OP_CLEAR_SESSION@,
        r is ReadContext <==> request.operation@ == MEMORY_OP_READ_CONTEXT@,
        r matches MemoryDispatch::Answer(outcome) ==> outcome.status@ == "ok"@
            && outcome.payload@ == echoed(request.operation@, request.payload@),
{
    proof {
        reveal_strlit("append_turn");
        reveal_strlit("window");
        reveal_strlit("clear_session");
        reveal_strlit("read_context");
        assert("append_turn"@.len() == 11 && "window"@.len() == 6);
        assert("clear_session"@.len() == 13 && "read_context"@.len() == 12);
    }
    let operation = request.operation.as_str();
    if same(operation, MEMORY_OP_APPEND_TURN) {
        return MemoryDispatch::AppendTurn;
    }
    if same(operation, MEMORY_OP_WINDOW) {
        return MemoryDispatch::Window;
    }
    if same(operation, MEMORY_OP_CLEAR_SESSION) {
        return MemoryDispatch::ClearSession;
    }
    if same(operation, MEMORY_OP_READ_CONTEXT) {
        return MemoryDispatch::ReadContext;
    }
    let mut v = no_entries();
    push_entry(&mut v, "adapter", text_value("kv-core"));
    push_entry(&mut v, "operation", text_value(operation));
    push_entry(&mut v, "payload", request.payload.duplicate());
    assert(json::entries(v@) =~= echoed(request.operation@, request.payload@)->Object_0);
    MemoryDispatch::Answer(MemoryCoreOutcome { status: "ok".to_owned(), payload: object(v) })
}

} // verus!
