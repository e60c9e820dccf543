//! Tool calls of the provider, and the leases under which found tools are called.
use crate::conversation::{ToolIntent, ToolIntentView};
use crate::json;
use crate::json::{no_entries, object, parse_json, push_entry, text_value, Json, JsonView};
use crate::text;
use crate::text::{chars_of, has_prefix, lines_of, part, same, to_text, trimmed};
use crate::tools::catalog;
use crate::tools::catalog::{canonical_tool_name, discoverable_tool_name};
use vstd::prelude::*;

verus! {

/// A lease for each found tool.
pub type Leases = Seq<(Seq<char>, Seq<char>)>;

/// The lease of a tool.
pub open spec fn lease_of(leases: Leases, tool: Seq<char>) -> Option<Seq<char>>
    decreases leases.len(),
{
    if leases.len() == 0 {
        None
    } else if leases[0].0 == tool {
        Some(leases[0].1)
    } else {
        lease_of(leases.skip(1), tool)
    }
}

/// The leases with one more; the first of a tool stays.
pub open spec fn with_lease(leases: Leases, tool: Seq<char>, lease: Seq<char>) -> Leases {
    if lease_of(leases, tool) is Some {
        leases
    } else {
        leases.push((tool, lease))
    }
}

/// The leases with those of a list of search results.
pub open spec fn with_results(leases: Leases, results: Seq<JsonView>) -> Leases
    decreases results.len(),
{
    if results.len() == 0 {
        leases
    } else {
        let before = with_results(leases, results.drop_last());
        match (results.last().str_at("tool_id"@), results.last().str_at("lease"@)) {
            (Some(tool), Some(lease)) => match catalog::discoverable_name(tool) {
                Some(name) => with_lease(before, name, lease),
                None => before,
            },
            _ => before,
        }
    }
}

/// The text of what a tool search found, where an envelope is that of one and is
/// complete.
pub open spec fn search_summary(envelope: JsonView) -> Option<Seq<char>> {
    if envelope.str_at("tool"@) != Some("tool.search"@) || envelope.bool_at("payload_truncated"@)
        == Some(true) {
        None
    } else {
        envelope.str_at("payload_summary"@)
    }
}

/// The results of a search that a line reports.
pub open spec fn line_results(line: Seq<char>) -> Option<Seq<JsonView>> {
    let trimmed = text::trim(line);
    if !text::starts_with(trimmed, "[ok] "@) {
        None
    } else {
        match json::parsed_json(trimmed.skip("[ok] "@.len() as int)) {
            Ok(envelope) => match search_summary(envelope) {
                Some(summary) => match json::parsed_json(summary) {
                    Ok(payload) => payload.array_at("results"@),
                    Err(_) => None,
                },
                None => None,
            },
            Err(_) => None,
        }
    }
}

/// The leases that lines report.
pub open spec fn lines_leases(l: Seq<Seq<char>>) -> Leases
    decreases l.len(),
{
    if l.len() == 0 {
        Seq::empty()
    } else {
        let before = lines_leases(l.drop_last());
        match line_results(l.last()) {
            Some(results) => with_results(before, results),
            None => before,
        }
    }
}

/// The leases that the content of a message reports.
pub open spec fn content_leases(content: Seq<char>) -> Leases {
    let trimmed = text::trim(content);
    if text::starts_with(trimmed, "[tool_result]\n"@) {
        lines_leases(text::lines(trimmed.skip("[tool_result]\n"@.len() as int)))
    } else {
        Seq::empty()
    }
}

/// The leases that a message of the assistant reports.
pub open spec fn message_leases(message: JsonView) -> Leases {
    if message.str_at("role"@) == Some("assistant"@) {
        match message.str_at("content"@) {
            Some(content) => content_leases(content),
            None => Seq::empty(),
        }
    } else {
        Seq::empty()
    }
}

/// The leases of the last message that reports any.
pub open spec fn latest_leases(messages: Seq<JsonView>) -> Leases
    decreases messages.len(),
{
    if messages.len() == 0 {
        Seq::empty()
    } else if message_leases(messages.last()).len() > 0 {
        message_leases(messages.last())
    } else {
        latest_leases(messages.drop_last())
    }
}

/// The views of a list of leases.
pub open spec fn lease_views(v: Seq<(String, String)>) -> Leases {
    Seq::new(v.len(), |i: int| (v[i].0@, v[i].1@))
}

/// The leases under which found tools are called.
pub struct ProviderToolBridgeContext {
    pub discoverable_leases: Vec<(String, String)>,
}

impl ProviderToolBridgeContext {
    pub open spec fn view(&self) -> Leases {
        lease_views(self.discoverable_leases@)
    }

    /// No leases.
    pub fn new() -> (r: Self)
        ensures
            r@ == Leases::empty(),
    {
        let r = ProviderToolBridgeContext { discoverable_leases: Vec::new() };
        assert(r@ =~= Leases::empty());
        r
    }

    /// The lease of a tool.
    pub fn lease(&self, tool: &str) -> (r: Option<&str>)
        ensures
            text::opt_str(r) == lease_of(self@, tool@),
    {
        let mut i: usize = 0;
        assert(self@.skip(0) =~= self@);
        while i < self.discoverable_leases.len()
            invariant
                i <= self.discoverable_leases@.len(),
                lease_of(self@, tool@) == lease_of(self@.skip(i as int), tool@),
            decreases self.discoverable_leases@.len() - i,
        {
            assert(self@.skip(i as int)[0] == self@[i as int]);
            assert(self@.skip(i as int).skip(1) =~= self@.skip(i + 1));
            if same(self.discoverable_leases[i].0.as_str(), tool) {
                return Some(self.discoverable_leases[i].1.as_str());
            }
            i += 1;
        }
        None
    }

    fn add_lease(&mut self, tool: &str, lease: &str)
        ensures
            final(self)@ == with_lease(old(self)@, tool@, lease@),
    {
        if self.lease(tool).is_none() {
            self.discoverable_leases.push((tool.to_owned(), lease.to_owned()));
            assert(self@ =~= old(self)@.push((tool@, lease@)));
        }
    }

    /// Takes in the leases of a list of search results.
    pub fn add_results(&mut self, results: &Vec<Json>)
        ensures
            final(self)@ == with_results(old(self)@, json::values(results@)),
    {
        let ghost all = json::values(results@);
        let mut i: usize = 0;
        while i < results.len()
            invariant
                i <= results@.len(),
                all == json::values(results@),
                self@ == with_results(old(self)@, all.take(i as int)),
            decreases results@.len() - i,
        {
            assert(all.take(i + 1).drop_last() =~= all.take(i as int));
            assert(all.take(i + 1).last() == results@[i as int]@);
            if let Some(tool) = results[i].str_at("tool_id") {
                if let Some(lease) = results[i].str_at("lease") {
                    if let Some(name) = discoverable_tool_name(tool) {
                        self.add_lease(name, lease);
                    }
                }
            }
            i += 1;
        }
        assert(all.take(i as int) =~= all);
    }
}

/// The text of what a tool search found, where an envelope is that of one and is
/// complete.
pub fn tool_search_summary(envelope: &Json) -> (r: Option<&str>)
    ensures
        text::opt_str(r) == search_summary(envelope@),
{
    match envelope.str_at("tool") {
        Some(tool) => if !same(tool, "tool.search") {
            return None;
        },
        None => {
            return None;
        },
    }
    if let Some(truncated) = envelope.bool_at("payload_truncated") {
        if truncated {
            return None;
        }
    }
    envelope.str_at("payload_summary")
}

fn add_line(context: &mut ProviderToolBridgeContext, line: &Vec<char>)
    ensures
        final(context)@ == (match line_results(line@) {
            Some(results) => with_results(old(context)@, results),
            None => old(context)@,
        }),
{
    let body = trimmed(line);
    if !has_prefix(&body, "[ok] ") {
        return;
    }
    let mark = chars_of("[ok] ");
    let rest = part(&body, mark.len(), body.len());
    assert(rest@ =~= body@.skip(mark@.len() as int));
    let payload = to_text(&rest);
    let envelope = match parse_json(payload.as_str()) {
        Ok(v) => v,
        Err(_) => {
            return;
        },
    };
    let found = match tool_search_summary(&envelope) {
        Some(summary) => match parse_json(summary) {
            Ok(v) => v,
            Err(_) => {
                return;
            },
        },
        None => {
            return;
        },
    };
    if let Some(results) = found.array_at("results") {
        context.add_results(results);
    }
}

/// The leases that the content of a message reports.
pub fn parse_discovery_followup_leases_from_message_content(content: &str) -> (r: Option<
    ProviderToolBridgeContext,
>)
    ensures
        (match r {
            Some(c) => c@ == content_leases(content@) && c@.len() > 0,
            None => content_leases(content@).len() == 0,
        }),
{
    let v = chars_of(content);
    let body = trimmed(&v);
    if !has_prefix(&body, "[tool_result]\n") {
        return None;
    }
    let mark = chars_of("[tool_result]\n");
    let rest = part(&body, mark.len(), body.len());
    assert(rest@ =~= body@.skip(mark@.len() as int));
    let l = lines_of(&rest);
    let ghost all = text::pieces(l@);
    let mut context = ProviderToolBridgeContext::new();
    let mut i: usize = 0;
    while i < l.len()
        invariant
            i <= l@.len(),
            all == text::pieces(l@),
            context@ == lines_leases(all.take(i as int)),
        decreases l@.len() - i,
    {
        assert(all.take(i + 1).drop_last() =~= all.take(i as int));
        add_line(&mut context, &l[i]);
        i += 1;
    }
    assert(all.take(i as int) =~= all);
    if context.discoverable_leases.len() > 0 {
        Some(context)
    } else {
        None
    }
}

/// The leases of the last message that reports any.
pub fn provider_tool_bridge_context_from_messages(messages: &Vec<Json>) -> (r:
    ProviderToolBridgeContext)
    ensures
        r@ == latest_leases(json::values(messages@)),
{
    let ghost all = json::values(messages@);
    let mut i: usize = messages.len();
    assert(all.take(i as int) =~= all);
    while i > 0
        invariant
            i <= messages@.len(),
            all == json::values(messages@),
            latest_leases(all) == latest_leases(all.take(i as int)),
        decreases i,
    {
        let message = &messages[i - 1];
        assert(all.take(i as int).last() == message@);
        assert(all.take(i as int).drop_last() =~= all.take(i - 1));
        i -= 1;
        let is_assistant = match message.str_at("role") {
            Some(role) => same(role, "assistant"),
            None => false,
        };
        if is_assistant {
            if let Some(content) = message.str_at("content") {
                if let Some(context) = parse_discovery_followup_leases_from_message_content(
                    content,
                ) {
                    return context;
                }
            }
        }
    }
    ProviderToolBridgeContext::new()
}

/// What a tool call belongs to: a session, a turn, and the leases of found tools.
pub struct ToolCallScope {
    pub session_id: String,
    pub turn_id: String,
    pub bridge: ProviderToolBridgeContext,
}

/// What a `ToolCallScope` is.
#[verifier::ext_equal]
pub struct ScopeView {
    pub session_id: Seq<char>,
    pub turn_id: Seq<char>,
    pub leases: Leases,
}

impl ToolCallScope {
    pub open spec fn view(&self) -> ScopeView {
        ScopeView {
            session_id: self.session_id@,
            turn_id: self.turn_id@,
            leases: self.bridge@,
        }
    }
}

/// An optional text, or an empty one.
pub open spec fn or_empty(o: Option<&str>) -> Seq<char> {
    match o {
        Some(s) => s@,
        None => Seq::empty(),
    }
}

/// The scope of a turn whose messages are given.
pub fn tool_call_scope(session_id: Option<&str>, turn_id: Option<&str>, messages: &Vec<Json>) -> (r:
    ToolCallScope)
    ensures
        r@ == (ScopeView {
            session_id: or_empty(session_id),
            turn_id: or_empty(turn_id),
            leases: latest_leases(json::values(messages@)),
        }),
{
    ToolCallScope {
        session_id: match session_id {
            Some(s) => s.to_owned(),
            None => String::new(),
        },
        turn_id: match turn_id {
            Some(s) => s.to_owned(),
            None => String::new(),
        },
        bridge: provider_tool_bridge_context_from_messages(messages),
    }
}

/// The tool call for a name of any kind: the tool itself, or, where it was found by
/// search and has a lease, the call that invokes it under that lease.
pub open spec fn intent_of(
    raw_tool_name: Seq<char>,
    args_json: JsonView,
    source: Seq<char>,
    tool_call_id: Seq<char>,
    scope: ScopeView,
) -> ToolIntentView {
    let name = catalog::canonical_name(raw_tool_name);
    let lease = match catalog::discoverable_name(name) {
        Some(found) => lease_of(scope.leases, found),
        None => None,
    };
    let (tool_name, args) = match lease {
        Some(l) => (
            "tool.invoke"@,
            JsonView::Object(
                seq![
                    ("tool_id"@, JsonView::Text(catalog::discoverable_name(name)->0)),
                    ("lease"@, JsonView::Text(l)),
                    ("arguments"@, args_json),
                ],
            ),
        ),
        None => (name, args_json),
    };
    ToolIntentView {
        tool_name,
        args_json: args,
        source,
        session_id: scope.session_id,
        turn_id: scope.turn_id,
        tool_call_id,
    }
}

/// The tool call for a name of any kind.
pub fn build_provider_tool_intent(
    raw_tool_name: &str,
    args_json: Json,
    source: &str,
    tool_call_id: String,
    scope: &ToolCallScope,
) -> (r: ToolIntent)
    ensures
        r@ == intent_of(raw_tool_name@, args_json@, source@, tool_call_id@, scope@),
{
    let canonical = canonical_tool_name(raw_tool_name);
    if let Some(found) = discoverable_tool_name(canonical.as_str()) {
        if let Some(lease) = scope.bridge.lease(found) {
            let mut v = no_entries();
            push_entry(&mut v, "tool_id", text_value(found));
            push_entry(&mut v, "lease", text_value(lease));
            push_entry(&mut v, "arguments", args_json);
            assert(json::entries(v@) =~= seq![
                ("tool_id"@, JsonView::Text(found@)),
                ("lease"@, JsonView::Text(lease@)),
                ("arguments"@, args_json@),
            ]);
            return ToolIntent {
                tool_name: "tool.invoke".to_owned(),
                args_json: object(v),
                source: source.to_owned(),
                session_id: scope.session_id.clone(),
                turn_id: scope.turn_id.clone(),
                tool_call_id,
            };
        }
    }
    ToolIntent {
        tool_name: canonical,
        args_json,
        source: source.to_owned(),
        session_id: scope.session_id.clone(),
        turn_id: scope.turn_id.clone(),
        tool_call_id,
    }
}

/// The first lease that a tool gets is the one it keeps.
pub proof fn law_first_lease_stays(
    leases: Leases,
    tool: Seq<char>,
    lease: Seq<char>,
    other: Seq<char>,
)
    ensures
        lease_of(leases, tool) is Some ==> lease_of(with_lease(leases, tool, lease), tool)
            == lease_of(leases, tool),
        lease_of(leases, tool) is None ==> lease_of(with_lease(leases, tool, lease), tool) == Some(
            lease,
        ),
        other != tool ==> lease_of(with_lease(leases, tool, lease), other) == lease_of(
            leases,
            other,
        ),
{
    lemma_lease_push(leases, tool, lease, tool);
    lemma_lease_push(leases, tool, lease, other);
}

proof fn lemma_lease_push(leases: Leases, tool: Seq<char>, lease: Seq<char>, x: Seq<char>)
    ensures
        lease_of(leases.push((tool, lease)), x) == (match lease_of(leases, x) {
            Some(l) => Some(l),
            None => if x == tool {
                Some(lease)
            } else {
                None
            },
        }),
    decreases leases.len(),
{
    let grown = leases.push((tool, lease));
    if leases.len() > 0 {
        lemma_lease_push(leases.skip(1), tool, lease, x);
        assert(grown.skip(1) =~= leases.skip(1).push((tool, lease)));
        assert(grown[0] == leases[0]);
    } else {
        assert(grown[0] == (tool, lease));
        assert(grown.skip(1) =~= Leases::empty());
        assert(lease_of(grown.skip(1), x) is None);
    }
}

/// A tool that was not found by search is called directly, whatever leases there are.
pub proof fn law_core_tools_are_called_directly(
    raw_tool_name: Seq<char>,
    args_json: JsonView,
    source: Seq<char>,
    tool_call_id: Seq<char>,
    scope: ScopeView,
)
    requires
        catalog::discoverable_name(catalog::canonical_name(raw_tool_name)) is None,
    ensures
        intent_of(raw_tool_name, args_json, source, tool_call_id, scope).tool_name
            == catalog::canonical_name(raw_tool_name),
        intent_of(raw_tool_name, args_json, source, tool_call_id, scope).args_json == args_json,
{
}

} // verus!
