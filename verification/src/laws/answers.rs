//! Answers of providers: what a turn says and which tool calls it makes.
use crate::conversation::{ProviderTurnView, ToolIntentView};
use crate::json;
use crate::json::JsonView;
use crate::laws::texts;
use crate::provider::blocks;
use crate::provider::blocks::BlockView;
use crate::provider::bridge;
use crate::provider::bridge::ScopeView;
use crate::provider::functions;
use crate::provider::shape;
use crate::provider::shape::CallShape;
use crate::text;
use crate::tools::catalog;
use vstd::prelude::*;

verus! {

// Calls.

/// The calls of a list are those of its first entries followed by those of the others: none
/// is lost, none is added, and they keep their order.
pub proof fn law_calls_of_lists_are_joined(
    kind: CallShape,
    a: Seq<JsonView>,
    b: Seq<JsonView>,
    scope: ScopeView,
)
    ensures
        shape::entry_intents(kind, a + b, scope) == shape::entry_intents(kind, a, scope)
            + shape::entry_intents(kind, b, scope),
    decreases b.len(),
{
    let x = shape::entry_intents(kind, a, scope);
    if b.len() == 0 {
        assert(a + b =~= a);
        assert(x + shape::entry_intents(kind, b, scope) =~= x);
    } else {
        law_calls_of_lists_are_joined(kind, a, b.drop_last(), scope);
        assert((a + b).drop_last() =~= a + b.drop_last());
        assert((a + b).last() == b.last());
        assert(shape::entry_intents(kind, a + b, scope) =~= x + shape::entry_intents(
            kind,
            b,
            scope,
        ));
    }
}

/// A tool call as a provider may write it: its name, its arguments as they were read, and its
/// number.
pub struct CallText {
    pub name: Seq<char>,
    pub args: JsonView,
    pub id: Seq<char>,
}

impl CallText {
    /// What the call is where no tool was found by search: the tool that the name means, with
    /// the arguments and the number that were given, in the session and the turn of the scope.
    pub open spec fn intent(self, scope: ScopeView) -> ToolIntentView {
        ToolIntentView {
            tool_name: catalog::canonical_name(self.name),
            args_json: self.args,
            source: "provider_tool_call"@,
            session_id: scope.session_id,
            turn_id: scope.turn_id,
            tool_call_id: self.id,
        }
    }
}

/// Whether an entry of a chat completion is a call.
pub open spec fn is_chat_entry(entry: JsonView, call: CallText) -> bool {
    entry.get("function"@) matches Some(function) && {
        &&& function.str_at("name"@) == Some(call.name)
        &&& function.str_at("arguments"@) matches Some(raw)
        &&& json::parsed_json(raw) == Ok::<JsonView, Seq<char>>(call.args)
        &&& entry.str_at("id"@) == Some(call.id)
    }
}

/// Whether a block of a message is a call.
pub open spec fn is_block_entry(entry: JsonView, call: CallText) -> bool {
    &&& entry.str_at("type"@) == Some("tool_use"@)
    &&& entry.str_at("name"@) == Some(call.name)
    &&& entry.get("input"@) == Some(call.args)
    &&& entry.str_at("id"@) == Some(call.id)
}

/// Whether a block of a converse message is a call.
pub open spec fn is_converse_entry(entry: JsonView, call: CallText) -> bool {
    entry.get("toolUse"@) matches Some(used) && {
        &&& used.str_at("name"@) == Some(call.name)
        &&& used.get("input"@) == Some(call.args)
        &&& used.str_at("toolUseId"@) == Some(call.id)
    }
}

/// Whether an item of an answer is a call.
pub open spec fn is_item_entry(entry: JsonView, call: CallText) -> bool {
    &&& entry.str_at("type"@) == Some("function_call"@) || entry.str_at("type"@) == Some(
        "tool_call"@,
    )
    &&& entry.str_at("name"@) == Some(call.name)
    &&& entry.str_at("arguments"@) matches Some(raw)
    &&& json::parsed_json(raw) == Ok::<JsonView, Seq<char>>(call.args)
    &&& entry.str_at("call_id"@) == Some(call.id)
}

/// Whether an entry of an interface is a call.
pub open spec fn is_entry(kind: CallShape, entry: JsonView, call: CallText) -> bool {
    match kind {
        CallShape::Chat => is_chat_entry(entry, call),
        CallShape::Block => is_block_entry(entry, call),
        CallShape::Converse => is_converse_entry(entry, call),
        CallShape::Item => is_item_entry(entry, call),
    }
}

proof fn lemma_entry_is_called(kind: CallShape, entry: JsonView, call: CallText, scope: ScopeView)
    requires
        is_entry(kind, entry, call),
        scope.leases.len() == 0,
    ensures
        shape::entry_intent(kind, entry, scope) == Some(call.intent(scope)),
{
    assert(forall|tool: Seq<char>| bridge::lease_of(scope.leases, tool) is None);
}

/// A list in which every entry is a call gives as many calls as it has entries, each in its
/// place with its own name, arguments and number. This holds of every interface.
pub proof fn law_every_listed_call_is_made(
    kind: CallShape,
    entries: Seq<JsonView>,
    calls: Seq<CallText>,
    scope: ScopeView,
)
    requires
        entries.len() == calls.len(),
        forall|i: int| 0 <= i < entries.len() ==> is_entry(kind, #[trigger] entries[i], calls[i]),
        scope.leases.len() == 0,
    ensures
        shape::entry_intents(kind, entries, scope).len() == calls.len(),
        forall|i: int|
            0 <= i < calls.len() ==> (#[trigger] shape::entry_intents(kind, entries, scope)[i])
                == calls[i].intent(scope),
    decreases entries.len(),
{
    if entries.len() > 0 {
        let before = entries.drop_last();
        assert forall|i: int| 0 <= i < before.len() implies is_entry(
            kind,
            #[trigger] before[i],
            calls.drop_last()[i],
        ) by {
            assert(before[i] == entries[i]);
        }
        law_every_listed_call_is_made(kind, before, calls.drop_last(), scope);
        let n = entries.len() - 1;
        assert(is_entry(kind, entries[n], calls[n]));
        lemma_entry_is_called(kind, entries[n], calls[n], scope);
        assert forall|i: int| 0 <= i < calls.len() implies (#[trigger] shape::entry_intents(
            kind,
            entries,
            scope,
        )[i]) == calls[i].intent(scope) by {
            if i < n {
                assert(calls.drop_last()[i] == calls[i]);
                assert(shape::entry_intents(kind, before, scope)[i] == calls[i].intent(scope));
            }
        }
    }
}

/// An entry that is no call gives none: without a name, or of another type.
pub proof fn law_other_entries_give_no_call(kind: CallShape, entry: JsonView, scope: ScopeView)
    requires
        match kind {
            CallShape::Chat => entry.get("function"@) is None || entry.get(
                "function"@,
            )->0.str_at("name"@) is None,
            CallShape::Block => entry.str_at("type"@) != Some("tool_use"@) || entry.str_at(
                "name"@,
            ) is None,
            CallShape::Converse => entry.get("toolUse"@) is None || entry.get(
                "toolUse"@,
            )->0.str_at("name"@) is None,
            CallShape::Item => entry.str_at("type"@) != Some("function_call"@) && entry.str_at(
                "type"@,
            ) != Some("tool_call"@),
        },
    ensures
        shape::entry_intents(kind, seq![entry], scope).len() == 0,
{
    reveal_with_fuel(shape::entry_intents, 2);
    assert(seq![entry].last() == entry);
    assert(seq![entry].drop_last().len() == 0);
}

/// Arguments that are no JSON are kept as they came, with the error, and do not lose the call.
pub proof fn law_unreadable_arguments_are_kept(
    entry: JsonView,
    function: JsonView,
    name: Seq<char>,
    raw: Seq<char>,
    e: Seq<char>,
    scope: ScopeView,
)
    requires
        entry.get("function"@) == Some(function),
        function.str_at("name"@) == Some(name),
        function.str_at("arguments"@) == Some(raw),
        json::parsed_json(raw) == Err::<JsonView, Seq<char>>(e),
        scope.leases.len() == 0,
    ensures
        shape::entry_intent(CallShape::Chat, entry, scope) matches Some(intent) && {
            &&& intent.tool_name == catalog::canonical_name(name)
            &&& intent.args_json.str_at("_raw_arguments"@) == Some(raw)
            &&& intent.args_json.str_at("_parse_error"@) == Some(e)
        },
{
    assert(forall|tool: Seq<char>| bridge::lease_of(scope.leases, tool) is None);
    reveal_strlit("_raw_arguments");
    reveal_strlit("_parse_error");
    assert("_raw_arguments"@.len() == 14 && "_parse_error"@.len() == 12);
    let args = shape::arguments_from(raw, Err(e));
    let v = args->Object_0;
    reveal_with_fuel(json::lookup, 3);
    assert(v.skip(1)[0] == v[1]);
}

/// What a call leaves out: arguments are an empty object, and a number that is not given is
/// empty. An item may have its name and its arguments in its function, and its number under
/// `id`.
pub proof fn law_calls_may_leave_things_out(
    entry: JsonView,
    inner: JsonView,
    name: Seq<char>,
    id: Seq<char>,
    empty: JsonView,
    scope: ScopeView,
)
    requires
        scope.leases.len() == 0,
        json::parsed_json("{}"@) == Ok::<JsonView, Seq<char>>(empty),
    ensures
        entry.get("function"@) == Some(inner) && inner.str_at("name"@) == Some(name)
            && inner.get("arguments"@) is None && entry.get("id"@) is None ==> shape::entry_intent(
            CallShape::Chat,
            entry,
            scope,
        ) == Some((CallText { name, args: empty, id: Seq::empty() }).intent(scope)),
        entry.str_at("type"@) == Some("tool_use"@) && entry.str_at("name"@) == Some(name)
            && entry.get("input"@) is None && entry.str_at("id"@) == Some(id)
            ==> shape::entry_intent(CallShape::Block, entry, scope) == Some(
            (CallText { name, args: JsonView::Object(Seq::empty()), id }).intent(scope),
        ),
        entry.get("toolUse"@) == Some(inner) && inner.str_at("name"@) == Some(name) && inner.get(
            "input"@,
        ) is None && inner.str_at("toolUseId"@) == Some(id) ==> shape::entry_intent(
            CallShape::Converse,
            entry,
            scope,
        ) == Some((CallText { name, args: JsonView::Object(Seq::empty()), id }).intent(scope)),
        entry.str_at("type"@) == Some("function_call"@) && entry.get("name"@) is None && entry.get(
            "arguments"@,
        ) is None && entry.get("function"@) == Some(inner) && inner.str_at("name"@) == Some(name)
            && inner.get("arguments"@) is None && entry.get("call_id"@) is None && entry.str_at(
            "id"@,
        ) == Some(id) ==> shape::entry_intent(CallShape::Item, entry, scope) == Some(
            (CallText { name, args: empty, id }).intent(scope),
        ),
{
    assert(forall|tool: Seq<char>| bridge::lease_of(scope.leases, tool) is None);
}

/// A tool that was found by search is called through its lease: the call invokes it under that
/// lease with the arguments that were given, and keeps its number.
pub proof fn law_found_tools_are_called_under_their_lease(
    name: Seq<char>,
    args: JsonView,
    source: Seq<char>,
    id: Seq<char>,
    scope: ScopeView,
    tool: Seq<char>,
    lease: Seq<char>,
)
    requires
        catalog::discoverable_name(catalog::canonical_name(name)) == Some(tool),
        bridge::lease_of(scope.leases, tool) == Some(lease),
    ensures
        ({
            let intent = bridge::intent_of(name, args, source, id, scope);
            &&& intent.tool_name == "tool.invoke"@
            &&& intent.args_json.str_at("tool_id"@) == Some(tool)
            &&& intent.args_json.str_at("lease"@) == Some(lease)
            &&& intent.args_json.get("arguments"@) == Some(args)
            &&& intent.source == source
            &&& intent.tool_call_id == id
            &&& intent.session_id == scope.session_id
            &&& intent.turn_id == scope.turn_id
        }),
{
    reveal_strlit("tool_id");
    reveal_strlit("lease");
    reveal_strlit("arguments");
    assert("tool_id"@.len() == 7 && "lease"@.len() == 5 && "arguments"@.len() == 9);
    let v = bridge::intent_of(name, args, source, id, scope).args_json->Object_0;
    reveal_with_fuel(json::lookup, 4);
    assert(v.skip(1)[0] == v[1]);
    assert(v.skip(1).skip(1)[0] == v[2]);
}

/// A tool without a lease is called by its own name, with the arguments that were given.
pub proof fn law_tools_without_a_lease_are_called_directly(
    name: Seq<char>,
    args: JsonView,
    source: Seq<char>,
    id: Seq<char>,
    scope: ScopeView,
)
    requires
        bridge::lease_of(scope.leases, catalog::canonical_name(name)) is None,
        catalog::discoverable_name(catalog::canonical_name(name)) is None
            || catalog::discoverable_name(catalog::canonical_name(name)) == Some(
            catalog::canonical_name(name),
        ),
    ensures
        bridge::intent_of(name, args, source, id, scope) == (ToolIntentView {
            tool_name: catalog::canonical_name(name),
            args_json: args,
            source,
            session_id: scope.session_id,
            turn_id: scope.turn_id,
            tool_call_id: id,
        }),
{
}

// Whole answers.

/// What a chat completion asks for with its list of calls is what its turn does, and its turn
/// says what the message says.
pub proof fn law_chat_turns_make_all_calls(
    body: JsonView,
    choices: Seq<JsonView>,
    message: JsonView,
    entries: Seq<JsonView>,
    calls: Seq<CallText>,
    scope: ScopeView,
)
    requires
        body.array_at("output"@) is None,
        body.array_at("choices"@) == Some(choices),
        choices.len() > 0,
        choices[0].get("message"@) == Some(message),
        message.array_at("tool_calls"@) == Some(entries),
        entries.len() == calls.len(),
        entries.len() > 0,
        forall|i: int| 0 <= i < entries.len() ==> is_chat_entry(#[trigger] entries[i], calls[i]),
        scope.leases.len() == 0,
    ensures
        shape::turn_of(body, scope) matches Some(turn) && {
            &&& turn.tool_intents.len() == calls.len()
            &&& forall|i: int|
                0 <= i < calls.len() ==> (#[trigger] turn.tool_intents[i]) == calls[i].intent(scope)
            &&& turn.raw_meta == message
            &&& message.get("content"@) is None ==> turn.assistant_text.len() == 0
            &&& message.str_at("content"@) matches Some(s) ==> turn.assistant_text == text::trim(s)
        },
{
    law_every_listed_call_is_made(CallShape::Chat, entries, calls, scope);
    let turn = shape::turn_of(body, scope)->0;
    let all = shape::entry_intents(CallShape::Chat, entries, scope);
    assert(turn.tool_intents == all);
    assert forall|i: int| 0 <= i < calls.len() implies (#[trigger] turn.tool_intents[i])
        == calls[i].intent(scope) by {
        assert(all[i] == calls[i].intent(scope));
    }
    if let Some(s) = message.str_at("content"@) {
        if text::trim(s).len() == 0 {
            assert(text::trim(s) =~= Seq::empty());
        }
    }
}

/// What the items of an answer ask for is what its turn does.
pub proof fn law_item_turns_make_all_calls(
    body: JsonView,
    entries: Seq<JsonView>,
    calls: Seq<CallText>,
    scope: ScopeView,
)
    requires
        body.array_at("output"@) == Some(entries),
        entries.len() == calls.len(),
        entries.len() > 0,
        forall|i: int| 0 <= i < entries.len() ==> is_item_entry(#[trigger] entries[i], calls[i]),
        scope.leases.len() == 0,
    ensures
        shape::turn_of(body, scope) matches Some(turn) && {
            &&& turn.tool_intents.len() == calls.len()
            &&& forall|i: int|
                0 <= i < calls.len() ==> (#[trigger] turn.tool_intents[i]) == calls[i].intent(scope)
            &&& turn.raw_meta == body
            &&& body.str_at("output_text"@) matches Some(s) ==> turn.assistant_text == text::trim(s)
        },
{
    law_every_listed_call_is_made(CallShape::Item, entries, calls, scope);
    let turn = shape::turn_of(body, scope)->0;
    let all = shape::entry_intents(CallShape::Item, entries, scope);
    assert(turn.tool_intents == all);
    assert forall|i: int| 0 <= i < calls.len() implies (#[trigger] turn.tool_intents[i])
        == calls[i].intent(scope) by {
        assert(all[i] == calls[i].intent(scope));
    }
    if let Some(s) = body.str_at("output_text"@) {
        if text::trim(s).len() == 0 {
            assert(text::trim(s) =~= Seq::empty());
        }
    }
}

/// What the blocks of a converse message ask for is what its turn does.
pub proof fn law_converse_turns_make_all_calls(
    body: JsonView,
    output: JsonView,
    message: JsonView,
    entries: Seq<JsonView>,
    calls: Seq<CallText>,
    scope: ScopeView,
)
    requires
        body.array_at("choices"@) is None,
        body.array_at("output"@) is None,
        body.get("output"@) == Some(output),
        output.get("message"@) == Some(message),
        message.array_at("content"@) == Some(entries),
        entries.len() == calls.len(),
        forall|i: int| 0 <= i < entries.len() ==> is_converse_entry(#[trigger] entries[i], calls[i]),
        scope.leases.len() == 0,
    ensures
        shape::turn_of(body, scope) matches Some(turn) && {
            &&& turn.tool_intents.len() == calls.len()
            &&& forall|i: int|
                0 <= i < calls.len() ==> (#[trigger] turn.tool_intents[i]) == calls[i].intent(scope)
        },
{
    law_every_listed_call_is_made(CallShape::Converse, entries, calls, scope);
    let turn = shape::turn_of(body, scope)->0;
    let all = shape::entry_intents(CallShape::Converse, entries, scope);
    assert(turn.tool_intents == all);
    assert forall|i: int| 0 <= i < calls.len() implies (#[trigger] turn.tool_intents[i])
        == calls[i].intent(scope) by {
        assert(all[i] == calls[i].intent(scope));
    }
}

/// What the blocks of a message ask for is what its turn does.
pub proof fn law_block_turns_make_all_calls(
    body: JsonView,
    entries: Seq<JsonView>,
    calls: Seq<CallText>,
    scope: ScopeView,
)
    requires
        body.array_at("choices"@) is None,
        body.get("output"@) is None,
        body.array_at("content"@) == Some(entries),
        entries.len() == calls.len(),
        entries.len() > 0,
        forall|i: int| 0 <= i < entries.len() ==> is_block_entry(#[trigger] entries[i], calls[i]),
        scope.leases.len() == 0,
    ensures
        shape::turn_of(body, scope) matches Some(turn) && {
            &&& turn.tool_intents.len() == calls.len()
            &&& forall|i: int|
                0 <= i < calls.len() ==> (#[trigger] turn.tool_intents[i]) == calls[i].intent(scope)
            &&& turn.raw_meta == body
        },
{
    law_every_listed_call_is_made(CallShape::Block, entries, calls, scope);
    let turn = shape::turn_of(body, scope)->0;
    let all = shape::entry_intents(CallShape::Block, entries, scope);
    assert(turn.tool_intents == all);
    assert forall|i: int| 0 <= i < calls.len() implies (#[trigger] turn.tool_intents[i])
        == calls[i].intent(scope) by {
        assert(all[i] == calls[i].intent(scope));
    }
}

/// The session and the turn of every call are those that the answer was asked for in.
pub proof fn law_scopes_name_the_session(
    session_id: Option<&str>,
    turn_id: Option<&str>,
    messages: Seq<JsonView>,
)
    ensures
        ({
            let scope = shape::scope_of(session_id, turn_id, messages);
            &&& session_id matches Some(s) ==> scope.session_id == s@
            &&& turn_id matches Some(s) ==> scope.turn_id == s@
            &&& session_id is None ==> scope.session_id.len() == 0
            &&& turn_id is None ==> scope.turn_id.len() == 0
            &&& messages.len() == 0 ==> scope.leases.len() == 0
        }),
{
}

// Texts.

/// The texts of a list of parts are those of its first parts followed by those of the others.
pub proof fn law_texts_of_parts_are_joined(a: Seq<JsonView>, b: Seq<JsonView>)
    ensures
        shape::part_texts(a + b) == shape::part_texts(a) + shape::part_texts(b),
        shape::item_texts(a + b) == shape::item_texts(a) + shape::item_texts(b),
    decreases b.len(),
{
    if b.len() == 0 {
        assert(a + b =~= a);
    } else {
        law_texts_of_parts_are_joined(a, b.drop_last());
        assert((a + b).drop_last() =~= a + b.drop_last());
        assert((a + b).last() == b.last());
    }
    assert(shape::part_texts(a + b) =~= shape::part_texts(a) + shape::part_texts(b));
    assert(shape::item_texts(a + b) =~= shape::item_texts(a) + shape::item_texts(b));
}

/// A part says its text without the white space round it, be it given as such or as a value;
/// a part without a text says nothing.
pub proof fn law_parts_say_their_text(part: JsonView)
    ensures
        ({
            let said = shape::part_texts(seq![part]);
            &&& part.str_at("text"@) matches Some(s) ==> {
                if text::trim(s).len() > 0 {
                    said == seq![text::trim(s)]
                } else {
                    said.len() == 0
                }
            }
            &&& part.get("text"@) is None ==> said.len() == 0
            &&& part.get("text"@) matches Some(JsonView::Object(e)) ==> {
                match json::lookup(e, "value"@) {
                    Some(JsonView::Text(s)) => if text::trim(s).len() > 0 {
                        said == seq![text::trim(s)]
                    } else {
                        said.len() == 0
                    },
                    _ => said.len() == 0,
                }
            }
        }),
{
    reveal_with_fuel(shape::part_texts, 2);
    assert(seq![part].last() == part);
    assert(seq![part].drop_last().len() == 0);
    if let Some(s) = shape::part_text(part) {
        assert(Seq::<Seq<char>>::empty().push(s) =~= seq![s]);
        assert(shape::part_texts(seq![part]) =~= seq![s]);
    }
}

/// The text of a content is the text itself, or the texts of its parts on lines of their own.
pub proof fn law_contents_say_all_their_parts(parts: Seq<JsonView>, s: Seq<char>)
    ensures
        shape::content_text(JsonView::Text(s)) == (if text::trim(s).len() > 0 {
            Some(text::trim(s))
        } else {
            None
        }),
        ({
            let said = shape::part_texts(parts);
            shape::content_text(JsonView::Array(parts)) == (if said.len() > 0 && text::trim(
                text::join(said, "\n"@),
            ).len() > 0 {
                Some(text::trim(text::join(said, "\n"@)))
            } else {
                None
            })
        }),
{
}

/// An item says the text of its content exactly where it is a message; an answer of items says
/// its own text, else what its messages say, on lines of their own.
pub proof fn law_items_say_what_their_messages_say(item: JsonView, body: JsonView)
    ensures
        item.str_at("type"@) == Some("message"@) && item.get("content"@) is Some ==> ({
            let said = shape::content_text(item.get("content"@)->0);
            shape::item_texts(seq![item]) == (match said {
                Some(t) => seq![t],
                None => Seq::<Seq<char>>::empty(),
            })
        }),
        item.str_at("type"@) != Some("message"@) ==> shape::item_texts(seq![item]).len() == 0,
        body.str_at("output_text"@) matches Some(s) ==> shape::responses_text(body)
            == shape::content_text(JsonView::Text(s)),
        body.str_at("output_text"@) is None && body.array_at("output"@) is Some ==> ({
            let said = shape::item_texts(body.array_at("output"@)->0);
            shape::responses_text(body) == (if said.len() > 0 {
                shape::content_text(JsonView::Text(text::join(said, "\n"@)))
            } else {
                None
            })
        }),
{
    reveal_with_fuel(shape::item_texts, 2);
    assert(seq![item].last() == item);
    assert(seq![item].drop_last().len() == 0);
    if item.str_at("type"@) == Some("message"@) && item.get("content"@) is Some {
        match shape::content_text(item.get("content"@)->0) {
            Some(t) => {
                assert(shape::item_texts(seq![item]) =~= seq![t]);
            },
            None => {
                assert(shape::item_texts(seq![item]) =~= Seq::<Seq<char>>::empty());
            },
        }
    }
}

/// The text of an answer is that of its items, else that of its first choice, else that of its
/// converse message, else its own.
pub proof fn law_answers_say_the_text_of_their_interface(body: JsonView, message: JsonView)
    ensures
        shape::responses_text(body) is Some ==> shape::answer_text(body) == shape::responses_text(
            body,
        ),
        shape::responses_text(body) is None && body.array_at("choices"@) is Some && body.array_at(
            "choices"@,
        )->0.len() > 0 && body.array_at("choices"@)->0[0].get("message"@) == Some(message)
            && message.get("content"@) is Some ==> shape::answer_text(body) == shape::content_text(
            message.get("content"@)->0,
        ),
        shape::responses_text(body) is None && body.array_at("choices"@) is None && body.get(
            "output"@,
        ) is Some && body.get("output"@)->0.get("message"@) == Some(message) && message.get(
            "content"@,
        ) is Some ==> shape::answer_text(body) == shape::content_text(message.get("content"@)->0),
        shape::responses_text(body) is None && body.array_at("choices"@) is None && body.get(
            "output"@,
        ) is None && body.get("content"@) is Some ==> shape::answer_text(body)
            == shape::content_text(body.get("content"@)->0),
{
}

/// A chat completion without a list of calls makes the calls that its text gives as JSON, else
/// those that it gives as marked functions, else none; what is left of the text is said.
pub proof fn law_calls_in_the_text_are_made(
    body: JsonView,
    choices: Seq<JsonView>,
    message: JsonView,
    said: Seq<char>,
    scope: ScopeView,
)
    requires
        body.array_at("output"@) is None,
        body.array_at("choices"@) == Some(choices),
        choices.len() > 0,
        choices[0].get("message"@) == Some(message),
        message.get("tool_calls"@) is None,
        message.str_at("content"@) == Some(said),
        text::trim(said).len() > 0,
    ensures
        shape::turn_of(body, scope) matches Some(turn) && {
            let found = blocks::json_calls(text::trim(said), scope);
            let marked = functions::function_calls(text::trim(said), scope);
            &&& found matches BlockView::Parsed { cleaned_text, tool_intents }
                ==> tool_intents.len() > 0 ==> turn.tool_intents == tool_intents
                && turn.assistant_text == cleaned_text
            &&& !(found is Parsed) ==> match marked {
                BlockView::Parsed { cleaned_text, tool_intents } => turn.tool_intents
                    == tool_intents && turn.assistant_text == cleaned_text,
                _ => turn.tool_intents.len() == 0 && turn.assistant_text == text::trim(said),
            }
            &&& !(found is Parsed) ==> turn.raw_meta == shape::with_parse_note(
                shape::with_parse_note(message, "json_tool_block"@, found),
                "inline_function"@,
                marked,
            )
            &&& found is Parsed && found->tool_intents.len() > 0 ==> turn.raw_meta
                == shape::with_parse_note(message, "json_tool_block"@, found)
        },
{
}

/// An answer that says nothing and calls nothing is no turn.
pub proof fn law_empty_answers_are_no_turn(body: JsonView, scope: ScopeView)
    requires
        body.get("output"@) is None,
        body.get("choices"@) is None,
        body.get("content"@) is None,
    ensures
        shape::turn_of(body, scope) is None,
{
}

/// What came of the search for calls in a text is noted with what is known of the answer: how
/// it went, and how many calls there were. What else is known stays.
pub proof fn law_searches_are_noted(
    e: Seq<(Seq<char>, JsonView)>,
    key: Seq<char>,
    found: BlockView,
    other: Seq<char>,
)
    requires
        json::lookup(e, "loongclaw_provider_parse"@) is None,
    ensures
        ({
            let noted = shape::with_parse_note(JsonView::Object(e), key, found);
            let notes = noted.get("loongclaw_provider_parse"@);
            &&& found is Absent ==> noted == JsonView::Object(e)
            &&& other != "loongclaw_provider_parse"@ ==> noted.get(other) == JsonView::Object(
                e,
            ).get(other)
            &&& found matches BlockView::Parsed { tool_intents, .. } ==> {
                &&& notes is Some
                &&& notes->0.get(key) is Some
                &&& notes->0.get(key)->0.str_at("status"@) == Some("parsed"@)
                &&& notes->0.get(key)->0.get("tool_count"@) == Some(
                    JsonView::Integer(tool_intents.len() as int),
                )
                &&& notes->0.get(key)->0.get("error_code"@) is None
            }
            &&& found matches BlockView::Malformed { tool_count, error_code } ==> {
                &&& notes is Some
                &&& notes->0.get(key) is Some
                &&& notes->0.get(key)->0.str_at("status"@) == Some("malformed"@)
                &&& notes->0.get(key)->0.get("tool_count"@) == Some(
                    JsonView::Integer(tool_count as int),
                )
                &&& notes->0.get(key)->0.str_at("error_code"@) == Some(error_code)
            }
        }),
{
    reveal_strlit("status");
    reveal_strlit("tool_count");
    reveal_strlit("error_code");
    assert("status"@.len() == 6 && "tool_count"@.len() == 10 && "error_code"@.len() == 10);
    assert("tool_count"@[0] == 't' && "error_code"@[0] == 'e');
    reveal_with_fuel(json::lookup, 4);
    match found {
        BlockView::Parsed { tool_intents, .. } => {
            let note = shape::parse_note("parsed"@, tool_intents.len(), None);
            let v = note->Object_0;
            assert(v.skip(1)[0] == v[1]);
            assert(v.skip(1).skip(1).len() == 0);
            let one = seq![(key, note)];
            assert(one[0] == (key, note));
            texts::law_setting_a_key_changes_it_alone(
                e,
                "loongclaw_provider_parse"@,
                JsonView::Object(one),
                other,
            );
        },
        BlockView::Malformed { tool_count, error_code } => {
            let note = shape::parse_note("malformed"@, tool_count, Some(error_code));
            let v = note->Object_0;
            assert(v.skip(1)[0] == v[1]);
            assert(v.skip(1).skip(1)[0] == v[2]);
            let one = seq![(key, note)];
            assert(one[0] == (key, note));
            texts::law_setting_a_key_changes_it_alone(
                e,
                "loongclaw_provider_parse"@,
                JsonView::Object(one),
                other,
            );
        },
        BlockView::Absent => {},
    }
}

/// The blocks of a converse message are those of its first blocks followed by those of the
/// others; a block of text is one of text, a call is one of a call with its number, its name
/// and its input.
pub proof fn law_converse_messages_keep_their_blocks(
    a: Seq<JsonView>,
    b: Seq<JsonView>,
    block: JsonView,
    call: JsonView,
    s: Seq<char>,
    id: Seq<char>,
    name: Seq<char>,
)
    ensures
        shape::converse_blocks(a + b) == shape::converse_blocks(a) + shape::converse_blocks(b),
        block.str_at("text"@) == Some(s) && text::trim(s).len() > 0 ==> shape::converse_block(block)
            == Some(
            JsonView::Object(
                seq![("type"@, JsonView::Text("text"@)), ("text"@, JsonView::Text(text::trim(s)))],
            ),
        ),
        block.get("text"@) is None && block.get("toolUse"@) == Some(call) && call.str_at(
            "toolUseId"@,
        ) == Some(id) && call.str_at("name"@) == Some(name) && call.get("input"@) is Some
            ==> shape::converse_block(block) == Some(
            JsonView::Object(
                seq![
                    ("type"@, JsonView::Text("tool_use"@)),
                    ("id"@, JsonView::Text(id)),
                    ("name"@, JsonView::Text(name)),
                    ("input"@, call.get("input"@)->0),
                ],
            ),
        ),
    decreases b.len(),
{
    if b.len() == 0 {
        assert(a + b =~= a);
    } else {
        law_converse_messages_keep_their_blocks(a, b.drop_last(), block, call, s, id, name);
        assert((a + b).drop_last() =~= a + b.drop_last());
        assert((a + b).last() == b.last());
    }
    assert(shape::converse_blocks(a + b) =~= shape::converse_blocks(a) + shape::converse_blocks(b));
}

/// Calls that a text gives take the place of the text; where there are none, or they cannot be
/// read, the text stays, and nothing is called.
pub proof fn law_text_calls_take_the_place_of_the_text(
    turn: ProviderTurnView,
    key: Seq<char>,
    found: BlockView,
)
    ensures
        ({
            let next = shape::with_text_calls(turn, key, found);
            &&& turn.tool_intents.len() > 0 ==> next == turn
            &&& turn.tool_intents.len() == 0 ==> match found {
                BlockView::Parsed { cleaned_text, tool_intents } => {
                    &&& next.assistant_text == cleaned_text
                    &&& next.tool_intents == tool_intents
                },
                BlockView::Malformed { .. } => {
                    &&& next.assistant_text == turn.assistant_text
                    &&& next.tool_intents == turn.tool_intents
                },
                BlockView::Absent => next == turn,
            }
        }),
{
}

/// A converse message keeps its role and its blocks.
pub proof fn law_converse_messages_keep_their_role(message: JsonView)
    ensures
        ({
            let kept = shape::converse_as_blocks(message);
            &&& message.str_at("role"@) matches Some(role) ==> kept.str_at("role"@) == Some(role)
            &&& message.get("role"@) is None ==> kept.str_at("role"@) == Some("assistant"@)
            &&& message.array_at("content"@) matches Some(v) ==> kept.array_at("content"@) == Some(
                shape::converse_blocks(v),
            )
        }),
{
    reveal_strlit("role");
    reveal_strlit("content");
    assert("role"@.len() == 4 && "content"@.len() == 7);
    let v = shape::converse_as_blocks(message)->Object_0;
    reveal_with_fuel(json::lookup, 3);
    assert(v.skip(1)[0] == v[1]);
}

} // verus!
