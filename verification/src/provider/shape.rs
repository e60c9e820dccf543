//! Turns of the provider, read from the answers of the interfaces that there are.
use crate::conversation;
use crate::conversation::{ProviderTurn, ProviderTurnView, ToolIntent, ToolIntentView};
use crate::json;
use crate::json::{
    array, no_entries, no_values, object, parse_json, push_entry, push_value, put_entry, text_value,
    Json, JsonView,
};
use crate::provider::blocks;
use crate::provider::blocks::{extract_json_tool_call_turn, BlockView, ToolBlockParse};
use crate::provider::bridge;
use crate::provider::bridge::{
    build_provider_tool_intent, tool_call_scope, ScopeView, ToolCallScope,
};
use crate::provider::functions;
use crate::provider::functions::extract_inline_function_call_turn;
use crate::text;
use crate::text::{joined_texts, same, trimmed_str};
use vstd::prelude::*;

verus! {

// Content.

/// A text without white space at its ends, where there is more to it.
pub open spec fn normalized(raw: Seq<char>) -> Option<Seq<char>> {
    if text::trim(raw).len() == 0 {
        None
    } else {
        Some(text::trim(raw))
    }
}

/// A text without white space at its ends, where there is more to it.
pub fn normalize_text(raw: &str) -> (r: Option<String>)
    ensures
        text::opt_text(r) == normalized(raw@),
{
    let body = trimmed_str(raw);
    if body.as_str().is_empty() {
        None
    } else {
        Some(body)
    }
}

/// The text of a part of a content.
pub open spec fn part_text(part: JsonView) -> Option<Seq<char>> {
    match part.get("text"@) {
        Some(v) => match v.as_str() {
            Some(s) => normalized(s),
            None => match v.str_at("value"@) {
                Some(s) => normalized(s),
                None => None,
            },
        },
        None => None,
    }
}

/// The text of a part of a content.
pub fn extract_content_part_text(part: &Json) -> (r: Option<String>)
    ensures
        text::opt_text(r) == part_text(part@),
{
    match part.get("text") {
        Some(v) => match v.as_str() {
            Some(s) => normalize_text(s),
            None => match v.str_at("value") {
                Some(s) => normalize_text(s),
                None => None,
            },
        },
        None => None,
    }
}

/// The texts of the parts that have one.
pub open spec fn part_texts(parts: Seq<JsonView>) -> Seq<Seq<char>>
    decreases parts.len(),
{
    if parts.len() == 0 {
        Seq::empty()
    } else {
        match part_text(parts.last()) {
            Some(s) => part_texts(parts.drop_last()).push(s),
            None => part_texts(parts.drop_last()),
        }
    }
}

/// Texts on lines of their own, where there are any.
pub open spec fn merged(v: Seq<Seq<char>>) -> Option<Seq<char>> {
    if v.len() == 0 {
        None
    } else {
        normalized(text::join(v, "\n"@))
    }
}

/// The text of a content: a text, or a list of parts.
pub open spec fn content_text(content: JsonView) -> Option<Seq<char>> {
    match content {
        JsonView::Text(s) => normalized(s),
        JsonView::Array(parts) => merged(part_texts(parts)),
        _ => None,
    }
}

fn merge(v: &Vec<String>) -> (r: Option<String>)
    ensures
        text::opt_text(r) == merged(text::texts(v@)),
{
    if v.len() == 0 {
        return None;
    }
    let all = joined_texts(v, "\n");
    normalize_text(all.as_str())
}

/// The text of a content: a text, or a list of parts.
pub fn extract_content_text(content: &Json) -> (r: Option<String>)
    ensures
        text::opt_text(r) == content_text(content@),
{
    if let Some(s) = content.as_str() {
        return normalize_text(s);
    }
    let parts = match content.as_array() {
        Some(parts) => parts,
        None => {
            return None;
        },
    };
    let ghost all = json::values(parts@);
    let mut texts: Vec<String> = Vec::new();
    let mut i: usize = 0;
    assert(text::texts(texts@) =~= part_texts(all.take(0)));
    while i < parts.len()
        invariant
            i <= parts@.len(),
            all == json::values(parts@),
            text::texts(texts@) == part_texts(all.take(i as int)),
        decreases parts@.len() - i,
    {
        assert(all.take(i + 1).drop_last() =~= all.take(i as int));
        assert(all.take(i + 1).last() == parts@[i as int]@);
        if let Some(s) = extract_content_part_text(&parts[i]) {
            proof {
                text::lemma_texts_push(texts@, s);
            }
            texts.push(s);
        }
        i += 1;
    }
    assert(all.take(i as int) =~= all);
    merge(&texts)
}

/// The text under `content`.
pub open spec fn content_of(value: JsonView) -> Option<Seq<char>> {
    match value.get("content"@) {
        Some(c) => content_text(c),
        None => None,
    }
}

/// The text under `content`.
pub fn message_content(value: &Json) -> (r: Option<String>)
    ensures
        text::opt_text(r) == content_of(value@),
{
    match value.get("content") {
        Some(c) => extract_content_text(c),
        None => None,
    }
}

/// An optional text, or an empty one.
pub open spec fn or_nothing(o: Option<Seq<char>>) -> Seq<char> {
    match o {
        Some(s) => s,
        None => Seq::empty(),
    }
}

fn text_or_nothing(o: Option<String>) -> (r: String)
    ensures
        r@ == or_nothing(text::opt_text(o)),
{
    match o {
        Some(s) => s,
        None => String::new(),
    }
}

/// The message of a chat completion.
pub open spec fn chat_message(body: JsonView) -> Option<JsonView> {
    match body.array_at("choices"@) {
        Some(choices) => if choices.len() > 0 {
            choices[0].get("message"@)
        } else {
            None
        },
        None => None,
    }
}

/// The message of a chat completion.
pub fn openai_message(body: &Json) -> (r: Option<&Json>)
    ensures
        blocks::opt_json(r) == chat_message(body@),
{
    match body.array_at("choices") {
        Some(choices) => if choices.len() > 0 {
            assert(json::values(choices@)[0] == choices@[0]@);
            choices[0].get("message")
        } else {
            None
        },
        None => None,
    }
}

/// The message of a converse answer.
pub open spec fn converse_message(body: JsonView) -> Option<JsonView> {
    match body.get("output"@) {
        Some(output) => output.get("message"@),
        None => None,
    }
}

/// The message of a converse answer.
pub fn bedrock_message(body: &Json) -> (r: Option<&Json>)
    ensures
        blocks::opt_json(r) == converse_message(body@),
{
    match body.get("output") {
        Some(output) => output.get("message"),
        None => None,
    }
}

/// The texts of the messages among the items of an answer.
pub open spec fn item_texts(items: Seq<JsonView>) -> Seq<Seq<char>>
    decreases items.len(),
{
    if items.len() == 0 {
        Seq::empty()
    } else {
        let before = item_texts(items.drop_last());
        if items.last().str_at("type"@) == Some("message"@) {
            match content_of(items.last()) {
                Some(s) => before.push(s),
                None => before,
            }
        } else {
            before
        }
    }
}

/// The text of an answer of items.
pub open spec fn responses_text(body: JsonView) -> Option<Seq<char>> {
    match body.str_at("output_text"@) {
        Some(s) => normalized(s),
        None => match body.array_at("output"@) {
            Some(items) => merged(item_texts(items)),
            None => None,
        },
    }
}

fn has_str(value: &Json, key: &str, expected: &str) -> (r: bool)
    ensures
        r == (value@.str_at(key@) == Some(expected@)),
{
    match value.str_at(key) {
        Some(s) => same(s, expected),
        None => false,
    }
}

/// The text of an answer of items.
pub fn extract_responses_message_content(body: &Json) -> (r: Option<String>)
    ensures
        text::opt_text(r) == responses_text(body@),
{
    if let Some(s) = body.str_at("output_text") {
        return normalize_text(s);
    }
    let items = match body.array_at("output") {
        Some(items) => items,
        None => {
            return None;
        },
    };
    let ghost all = json::values(items@);
    let mut texts: Vec<String> = Vec::new();
    let mut i: usize = 0;
    assert(text::texts(texts@) =~= item_texts(all.take(0)));
    while i < items.len()
        invariant
            i <= items@.len(),
            all == json::values(items@),
            text::texts(texts@) == item_texts(all.take(i as int)),
        decreases items@.len() - i,
    {
        assert(all.take(i + 1).drop_last() =~= all.take(i as int));
        assert(all.take(i + 1).last() == items@[i as int]@);
        if has_str(&items[i], "type", "message") {
            if let Some(s) = message_content(&items[i]) {
                proof {
                    text::lemma_texts_push(texts@, s);
                }
                texts.push(s);
            }
        }
        i += 1;
    }
    assert(all.take(i as int) =~= all);
    merge(&texts)
}

/// The text of an answer of whichever interface.
pub open spec fn answer_text(body: JsonView) -> Option<Seq<char>> {
    match responses_text(body) {
        Some(s) => Some(s),
        None => {
            let message = blocks::either(chat_message(body), converse_message(body));
            let content = blocks::either(
                match message {
                    Some(m) => m.get("content"@),
                    None => None,
                },
                body.get("content"@),
            );
            match content {
                Some(c) => content_text(c),
                None => None,
            }
        },
    }
}

/// The text of an answer of whichever interface.
pub fn extract_message_content(body: &Json) -> (r: Option<String>)
    ensures
        text::opt_text(r) == answer_text(body@),
{
    if let Some(s) = extract_responses_message_content(body) {
        return Some(s);
    }
    let message = match openai_message(body) {
        Some(m) => Some(m),
        None => bedrock_message(body),
    };
    let own = match message {
        Some(m) => m.get("content"),
        None => None,
    };
    let content = match own {
        Some(c) => Some(c),
        None => body.get("content"),
    };
    match content {
        Some(c) => extract_content_text(c),
        None => None,
    }
}

// Tool calls.

/// The arguments that a text gives: what it reads as, else the text and why it reads as
/// nothing.
pub open spec fn arguments_from(raw: Seq<char>, parsed: Result<JsonView, Seq<char>>) -> JsonView {
    match parsed {
        Ok(v) => v,
        Err(e) => JsonView::Object(
            seq![("_parse_error"@, JsonView::Text(e)), ("_raw_arguments"@, JsonView::Text(raw))],
        ),
    }
}

/// The arguments that a text gives, where it reads as JSON as `parsed`.
pub fn arguments_or_error(raw: &str, parsed: Result<Json, String>) -> (r: Json)
    ensures
        r@ == arguments_from(raw@, functions::json_result(parsed)),
{
    match parsed {
        Ok(v) => v,
        Err(e) => {
            let mut v = no_entries();
            push_entry(&mut v, "_parse_error", text_value(e.as_str()));
            push_entry(&mut v, "_raw_arguments", text_value(raw));
            assert(json::entries(v@) =~= seq![
                ("_parse_error"@, JsonView::Text(e@)),
                ("_raw_arguments"@, JsonView::Text(raw@)),
            ]);
            object(v)
        },
    }
}

fn parse_arguments(raw: &str) -> (r: Json)
    ensures
        r@ == arguments_from(raw@, json::parsed_json(raw@)),
{
    arguments_or_error(raw, parse_json(raw))
}

/// The tool call of an entry of a chat completion.
pub open spec fn chat_intent(call: JsonView, scope: ScopeView) -> Option<ToolIntentView> {
    match call.get("function"@) {
        Some(function) => match function.str_at("name"@) {
            Some(name) => {
                let raw = match function.str_at("arguments"@) {
                    Some(s) => s,
                    None => "{}"@,
                };
                Some(
                    bridge::intent_of(
                        name,
                        arguments_from(raw, json::parsed_json(raw)),
                        "provider_tool_call"@,
                        or_nothing(call.str_at("id"@)),
                        scope,
                    ),
                )
            },
            None => None,
        },
        None => None,
    }
}

/// The value under `input`, or an empty object.
pub open spec fn input_of(value: JsonView) -> JsonView {
    match value.get("input"@) {
        Some(v) => v,
        None => JsonView::Object(Seq::empty()),
    }
}

/// The tool call of a block of a message.
pub open spec fn block_intent(block: JsonView, scope: ScopeView) -> Option<ToolIntentView> {
    if block.str_at("type"@) != Some("tool_use"@) {
        None
    } else {
        match block.str_at("name"@) {
            Some(name) => Some(
                bridge::intent_of(
                    name,
                    input_of(block),
                    "provider_tool_call"@,
                    or_nothing(block.str_at("id"@)),
                    scope,
                ),
            ),
            None => None,
        }
    }
}

/// The tool call of a block of a converse message.
pub open spec fn converse_intent(block: JsonView, scope: ScopeView) -> Option<ToolIntentView> {
    match block.get("toolUse"@) {
        Some(call) => match call.str_at("name"@) {
            Some(name) => Some(
                bridge::intent_of(
                    name,
                    input_of(call),
                    "provider_tool_call"@,
                    or_nothing(call.str_at("toolUseId"@)),
                    scope,
                ),
            ),
            None => None,
        },
        None => None,
    }
}

/// The text under `key` of the value or of its function.
pub open spec fn own_or_function(item: JsonView, key: Seq<char>) -> Option<Seq<char>> {
    match item.str_at(key) {
        Some(s) => Some(s),
        None => match item.get("function"@) {
            Some(function) => function.str_at(key),
            None => None,
        },
    }
}

/// The tool call of an item of an answer.
pub open spec fn item_intent(item: JsonView, scope: ScopeView) -> Option<ToolIntentView> {
    if item.str_at("type"@) != Some("function_call"@) && item.str_at("type"@) != Some(
        "tool_call"@,
    ) {
        None
    } else {
        match own_or_function(item, "name"@) {
            Some(name) => {
                let raw = match own_or_function(item, "arguments"@) {
                    Some(s) => s,
                    None => "{}"@,
                };
                Some(
                    bridge::intent_of(
                        name,
                        arguments_from(raw, json::parsed_json(raw)),
                        "provider_tool_call"@,
                        or_nothing(blocks::either(item.str_at("call_id"@), item.str_at("id"@))),
                        scope,
                    ),
                )
            },
            None => None,
        }
    }
}

/// The interface that an entry with a tool call belongs to.
#[derive(Clone, Copy, PartialEq, Eq, Structural)]
pub enum CallShape {
    Chat,
    Block,
    Converse,
    Item,
}

/// The tool call of an entry.
pub open spec fn entry_intent(shape: CallShape, entry: JsonView, scope: ScopeView) -> Option<
    ToolIntentView,
> {
    match shape {
        CallShape::Chat => chat_intent(entry, scope),
        CallShape::Block => block_intent(entry, scope),
        CallShape::Converse => converse_intent(entry, scope),
        CallShape::Item => item_intent(entry, scope),
    }
}

/// The tool calls of the entries that have one, in their order.
pub open spec fn entry_intents(shape: CallShape, entries: Seq<JsonView>, scope: ScopeView) -> Seq<
    ToolIntentView,
>
    decreases entries.len(),
{
    if entries.len() == 0 {
        Seq::empty()
    } else {
        match entry_intent(shape, entries.last(), scope) {
            Some(x) => entry_intents(shape, entries.drop_last(), scope).push(x),
            None => entry_intents(shape, entries.drop_last(), scope),
        }
    }
}

/// The tool calls of the list under `key`.
pub open spec fn intents_at(
    shape: CallShape,
    value: JsonView,
    key: Seq<char>,
    scope: ScopeView,
) -> Seq<ToolIntentView> {
    match value.array_at(key) {
        Some(entries) => entry_intents(shape, entries, scope),
        None => Seq::empty(),
    }
}

fn str_or<'a>(o: Option<&'a str>, other: &'static str) -> (r: String)
    ensures
        r@ == (match o {
            Some(s) => s@,
            None => other@,
        }),
{
    match o {
        Some(s) => s.to_owned(),
        None => other.to_owned(),
    }
}

fn str_or_nothing(o: Option<&str>) -> (r: String)
    ensures
        r@ == or_nothing(text::opt_str(o)),
{
    match o {
        Some(s) => s.to_owned(),
        None => String::new(),
    }
}

fn input_value(value: &Json) -> (r: Json)
    ensures
        r@ == input_of(value@),
{
    match value.get("input") {
        Some(v) => v.duplicate(),
        None => object(no_entries()),
    }
}

fn openai_tool_intent(call: &Json, scope: &ToolCallScope) -> (r: Option<ToolIntent>)
    ensures
        opt_intent(r) == chat_intent(call@, scope@),
{
    let function = match call.get("function") {
        Some(f) => f,
        None => {
            return None;
        },
    };
    let name = match function.str_at("name") {
        Some(s) => s,
        None => {
            return None;
        },
    };
    let raw = str_or(function.str_at("arguments"), "{}");
    Some(
        build_provider_tool_intent(
            name,
            parse_arguments(raw.as_str()),
            "provider_tool_call",
            str_or_nothing(call.str_at("id")),
            scope,
        ),
    )
}

fn anthropic_tool_intent(block: &Json, scope: &ToolCallScope) -> (r: Option<ToolIntent>)
    ensures
        opt_intent(r) == block_intent(block@, scope@),
{
    if !has_str(block, "type", "tool_use") {
        return None;
    }
    match block.str_at("name") {
        Some(name) => Some(
            build_provider_tool_intent(
                name,
                input_value(block),
                "provider_tool_call",
                str_or_nothing(block.str_at("id")),
                scope,
            ),
        ),
        None => None,
    }
}

fn bedrock_tool_intent(block: &Json, scope: &ToolCallScope) -> (r: Option<ToolIntent>)
    ensures
        opt_intent(r) == converse_intent(block@, scope@),
{
    let call = match block.get("toolUse") {
        Some(c) => c,
        None => {
            return None;
        },
    };
    match call.str_at("name") {
        Some(name) => Some(
            build_provider_tool_intent(
                name,
                input_value(call),
                "provider_tool_call",
                str_or_nothing(call.str_at("toolUseId")),
                scope,
            ),
        ),
        None => None,
    }
}

fn str_of_item<'a>(item: &'a Json, key: &str) -> (r: Option<&'a str>)
    ensures
        text::opt_str(r) == own_or_function(item@, key@),
{
    match item.str_at(key) {
        Some(s) => Some(s),
        None => match item.get("function") {
            Some(function) => function.str_at(key),
            None => None,
        },
    }
}

fn response_tool_intent_from_item(item: &Json, scope: &ToolCallScope) -> (r: Option<ToolIntent>)
    ensures
        opt_intent(r) == item_intent(item@, scope@),
{
    if !has_str(item, "type", "function_call") && !has_str(item, "type", "tool_call") {
        return None;
    }
    let name = match str_of_item(item, "name") {
        Some(s) => s,
        None => {
            return None;
        },
    };
    let raw = str_or(str_of_item(item, "arguments"), "{}");
    let id = match item.str_at("call_id") {
        Some(s) => Some(s),
        None => item.str_at("id"),
    };
    Some(
        build_provider_tool_intent(
            name,
            parse_arguments(raw.as_str()),
            "provider_tool_call",
            str_or_nothing(id),
            scope,
        ),
    )
}

/// The view of an optional tool call.
pub open spec fn opt_intent(o: Option<ToolIntent>) -> Option<ToolIntentView> {
    match o {
        Some(x) => Some(x@),
        None => None,
    }
}

/// The tool calls of the list under `key`.
pub fn extract_tool_intents(shape: CallShape, value: &Json, key: &str, scope: &ToolCallScope) -> (r:
    Vec<ToolIntent>)
    ensures
        conversation::intent_views(r@) == intents_at(shape, value@, key@, scope@),
{
    let mut r: Vec<ToolIntent> = Vec::new();
    assert(conversation::intent_views(r@) =~= Seq::empty());
    let entries = match value.array_at(key) {
        Some(entries) => entries,
        None => {
            return r;
        },
    };
    let ghost all = json::values(entries@);
    let mut i: usize = 0;
    while i < entries.len()
        invariant
            i <= entries@.len(),
            all == json::values(entries@),
            conversation::intent_views(r@) == entry_intents(shape, all.take(i as int), scope@),
        decreases entries@.len() - i,
    {
        assert(all.take(i + 1).drop_last() =~= all.take(i as int));
        assert(all.take(i + 1).last() == entries@[i as int]@);
        let found = match shape {
            CallShape::Chat => openai_tool_intent(&entries[i], scope),
            CallShape::Block => anthropic_tool_intent(&entries[i], scope),
            CallShape::Converse => bedrock_tool_intent(&entries[i], scope),
            CallShape::Item => response_tool_intent_from_item(&entries[i], scope),
        };
        if let Some(x) = found {
            assert(conversation::intent_views(r@.push(x)) =~= conversation::intent_views(r@).push(
                x@,
            ));
            r.push(x);
        }
        i += 1;
    }
    assert(all.take(i as int) =~= all);
    r
}

// Converse messages.

/// A block of a converse message as a block of a message.
pub open spec fn converse_block(block: JsonView) -> Option<JsonView> {
    let said = match block.str_at("text"@) {
        Some(s) => normalized(s),
        None => None,
    };
    match said {
        Some(s) => Some(
            JsonView::Object(
                seq![("type"@, JsonView::Text("text"@)), ("text"@, JsonView::Text(s))],
            ),
        ),
        None => match block.get("toolUse"@) {
            Some(call) => match (call.str_at("toolUseId"@), call.str_at("name"@)) {
                (Some(id), Some(name)) => Some(
                    JsonView::Object(
                        seq![
                            ("type"@, JsonView::Text("tool_use"@)),
                            ("id"@, JsonView::Text(id)),
                            ("name"@, JsonView::Text(name)),
                            ("input"@, input_of(call)),
                        ],
                    ),
                ),
                _ => None,
            },
            None => None,
        },
    }
}

/// A block of a converse message as a block of a message.
pub fn normalize_bedrock_content_block(block: &Json) -> (r: Option<Json>)
    ensures
        (match r {
            Some(v) => converse_block(block@) == Some(v@),
            None => converse_block(block@) is None,
        }),
{
    let said = match block.str_at("text") {
        Some(s) => normalize_text(s),
        None => None,
    };
    if let Some(s) = said {
        let mut v = no_entries();
        push_entry(&mut v, "type", text_value("text"));
        push_entry(&mut v, "text", text_value(s.as_str()));
        assert(json::entries(v@) =~= seq![
            ("type"@, JsonView::Text("text"@)),
            ("text"@, JsonView::Text(s@)),
        ]);
        return Some(object(v));
    }
    let call = match block.get("toolUse") {
        Some(c) => c,
        None => {
            return None;
        },
    };
    let id = match call.str_at("toolUseId") {
        Some(s) => s,
        None => {
            return None;
        },
    };
    let name = match call.str_at("name") {
        Some(s) => s,
        None => {
            return None;
        },
    };
    let mut v = no_entries();
    push_entry(&mut v, "type", text_value("tool_use"));
    push_entry(&mut v, "id", text_value(id));
    push_entry(&mut v, "name", text_value(name));
    push_entry(&mut v, "input", input_value(call));
    assert(json::entries(v@) =~= seq![
        ("type"@, JsonView::Text("tool_use"@)),
        ("id"@, JsonView::Text(id@)),
        ("name"@, JsonView::Text(name@)),
        ("input"@, input_of(call@)),
    ]);
    Some(object(v))
}

/// The blocks of a converse message as blocks of a message.
pub open spec fn converse_blocks(v: Seq<JsonView>) -> Seq<JsonView>
    decreases v.len(),
{
    if v.len() == 0 {
        Seq::empty()
    } else {
        match converse_block(v.last()) {
            Some(b) => converse_blocks(v.drop_last()).push(b),
            None => converse_blocks(v.drop_last()),
        }
    }
}

/// A converse message as a message of blocks.
pub open spec fn converse_as_blocks(message: JsonView) -> JsonView {
    JsonView::Object(
        seq![
            (
                "role"@,
                JsonView::Text(
                    match message.str_at("role"@) {
                        Some(s) => s,
                        None => "assistant"@,
                    },
                ),
            ),
            (
                "content"@,
                JsonView::Array(
                    match message.array_at("content"@) {
                        Some(v) => converse_blocks(v),
                        None => Seq::empty(),
                    },
                ),
            ),
        ],
    )
}

/// A converse message as a message of blocks.
pub fn normalize_bedrock_message(message: &Json) -> (r: Json)
    ensures
        r@ == converse_as_blocks(message@),
{
    let role = str_or(message.str_at("role"), "assistant");
    let mut content = no_values();
    if let Some(found) = message.array_at("content") {
        let ghost all = json::values(found@);
        let mut i: usize = 0;
        assert(json::values(content@) =~= converse_blocks(all.take(0)));
        while i < found.len()
            invariant
                i <= found@.len(),
                all == json::values(found@),
                json::values(content@) == converse_blocks(all.take(i as int)),
            decreases found@.len() - i,
        {
            assert(all.take(i + 1).drop_last() =~= all.take(i as int));
            assert(all.take(i + 1).last() == found@[i as int]@);
            if let Some(b) = normalize_bedrock_content_block(&found[i]) {
                push_value(&mut content, b);
            }
            i += 1;
        }
        assert(all.take(i as int) =~= all);
    }
    let ghost shown = json::values(content@);
    let mut v = no_entries();
    push_entry(&mut v, "role", text_value(role.as_str()));
    push_entry(&mut v, "content", array(content));
    assert(json::entries(v@) =~= converse_as_blocks(message@)->Object_0);
    object(v)
}

// Telemetry.

/// What is noted of the search for tool calls in a text.
pub open spec fn parse_note(status: Seq<char>, tool_count: nat, error_code: Option<Seq<char>>) -> JsonView {
    let head = seq![
        ("status"@, JsonView::Text(status)),
        ("tool_count"@, JsonView::Integer(tool_count as int)),
    ];
    JsonView::Object(
        match error_code {
            Some(code) => head.push(("error_code"@, JsonView::Text(code))),
            None => head,
        },
    )
}

/// An object with a note under `key` of its notes on parsing; anything else, or an
/// object whose notes are no object, gets none.
pub open spec fn with_note(meta: JsonView, key: Seq<char>, note: JsonView) -> JsonView {
    match meta {
        JsonView::Object(e) => match json::lookup(e, "loongclaw_provider_parse"@) {
            None => JsonView::Object(
                json::with_entry(
                    e,
                    "loongclaw_provider_parse"@,
                    JsonView::Object(seq![(key, note)]),
                ),
            ),
            Some(JsonView::Object(notes)) => JsonView::Object(
                json::with_entry(
                    e,
                    "loongclaw_provider_parse"@,
                    JsonView::Object(json::with_entry(notes, key, note)),
                ),
            ),
            Some(_) => meta,
        },
        _ => meta,
    }
}

/// An object with what came of the search for tool calls in a text.
pub open spec fn with_parse_note(meta: JsonView, key: Seq<char>, found: BlockView) -> JsonView {
    match found {
        BlockView::Parsed { tool_intents, .. } => with_note(
            meta,
            key,
            parse_note("parsed"@, tool_intents.len(), None),
        ),
        BlockView::Malformed { tool_count, error_code } => with_note(
            meta,
            key,
            parse_note("malformed"@, tool_count, Some(error_code)),
        ),
        BlockView::Absent => meta,
    }
}

fn note_value(status: &str, tool_count: usize, error_code: Option<&str>) -> (r: Json)
    ensures
        r@ == parse_note(status@, tool_count as nat, text::opt_str(error_code)),
{
    let mut v = no_entries();
    push_entry(&mut v, "status", text_value(status));
    push_entry(&mut v, "tool_count", Json::Unsigned(tool_count as u64));
    assert(json::entries(v@) =~= seq![
        ("status"@, JsonView::Text(status@)),
        ("tool_count"@, JsonView::Integer(tool_count as int)),
    ]);
    if let Some(code) = error_code {
        push_entry(&mut v, "error_code", text_value(code));
    }
    object(v)
}

/// Puts a note under `key` of the notes on parsing of an object.
pub fn attach_provider_parse_telemetry(
    meta: Json,
    key: &str,
    status: &str,
    tool_count: usize,
    error_code: Option<&str>,
) -> (r: Json)
    ensures
        r@ == with_note(
            meta@,
            key@,
            parse_note(status@, tool_count as nat, text::opt_str(error_code)),
        ),
{
    let note = note_value(status, tool_count, error_code);
    let notes = match meta.get("loongclaw_provider_parse") {
        Some(v) => match v.as_object() {
            Some(_) => v.duplicate(),
            None => {
                return meta;
            },
        },
        None => object(no_entries()),
    };
    match meta {
        Json::Object(e) => {
            proof {
                json::lemma_object_view(e);
            }
            let mut all = e;
            match notes {
                Json::Object(n) => {
                    proof {
                        json::lemma_object_view(n);
                    }
                    let ghost before = json::entries(n@);
                    let ghost shown = note@;
                    let mut grown = n;
                    put_entry(&mut grown, key, note);
                    assert(before.len() == 0 ==> json::with_entry(before, key@, shown) =~= seq![
                        (key@, shown),
                    ]);
                    put_entry(&mut all, "loongclaw_provider_parse", object(grown));
                },
                _ => {},
            }
            object(all)
        },
        other => other,
    }
}

// Turns.

/// The turn of an answer of items, where it says or calls something.
pub open spec fn responses_turn(body: JsonView, scope: ScopeView) -> Option<ProviderTurnView> {
    match body.array_at("output"@) {
        Some(items) => {
            let assistant_text = or_nothing(responses_text(body));
            let tool_intents = entry_intents(CallShape::Item, items, scope);
            if assistant_text.len() == 0 && tool_intents.len() == 0 {
                None
            } else {
                Some(ProviderTurnView { assistant_text, tool_intents, raw_meta: body })
            }
        },
        None => None,
    }
}

/// A turn with the tool calls that its text gives, where it has none yet.
pub open spec fn with_text_calls(turn: ProviderTurnView, key: Seq<char>, found: BlockView) -> ProviderTurnView {
    if turn.tool_intents.len() > 0 {
        turn
    } else {
        let raw_meta = with_parse_note(turn.raw_meta, key, found);
        match found {
            BlockView::Parsed { cleaned_text, tool_intents } => ProviderTurnView {
                assistant_text: cleaned_text,
                tool_intents,
                raw_meta,
            },
            _ => ProviderTurnView { raw_meta, ..turn },
        }
    }
}

/// The turn of a chat completion: its calls, else those that its text gives as JSON,
/// else those that its text gives as marked functions.
pub open spec fn chat_turn(message: JsonView, scope: ScopeView) -> ProviderTurnView {
    let plain = ProviderTurnView {
        assistant_text: or_nothing(content_of(message)),
        tool_intents: intents_at(CallShape::Chat, message, "tool_calls"@, scope),
        raw_meta: message,
    };
    let second = with_text_calls(
        plain,
        "json_tool_block"@,
        blocks::json_calls(plain.assistant_text, scope),
    );
    with_text_calls(
        second,
        "inline_function"@,
        functions::function_calls(second.assistant_text, scope),
    )
}

/// The turn of a converse message.
pub open spec fn converse_turn(message: JsonView, scope: ScopeView) -> ProviderTurnView {
    ProviderTurnView {
        assistant_text: or_nothing(content_of(message)),
        tool_intents: intents_at(CallShape::Converse, message, "content"@, scope),
        raw_meta: converse_as_blocks(message),
    }
}

/// The turn of a message of blocks, where it says or calls something.
pub open spec fn blocks_turn(body: JsonView, scope: ScopeView) -> Option<ProviderTurnView> {
    let assistant_text = or_nothing(content_of(body));
    let tool_intents = intents_at(CallShape::Block, body, "content"@, scope);
    if assistant_text.len() == 0 && tool_intents.len() == 0 {
        None
    } else {
        Some(ProviderTurnView { assistant_text, tool_intents, raw_meta: body })
    }
}

/// The turn of an answer of whichever interface.
pub open spec fn turn_of(body: JsonView, scope: ScopeView) -> Option<ProviderTurnView> {
    if responses_turn(body, scope) is Some {
        responses_turn(body, scope)
    } else {
        match chat_message(body) {
            Some(message) => Some(chat_turn(message, scope)),
            None => match converse_message(body) {
                Some(message) => Some(converse_turn(message, scope)),
                None => blocks_turn(body, scope),
            },
        }
    }
}

/// The view of an optional turn.
pub open spec fn opt_turn(o: Option<ProviderTurn>) -> Option<ProviderTurnView> {
    match o {
        Some(t) => Some(t@),
        None => None,
    }
}

fn extract_responses_provider_turn(body: &Json, scope: &ToolCallScope) -> (r: Option<ProviderTurn>)
    ensures
        opt_turn(r) == responses_turn(body@, scope@),
{
    if body.array_at("output").is_none() {
        return None;
    }
    let assistant_text = text_or_nothing(extract_responses_message_content(body));
    let tool_intents = extract_tool_intents(CallShape::Item, body, "output", scope);
    if assistant_text.as_str().is_empty() && tool_intents.len() == 0 {
        return None;
    }
    Some(ProviderTurn { assistant_text, tool_intents, raw_meta: body.duplicate() })
}

/// A turn with the tool calls that its text gives, where it has none yet.
pub fn take_text_calls(turn: ProviderTurn, key: &str, found: ToolBlockParse) -> (r: ProviderTurn)
    ensures
        r@ == with_text_calls(turn@, key@, found@),
{
    if turn.tool_intents.len() > 0 {
        return turn;
    }
    match found {
        ToolBlockParse::Parsed { cleaned_text, tool_intents } => {
            let count: usize = tool_intents.len();
            ProviderTurn {
                assistant_text: cleaned_text,
                tool_intents,
                raw_meta: attach_provider_parse_telemetry(
                    turn.raw_meta,
                    key,
                    "parsed",
                    count,
                    None,
                ),
            }
        },
        ToolBlockParse::Malformed { tool_count, error_code } => ProviderTurn {
            assistant_text: turn.assistant_text,
            tool_intents: turn.tool_intents,
            raw_meta: attach_provider_parse_telemetry(
                turn.raw_meta,
                key,
                "malformed",
                tool_count,
                Some(error_code),
            ),
        },
        ToolBlockParse::Absent => turn,
    }
}

fn extract_chat_turn(message: &Json, scope: &ToolCallScope) -> (r: ProviderTurn)
    ensures
        r@ == chat_turn(message@, scope@),
{
    let plain = ProviderTurn {
        assistant_text: text_or_nothing(message_content(message)),
        tool_intents: extract_tool_intents(CallShape::Chat, message, "tool_calls", scope),
        raw_meta: message.duplicate(),
    };
    if plain.tool_intents.len() > 0 {
        return plain;
    }
    let blocks_found = extract_json_tool_call_turn(plain.assistant_text.as_str(), scope);
    let second = take_text_calls(plain, "json_tool_block", blocks_found);
    if second.tool_intents.len() > 0 {
        return second;
    }
    let functions_found = extract_inline_function_call_turn(
        second.assistant_text.as_str(),
        scope,
    );
    take_text_calls(second, "inline_function", functions_found)
}

fn extract_turn_in_scope(body: &Json, scope: &ToolCallScope) -> (r: Option<ProviderTurn>)
    ensures
        opt_turn(r) == turn_of(body@, scope@),
{
    if let Some(turn) = extract_responses_provider_turn(body, scope) {
        return Some(turn);
    }
    if let Some(message) = openai_message(body) {
        return Some(extract_chat_turn(message, scope));
    }
    if let Some(message) = bedrock_message(body) {
        return Some(
            ProviderTurn {
                assistant_text: text_or_nothing(message_content(message)),
                tool_intents: extract_tool_intents(CallShape::Converse, message, "content", scope),
                raw_meta: normalize_bedrock_message(message),
            },
        );
    }
    let assistant_text = text_or_nothing(message_content(body));
    let tool_intents = extract_tool_intents(CallShape::Block, body, "content", scope);
    if assistant_text.as_str().is_empty() && tool_intents.len() == 0 {
        return None;
    }
    Some(ProviderTurn { assistant_text, tool_intents, raw_meta: body.duplicate() })
}

/// The scope of a turn.
pub open spec fn scope_of(
    session_id: Option<&str>,
    turn_id: Option<&str>,
    messages: Seq<JsonView>,
) -> ScopeView {
    ScopeView {
        session_id: bridge::or_empty(session_id),
        turn_id: bridge::or_empty(turn_id),
        leases: bridge::latest_leases(messages),
    }
}

/// The turn of an answer of whichever interface, in a session whose messages are given.
pub fn extract_provider_turn_with_scope_and_messages(
    body: &Json,
    session_id: Option<&str>,
    turn_id: Option<&str>,
    messages: &Vec<Json>,
) -> (r: Option<ProviderTurn>)
    ensures
        opt_turn(r) == turn_of(body@, scope_of(session_id, turn_id, json::values(messages@))),
{
    let scope = tool_call_scope(session_id, turn_id, messages);
    extract_turn_in_scope(body, &scope)
}

/// The turn of an answer of whichever interface, in a session.
pub fn extract_provider_turn_with_scope(
    body: &Json,
    session_id: Option<&str>,
    turn_id: Option<&str>,
) -> (r: Option<ProviderTurn>)
    ensures
        opt_turn(r) == turn_of(body@, scope_of(session_id, turn_id, Seq::empty())),
{
    let messages = no_values();
    extract_provider_turn_with_scope_and_messages(body, session_id, turn_id, &messages)
}

/// The turn of an answer of whichever interface.
pub fn extract_provider_turn(body: &Json) -> (r: Option<ProviderTurn>)
    ensures
        opt_turn(r) == turn_of(body@, scope_of(None, None, Seq::empty())),
{
    extract_provider_turn_with_scope(body, None, None)
}

// Laws.

/// A text in which every brace is quoted gives no tool call that stands by itself.
pub proof fn law_quoted_json_is_text(
    s: Seq<char>,
    scope: ScopeView,
    cursor: int,
    cleaned: Seq<char>,
)
    requires
        0 <= cursor,
        forall|i: int|
            cursor <= i < s.len() && #[trigger] s[i] == '{' ==> blocks::is_quoted(s, i),
    ensures
        blocks::plain_from(s, scope, cursor, cleaned, Seq::empty(), false) == BlockView::Absent,
    decreases s.len() - cursor,
{
    text::lemma_find_char_bounds(s, '{', cursor);
    if let Some(start) = text::find_char(s, '{', cursor) {
        law_quoted_json_is_text(s, scope, start + 1, cleaned + s.subrange(cursor, start + 1));
    }
}

/// A text in which every mark of a tagged block is quoted gives no tagged tool call.
pub proof fn law_quoted_tags_are_text(
    s: Seq<char>,
    scope: ScopeView,
    cursor: int,
    cleaned: Seq<char>,
)
    requires
        0 <= cursor,
        forall|i: int|
            cursor <= i && #[trigger] text::matches_at(s, blocks::tag_open(), i)
                ==> blocks::is_quoted(s, i),
    ensures
        blocks::tagged_from(s, scope, cursor, cleaned, Seq::empty(), false) == BlockView::Absent,
    decreases s.len() - cursor,
{
    reveal_strlit("<tool_call>");
    text::lemma_find_from_bounds(s, blocks::tag_open(), cursor);
    if let Some(start) = text::find_from(s, blocks::tag_open(), cursor) {
        let body = start + blocks::tag_open().len();
        law_quoted_tags_are_text(s, scope, body, cleaned + s.subrange(cursor, body));
    }
}

/// A text in which every mark of a function is quoted gives no tool call as a function.
pub proof fn law_quoted_functions_are_text(
    s: Seq<char>,
    scope: ScopeView,
    cursor: int,
    cleaned: Seq<char>,
)
    requires
        0 <= cursor,
        forall|i: int|
            cursor <= i && #[trigger] text::matches_at(s, functions::function_open(), i)
                ==> blocks::is_quoted(s, i),
    ensures
        functions::functions_from(s, scope, cursor, cleaned, Seq::empty(), false)
            == BlockView::Absent,
    decreases s.len() - cursor,
{
    reveal_strlit("<function=");
    text::lemma_find_from_bounds(s, functions::function_open(), cursor);
    if let Some(start) = text::find_from(s, functions::function_open(), cursor) {
        let body = start + functions::function_open().len();
        law_quoted_functions_are_text(s, scope, body, cleaned + s.subrange(cursor, body));
    }
}

/// A chat completion whose text holds only quoted marks and braces says exactly its text
/// and calls exactly what its own list of calls gives.
pub proof fn law_code_examples_are_not_run(message: JsonView, scope: ScopeView)
    requires
        ({
            let s = or_nothing(content_of(message));
            &&& forall|i: int|
                0 <= i < s.len() && #[trigger] s[i] == '{' ==> blocks::is_quoted(s, i)
            &&& forall|i: int|
                0 <= i && #[trigger] text::matches_at(s, blocks::tag_open(), i)
                    ==> blocks::is_quoted(s, i)
            &&& forall|i: int|
                0 <= i && #[trigger] text::matches_at(s, functions::function_open(), i)
                    ==> blocks::is_quoted(s, i)
        }),
    ensures
        chat_turn(message, scope) == (ProviderTurnView {
            assistant_text: or_nothing(content_of(message)),
            tool_intents: intents_at(CallShape::Chat, message, "tool_calls"@, scope),
            raw_meta: message,
        }),
{
    let s = or_nothing(content_of(message));
    law_quoted_tags_are_text(s, scope, 0, Seq::empty());
    law_quoted_json_is_text(s, scope, 0, Seq::empty());
    law_quoted_functions_are_text(s, scope, 0, Seq::empty());
}

/// Where a chat completion lists calls of its own, its text is left as it is.
pub proof fn law_listed_calls_come_first(message: JsonView, scope: ScopeView)
    requires
        intents_at(CallShape::Chat, message, "tool_calls"@, scope).len() > 0,
    ensures
        chat_turn(message, scope).tool_intents == intents_at(
            CallShape::Chat,
            message,
            "tool_calls"@,
            scope,
        ),
        chat_turn(message, scope).assistant_text == or_nothing(content_of(message)),
        chat_turn(message, scope).raw_meta == message,
{
}

} // verus!
