//! Answers that come piece by piece: from bytes to events, and from events to a turn.
use crate::conversation::ToolIntentView;
use crate::json;
use crate::json::JsonView;
use crate::laws::texts;
use crate::provider::sse;
use crate::provider::sse::{ItemView, LineView, ParserView};
use crate::provider::streaming;
use crate::provider::streaming::{AccumulatorView, CallView, CallbackView, EventView};
use crate::text;
use vstd::prelude::*;

verus! {

// Bytes to events.

/// Bytes without a line feed are gathered, without the carriage returns among them.
proof fn lemma_bytes_are_gathered(s: ParserView, bytes: Seq<u8>)
    requires
        forall|i: int| 0 <= i < bytes.len() ==> #[trigger] bytes[i] != 10 && bytes[i] != 13,
    ensures
        s.after_bytes(bytes) == (ParserView { line: s.line + bytes, ..s }, false),
    decreases bytes.len(),
{
    if bytes.len() == 0 {
        assert(s.line + bytes =~= s.line);
    } else {
        assert(bytes[0] != 10 && bytes[0] != 13);
        let next = ParserView { line: s.line.push(bytes[0]), ..s };
        assert forall|i: int| 0 <= i < bytes.skip(1).len() implies #[trigger] bytes.skip(1)[i] != 10
            && bytes.skip(1)[i] != 13 by {
            assert(bytes.skip(1)[i] == bytes[i + 1]);
        }
        lemma_bytes_are_gathered(next, bytes.skip(1));
        assert(s.line.push(bytes[0]) + bytes.skip(1) =~= s.line + bytes);
    }
}

/// What follows the bytes of a line and the line feed that ends it, with or without a carriage
/// return before it.
proof fn lemma_line_ends(s: ParserView, bytes: Seq<u8>)
    requires
        s.line.len() == 0,
        forall|i: int| 0 <= i < bytes.len() ==> #[trigger] bytes[i] != 10 && bytes[i] != 13,
    ensures
        s.after_bytes(bytes + seq![10u8]) == s.after_line(bytes),
        s.after_bytes(bytes + seq![13u8, 10u8]) == s.after_line(bytes),
{
    lemma_bytes_are_gathered(s, bytes);
    sse::law_pieces_do_not_matter(s, bytes, seq![10u8]);
    sse::law_pieces_do_not_matter(s, bytes, seq![13u8, 10u8]);
    assert(s.line + bytes =~= bytes);
    let full = ParserView { line: bytes, ..s };
    assert(ParserView { line: Seq::empty(), ..full } =~= s) by {
        assert(s.line =~= Seq::empty());
    }
    reveal_with_fuel(ParserView::after_bytes, 3);
    assert(seq![10u8].skip(1).len() == 0);
    assert(seq![13u8, 10u8].skip(1)[0] == 10u8);
    assert(seq![13u8, 10u8].skip(1).skip(1).len() == 0);
    assert(seq![13u8, 10u8][0] == 13u8);
    assert(seq![10u8][0] == 10u8);
}

/// A line of bytes that is the text `said`.
pub open spec fn is_line(bytes: Seq<u8>, said: Seq<char>) -> bool {
    &&& forall|i: int| 0 <= i < bytes.len() ==> #[trigger] bytes[i] != 10 && bytes[i] != 13
    &&& vstd::utf8::valid_utf8(bytes)
    &&& vstd::utf8::decode_utf8(bytes) == said
}

proof fn lemma_data_line(content: Seq<char>)
    ensures
        sse::line_of("data: "@ + content) == (LineView::Data { content }),
        sse::line_of("data:"@ + content) == (LineView::Data {
            content: if content.len() > 0 && content[0] == ' ' {
                content.skip(1)
            } else {
                content
            },
        }),
{
    reveal_strlit("data: ");
    reveal_strlit("data:");
    reveal_strlit("event:");
    let a = "data: "@ + content;
    let b = "data:"@ + content;
    assert(a.subrange(0, 5) =~= "data:"@);
    assert(b.subrange(0, 5) =~= "data:"@);
    assert(a[0] == 'd' && b[0] == 'd' && "event:"@[0] == 'e');
    assert(text::starts_with(a, "event:"@) ==> a.subrange(0, 6)[0] == 'e');
    assert(text::starts_with(b, "event:"@) ==> b.subrange(0, 6)[0] == 'e');
    assert(a.skip(6) =~= content);
    assert(b.skip(5) =~= content);
    if content.len() > 0 {
        assert(b[5] == content[0]);
        assert(b.skip(6) =~= content.skip(1));
    }
}

/// A line of data gives the event that its JSON says, right when the line ends; the name of
/// the event that was given before is used up. Data that says nothing gives nothing.
pub proof fn law_data_lines_give_their_event(
    s: ParserView,
    bytes: Seq<u8>,
    content: Seq<char>,
    data: JsonView,
)
    requires
        s.line.len() == 0,
        is_line(bytes, "data: "@ + content),
        content.len() > 0,
        content != "[DONE]"@,
        json::parsed_json(content) == Ok::<JsonView, Seq<char>>(data),
        s.event_type != Some("error"@),
    ensures
        ({
            let (next, over) = s.after_bytes(bytes + seq![10u8]);
            &&& !over
            &&& next.event_type is None
            &&& next.line.len() == 0
            &&& next.pending == (match streaming::event_in(data) {
                Some(e) => s.pending.push(ItemView::Event(e)),
                None => s.pending,
            })
            &&& s.after_bytes(bytes + seq![13u8, 10u8]) == (next, over)
        }),
{
    lemma_line_ends(s, bytes);
    lemma_data_line(content);
}

/// The mark of the end ends the stream, and nothing comes of it.
pub proof fn law_the_mark_ends_the_stream(s: ParserView, bytes: Seq<u8>)
    requires
        s.line.len() == 0,
        is_line(bytes, "data: "@ + "[DONE]"@),
    ensures
        s.after_bytes(bytes + seq![10u8]).1,
        s.after_bytes(bytes + seq![10u8]).0.pending == s.pending,
{
    lemma_line_ends(s, bytes);
    lemma_data_line("[DONE]"@);
    reveal_strlit("[DONE]");
}

/// An event that is called an error is one, with what it says; data that cannot be read, and
/// bytes that are no text, are errors too. The stream goes on after each of them.
pub proof fn law_errors_of_streams_come_out(
    s: ParserView,
    bytes: Seq<u8>,
    content: Seq<char>,
    message: Seq<char>,
)
    requires
        s.line.len() == 0,
        content.len() > 0,
        content != "[DONE]"@,
        forall|i: int| 0 <= i < bytes.len() ==> #[trigger] bytes[i] != 10 && bytes[i] != 13,
        ({
            ||| {
                &&& is_line(bytes, "data: "@ + content)
                &&& s.event_type == Some("error"@)
                &&& json::parsed_json(content) matches Ok(data)
                &&& data.get("error"@) matches Some(e)
                &&& e.str_at("message"@) == Some(message)
            }
            ||| {
                &&& is_line(bytes, "data: "@ + content)
                &&& s.event_type == Some("error"@)
                &&& json::parsed_json(content) matches Ok(data)
                &&& data.get("error"@) is None || data.get("error"@)->0.str_at("message"@) is None
                &&& message == "unknown streaming error"@
            }
            ||| {
                &&& is_line(bytes, "data: "@ + content)
                &&& json::parsed_json(content) matches Err(e)
                &&& message == "streaming event parse failed: "@ + e
            }
            ||| {
                &&& !vstd::utf8::valid_utf8(bytes)
                &&& message == "invalid UTF-8 in SSE stream: "@ + sse::utf8_error(bytes)
            }
        }),
    ensures
        ({
            let (next, over) = s.after_bytes(bytes + seq![10u8]);
            &&& !over
            &&& next.pending == s.pending.push(
                ItemView::Failed(streaming::stream_error(message, Seq::empty())),
            )
        }),
{
    lemma_line_ends(s, bytes);
    lemma_data_line(content);
}

/// A line that names an event holds for the next line of data; comments and empty lines change
/// nothing.
pub proof fn law_names_hold_for_the_next_data(s: ParserView, bytes: Seq<u8>, name: Seq<char>)
    requires
        s.line.len() == 0,
    ensures
        is_line(bytes, "event: "@ + name) ==> s.after_bytes(bytes + seq![10u8]) == (
            ParserView { event_type: Some(name), ..s },
            false,
        ),
        is_line(bytes, Seq::empty()) ==> s.after_bytes(bytes + seq![10u8]) == (s, false),
        is_line(bytes, seq![':'] + name) ==> s.after_bytes(bytes + seq![10u8]) == (s, false),
{
    if is_line(bytes, "event: "@ + name) || is_line(bytes, Seq::empty()) || is_line(
        bytes,
        seq![':'] + name,
    ) {
        lemma_line_ends(s, bytes);
        reveal_strlit("event: ");
        reveal_strlit("event:");
        reveal_strlit("data:");
        reveal_strlit("retry:");
        let a = "event: "@ + name;
        assert(a.subrange(0, 6) =~= "event:"@);
        assert(a.skip(7) =~= name);
        assert(a[6] == ' ');
        let c = seq![':'] + name;
        assert(c[0] == ':');
        assert("event:"@[0] == 'e' && "data:"@[0] == 'd' && "retry:"@[0] == 'r');
        assert(text::starts_with(c, "event:"@) ==> c.subrange(0, 6)[0] == 'e');
        assert(text::starts_with(c, "data:"@) ==> c.subrange(0, 5)[0] == 'd');
        assert(text::starts_with(c, "retry:"@) ==> c.subrange(0, 6)[0] == 'r');
    }
}

// What the data says.

proof fn lemma_kinds()
    ensures
        "content_block_start"@ != "content_block_delta"@,
        "content_block_start"@ != "message_stop"@,
        "content_block_delta"@ != "message_stop"@,
        "message_start"@ != "content_block_start"@,
        "message_start"@ != "content_block_delta"@,
        "message_start"@ != "message_stop"@,
        "message_delta"@ != "content_block_start"@,
        "message_delta"@ != "content_block_delta"@,
        "message_delta"@ != "message_stop"@,
        "error"@ != "content_block_start"@,
        "error"@ != "content_block_delta"@,
        "error"@ != "message_stop"@,
        "error"@ != "message_start"@,
        "error"@ != "message_delta"@,
        "text_delta"@ != "input_json_delta"@,
{
    reveal_strlit("content_block_start");
    reveal_strlit("content_block_delta");
    reveal_strlit("message_stop");
    reveal_strlit("message_start");
    reveal_strlit("message_delta");
    reveal_strlit("error");
    reveal_strlit("text_delta");
    reveal_strlit("input_json_delta");
    assert("content_block_start"@[14] == 's' && "content_block_delta"@[14] == 'd');
    assert("content_block_start"@.len() == 19 && "content_block_delta"@.len() == 19);
    assert("message_stop"@.len() == 12 && "message_start"@.len() == 13 && "message_delta"@.len()
        == 13);
    assert("error"@.len() == 5 && "text_delta"@.len() == 10 && "input_json_delta"@.len() == 16);
}

/// Texts, calls and their input are read from the data that brings them, with their number;
/// the end, what is known of the answer, and errors are read as such.
pub proof fn law_pieces_are_read_as_they_come(
    data: JsonView,
    delta: JsonView,
    block: JsonView,
    s: Seq<char>,
    name: Seq<char>,
    id: Seq<char>,
    index: int,
)
    ensures
        data.str_at("type"@) == Some("content_block_delta"@) && data.get("delta"@) == Some(delta)
            && delta.str_at("type"@) == Some("text_delta"@) && delta.str_at("text"@) == Some(s)
            ==> streaming::event_in(data) == Some(EventView::Text(s)),
        data.str_at("type"@) == Some("content_block_delta"@) && data.get("delta"@) == Some(delta)
            && delta.str_at("type"@) == Some("input_json_delta"@) && delta.str_at("partial_json"@)
            == Some(s) && data.get("index"@) == Some(JsonView::Integer(index)) && 0 <= index
            <= u64::MAX ==> streaming::event_in(data) == Some(
            EventView::ToolInputPartial { index, partial_json: s },
        ),
        data.str_at("type"@) == Some("content_block_start"@) && data.get("content_block"@) == Some(
            block,
        ) && block.str_at("type"@) == Some("tool_use"@) && block.str_at("name"@) == Some(name)
            && block.str_at("id"@) == Some(id) && data.get("index"@) == Some(
            JsonView::Integer(index),
        ) && 0 <= index <= u64::MAX ==> streaming::event_in(data) == Some(
            EventView::ToolCallStart { index, name, id },
        ),
        data.str_at("type"@) == Some("message_stop"@) ==> streaming::event_in(data) == Some(
            EventView::Done,
        ),
        data.str_at("type"@) == Some("message_start"@) || data.str_at("type"@) == Some(
            "message_delta"@,
        ) ==> streaming::event_in(data) == Some(EventView::Meta(data)),
        data.str_at("type"@) == Some("error"@) && data.get("error"@) == Some(block)
            && block.str_at("message"@) == Some(s) ==> streaming::event_in(data) == Some(
            EventView::StreamError(s),
        ),
        data.str_at("type"@) == Some("error"@) && data.get("error"@) is None
            ==> streaming::event_in(data) == Some(
            EventView::StreamError("unknown streaming error"@),
        ),
        data.str_at("type"@) == Some("error"@) && data.get("error"@) == Some(block)
            && block.str_at("message"@) is None ==> streaming::event_in(data) == Some(
            EventView::StreamError("unknown streaming error"@),
        ),
        data.str_at("type"@) is None ==> streaming::event_in(data) is None,
{
    lemma_kinds();
}

/// What is told while an answer comes is what came: every text, every call that begins, and
/// every piece of input, with its number.
pub proof fn law_observers_are_told_what_came(event: EventView)
    ensures
        match event {
            EventView::Text(s) => {
                &&& streaming::told(event) == Some(CallbackView::Text { text: s })
                &&& streaming::token_event(streaming::told(event)->0).text == Some(s)
                &&& streaming::token_event(streaming::told(event)->0).tool_call is None
            },
            EventView::ToolCallStart { index, name, id } => {
                &&& streaming::told(event) == Some(CallbackView::ToolCallStart { index, name, id })
                &&& streaming::token_event(streaming::told(event)->0).index == Some(index)
                &&& streaming::token_event(streaming::told(event)->0).tool_call == Some(
                    (Some(name), None::<Seq<char>>, Some(id)),
                )
                &&& streaming::token_event(streaming::told(event)->0).text is None
            },
            EventView::ToolInputPartial { index, partial_json } => {
                &&& streaming::told(event) == Some(
                    CallbackView::ToolCallInput { index, partial_json },
                )
                &&& streaming::token_event(streaming::told(event)->0).index == Some(index)
                &&& streaming::token_event(streaming::told(event)->0).tool_call == Some(
                    (None::<Seq<char>>, Some(partial_json), None::<Seq<char>>),
                )
            },
            _ => streaming::told(event) is None,
        },
{
}

// Events to a turn.

/// What every piece does to what has come so far: a text goes behind the text, a call begins
/// under its number without input, input goes behind that of its call, the end ends it, and an
/// error is kept. Nothing else changes.
pub proof fn law_pieces_add_up(a: AccumulatorView, event: EventView, model: Seq<char>)
    requires
        streaming::in_order(a.calls),
    ensures
        ({
            let next = a.after_event(event, model);
            &&& streaming::in_order(next.calls)
            &&& match event {
                EventView::Text(s) => next == (AccumulatorView { text: a.text + s, ..a }),
                EventView::ToolCallStart { index, name, id } => {
                    &&& next == (AccumulatorView { calls: next.calls, ..a })
                    &&& forall|x: (int, CallView)|
                        #[trigger] next.calls.contains(x) <==> x == (
                            index,
                            CallView { name, id, input: Seq::empty() },
                        ) || a.calls.contains(x) && x.0 != index
                },
                EventView::ToolInputPartial { index, partial_json } => {
                    &&& next == (AccumulatorView { calls: next.calls, ..a })
                    &&& next.calls.len() == a.calls.len()
                    &&& forall|i: int|
                        0 <= i < a.calls.len() ==> (#[trigger] next.calls[i]).0 == a.calls[i].0
                            && next.calls[i].1.name == a.calls[i].1.name && next.calls[i].1.id
                            == a.calls[i].1.id && next.calls[i].1.input == (if a.calls[i].0
                            == index {
                            a.calls[i].1.input + partial_json
                        } else {
                            a.calls[i].1.input
                        })
                },
                EventView::Meta(_) => next == (AccumulatorView { meta: next.meta, ..a }),
                EventView::StreamError(_) => next.error is Some && next == (AccumulatorView {
                    error: next.error,
                    ..a
                }),
                EventView::Done => next == (AccumulatorView { done: true, ..a }),
            }
        }),
{
    match event {
        EventView::ToolCallStart { index, name, id } => {
            let call = CallView { name, id, input: Seq::empty() };
            streaming::law_calls_keep_order(a.calls, index, call, Seq::empty());
            assert forall|x: (int, CallView)| #[trigger]
                a.after_event(event, model).calls.contains(x) <==> x == (index, call)
                || a.calls.contains(x) && x.0 != index by {
                streaming::lemma_calls_with(a.calls, index, call, x);
            }
        },
        EventView::ToolInputPartial { index, partial_json } => {
            streaming::law_calls_keep_order(
                a.calls,
                index,
                CallView { name: Seq::empty(), id: Seq::empty(), input: Seq::empty() },
                partial_json,
            );
        },
        _ => {},
    }
}

/// What is known of an answer takes in what comes: under every key the newest value, and what
/// was known under the others. What is no object is left out.
pub proof fn law_newest_knowledge_wins(
    meta: Seq<(Seq<char>, JsonView)>,
    more: Seq<(Seq<char>, JsonView)>,
    key: Seq<char>,
    value: JsonView,
    other: Seq<char>,
)
    ensures
        ({
            let grown = streaming::merged(
                JsonView::Object(meta),
                JsonView::Object(more.push((key, value))),
            );
            let before = streaming::merged(JsonView::Object(meta), JsonView::Object(more));
            &&& grown.get(key) == Some(value)
            &&& other != key ==> grown.get(other) == before.get(other)
        }),
        streaming::merged(JsonView::Object(meta), JsonView::Object(Seq::empty()))
            == JsonView::Object(meta),
        streaming::merged(JsonView::Object(meta), JsonView::Null) == JsonView::Object(meta),
        streaming::merged(JsonView::Null, JsonView::Object(more)) == streaming::merged(
            JsonView::Object(Seq::empty()),
            JsonView::Object(more),
        ),
{
    assert(more.push((key, value)).drop_last() =~= more);
    let e = streaming::with_entries(meta, more);
    texts::law_setting_a_key_changes_it_alone(e, key, value, other);
}

/// A stream that ended well is the turn that came: its text, what is known of it, and one
/// tool call for every call that began, in the order of their numbers, each with its name, its
/// number and the arguments that its input is.
pub proof fn law_streams_make_all_calls(
    a: AccumulatorView,
    session_id: Seq<char>,
    turn_id: Seq<char>,
    model: Seq<char>,
    args: Seq<JsonView>,
)
    requires
        a.done,
        a.error is None,
        args.len() == a.calls.len(),
        forall|i: int|
            0 <= i < a.calls.len() ==> json::parsed_json((#[trigger] a.calls[i]).1.input) == Ok::<
                JsonView,
                Seq<char>,
            >(args[i]),
    ensures
        a.turn(session_id, turn_id, model) matches Ok(turn) && {
            &&& turn.assistant_text == a.text
            &&& turn.raw_meta == a.meta
            &&& turn.tool_intents.len() == a.calls.len()
            &&& forall|i: int|
                0 <= i < a.calls.len() ==> (#[trigger] turn.tool_intents[i]) == (ToolIntentView {
                    tool_name: a.calls[i].1.name,
                    args_json: args[i],
                    source: "provider_tool_call"@,
                    session_id,
                    turn_id,
                    tool_call_id: a.calls[i].1.id,
                })
        },
{
    lemma_all_calls(a.calls, session_id, turn_id, model, args);
}

proof fn lemma_all_calls(
    calls: Seq<(int, CallView)>,
    session_id: Seq<char>,
    turn_id: Seq<char>,
    model: Seq<char>,
    args: Seq<JsonView>,
)
    requires
        args.len() == calls.len(),
        forall|i: int|
            0 <= i < calls.len() ==> json::parsed_json((#[trigger] calls[i]).1.input) == Ok::<
                JsonView,
                Seq<char>,
            >(args[i]),
    ensures
        streaming::intents_of(calls, session_id, turn_id, model) matches Ok(v) && {
            &&& v.len() == calls.len()
            &&& forall|i: int|
                0 <= i < calls.len() ==> (#[trigger] v[i]) == (ToolIntentView {
                    tool_name: calls[i].1.name,
                    args_json: args[i],
                    source: "provider_tool_call"@,
                    session_id,
                    turn_id,
                    tool_call_id: calls[i].1.id,
                })
        },
    decreases calls.len(),
{
    if calls.len() > 0 {
        let init = calls.drop_last();
        assert forall|i: int| 0 <= i < init.len() implies json::parsed_json(
            (#[trigger] init[i]).1.input,
        ) == Ok::<JsonView, Seq<char>>(args.drop_last()[i]) by {
            assert(init[i] == calls[i]);
        }
        lemma_all_calls(init, session_id, turn_id, model, args.drop_last());
        let n = calls.len() - 1;
        assert(json::parsed_json(calls[n].1.input) == Ok::<JsonView, Seq<char>>(args[n]));
        let before = streaming::intents_of(init, session_id, turn_id, model)->Ok_0;
        let v = streaming::intents_of(calls, session_id, turn_id, model)->Ok_0;
        assert forall|i: int| 0 <= i < calls.len() implies (#[trigger] v[i]) == (ToolIntentView {
            tool_name: calls[i].1.name,
            args_json: args[i],
            source: "provider_tool_call"@,
            session_id,
            turn_id,
            tool_call_id: calls[i].1.id,
        }) by {
            if i < n {
                assert(v[i] == before[i]);
                assert(init[i] == calls[i]);
            }
        }
    }
}

/// An error of a stream is what comes of it, whatever else came; so is input that is no JSON.
pub proof fn law_errors_outweigh_what_came(
    a: AccumulatorView,
    session_id: Seq<char>,
    turn_id: Seq<char>,
    model: Seq<char>,
    i: int,
)
    ensures
        a.error matches Some(e) ==> a.turn(session_id, turn_id, model) == Err::<
            crate::conversation::ProviderTurnView,
            crate::provider::failover::RequestErrorView,
        >(e),
        0 <= i < a.calls.len() && json::parsed_json(a.calls[i].1.input) is Err ==> a.turn(
            session_id,
            turn_id,
            model,
        ) is Err,
{
    if 0 <= i < a.calls.len() && json::parsed_json(a.calls[i].1.input) is Err {
        lemma_bad_input(a.calls, session_id, turn_id, model, i);
    }
}

proof fn lemma_bad_input(
    calls: Seq<(int, CallView)>,
    session_id: Seq<char>,
    turn_id: Seq<char>,
    model: Seq<char>,
    i: int,
)
    requires
        0 <= i < calls.len(),
        json::parsed_json(calls[i].1.input) is Err,
    ensures
        streaming::intents_of(calls, session_id, turn_id, model) is Err,
    decreases calls.len(),
{
    if i < calls.len() - 1 {
        assert(calls.drop_last()[i] == calls[i]);
        lemma_bad_input(calls.drop_last(), session_id, turn_id, model, i);
    }
}

/// Nothing more is read once the stream has ended or has failed, and not before.
pub proof fn law_streams_are_read_to_their_end(a: AccumulatorView)
    ensures
        a.is_over() <==> a.done || a.error is Some,
{
}

/// A line is told by the word before its colon; its value stands behind that and at most one
/// space.
pub proof fn law_lines_are_told_by_their_word(value: Seq<char>)
    ensures
        sse::line_of("event: "@ + value) == (LineView::EventType { name: value }),
        sse::line_of("data: "@ + value) == (LineView::Data { content: value }),
        sse::line_of("retry: "@ + value) == (LineView::Retry { delay: value }),
        value.len() == 0 || value[0] != ' ' ==> {
            &&& sse::line_of("event:"@ + value) == (LineView::EventType { name: value })
            &&& sse::line_of("data:"@ + value) == (LineView::Data { content: value })
            &&& sse::line_of("retry:"@ + value) == (LineView::Retry { delay: value })
        },
        sse::line_of(Seq::empty()) is Empty,
        sse::line_of(":"@ + value) is Comment,
{
    reveal_strlit("event: ");
    reveal_strlit("data: ");
    reveal_strlit("retry: ");
    reveal_strlit("event:");
    reveal_strlit("data:");
    reveal_strlit("retry:");
    reveal_strlit(":");
    lemma_word("event: "@, "event:"@, value);
    lemma_word("data: "@, "data:"@, value);
    lemma_word("retry: "@, "retry:"@, value);
    let c = ":"@ + value;
    assert(c[0] == ':');
    assert("event:"@[0] == 'e' && "data:"@[0] == 'd' && "retry:"@[0] == 'r');
    assert(("data: "@ + value)[0] == 'd' && ("retry: "@ + value)[0] == 'r');
    assert(("data:"@ + value)[0] == 'd' && ("retry:"@ + value)[0] == 'r');
}

proof fn lemma_word(spaced: Seq<char>, word: Seq<char>, value: Seq<char>)
    requires
        spaced =~= word.push(' '),
    ensures
        text::starts_with(spaced + value, word),
        text::starts_with(word + value, word),
        sse::field_value(spaced + value, word.len() as int) == value,
        value.len() == 0 || value[0] != ' ' ==> sse::field_value(word + value, word.len() as int)
            == value,
{
    let a = spaced + value;
    let b = word + value;
    assert(a.subrange(0, word.len() as int) =~= word);
    assert(b.subrange(0, word.len() as int) =~= word);
    assert(a.take(word.len() as int) =~= word);
    assert(b.take(word.len() as int) =~= word);
    assert(a[word.len() as int] == ' ');
    assert(a.skip(word.len() as int + 1) =~= value);
    assert(b.skip(word.len() as int) =~= value);
    if value.len() > 0 {
        assert(b[word.len() as int] == value[0]);
    }
}

/// An error in a stream is told as one of the stream.
pub proof fn law_errors_in_streams_are_told(a: AccumulatorView, m: Seq<char>, model: Seq<char>)
    ensures
        a.after_event(EventView::StreamError(m), model).error == Some(
            streaming::stream_error("Anthropic streaming error: "@ + m, model),
        ),
{
}

/// An error of a stream is one of the answer's form: it comes from the only attempt, has no
/// status, and has no other model tried.
pub proof fn law_errors_of_streams_say_what_is_known(m: Seq<char>, model: Seq<char>)
    ensures
        ({
            let e = streaming::stream_error(m, model);
            &&& e.reason is ResponseShapeInvalid
            &&& e.snapshot.reason is ResponseShapeInvalid
            &&& e.snapshot.stage is ResponseDecode
            &&& e.snapshot.model == model
            &&& e.snapshot.attempt == 1
            &&& e.snapshot.max_attempts == 1
            &&& e.snapshot.status_code is None
            &&& !e.try_next_model
            &&& e.api_error is None
        }),
{
}

} // verus!
