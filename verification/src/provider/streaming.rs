//! Answers that come piece by piece.
use crate::conversation;
use crate::conversation::{ProviderTurn, ProviderTurnView, ToolIntent, ToolIntentView};
use crate::json;
use crate::json::{object, parse_json, put_entry, Json, JsonView};
use crate::provider::failover;
use crate::provider::failover::{
    build_model_request_error, ModelRequestError, ProviderFailoverReason, ProviderFailoverSnapshot,
    ProviderFailoverStage, RequestErrorView, SnapshotView,
};
use crate::text;
use crate::text::{cat, same};
use std::collections::BTreeMap;
use vstd::prelude::*;
use vstd::std_specs::btree::increasing_seq;
use vstd::std_specs::cmp::OrdSpec;
use vstd::std_specs::iter::IteratorSpec;

verus! {

/// A piece of an answer.
pub enum StreamingEvent {
    Text(String),
    ToolCallStart { index: u64, name: String, id: String },
    ToolInputPartial { index: u64, partial_json: String },
    Meta(Json),
    StreamError(String),
    Done,
}

/// What a `StreamingEvent` is.
#[verifier::ext_equal]
pub enum EventView {
    Text(Seq<char>),
    ToolCallStart { index: int, name: Seq<char>, id: Seq<char> },
    ToolInputPartial { index: int, partial_json: Seq<char> },
    Meta(JsonView),
    StreamError(Seq<char>),
    Done,
}

impl StreamingEvent {
    pub open spec fn view(&self) -> EventView {
        match self {
            StreamingEvent::Text(s) => EventView::Text(s@),
            StreamingEvent::ToolCallStart { index, name, id } => EventView::ToolCallStart {
                index: *index as int,
                name: name@,
                id: id@,
            },
            StreamingEvent::ToolInputPartial { index, partial_json } => {
                EventView::ToolInputPartial { index: *index as int, partial_json: partial_json@ }
            },
            StreamingEvent::Meta(v) => EventView::Meta(v@),
            StreamingEvent::StreamError(s) => EventView::StreamError(s@),
            StreamingEvent::Done => EventView::Done,
        }
    }
}

/// The view of an optional piece.
pub open spec fn opt_event(o: Option<StreamingEvent>) -> Option<EventView> {
    match o {
        Some(e) => Some(e@),
        None => None,
    }
}

// Reading.

/// The number under `key`.
pub open spec fn number_at(value: JsonView, key: Seq<char>) -> Option<int> {
    match value.get(key) {
        Some(v) => v.as_u64(),
        None => None,
    }
}

/// The call of a tool that begins.
pub open spec fn call_start(data: JsonView) -> Option<EventView> {
    match data.get("content_block"@) {
        Some(block) => match (
            block.str_at("name"@),
            block.str_at("id"@),
            number_at(data, "index"@),
        ) {
            (Some(name), Some(id), Some(index)) => if block.str_at("type"@) == Some("tool_use"@) {
                Some(EventView::ToolCallStart { index, name, id })
            } else {
                None
            },
            _ => None,
        },
        None => None,
    }
}

/// The text or the input that goes on.
pub open spec fn delta_event(data: JsonView) -> Option<EventView> {
    match data.get("delta"@) {
        Some(delta) => if delta.str_at("type"@) == Some("text_delta"@) {
            match delta.str_at("text"@) {
                Some(s) => Some(EventView::Text(s)),
                None => None,
            }
        } else if delta.str_at("type"@) == Some("input_json_delta"@) {
            match (delta.str_at("partial_json"@), number_at(data, "index"@)) {
                (Some(s), Some(index)) => Some(
                    EventView::ToolInputPartial { index, partial_json: s },
                ),
                _ => None,
            }
        } else {
            None
        },
        None => None,
    }
}

/// What is said of an error in a stream.
pub open spec fn error_message(data: JsonView) -> Seq<char> {
    match data.get("error"@) {
        Some(e) => match e.str_at("message"@) {
            Some(m) => m,
            None => "unknown streaming error"@,
        },
        None => "unknown streaming error"@,
    }
}

/// The piece that a message of a stream holds.
pub open spec fn event_in(data: JsonView) -> Option<EventView> {
    match data.str_at("type"@) {
        Some(t) => if t == "content_block_start"@ {
            call_start(data)
        } else if t == "content_block_delta"@ {
            delta_event(data)
        } else if t == "message_stop"@ {
            Some(EventView::Done)
        } else if t == "message_start"@ || t == "message_delta"@ {
            Some(EventView::Meta(data))
        } else if t == "error"@ {
            Some(EventView::StreamError(error_message(data)))
        } else {
            None
        },
        None => None,
    }
}

fn u64_at(value: &Json, key: &str) -> (r: Option<u64>)
    ensures
        (match r {
            Some(n) => number_at(value@, key@) == Some(n as int),
            None => number_at(value@, key@) is None,
        }),
{
    match value.get(key) {
        Some(v) => v.as_u64(),
        None => None,
    }
}

fn text_is(value: &Json, key: &str, expected: &str) -> (r: bool)
    ensures
        r == (value@.str_at(key@) == Some(expected@)),
{
    match value.str_at(key) {
        Some(s) => same(s, expected),
        None => false,
    }
}

fn tool_call_start(data: &Json) -> (r: Option<StreamingEvent>)
    ensures
        opt_event(r) == call_start(data@),
{
    let block = match data.get("content_block") {
        Some(b) => b,
        None => {
            return None;
        },
    };
    if !text_is(block, "type", "tool_use") {
        return None;
    }
    let name = match block.str_at("name") {
        Some(s) => s.to_owned(),
        None => {
            return None;
        },
    };
    let id = match block.str_at("id") {
        Some(s) => s.to_owned(),
        None => {
            return None;
        },
    };
    match u64_at(data, "index") {
        Some(index) => Some(StreamingEvent::ToolCallStart { index, name, id }),
        None => None,
    }
}

fn content_delta(data: &Json) -> (r: Option<StreamingEvent>)
    ensures
        opt_event(r) == delta_event(data@),
{
    let delta = match data.get("delta") {
        Some(d) => d,
        None => {
            return None;
        },
    };
    if text_is(delta, "type", "text_delta") {
        return match delta.str_at("text") {
            Some(s) => Some(StreamingEvent::Text(s.to_owned())),
            None => None,
        };
    }
    if text_is(delta, "type", "input_json_delta") {
        let partial_json = match delta.str_at("partial_json") {
            Some(s) => s.to_owned(),
            None => {
                return None;
            },
        };
        return match u64_at(data, "index") {
            Some(index) => Some(StreamingEvent::ToolInputPartial { index, partial_json }),
            None => None,
        };
    }
    None
}

/// The piece that a message of a stream holds.
pub fn streaming_event(data: &Json) -> (r: Option<StreamingEvent>)
    ensures
        opt_event(r) == event_in(data@),
{
    let kind = match data.str_at("type") {
        Some(s) => s,
        None => {
            return None;
        },
    };
    if same(kind, "content_block_start") {
        return tool_call_start(data);
    }
    if same(kind, "content_block_delta") {
        return content_delta(data);
    }
    if same(kind, "message_stop") {
        return Some(StreamingEvent::Done);
    }
    if same(kind, "message_start") || same(kind, "message_delta") {
        return Some(StreamingEvent::Meta(data.duplicate()));
    }
    if same(kind, "error") {
        let found = match data.get("error") {
            Some(e) => e.str_at("message"),
            None => None,
        };
        let message = match found {
            Some(m) => m,
            None => "unknown streaming error",
        };
        return Some(StreamingEvent::StreamError(message.to_owned()));
    }
    None
}

// What is told while an answer comes.

/// What is told of a piece while the answer comes.
pub enum StreamingCallbackData {
    Text { text: String },
    ToolCallStart { index: u64, name: String, id: String },
    ToolCallInput { index: u64, partial_json: String },
}

/// What a `StreamingCallbackData` is.
#[verifier::ext_equal]
pub enum CallbackView {
    Text { text: Seq<char> },
    ToolCallStart { index: int, name: Seq<char>, id: Seq<char> },
    ToolCallInput { index: int, partial_json: Seq<char> },
}

impl StreamingCallbackData {
    pub open spec fn view(&self) -> CallbackView {
        match self {
            StreamingCallbackData::Text { text } => CallbackView::Text { text: text@ },
            StreamingCallbackData::ToolCallStart { index, name, id } => {
                CallbackView::ToolCallStart { index: *index as int, name: name@, id: id@ }
            },
            StreamingCallbackData::ToolCallInput { index, partial_json } => {
                CallbackView::ToolCallInput {
                    index: *index as int,
                    partial_json: partial_json@,
                }
            },
        }
    }
}

/// What is told of a piece: of texts and of calls, nothing of the rest.
pub open spec fn told(event: EventView) -> Option<CallbackView> {
    match event {
        EventView::Text(s) => Some(CallbackView::Text { text: s }),
        EventView::ToolCallStart { index, name, id } => Some(
            CallbackView::ToolCallStart { index, name, id },
        ),
        EventView::ToolInputPartial { index, partial_json } => Some(
            CallbackView::ToolCallInput { index, partial_json },
        ),
        _ => None,
    }
}

/// What is told of a piece.
pub fn callback_data(event: &StreamingEvent) -> (r: Option<StreamingCallbackData>)
    ensures
        (match r {
            Some(d) => told(event@) == Some(d@),
            None => told(event@) is None,
        }),
{
    match event {
        StreamingEvent::Text(s) => Some(StreamingCallbackData::Text { text: s.clone() }),
        StreamingEvent::ToolCallStart { index, name, id } => Some(
            StreamingCallbackData::ToolCallStart {
                index: *index,
                name: name.clone(),
                id: id.clone(),
            },
        ),
        StreamingEvent::ToolInputPartial { index, partial_json } => Some(
            StreamingCallbackData::ToolCallInput {
                index: *index,
                partial_json: partial_json.clone(),
            },
        ),
        _ => None,
    }
}

/// What is told of the call of a tool.
pub struct ToolCallDelta {
    pub name: Option<String>,
    pub args: Option<String>,
    pub id: Option<String>,
}

/// What is told of a text or of the call of a tool.
pub struct TokenDelta {
    pub text: Option<String>,
    pub tool_call: Option<ToolCallDelta>,
}

/// What an observer of a turn is told of a piece.
pub struct StreamingTokenEvent {
    pub event_type: String,
    pub delta: TokenDelta,
    pub index: Option<u64>,
}

/// What a `StreamingTokenEvent` is.
#[verifier::ext_equal]
pub struct TokenEventView {
    pub event_type: Seq<char>,
    pub text: Option<Seq<char>>,
    pub tool_call: Option<(Option<Seq<char>>, Option<Seq<char>>, Option<Seq<char>>)>,
    pub index: Option<int>,
}

impl StreamingTokenEvent {
    pub open spec fn view(&self) -> TokenEventView {
        TokenEventView {
            event_type: self.event_type@,
            text: text::opt_text(self.delta.text),
            tool_call: match self.delta.tool_call {
                Some(c) => Some(
                    (text::opt_text(c.name), text::opt_text(c.args), text::opt_text(c.id)),
                ),
                None => None,
            },
            index: match self.index {
                Some(n) => Some(n as int),
                None => None,
            },
        }
    }
}

/// What an observer of a turn is told.
pub open spec fn token_event(data: CallbackView) -> TokenEventView {
    match data {
        CallbackView::Text { text } => TokenEventView {
            event_type: "text_delta"@,
            text: Some(text),
            tool_call: None,
            index: None,
        },
        CallbackView::ToolCallStart { index, name, id } => TokenEventView {
            event_type: "tool_call_start"@,
            text: None,
            tool_call: Some((Some(name), None, Some(id))),
            index: Some(index),
        },
        CallbackView::ToolCallInput { index, partial_json } => TokenEventView {
            event_type: "tool_call_input_delta"@,
            text: None,
            tool_call: Some((None, Some(partial_json), None)),
            index: Some(index),
        },
    }
}

/// What an observer of a turn is told.
pub fn streaming_token_event(data: StreamingCallbackData) -> (r: StreamingTokenEvent)
    ensures
        r@ == token_event(data@),
{
    match data {
        StreamingCallbackData::Text { text } => StreamingTokenEvent {
            event_type: "text_delta".to_owned(),
            delta: TokenDelta { text: Some(text), tool_call: None },
            index: None,
        },
        StreamingCallbackData::ToolCallStart { index, name, id } => StreamingTokenEvent {
            event_type: "tool_call_start".to_owned(),
            delta: TokenDelta {
                text: None,
                tool_call: Some(ToolCallDelta { name: Some(name), args: None, id: Some(id) }),
            },
            index: Some(index),
        },
        StreamingCallbackData::ToolCallInput { index, partial_json } => StreamingTokenEvent {
            event_type: "tool_call_input_delta".to_owned(),
            delta: TokenDelta {
                text: None,
                tool_call: Some(ToolCallDelta { name: None, args: Some(partial_json), id: None }),
            },
            index: Some(index),
        },
    }
}

// What has come so far.

/// The call of a tool, as far as it has come.
pub struct ToolCallInfo {
    pub name: String,
    pub id: String,
    pub input: String,
}

/// What a `ToolCallInfo` is.
#[verifier::ext_equal]
pub struct CallView {
    pub name: Seq<char>,
    pub id: Seq<char>,
    pub input: Seq<char>,
}

impl ToolCallInfo {
    pub open spec fn view(&self) -> CallView {
        CallView { name: self.name@, id: self.id@, input: self.input@ }
    }
}

/// Whether the calls stand in the order of their numbers, each number once.
pub open spec fn in_order(calls: Seq<(int, CallView)>) -> bool {
    forall|i: int, j: int|
        0 <= i < j < calls.len() ==> (#[trigger] calls[i]).0 < (#[trigger] calls[j]).0
}

/// Whether a call stands in a map under its number.
pub open spec fn is_call_of(call: (int, CallView), m: Map<u64, ToolCallInfo>) -> bool {
    &&& 0 <= call.0 <= u64::MAX
    &&& m.contains_key(call.0 as u64)
    &&& m[call.0 as u64]@ == call.1
}

/// Whether these are the calls of a map, in the order of their numbers.
pub open spec fn are_calls_of(calls: Seq<(int, CallView)>, m: Map<u64, ToolCallInfo>) -> bool {
    &&& in_order(calls)
    &&& forall|i: int| 0 <= i < calls.len() ==> is_call_of(#[trigger] calls[i], m)
    &&& forall|k: u64| #[trigger] m.contains_key(k) ==> calls.contains((k as int, m[k]@))
}

/// The calls of a map, in the order of their numbers.
pub open spec fn calls_of(m: Map<u64, ToolCallInfo>) -> Seq<(int, CallView)> {
    choose|calls: Seq<(int, CallView)>| are_calls_of(calls, m)
}

/// The calls with `call` under a number, in place of the one that had it.
pub open spec fn with_call(calls: Seq<(int, CallView)>, index: int, call: CallView) -> Seq<
    (int, CallView),
>
    decreases calls.len(),
{
    if calls.len() == 0 || index < calls[0].0 {
        seq![(index, call)] + calls
    } else if index == calls[0].0 {
        seq![(index, call)] + calls.skip(1)
    } else {
        seq![calls[0]] + with_call(calls.skip(1), index, call)
    }
}

/// The calls with more input for one of them. Input for a number that no call has is
/// left out.
pub open spec fn with_input(calls: Seq<(int, CallView)>, index: int, part: Seq<char>) -> Seq<
    (int, CallView),
> {
    Seq::new(
        calls.len(),
        |i: int|
            if calls[i].0 == index {
                (index, CallView { input: calls[i].1.input + part, ..calls[i].1 })
            } else {
                calls[i]
            },
    )
}

/// The calls keep their order.
pub proof fn law_calls_keep_order(
    calls: Seq<(int, CallView)>,
    index: int,
    call: CallView,
    part: Seq<char>,
)
    requires
        in_order(calls),
    ensures
        in_order(with_call(calls, index, call)),
        in_order(with_input(calls, index, part)),
        calls.len() > 0 && calls[0].0 < index ==> with_call(calls, index, call)[0] == calls[0],
        with_call(calls, index, call).len() > 0,
        with_call(calls, index, call)[0].0 >= index || with_call(calls, index, call)[0]
            == calls[0],
    decreases calls.len(),
{
    let r = with_call(calls, index, call);
    if calls.len() > 0 && index > calls[0].0 {
        let t = calls.skip(1);
        assert(in_order(t)) by {
            assert forall|i: int, j: int| 0 <= i < j < t.len() implies (#[trigger] t[i]).0 < (
            #[trigger] t[j]).0 by {
                assert(calls[i + 1].0 < calls[j + 1].0);
            }
        }
        law_calls_keep_order(t, index, call, part);
        let w = with_call(t, index, call);
        assert(r == seq![calls[0]] + w);
        assert(calls[0].0 < w[0].0) by {
            if w[0].0 < index {
                assert(w[0] == t[0]);
                if t.len() > 0 {
                    assert(t[0] == calls[1]);
                }
            }
        }
        assert forall|i: int, j: int| 0 <= i < j < r.len() implies (#[trigger] r[i]).0 < (
        #[trigger] r[j]).0 by {
            assert(r[j] == w[j - 1]);
            if i > 0 {
                assert(r[i] == w[i - 1]);
            } else if j > 1 {
                assert(w[0].0 < w[j - 1].0);
            }
        }
    } else if calls.len() > 0 && index == calls[0].0 {
        assert forall|i: int, j: int| 0 <= i < j < r.len() implies (#[trigger] r[i]).0 < (
        #[trigger] r[j]).0 by {
            assert(r[j] == calls[j]);
            if i > 0 {
                assert(r[i] == calls[i]);
            }
            assert(calls[i].0 < calls[j].0);
        }
    } else {
        assert forall|i: int, j: int| 0 <= i < j < r.len() implies (#[trigger] r[i]).0 < (
        #[trigger] r[j]).0 by {
            assert(r[j] == calls[j - 1]);
            if i > 0 {
                assert(r[i] == calls[i - 1]);
            } else if j > 1 {
                assert(calls[0].0 < calls[j - 1].0);
            }
        }
    }
    let w = with_input(calls, index, part);
    assert forall|i: int, j: int| 0 <= i < j < w.len() implies (#[trigger] w[i]).0 < (
    #[trigger] w[j]).0 by {
        assert(calls[i].0 < calls[j].0);
    }
}

pub proof fn lemma_calls_with(calls: Seq<(int, CallView)>, index: int, call: CallView, x: (int, CallView))
    requires
        in_order(calls),
    ensures
        with_call(calls, index, call).contains(x) <==> x == (index, call) || calls.contains(x)
            && x.0 != index,
    decreases calls.len(),
{
    let r = with_call(calls, index, call);
    if calls.len() == 0 || index < calls[0].0 {
        assert(r[0] == (index, call));
        assert forall|i: int| 0 <= i < calls.len() implies (#[trigger] calls[i]).0 != index
            && r[i + 1] == calls[i] by {
            if i > 0 {
                assert(calls[0].0 < calls[i].0);
            }
        }
        if calls.contains(x) {
            let i = calls.index_of(x);
            assert(r[i + 1] == x);
        }
        if r.contains(x) && x != (index, call) {
            let i = r.index_of(x);
            assert(calls[i - 1] == x);
        }
    } else if index == calls[0].0 {
        assert(r[0] == (index, call));
        if calls.contains(x) && x.0 != index {
            let i = calls.index_of(x);
            assert(r[i] == x);
        }
        if r.contains(x) && x != (index, call) {
            let i = r.index_of(x);
            assert(r[i] == calls[i]);
            assert(calls[0].0 < calls[i].0);
        }
    } else {
        let t = calls.skip(1);
        assert forall|a: int, b: int| 0 <= a < b < t.len() implies (#[trigger] t[a]).0 < (
        #[trigger] t[b]).0 by {
            assert(calls[a + 1].0 < calls[b + 1].0);
        }
        lemma_calls_with(t, index, call, x);
        let w = with_call(t, index, call);
        assert(r == seq![calls[0]] + w);
        if r.contains(x) {
            let i = r.index_of(x);
            if i > 0 {
                assert(w[i - 1] == x);
                if t.contains(x) {
                    assert(calls[t.index_of(x) + 1] == x);
                }
            } else {
                assert(calls[0] == x);
            }
        }
        if x == (index, call) || calls.contains(x) && x.0 != index {
            if w.contains(x) {
                assert(r[w.index_of(x) + 1] == x);
            } else {
                let i = calls.index_of(x);
                if i > 0 {
                    assert(t[i - 1] == x);
                }
                assert(r[0] == x);
            }
        }
    }
}

/// There is one order of the numbers of a map.
proof fn lemma_calls_are_one(
    a: Seq<(int, CallView)>,
    b: Seq<(int, CallView)>,
    m: Map<u64, ToolCallInfo>,
)
    requires
        are_calls_of(a, m),
        are_calls_of(b, m),
    ensures
        a == b,
    decreases a.len(),
{
    if a.len() == 0 {
        if b.len() > 0 {
            assert(is_call_of(b[0], m));
            assert(a.contains((b[0].0, m[b[0].0 as u64]@)));
        }
        assert(a =~= b);
    } else {
        let n = a.len() - 1;
        assert(is_call_of(a[n], m));
        let last = a[n].0 as u64;
        assert(b.contains((last as int, m[last]@)));
        let p = b.index_of(a[n]);
        assert(b[p] == a[n]);
        let q = b.len() - 1;
        assert(is_call_of(b[q], m));
        assert(a.contains((b[q].0, m[b[q].0 as u64]@)));
        let o = a.index_of(b[q]);
        assert(a[o] == b[q]);
        if p < q {
            assert(b[p].0 < b[q].0);
        }
        if o < n {
            assert(a[o].0 < a[n].0);
        }
        assert(p == q && o == n);
        let rest = m.remove(last);
        lemma_calls_but_last(a, m);
        lemma_calls_but_last(b, m);
        lemma_calls_are_one(a.drop_last(), b.drop_last(), rest);
        assert(a =~= a.drop_last().push(a[n]));
        assert(b =~= b.drop_last().push(b[q]));
    }
}

proof fn lemma_calls_but_last(calls: Seq<(int, CallView)>, m: Map<u64, ToolCallInfo>)
    requires
        are_calls_of(calls, m),
        calls.len() > 0,
    ensures
        are_calls_of(calls.drop_last(), m.remove(calls.last().0 as u64)),
{
    let n = calls.len() - 1;
    let rest = m.remove(calls.last().0 as u64);
    let t = calls.drop_last();
    assert(is_call_of(calls[n], m));
    assert forall|i: int| 0 <= i < t.len() implies is_call_of(#[trigger] t[i], rest) by {
        assert(is_call_of(calls[i], m));
        assert(calls[i].0 < calls[n].0);
    }
    assert forall|a: int, b: int| 0 <= a < b < t.len() implies (#[trigger] t[a]).0 < (
    #[trigger] t[b]).0 by {
        assert(calls[a].0 < calls[b].0);
    }
    assert forall|k: u64| #[trigger] rest.contains_key(k) implies t.contains(
        (k as int, rest[k]@),
    ) by {
        assert(m.contains_key(k));
        let i = calls.index_of((k as int, m[k]@));
        assert(calls[i] == (k as int, m[k]@));
        assert(t[i] == calls[i]);
    }
}

/// The calls of a map with one more.
proof fn lemma_calls_of_insert(
    calls: Seq<(int, CallView)>,
    m: Map<u64, ToolCallInfo>,
    index: u64,
    call: ToolCallInfo,
)
    requires
        are_calls_of(calls, m),
    ensures
        are_calls_of(with_call(calls, index as int, call@), m.insert(index, call)),
        calls_of(m.insert(index, call)) == with_call(calls, index as int, call@),
{
    let r = with_call(calls, index as int, call@);
    let next = m.insert(index, call);
    law_calls_keep_order(calls, index as int, call@, Seq::empty());
    assert forall|i: int| 0 <= i < r.len() implies is_call_of(#[trigger] r[i], next) by {
        assert(r.contains(r[i]));
        lemma_calls_with(calls, index as int, call@, r[i]);
        if r[i] != (index as int, call@) {
            let j = calls.index_of(r[i]);
            assert(is_call_of(calls[j], m));
        }
    }
    assert forall|k: u64| #[trigger] next.contains_key(k) implies r.contains(
        (k as int, next[k]@),
    ) by {
        lemma_calls_with(calls, index as int, call@, (k as int, next[k]@));
        if k != index {
            assert(m.contains_key(k));
        }
    }
    assert(are_calls_of(r, next));
    lemma_calls_are_one(calls_of(next), r, next);
}

proof fn lemma_calls_of(m: Map<u64, ToolCallInfo>)
    requires
        m.dom().finite(),
    ensures
        are_calls_of(calls_of(m), m),
    decreases m.dom().len(),
{
    if m.dom().len() == 0 {
        assert forall|k: u64| !(#[trigger] m.contains_key(k)) by {
            if m.contains_key(k) {
                assert(m.dom().contains(k));
                assert(m.dom().remove(k).len() < 0);
            }
        }
        assert(are_calls_of(Seq::empty(), m));
    } else {
        let k = m.dom().choose();
        let rest = m.remove(k);
        lemma_calls_of(rest);
        lemma_calls_of_insert(calls_of(rest), rest, k, m[k]);
        assert(rest.insert(k, m[k]) =~= m);
    }
}

proof fn lemma_input_is_a_call(
    calls: Seq<(int, CallView)>,
    index: int,
    call: CallView,
    part: Seq<char>,
)
    requires
        in_order(calls),
        calls.contains((index, call)),
    ensures
        with_call(calls, index, CallView { input: call.input + part, ..call }) == with_input(
            calls,
            index,
            part,
        ),
    decreases calls.len(),
{
    let more = CallView { input: call.input + part, ..call };
    let p = calls.index_of((index, call));
    assert(calls[p] == (index, call));
    assert forall|i: int| 0 <= i < calls.len() && i != p implies (#[trigger] calls[i]).0
        != index by {
        if i < p {
            assert(calls[i].0 < calls[p].0);
        } else {
            assert(calls[p].0 < calls[i].0);
        }
    }
    if p > 0 {
        let t = calls.skip(1);
        assert(calls[0].0 < calls[p].0);
        assert(t[p - 1] == (index, call));
        assert forall|a: int, b: int| 0 <= a < b < t.len() implies (#[trigger] t[a]).0 < (
        #[trigger] t[b]).0 by {
            assert(calls[a + 1].0 < calls[b + 1].0);
        }
        lemma_input_is_a_call(t, index, call, part);
        assert(with_input(calls, index, part) =~= seq![calls[0]] + with_input(t, index, part));
    } else {
        assert(with_input(calls, index, part) =~= seq![(index, more)] + calls.skip(1));
    }
}

/// What has come of an answer.
pub struct StreamingAccumulator {
    pub text: String,
    pub tool_calls: BTreeMap<u64, ToolCallInfo>,
    pub meta: Json,
    pub done: bool,
    pub error: Option<ModelRequestError>,
}

/// What a `StreamingAccumulator` is.
#[verifier::ext_equal]
pub struct AccumulatorView {
    pub text: Seq<char>,
    pub calls: Seq<(int, CallView)>,
    pub meta: JsonView,
    pub done: bool,
    pub error: Option<RequestErrorView>,
}

impl StreamingAccumulator {
    pub open spec fn view(&self) -> AccumulatorView {
        AccumulatorView {
            text: self.text@,
            calls: calls_of(self.tool_calls@),
            meta: self.meta@,
            done: self.done,
            error: match self.error {
                Some(e) => Some(e@),
                None => None,
            },
        }
    }
}

/// What has come of an answer before its first piece.
pub open spec fn nothing_yet() -> AccumulatorView {
    AccumulatorView {
        text: Seq::empty(),
        calls: Seq::empty(),
        meta: JsonView::Null,
        done: false,
        error: None,
    }
}

impl Default for StreamingAccumulator {
    fn default() -> (r: StreamingAccumulator)
        ensures
            r@ == nothing_yet(),
    {
        let r = StreamingAccumulator {
            text: String::new(),
            tool_calls: BTreeMap::new(),
            meta: Json::Null,
            done: false,
            error: None,
        };
        proof {
            lemma_calls_of(r.tool_calls@);
            assert(are_calls_of(Seq::empty(), r.tool_calls@));
            lemma_calls_are_one(r@.calls, Seq::empty(), r.tool_calls@);
        }
        r
    }
}

/// Entries with all of others put in, one after the other.
pub open spec fn with_entries(
    e: Seq<(Seq<char>, JsonView)>,
    more: Seq<(Seq<char>, JsonView)>,
) -> Seq<(Seq<char>, JsonView)>
    decreases more.len(),
{
    if more.len() == 0 {
        e
    } else {
        json::with_entry(
            with_entries(e, more.drop_last()),
            more.last().0,
            more.last().1,
        )
    }
}

/// What is known of an answer, with more put in. What is no object is left out.
pub open spec fn merged(meta: JsonView, data: JsonView) -> JsonView {
    match data {
        JsonView::Object(more) => JsonView::Object(
            with_entries(
                match meta {
                    JsonView::Object(e) => e,
                    _ => Seq::empty(),
                },
                more,
            ),
        ),
        _ => meta,
    }
}

/// The error of a stream.
pub open spec fn stream_error(message: Seq<char>, model: Seq<char>) -> RequestErrorView {
    failover::request_error(
        message,
        false,
        SnapshotView {
            reason: ProviderFailoverReason::ResponseShapeInvalid,
            stage: ProviderFailoverStage::ResponseDecode,
            model,
            attempt: 1,
            max_attempts: 1,
            status_code: None,
        },
        None,
    )
}

/// The error of a stream.
pub fn build_stream_error(message: &str, model: &str) -> (r: ModelRequestError)
    ensures
        r@ == stream_error(message@, model@),
{
    let known = ProviderFailoverSnapshot {
        reason: ProviderFailoverReason::ResponseShapeInvalid,
        stage: ProviderFailoverStage::ResponseDecode,
        model: model.to_owned(),
        attempt: 1,
        max_attempts: 1,
        status_code: None,
    };
    build_model_request_error(message, false, known, None)
}

impl AccumulatorView {
    /// What has come of an answer after one more piece.
    pub open spec fn after_event(self, event: EventView, model: Seq<char>) -> AccumulatorView {
        match event {
            EventView::Text(s) => AccumulatorView { text: self.text + s, ..self },
            EventView::ToolCallStart { index, name, id } => AccumulatorView {
                calls: with_call(self.calls, index, CallView { name, id, input: Seq::empty() }),
                ..self
            },
            EventView::ToolInputPartial { index, partial_json } => AccumulatorView {
                calls: with_input(self.calls, index, partial_json),
                ..self
            },
            EventView::Meta(data) => AccumulatorView { meta: merged(self.meta, data), ..self },
            EventView::StreamError(m) => AccumulatorView {
                error: Some(stream_error("Anthropic streaming error: "@ + m, model)),
                ..self
            },
            EventView::Done => AccumulatorView { done: true, ..self },
        }
    }

    /// What has come of an answer after more pieces.
    pub open spec fn after_events(
        self,
        events: Seq<EventView>,
        model: Seq<char>,
    ) -> AccumulatorView
        decreases events.len(),
    {
        if events.len() == 0 {
            self
        } else {
            self.after_events(events.drop_last(), model).after_event(events.last(), model)
        }
    }

    /// Whether no more is read.
    pub open spec fn is_over(self) -> bool {
        self.done || self.error is Some
    }
}

impl StreamingAccumulator {
    /// The calls stand in the order of their numbers.
    proof fn lemma_in_order(&self)
        ensures
            are_calls_of(self@.calls, self.tool_calls@),
            in_order(self@.calls),
    {
        lemma_calls_of(self.tool_calls@);
    }

    /// Sets down a call under a number, in place of the one that had it.
    fn insert_call(&mut self, index: u64, call: ToolCallInfo)
        ensures
            final(self)@ == (AccumulatorView {
                calls: with_call(old(self)@.calls, index as int, call@),
                ..old(self)@
            }),
            in_order(final(self)@.calls),
    {
        proof {
            self.lemma_in_order();
            lemma_calls_of_insert(self@.calls, self.tool_calls@, index, call);
        }
        let _ = self.tool_calls.insert(index, call);
    }

    /// Adds input to the call with a number, where there is one.
    fn add_input(&mut self, index: u64, part: &str)
        ensures
            final(self)@ == (AccumulatorView {
                calls: with_input(old(self)@.calls, index as int, part@),
                ..old(self)@
            }),
            in_order(final(self)@.calls),
    {
        proof {
            self.lemma_in_order();
        }
        let ghost calls = self@.calls;
        let more = match self.tool_calls.get(&index) {
            Some(call) => {
                proof {
                    lemma_input_is_a_call(calls, index as int, call@, part@);
                }
                ToolCallInfo {
                    name: call.name.clone(),
                    id: call.id.clone(),
                    input: cat(call.input.as_str(), part),
                }
            },
            None => {
                assert(with_input(calls, index as int, part@) =~= calls) by {
                    assert forall|i: int| 0 <= i < calls.len() implies (#[trigger] calls[i]).0
                        != index by {
                        assert(is_call_of(calls[i], self.tool_calls@));
                    }
                }
                return ;
            },
        };
        self.insert_call(index, more);
    }

    /// Puts more into what is known of the answer.
    fn merge_meta(&mut self, data: &Json)
        ensures
            final(self)@ == (AccumulatorView {
                meta: merged(old(self)@.meta, data@),
                ..old(self)@
            }),
    {
        let more = match data.as_object() {
            Some(v) => v,
            None => {
                return ;
            },
        };
        let ghost all = json::entries(more@);
        let ghost start = match self.meta@ {
            JsonView::Object(e) => e,
            _ => Seq::empty(),
        };
        let mut v: Vec<(String, Json)> = match self.meta.duplicate() {
            Json::Object(e) => {
                proof {
                    json::lemma_object_view(e);
                }
                e
            },
            _ => Vec::new(),
        };
        assert(json::entries(v@) =~= start);
        let mut i: usize = 0;
        assert(all.take(0) =~= Seq::empty());
        while i < more.len()
            invariant
                i <= more@.len(),
                all == json::entries(more@),
                json::entries(v@) == with_entries(start, all.take(i as int)),
            decreases more@.len() - i,
        {
            assert(all.take(i + 1).drop_last() =~= all.take(i as int));
            assert(all.take(i + 1).last() == all[i as int]);
            put_entry(&mut v, more[i].0.as_str(), more[i].1.duplicate());
            i += 1;
        }
        assert(all.take(i as int) =~= all);
        self.meta = object(v);
    }

    /// Takes in one more piece.
    pub fn on_event(&mut self, event: StreamingEvent, model: &str)
        ensures
            final(self)@ == old(self)@.after_event(event@, model@),
            in_order(final(self)@.calls),
    {
        proof {
            self.lemma_in_order();
        }
        match event {
            StreamingEvent::Text(s) => {
                self.text = cat(self.text.as_str(), s.as_str());
            },
            StreamingEvent::ToolCallStart { index, name, id } => {
                let call = ToolCallInfo { name, id, input: String::new() };
                assert(call@.input =~= Seq::empty());
                self.insert_call(index, call);
            },
            StreamingEvent::ToolInputPartial { index, partial_json } => {
                self.add_input(index, partial_json.as_str());
            },
            StreamingEvent::Meta(data) => {
                self.merge_meta(&data);
            },
            StreamingEvent::StreamError(message) => {
                let said = cat("Anthropic streaming error: ", message.as_str());
                self.error = Some(build_stream_error(said.as_str(), model));
            },
            StreamingEvent::Done => {
                self.done = true;
            },
        }
    }

    /// Takes in an error of the stream.
    pub fn on_error(&mut self, error: ModelRequestError)
        ensures
            final(self)@ == (AccumulatorView { error: Some(error@), ..old(self)@ }),
    {
        self.error = Some(error);
    }

    /// Whether no more is read.
    pub fn is_over(&self) -> (r: bool)
        ensures
            r == self@.is_over(),
    {
        self.done || self.error.is_some()
    }
}

// The turn.

/// The tools that calls ask for, or the first input that is no JSON.
pub open spec fn intents_of(
    calls: Seq<(int, CallView)>,
    session_id: Seq<char>,
    turn_id: Seq<char>,
    model: Seq<char>,
) -> Result<Seq<ToolIntentView>, RequestErrorView>
    decreases calls.len(),
{
    if calls.len() == 0 {
        Ok(Seq::empty())
    } else {
        match intents_of(calls.drop_last(), session_id, turn_id, model) {
            Err(e) => Err(e),
            Ok(before) => match json::parsed_json(calls.last().1.input) {
                Ok(args) => Ok(
                    before.push(
                        ToolIntentView {
                            tool_name: calls.last().1.name,
                            args_json: args,
                            source: "provider_tool_call"@,
                            session_id,
                            turn_id,
                            tool_call_id: calls.last().1.id,
                        },
                    ),
                ),
                Err(e) => Err(stream_error("failed to parse tool call input: "@ + e, model)),
            },
        }
    }
}

impl AccumulatorView {
    /// The turn that has come, once the stream has ended.
    pub open spec fn turn(
        self,
        session_id: Seq<char>,
        turn_id: Seq<char>,
        model: Seq<char>,
    ) -> Result<ProviderTurnView, RequestErrorView> {
        match self.error {
            Some(e) => Err(e),
            None => if !self.done {
                Err(
                    stream_error(
                        "streaming response ended without message_stop event"@,
                        model,
                    ),
                )
            } else {
                match intents_of(self.calls, session_id, turn_id, model) {
                    Ok(tool_intents) => Ok(
                        ProviderTurnView {
                            assistant_text: self.text,
                            tool_intents,
                            raw_meta: self.meta,
                        },
                    ),
                    Err(e) => Err(e),
                }
            },
        }
    }
}

/// What a turn or an error is.
pub open spec fn turn_result(r: Result<ProviderTurn, ModelRequestError>) -> Result<
    ProviderTurnView,
    RequestErrorView,
> {
    match r {
        Ok(t) => Ok(t@),
        Err(e) => Err(e@),
    }
}

proof fn lemma_intents_fail(
    calls: Seq<(int, CallView)>,
    n: int,
    session_id: Seq<char>,
    turn_id: Seq<char>,
    model: Seq<char>,
)
    requires
        0 <= n <= calls.len(),
        intents_of(calls.take(n), session_id, turn_id, model) is Err,
    ensures
        intents_of(calls, session_id, turn_id, model) == intents_of(
            calls.take(n),
            session_id,
            turn_id,
            model,
        ),
    decreases calls.len() - n,
{
    if n == calls.len() {
        assert(calls.take(n) =~= calls);
    } else {
        assert(calls.take(n + 1).drop_last() =~= calls.take(n));
        lemma_intents_fail(calls, n + 1, session_id, turn_id, model);
    }
}

/// The calls that walking a map gives.
spec fn walked(seen: Seq<(&u64, &ToolCallInfo)>) -> Seq<(int, CallView)> {
    Seq::new(seen.len(), |i: int| (*seen[i].0 as int, seen[i].1@))
}

proof fn lemma_rising(keys: Seq<u64>)
    requires
        increasing_seq(keys),
    ensures
        forall|i: int, j: int|
            0 <= i < j < keys.len() ==> (#[trigger] keys[i]) < (#[trigger] keys[j]),
{
    assert forall|i: int, j: int| 0 <= i < j < keys.len() implies (#[trigger] keys[i]) < (
    #[trigger] keys[j]) by {
        assert(keys[i].cmp_spec(&keys[j]) is Less);
    }
}

/// Walking a map gives its calls in the order of their numbers.
proof fn lemma_walk(seen: Seq<(&u64, &ToolCallInfo)>, m: Map<u64, ToolCallInfo>)
    requires
        forall|i: int, j: int| 0 <= i < j < seen.len() ==> *(#[trigger] seen[i]).0 < *(
        #[trigger] seen[j]).0,
        forall|i: int|
            0 <= i < seen.len() ==> m.contains_key(*(#[trigger] seen[i]).0) && m[*seen[i].0]
                == *seen[i].1,
        forall|k: u64| #[trigger] m.contains_key(k) ==> seen.contains((&k, &m[k])),
    ensures
        are_calls_of(walked(seen), m),
{
    let r = walked(seen);
    assert forall|i: int, j: int| 0 <= i < j < r.len() implies (#[trigger] r[i]).0 < (
    #[trigger] r[j]).0 by {
        assert(*seen[i].0 < *seen[j].0);
    }
    assert forall|i: int| 0 <= i < r.len() implies is_call_of(#[trigger] r[i], m) by {
        assert(m.contains_key(*seen[i].0));
    }
    assert forall|k: u64| #[trigger] m.contains_key(k) implies r.contains((k as int, m[k]@)) by {
        let i = seen.index_of((&k, &m[k]));
        assert(seen[i] == (&k, &m[k]));
        assert(r[i] == (k as int, m[k]@));
    }
}

impl StreamingAccumulator {
    fn tool_intents(&self, session_id: &str, turn_id: &str, model: &str) -> (r: Result<
        Vec<ToolIntent>,
        ModelRequestError,
    >)
        ensures
            (match r {
                Ok(v) => intents_of(self@.calls, session_id@, turn_id@, model@) == Ok::<
                    Seq<ToolIntentView>,
                    RequestErrorView,
                >(conversation::intent_views(v@)),
                Err(e) => intents_of(self@.calls, session_id@, turn_id@, model@) == Err::<
                    Seq<ToolIntentView>,
                    RequestErrorView,
                >(e@),
            }),
    {
        let calls = self.tool_calls.iter();
        let ghost seen = calls.remaining();
        let ghost all = self@.calls;
        proof {
            self.lemma_in_order();
            let keys = seen.map_values(|kv: (&u64, &ToolCallInfo)| *kv.0);
            lemma_rising(keys);
            assert forall|i: int, j: int| 0 <= i < j < seen.len() implies *(#[trigger] seen[i]).0
                < *(#[trigger] seen[j]).0 by {
                assert(keys[i] < keys[j]);
            }
            lemma_walk(seen, self.tool_calls@);
            lemma_calls_are_one(all, walked(seen), self.tool_calls@);
        }
        let mut r: Vec<ToolIntent> = Vec::new();
        assert(conversation::intent_views(r@) =~= Seq::empty());
        assert(all.take(0) =~= Seq::empty());
        for item in it: calls
            invariant
                it.seq() == seen,
                all == walked(seen),
                all == self@.calls,
                intents_of(all.take(it.index() as int), session_id@, turn_id@, model@) == Ok::<
                    Seq<ToolIntentView>,
                    RequestErrorView,
                >(conversation::intent_views(r@)),
        {
            let ghost i = it.index() as int;
            assert(all.take(i + 1).drop_last() =~= all.take(i));
            assert(all.take(i + 1).last() == all[i]);
            let call = item.1;
            match parse_json(call.input.as_str()) {
                Ok(args_json) => {
                    let intent = ToolIntent {
                        tool_name: call.name.clone(),
                        args_json,
                        source: "provider_tool_call".to_owned(),
                        session_id: session_id.to_owned(),
                        turn_id: turn_id.to_owned(),
                        tool_call_id: call.id.clone(),
                    };
                    assert(conversation::intent_views(r@.push(intent))
                        =~= conversation::intent_views(r@).push(intent@));
                    r.push(intent);
                },
                Err(e) => {
                    let said = cat("failed to parse tool call input: ", e.as_str());
                    proof {
                        lemma_intents_fail(all, i + 1, session_id@, turn_id@, model@);
                    }
                    return Err(build_stream_error(said.as_str(), model));
                },
            }
        }
        assert(all.take(seen.len() as int) =~= all);
        Ok(r)
    }

    /// The turn that has come, once the stream has ended. Without a session or a turn the
    /// tools name none.
    pub fn finish(
        self,
        session_id: Option<&str>,
        turn_id: Option<&str>,
        model: &str,
    ) -> (r: Result<ProviderTurn, ModelRequestError>)
        ensures
            turn_result(r) == self@.turn(named(session_id), named(turn_id), model@),
    {
        assert(""@ =~= Seq::empty()) by {
            reveal_strlit("");
        }
        let session = match session_id {
            Some(s) => s,
            None => "",
        };
        let turn = match turn_id {
            Some(s) => s,
            None => "",
        };
        let StreamingAccumulator { text, tool_calls, meta, done, error } = self;
        let kept = StreamingAccumulator { text, tool_calls, meta, done, error: None };
        if let Some(e) = error {
            return Err(e);
        }
        if !kept.done {
            return Err(
                build_stream_error("streaming response ended without message_stop event", model),
            );
        }
        match kept.tool_intents(session, turn, model) {
            Ok(tool_intents) => Ok(
                ProviderTurn {
                    assistant_text: kept.text,
                    tool_intents,
                    raw_meta: kept.meta,
                },
            ),
            Err(e) => Err(e),
        }
    }
}

/// A name, empty where there is none.
pub open spec fn named(o: Option<&str>) -> Seq<char> {
    match o {
        Some(s) => s@,
        None => Seq::empty(),
    }
}

// Laws.

/// The calls of an answer are those that it holds, each under its number, in the order of the
/// numbers.
pub proof fn law_calls_are_those_held(a: StreamingAccumulator, k: u64)
    ensures
        in_order(a@.calls),
        a.tool_calls@.contains_key(k) ==> a@.calls.contains((k as int, a.tool_calls@[k]@)),
        forall|i: int|
            0 <= i < a@.calls.len() ==> {
                let call = #[trigger] a@.calls[i];
                &&& 0 <= call.0 <= u64::MAX
                &&& a.tool_calls@.contains_key(call.0 as u64)
                &&& a.tool_calls@[call.0 as u64]@ == call.1
            },
{
    a.lemma_in_order();
    assert forall|i: int| 0 <= i < a@.calls.len() implies {
        let call = #[trigger] a@.calls[i];
        &&& 0 <= call.0 <= u64::MAX
        &&& a.tool_calls@.contains_key(call.0 as u64)
        &&& a.tool_calls@[call.0 as u64]@ == call.1
    } by {
        assert(is_call_of(a@.calls[i], a.tool_calls@));
    }
}

/// The texts of pieces, one after the other.
pub open spec fn spoken(events: Seq<EventView>) -> Seq<char>
    decreases events.len(),
{
    if events.len() == 0 {
        Seq::empty()
    } else {
        match events.last() {
            EventView::Text(s) => spoken(events.drop_last()) + s,
            _ => spoken(events.drop_last()),
        }
    }
}

/// The text of an answer is the texts of its pieces, in the order in which they came, and
/// nothing else.
pub proof fn law_text_is_what_was_said(
    start: AccumulatorView,
    events: Seq<EventView>,
    model: Seq<char>,
)
    ensures
        start.after_events(events, model).text == start.text + spoken(events),
    decreases events.len(),
{
    if events.len() == 0 {
        assert(start.text + spoken(events) =~= start.text);
    } else {
        law_text_is_what_was_said(start, events.drop_last(), model);
        if let EventView::Text(s) = events.last() {
            assert(start.text + spoken(events.drop_last()) + s =~= start.text + (spoken(
                events.drop_last(),
            ) + s));
        }
    }
}

/// A stream that did not say that it was over is an error, whatever has come of it.
pub proof fn law_broken_stream_is_no_turn(
    start: AccumulatorView,
    session_id: Seq<char>,
    turn_id: Seq<char>,
    model: Seq<char>,
)
    requires
        !start.done,
    ensures
        start.turn(session_id, turn_id, model) is Err,
{
}

/// The input of the call that began last under a number, from a list of pieces. A piece
/// under another number changes nothing of it.
pub open spec fn input_of(events: Seq<EventView>, index: int) -> Option<Seq<char>>
    decreases events.len(),
{
    if events.len() == 0 {
        None
    } else {
        let before = input_of(events.drop_last(), index);
        match events.last() {
            EventView::ToolCallStart { index: i, name: _, id: _ } => if i == index {
                Some(Seq::empty())
            } else {
                before
            },
            EventView::ToolInputPartial { index: i, partial_json } => if i == index {
                match before {
                    Some(s) => Some(s + partial_json),
                    None => None,
                }
            } else {
                before
            },
            _ => before,
        }
    }
}

/// The input of the call with a number.
pub open spec fn input_at(calls: Seq<(int, CallView)>, index: int) -> Option<Seq<char>>
    decreases calls.len(),
{
    if calls.len() == 0 {
        None
    } else if calls[0].0 == index {
        Some(calls[0].1.input)
    } else {
        input_at(calls.skip(1), index)
    }
}

proof fn lemma_input_with_call(
    calls: Seq<(int, CallView)>,
    i: int,
    call: CallView,
    index: int,
)
    requires
        in_order(calls),
    ensures
        input_at(with_call(calls, i, call), index) == (if i == index {
            Some(call.input)
        } else {
            input_at(calls, index)
        }),
    decreases calls.len(),
{
    let r = with_call(calls, i, call);
    if calls.len() == 0 || i < calls[0].0 {
        assert(r.skip(1) =~= calls);
    } else if i == calls[0].0 {
        assert(r.skip(1) =~= calls.skip(1));
    } else {
        let t = calls.skip(1);
        assert forall|a: int, b: int| 0 <= a < b < t.len() implies (#[trigger] t[a]).0 < (
        #[trigger] t[b]).0 by {
            assert(calls[a + 1].0 < calls[b + 1].0);
        }
        lemma_input_with_call(t, i, call, index);
        assert(r.skip(1) =~= with_call(t, i, call));
        assert(r[0] == calls[0]);
    }
}

proof fn lemma_input_with_input(
    calls: Seq<(int, CallView)>,
    i: int,
    part: Seq<char>,
    index: int,
)
    ensures
        input_at(with_input(calls, i, part), index) == (if i == index {
            match input_at(calls, index) {
                Some(s) => Some(s + part),
                None => None,
            }
        } else {
            input_at(calls, index)
        }),
    decreases calls.len(),
{
    let r = with_input(calls, i, part);
    if calls.len() > 0 {
        lemma_input_with_input(calls.skip(1), i, part, index);
        assert(r.skip(1) =~= with_input(calls.skip(1), i, part));
    }
}

/// The input of a call is what came for its number since it began, in the order in which
/// it came, however the calls are mixed.
pub proof fn law_input_is_what_came(events: Seq<EventView>, model: Seq<char>, index: int)
    ensures
        input_at(nothing_yet().after_events(events, model).calls, index) == input_of(
            events,
            index,
        ),
        in_order(nothing_yet().after_events(events, model).calls),
    decreases events.len(),
{
    if events.len() > 0 {
        let init = events.drop_last();
        law_input_is_what_came(init, model, index);
        let before = nothing_yet().after_events(init, model).calls;
        match events.last() {
            EventView::ToolCallStart { index: i, name, id } => {
                let call = CallView { name, id, input: Seq::empty() };
                law_calls_keep_order(before, i, call, Seq::empty());
                lemma_input_with_call(before, i, call, index);
            },
            EventView::ToolInputPartial { index: i, partial_json } => {
                law_calls_keep_order(
                    before,
                    i,
                    CallView { name: Seq::empty(), id: Seq::empty(), input: Seq::empty() },
                    partial_json,
                );
                lemma_input_with_input(before, i, partial_json, index);
            },
            _ => {},
        }
    }
}

} // verus!
