//! Streams of server-sent events.
use crate::json;
use crate::json::{parse_json, Json, JsonView};
use crate::provider::failover::{ModelRequestError, RequestErrorView};
use crate::provider::streaming;
use crate::provider::streaming::{build_stream_error, streaming_event, EventView, StreamingEvent};
use crate::text;
use crate::text::{cat, chars_of, has_prefix, joined_texts, same, string_of};
use std::collections::VecDeque;
use vstd::prelude::*;

verus! {

/// A line of a stream. `Comment` stands for every line that says nothing here.
pub enum SseLine {
    EventType { name: String },
    Data { content: String },
    Retry { delay: String },
    Comment,
    Empty,
}

/// What a `SseLine` is.
#[verifier::ext_equal]
pub enum LineView {
    EventType { name: Seq<char> },
    Data { content: Seq<char> },
    Retry { delay: Seq<char> },
    Comment,
    Empty,
}

impl SseLine {
    pub open spec fn view(&self) -> LineView {
        match self {
            SseLine::EventType { name } => LineView::EventType { name: name@ },
            SseLine::Data { content } => LineView::Data { content: content@ },
            SseLine::Retry { delay } => LineView::Retry { delay: delay@ },
            SseLine::Comment => LineView::Comment,
            SseLine::Empty => LineView::Empty,
        }
    }
}

/// What stands behind the first `n` characters of a line, without one space.
pub open spec fn field_value(line: Seq<char>, n: int) -> Seq<char> {
    if line.len() > n && line[n] == ' ' {
        line.skip(n + 1)
    } else {
        line.skip(n)
    }
}

/// What a line says.
pub open spec fn line_of(line: Seq<char>) -> LineView {
    if line.len() == 0 {
        LineView::Empty
    } else if text::starts_with(line, "event:"@) {
        LineView::EventType { name: field_value(line, 6) }
    } else if text::starts_with(line, "data:"@) {
        LineView::Data { content: field_value(line, 5) }
    } else if text::starts_with(line, "retry:"@) {
        LineView::Retry { delay: field_value(line, 6) }
    } else {
        LineView::Comment
    }
}

fn value_behind(v: &Vec<char>, n: usize) -> (r: String)
    requires
        n <= v@.len(),
    ensures
        r@ == field_value(v@, n as int),
{
    let len: usize = v.len();
    if n < len && v[n] == ' ' {
        assert(v@.subrange(n + 1, len as int) =~= v@.skip(n + 1));
        string_of(v, n + 1, len)
    } else {
        assert(v@.subrange(n as int, len as int) =~= v@.skip(n as int));
        string_of(v, n, len)
    }
}

/// What a line says.
pub fn parse_sse_line(line: &str) -> (r: SseLine)
    ensures
        r@ == line_of(line@),
{
    let v = chars_of(line);
    proof {
        reveal_strlit("event:");
        reveal_strlit("data:");
        reveal_strlit("retry:");
    }
    if v.len() == 0 {
        SseLine::Empty
    } else if has_prefix(&v, "event:") {
        SseLine::EventType { name: value_behind(&v, 6) }
    } else if has_prefix(&v, "data:") {
        SseLine::Data { content: value_behind(&v, 5) }
    } else if has_prefix(&v, "retry:") {
        SseLine::Retry { delay: value_behind(&v, 6) }
    } else {
        SseLine::Comment
    }
}

/// An event of a stream.
pub enum SseStreamEvent {
    Message { data: Json, event_type: Option<String> },
    Error { message: String },
    Done,
}

/// What a `SseStreamEvent` is.
#[verifier::ext_equal]
pub enum StreamEventView {
    Message { data: JsonView, event_type: Option<Seq<char>> },
    Error { message: Seq<char> },
    Done,
}

impl SseStreamEvent {
    pub open spec fn view(&self) -> StreamEventView {
        match self {
            SseStreamEvent::Message { data, event_type } => StreamEventView::Message {
                data: data@,
                event_type: text::opt_text(*event_type),
            },
            SseStreamEvent::Error { message } => StreamEventView::Error { message: message@ },
            SseStreamEvent::Done => StreamEventView::Done,
        }
    }
}

/// The event that data lines make: none where they are empty, the end of the stream, an
/// error where the event is called one, or a message.
pub open spec fn stream_event(event_type: Option<Seq<char>>, content: Seq<char>) -> Result<
    Option<StreamEventView>,
    Seq<char>,
> {
    if content.len() == 0 {
        Ok(None)
    } else if content == "[DONE]"@ {
        Ok(Some(StreamEventView::Done))
    } else {
        match json::parsed_json(content) {
            Ok(data) => if event_type == Some("error"@) {
                Ok(Some(StreamEventView::Error { message: streaming::error_message(data) }))
            } else {
                Ok(Some(StreamEventView::Message { data, event_type }))
            },
            Err(e) => Err(e),
        }
    }
}

/// What comes of data lines.
pub open spec fn stream_event_result(r: Result<Option<SseStreamEvent>, String>) -> Result<
    Option<StreamEventView>,
    Seq<char>,
> {
    match r {
        Ok(Some(e)) => Ok(Some(e@)),
        Ok(None) => Ok(None),
        Err(e) => Err(e@),
    }
}

fn said_of_error(data: &Json) -> (r: String)
    ensures
        r@ == streaming::error_message(data@),
{
    let found = match data.get("error") {
        Some(e) => e.str_at("message"),
        None => None,
    };
    match found {
        Some(m) => m.to_owned(),
        None => "unknown streaming error".to_owned(),
    }
}

impl SseStreamEvent {
    /// The event that data lines make.
    pub fn from_sse_lines(event_type: Option<String>, data_lines: &Vec<String>) -> (r: Result<
        Option<SseStreamEvent>,
        String,
    >)
        ensures
            stream_event_result(r) == stream_event(
                text::opt_text(event_type),
                text::join(text::texts(data_lines@), "\n"@),
            ),
    {
        let content = joined_texts(data_lines, "\n");
        if content.as_str().is_empty() {
            return Ok(None);
        }
        if same(content.as_str(), "[DONE]") {
            return Ok(Some(SseStreamEvent::Done));
        }
        match parse_json(content.as_str()) {
            Ok(data) => {
                let is_error = match &event_type {
                    Some(t) => same(t.as_str(), "error"),
                    None => false,
                };
                if is_error {
                    Ok(Some(SseStreamEvent::Error { message: said_of_error(&data) }))
                } else {
                    Ok(Some(SseStreamEvent::Message { data, event_type }))
                }
            },
            Err(e) => Err(e),
        }
    }
}

// Bytes.

/// What `std::str::from_utf8` says of bytes that are no text.
pub uninterp spec fn utf8_error(bytes: Seq<u8>) -> Seq<char>;

/// The text that bytes encode, through `std::str::from_utf8`: the decoded text where they
/// are valid UTF-8, and otherwise what its error prints.
#[verifier::external_body]
fn utf8_text(bytes: &Vec<u8>) -> (r: Result<String, String>)
    ensures
        (match r {
            Ok(s) => vstd::utf8::valid_utf8(bytes@) && s@ == vstd::utf8::decode_utf8(bytes@),
            Err(e) => !vstd::utf8::valid_utf8(bytes@) && e@ == utf8_error(bytes@),
        }),
{
    match std::str::from_utf8(bytes) {
        Ok(s) => Ok(s.to_owned()),
        Err(e) => Err(e.to_string()),
    }
}

/// What comes out of a stream.
pub enum SseItem {
    Event(StreamingEvent),
    Failed(ModelRequestError),
}

/// What a `SseItem` is.
#[verifier::ext_equal]
pub enum ItemView {
    Event(EventView),
    Failed(RequestErrorView),
}

impl SseItem {
    pub open spec fn view(&self) -> ItemView {
        match self {
            SseItem::Event(e) => ItemView::Event(e@),
            SseItem::Failed(e) => ItemView::Failed(e@),
        }
    }
}

/// The views of a list of items.
pub open spec fn item_views(v: Seq<SseItem>) -> Seq<ItemView> {
    Seq::new(v.len(), |i: int| v[i]@)
}

/// A reader of a stream: the line that has begun, the event that was named, and what
/// has come out and was not taken yet.
pub struct SseByteStreamParser {
    line_buffer: Vec<u8>,
    event_type: Option<String>,
    pending: VecDeque<SseItem>,
}

/// What a `SseByteStreamParser` is.
#[verifier::ext_equal]
pub struct ParserView {
    pub line: Seq<u8>,
    pub event_type: Option<Seq<char>>,
    pub pending: Seq<ItemView>,
}

impl ParserView {
    /// The reader with one more item.
    pub open spec fn with_item(self, item: ItemView) -> ParserView {
        ParserView { pending: self.pending.push(item), ..self }
    }

    /// The reader with an error.
    pub open spec fn with_error(self, message: Seq<char>) -> ParserView {
        self.with_item(ItemView::Failed(streaming::stream_error(message, Seq::empty())))
    }

    /// The reader after an event, and whether the stream is over.
    pub open spec fn after_stream_event(
        self,
        event: Result<Option<StreamEventView>, Seq<char>>,
    ) -> (ParserView, bool) {
        match event {
            Ok(Some(StreamEventView::Message { data, event_type: _ })) => match streaming::event_in(
                data,
            ) {
                Some(e) => (self.with_item(ItemView::Event(e)), false),
                None => (self, false),
            },
            Ok(Some(StreamEventView::Error { message })) => (self.with_error(message), false),
            Ok(Some(StreamEventView::Done)) => (self, true),
            Ok(None) => (self, false),
            Err(e) => (self.with_error("streaming event parse failed: "@ + e), false),
        }
    }

    /// The reader after a line, and whether the stream is over.
    pub open spec fn after_text(self, line: Seq<char>) -> (ParserView, bool) {
        match line_of(line) {
            LineView::EventType { name } => (
                ParserView { event_type: Some(name), ..self },
                false,
            ),
            LineView::Data { content } => {
                let rest = ParserView { event_type: None, ..self };
                rest.after_stream_event(stream_event(self.event_type, content))
            },
            _ => (self, false),
        }
    }

    /// The reader after the bytes of a line, and whether the stream is over.
    pub open spec fn after_line(self, line: Seq<u8>) -> (ParserView, bool) {
        if vstd::utf8::valid_utf8(line) {
            self.after_text(vstd::utf8::decode_utf8(line))
        } else {
            (self.with_error("invalid UTF-8 in SSE stream: "@ + utf8_error(line)), false)
        }
    }

    /// The reader after one byte, and whether the stream is over.
    pub open spec fn after_byte(self, byte: u8) -> (ParserView, bool) {
        if byte == 10 {
            ParserView { line: Seq::empty(), ..self }.after_line(self.line)
        } else if byte == 13 {
            (self, false)
        } else {
            (ParserView { line: self.line.push(byte), ..self }, false)
        }
    }

    /// The reader after more bytes, and whether the stream is over. What stands behind the
    /// end is not read.
    pub open spec fn after_bytes(self, bytes: Seq<u8>) -> (ParserView, bool)
        decreases bytes.len(),
    {
        if bytes.len() == 0 {
            (self, false)
        } else {
            let (next, over) = self.after_byte(bytes[0]);
            if over {
                (next, true)
            } else {
                next.after_bytes(bytes.skip(1))
            }
        }
    }
}

impl SseByteStreamParser {
    pub closed spec fn view(&self) -> ParserView {
        ParserView {
            line: self.line_buffer@,
            event_type: text::opt_text(self.event_type),
            pending: item_views(self.pending@),
        }
    }

    /// A reader at the start of a stream.
    pub fn new() -> (r: SseByteStreamParser)
        ensures
            r@ == (ParserView { line: Seq::empty(), event_type: None, pending: Seq::empty() }),
    {
        let r = SseByteStreamParser {
            line_buffer: Vec::new(),
            event_type: None,
            pending: VecDeque::new(),
        };
        assert(r@.pending =~= Seq::empty());
        r
    }

    /// Takes the item that came out first.
    pub fn next_item(&mut self) -> (r: Option<SseItem>)
        ensures
            (match r {
                Some(item) => old(self)@.pending.len() > 0 && item@ == old(self)@.pending[0]
                    && final(self)@ == (ParserView {
                    pending: old(self)@.pending.skip(1),
                    ..old(self)@
                }),
                None => old(self)@.pending.len() == 0 && final(self)@ == old(self)@,
            }),
    {
        match self.pending.pop_front() {
            Some(item) => {
                assert(item_views(self.pending@) =~= item_views(old(self).pending@).skip(1));
                Some(item)
            },
            None => None,
        }
    }

    fn push_item(&mut self, item: SseItem)
        ensures
            final(self)@ == old(self)@.with_item(item@),
    {
        self.pending.push_back(item);
        assert(item_views(self.pending@) =~= item_views(old(self).pending@).push(item@));
    }

    fn push_error(&mut self, message: &str)
        ensures
            final(self)@ == old(self)@.with_error(message@),
    {
        assert(""@ =~= Seq::empty()) by {
            reveal_strlit("");
        }
        self.push_item(SseItem::Failed(build_stream_error(message, "")));
    }

    fn on_stream_event(&mut self, event: Result<Option<SseStreamEvent>, String>) -> (over: bool)
        ensures
            (final(self)@, over) == old(self)@.after_stream_event(stream_event_result(event)),
    {
        match event {
            Ok(Some(SseStreamEvent::Message { data, event_type: _ })) => {
                if let Some(e) = streaming_event(&data) {
                    self.push_item(SseItem::Event(e));
                }
                false
            },
            Ok(Some(SseStreamEvent::Error { message })) => {
                self.push_error(message.as_str());
                false
            },
            Ok(Some(SseStreamEvent::Done)) => true,
            Ok(None) => false,
            Err(e) => {
                let said = cat("streaming event parse failed: ", e.as_str());
                self.push_error(said.as_str());
                false
            },
        }
    }

    fn on_line(&mut self, line: &str) -> (over: bool)
        ensures
            (final(self)@, over) == old(self)@.after_text(line@),
    {
        match parse_sse_line(line) {
            SseLine::EventType { name } => {
                self.event_type = Some(name);
                false
            },
            SseLine::Data { content } => {
                let event_type = self.event_type.take();
                let mut lines: Vec<String> = Vec::new();
                lines.push(content);
                proof {
                    let t = text::texts(lines@);
                    assert(t =~= seq![content@]);
                    reveal_with_fuel(text::join, 2);
                    assert(text::join(t, "\n"@) =~= content@);
                }
                let event = SseStreamEvent::from_sse_lines(event_type, &lines);
                self.on_stream_event(event)
            },
            _ => false,
        }
    }

    /// Reads more bytes. The result says whether the stream is over.
    pub fn feed(&mut self, bytes: &[u8]) -> (over: bool)
        ensures
            (final(self)@, over) == old(self)@.after_bytes(bytes@),
    {
        let ghost start = self@;
        let mut i: usize = 0;
        assert(bytes@.skip(0) =~= bytes@);
        while i < bytes.len()
            invariant
                i <= bytes@.len(),
                start == old(self)@,
                start.after_bytes(bytes@) == self@.after_bytes(bytes@.skip(i as int)),
            decreases bytes@.len() - i,
        {
            let ghost here = self@;
            let ghost rest = bytes@.skip(i as int);
            assert(rest[0] == bytes@[i as int]);
            assert(rest.skip(1) =~= bytes@.skip(i + 1));
            let byte: u8 = bytes[i];
            if byte == 10 {
                let mut line: Vec<u8> = Vec::new();
                std::mem::swap(&mut line, &mut self.line_buffer);
                assert(self@ == (ParserView { line: Seq::empty(), ..here }));
                let over = match utf8_text(&line) {
                    Ok(s) => self.on_line(s.as_str()),
                    Err(e) => {
                        let said = cat("invalid UTF-8 in SSE stream: ", e.as_str());
                        self.push_error(said.as_str());
                        false
                    },
                };
                assert((self@, over) == here.after_byte(byte));
                if over {
                    return true;
                }
            } else if byte != 13 {
                self.line_buffer.push(byte);
                assert((self@, false) == here.after_byte(byte));
            }
            i += 1;
        }
        assert(bytes@.skip(i as int).len() == 0);
        false
    }
}

// Laws.

/// How a stream is cut into pieces does not matter: two pieces read one after the other
/// are read as the two in one, as long as the first does not end the stream.
pub proof fn law_pieces_do_not_matter(s: ParserView, a: Seq<u8>, b: Seq<u8>)
    ensures
        s.after_bytes(a + b) == (if s.after_bytes(a).1 {
            s.after_bytes(a)
        } else {
            s.after_bytes(a).0.after_bytes(b)
        }),
    decreases a.len(),
{
    if a.len() == 0 {
        assert(a + b =~= b);
    } else {
        let (next, over) = s.after_byte(a[0]);
        assert((a + b)[0] == a[0]);
        assert((a + b).skip(1) =~= a.skip(1) + b);
        if !over {
            law_pieces_do_not_matter(next, a.skip(1), b);
        }
    }
}

/// Nothing comes out before a line ends.
pub proof fn law_nothing_comes_of_half_a_line(s: ParserView, bytes: Seq<u8>)
    requires
        !bytes.contains(10),
    ensures
        s.after_bytes(bytes).0.pending == s.pending,
        s.after_bytes(bytes).0.event_type == s.event_type,
        !s.after_bytes(bytes).1,
    decreases bytes.len(),
{
    if bytes.len() > 0 {
        assert(bytes.contains(bytes[0]));
        let (next, over) = s.after_byte(bytes[0]);
        assert forall|x: u8| bytes.skip(1).contains(x) implies bytes.contains(x) by {
            let k = choose|k: int| 0 <= k < bytes.skip(1).len() && bytes.skip(1)[k] == x;
            assert(bytes[k + 1] == x);
        }
        law_nothing_comes_of_half_a_line(next, bytes.skip(1));
    }
}

proof fn lemma_pending_grows_at_byte(s: ParserView, byte: u8)
    ensures
        s.pending.len() <= s.after_byte(byte).0.pending.len(),
        s.after_byte(byte).0.pending.take(s.pending.len() as int) == s.pending,
{
    let p = s.after_byte(byte).0.pending;
    if p.len() > s.pending.len() {
        assert(p == s.pending.push(p.last()));
    }
    assert(p.take(s.pending.len() as int) =~= s.pending);
}

/// What has come out stays and comes first, whatever is read after it.
pub proof fn law_items_come_in_order(s: ParserView, bytes: Seq<u8>)
    ensures
        s.pending.len() <= s.after_bytes(bytes).0.pending.len(),
        s.after_bytes(bytes).0.pending.take(s.pending.len() as int) == s.pending,
    decreases bytes.len(),
{
    if bytes.len() == 0 {
        assert(s.pending.take(s.pending.len() as int) =~= s.pending);
    } else {
        let (next, over) = s.after_byte(bytes[0]);
        lemma_pending_grows_at_byte(s, bytes[0]);
        if !over {
            law_items_come_in_order(next, bytes.skip(1));
            let p = next.after_bytes(bytes.skip(1)).0.pending;
            assert(p.take(s.pending.len() as int) =~= p.take(next.pending.len() as int).take(
                s.pending.len() as int,
            ));
        }
    }
}

} // verus!
