//! Tool calls that a model writes into its text as JSON.
use crate::conversation;
use crate::conversation::{ToolIntent, ToolIntentView};
use crate::json;
use crate::json::{
    no_entries, object, parse_json, push_entry, scan_json, Json, JsonScan, JsonView, ScanView,
};
use crate::provider::bridge;
use crate::provider::bridge::{build_provider_tool_intent, ScopeView, ToolCallScope};
use crate::text;
use crate::text::{
    cat, chars_of, decimal_text, extend, find, has_prefix, last_position_of,
    part, position_of, same, string_of, to_text, trimmed, trimmed_start,
};
use vstd::prelude::*;

verus! {

// Where a block may stand.

/// Whether a character may stand beside a block on its line.
pub open spec fn is_blank(c: char) -> bool {
    c == ' ' || c == '\t' || c == '\r'
}

/// Where the line of a position starts.
pub open spec fn line_start(s: Seq<char>, at: int) -> int {
    match text::rfind_char(s, '\n', at) {
        Some(p) => p + 1,
        None => 0,
    }
}

/// Where the line of a position ends, before its line feed.
pub open spec fn line_end(s: Seq<char>, at: int) -> int {
    match text::find_char(s, '\n', at) {
        Some(p) => p,
        None => s.len() as int,
    }
}

/// Whether nothing but blanks stands before a position on its line.
pub open spec fn standalone_start(s: Seq<char>, start: int) -> bool {
    forall|j: int| line_start(s, start) <= j < start ==> is_blank(#[trigger] s[j])
}

/// Whether nothing but blanks stands behind a position on its line.
pub open spec fn standalone_end(s: Seq<char>, end: int) -> bool {
    forall|j: int| end <= j < line_end(s, end) ==> is_blank(#[trigger] s[j])
}

fn start_of_line(v: &Vec<char>, at: usize) -> (r: usize)
    requires
        at <= v@.len(),
    ensures
        r == line_start(v@, at as int),
        r <= at,
{
    match last_position_of(v, '\n', at) {
        Some(p) => p + 1,
        None => 0,
    }
}

fn end_of_line(v: &Vec<char>, at: usize) -> (r: usize)
    requires
        at <= v@.len(),
    ensures
        r == line_end(v@, at as int),
        at <= r <= v@.len(),
{
    match position_of(v, '\n', at) {
        Some(p) => p,
        None => v.len(),
    }
}

fn all_blank(v: &Vec<char>, from: usize, to: usize) -> (r: bool)
    requires
        from <= to <= v@.len(),
    ensures
        r == (forall|j: int| from <= j < to ==> is_blank(#[trigger] v@[j])),
{
    let mut i: usize = from;
    while i < to
        invariant
            from <= i <= to <= v@.len(),
            forall|j: int| from <= j < i ==> is_blank(#[trigger] v@[j]),
        decreases to - i,
    {
        if !(v[i] == ' ' || v[i] == '\t' || v[i] == '\r') {
            assert(!is_blank(v@[i as int]));
            return false;
        }
        i += 1;
    }
    true
}

/// Whether nothing but blanks stands before a position on its line.
pub fn is_standalone_block_start(v: &Vec<char>, start: usize) -> (r: bool)
    requires
        start <= v@.len(),
    ensures
        r == standalone_start(v@, start as int),
{
    let from: usize = start_of_line(v, start);
    all_blank(v, from, start)
}

/// Whether nothing but blanks stands behind a position on its line.
pub fn is_standalone_block_end(v: &Vec<char>, end: usize) -> (r: bool)
    requires
        end <= v@.len(),
    ensures
        r == standalone_end(v@, end as int),
{
    let to: usize = end_of_line(v, end);
    all_blank(v, end, to)
}

/// The character that a fence of a code block is made of.
pub open spec fn fence_marker(line: Seq<char>) -> Option<char> {
    if text::starts_with(line, "```"@) {
        Some('`')
    } else if text::starts_with(line, "~~~"@) {
        Some('~')
    } else {
        None
    }
}

/// The fence of the code block that a line stands in once the line is read; `open` is
/// that before it. A fence closes only a block that was opened with the same character.
pub open spec fn fence_after(line: Seq<char>, open: Option<char>) -> Option<char> {
    match fence_marker(text::trim_start(line)) {
        Some(m) => match open {
            Some(o) => if o == m {
                None
            } else {
                open
            },
            None => Some(m),
        },
        None => open,
    }
}

/// Where the line after that of a position starts.
pub open spec fn next_line(s: Seq<char>, at: int) -> int {
    match text::find_char(s, '\n', at) {
        Some(p) => p + 1,
        None => s.len() as int,
    }
}

/// The fence of the code block that the lines from `cursor` to that of `index` leave
/// open.
pub open spec fn open_fence(s: Seq<char>, index: int, cursor: int, open: Option<char>) -> Option<
    char,
>
    decreases s.len() - cursor,
    via open_fence_decreases
{
    if cursor < 0 || cursor >= index || cursor >= s.len() {
        open
    } else {
        let next = next_line(s, cursor);
        open_fence(s, index, next, fence_after(s.subrange(cursor, next), open))
    }
}

#[via_fn]
proof fn open_fence_decreases(s: Seq<char>, index: int, cursor: int, open: Option<char>) {
    text::lemma_find_char_bounds(s, '\n', cursor);
}

/// Whether a position stands in a fenced code block.
pub open spec fn in_fence(s: Seq<char>, index: int) -> bool {
    open_fence(s, index, 0, None) is Some
}

fn markdown_fence_marker(line: &Vec<char>) -> (r: Option<char>)
    ensures
        r == fence_marker(line@),
{
    if has_prefix(line, "```") {
        Some('`')
    } else if has_prefix(line, "~~~") {
        Some('~')
    } else {
        None
    }
}

/// Whether a position stands in a fenced code block.
pub fn is_inside_markdown_fence(v: &Vec<char>, index: usize) -> (r: bool)
    requires
        index <= v@.len(),
    ensures
        r == in_fence(v@, index as int),
{
    let mut cursor: usize = 0;
    let mut open: Option<char> = None;
    while cursor < index
        invariant
            index <= v@.len() == v.len(),
            cursor <= v@.len(),
            in_fence(v@, index as int) == (open_fence(v@, index as int, cursor as int, open)
                is Some),
        decreases v@.len() - cursor,
    {
        let next: usize = match position_of(v, '\n', cursor) {
            Some(p) => p + 1,
            None => v.len(),
        };
        let line = part(v, cursor, next);
        let body = trimmed_start(&line);
        if let Some(m) = markdown_fence_marker(&body) {
            open = match open {
                Some(o) => if o == m {
                    None
                } else {
                    open
                },
                None => Some(m),
            };
        }
        cursor = next;
    }
    open.is_some()
}

/// Whether a line starts like one of an indented code block; `spaces` were read.
pub open spec fn indented(line: Seq<char>, spaces: nat) -> bool
    decreases line.len(),
{
    if line.len() == 0 {
        spaces >= 4
    } else if line[0] == ' ' {
        indented(line.skip(1), spaces + 1)
    } else if line[0] == '\t' {
        true
    } else if line[0] == '\r' {
        indented(line.skip(1), spaces)
    } else {
        spaces >= 4
    }
}

fn line_has_markdown_indented_code_prefix(line: &Vec<char>) -> (r: bool)
    ensures
        r == indented(line@, 0),
{
    let mut spaces: usize = 0;
    let mut i: usize = 0;
    assert(line@.skip(0) =~= line@);
    while i < line.len()
        invariant
            i <= line@.len() == line.len(),
            spaces <= i,
            indented(line@, 0) == indented(line@.skip(i as int), spaces as nat),
        decreases line@.len() - i,
    {
        assert(line@.skip(i as int).skip(1) =~= line@.skip(i + 1));
        if line[i] == ' ' {
            spaces += 1;
        } else if line[i] == '\t' {
            return true;
        } else if line[i] != '\r' {
            return spaces >= 4;
        }
        i += 1;
    }
    spaces >= 4
}

/// Whether the lines above the one that starts at `start` make it part of an indented
/// code block: up to the first line or an empty one they are indented.
pub open spec fn code_above(s: Seq<char>, start: int) -> bool
    decreases start,
    via code_above_decreases
{
    if start <= 0 {
        true
    } else {
        let from = line_start(s, start - 1);
        let above = s.subrange(from, start - 1);
        if text::trim(above).len() == 0 {
            true
        } else if !indented(above, 0) {
            false
        } else {
            code_above(s, from)
        }
    }
}

#[via_fn]
proof fn code_above_decreases(s: Seq<char>, start: int) {
    text::lemma_rfind_char_bounds(s, '\n', start - 1);
}

/// Whether a position stands in an indented code block.
pub open spec fn in_indented_code(s: Seq<char>, index: int) -> bool {
    let start = line_start(s, index);
    indented(s.subrange(start, index), 0) && code_above(s, start)
}

/// Whether a position stands in an indented code block.
pub fn is_inside_markdown_indented_code_block(v: &Vec<char>, index: usize) -> (r: bool)
    requires
        index <= v@.len(),
    ensures
        r == in_indented_code(v@, index as int),
{
    let mut start: usize = start_of_line(v, index);
    let head = part(v, start, index);
    if !line_has_markdown_indented_code_prefix(&head) {
        return false;
    }
    while start > 0
        invariant
            start <= v@.len(),
            in_indented_code(v@, index as int) == code_above(v@, start as int),
        decreases start,
    {
        let from: usize = start_of_line(v, start - 1);
        let above = part(v, from, start - 1);
        let body = trimmed(&above);
        if body.len() == 0 {
            return true;
        }
        if !line_has_markdown_indented_code_prefix(&above) {
            return false;
        }
        start = from;
    }
    true
}

/// Whether a block that starts at a position is none that counts: something else stands
/// before it on its line, or it stands in a code block.
pub open spec fn is_quoted(s: Seq<char>, start: int) -> bool {
    !standalone_start(s, start) || in_fence(s, start) || in_indented_code(s, start)
}

/// Whether a block that starts at a position is none that counts.
pub fn is_quoted_block(v: &Vec<char>, start: usize) -> (r: bool)
    requires
        start <= v@.len(),
    ensures
        r == is_quoted(v@, start as int),
{
    !is_standalone_block_start(v, start) || is_inside_markdown_fence(v, start)
        || is_inside_markdown_indented_code_block(v, start)
}

// What a JSON value calls.

/// Why a block is malformed.
#[derive(Clone, Copy, Debug, PartialEq, Eq, Structural)]
pub enum JsonToolBlockParseError {
    MissingToolCallClose,
    InvalidJson,
    UnsupportedShape,
}

impl JsonToolBlockParseError {
    pub open spec fn name(self) -> Seq<char> {
        match self {
            JsonToolBlockParseError::MissingToolCallClose => "missing_tool_call_close"@,
            JsonToolBlockParseError::InvalidJson => "invalid_json"@,
            JsonToolBlockParseError::UnsupportedShape => "unsupported_shape"@,
        }
    }

    pub fn as_str(self) -> (r: &'static str)
        ensures
            r@ == self.name(),
    {
        match self {
            JsonToolBlockParseError::MissingToolCallClose => "missing_tool_call_close",
            JsonToolBlockParseError::InvalidJson => "invalid_json",
            JsonToolBlockParseError::UnsupportedShape => "unsupported_shape",
        }
    }
}

/// How a JSON value stands in a text.
#[derive(Clone, Copy, Debug, PartialEq, Eq, Structural)]
pub enum JsonToolCallEnvelopeMode {
    PlainStandalone,
    TaggedBlock,
}

/// A tool call as a JSON value gives it.
pub struct JsonToolCallEnvelope {
    pub raw_tool_name: String,
    pub args_json: Json,
    pub tool_call_id: Option<String>,
}

/// What a `JsonToolCallEnvelope` is.
#[verifier::ext_equal]
pub struct EnvelopeView {
    pub raw_tool_name: Seq<char>,
    pub args_json: JsonView,
    pub tool_call_id: Option<Seq<char>>,
}

impl JsonToolCallEnvelope {
    pub open spec fn view(&self) -> EnvelopeView {
        EnvelopeView {
            raw_tool_name: self.raw_tool_name@,
            args_json: self.args_json@,
            tool_call_id: text::opt_text(self.tool_call_id),
        }
    }
}

/// The first of two that is there.
pub open spec fn either<T>(a: Option<T>, b: Option<T>) -> Option<T> {
    match a {
        Some(x) => Some(x),
        None => b,
    }
}

/// The object under `function`.
pub open spec fn function_of(value: JsonView) -> JsonView {
    match value.get("function"@) {
        Some(f) => if f is Object {
            f
        } else {
            JsonView::Null
        },
        None => JsonView::Null,
    }
}

/// The name of the tool that a value calls.
pub open spec fn called_name(value: JsonView) -> Option<Seq<char>> {
    either(
        value.str_at("name"@),
        either(
            value.str_at("tool"@),
            either(value.str_at("tool_name"@), function_of(value).str_at("name"@)),
        ),
    )
}

/// The number of the call.
pub open spec fn called_id(value: JsonView) -> Option<Seq<char>> {
    either(
        value.str_at("id"@),
        either(
            value.str_at("tool_call_id"@),
            either(value.str_at("call_id"@), function_of(value).str_at("id"@)),
        ),
    )
}

/// The arguments of the call, where they stand under a key of their own.
pub open spec fn argument_value(value: JsonView) -> Option<JsonView> {
    let function = function_of(value);
    either(
        value.get("arguments"@),
        either(
            value.get("input"@),
            either(
                value.get("parameters"@),
                either(
                    value.get("args"@),
                    either(
                        value.get("payload"@),
                        either(
                            function.get("arguments"@),
                            either(function.get("input"@), function.get("parameters"@)),
                        ),
                    ),
                ),
            ),
        ),
    )
}

/// Whether a value says that it is a call.
pub open spec fn has_call_marker(value: JsonView) -> bool {
    ||| value.get("arguments"@) is Some
    ||| value.get("input"@) is Some
    ||| value.get("parameters"@) is Some
    ||| value.get("args"@) is Some
    ||| value.get("payload"@) is Some
    ||| value.get("function"@) is Some
    ||| value.get("type"@) is Some
}

/// Whether a key of a call is none of its arguments.
pub open spec fn is_reserved_field(key: Seq<char>) -> bool {
    ||| key == "name"@
    ||| key == "tool"@
    ||| key == "tool_name"@
    ||| key == "function"@
    ||| key == "id"@
    ||| key == "tool_call_id"@
    ||| key == "call_id"@
    ||| key == "type"@
    ||| key == "arguments"@
    ||| key == "input"@
    ||| key == "parameters"@
    ||| key == "args"@
    ||| key == "payload"@
}

/// The entries that are arguments.
pub open spec fn top_level_arguments(e: Seq<(Seq<char>, JsonView)>) -> Seq<(Seq<char>, JsonView)>
    decreases e.len(),
{
    if e.len() == 0 {
        Seq::empty()
    } else if is_reserved_field(e.last().0) {
        top_level_arguments(e.drop_last())
    } else {
        top_level_arguments(e.drop_last()).push(e.last())
    }
}

/// The arguments as a value: a text is read as JSON.
pub open spec fn read_arguments(value: JsonView) -> Result<JsonView, JsonToolBlockParseError> {
    match value {
        JsonView::Text(raw) => match json::parsed_json(raw) {
            Ok(v) => Ok(v),
            Err(_) => Err(JsonToolBlockParseError::InvalidJson),
        },
        _ => Ok(value),
    }
}

/// The tool call that a value gives, where it gives one.
pub open spec fn envelope_of(value: JsonView, mode: JsonToolCallEnvelopeMode) -> Result<
    Option<EnvelopeView>,
    JsonToolBlockParseError,
> {
    match (value, called_name(value)) {
        (JsonView::Object(e), Some(raw_tool_name)) => {
            let tool_call_id = called_id(value);
            match argument_value(value) {
                Some(arguments) => match read_arguments(arguments) {
                    Ok(args_json) => Ok(
                        Some(EnvelopeView { raw_tool_name, args_json, tool_call_id }),
                    ),
                    Err(code) => Err(code),
                },
                None => if mode == JsonToolCallEnvelopeMode::TaggedBlock || has_call_marker(value) {
                    Ok(
                        Some(
                            EnvelopeView {
                                raw_tool_name,
                                args_json: JsonView::Object(top_level_arguments(e)),
                                tool_call_id,
                            },
                        ),
                    )
                } else {
                    Ok(None)
                },
            }
        },
        _ => Ok(None),
    }
}

/// The view of an optional value.
pub open spec fn opt_json(o: Option<&Json>) -> Option<JsonView> {
    match o {
        Some(v) => Some(v@),
        None => None,
    }
}

fn function_object(value: &Json) -> (r: Option<&Json>)
    ensures
        (match r {
            Some(f) => function_of(value@) == f@,
            None => function_of(value@) == JsonView::Null,
        }),
{
    match value.get("function") {
        Some(f) => if f.is_object() {
            Some(f)
        } else {
            None
        },
        None => None,
    }
}

fn str_under<'a>(value: Option<&'a Json>, key: &str) -> (r: Option<&'a str>)
    ensures
        text::opt_str(r) == (match value {
            Some(v) => v@.str_at(key@),
            None => None,
        }),
{
    match value {
        Some(v) => v.str_at(key),
        None => None,
    }
}

fn get_under<'a>(value: Option<&'a Json>, key: &str) -> (r: Option<&'a Json>)
    ensures
        opt_json(r) == (match value {
            Some(v) => v@.get(key@),
            None => None,
        }),
{
    match value {
        Some(v) => v.get(key),
        None => None,
    }
}

fn first_str<'a>(a: Option<&'a str>, b: Option<&'a str>) -> (r: Option<&'a str>)
    ensures
        text::opt_str(r) == either(text::opt_str(a), text::opt_str(b)),
{
    match a {
        Some(x) => Some(x),
        None => b,
    }
}

fn first_json<'a>(a: Option<&'a Json>, b: Option<&'a Json>) -> (r: Option<&'a Json>)
    ensures
        opt_json(r) == either(opt_json(a), opt_json(b)),
{
    match a {
        Some(x) => Some(x),
        None => b,
    }
}

fn json_tool_argument_value(value: &Json) -> (r: Option<&Json>)
    ensures
        opt_json(r) == argument_value(value@),
{
    let function = function_object(value);
    let nested = first_json(
        get_under(function, "arguments"),
        first_json(get_under(function, "input"), get_under(function, "parameters")),
    );
    first_json(
        value.get("arguments"),
        first_json(
            value.get("input"),
            first_json(
                value.get("parameters"),
                first_json(value.get("args"), first_json(value.get("payload"), nested)),
            ),
        ),
    )
}

fn has_explicit_json_tool_call_marker(value: &Json) -> (r: bool)
    ensures
        r == has_call_marker(value@),
{
    value.get("arguments").is_some() || value.get("input").is_some() || value.get(
        "parameters",
    ).is_some() || value.get("args").is_some() || value.get("payload").is_some() || value.get(
        "function",
    ).is_some() || value.get("type").is_some()
}

fn is_reserved(key: &str) -> (r: bool)
    ensures
        r == is_reserved_field(key@),
{
    same(key, "name") || same(key, "tool") || same(key, "tool_name") || same(key, "function")
        || same(key, "id") || same(key, "tool_call_id") || same(key, "call_id") || same(key, "type")
        || same(key, "arguments") || same(key, "input") || same(key, "parameters") || same(
        key,
        "args",
    ) || same(key, "payload")
}

fn json_tool_arguments_from_top_level(e: &Vec<(String, Json)>) -> (r: Json)
    ensures
        r@ == JsonView::Object(top_level_arguments(json::entries(e@))),
{
    let ghost all = json::entries(e@);
    let mut v = no_entries();
    let mut i: usize = 0;
    assert(json::entries(v@) =~= top_level_arguments(all.take(0)));
    while i < e.len()
        invariant
            i <= e@.len(),
            all == json::entries(e@),
            json::entries(v@) == top_level_arguments(all.take(i as int)),
        decreases e@.len() - i,
    {
        assert(all.take(i + 1).drop_last() =~= all.take(i as int));
        assert(all.take(i + 1).last() == (e@[i as int].0@, e@[i as int].1@));
        if !is_reserved(e[i].0.as_str()) {
            push_entry(&mut v, e[i].0.as_str(), e[i].1.duplicate());
        }
        i += 1;
    }
    assert(all.take(i as int) =~= all);
    object(v)
}

/// The arguments as a value: a text is read as JSON.
pub fn parse_json_tool_arguments_value(value: &Json) -> (r: Result<Json, JsonToolBlockParseError>)
    ensures
        (match r {
            Ok(v) => read_arguments(value@) == Ok::<JsonView, JsonToolBlockParseError>(v@),
            Err(code) => read_arguments(value@) == Err::<JsonView, JsonToolBlockParseError>(code),
        }),
{
    match value.as_str() {
        Some(raw) => match parse_json(raw) {
            Ok(v) => Ok(v),
            Err(_) => Err(JsonToolBlockParseError::InvalidJson),
        },
        None => Ok(value.duplicate()),
    }
}

/// The view of the outcome of reading a tool call.
pub open spec fn envelope_result(
    r: Result<Option<JsonToolCallEnvelope>, JsonToolBlockParseError>,
) -> Result<Option<EnvelopeView>, JsonToolBlockParseError> {
    match r {
        Ok(Some(e)) => Ok(Some(e@)),
        Ok(None) => Ok(None),
        Err(code) => Err(code),
    }
}

/// The tool call that a value gives, where it gives one.
pub fn json_tool_call_envelope(value: &Json, mode: JsonToolCallEnvelopeMode) -> (r: Result<
    Option<JsonToolCallEnvelope>,
    JsonToolBlockParseError,
>)
    ensures
        envelope_result(r) == envelope_of(value@, mode),
{
    let e = match value.as_object() {
        Some(e) => e,
        None => {
            return Ok(None);
        },
    };
    let function = function_object(value);
    let name = first_str(
        value.str_at("name"),
        first_str(
            value.str_at("tool"),
            first_str(value.str_at("tool_name"), str_under(function, "name")),
        ),
    );
    let raw_tool_name = match name {
        Some(s) => s.to_owned(),
        None => {
            return Ok(None);
        },
    };
    let args_json = match json_tool_argument_value(value) {
        Some(arguments) => match parse_json_tool_arguments_value(arguments) {
            Ok(v) => v,
            Err(code) => {
                return Err(code);
            },
        },
        None => if mode == JsonToolCallEnvelopeMode::TaggedBlock
            || has_explicit_json_tool_call_marker(value) {
            json_tool_arguments_from_top_level(e)
        } else {
            return Ok(None);
        },
    };
    let id = first_str(
        value.str_at("id"),
        first_str(
            value.str_at("tool_call_id"),
            first_str(value.str_at("call_id"), str_under(function, "id")),
        ),
    );
    let tool_call_id = match id {
        Some(s) => Some(s.to_owned()),
        None => None,
    };
    Ok(Some(JsonToolCallEnvelope { raw_tool_name, args_json, tool_call_id }))
}

/// The tool call of an envelope that is number `index` of its text.
pub open spec fn json_intent(e: EnvelopeView, scope: ScopeView, index: nat) -> ToolIntentView {
    bridge::intent_of(
        e.raw_tool_name,
        e.args_json,
        "provider_json_tool_call"@,
        match e.tool_call_id {
            Some(id) => id,
            None => "json-call-"@ + text::decimal(index),
        },
        scope,
    )
}

/// The tool call of an envelope that is number `tool_index` of its text.
pub fn build_json_tool_intent(
    envelope: JsonToolCallEnvelope,
    scope: &ToolCallScope,
    tool_index: usize,
) -> (r: ToolIntent)
    ensures
        r@ == json_intent(envelope@, scope@, tool_index as nat),
{
    let id = match envelope.tool_call_id {
        Some(id) => id,
        None => {
            let number = decimal_text(tool_index as u64);
            cat("json-call-", number.as_str())
        },
    };
    build_provider_tool_intent(
        envelope.raw_tool_name.as_str(),
        envelope.args_json,
        "provider_json_tool_call",
        id,
        scope,
    )
}

// Blocks in a text.

/// What came of the search for tool calls in a text.
pub enum ToolBlockParse {
    /// Tool calls, and the text without them.
    Parsed { cleaned_text: String, tool_intents: Vec<ToolIntent> },
    /// A block that is no tool call, after so many that are.
    Malformed { tool_count: usize, error_code: &'static str },
    Absent,
}

/// What a `ToolBlockParse` is.
#[verifier::ext_equal]
pub enum BlockView {
    Parsed { cleaned_text: Seq<char>, tool_intents: Seq<ToolIntentView> },
    Malformed { tool_count: nat, error_code: Seq<char> },
    Absent,
}

impl ToolBlockParse {
    pub open spec fn view(&self) -> BlockView {
        match self {
            ToolBlockParse::Parsed { cleaned_text, tool_intents } => BlockView::Parsed {
                cleaned_text: cleaned_text@,
                tool_intents: conversation::intent_views(tool_intents@),
            },
            ToolBlockParse::Malformed { tool_count, error_code } => BlockView::Malformed {
                tool_count: *tool_count as nat,
                error_code: error_code@,
            },
            ToolBlockParse::Absent => BlockView::Absent,
        }
    }
}

/// What came of the search once it is over: what is left of the text stays in it.
pub open spec fn finished(
    s: Seq<char>,
    cursor: int,
    cleaned: Seq<char>,
    intents: Seq<ToolIntentView>,
    found: bool,
) -> BlockView {
    if found {
        BlockView::Parsed {
            cleaned_text: text::trim(cleaned + s.skip(cursor)),
            tool_intents: intents,
        }
    } else {
        BlockView::Absent
    }
}

/// What came of the search once it is over.
pub fn finish_parse(
    v: &Vec<char>,
    cursor: usize,
    cleaned: Vec<char>,
    tool_intents: Vec<ToolIntent>,
    found: bool,
) -> (r: ToolBlockParse)
    requires
        cursor <= v@.len(),
    ensures
        r@ == finished(
            v@,
            cursor as int,
            cleaned@,
            conversation::intent_views(tool_intents@),
            found,
        ),
{
    if !found {
        return ToolBlockParse::Absent;
    }
    let mut all = cleaned;
    let rest = part(v, cursor, v.len());
    assert(rest@ =~= v@.skip(cursor as int));
    extend(&mut all, &rest);
    let body = trimmed(&all);
    ToolBlockParse::Parsed { cleaned_text: to_text(&body), tool_intents }
}

/// The tool calls of the values in a text, behind those that were read.
pub open spec fn call_sequence(
    body: Seq<char>,
    scope: ScopeView,
    offset: nat,
    intents: Seq<ToolIntentView>,
) -> Result<Seq<ToolIntentView>, JsonToolBlockParseError>
    decreases body.len(),
{
    match json::scanned_json(body) {
        ScanView::End => if intents.len() == 0 {
            Err(JsonToolBlockParseError::InvalidJson)
        } else {
            Ok(intents)
        },
        ScanView::Invalid => Err(JsonToolBlockParseError::InvalidJson),
        ScanView::Value(value, n) => match envelope_of(
            value,
            JsonToolCallEnvelopeMode::TaggedBlock,
        ) {
            Err(code) => Err(code),
            Ok(None) => Err(JsonToolBlockParseError::UnsupportedShape),
            Ok(Some(e)) => if 0 < n <= body.len() {
                call_sequence(
                    body.skip(n),
                    scope,
                    offset,
                    intents.push(json_intent(e, scope, offset + intents.len())),
                )
            } else {
                Err(JsonToolBlockParseError::InvalidJson)
            },
        },
    }
}

/// The tool calls of the values in a text.
pub fn parse_json_tool_call_sequence(body: &str, scope: &ToolCallScope, tool_offset: usize) -> (r:
    Result<Vec<ToolIntent>, JsonToolBlockParseError>)
    requires
        tool_offset + body@.len() <= usize::MAX,
    ensures
        (match r {
            Ok(v) => call_sequence(body@, scope@, tool_offset as nat, Seq::empty()) == Ok::<
                Seq<ToolIntentView>,
                JsonToolBlockParseError,
            >(conversation::intent_views(v@)) && v@.len() <= body@.len(),
            Err(code) => call_sequence(body@, scope@, tool_offset as nat, Seq::empty()) == Err::<
                Seq<ToolIntentView>,
                JsonToolBlockParseError,
            >(code),
        }),
{
    let v = chars_of(body);
    let mut cursor: usize = 0;
    let mut intents: Vec<ToolIntent> = Vec::new();
    assert(v@.skip(0) =~= v@);
    assert(conversation::intent_views(intents@) =~= Seq::empty());
    loop
        invariant
            v@ == body@,
            v@.len() == v.len(),
            cursor <= v@.len(),
            intents@.len() <= cursor,
            tool_offset + v@.len() <= usize::MAX,
            call_sequence(v@, scope@, tool_offset as nat, Seq::empty()) == call_sequence(
                v@.skip(cursor as int),
                scope@,
                tool_offset as nat,
                conversation::intent_views(intents@),
            ),
        decreases v@.len() - cursor,
    {
        let rest = string_of(&v, cursor, v.len());
        assert(rest@ =~= v@.skip(cursor as int));
        match scan_json(rest.as_str()) {
            JsonScan::End => {
                if intents.len() == 0 {
                    return Err(JsonToolBlockParseError::InvalidJson);
                }
                return Ok(intents);
            },
            JsonScan::Invalid => {
                return Err(JsonToolBlockParseError::InvalidJson);
            },
            JsonScan::Value(value, n) => {
                match json_tool_call_envelope(&value, JsonToolCallEnvelopeMode::TaggedBlock) {
                    Err(code) => {
                        return Err(code);
                    },
                    Ok(None) => {
                        return Err(JsonToolBlockParseError::UnsupportedShape);
                    },
                    Ok(Some(e)) => {
                        let index: usize = tool_offset + intents.len();
                        let intent = build_json_tool_intent(e, scope, index);
                        assert(conversation::intent_views(intents@.push(intent))
                            =~= conversation::intent_views(intents@).push(intent@));
                        assert(v@.skip(cursor as int).skip(n as int) =~= v@.skip(cursor + n));
                        intents.push(intent);
                        cursor = cursor + n;
                    },
                }
            },
        }
    }
}

/// The mark before a tagged block.
pub open spec fn tag_open() -> Seq<char> {
    "<tool_call>"@
}

/// The mark behind a tagged block.
pub open spec fn tag_close() -> Seq<char> {
    "</tool_call>"@
}

/// The tool calls in the tagged blocks from `cursor` on, behind those that were read.
/// A block that something else shares a line with, or that stands in a code block, is
/// text.
pub open spec fn tagged_from(
    s: Seq<char>,
    scope: ScopeView,
    cursor: int,
    cleaned: Seq<char>,
    intents: Seq<ToolIntentView>,
    found: bool,
) -> BlockView
    decreases s.len() - cursor,
    via tagged_from_decreases
{
    match text::find_from(s, tag_open(), cursor) {
        None => finished(s, cursor, cleaned, intents, found),
        Some(start) => {
            let body = start + tag_open().len();
            if is_quoted(s, start) {
                tagged_from(s, scope, body, cleaned + s.subrange(cursor, body), intents, found)
            } else {
                match text::find_from(s, tag_close(), body) {
                    None => BlockView::Malformed {
                        tool_count: intents.len(),
                        error_code: JsonToolBlockParseError::MissingToolCallClose.name(),
                    },
                    Some(end) => {
                        let behind = end + tag_close().len();
                        if !standalone_end(s, behind) {
                            tagged_from(
                                s,
                                scope,
                                behind,
                                cleaned + s.subrange(cursor, behind),
                                intents,
                                found,
                            )
                        } else {
                            match call_sequence(
                                s.subrange(body, end),
                                scope,
                                intents.len(),
                                Seq::empty(),
                            ) {
                                Err(code) => BlockView::Malformed {
                                    tool_count: intents.len(),
                                    error_code: code.name(),
                                },
                                Ok(more) => tagged_from(
                                    s,
                                    scope,
                                    behind,
                                    cleaned + s.subrange(cursor, start),
                                    intents + more,
                                    true,
                                ),
                            }
                        }
                    },
                }
            }
        },
    }
}

#[via_fn]
proof fn tagged_from_decreases(
    s: Seq<char>,
    scope: ScopeView,
    cursor: int,
    cleaned: Seq<char>,
    intents: Seq<ToolIntentView>,
    found: bool,
) {
    lemma_tags();
    text::lemma_find_from_bounds(s, tag_open(), cursor);
    if let Some(start) = text::find_from(s, tag_open(), cursor) {
        text::lemma_find_from_bounds(s, tag_close(), start + tag_open().len());
    }
}

proof fn lemma_tags()
    ensures
        tag_open().len() == 11,
        tag_close().len() == 12,
{
    reveal_strlit("<tool_call>");
    reveal_strlit("</tool_call>");
}

/// The tool calls in the tagged blocks of a text.
pub fn extract_tagged_json_tool_call_turn(s: &str, scope: &ToolCallScope) -> (r: ToolBlockParse)
    ensures
        r@ == tagged_from(s@, scope@, 0, Seq::empty(), Seq::empty(), false),
{
    let v = chars_of(s);
    let open = chars_of("<tool_call>");
    let close = chars_of("</tool_call>");
    let mut cursor: usize = 0;
    let mut cleaned: Vec<char> = Vec::new();
    let mut intents: Vec<ToolIntent> = Vec::new();
    let mut found = false;
    proof {
        lemma_tags();
        assert(cleaned@ =~= Seq::empty());
        assert(conversation::intent_views(intents@) =~= Seq::empty());
    }
    loop
        invariant
            v@ == s@,
            v@.len() == v.len(),
            open@ == tag_open(),
            close@ == tag_close(),
            open@.len() == 11,
            close@.len() == 12,
            cursor <= v@.len(),
            intents@.len() <= cursor,
            tagged_from(v@, scope@, 0, Seq::empty(), Seq::empty(), false) == tagged_from(
                v@,
                scope@,
                cursor as int,
                cleaned@,
                conversation::intent_views(intents@),
                found,
            ),
        decreases v@.len() - cursor,
    {
        let start: usize = match find(&v, &open, cursor) {
            Some(start) => start,
            None => {
                return finish_parse(&v, cursor, cleaned, intents, found);
            },
        };
        let body: usize = start + open.len();
        if is_quoted_block(&v, start) {
            let kept = part(&v, cursor, body);
            extend(&mut cleaned, &kept);
            cursor = body;
            continue;
        }
        let end: usize = match find(&v, &close, body) {
            Some(end) => end,
            None => {
                return ToolBlockParse::Malformed {
                    tool_count: intents.len(),
                    error_code: JsonToolBlockParseError::MissingToolCallClose.as_str(),
                };
            },
        };
        let behind: usize = end + close.len();
        if !is_standalone_block_end(&v, behind) {
            let kept = part(&v, cursor, behind);
            extend(&mut cleaned, &kept);
            cursor = behind;
            continue;
        }
        let inner = string_of(&v, body, end);
        match parse_json_tool_call_sequence(inner.as_str(), scope, intents.len()) {
            Err(code) => {
                return ToolBlockParse::Malformed {
                    tool_count: intents.len(),
                    error_code: code.as_str(),
                };
            },
            Ok(more) => {
                let ghost before = intents@;
                let ghost added = more@;
                let mut calls = more;
                intents.append(&mut calls);
                assert(conversation::intent_views(intents@) =~= conversation::intent_views(before)
                    + conversation::intent_views(added));
                let kept = part(&v, cursor, start);
                extend(&mut cleaned, &kept);
                found = true;
                cursor = behind;
            },
        }
    }
}

/// What a text that starts with a brace is.
pub enum CandidateView {
    /// A tool call of so many characters.
    Parsed(int, ToolIntentView),
    Malformed(JsonToolBlockParseError),
    /// No tool call; a value of so many characters, where it is one by itself.
    Unsupported(Option<int>),
}

/// What a text that starts with a brace is.
pub open spec fn plain_candidate(t: Seq<char>, scope: ScopeView, index: nat) -> CandidateView {
    match json::scanned_json(t) {
        ScanView::Value(value, n) => if !(0 < n <= t.len()) {
            CandidateView::Malformed(JsonToolBlockParseError::InvalidJson)
        } else if !standalone_end(t, n) {
            CandidateView::Unsupported(None)
        } else {
            match envelope_of(value, JsonToolCallEnvelopeMode::PlainStandalone) {
                Ok(Some(e)) => CandidateView::Parsed(n, json_intent(e, scope, index)),
                Ok(None) => CandidateView::Unsupported(Some(n)),
                Err(code) => CandidateView::Malformed(code),
            }
        },
        _ => CandidateView::Malformed(JsonToolBlockParseError::InvalidJson),
    }
}

/// What a text that starts with a brace is.
pub enum JsonToolBlockCandidate {
    Parsed { consumed_chars: usize, tool_intent: ToolIntent },
    Malformed(JsonToolBlockParseError),
    Unsupported { value_chars: Option<usize> },
}

impl JsonToolBlockCandidate {
    pub open spec fn view(&self) -> CandidateView {
        match self {
            JsonToolBlockCandidate::Parsed { consumed_chars, tool_intent } => CandidateView::Parsed(
                *consumed_chars as int,
                tool_intent@,
            ),
            JsonToolBlockCandidate::Malformed(code) => CandidateView::Malformed(*code),
            JsonToolBlockCandidate::Unsupported { value_chars } => CandidateView::Unsupported(
                match value_chars {
                    Some(n) => Some(*n as int),
                    None => None,
                },
            ),
        }
    }
}

/// What a text that starts with a brace is; `value` is what it starts with.
pub fn json_tool_block_candidate(
    value: &Json,
    consumed_chars: usize,
    t: &Vec<char>,
    scope: &ToolCallScope,
    tool_index: usize,
) -> (r: JsonToolBlockCandidate)
    requires
        0 < consumed_chars <= t@.len(),
    ensures
        r@ == (if !standalone_end(t@, consumed_chars as int) {
            CandidateView::Unsupported(None)
        } else {
            match envelope_of(value@, JsonToolCallEnvelopeMode::PlainStandalone) {
                Ok(Some(e)) => CandidateView::Parsed(
                    consumed_chars as int,
                    json_intent(e, scope@, tool_index as nat),
                ),
                Ok(None) => CandidateView::Unsupported(Some(consumed_chars as int)),
                Err(code) => CandidateView::Malformed(code),
            }
        }),
{
    if !is_standalone_block_end(t, consumed_chars) {
        return JsonToolBlockCandidate::Unsupported { value_chars: None };
    }
    match json_tool_call_envelope(value, JsonToolCallEnvelopeMode::PlainStandalone) {
        Ok(Some(e)) => JsonToolBlockCandidate::Parsed {
            consumed_chars,
            tool_intent: build_json_tool_intent(e, scope, tool_index),
        },
        Ok(None) => JsonToolBlockCandidate::Unsupported { value_chars: Some(consumed_chars) },
        Err(code) => JsonToolBlockCandidate::Malformed(code),
    }
}

/// What a text that starts with a brace is.
pub fn parse_plain_json_tool_call_candidate(
    t: &Vec<char>,
    scope: &ToolCallScope,
    tool_index: usize,
) -> (r: JsonToolBlockCandidate)
    ensures
        r@ == plain_candidate(t@, scope@, tool_index as nat),
        r matches JsonToolBlockCandidate::Parsed { consumed_chars, .. } ==> 0 < consumed_chars
            <= t@.len(),
        r matches JsonToolBlockCandidate::Unsupported { value_chars: Some(n) } ==> 0 < n
            <= t@.len(),
{
    let whole = to_text(t);
    match scan_json(whole.as_str()) {
        JsonScan::Value(value, n) => json_tool_block_candidate(&value, n, t, scope, tool_index),
        _ => JsonToolBlockCandidate::Malformed(JsonToolBlockParseError::InvalidJson),
    }
}

/// The tool calls that stand in a text by themselves from `cursor` on, behind those that
/// were read.
pub open spec fn plain_from(
    s: Seq<char>,
    scope: ScopeView,
    cursor: int,
    cleaned: Seq<char>,
    intents: Seq<ToolIntentView>,
    found: bool,
) -> BlockView
    decreases s.len() - cursor,
    via plain_from_decreases
{
    match text::find_char(s, '{', cursor) {
        None => finished(s, cursor, cleaned, intents, found),
        Some(start) => if is_quoted(s, start) {
            plain_from(
                s,
                scope,
                start + 1,
                cleaned + s.subrange(cursor, start + 1),
                intents,
                found,
            )
        } else {
            match plain_candidate(s.skip(start), scope, intents.len()) {
                CandidateView::Parsed(n, intent) => plain_from(
                    s,
                    scope,
                    start + n,
                    cleaned + s.subrange(cursor, start),
                    intents.push(intent),
                    true,
                ),
                CandidateView::Malformed(code) => BlockView::Malformed {
                    tool_count: intents.len(),
                    error_code: code.name(),
                },
                CandidateView::Unsupported(Some(n)) => plain_from(
                    s,
                    scope,
                    start + n,
                    cleaned + s.subrange(cursor, start + n),
                    intents,
                    found,
                ),
                CandidateView::Unsupported(None) => plain_from(
                    s,
                    scope,
                    start + 1,
                    cleaned + s.subrange(cursor, start + 1),
                    intents,
                    found,
                ),
            }
        },
    }
}

#[via_fn]
proof fn plain_from_decreases(
    s: Seq<char>,
    scope: ScopeView,
    cursor: int,
    cleaned: Seq<char>,
    intents: Seq<ToolIntentView>,
    found: bool,
) {
    text::lemma_find_char_bounds(s, '{', cursor);
}

/// The tool calls that stand in a text by themselves.
pub fn extract_plain_json_tool_call_turn(s: &str, scope: &ToolCallScope) -> (r: ToolBlockParse)
    ensures
        r@ == plain_from(s@, scope@, 0, Seq::empty(), Seq::empty(), false),
{
    let v = chars_of(s);
    let mut cursor: usize = 0;
    let mut cleaned: Vec<char> = Vec::new();
    let mut intents: Vec<ToolIntent> = Vec::new();
    let mut found = false;
    proof {
        assert(cleaned@ =~= Seq::empty());
        assert(conversation::intent_views(intents@) =~= Seq::empty());
    }
    loop
        invariant
            v@ == s@,
            v@.len() == v.len(),
            cursor <= v@.len(),
            plain_from(v@, scope@, 0, Seq::empty(), Seq::empty(), false) == plain_from(
                v@,
                scope@,
                cursor as int,
                cleaned@,
                conversation::intent_views(intents@),
                found,
            ),
        decreases v@.len() - cursor,
    {
        let start: usize = match position_of(&v, '{', cursor) {
            Some(start) => start,
            None => {
                return finish_parse(&v, cursor, cleaned, intents, found);
            },
        };
        if is_quoted_block(&v, start) {
            let kept = part(&v, cursor, start + 1);
            extend(&mut cleaned, &kept);
            cursor = start + 1;
            continue;
        }
        let rest = part(&v, start, v.len());
        assert(rest@ =~= v@.skip(start as int));
        match parse_plain_json_tool_call_candidate(&rest, scope, intents.len()) {
            JsonToolBlockCandidate::Parsed { consumed_chars, tool_intent } => {
                assert(conversation::intent_views(intents@.push(tool_intent))
                    =~= conversation::intent_views(intents@).push(tool_intent@));
                intents.push(tool_intent);
                let kept = part(&v, cursor, start);
                extend(&mut cleaned, &kept);
                found = true;
                cursor = start + consumed_chars;
            },
            JsonToolBlockCandidate::Malformed(code) => {
                return ToolBlockParse::Malformed {
                    tool_count: intents.len(),
                    error_code: code.as_str(),
                };
            },
            JsonToolBlockCandidate::Unsupported { value_chars } => {
                let next: usize = match value_chars {
                    Some(n) => start + n,
                    None => start + 1,
                };
                let kept = part(&v, cursor, next);
                extend(&mut cleaned, &kept);
                cursor = next;
            },
        }
    }
}

/// The tool calls that a text gives as JSON: those in tagged blocks, else those that
/// stand by themselves.
pub open spec fn json_calls(s: Seq<char>, scope: ScopeView) -> BlockView {
    match tagged_from(s, scope, 0, Seq::empty(), Seq::empty(), false) {
        BlockView::Absent => plain_from(s, scope, 0, Seq::empty(), Seq::empty(), false),
        other => other,
    }
}

/// The tool calls that a text gives as JSON.
pub fn extract_json_tool_call_turn(s: &str, scope: &ToolCallScope) -> (r: ToolBlockParse)
    ensures
        r@ == json_calls(s@, scope@),
{
    match extract_tagged_json_tool_call_turn(s, scope) {
        ToolBlockParse::Absent => extract_plain_json_tool_call_turn(s, scope),
        other => other,
    }
}

} // verus!
