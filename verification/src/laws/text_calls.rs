//! Tool calls that a text gives: which of them count, what they call, and what is left of the
//! text.
use crate::conversation::ToolIntentView;
use crate::json;
use crate::json::{JsonView, ScanView};
use crate::provider::blocks;
use crate::provider::blocks::{
    BlockView, EnvelopeView, JsonToolBlockParseError, JsonToolCallEnvelopeMode,
};
use crate::provider::bridge;
use crate::provider::bridge::ScopeView;
use crate::provider::functions;
use crate::provider::functions::InlineFunctionParseError;
use crate::text;
use crate::tools::catalog;
use crate::tools::tables::PARAMETER_TYPES;
use vstd::prelude::*;

verus! {

// What counts.

/// Whether a line starts at a position.
pub open spec fn starts_line(s: Seq<char>, p: int) -> bool {
    0 <= p <= s.len() && (p == 0 || s[p - 1] == '\n')
}

/// Whether the line that starts at a position opens or closes a code block made of `c`.
pub open spec fn is_fence_of(s: Seq<char>, p: int, c: char) -> bool {
    let line = text::trim_start(s.subrange(p, blocks::next_line(s, p)));
    &&& line.len() >= 3
    &&& line[0] == c && line[1] == c && line[2] == c
}

proof fn lemma_fence(s: Seq<char>, p: int)
    ensures
        ({
            let line = text::trim_start(s.subrange(p, blocks::next_line(s, p)));
            let marker = blocks::fence_marker(line);
            &&& marker == Some('`') <==> is_fence_of(s, p, '`')
            &&& marker == Some('~') <==> is_fence_of(s, p, '~')
            &&& marker matches Some(c) ==> c == '`' || c == '~'
        }),
{
    reveal_strlit("```");
    reveal_strlit("~~~");
    let line = text::trim_start(s.subrange(p, blocks::next_line(s, p)));
    if line.len() >= 3 {
        let head = line.subrange(0, 3);
        assert(head[0] == line[0] && head[1] == line[1] && head[2] == line[2]);
        if is_fence_of(s, p, '`') {
            assert(head =~= "```"@);
        }
        if is_fence_of(s, p, '~') {
            assert(head =~= "~~~"@);
        }
    }
}

proof fn lemma_no_fence(s: Seq<char>, index: int, cursor: int)
    requires
        0 <= index <= s.len(),
        starts_line(s, cursor),
        forall|p: int|
            #[trigger] starts_line(s, p) && cursor <= p < index ==> !is_fence_of(s, p, '`')
                && !is_fence_of(s, p, '~'),
    ensures
        blocks::open_fence(s, index, cursor, None) is None,
    decreases s.len() - cursor,
{
    if cursor < index && cursor < s.len() {
        text::lemma_find_char_bounds(s, '\n', cursor);
        lemma_fence(s, cursor);
        let next = blocks::next_line(s, cursor);
        if next < s.len() || (next == s.len() && s[next - 1] == '\n') {
            assert(starts_line(s, next));
            lemma_no_fence(s, index, next);
        }
    }
}

/// A block that starts a line counts, as long as no code block was opened by a fence above it.
pub proof fn law_blocks_on_a_line_of_their_own_count(s: Seq<char>, start: int)
    requires
        starts_line(s, start),
        forall|p: int|
            #[trigger] starts_line(s, p) && p < start ==> !is_fence_of(s, p, '`') && !is_fence_of(
                s,
                p,
                '~',
            ),
    ensures
        !blocks::is_quoted(s, start),
{
    lemma_no_fence(s, start, 0);
    text::lemma_rfind_char_bounds(s, '\n', start);
    assert(blocks::line_start(s, start) == start);
    assert(s.subrange(start, start).len() == 0);
}

/// A block behind other text on its line does not count.
pub proof fn law_blocks_behind_other_text_are_text(s: Seq<char>, start: int, k: int)
    requires
        0 <= k < start <= s.len(),
        s[k] != ' ' && s[k] != '\t' && s[k] != '\r' && s[k] != '\n',
        forall|j: int| k <= j < start ==> #[trigger] s[j] != '\n',
    ensures
        blocks::is_quoted(s, start),
{
    text::lemma_rfind_char_bounds(s, '\n', start);
    if let Some(p) = text::rfind_char(s, '\n', start) {
        assert(s[p] == '\n');
        if p >= k {
            assert(s[p] != '\n');
        }
    }
    assert(!blocks::is_blank(s[k]));
}

proof fn lemma_fence_stays(s: Seq<char>, index: int, cursor: int, c: char)
    requires
        0 <= index <= s.len(),
        starts_line(s, cursor),
        c == '`' || c == '~',
        forall|p: int|
            #[trigger] starts_line(s, p) && cursor <= p < index ==> !is_fence_of(s, p, c),
    ensures
        blocks::open_fence(s, index, cursor, Some(c)) is Some,
    decreases s.len() - cursor,
{
    if cursor < index && cursor < s.len() {
        text::lemma_find_char_bounds(s, '\n', cursor);
        lemma_fence(s, cursor);
        let next = blocks::next_line(s, cursor);
        if next < s.len() || (next == s.len() && s[next - 1] == '\n') {
            assert(starts_line(s, next));
            lemma_fence_stays(s, index, next, c);
        }
    }
}

/// Whatever stands behind a fence that opens a code block, up to the fence of the same kind
/// that closes it, is text.
pub proof fn law_code_blocks_are_text(s: Seq<char>, index: int, c: char)
    requires
        0 <= index <= s.len(),
        c == '`' || c == '~',
        is_fence_of(s, 0, c),
        blocks::next_line(s, 0) <= index,
        s.len() > 0,
        index > 0,
        forall|p: int|
            #[trigger] starts_line(s, p) && 0 < p < index ==> !is_fence_of(s, p, c),
    ensures
        blocks::is_quoted(s, index),
{
    lemma_fence(s, 0);
    text::lemma_find_char_bounds(s, '\n', 0);
    let next = blocks::next_line(s, 0);
    if next < s.len() || (next == s.len() && s[next - 1] == '\n') {
        assert(starts_line(s, next));
        lemma_fence_stays(s, index, next, c);
    }
    assert(blocks::open_fence(s, index, 0, None) == blocks::open_fence(s, index, next, Some(c)));
}

/// A block behind four spaces at the start of a text is code.
pub proof fn law_indented_blocks_are_text(s: Seq<char>)
    requires
        s.len() >= 4,
        s[0] == ' ' && s[1] == ' ' && s[2] == ' ' && s[3] == ' ',
    ensures
        blocks::is_quoted(s, 4),
{
    text::lemma_rfind_char_bounds(s, '\n', 4);
    if let Some(p) = text::rfind_char(s, '\n', 4) {
        assert(s[p] == '\n');
    }
    assert(blocks::line_start(s, 4) == 0);
    let head = s.subrange(0, 4);
    reveal_with_fuel(blocks::indented, 6);
    assert(head.skip(1)[0] == ' ');
    assert(head.skip(1).skip(1)[0] == ' ');
    assert(head.skip(1).skip(1).skip(1)[0] == ' ');
    assert(head.skip(1).skip(1).skip(1).skip(1).len() == 0);
}

/// A block behind four spaces is code where an empty line stands above it, and none where a
/// line that is not indented does.
pub proof fn law_indented_code_follows_an_empty_line(s: Seq<char>, p: int, q: int)
    requires
        0 < p,
        p + 4 <= s.len(),
        s[p - 1] == '\n',
        s[p] == ' ' && s[p + 1] == ' ' && s[p + 2] == ' ' && s[p + 3] == ' ',
    ensures
        p == 1 || s[p - 2] == '\n' ==> blocks::is_quoted(s, p + 4),
        0 <= q < p - 1 && starts_line(s, q) && (forall|k: int|
            q <= k < p - 1 ==> #[trigger] s[k] != '\n') && s[q] != ' ' && s[q] != '\t' && s[q]
            != '\r' && !text::is_whitespace(s[q]) ==> !blocks::in_indented_code(s, p + 4),
{
    lemma_last_break(s, p + 4, p);
    assert(blocks::line_start(s, p + 4) == p);
    let head = s.subrange(p, p + 4);
    reveal_with_fuel(blocks::indented, 6);
    assert(head.skip(1)[0] == ' ');
    assert(head.skip(1).skip(1)[0] == ' ');
    assert(head.skip(1).skip(1).skip(1)[0] == ' ');
    assert(head.skip(1).skip(1).skip(1).skip(1).len() == 0);
    assert(blocks::indented(head, 0));
    if p == 1 || s[p - 2] == '\n' {
        lemma_last_break(s, p - 1, p - 1);
        let above = s.subrange(p - 1, p - 1);
        assert(blocks::line_start(s, p - 1) == p - 1);
        assert(above.len() == 0);
        assert(text::trim(above).len() == 0);
        assert(blocks::code_above(s, p));
    }
    if 0 <= q < p - 1 && starts_line(s, q) && (forall|k: int|
        q <= k < p - 1 ==> #[trigger] s[k] != '\n') && s[q] != ' ' && s[q] != '\t' && s[q] != '\r'
        && !text::is_whitespace(s[q]) {
        lemma_last_break(s, p - 1, q);
        let above = s.subrange(q, p - 1);
        assert(blocks::line_start(s, p - 1) == q);
        assert(above[0] == s[q]);
        let (f, e) = text::lemma_trim_at(above);
        if text::trim(above).len() == 0 {
            if f > 0 {
                assert(text::is_whitespace(above.take(f)[0]));
            } else {
                assert(text::is_whitespace(above.skip(e)[0]));
            }
        }
        assert(!blocks::indented(above, 0));
        assert(!blocks::code_above(s, p));
    }
}

/// Where the line of a position starts.
proof fn lemma_last_break(s: Seq<char>, at: int, start: int)
    requires
        0 <= start <= at <= s.len(),
        start == 0 || s[start - 1] == '\n',
        forall|k: int| start <= k < at ==> #[trigger] s[k] != '\n',
    ensures
        blocks::line_start(s, at) == start,
    decreases at - start,
{
    if at > start {
        assert(s[at - 1] != '\n');
        lemma_last_break(s, at - 1, start);
    }
}

// What is called.

/// A value that names a tool and has arguments is a call of that tool with these arguments,
/// tagged or not; a text of arguments is read as JSON. It has the number that it gives.
pub proof fn law_values_call_what_they_name(
    e: Seq<(Seq<char>, JsonView)>,
    name: Seq<char>,
    arguments: JsonView,
    mode: JsonToolCallEnvelopeMode,
)
    requires
        JsonView::Object(e).str_at("name"@) == Some(name),
        JsonView::Object(e).get("arguments"@) == Some(arguments),
    ensures
        ({
            let value = JsonView::Object(e);
            let found = blocks::envelope_of(value, mode);
            match arguments {
                JsonView::Text(raw) => match json::parsed_json(raw) {
                    Ok(args) => {
                        &&& found matches Ok(Some(call))
                        &&& call.raw_tool_name == name
                        &&& call.args_json == args
                    },
                    Err(_) => found == Err::<Option<EnvelopeView>, JsonToolBlockParseError>(
                        JsonToolBlockParseError::InvalidJson,
                    ),
                },
                _ => {
                    &&& found matches Ok(Some(call))
                    &&& call.raw_tool_name == name
                    &&& call.args_json == arguments
                    &&& value.str_at("id"@) matches Some(id) ==> call.tool_call_id == Some(id)
                },
            }
        }),
{
}

/// A tool is named by `name`, else by `tool`, else by `tool_name`, else by the name of its
/// function; its arguments stand under `arguments`, else `input`, else `parameters`, else
/// `args`, else `payload`, else under those of its function.
pub proof fn law_first_name_and_arguments_win(value: JsonView)
    ensures
        value.str_at("name"@) is Some ==> blocks::called_name(value) == value.str_at("name"@),
        value.str_at("name"@) is None && value.str_at("tool"@) is Some ==> blocks::called_name(
            value,
        ) == value.str_at("tool"@),
        value.str_at("name"@) is None && value.str_at("tool"@) is None && value.str_at(
            "tool_name"@,
        ) is Some ==> blocks::called_name(value) == value.str_at("tool_name"@),
        value.str_at("name"@) is None && value.str_at("tool"@) is None && value.str_at(
            "tool_name"@,
        ) is None ==> blocks::called_name(value) == (match value.get("function"@) {
            Some(JsonView::Object(f)) => JsonView::Object(f).str_at("name"@),
            _ => None,
        }),
        value.get("arguments"@) is Some ==> blocks::argument_value(value) == value.get(
            "arguments"@,
        ),
        value.get("arguments"@) is None && value.get("input"@) is Some ==> blocks::argument_value(
            value,
        ) == value.get("input"@),
        value.get("arguments"@) is None && value.get("input"@) is None && value.get(
            "parameters"@,
        ) is Some ==> blocks::argument_value(value) == value.get("parameters"@),
        value.get("arguments"@) is None && value.get("input"@) is None && value.get("parameters"@)
            is None && value.get("args"@) is Some ==> blocks::argument_value(value) == value.get(
            "args"@,
        ),
        value.get("arguments"@) is None && value.get("input"@) is None && value.get("parameters"@)
            is None && value.get("args"@) is None && value.get("payload"@) is Some
            ==> blocks::argument_value(value) == value.get("payload"@),
        value.str_at("id"@) is Some ==> blocks::called_id(value) == value.str_at("id"@),
        value.str_at("id"@) is None && value.str_at("tool_call_id"@) is Some ==> blocks::called_id(
            value,
        ) == value.str_at("tool_call_id"@),
{
}

/// A value that names no tool, or is no object, calls nothing.
pub proof fn law_values_without_a_name_call_nothing(
    value: JsonView,
    mode: JsonToolCallEnvelopeMode,
)
    requires
        !(value is Object) || value.str_at("name"@) is None && value.str_at("tool"@) is None
            && value.str_at("tool_name"@) is None && value.get("function"@) is None,
    ensures
        blocks::envelope_of(value, mode) == Ok::<Option<EnvelopeView>, JsonToolBlockParseError>(
            None,
        ),
{
}

/// Without arguments under a key of their own, a tagged value gives the rest of its fields as
/// arguments; a value that stands by itself does so only where it says that it is a call.
pub proof fn law_other_fields_may_be_arguments(
    e: Seq<(Seq<char>, JsonView)>,
    name: Seq<char>,
    key: Seq<char>,
    value: JsonView,
)
    requires
        JsonView::Object(e).str_at("name"@) == Some(name),
        blocks::argument_value(JsonView::Object(e)) is None,
    ensures
        blocks::envelope_of(JsonView::Object(e), JsonToolCallEnvelopeMode::TaggedBlock) matches Ok(
            Some(call),
        ) && call.raw_tool_name == name && call.args_json == JsonView::Object(
            blocks::top_level_arguments(e),
        ),
        JsonView::Object(e).get("type"@) is None && JsonView::Object(e).get("function"@) is None
            ==> blocks::envelope_of(JsonView::Object(e), JsonToolCallEnvelopeMode::PlainStandalone)
            == Ok::<Option<EnvelopeView>, JsonToolBlockParseError>(None),
        blocks::top_level_arguments(e.push((key, value))) == (if key == "name"@ || key == "tool"@
            || key == "tool_name"@ || key == "function"@ || key == "id"@ || key == "tool_call_id"@
            || key == "call_id"@ || key == "type"@ || key == "arguments"@ || key == "input"@ || key
            == "parameters"@ || key == "args"@ || key == "payload"@ {
            blocks::top_level_arguments(e)
        } else {
            blocks::top_level_arguments(e).push((key, value))
        }),
        blocks::top_level_arguments(Seq::empty()).len() == 0,
{
    assert(e.push((key, value)).drop_last() =~= e);
}

/// A block may stand before blanks on its line, and before nothing else.
pub proof fn law_blocks_end_their_line(s: Seq<char>, end: int, k: int)
    requires
        0 <= end <= s.len(),
    ensures
        end == s.len() ==> blocks::standalone_end(s, end),
        end < s.len() && s[end] == '\n' ==> blocks::standalone_end(s, end),
        end <= k < s.len() && s[k] != ' ' && s[k] != '\t' && s[k] != '\r' && (forall|j: int|
            end <= j <= k ==> #[trigger] s[j] != '\n') ==> !blocks::standalone_end(s, end),
{
    text::lemma_find_char_bounds(s, '\n', end);
    if end <= k < s.len() && s[k] != ' ' && s[k] != '\t' && s[k] != '\r' && (forall|j: int|
        end <= j <= k ==> #[trigger] s[j] != '\n') {
        assert(!blocks::is_blank(s[k]));
        if let Some(p) = text::find_char(s, '\n', end) {
            assert(s[p] == '\n');
            if p <= k {
                assert(s[p] != '\n');
            }
        }
    }
}

/// A call that a text gives as JSON calls the tool that it names with its arguments, under its
/// own number, or one that counts the calls of the text.
pub proof fn law_calls_of_texts_are_numbered(e: EnvelopeView, scope: ScopeView, index: nat)
    requires
        scope.leases.len() == 0,
    ensures
        blocks::json_intent(e, scope, index) == (ToolIntentView {
            tool_name: catalog::canonical_name(e.raw_tool_name),
            args_json: e.args_json,
            source: "provider_json_tool_call"@,
            session_id: scope.session_id,
            turn_id: scope.turn_id,
            tool_call_id: match e.tool_call_id {
                Some(id) => id,
                None => "json-call-"@ + text::decimal(index),
            },
        }),
{
    assert(forall|tool: Seq<char>| bridge::lease_of(scope.leases, tool) is None);
}

// What comes of a text.

/// A tagged block that counts gives the calls in it, behind those before it, and goes from the
/// text; what stands before it and behind it stays.
pub proof fn law_tagged_blocks_are_called(
    s: Seq<char>,
    scope: ScopeView,
    cursor: int,
    cleaned: Seq<char>,
    intents: Seq<ToolIntentView>,
    found: bool,
    start: int,
    end: int,
    more: Seq<ToolIntentView>,
)
    requires
        0 <= cursor <= start,
        text::matches_at(s, "<tool_call>"@, start),
        forall|i: int| cursor <= i < start ==> !#[trigger] text::matches_at(s, "<tool_call>"@, i),
        !blocks::is_quoted(s, start),
        start + 11 <= end,
        text::matches_at(s, "</tool_call>"@, end),
        forall|i: int|
            start + 11 <= i < end ==> !#[trigger] text::matches_at(s, "</tool_call>"@, i),
        forall|j: int|
            end + 12 <= j < s.len() && (forall|k: int| end + 12 <= k < j ==> s[k] != '\n')
                ==> blocks::is_blank(#[trigger] s[j]) || s[j] == '\n',
        blocks::call_sequence(s.subrange(start + 11, end), scope, intents.len(), Seq::empty())
            == Ok::<Seq<ToolIntentView>, JsonToolBlockParseError>(more),
    ensures
        blocks::tagged_from(s, scope, cursor, cleaned, intents, found) == blocks::tagged_from(
            s,
            scope,
            end + 12,
            cleaned + s.subrange(cursor, start),
            intents + more,
            true,
        ),
{
    reveal_strlit("<tool_call>");
    reveal_strlit("</tool_call>");
    text::lemma_find_from_bounds(s, "<tool_call>"@, cursor);
    text::lemma_find_from_bounds(s, "</tool_call>"@, start + 11);
    let a = text::find_from(s, "<tool_call>"@, cursor)->0;
    assert(a == start);
    let b = text::find_from(s, "</tool_call>"@, start + 11)->0;
    assert(b == end);
    text::lemma_find_char_bounds(s, '\n', end + 12);
    assert(blocks::standalone_end(s, end + 12));
}

/// What is left once there are no more blocks: the text without the blocks that gave calls, or
/// nothing where there were none.
pub proof fn law_the_rest_of_the_text_stays(
    s: Seq<char>,
    scope: ScopeView,
    cursor: int,
    cleaned: Seq<char>,
    intents: Seq<ToolIntentView>,
)
    requires
        0 <= cursor <= s.len(),
    ensures
        (forall|i: int| cursor <= i ==> !#[trigger] text::matches_at(s, "<tool_call>"@, i))
            ==> blocks::tagged_from(s, scope, cursor, cleaned, intents, true)
            == (BlockView::Parsed {
            cleaned_text: text::trim(cleaned + s.skip(cursor)),
            tool_intents: intents,
        }) && blocks::tagged_from(s, scope, cursor, cleaned, intents, false) == BlockView::Absent,
        (forall|i: int| cursor <= i < s.len() ==> #[trigger] s[i] != '{') ==> blocks::plain_from(
            s,
            scope,
            cursor,
            cleaned,
            intents,
            true,
        ) == (BlockView::Parsed {
            cleaned_text: text::trim(cleaned + s.skip(cursor)),
            tool_intents: intents,
        }) && blocks::plain_from(s, scope, cursor, cleaned, intents, false) == BlockView::Absent,
        (forall|i: int| cursor <= i ==> !#[trigger] text::matches_at(s, "<function="@, i))
            ==> functions::functions_from(s, scope, cursor, cleaned, intents, true)
            == (BlockView::Parsed {
            cleaned_text: text::trim(cleaned + s.skip(cursor)),
            tool_intents: intents,
        }) && functions::functions_from(s, scope, cursor, cleaned, intents, false)
            == BlockView::Absent,
{
    text::lemma_find_from_bounds(s, "<tool_call>"@, cursor);
    text::lemma_find_from_bounds(s, "<function="@, cursor);
    text::lemma_find_char_bounds(s, '{', cursor);
}

/// The values of a block are called one after the other, in their order, each numbered behind
/// those before it.
pub proof fn law_values_of_a_block_are_all_called(
    body: Seq<char>,
    scope: ScopeView,
    offset: nat,
    intents: Seq<ToolIntentView>,
    value: JsonView,
    n: int,
    call: EnvelopeView,
)
    requires
        json::scanned_json(body) == ScanView::Value(value, n),
        0 < n <= body.len(),
        blocks::envelope_of(value, JsonToolCallEnvelopeMode::TaggedBlock) == Ok::<
            Option<EnvelopeView>,
            JsonToolBlockParseError,
        >(Some(call)),
    ensures
        blocks::call_sequence(body, scope, offset, intents) == blocks::call_sequence(
            body.skip(n),
            scope,
            offset,
            intents.push(blocks::json_intent(call, scope, offset + intents.len())),
        ),
        forall|rest: Seq<char>|
            #[trigger] json::scanned_json(rest) == ScanView::End && intents.len() > 0
                ==> blocks::call_sequence(rest, scope, offset, intents) == Ok::<
                Seq<ToolIntentView>,
                JsonToolBlockParseError,
            >(intents),
{
}

/// A value that stands by itself and calls a tool is called and goes from the text; one that
/// calls nothing stays in it.
pub proof fn law_values_by_themselves_are_called(
    s: Seq<char>,
    scope: ScopeView,
    cursor: int,
    cleaned: Seq<char>,
    intents: Seq<ToolIntentView>,
    found: bool,
    start: int,
    value: JsonView,
    n: int,
)
    requires
        0 <= cursor <= start < s.len(),
        s[start] == '{',
        forall|i: int| cursor <= i < start ==> #[trigger] s[i] != '{',
        !blocks::is_quoted(s, start),
        json::scanned_json(s.skip(start)) == ScanView::Value(value, n),
        0 < n <= s.len() - start,
        blocks::standalone_end(s.skip(start), n),
    ensures
        blocks::envelope_of(value, JsonToolCallEnvelopeMode::PlainStandalone) matches Ok(Some(call))
            ==> blocks::plain_from(s, scope, cursor, cleaned, intents, found) == blocks::plain_from(
            s,
            scope,
            start + n,
            cleaned + s.subrange(cursor, start),
            intents.push(blocks::json_intent(call, scope, intents.len())),
            true,
        ),
        blocks::envelope_of(value, JsonToolCallEnvelopeMode::PlainStandalone) == Ok::<
            Option<EnvelopeView>,
            JsonToolBlockParseError,
        >(None) ==> blocks::plain_from(s, scope, cursor, cleaned, intents, found)
            == blocks::plain_from(
            s,
            scope,
            start + n,
            cleaned + s.subrange(cursor, start + n),
            intents,
            found,
        ),
{
    text::lemma_find_char_bounds(s, '{', cursor);
    assert(text::find_char(s, '{', cursor) == Some(start));
}

/// Tagged blocks come before values that stand by themselves.
pub proof fn law_tagged_blocks_come_first(s: Seq<char>, scope: ScopeView)
    ensures
        ({
            let tagged = blocks::tagged_from(s, scope, 0, Seq::empty(), Seq::empty(), false);
            &&& tagged != BlockView::Absent ==> blocks::json_calls(s, scope) == tagged
            &&& tagged == BlockView::Absent ==> blocks::json_calls(s, scope) == blocks::plain_from(
                s,
                scope,
                0,
                Seq::empty(),
                Seq::empty(),
                false,
            )
        }),
{
}

/// A marked function that counts calls the tool that it names with its parameters, numbered
/// behind the calls before it, and goes from the text.
pub proof fn law_marked_functions_are_called(
    s: Seq<char>,
    scope: ScopeView,
    cursor: int,
    cleaned: Seq<char>,
    intents: Seq<ToolIntentView>,
    found: bool,
    start: int,
    name_end: int,
    end: int,
    args: JsonView,
)
    requires
        0 <= cursor <= start,
        text::matches_at(s, "<function="@, start),
        forall|i: int| cursor <= i < start ==> !#[trigger] text::matches_at(s, "<function="@, i),
        !blocks::is_quoted(s, start),
        start + 10 <= name_end < end,
        s[name_end] == '>',
        forall|i: int| start + 10 <= i < name_end ==> #[trigger] s[i] != '>',
        text::trim(s.subrange(start + 10, name_end)).len() > 0,
        text::matches_at(s, "</function>"@, end),
        forall|i: int| name_end < i < end ==> !#[trigger] text::matches_at(s, "</function>"@, i),
        blocks::standalone_end(s, end + 11),
        functions::function_parameters(
            catalog::canonical_name(text::trim(s.subrange(start + 10, name_end))),
            s.subrange(name_end + 1, end),
        ) == Ok::<JsonView, functions::InlineFunctionParseError>(args),
    ensures
        functions::functions_from(s, scope, cursor, cleaned, intents, found)
            == functions::functions_from(
            s,
            scope,
            end + 11,
            cleaned + s.subrange(cursor, start),
            intents.push(
                bridge::intent_of(
                    catalog::canonical_name(text::trim(s.subrange(start + 10, name_end))),
                    args,
                    "provider_inline_function_call"@,
                    "inline-call-"@ + text::decimal(intents.len()),
                    scope,
                ),
            ),
            true,
        ),
{
    reveal_strlit("<function=");
    reveal_strlit("</function>");
    text::lemma_find_from_bounds(s, "<function="@, cursor);
    text::lemma_find_from_bounds(s, "</function>"@, name_end + 1);
    text::lemma_find_char_bounds(s, '>', start + 10);
    let a = text::find_from(s, "<function="@, cursor)->0;
    assert(a == start);
    let n = text::find_char(s, '>', start + 10)->0;
    assert(s[name_end] == '>');
    assert(n == name_end);
    let b = text::find_from(s, "</function>"@, name_end + 1)->0;
    assert(b == end);
}

/// A block that is begun and not ended is malformed, and says so with the number of calls that
/// were read before it.
pub proof fn law_unfinished_blocks_are_malformed(
    s: Seq<char>,
    scope: ScopeView,
    cursor: int,
    cleaned: Seq<char>,
    intents: Seq<ToolIntentView>,
    found: bool,
    start: int,
)
    requires
        0 <= cursor <= start,
        !blocks::is_quoted(s, start),
    ensures
        text::matches_at(s, "<tool_call>"@, start) && (forall|i: int|
            cursor <= i < start ==> !#[trigger] text::matches_at(s, "<tool_call>"@, i)) && (forall|
            i: int,
        |
            start + 11 <= i ==> !#[trigger] text::matches_at(s, "</tool_call>"@, i))
            ==> blocks::tagged_from(s, scope, cursor, cleaned, intents, found)
            == (BlockView::Malformed {
            tool_count: intents.len(),
            error_code: "missing_tool_call_close"@,
        }),
        text::matches_at(s, "<function="@, start) && (forall|i: int|
            cursor <= i < start ==> !#[trigger] text::matches_at(s, "<function="@, i)) && (forall|
            i: int,
        |
            start + 10 <= i < s.len() ==> #[trigger] s[i] != '>') ==> functions::functions_from(
            s,
            scope,
            cursor,
            cleaned,
            intents,
            found,
        ) == (BlockView::Malformed {
            tool_count: intents.len(),
            error_code: functions::InlineFunctionParseError::MissingFunctionHeaderClose.name(),
        }),
{
    reveal_strlit("<tool_call>");
    reveal_strlit("</tool_call>");
    reveal_strlit("<function=");
    text::lemma_find_from_bounds(s, "<tool_call>"@, cursor);
    text::lemma_find_from_bounds(s, "</tool_call>"@, start + 11);
    text::lemma_find_from_bounds(s, "<function="@, cursor);
    text::lemma_find_char_bounds(s, '>', start + 10);
    if text::matches_at(s, "<tool_call>"@, start) && (forall|i: int|
        cursor <= i < start ==> !#[trigger] text::matches_at(s, "<tool_call>"@, i)) {
        assert(text::find_from(s, "<tool_call>"@, cursor) == Some(start));
    }
    if text::matches_at(s, "<function="@, start) && (forall|i: int|
        cursor <= i < start ==> !#[trigger] text::matches_at(s, "<function="@, i)) {
        assert(text::find_from(s, "<function="@, cursor) == Some(start));
    }
}

/// Values that are no JSON, or that call nothing, make a tagged block malformed.
pub proof fn law_bad_values_are_malformed(
    body: Seq<char>,
    scope: ScopeView,
    offset: nat,
    intents: Seq<ToolIntentView>,
    value: JsonView,
    n: int,
)
    ensures
        json::scanned_json(body) == ScanView::Invalid ==> blocks::call_sequence(
            body,
            scope,
            offset,
            intents,
        ) == Err::<Seq<ToolIntentView>, JsonToolBlockParseError>(
            JsonToolBlockParseError::InvalidJson,
        ),
        json::scanned_json(body) == ScanView::End && intents.len() == 0 ==> blocks::call_sequence(
            body,
            scope,
            offset,
            intents,
        ) is Err,
        json::scanned_json(body) == ScanView::Value(value, n) && blocks::envelope_of(
            value,
            JsonToolCallEnvelopeMode::TaggedBlock,
        ) == Ok::<Option<EnvelopeView>, JsonToolBlockParseError>(None) ==> blocks::call_sequence(
            body,
            scope,
            offset,
            intents,
        ) == Err::<Seq<ToolIntentView>, JsonToolBlockParseError>(
            JsonToolBlockParseError::UnsupportedShape,
        ),
        JsonToolBlockParseError::MissingToolCallClose.name() == "missing_tool_call_close"@,
        JsonToolBlockParseError::InvalidJson.name() == "invalid_json"@,
        JsonToolBlockParseError::UnsupportedShape.name() == "unsupported_shape"@,
{
}

/// A parameter gives its value under its name; the parameters behind it are read on.
pub proof fn law_parameters_are_read_one_by_one(
    tool: Seq<char>,
    body: Seq<char>,
    cursor: int,
    payload: Seq<(Seq<char>, JsonView)>,
    name_end: int,
    end: int,
)
    requires
        0 <= cursor < body.len(),
        text::matches_at(body, "<parameter="@, cursor),
        cursor + 11 <= name_end < end,
        body[name_end] == '>',
        forall|i: int| cursor + 11 <= i < name_end ==> #[trigger] body[i] != '>',
        text::trim(body.subrange(cursor + 11, name_end)).len() > 0,
        text::matches_at(body, "</parameter>"@, end),
        forall|i: int|
            name_end < i < end ==> !#[trigger] text::matches_at(body, "</parameter>"@, i),
    ensures
        functions::parameters_from(tool, body, cursor, payload) == functions::parameters_from(
            tool,
            body,
            end + 12,
            json::with_entry(
                payload,
                text::trim(body.subrange(cursor + 11, name_end)),
                functions::parameter_value(
                    tool,
                    text::trim(body.subrange(cursor + 11, name_end)),
                    body.subrange(name_end + 1, end),
                ),
            ),
        ),
        functions::parameters_from(tool, body, body.len() as int, payload) == Ok::<
            Seq<(Seq<char>, JsonView)>,
            functions::InlineFunctionParseError,
        >(payload),
{
    reveal_strlit("<parameter=");
    reveal_strlit("</parameter>");
    let rest = body.skip(cursor);
    assert(body.subrange(cursor, cursor + 11)[0] == body[cursor]);
    assert(rest[0] == '<');
    assert(text::trim_start(rest) == rest);
    text::lemma_find_char_bounds(body, '>', cursor + 11);
    text::lemma_find_from_bounds(body, "</parameter>"@, name_end + 1);
    let n = text::find_char(body, '>', cursor + 11)->0;
    assert(body[name_end] == '>');
    assert(n == name_end);
    let b = text::find_from(body, "</parameter>"@, name_end + 1)->0;
    assert(b == end);
}

/// The value of a parameter is what it reads as, unless the tool wants a text: then it stays
/// the text that was given, or the text that it reads as. What reads as nothing is a text.
pub proof fn law_parameters_have_the_type_of_the_tool(
    tool: Seq<char>,
    parameter: Seq<char>,
    raw: Seq<char>,
)
    ensures
        ({
            let given = text::trim(functions::decoded(raw));
            let value = functions::parameter_value(tool, parameter, raw);
            &&& given.len() == 0 ==> value == JsonView::Text(Seq::empty())
            &&& given.len() > 0 ==> match json::parsed_json(given) {
                Err(_) => value == JsonView::Text(given),
                Ok(JsonView::Text(t)) => value == JsonView::Text(t),
                Ok(v) => value == (if functions::is_string_parameter(tool, parameter) {
                    JsonView::Text(given)
                } else {
                    v
                }),
            }
        }),
{
}

/// The type of a parameter is that of the table, and a parameter that the table lacks has none.
pub proof fn law_types_are_those_of_the_table(
    t: Seq<(&'static str, &'static str, &'static str)>,
    row: (&'static str, &'static str, &'static str),
    tool: Seq<char>,
    parameter: Seq<char>,
)
    ensures
        functions::parameter_type(t.push(row), tool, parameter) == (if row.0@ == tool && row.1@
            == parameter {
            Some(row.2@)
        } else {
            functions::parameter_type(t, tool, parameter)
        }),
        functions::parameter_type(Seq::empty(), tool, parameter) is None,
        functions::is_string_parameter(tool, parameter) <==> functions::parameter_type(
            PARAMETER_TYPES@,
            tool,
            parameter,
        ) == Some("string"@),
{
    assert(t.push(row).drop_last() =~= t);
}

/// A value without entities is taken as it is.
pub proof fn law_values_without_entities_stay(raw: Seq<char>)
    requires
        text::lacks(raw, '&'),
    ensures
        functions::decoded(raw) == raw,
{
    lemma_nothing_to_replace(raw, "&lt;"@, "<"@);
    lemma_nothing_to_replace(raw, "&gt;"@, ">"@);
    lemma_nothing_to_replace(raw, "&quot;"@, "\""@);
    lemma_nothing_to_replace(raw, "&apos;"@, "'"@);
    lemma_nothing_to_replace(raw, "&amp;"@, "&"@);
}

proof fn lemma_nothing_to_replace(s: Seq<char>, pat: Seq<char>, by: Seq<char>)
    requires
        text::lacks(s, '&'),
        pat == "&lt;"@ || pat == "&gt;"@ || pat == "&quot;"@ || pat == "&apos;"@ || pat == "&amp;"@,
    ensures
        text::replaced(s, pat, by) == s,
{
    reveal_strlit("&lt;");
    reveal_strlit("&gt;");
    reveal_strlit("&quot;");
    reveal_strlit("&apos;");
    reveal_strlit("&amp;");
    text::lemma_find_from_bounds(s, pat, 0);
    if let Some(k) = text::find_from(s, pat, 0) {
        assert(s.subrange(k, k + pat.len())[0] == s[k]);
        assert(pat[0] == '&');
    }
    assert(s.skip(0) =~= s);
}

proof fn lemma_one_is_replaced(
    a: Seq<char>,
    entity: Seq<char>,
    b: Seq<char>,
    pat: Seq<char>,
    by: Seq<char>,
)
    requires
        text::lacks(a, '&'),
        text::lacks(b, '&'),
        entity.len() >= 3,
        pat.len() >= 3,
        entity[0] == '&',
        pat[0] == '&',
        forall|i: int| 0 < i < entity.len() ==> #[trigger] entity[i] != '&',
        pat == entity || pat[1] != entity[1] || pat[2] != entity[2],
    ensures
        text::replaced(a + entity + b, pat, by) == (if pat == entity {
            a + by + b
        } else {
            a + entity + b
        }),
{
    let s = a + entity + b;
    let n = a.len() as int;
    assert forall|k: int| 0 <= k < s.len() && k != n implies #[trigger] s[k] != '&' by {
        if k < n {
            assert(s[k] == a[k]);
        } else if k < n + entity.len() {
            assert(s[k] == entity[k - n]);
        } else {
            assert(s[k] == b[k - n - entity.len()]);
        }
    }
    assert forall|k: int| #[trigger] text::matches_at(s, pat, k) implies k == n by {
        assert(s.subrange(k, k + pat.len())[0] == s[k]);
    }
    assert(s[n + 1] == entity[1] && s[n + 2] == entity[2]);
    text::lemma_find_from_bounds(s, pat, 0);
    if pat == entity {
        assert(s.subrange(n, n + pat.len()) =~= pat);
        assert(text::matches_at(s, pat, n));
        assert(text::find_from(s, pat, 0) == Some(n));
        let m = n + pat.len();
        text::lemma_find_from_bounds(s, pat, m);
        assert(text::find_from(s, pat, m) is None);
        assert(s.subrange(0, n) =~= a);
        assert(s.skip(m) =~= b);
        assert(text::replaced_from(s, pat, by, m) == s.skip(m));
    } else {
        if text::matches_at(s, pat, n) {
            assert(s.subrange(n, n + pat.len())[1] == s[n + 1]);
            assert(s.subrange(n, n + pat.len())[2] == s[n + 2]);
        }
        assert(text::find_from(s, pat, 0) is None);
        assert(s.skip(0) =~= s);
    }
}

/// An entity is read as the character that it stands for.
pub proof fn law_entities_are_read_as_characters(a: Seq<char>, b: Seq<char>)
    requires
        text::lacks(a, '&'),
        text::lacks(b, '&'),
    ensures
        functions::decoded(a + "&lt;"@ + b) == a + seq!['<'] + b,
        functions::decoded(a + "&gt;"@ + b) == a + seq!['>'] + b,
        functions::decoded(a + "&quot;"@ + b) == a + seq!['"'] + b,
        functions::decoded(a + "&apos;"@ + b) == a + seq!['\''] + b,
        functions::decoded(a + "&amp;"@ + b) == a + seq!['&'] + b,
{
    lemma_entity(a, "&lt;"@, b, '<');
    lemma_entity(a, "&gt;"@, b, '>');
    lemma_entity(a, "&quot;"@, b, '"');
    lemma_entity(a, "&apos;"@, b, '\'');
    lemma_entity(a, "&amp;"@, b, '&');
}

proof fn lemma_entity(a: Seq<char>, entity: Seq<char>, b: Seq<char>, c: char)
    requires
        text::lacks(a, '&'),
        text::lacks(b, '&'),
        entity == "&lt;"@ && c == '<' || entity == "&gt;"@ && c == '>' || entity == "&quot;"@ && c
            == '"' || entity == "&apos;"@ && c == '\'' || entity == "&amp;"@ && c == '&',
    ensures
        functions::decoded(a + entity + b) == a + seq![c] + b,
{
    reveal_strlit("&lt;");
    reveal_strlit("&gt;");
    reveal_strlit("&quot;");
    reveal_strlit("&apos;");
    reveal_strlit("&amp;");
    reveal_strlit("<");
    reveal_strlit(">");
    reveal_strlit("\"");
    reveal_strlit("'");
    reveal_strlit("&");
    assert("<"@ =~= seq!['<'] && ">"@ =~= seq!['>'] && "\""@ =~= seq!['"'] && "'"@ =~= seq!['\'']
        && "&"@ =~= seq!['&']);
    assert("&lt;"@[1] == 'l' && "&gt;"@[1] == 'g' && "&quot;"@[1] == 'q' && "&apos;"@[1] == 'a'
        && "&amp;"@[1] == 'a' && "&apos;"@[2] == 'p' && "&amp;"@[2] == 'm');
    let done = a + seq![c] + b;
    lemma_one_is_replaced(a, entity, b, "&lt;"@, "<"@);
    lemma_one_is_replaced(a, entity, b, "&gt;"@, ">"@);
    lemma_one_is_replaced(a, entity, b, "&quot;"@, "\""@);
    lemma_one_is_replaced(a, entity, b, "&apos;"@, "'"@);
    lemma_one_is_replaced(a, entity, b, "&amp;"@, "&"@);
    if c != '&' {
        assert forall|i: int| 0 <= i < done.len() implies #[trigger] done[i] != '&' by {
            if i < a.len() {
                assert(done[i] == a[i]);
            } else if i > a.len() {
                assert(done[i] == b[i - a.len() - 1]);
            }
        }
        assert(text::lacks(done, '&'));
        lemma_nothing_to_replace(done, "&gt;"@, ">"@);
        lemma_nothing_to_replace(done, "&quot;"@, "\""@);
        lemma_nothing_to_replace(done, "&apos;"@, "'"@);
        lemma_nothing_to_replace(done, "&amp;"@, "&"@);
    }
}

/// Every way in which a marked function is malformed has its name.
pub proof fn law_malformed_functions_have_these_names(e: InlineFunctionParseError)
    ensures
        e.name() == (match e {
            InlineFunctionParseError::MissingFunctionHeaderClose => "missing_function_header_close"@,
            InlineFunctionParseError::EmptyFunctionName => "empty_function_name"@,
            InlineFunctionParseError::MissingFunctionClose => "missing_function_close"@,
            InlineFunctionParseError::MissingParameterOpen => "missing_parameter_open"@,
            InlineFunctionParseError::MissingParameterHeaderClose => "missing_parameter_header_close"@,
            InlineFunctionParseError::EmptyParameterName => "empty_parameter_name"@,
            InlineFunctionParseError::MissingParameterClose => "missing_parameter_close"@,
        }),
{
}

} // verus!
