//! The Telegram channel: what goes into its requests and what its answers mean.
use crate::channel::markdown;
use crate::channel::markdown::markdown_to_telegram_html;
use crate::channel::{
    ChannelDelivery, ChannelInboundMessage, ChannelOutboundMessage, ChannelOutboundTarget,
    ChannelOutboundTargetKind, ChannelPlatform, ChannelSession, ChannelStreamingMode, InboundView,
    PlatformView, TargetKindView,
};
use crate::json;
use crate::json::{
    array, no_entries, no_values, object, parse_json, push_entry, push_value, render_json, text_value,
    Json, JsonView,
};
use crate::text;
use crate::text::{
    cat, cat3, cat4, cat5, chars_of, extend, has_prefix, integer_text, joined_texts,
    last_position_of, lines_of, parse_i64, part, position_of, string_of, to_text, trimmed,
    trimmed_end_char, trimmed_str, truncate_chars,
};
use std::collections::BTreeSet;
use vstd::prelude::*;

verus! {

/// The most characters that one Telegram message holds.
pub const TELEGRAM_MAX_MESSAGE_LENGTH: usize = 4096;

/// The room that is kept free for the marks of a message in several parts.
pub const TELEGRAM_CONTINUATION_OVERHEAD: usize = 30;

// Splitting a message.

/// Where the next part of `rest` ends: behind the last line feed, else behind the
/// last space, of what fits into one part, else where no more fits.
pub open spec fn chunk_end(rest: Seq<char>) -> int {
    let limit = TELEGRAM_MAX_MESSAGE_LENGTH - TELEGRAM_CONTINUATION_OVERHEAD;
    if rest.len() <= limit {
        rest.len() as int
    } else {
        match text::rfind_char(rest, '\n', limit) {
            Some(p) => p + 1,
            None => match text::rfind_char(rest, ' ', limit) {
                Some(p) => p + 1,
                None => limit,
            },
        }
    }
}

/// The parts of a message that does not fit into one.
pub open spec fn chunks(rest: Seq<char>) -> Seq<Seq<char>>
    decreases rest.len(),
    via chunks_decreases
{
    if rest.len() == 0 {
        Seq::empty()
    } else {
        seq![rest.take(chunk_end(rest))] + chunks(rest.skip(chunk_end(rest)))
    }
}

#[via_fn]
proof fn chunks_decreases(rest: Seq<char>) {
    if rest.len() > 0 {
        lemma_chunk_end(rest);
    }
}

proof fn lemma_chunk_end(rest: Seq<char>)
    requires
        rest.len() > 0,
    ensures
        0 < chunk_end(rest) <= rest.len(),
        chunk_end(rest) <= TELEGRAM_MAX_MESSAGE_LENGTH - TELEGRAM_CONTINUATION_OVERHEAD,
{
    let limit = TELEGRAM_MAX_MESSAGE_LENGTH - TELEGRAM_CONTINUATION_OVERHEAD;
    text::lemma_rfind_char_bounds(rest, '\n', limit);
    text::lemma_rfind_char_bounds(rest, ' ', limit);
}

/// The parts in which a message is sent.
pub open spec fn message_parts(message: Seq<char>) -> Seq<Seq<char>> {
    if message.len() <= TELEGRAM_MAX_MESSAGE_LENGTH {
        seq![message]
    } else {
        chunks(message)
    }
}

/// The parts in which a message is sent.
pub fn split_message_for_telegram(message: &str) -> (r: Vec<String>)
    ensures
        text::texts(r@) == message_parts(message@),
{
    let v = chars_of(message);
    let mut r: Vec<String> = Vec::new();
    if v.len() <= TELEGRAM_MAX_MESSAGE_LENGTH {
        r.push(message.to_owned());
        assert(text::texts(r@) =~= seq![message@]);
        return r;
    }
    let limit: usize = TELEGRAM_MAX_MESSAGE_LENGTH - TELEGRAM_CONTINUATION_OVERHEAD;
    let mut rest = v;
    assert(text::texts(r@) + chunks(rest@) =~= chunks(message@));
    while rest.len() > 0
        invariant
            limit == TELEGRAM_MAX_MESSAGE_LENGTH - TELEGRAM_CONTINUATION_OVERHEAD,
            text::texts(r@) + chunks(rest@) == chunks(message@),
        decreases rest@.len(),
    {
        proof {
            lemma_chunk_end(rest@);
        }
        let end: usize = if rest.len() <= limit {
            rest.len()
        } else {
            match last_position_of(&rest, '\n', limit) {
                Some(p) => p + 1,
                None => match last_position_of(&rest, ' ', limit) {
                    Some(p) => p + 1,
                    None => limit,
                },
            }
        };
        let chunk = string_of(&rest, 0, end);
        let tail = part(&rest, end, rest.len());
        proof {
            assert(end == chunk_end(rest@));
            assert(chunk@ =~= rest@.take(end as int));
            assert(tail@ =~= rest@.skip(end as int));
            text::lemma_texts_push(r@, chunk);
            assert(text::texts(r@) + (seq![chunk@] + chunks(tail@)) =~= text::texts(r@).push(chunk@)
                + chunks(tail@));
        }
        r.push(chunk);
        rest = tail;
    }
    assert(text::texts(r@) + chunks(rest@) =~= text::texts(r@));
    r
}

proof fn lemma_concat_cons(head: Seq<char>, tail: Seq<Seq<char>>)
    ensures
        text::concat(seq![head] + tail) == head + text::concat(tail),
    decreases tail.len(),
{
    if tail.len() == 0 {
        assert(seq![head] + tail =~= seq![head]);
        assert(seq![head].drop_last() =~= Seq::empty());
        assert(text::concat(seq![head].drop_last()) =~= Seq::empty());
        assert(text::concat(seq![head]) =~= head);
        assert(head + text::concat(tail) =~= head);
    } else {
        lemma_concat_cons(head, tail.drop_last());
        assert((seq![head] + tail).drop_last() =~= seq![head] + tail.drop_last());
        assert(head + text::concat(tail.drop_last()) + tail.last() =~= head + (text::concat(
            tail.drop_last(),
        ) + tail.last()));
    }
}

proof fn lemma_chunks_keep_all(rest: Seq<char>)
    ensures
        text::concat(chunks(rest)) == rest,
        forall|i: int|
            0 <= i < chunks(rest).len() ==> 0 < (#[trigger] chunks(rest)[i]).len()
                <= TELEGRAM_MAX_MESSAGE_LENGTH - TELEGRAM_CONTINUATION_OVERHEAD,
    decreases rest.len(),
{
    if rest.len() == 0 {
        assert(text::concat(chunks(rest)) =~= rest);
    } else {
        lemma_chunk_end(rest);
        let e = chunk_end(rest);
        lemma_chunks_keep_all(rest.skip(e));
        lemma_concat_cons(rest.take(e), chunks(rest.skip(e)));
        assert(rest.take(e) + rest.skip(e) =~= rest);
        assert forall|i: int| 0 <= i < chunks(rest).len() implies 0 < (#[trigger] chunks(rest)[i]).len()
            <= TELEGRAM_MAX_MESSAGE_LENGTH - TELEGRAM_CONTINUATION_OVERHEAD by {
            if i > 0 {
                assert(chunks(rest)[i] == chunks(rest.skip(e))[i - 1]);
            }
        }
    }
}

/// The parts of a message, one after the other, are the message: nothing is lost
/// and nothing is added.
pub proof fn law_parts_preserve_message(message: Seq<char>)
    ensures
        text::concat(message_parts(message)) == message,
{
    if message.len() <= TELEGRAM_MAX_MESSAGE_LENGTH {
        lemma_concat_cons(message, Seq::empty());
        assert(seq![message] + Seq::<Seq<char>>::empty() =~= seq![message]);
        assert(text::concat(Seq::<Seq<char>>::empty()) =~= Seq::empty());
        assert(message + text::concat(Seq::<Seq<char>>::empty()) =~= message);
    } else {
        lemma_chunks_keep_all(message);
    }
}

/// No part of a message that is not empty is empty.
pub proof fn law_parts_are_not_empty(message: Seq<char>, i: int)
    requires
        message.len() > 0,
        0 <= i < message_parts(message).len(),
    ensures
        message_parts(message)[i].len() > 0,
{
    if message.len() > TELEGRAM_MAX_MESSAGE_LENGTH {
        lemma_chunks_keep_all(message);
    }
}

/// The part `i` of a message with the marks that say that more goes before it or
/// comes behind it.
pub open spec fn marked_part(parts: Seq<Seq<char>>, i: int) -> Seq<char> {
    if parts.len() <= 1 {
        parts[i]
    } else if i == 0 {
        parts[i] + "\n\n(continues...)"@
    } else if i == parts.len() - 1 {
        "(continued)\n\n"@ + parts[i]
    } else {
        "(continued)\n\n"@ + parts[i] + "\n\n(continues...)"@
    }
}

/// Every part of a message, with its marks, fits into one Telegram message.
pub proof fn law_marked_parts_fit(message: Seq<char>, i: int)
    requires
        0 <= i < message_parts(message).len(),
    ensures
        marked_part(message_parts(message), i).len() <= TELEGRAM_MAX_MESSAGE_LENGTH,
{
    reveal_strlit("\n\n(continues...)");
    reveal_strlit("(continued)\n\n");
    if message.len() > TELEGRAM_MAX_MESSAGE_LENGTH {
        lemma_chunks_keep_all(message);
        if chunks(message).len() == 1 {
            lemma_concat_cons(chunks(message)[0], Seq::empty());
            assert(seq![chunks(message)[0]] + Seq::<Seq<char>>::empty() =~= chunks(message));
            assert(text::concat(Seq::<Seq<char>>::empty()) =~= Seq::empty());
            assert(chunks(message)[0] + text::concat(Seq::<Seq<char>>::empty()) =~= chunks(
                message,
            )[0]);
        }
    }
}

/// The part `index` of a message with its marks.
pub fn mark_part(parts: &Vec<String>, index: usize) -> (r: String)
    requires
        index < parts@.len(),
    ensures
        r@ == marked_part(text::texts(parts@), index as int),
{
    let chunk = parts[index].as_str();
    if parts.len() > 1 {
        if index == 0 {
            cat(chunk, "\n\n(continues...)")
        } else if index == parts.len() - 1 {
            cat("(continued)\n\n", chunk)
        } else {
            cat3("(continued)\n\n", chunk, "\n\n(continues...)")
        }
    } else {
        parts[index].clone()
    }
}

// Markers of the tool loop.

/// Whether a line is a marker of the tool loop and nothing else.
pub open spec fn is_marker_line(trimmed: Seq<char>) -> bool {
    ||| text::starts_with(trimmed, "[tool_result]"@)
    ||| text::starts_with(trimmed, "[tool_failure]"@)
    ||| text::starts_with(trimmed, "[tool_loop_guard]"@)
    ||| text::starts_with(trimmed, "[tool_loop_warning]"@)
}

/// The rest of a text behind a prefix, where it begins with an opening brace and ends
/// with a closing one.
pub open spec fn braced_rest(trimmed: Seq<char>, prefix: Seq<char>) -> Option<Seq<char>> {
    if text::starts_with(trimmed, prefix) {
        let rest = trimmed.skip(prefix.len() as int);
        if rest.len() > 0 && rest[0] == '{' && rest.last() == '}' {
            Some(rest)
        } else {
            None
        }
    } else {
        None
    }
}

/// The payload of a tool status line, `[ok] {..}`, `[error] {..}` or
/// `[failed] {..}`.
pub open spec fn marker_payload(trimmed: Seq<char>) -> Option<Seq<char>> {
    if braced_rest(trimmed, "[ok] "@) is Some {
        braced_rest(trimmed, "[ok] "@)
    } else if braced_rest(trimmed, "[error] "@) is Some {
        braced_rest(trimmed, "[error] "@)
    } else {
        braced_rest(trimmed, "[failed] "@)
    }
}

fn rest_in_braces(v: &Vec<char>, prefix: &str) -> (r: Option<String>)
    ensures
        text::opt_text(r) == braced_rest(v@, prefix@),
{
    if !has_prefix(v, prefix) {
        return None;
    }
    let p = chars_of(prefix);
    let rest = part(v, p.len(), v.len());
    assert(rest@ =~= v@.skip(p@.len() as int));
    if rest.len() > 0 && rest[0] == '{' && rest[rest.len() - 1] == '}' {
        Some(to_text(&rest))
    } else {
        None
    }
}

/// The payload of a tool status line; any other line has none.
pub fn extract_marker_json_payload(trimmed: &str) -> (r: Option<String>)
    ensures
        text::opt_text(r) == marker_payload(trimmed@),
{
    let v = chars_of(trimmed);
    let ok = rest_in_braces(&v, "[ok] ");
    if ok.is_some() {
        return ok;
    }
    let error = rest_in_braces(&v, "[error] ");
    if error.is_some() {
        return error;
    }
    rest_in_braces(&v, "[failed] ")
}

/// The text under `key`, or an empty one.
pub open spec fn text_or_empty(value: JsonView, key: Seq<char>) -> Seq<char> {
    match value.str_at(key) {
        Some(s) => s,
        None => Seq::empty(),
    }
}

/// The tool that a marker payload names.
pub open spec fn marker_tool(payload: JsonView) -> Seq<char> {
    let named = match payload.get("tool"@) {
        Some(v) => Some(v),
        None => payload.get("tool_name"@),
    };
    match named {
        Some(JsonView::Text(s)) => s,
        _ => "tool"@,
    }
}

/// What a marker payload says to a reader; `inner` is the value that its payload
/// summary denotes.
pub open spec fn payload_summary(payload: JsonView, inner: Option<JsonView>) -> Option<Seq<char>> {
    let tool = marker_tool(payload);
    let status = text_or_empty(payload, "status"@);
    let fallback = if status.len() > 0 {
        Some("The "@ + tool + " call "@ + status + "."@)
    } else {
        None
    };
    match inner {
        Some(v) => {
            let stderr = text_or_empty(v, "stderr"@);
            let stdout = text_or_empty(v, "stdout"@);
            if stderr.len() > 0 {
                Some(
                    "The "@ + tool + " command "@ + status + ": "@ + text::truncated(
                        text::trim(stderr),
                        200,
                    ),
                )
            } else if stdout.len() > 0 {
                Some(
                    "The "@ + tool + " command returned: "@ + text::truncated(
                        text::trim(stdout),
                        200,
                    ),
                )
            } else {
                match v.i64_at("exit_code"@) {
                    Some(code) => Some(
                        "The "@ + tool + " command exited with code "@ + text::int_text(code)
                            + "."@,
                    ),
                    None => fallback,
                }
            }
        },
        None => fallback,
    }
}

/// The value that the payload summary of a marker payload denotes.
pub open spec fn inner_payload(payload: JsonView) -> Option<JsonView> {
    match payload.str_at("payload_summary"@) {
        Some(s) => match json::parsed_json(s) {
            Ok(v) => Some(v),
            Err(_) => None,
        },
        None => None,
    }
}

/// What the payload of a tool status line says to a reader.
pub open spec fn marker_summary(payload: Seq<char>) -> Option<Seq<char>> {
    match json::parsed_json(payload) {
        Ok(v) => payload_summary(v, inner_payload(v)),
        Err(_) => None,
    }
}

fn str_or_empty<'a>(value: &'a Json, key: &str) -> (r: &'a str)
    ensures
        r@ == text_or_empty(value@, key@),
{
    match value.str_at(key) {
        Some(s) => s,
        None => {
            proof {
                reveal_strlit("");
                assert(""@ =~= Seq::empty());
            }
            ""
        },
    }
}

/// What a marker payload says to a reader; `inner` is the value that its payload
/// summary denotes.
pub fn summarize_payload(payload: &Json, inner: Option<&Json>) -> (r: Option<String>)
    ensures
        text::opt_text(r) == payload_summary(
            payload@,
            (match inner {
                Some(v) => Some(v@),
                None => None,
            }),
        ),
{
    let named = match payload.get("tool") {
        Some(v) => Some(v),
        None => payload.get("tool_name"),
    };
    let tool: &str = match named {
        Some(v) => match v.as_str() {
            Some(s) => s,
            None => "tool",
        },
        None => "tool",
    };
    let status = str_or_empty(payload, "status");
    if let Some(v) = inner {
        let stderr = str_or_empty(v, "stderr");
        let stdout = str_or_empty(v, "stdout");
        if !stderr.is_empty() {
            let body = trimmed_str(stderr);
            let brief = truncate_chars(body.as_str(), 200);
            let head = cat4("The ", tool, " command ", status);
            return Some(cat3(head.as_str(), ": ", brief.as_str()));
        }
        if !stdout.is_empty() {
            let body = trimmed_str(stdout);
            let brief = truncate_chars(body.as_str(), 200);
            return Some(cat4("The ", tool, " command returned: ", brief.as_str()));
        }
        if let Some(code) = v.i64_at("exit_code") {
            let number = integer_text(code);
            return Some(cat5("The ", tool, " command exited with code ", number.as_str(), "."));
        }
    }
    if !status.is_empty() {
        Some(cat5("The ", tool, " call ", status, "."))
    } else {
        None
    }
}

/// What the payload of a tool status line says to a reader.
pub fn summarize_marker_payload(json_str: &str) -> (r: Option<String>)
    ensures
        text::opt_text(r) == marker_summary(json_str@),
{
    let payload = match parse_json(json_str) {
        Ok(v) => v,
        Err(_) => {
            return None;
        },
    };
    if let Some(s) = payload.str_at("payload_summary") {
        if let Ok(inner) = parse_json(s) {
            return summarize_payload(&payload, Some(&inner));
        }
    }
    summarize_payload(&payload, None)
}

/// The lines that are no markers.
pub open spec fn kept_text(l: Seq<Seq<char>>) -> Seq<char>
    decreases l.len(),
{
    if l.len() == 0 {
        Seq::empty()
    } else {
        let before = kept_text(l.drop_last());
        let line = text::trim(l.last());
        if is_marker_line(line) || marker_payload(line) is Some {
            before
        } else if before.len() == 0 {
            l.last()
        } else {
            before.push('\n') + l.last()
        }
    }
}

/// The payloads of the tool status lines.
pub open spec fn marker_payloads(l: Seq<Seq<char>>) -> Seq<Seq<char>>
    decreases l.len(),
{
    if l.len() == 0 {
        Seq::empty()
    } else {
        let before = marker_payloads(l.drop_last());
        let line = text::trim(l.last());
        if is_marker_line(line) {
            before
        } else {
            match marker_payload(line) {
                Some(p) => before.push(p),
                None => before,
            }
        }
    }
}

/// The summaries of those payloads that have one.
pub open spec fn summaries(p: Seq<Seq<char>>) -> Seq<Seq<char>>
    decreases p.len(),
{
    if p.len() == 0 {
        Seq::empty()
    } else {
        match marker_summary(p.last()) {
            Some(s) => summaries(p.drop_last()).push(s),
            None => summaries(p.drop_last()),
        }
    }
}

/// The reply that is shown: what was kept, else the summaries, else a fixed text.
pub open spec fn shown_reply(kept: Seq<char>, found: Seq<Seq<char>>) -> Seq<char> {
    if text::trim(kept).len() > 0 {
        text::trim(kept)
    } else if found.len() > 0 {
        text::join(found, "\n"@)
    } else {
        "(no response text)"@
    }
}

/// A reply without the markers of the tool loop.
pub open spec fn sanitized(s: Seq<char>) -> Seq<char> {
    shown_reply(
        kept_text(text::lines(s)),
        summaries(marker_payloads(text::lines(s))),
    )
}

/// A reply parted into the text that is kept and the payloads of its tool status
/// lines.
pub fn strip_tool_markers(s: &str) -> (r: (String, Vec<String>))
    ensures
        r.0@ == kept_text(text::lines(s@)),
        text::texts(r.1@) == marker_payloads(text::lines(s@)),
{
    let v = chars_of(s);
    let l = lines_of(&v);
    let ghost all = text::pieces(l@);
    let mut kept: Vec<char> = Vec::new();
    let mut payloads: Vec<String> = Vec::new();
    let mut i: usize = 0;
    assert(text::texts(payloads@) =~= marker_payloads(all.take(0)));
    while i < l.len()
        invariant
            i <= l@.len(),
            all == text::pieces(l@),
            kept@ == kept_text(all.take(i as int)),
            text::texts(payloads@) == marker_payloads(all.take(i as int)),
        decreases l@.len() - i,
    {
        assert(all.take(i + 1).drop_last() =~= all.take(i as int));
        let line = trimmed(&l[i]);
        let ghost before = kept@;
        i += 1;
        if has_prefix(&line, "[tool_result]") || has_prefix(&line, "[tool_failure]") || has_prefix(
            &line,
            "[tool_loop_guard]",
        ) || has_prefix(&line, "[tool_loop_warning]") {
            continue;
        }
        let line_text = to_text(&line);
        if let Some(p) = extract_marker_json_payload(line_text.as_str()) {
            proof {
                text::lemma_texts_push(payloads@, p);
            }
            payloads.push(p);
            continue;
        }
        if kept.len() > 0 {
            kept.push('\n');
            assert(kept@ =~= before.push('\n'));
        }
        extend(&mut kept, &l[i - 1]);
        assert(before.len() == 0 ==> kept@ =~= l@[i - 1]@);
    }
    assert(all.take(i as int) =~= all);
    (to_text(&kept), payloads)
}

/// The summaries of those payloads that have one.
pub fn summarize_payloads(payloads: &Vec<String>) -> (r: Vec<String>)
    ensures
        text::texts(r@) == summaries(text::texts(payloads@)),
{
    let ghost all = text::texts(payloads@);
    let mut r: Vec<String> = Vec::new();
    let mut i: usize = 0;
    assert(text::texts(r@) =~= summaries(all.take(0)));
    while i < payloads.len()
        invariant
            i <= payloads@.len(),
            all == text::texts(payloads@),
            text::texts(r@) == summaries(all.take(i as int)),
        decreases payloads@.len() - i,
    {
        assert(all.take(i + 1).drop_last() =~= all.take(i as int));
        if let Some(s) = summarize_marker_payload(payloads[i].as_str()) {
            proof {
                text::lemma_texts_push(r@, s);
            }
            r.push(s);
        }
        i += 1;
    }
    assert(all.take(i as int) =~= all);
    r
}

/// The reply that is shown: what was kept, else the summaries, else a fixed text.
pub fn reply_or_summaries(kept: &str, found: &Vec<String>) -> (r: String)
    ensures
        r@ == shown_reply(kept@, text::texts(found@)),
{
    let body = trimmed_str(kept);
    if !body.as_str().is_empty() {
        return body;
    }
    if found.len() > 0 {
        return joined_texts(found, "\n");
    }
    "(no response text)".to_owned()
}

/// A reply without the markers of the tool loop, which no user should see. Where
/// nothing else is left, what the markers' payloads say.
pub fn sanitize_tool_markers(s: &str) -> (r: String)
    ensures
        r@ == sanitized(s@),
{
    let (kept, payloads) = strip_tool_markers(s);
    let found = summarize_payloads(&payloads);
    reply_or_summaries(kept.as_str(), &found)
}

/// Whether a line of a text stands between two positions.
pub open spec fn is_line(t: Seq<char>, a: int, b: int) -> bool {
    &&& 0 <= a <= b <= t.len()
    &&& a == 0 || t[a - 1] == '\n'
    &&& b == t.len() || t[b] == '\n'
    &&& forall|k: int| a <= k < b ==> #[trigger] t[k] != '\n'
}

/// Whether a line is neither a marker nor a tool status line.
pub open spec fn is_clean(line: Seq<char>) -> bool {
    !is_marker_line(text::trim(line)) && marker_payload(text::trim(line)) is None
}

/// Whether no line of a text is a marker or a tool status line.
pub open spec fn has_no_markers(t: Seq<char>) -> bool {
    forall|a: int, b: int| #[trigger] is_line(t, a, b) ==> is_clean(t.subrange(a, b))
}

proof fn lemma_empty_is_clean()
    ensures
        is_clean(Seq::empty()),
{
    reveal_strlit("[tool_result]");
    reveal_strlit("[tool_failure]");
    reveal_strlit("[tool_loop_guard]");
    reveal_strlit("[tool_loop_warning]");
    reveal_strlit("[ok] ");
    reveal_strlit("[error] ");
    reveal_strlit("[failed] ");
    let e = Seq::<char>::empty();
    assert(text::trim(e) =~= e);
}

proof fn lemma_kept_has_no_markers(l: Seq<Seq<char>>)
    requires
        forall|i: int, k: int|
            0 <= i < l.len() && 0 <= k < l[i].len() ==> #[trigger] l[i][k] != '\n',
    ensures
        has_no_markers(kept_text(l)),
    decreases l.len(),
{
    let t = kept_text(l);
    if l.len() == 0 {
        lemma_empty_is_clean();
        assert forall|a: int, b: int| #[trigger] is_line(t, a, b) implies is_clean(
            t.subrange(a, b),
        ) by {
            assert(t.subrange(a, b) =~= Seq::empty());
        }
    } else {
        let init = l.drop_last();
        assert forall|i: int, k: int| 0 <= i < init.len() && 0 <= k < init[i].len() implies
            #[trigger] init[i][k] != '\n' by {
            assert(l[i][k] != '\n');
        }
        lemma_kept_has_no_markers(init);
        let before = kept_text(init);
        let last = l.last();
        let n = l.len() - 1;
        if is_clean(last) {
            assert forall|a: int, b: int| #[trigger] is_line(t, a, b) implies is_clean(
                t.subrange(a, b),
            ) by {
                if before.len() == 0 {
                    assert(t == last);
                    if a > 0 {
                        assert(l[n][a - 1] != '\n');
                    }
                    if b < t.len() {
                        assert(l[n][b] != '\n');
                    }
                    assert(t.subrange(a, b) =~= last);
                } else {
                    assert(t == before.push('\n') + last);
                    let m = before.len() as int;
                    assert(t[m] == '\n');
                    if b <= m {
                        assert forall|k: int| 0 <= k < m implies t[k] == before[k] by {}
                        assert(is_line(before, a, b)) by {
                            if b < m {
                                assert(t[b] == before[b]);
                            }
                            if a > 0 {
                                assert(t[a - 1] == before[a - 1]);
                            }
                            assert forall|k: int| a <= k < b implies #[trigger] before[k]
                                != '\n' by {
                                assert(t[k] == before[k]);
                            }
                        }
                        assert(t.subrange(a, b) =~= before.subrange(a, b));
                    } else {
                        assert(a > m);
                        if a > m + 1 {
                            assert(t[a - 1] == l[n][a - 1 - (m + 1)]);
                        }
                        if b < t.len() {
                            assert(t[b] == l[n][b - (m + 1)]);
                        }
                        assert(t.subrange(a, b) =~= last);
                    }
                }
            }
        }
    }
}

proof fn lemma_line_start(t: Seq<char>, p: int) -> (a: int)
    requires
        0 <= p <= t.len(),
    ensures
        0 <= a <= p,
        a == 0 || t[a - 1] == '\n',
        forall|k: int| a <= k < p ==> #[trigger] t[k] != '\n',
    decreases p,
{
    if p == 0 || t[p - 1] == '\n' {
        p
    } else {
        lemma_line_start(t, p - 1)
    }
}

proof fn lemma_line_end(t: Seq<char>, q: int) -> (b: int)
    requires
        0 <= q <= t.len(),
    ensures
        q <= b <= t.len(),
        b == t.len() || t[b] == '\n',
        forall|k: int| q <= k < b ==> #[trigger] t[k] != '\n',
    decreases t.len() - q,
{
    if q == t.len() || t[q] == '\n' {
        q
    } else {
        lemma_line_end(t, q + 1)
    }
}

proof fn lemma_trimmed_has_no_markers(t: Seq<char>)
    requires
        has_no_markers(t),
    ensures
        has_no_markers(text::trim(t)),
{
    let (p, q) = text::lemma_trim_at(t);
    let s = text::trim(t);
    assert forall|a: int, b: int| #[trigger] is_line(s, a, b) implies is_clean(
        s.subrange(a, b),
    ) by {
        let a0 = if a == 0 {
            lemma_line_start(t, p)
        } else {
            a + p
        };
        let b0 = if b == s.len() {
            lemma_line_end(t, q)
        } else {
            b + p
        };
        assert forall|k: int| a0 <= k < b0 implies #[trigger] t[k] != '\n' by {
            if a + p <= k < b + p {
                assert(s[k - p] == t[k]);
            }
        }
        if a > 0 {
            assert(s[a - 1] == t[a0 - 1]);
        }
        if b < s.len() {
            assert(s[b] == t[b0]);
        }
        assert(is_line(t, a0, b0));
        let x = s.subrange(a, b);
        let w1 = t.subrange(a0, a + p);
        let w2 = t.subrange(b + p, b0);
        assert(t.subrange(a0, b0) =~= w1 + x + w2);
        assert forall|i: int| 0 <= i < w1.len() implies text::is_whitespace(#[trigger] w1[i]) by {
            assert(w1[i] == t.take(p)[a0 + i]);
        }
        assert forall|i: int| 0 <= i < w2.len() implies text::is_whitespace(#[trigger] w2[i]) by {
            assert(w2[i] == t.skip(q)[b + p + i - q]);
        }
        text::lemma_trim_between_blanks(w1, x, w2);
    }
}

proof fn lemma_fixed_reply_has_no_markers()
    ensures
        has_no_markers("(no response text)"@),
{
    let t = "(no response text)"@;
    reveal_strlit("(no response text)");
    reveal_strlit("[tool_result]");
    reveal_strlit("[tool_failure]");
    reveal_strlit("[tool_loop_guard]");
    reveal_strlit("[tool_loop_warning]");
    reveal_strlit("[ok] ");
    reveal_strlit("[error] ");
    reveal_strlit("[failed] ");
    text::lemma_trim_stays(t);
    assert(forall|k: int| 0 <= k < t.len() ==> #[trigger] t[k] != '\n');
    assert(t[0] == '(');
    assert("[tool_result]"@[0] == '[' && "[tool_failure]"@[0] == '[');
    assert("[tool_loop_guard]"@[0] == '[' && "[tool_loop_warning]"@[0] == '[');
    assert("[ok] "@[0] == '[' && "[error] "@[0] == '[' && "[failed] "@[0] == '[');
    assert forall|p: Seq<char>| #[trigger] text::starts_with(t, p) && p.len() > 0 implies p[0]
        == '(' by {
        assert(t.subrange(0, p.len() as int)[0] == t[0]);
    }
    assert(is_clean(t));
    assert forall|a: int, b: int| #[trigger] is_line(t, a, b) implies is_clean(
        t.subrange(a, b),
    ) by {
        assert(t.subrange(a, b) =~= t);
    }
}

/// No marker of the tool loop and no tool status line reaches the user, unless what the
/// tools themselves said is all there is to show and holds one.
pub proof fn law_markers_do_not_reach_the_user(s: Seq<char>)
    requires
        ({
            let l = text::lines(s);
            let found = summaries(marker_payloads(l));
            ||| text::trim(kept_text(l)).len() > 0
            ||| found.len() == 0
            ||| has_no_markers(text::join(found, "\n"@))
        }),
    ensures
        has_no_markers(sanitized(s)),
{
    let l = text::lines(s);
    text::lemma_lines_hold_no_breaks(s);
    lemma_kept_has_no_markers(l);
    lemma_trimmed_has_no_markers(kept_text(l));
    lemma_fixed_reply_has_no_markers();
}

proof fn lemma_summaries_are_not_empty(p: Seq<Seq<char>>)
    ensures
        forall|i: int| 0 <= i < summaries(p).len() ==> (#[trigger] summaries(p)[i]).len() > 0,
    decreases p.len(),
{
    if p.len() > 0 {
        reveal_strlit("The ");
        let before = summaries(p.drop_last());
        lemma_summaries_are_not_empty(p.drop_last());
        if let Some(t) = marker_summary(p.last()) {
            assert(t.len() > 0);
            assert(summaries(p) == before.push(t));
            assert forall|i: int| 0 <= i < summaries(p).len() implies (#[trigger] summaries(
                p,
            )[i]).len() > 0 by {
                if i < before.len() {
                    assert(summaries(p)[i] == before[i]);
                }
            }
        }
    }
}

/// A reply is never empty, whatever the provider and its tools said.
pub proof fn law_replies_are_not_empty(s: Seq<char>)
    ensures
        sanitized(s).len() > 0,
{
    let found = summaries(marker_payloads(text::lines(s)));
    lemma_summaries_are_not_empty(marker_payloads(text::lines(s)));
    reveal_strlit("(no response text)");
    if found.len() > 0 {
        assert(found.last().len() > 0);
    }
}

// Targets.

/// What a target id of a Telegram conversation names: a chat, and a thread in it.
pub open spec fn target_value(id: Seq<char>) -> Result<(int, Option<int>), Seq<char>> {
    let t = text::trim(id);
    if t.len() == 0 {
        Err("telegram target id is empty"@)
    } else {
        match text::find_char(t, ':', 0) {
            Some(k) => {
                let chat = t.take(k);
                let thread = t.skip(k + 1);
                match text::i64_value(chat) {
                    None => Err(
                        "invalid telegram chat id `"@ + chat + "`: "@ + text::i64_parse_error(chat),
                    ),
                    Some(c) => match text::i64_value(thread) {
                        None => Err(
                            "invalid telegram thread id `"@ + thread + "`: "@
                                + text::i64_parse_error(thread),
                        ),
                        Some(n) => Ok((c, Some(n))),
                    },
                }
            },
            None => match text::i64_value(t) {
                None => Err("invalid telegram chat id `"@ + t + "`: "@ + text::i64_parse_error(t)),
                Some(c) => Ok((c, None)),
            },
        }
    }
}

/// The view of a chat and a thread in it.
pub open spec fn target_view(r: Result<(i64, Option<i64>), String>) -> Result<
    (int, Option<int>),
    Seq<char>,
> {
    match r {
        Ok((c, Some(n))) => Ok((c as int, Some(n as int))),
        Ok((c, None)) => Ok((c as int, None)),
        Err(e) => Err(e@),
    }
}

/// The chat, and the thread in it, that a target id names.
pub fn parse_telegram_target(target_id: &str) -> (r: Result<(i64, Option<i64>), String>)
    ensures
        target_view(r) == target_value(target_id@),
{
    let v = chars_of(target_id);
    let t = trimmed(&v);
    if t.len() == 0 {
        return Err("telegram target id is empty".to_owned());
    }
    match position_of(&t, ':', 0) {
        Some(k) => {
            let n: usize = t.len();
            let chat = string_of(&t, 0, k);
            let thread = string_of(&t, k + 1, n);
            assert(chat@ =~= t@.take(k as int));
            assert(thread@ =~= t@.skip(k + 1));
            let chat_id: i64 = match parse_i64(chat.as_str()) {
                Ok(c) => c,
                Err(e) => {
                    return Err(
                        cat4("invalid telegram chat id `", chat.as_str(), "`: ", e.as_str()),
                    );
                },
            };
            let thread_id: i64 = match parse_i64(thread.as_str()) {
                Ok(c) => c,
                Err(e) => {
                    return Err(
                        cat4("invalid telegram thread id `", thread.as_str(), "`: ", e.as_str()),
                    );
                },
            };
            Ok((chat_id, Some(thread_id)))
        },
        None => {
            let id = to_text(&t);
            match parse_i64(id.as_str()) {
                Ok(c) => Ok((c, None)),
                Err(e) => Err(cat4("invalid telegram chat id `", id.as_str(), "`: ", e.as_str())),
            }
        },
    }
}

/// The target of a text that is sent by command.
pub fn build_telegram_send_target(
    target_kind: ChannelOutboundTargetKind,
    target_id: &str,
) -> (r: Result<ChannelOutboundTarget, String>)
    ensures
        (match r {
            Ok(t) => {
                &&& target_kind is Conversation
                &&& text::trim(target_id@).len() > 0
                &&& t.platform == ChannelPlatform::Telegram
                &&& t.kind == target_kind
                &&& t.id@ == text::trim(target_id@)
            },
            Err(e) => if target_kind is Conversation {
                &&& text::trim(target_id@).len() == 0
                &&& e@ == "telegram outbound target id is empty"@
            } else {
                e@ == "telegram send requires conversation target kind, got "@ + target_kind.name()
            },
        }),
{
    match target_kind {
        ChannelOutboundTargetKind::Conversation => {
            let id = trimmed_str(target_id);
            if id.as_str().is_empty() {
                return Err("telegram outbound target id is empty".to_owned());
            }
            Ok(
                ChannelOutboundTarget {
                    platform: ChannelPlatform::Telegram,
                    kind: ChannelOutboundTargetKind::Conversation,
                    id,
                },
            )
        },
        ChannelOutboundTargetKind::Other(name) => Err(
            cat("telegram send requires conversation target kind, got ", name.as_str()),
        ),
    }
}

// Request bodies.

/// The entries that a message body ends with.
pub open spec fn body_options(
    disable_preview: bool,
    thread_id: Option<int>,
) -> Seq<(Seq<char>, JsonView)> {
    let preview = if disable_preview {
        seq![("disable_web_page_preview"@, JsonView::Bool(true))]
    } else {
        Seq::empty()
    };
    match thread_id {
        Some(t) => preview.push(("message_thread_id"@, JsonView::Integer(t))),
        None => preview,
    }
}

/// The body of a message in HTML.
pub open spec fn html_body(
    chat_id: int,
    html: Seq<char>,
    thread_id: Option<int>,
    disable_preview: bool,
) -> JsonView {
    JsonView::Object(
        seq![
            ("chat_id"@, JsonView::Integer(chat_id)),
            ("text"@, JsonView::Text(html)),
            ("parse_mode"@, JsonView::Text("HTML"@)),
        ] + body_options(disable_preview, thread_id),
    )
}

/// The body of a message in plain text.
pub open spec fn plain_body(
    chat_id: int,
    plain: Seq<char>,
    thread_id: Option<int>,
    disable_preview: bool,
) -> JsonView {
    JsonView::Object(
        seq![
            ("chat_id"@, JsonView::Integer(chat_id)),
            ("text"@, JsonView::Text(plain)),
        ] + body_options(disable_preview, thread_id),
    )
}

/// The view of an optional integer.
pub open spec fn opt_int(o: Option<i64>) -> Option<int> {
    match o {
        Some(n) => Some(n as int),
        None => None,
    }
}

fn push_options(v: &mut Vec<(String, Json)>, disable_preview: bool, thread_id: Option<i64>)
    ensures
        json::entries(final(v)@) == json::entries(old(v)@) + body_options(
            disable_preview,
            opt_int(thread_id),
        ),
{
    if disable_preview {
        push_entry(v, "disable_web_page_preview", Json::Bool(true));
    }
    if let Some(t) = thread_id {
        push_entry(v, "message_thread_id", Json::Signed(t));
    }
    assert(json::entries(v@) =~= json::entries(old(v)@) + body_options(
        disable_preview,
        opt_int(thread_id),
    ));
}

/// The body of a message in HTML.
pub fn build_telegram_message_body(
    chat_id: i64,
    html: &str,
    thread_id: Option<i64>,
    disable_web_page_preview: bool,
) -> (r: Json)
    ensures
        r@ == html_body(chat_id as int, html@, opt_int(thread_id), disable_web_page_preview),
{
    let mut v = no_entries();
    push_entry(&mut v, "chat_id", Json::Signed(chat_id));
    push_entry(&mut v, "text", text_value(html));
    push_entry(&mut v, "parse_mode", text_value("HTML"));
    assert(json::entries(v@) =~= seq![
        ("chat_id"@, JsonView::Integer(chat_id as int)),
        ("text"@, JsonView::Text(html@)),
        ("parse_mode"@, JsonView::Text("HTML"@)),
    ]);
    push_options(&mut v, disable_web_page_preview, thread_id);
    object(v)
}

/// The body of a message in plain text.
pub fn build_telegram_plaintext_message_body(
    chat_id: i64,
    plain: &str,
    thread_id: Option<i64>,
    disable_web_page_preview: bool,
) -> (r: Json)
    ensures
        r@ == plain_body(chat_id as int, plain@, opt_int(thread_id), disable_web_page_preview),
{
    let mut v = no_entries();
    push_entry(&mut v, "chat_id", Json::Signed(chat_id));
    push_entry(&mut v, "text", text_value(plain));
    assert(json::entries(v@) =~= seq![
        ("chat_id"@, JsonView::Integer(chat_id as int)),
        ("text"@, JsonView::Text(plain@)),
    ]);
    push_options(&mut v, disable_web_page_preview, thread_id);
    object(v)
}

/// The address of a method of the bot interface.
pub fn api_url(base_url: &str, token: &str, method: &str) -> (r: String)
    ensures
        r@ == text::trim_end_char(base_url@, '/') + "/bot"@ + token@ + "/"@ + method@,
{
    let v = chars_of(base_url);
    let base = trimmed_end_char(&v, '/');
    let base_text = to_text(&base);
    cat5(base_text.as_str(), "/bot", token, "/", method)
}

// Updates.

/// One more, where an `i64` holds it.
pub open spec fn successor(n: int) -> int {
    if n >= i64::MAX {
        i64::MAX as int
    } else {
        n + 1
    }
}

/// One less, where an `i64` holds it.
pub open spec fn predecessor(n: int) -> int {
    if n <= i64::MIN {
        i64::MIN as int
    } else {
        n - 1
    }
}

/// The number of an update.
pub open spec fn update_id(update: JsonView) -> int {
    match update.i64_at("update_id"@) {
        Some(n) => n,
        None => 0,
    }
}

/// The message of an update.
pub open spec fn update_message(update: JsonView) -> JsonView {
    match update.get("message"@) {
        Some(m) => m,
        None => JsonView::Null,
    }
}

/// The chat of a message.
pub open spec fn chat_of(message: JsonView) -> int {
    match message.get("chat"@) {
        Some(chat) => match chat.i64_at("id"@) {
            Some(n) => n,
            None => 0,
        },
        None => 0,
    }
}

/// The text of a message, where there is more to it than white space.
pub open spec fn message_text(message: JsonView) -> Option<Seq<char>> {
    match message.str_at("text"@) {
        Some(s) => if text::trim(s).len() > 0 {
            Some(text::trim(s))
        } else {
            None
        },
        None => None,
    }
}

/// An optional integer in decimal notation.
pub open spec fn opt_int_text(o: Option<int>) -> Option<Seq<char>> {
    match o {
        Some(n) => Some(text::int_text(n)),
        None => None,
    }
}

/// The message that comes in with an update: a text from an allowed chat.
pub open spec fn inbound_of(
    update: JsonView,
    allowed: Set<i64>,
    account_id: Seq<char>,
) -> Option<InboundView> {
    let message = update_message(update);
    let chat = chat_of(message);
    match message_text(message) {
        Some(t) => if allowed.contains(chat as i64) {
            let thread = opt_int_text(message.i64_at("message_thread_id"@));
            Some(
                InboundView {
                    platform: PlatformView::Telegram,
                    account_id,
                    conversation_id: text::int_text(chat),
                    thread_id: thread,
                    reply_platform: PlatformView::Telegram,
                    reply_kind: TargetKindView::Conversation,
                    reply_id: match thread {
                        Some(n) => text::int_text(chat) + ":"@ + n,
                        None => text::int_text(chat),
                    },
                    text: t,
                    ack_cursor: Some(text::int_text(successor(update_id(update)))),
                    source_message_id: opt_int_text(message.i64_at("message_id"@)),
                    sender_principal_key: None,
                    thread_root_id: None,
                    parent_message_id: None,
                },
            )
        } else {
            None
        },
        None => None,
    }
}

/// The messages that come in with a list of updates, in its order.
pub open spec fn inbox_of(
    updates: Seq<JsonView>,
    allowed: Set<i64>,
    account_id: Seq<char>,
) -> Seq<InboundView>
    decreases updates.len(),
{
    if updates.len() == 0 {
        Seq::empty()
    } else {
        let before = inbox_of(updates.drop_last(), allowed, account_id);
        match inbound_of(updates.last(), allowed, account_id) {
            Some(m) => before.push(m),
            None => before,
        }
    }
}

/// The greatest of `start` and the numbers of the updates.
pub open spec fn greatest_update(updates: Seq<JsonView>, start: int) -> int
    decreases updates.len(),
{
    if updates.len() == 0 {
        start
    } else {
        let before = greatest_update(updates.drop_last(), start);
        if update_id(updates.last()) > before {
            update_id(updates.last())
        } else {
            before
        }
    }
}

/// The offset to poll from next, where the updates move it.
pub open spec fn next_offset(updates: Seq<JsonView>, current: int) -> Option<int> {
    let greatest = greatest_update(updates, predecessor(current));
    if greatest >= current {
        Some(successor(greatest))
    } else {
        None
    }
}

/// Whether an answer of the bot interface reports success.
pub open spec fn answer_ok(payload: JsonView) -> bool {
    payload.bool_at("ok"@) == Some(true)
}

/// The updates of an answer.
pub open spec fn updates_of(payload: JsonView) -> Seq<JsonView> {
    match payload.array_at("result"@) {
        Some(v) => v,
        None => Seq::empty(),
    }
}

/// Whether an answer of the bot interface reports success.
pub fn is_answer_ok(payload: &Json) -> (r: bool)
    ensures
        r == answer_ok(payload@),
{
    match payload.bool_at("ok") {
        Some(b) => b,
        None => false,
    }
}

fn optional_integer_text(n: Option<i64>) -> (r: Option<String>)
    ensures
        text::opt_text(r) == opt_int_text(opt_int(n)),
{
    match n {
        Some(n) => Some(integer_text(n)),
        None => None,
    }
}

/// The message that comes in with an update: a text from an allowed chat.
pub fn parse_telegram_update(update: &Json, allowlist: &BTreeSet<i64>, account_id: &str) -> (r:
    Option<ChannelInboundMessage>)
    ensures
        (match r {
            Some(m) => inbound_of(update@, allowlist@, account_id@) == Some(m@),
            None => inbound_of(update@, allowlist@, account_id@) is None,
        }),
{
    broadcast use vstd::std_specs::btree::group_btree_axioms;

    let message = match update.get("message") {
        Some(m) => m,
        None => {
            return None;
        },
    };
    let body = match message.str_at("text") {
        Some(s) => trimmed_str(s),
        None => {
            return None;
        },
    };
    if body.as_str().is_empty() {
        return None;
    }
    let chat_id: i64 = match message.get("chat") {
        Some(chat) => match chat.i64_at("id") {
            Some(n) => n,
            None => 0,
        },
        None => 0,
    };
    if !allowlist.contains(&chat_id) {
        return None;
    }
    let number: i64 = match update.i64_at("update_id") {
        Some(n) => n,
        None => 0,
    };
    let cursor: i64 = if number == i64::MAX {
        i64::MAX
    } else {
        number + 1
    };
    let thread_id = optional_integer_text(message.i64_at("message_thread_id"));
    let chat_text = integer_text(chat_id);
    let reply_id = match &thread_id {
        Some(t) => cat3(chat_text.as_str(), ":", t.as_str()),
        None => integer_text(chat_id),
    };
    Some(
        ChannelInboundMessage {
            session: ChannelSession {
                platform: ChannelPlatform::Telegram,
                account_id: account_id.to_owned(),
                conversation_id: chat_text,
                thread_id,
            },
            reply_target: ChannelOutboundTarget {
                platform: ChannelPlatform::Telegram,
                kind: ChannelOutboundTargetKind::Conversation,
                id: reply_id,
            },
            text: body,
            delivery: ChannelDelivery {
                ack_cursor: Some(integer_text(cursor)),
                source_message_id: optional_integer_text(message.i64_at("message_id")),
                sender_principal_key: None,
                thread_root_id: None,
                parent_message_id: None,
            },
        },
    )
}

/// The messages that came in with an answer to a poll, and the offset to poll from
/// next, where the answer moves it.
pub fn parse_telegram_updates(
    payload: &Json,
    allowlist: &BTreeSet<i64>,
    current_offset: i64,
    account_id: &str,
) -> (r: Result<(Vec<ChannelInboundMessage>, Option<i64>), String>)
    ensures
        (match r {
            Ok((inbox, next)) => {
                &&& answer_ok(payload@)
                &&& super::inbound_views(inbox@) == inbox_of(
                    updates_of(payload@),
                    allowlist@,
                    account_id@,
                )
                &&& opt_int(next) == next_offset(updates_of(payload@), current_offset as int)
            },
            Err(e) => !answer_ok(payload@) && e@ == "telegram getUpdates not ok: "@
                + json::rendered_json(payload@),
        }),
{
    if !is_answer_ok(payload) {
        let shown = render_json(payload);
        return Err(cat("telegram getUpdates not ok: ", shown.as_str()));
    }
    let mut inbox: Vec<ChannelInboundMessage> = Vec::new();
    let mut greatest: i64 = if current_offset == i64::MIN {
        i64::MIN
    } else {
        current_offset - 1
    };
    let ghost all = updates_of(payload@);
    let ghost start = predecessor(current_offset as int);
    assert(super::inbound_views(inbox@) =~= inbox_of(all.take(0), allowlist@, account_id@));
    if let Some(updates) = payload.array_at("result") {
        let mut i: usize = 0;
        while i < updates.len()
            invariant
                i <= updates@.len(),
                all == json::values(updates@),
                super::inbound_views(inbox@) == inbox_of(
                    all.take(i as int),
                    allowlist@,
                    account_id@,
                ),
                greatest == greatest_update(all.take(i as int), start),
            decreases updates@.len() - i,
        {
            assert(all.take(i + 1).drop_last() =~= all.take(i as int));
            let number: i64 = match updates[i].i64_at("update_id") {
                Some(n) => n,
                None => 0,
            };
            if number > greatest {
                greatest = number;
            }
            if let Some(m) = parse_telegram_update(&updates[i], allowlist, account_id) {
                assert(super::inbound_views(inbox@.push(m)) =~= super::inbound_views(inbox@).push(
                    m@,
                ));
                inbox.push(m);
            }
            i += 1;
        }
        assert(all.take(i as int) =~= all);
    } else {
        assert(all.take(0) =~= all);
    }
    let next: Option<i64> = if greatest >= current_offset {
        Some(
            if greatest == i64::MAX {
                i64::MAX
            } else {
                greatest + 1
            },
        )
    } else {
        None
    };
    Ok((inbox, next))
}

proof fn lemma_greatest_update(updates: Seq<JsonView>, start: int)
    requires
        i64::MIN <= start <= i64::MAX,
    ensures
        start <= greatest_update(updates, start) <= i64::MAX,
        forall|i: int|
            0 <= i < updates.len() ==> update_id(#[trigger] updates[i]) <= greatest_update(
                updates,
                start,
            ),
    decreases updates.len(),
{
    if updates.len() > 0 {
        lemma_greatest_update(updates.drop_last(), start);
        assert forall|i: int| 0 <= i < updates.len() implies update_id(#[trigger] updates[i])
            <= greatest_update(updates, start) by {
            if i < updates.len() - 1 {
                assert(updates.drop_last()[i] == updates[i]);
            }
        }
    }
}

/// The offset to poll from next lies behind the current one and behind every
/// update of the answer, up to the greatest number there is.
pub proof fn law_next_offset_passes_every_update(updates: Seq<JsonView>, current: int)
    requires
        i64::MIN <= current <= i64::MAX,
    ensures
        next_offset(updates, current) matches Some(n) ==> {
            &&& n >= successor(current)
            &&& forall|i: int|
                0 <= i < updates.len() ==> n >= successor(update_id(#[trigger] updates[i]))
        },
        next_offset(updates, current) is None ==> forall|i: int|
            0 <= i < updates.len() ==> update_id(#[trigger] updates[i]) < current,
{
    lemma_greatest_update(updates, predecessor(current));
}

/// Every message that comes in is that of an update whose chat is allowed.
pub proof fn law_inbox_holds_allowed_chats_only(
    updates: Seq<JsonView>,
    allowed: Set<i64>,
    account_id: Seq<char>,
    k: int,
) -> (i: int)
    requires
        0 <= k < inbox_of(updates, allowed, account_id).len(),
    ensures
        0 <= i < updates.len(),
        allowed.contains(chat_of(update_message(updates[i])) as i64),
        inbound_of(updates[i], allowed, account_id) == Some(
            inbox_of(updates, allowed, account_id)[k],
        ),
    decreases updates.len(),
{
    let before = inbox_of(updates.drop_last(), allowed, account_id);
    if k < before.len() {
        let i = law_inbox_holds_allowed_chats_only(updates.drop_last(), allowed, account_id, k);
        assert(updates[i] == updates.drop_last()[i]);
        i
    } else {
        updates.len() - 1
    }
}

/// Every text of an update whose chat is allowed comes in.
pub proof fn law_allowed_texts_come_in(
    updates: Seq<JsonView>,
    allowed: Set<i64>,
    account_id: Seq<char>,
    i: int,
) -> (k: int)
    requires
        0 <= i < updates.len(),
        message_text(update_message(updates[i])) is Some,
        allowed.contains(chat_of(update_message(updates[i])) as i64),
    ensures
        0 <= k < inbox_of(updates, allowed, account_id).len(),
        inbound_of(updates[i], allowed, account_id) == Some(
            inbox_of(updates, allowed, account_id)[k],
        ),
    decreases updates.len(),
{
    if i < updates.len() - 1 {
        assert(updates[i] == updates.drop_last()[i]);
        let k = law_allowed_texts_come_in(updates.drop_last(), allowed, account_id, i);
        k
    } else {
        inbox_of(updates, allowed, account_id).len() - 1
    }
}

proof fn lemma_target_of_numbers(chat: int, thread: Option<int>)
    requires
        i64::MIN <= chat <= i64::MAX,
        thread matches Some(n) ==> i64::MIN <= n <= i64::MAX,
    ensures
        ({
            let id = match thread {
                Some(n) => text::int_text(chat) + ":"@ + text::int_text(n),
                None => text::int_text(chat),
            };
            target_value(id) == Ok::<(int, Option<int>), Seq<char>>((chat, thread))
        }),
{
    let c = text::int_text(chat);
    text::law_integers_are_read_back(chat);
    match thread {
        Some(n) => {
            let d = text::int_text(n);
            text::law_integers_are_read_back(n);
            reveal_strlit(":");
            let id = c + ":"@ + d;
            assert(id[0] == c[0]);
            assert(id.last() == d.last());
            assert(d.last() == d[d.len() - 1]);
            text::lemma_trim_stays(id);
            text::lemma_find_char_bounds(id, ':', 0);
            assert(id[c.len() as int] == ':');
            assert forall|j: int| 0 <= j < c.len() implies #[trigger] id[j] != ':' by {
                assert(id[j] == c[j]);
            }
            let k = text::find_char(id, ':', 0)->0;
            assert(k == c.len());
            assert(id.take(k) =~= c);
            assert(id.skip(k + 1) =~= d);
        },
        None => {
            text::lemma_find_char_bounds(c, ':', 0);
            if let Some(k) = text::find_char(c, ':', 0) {
                assert(c[k] == ':');
            }
        },
    }
}

/// The reply to a message goes to the chat and the thread that the message came from.
pub proof fn law_replies_reach_their_chat(
    update: JsonView,
    allowed: Set<i64>,
    account_id: Seq<char>,
)
    requires
        inbound_of(update, allowed, account_id) is Some,
    ensures
        target_value(inbound_of(update, allowed, account_id)->0.reply_id) == Ok::<
            (int, Option<int>),
            Seq<char>,
        >((chat_of(update_message(update)), update_message(update).i64_at("message_thread_id"@))),
{
    let message = update_message(update);
    lemma_target_of_numbers(chat_of(message), message.i64_at("message_thread_id"@));
}

/// The cursor of a message is understood: it names the offset behind its update.
pub proof fn law_cursors_are_understood(
    update: JsonView,
    allowed: Set<i64>,
    account_id: Seq<char>,
)
    requires
        inbound_of(update, allowed, account_id) is Some,
    ensures
        inbound_of(update, allowed, account_id)->0.ack_cursor matches Some(c) && text::i64_value(
            text::trim(c),
        ) == Some(successor(update_id(update))),
{
    text::law_integers_are_read_back(successor(update_id(update)));
}

/// The chats and messages that get a reaction once a batch is done.
pub open spec fn reaction_of(message: InboundView) -> Option<(int, int)> {
    match (text::i64_value(message.conversation_id), message.source_message_id) {
        (Some(chat), Some(id)) => match text::i64_value(id) {
            Some(n) => Some((chat, n)),
            None => None,
        },
        _ => None,
    }
}

/// Every message that has a number gets a reaction in its chat.
pub proof fn law_numbered_messages_get_a_reaction(
    update: JsonView,
    allowed: Set<i64>,
    account_id: Seq<char>,
)
    requires
        inbound_of(update, allowed, account_id) is Some,
    ensures
        reaction_of(inbound_of(update, allowed, account_id)->0) == (match update_message(
            update,
        ).i64_at("message_id"@) {
            Some(n) => Some((chat_of(update_message(update)), n)),
            None => None,
        }),
{
    let message = update_message(update);
    text::law_integers_are_read_back(chat_of(message));
    if let Some(n) = message.i64_at("message_id"@) {
        text::law_integers_are_read_back(n);
    }
}

/// The chats and messages that get a reaction once a batch is done, in order.
pub open spec fn reactions_of(inbox: Seq<InboundView>) -> Seq<(int, int)>
    decreases inbox.len(),
{
    if inbox.len() == 0 {
        Seq::empty()
    } else {
        match reaction_of(inbox.last()) {
            Some(p) => reactions_of(inbox.drop_last()).push(p),
            None => reactions_of(inbox.drop_last()),
        }
    }
}

/// The view of a list of pairs.
pub open spec fn pair_views(v: Seq<(i64, i64)>) -> Seq<(int, int)> {
    Seq::new(v.len(), |i: int| (v[i].0 as int, v[i].1 as int))
}

/// The chats and messages that get a reaction once a batch is done.
pub fn pending_reactions(inbox: &Vec<ChannelInboundMessage>) -> (r: Vec<(i64, i64)>)
    ensures
        pair_views(r@) == reactions_of(super::inbound_views(inbox@)),
{
    let ghost all = super::inbound_views(inbox@);
    let mut r: Vec<(i64, i64)> = Vec::new();
    let mut i: usize = 0;
    assert(pair_views(r@) =~= reactions_of(all.take(0)));
    while i < inbox.len()
        invariant
            i <= inbox@.len(),
            all == super::inbound_views(inbox@),
            pair_views(r@) == reactions_of(all.take(i as int)),
        decreases inbox@.len() - i,
    {
        assert(all.take(i + 1).drop_last() =~= all.take(i as int));
        let message = &inbox[i];
        i += 1;
        let chat_id: i64 = match parse_i64(message.session.conversation_id.as_str()) {
            Ok(n) => n,
            Err(_) => {
                continue;
            },
        };
        let message_id: i64 = match &message.delivery.source_message_id {
            Some(s) => match parse_i64(s.as_str()) {
                Ok(n) => n,
                Err(_) => {
                    continue;
                },
            },
            None => {
                continue;
            },
        };
        assert(pair_views(r@.push((chat_id, message_id))) =~= pair_views(r@).push(
            (chat_id as int, message_id as int),
        ));
        r.push((chat_id, message_id));
    }
    assert(all.take(i as int) =~= all);
    r
}

// The offset to poll from.

/// The offset to poll from: the one that is saved, and the one that a batch under
/// way will bring once it is done.
pub struct TelegramOffsetTracker {
    current_offset: i64,
    pending_batch_offset: Option<i64>,
}

/// The offset to save: the given one, where it lies behind the saved one.
pub open spec fn offset_to_save(current: int, next: Option<int>) -> Option<int> {
    match next {
        Some(n) => if n > current {
            Some(n)
        } else {
            None
        },
        None => None,
    }
}

impl TelegramOffsetTracker {
    /// The saved offset.
    pub closed spec fn current(&self) -> int {
        self.current_offset as int
    }

    /// The offset of the batch under way.
    pub closed spec fn pending(&self) -> Option<int> {
        opt_int(self.pending_batch_offset)
    }

    pub fn new(current_offset: i64) -> (r: Self)
        ensures
            r.current() == current_offset,
            r.pending() is None,
    {
        TelegramOffsetTracker { current_offset, pending_batch_offset: None }
    }

    pub fn current_offset(&self) -> (r: i64)
        ensures
            r == self.current(),
    {
        self.current_offset
    }

    /// Keeps the offset that a poll brought until the batch is done, where it lies
    /// behind the saved one.
    pub fn remember_polled_offset(&mut self, next_offset: Option<i64>)
        ensures
            final(self).current() == old(self).current(),
            final(self).pending() == offset_to_save(old(self).current(), opt_int(next_offset)),
            final(self).pending() == (match next_offset {
                Some(n) => if n > old(self).current() {
                    Some(n as int)
                } else {
                    None
                },
                None => None,
            }),
    {
        self.pending_batch_offset = match next_offset {
            Some(n) => if n > self.current_offset {
                Some(n)
            } else {
                None
            },
            None => None,
        };
    }

    /// The offset to save once a message is handled: the one that its cursor
    /// names, where it lies behind the saved one.
    pub fn ack_delivery(&self, ack_cursor: Option<&str>) -> (r: Result<Option<i64>, String>)
        ensures
            ({
                let raw = match ack_cursor {
                    Some(s) => text::trim(s@),
                    None => Seq::empty(),
                };
                &&& r matches Ok(o) ==> opt_int(o) == offset_to_save(
                    self.current(),
                    text::i64_value(raw),
                )
                &&& match r {
                    Ok(Some(n)) => text::i64_value(raw) == Some(n as int) && n > self.current(),
                    Ok(None) => raw.len() == 0 || (text::i64_value(raw) matches Some(n) && n
                        <= self.current()),
                    Err(e) => raw.len() > 0 && text::i64_value(raw) is None && e@
                        == "invalid telegram ack cursor `"@ + raw + "`: "@ + text::i64_parse_error(
                        raw,
                    ),
                }
            }),
    {
        let raw = match ack_cursor {
            Some(s) => trimmed_str(s),
            None => {
                return Ok(None);
            },
        };
        if raw.as_str().is_empty() {
            return Ok(None);
        }
        match parse_i64(raw.as_str()) {
            Ok(n) => Ok(self.persist_if_newer(n)),
            Err(e) => Err(
                cat4("invalid telegram ack cursor `", raw.as_str(), "`: ", e.as_str()),
            ),
        }
    }

    /// Ends the batch under way: the offset to save, where it lies behind the saved
    /// one.
    pub fn complete_batch(&mut self) -> (r: Option<i64>)
        ensures
            final(self).current() == old(self).current(),
            final(self).pending() is None,
            opt_int(r) == offset_to_save(old(self).current(), old(self).pending()),
            opt_int(r) == (match old(self).pending() {
                Some(n) => if n > old(self).current() {
                    Some(n)
                } else {
                    None
                },
                None => None,
            }),
    {
        let pending = self.pending_batch_offset;
        self.pending_batch_offset = None;
        match pending {
            Some(n) => self.persist_if_newer(n),
            None => None,
        }
    }

    /// The offset to save: the given one, where it lies behind the saved one.
    pub fn persist_if_newer(&self, next_offset: i64) -> (r: Option<i64>)
        ensures
            opt_int(r) == offset_to_save(self.current(), Some(next_offset as int)),
            opt_int(r) == (if next_offset > self.current() {
                Some(next_offset as int)
            } else {
                None
            }),
    {
        if next_offset <= self.current_offset {
            None
        } else {
            Some(next_offset)
        }
    }

    /// Takes note that an offset was saved.
    pub fn saved(&mut self, offset: i64)
        requires
            offset > old(self).current(),
        ensures
            final(self).current() == offset,
            final(self).pending() == old(self).pending(),
    {
        self.current_offset = offset;
    }
}

/// The name of the file that keeps the offset of an account.
pub fn offset_file_name(account_id: &str) -> (r: String)
    ensures
        r@ == text::trim(account_id@) + ".offset"@,
{
    let id = trimmed_str(account_id);
    cat(id.as_str(), ".offset")
}

/// The offset that the contents of such a file name.
pub fn parse_offset(raw: &str) -> (r: Option<i64>)
    ensures
        opt_int(r) == text::i64_value(text::trim(raw@)),
{
    let body = trimmed_str(raw);
    match parse_i64(body.as_str()) {
        Ok(n) => Some(n),
        Err(_) => None,
    }
}

/// The contents of such a file.
pub fn offset_text(offset: i64) -> (r: String)
    ensures
        r@ == text::int_text(offset as int),
{
    integer_text(offset)
}

/// An offset that was written is read back.
pub proof fn law_offsets_are_read_back(offset: i64)
    ensures
        text::i64_value(text::trim(text::int_text(offset as int))) == Some(offset as int),
{
    text::law_integers_are_read_back(offset as int);
}

// Sending.

/// What a reply is before it is split: never empty, and without markers.
pub open spec fn outgoing_text(s: Seq<char>) -> Seq<char> {
    sanitized(
        if text::trim(s).len() == 0 {
            "(no response text)"@
        } else {
            s
        },
    )
}

/// What a reply is before it is split: never empty, and without markers.
pub fn prepare_outgoing_text(s: &str) -> (r: String)
    ensures
        r@ == outgoing_text(s@),
{
    let body = trimmed_str(s);
    if body.as_str().is_empty() {
        sanitize_tool_markers("(no response text)")
    } else {
        sanitize_tool_markers(s)
    }
}

/// The text of a message that has one.
pub open spec fn message_body(message: ChannelOutboundMessage) -> Option<Seq<char>> {
    match message {
        ChannelOutboundMessage::Text(s) => Some(s@),
        ChannelOutboundMessage::MarkdownCard(s) => Some(s@),
        _ => None,
    }
}

/// The name of a kind of message that has no text.
pub open spec fn message_kind_name(message: ChannelOutboundMessage) -> Seq<char> {
    match message {
        ChannelOutboundMessage::Post => "Post"@,
        ChannelOutboundMessage::Image => "Image"@,
        _ => "File"@,
    }
}

/// Why a target is none that this channel sends to.
pub open spec fn target_refusal(target: ChannelOutboundTarget) -> Option<Seq<char>> {
    if target.platform !is Telegram {
        Some("telegram adapter cannot send to "@ + target.platform.name() + " target"@)
    } else if target.kind !is Conversation {
        Some("telegram adapter requires conversation target, got "@ + target.kind.name())
    } else {
        None
    }
}

fn refuse_target(target: &ChannelOutboundTarget) -> (r: Option<String>)
    ensures
        text::opt_text(r) == target_refusal(*target),
{
    match &target.platform {
        ChannelPlatform::Telegram => {},
        ChannelPlatform::Other(_) => {
            return Some(
                cat3("telegram adapter cannot send to ", target.platform.as_str(), " target"),
            );
        },
    }
    match &target.kind {
        ChannelOutboundTargetKind::Conversation => None,
        ChannelOutboundTargetKind::Other(_) => Some(
            cat("telegram adapter requires conversation target, got ", target.kind.as_str()),
        ),
    }
}

/// What is to be sent: to which chat and thread, and in which parts.
#[verifier::ext_equal]
pub struct SendPlanView {
    pub chat_id: int,
    pub thread_id: Option<int>,
    pub parts: Seq<Seq<char>>,
}

/// What is to be sent for a message, or why nothing is.
pub open spec fn send_plan(
    target: ChannelOutboundTarget,
    message: ChannelOutboundMessage,
) -> Result<SendPlanView, Seq<char>> {
    if target_refusal(target) is Some {
        Err(target_refusal(target)->0)
    } else {
        match message_body(message) {
            None => Err(
                "telegram adapter does not support "@ + message_kind_name(message)
                    + " outbound messages"@,
            ),
            Some(s) => match target_value(target.id@) {
                Err(e) => Err(e),
                Ok((chat_id, thread_id)) => Ok(
                    SendPlanView { chat_id, thread_id, parts: message_parts(outgoing_text(s)) },
                ),
            },
        }
    }
}

/// A message under way: its parts go out one after the other, each in HTML and,
/// where that is refused, in plain text.
pub struct TelegramSend {
    chat_id: i64,
    thread_id: Option<i64>,
    parts: Vec<String>,
    index: usize,
    plain: bool,
}

/// What the channel does next with a message under way.
pub enum SendAction {
    /// Post this body.
    Post(Json),
    /// Wait a moment, then post this body.
    PauseAndPost(Json),
    Done,
    Fail(String),
}

/// What a `SendAction` is.
pub enum SendActionView {
    Post(JsonView),
    PauseAndPost(JsonView),
    Done,
    Fail(Seq<char>),
}

impl SendAction {
    pub open spec fn view(&self) -> SendActionView {
        match self {
            SendAction::Post(j) => SendActionView::Post(j@),
            SendAction::PauseAndPost(j) => SendActionView::PauseAndPost(j@),
            SendAction::Done => SendActionView::Done,
            SendAction::Fail(s) => SendActionView::Fail(s@),
        }
    }
}

/// The body with which a part of a message is posted.
pub open spec fn part_body(plan: SendPlanView, index: int, plain: bool) -> JsonView {
    let marked = marked_part(plan.parts, index);
    if plain {
        plain_body(plan.chat_id, marked, plan.thread_id, true)
    } else {
        html_body(plan.chat_id, markdown::telegram_html(marked), plan.thread_id, true)
    }
}

/// What a `TelegramSend` is: what is sent, the part under way, and whether that part goes out
/// in plain text.
#[verifier::ext_equal]
pub struct SendView {
    pub plan: SendPlanView,
    pub position: int,
    pub plain: bool,
}

/// A message under way after the answer to a post, and what the channel does next.
pub open spec fn after_post(s: SendView, payload: JsonView) -> (SendView, SendActionView) {
    let next = s.position + 1;
    if answer_ok(payload) {
        if next < s.plan.parts.len() {
            (
                SendView { position: next, plain: false, ..s },
                SendActionView::PauseAndPost(part_body(s.plan, next, false)),
            )
        } else {
            (s, SendActionView::Done)
        }
    } else if !s.plain {
        (
            SendView { plain: true, ..s },
            SendActionView::Post(part_body(s.plan, s.position, true)),
        )
    } else {
        (
            s,
            SendActionView::Fail(
                "telegram sendMessage not ok: "@ + json::rendered_json(payload),
            ),
        )
    }
}

impl TelegramSend {
    pub closed spec fn view(&self) -> SendView {
        SendView {
            plan: SendPlanView {
                chat_id: self.chat_id as int,
                thread_id: opt_int(self.thread_id),
                parts: text::texts(self.parts@),
            },
            position: self.index as int,
            plain: self.plain,
        }
    }

    pub open spec fn wf(&self) -> bool {
        0 <= self@.position < self@.plan.parts.len()
    }

    /// The message under way, before anything was posted.
    pub fn start(target: &ChannelOutboundTarget, message: &ChannelOutboundMessage) -> (r: Result<
        TelegramSend,
        String,
    >)
        ensures
            (match r {
                Ok(send) => {
                    &&& send.wf()
                    &&& send_plan(*target, *message) == Ok::<SendPlanView, Seq<char>>(send@.plan)
                    &&& send@.position == 0
                    &&& !send@.plain
                },
                Err(e) => send_plan(*target, *message) == Err::<SendPlanView, Seq<char>>(e@),
            }),
    {
        if let Some(e) = refuse_target(target) {
            return Err(e);
        }
        let body: &String = match message {
            ChannelOutboundMessage::Text(s) => s,
            ChannelOutboundMessage::MarkdownCard(s) => s,
            ChannelOutboundMessage::Post => {
                return Err(cat3("telegram adapter does not support ", "Post", " outbound messages"));
            },
            ChannelOutboundMessage::Image => {
                return Err(
                    cat3("telegram adapter does not support ", "Image", " outbound messages"),
                );
            },
            ChannelOutboundMessage::File => {
                return Err(cat3("telegram adapter does not support ", "File", " outbound messages"));
            },
        };
        let (chat_id, thread_id): (i64, Option<i64>) = match parse_telegram_target(
            target.id.as_str(),
        ) {
            Ok(t) => t,
            Err(e) => {
                return Err(e);
            },
        };
        let prepared = prepare_outgoing_text(body.as_str());
        let parts = split_message_for_telegram(prepared.as_str());
        assert(text::texts(parts@).len() > 0);
        let send = TelegramSend { chat_id, thread_id, parts, index: 0, plain: false };
        Ok(send)
    }

    /// The body to post now.
    pub fn request(&self) -> (r: Json)
        requires
            self.wf(),
        ensures
            r@ == part_body(self@.plan, self@.position, self@.plain),
    {
        let marked = mark_part(&self.parts, self.index);
        if self.plain {
            build_telegram_plaintext_message_body(
                self.chat_id,
                marked.as_str(),
                self.thread_id,
                true,
            )
        } else {
            let html = markdown_to_telegram_html(marked.as_str());
            build_telegram_message_body(self.chat_id, html.as_str(), self.thread_id, true)
        }
    }

    /// What to do after the answer to a post: the next part after a success, the
    /// same part in plain text where HTML was refused, else give up.
    pub fn on_answer(&mut self, payload: &Json) -> (r: SendAction)
        requires
            old(self).wf(),
        ensures
            final(self).wf(),
            (final(self)@, r@) == after_post(old(self)@, payload@),
            final(self)@.plan == old(self)@.plan,
            ({
                let at = old(self)@.position;
                let plan = old(self)@.plan;
                if answer_ok(payload@) {
                    if at + 1 < plan.parts.len() {
                        &&& final(self)@.position == at + 1
                        &&& !final(self)@.plain
                        &&& r@ == SendActionView::PauseAndPost(part_body(plan, at + 1, false))
                    } else {
                        &&& final(self)@.position == at
                        &&& final(self)@.plain == old(self)@.plain
                        &&& r@ == SendActionView::Done
                    }
                } else if !old(self)@.plain {
                    &&& final(self)@.position == at
                    &&& final(self)@.plain
                    &&& r@ == SendActionView::Post(part_body(plan, at, true))
                } else {
                    &&& final(self)@.position == at
                    &&& final(self)@.plain
                    &&& r@ == SendActionView::Fail(
                        "telegram sendMessage not ok: "@ + json::rendered_json(payload@),
                    )
                }
            }),
    {
        if is_answer_ok(payload) {
            if self.index < self.parts.len() - 1 {
                self.index = self.index + 1;
                self.plain = false;
                SendAction::PauseAndPost(self.request())
            } else {
                SendAction::Done
            }
        } else if !self.plain {
            self.plain = true;
            SendAction::Post(self.request())
        } else {
            let shown = render_json(payload);
            SendAction::Fail(cat("telegram sendMessage not ok: ", shown.as_str()))
        }
    }
}

// Drafts.

/// What to do with a message that may be streamed.
pub enum StreamingPlan {
    /// Send it in one go.
    Whole,
    /// Send a draft to this chat and thread, then put this text in its place.
    Draft { chat_id: i64, thread_id: Option<i64>, text: String },
}

/// Where a draft of a message goes and what it says, or why there is none; nothing where the
/// message is sent in one go.
pub open spec fn draft_of(
    mode: ChannelStreamingMode,
    target: ChannelOutboundTarget,
    message: ChannelOutboundMessage,
) -> Result<Option<(int, Option<int>, Seq<char>)>, Seq<char>> {
    if mode is Off {
        Ok(None)
    } else if target_refusal(target) is Some {
        Err(target_refusal(target)->0)
    } else {
        match message_body(message) {
            None => Err("telegram streaming does not support this message type"@),
            Some(s) => match target_value(target.id@) {
                Ok((chat_id, thread_id)) => Ok(Some((chat_id, thread_id, s))),
                Err(e) => Err(e),
            },
        }
    }
}

/// What to do with a message that may be streamed, or why nothing can be done.
pub fn plan_streaming(
    mode: ChannelStreamingMode,
    target: &ChannelOutboundTarget,
    message: &ChannelOutboundMessage,
) -> (r: Result<StreamingPlan, String>)
    ensures
        draft_of(mode, *target, *message) == (match r {
            Ok(StreamingPlan::Whole) => Ok(None),
            Ok(StreamingPlan::Draft { chat_id, thread_id, text }) => Ok(
                Some((chat_id as int, opt_int(thread_id), text@)),
            ),
            Err(e) => Err(e@),
        }),
        (match r {
            Ok(StreamingPlan::Whole) => mode is Off,
            Ok(StreamingPlan::Draft { chat_id, thread_id, text }) => {
                &&& mode is Draft
                &&& target_refusal(*target) is None
                &&& message_body(*message) == Some(text@)
                &&& target_value(target.id@) == Ok::<(int, Option<int>), Seq<char>>(
                    (chat_id as int, opt_int(thread_id)),
                )
            },
            Err(e) => {
                &&& mode is Draft
                &&& (match target_refusal(*target) {
                    Some(refusal) => e@ == refusal,
                    None => if message_body(*message) is None {
                        e@ == "telegram streaming does not support this message type"@
                    } else {
                        target_value(target.id@) == Err::<(int, Option<int>), Seq<char>>(e@)
                    },
                })
            },
        }),
{
    if let ChannelStreamingMode::Off = mode {
        return Ok(StreamingPlan::Whole);
    }
    if let Some(e) = refuse_target(target) {
        return Err(e);
    }
    let body: &String = match message {
        ChannelOutboundMessage::Text(s) => s,
        ChannelOutboundMessage::MarkdownCard(s) => s,
        _ => {
            return Err("telegram streaming does not support this message type".to_owned());
        },
    };
    match parse_telegram_target(target.id.as_str()) {
        Ok((chat_id, thread_id)) => Ok(
            StreamingPlan::Draft { chat_id, thread_id, text: body.clone() },
        ),
        Err(e) => Err(e),
    }
}

/// What the channel does next with a draft under way.
pub enum DraftAction {
    /// Post this body.
    Post(Json),
    /// The draft is there, under this number.
    Sent(String),
    Fail(String),
}

/// What a `DraftAction` is.
pub enum DraftActionView {
    Post(JsonView),
    Sent(Seq<char>),
    Fail(Seq<char>),
}

impl DraftAction {
    pub open spec fn view(&self) -> DraftActionView {
        match self {
            DraftAction::Post(j) => DraftActionView::Post(j@),
            DraftAction::Sent(s) => DraftActionView::Sent(s@),
            DraftAction::Fail(s) => DraftActionView::Fail(s@),
        }
    }
}

/// The number of the message that an answer reports.
pub open spec fn answered_message_id(payload: JsonView) -> Option<int> {
    match payload.get("result"@) {
        Some(v) => v.i64_at("message_id"@),
        None => None,
    }
}

/// What to do after the answer to the post of a draft.
pub open spec fn draft_step(
    chat_id: int,
    thread_id: Option<int>,
    prepared: Seq<char>,
    plain: bool,
    payload: JsonView,
) -> DraftActionView {
    if answer_ok(payload) {
        match answered_message_id(payload) {
            Some(n) => DraftActionView::Sent(text::int_text(n)),
            None => DraftActionView::Fail("telegram sendMessage response missing message_id"@),
        }
    } else if plain {
        DraftActionView::Fail("telegram sendMessage not ok: "@ + json::rendered_json(payload))
    } else {
        DraftActionView::Post(plain_body(chat_id, prepared, thread_id, false))
    }
}

/// The body with which a draft of a prepared text is posted.
pub fn draft_request(chat_id: i64, thread_id: Option<i64>, prepared: &str) -> (r: Json)
    ensures
        r@ == html_body(
            chat_id as int,
            markdown::telegram_html(prepared@),
            opt_int(thread_id),
            false,
        ),
{
    let html = markdown_to_telegram_html(prepared);
    build_telegram_message_body(chat_id, html.as_str(), thread_id, false)
}

/// What to do after the answer to the post of a draft; `plain` says whether it was
/// posted in plain text.
pub fn on_draft_answer(
    chat_id: i64,
    thread_id: Option<i64>,
    prepared: &str,
    plain: bool,
    payload: &Json,
) -> (r: DraftAction)
    ensures
        r@ == draft_step(chat_id as int, opt_int(thread_id), prepared@, plain, payload@),
{
    if is_answer_ok(payload) {
        if let Some(v) = payload.get("result") {
            if let Some(n) = v.i64_at("message_id") {
                return DraftAction::Sent(integer_text(n));
            }
        }
        DraftAction::Fail("telegram sendMessage response missing message_id".to_owned())
    } else if plain {
        let shown = render_json(payload);
        DraftAction::Fail(cat("telegram sendMessage not ok: ", shown.as_str()))
    } else {
        DraftAction::Post(
            build_telegram_plaintext_message_body(chat_id, prepared, thread_id, false),
        )
    }
}

/// Whether a draft may be edited: the first time, and then once the interval has
/// passed since the last edit.
pub fn draft_edit_due(since_last_edit_ms: Option<u64>, interval_ms: u64) -> (r: bool)
    ensures
        r == (match since_last_edit_ms {
            Some(n) => n >= interval_ms,
            None => true,
        }),
{
    match since_last_edit_ms {
        Some(n) => n >= interval_ms,
        None => true,
    }
}

/// The key under which the last edit of a draft is kept.
pub fn draft_key(chat_id: i64, message_id: &str) -> (r: String)
    ensures
        r@ == text::int_text(chat_id as int) + ":"@ + message_id@,
{
    let chat = integer_text(chat_id);
    cat3(chat.as_str(), ":", message_id)
}

/// The body that puts a text in the place of a draft.
pub open spec fn edit_body(chat_id: int, message_id: Seq<char>, body: Seq<char>) -> JsonView {
    JsonView::Object(
        seq![
            ("chat_id"@, JsonView::Integer(chat_id)),
            ("message_id"@, JsonView::Text(message_id)),
            ("text"@, JsonView::Text(markdown::telegram_html(body))),
            ("parse_mode"@, JsonView::Text("HTML"@)),
        ],
    )
}

/// The body that puts a text in the place of a draft.
pub fn edit_request(chat_id: i64, message_id: &str, body: &str) -> (r: Json)
    ensures
        r@ == edit_body(chat_id as int, message_id@, body@),
        r@ == JsonView::Object(
            seq![
                ("chat_id"@, JsonView::Integer(chat_id as int)),
                ("message_id"@, JsonView::Text(message_id@)),
                ("text"@, JsonView::Text(markdown::telegram_html(body@))),
                ("parse_mode"@, JsonView::Text("HTML"@)),
            ],
        ),
{
    let html = markdown_to_telegram_html(body);
    let mut v = no_entries();
    push_entry(&mut v, "chat_id", Json::Signed(chat_id));
    push_entry(&mut v, "message_id", text_value(message_id));
    push_entry(&mut v, "text", text_value(html.as_str()));
    push_entry(&mut v, "parse_mode", text_value("HTML"));
    assert(json::entries(v@) =~= seq![
        ("chat_id"@, JsonView::Integer(chat_id as int)),
        ("message_id"@, JsonView::Text(message_id@)),
        ("text"@, JsonView::Text(html@)),
        ("parse_mode"@, JsonView::Text("HTML"@)),
    ]);
    object(v)
}

/// The body that takes a draft back.
pub open spec fn delete_body(chat_id: int, message_id: Seq<char>) -> JsonView {
    JsonView::Object(
        seq![
            ("chat_id"@, JsonView::Integer(chat_id)),
            ("message_id"@, JsonView::Text(message_id)),
        ],
    )
}

/// The body that takes a draft back.
pub fn delete_request(chat_id: i64, message_id: &str) -> (r: Json)
    ensures
        r@ == delete_body(chat_id as int, message_id@),
        r@ == JsonView::Object(
            seq![
                ("chat_id"@, JsonView::Integer(chat_id as int)),
                ("message_id"@, JsonView::Text(message_id@)),
            ],
        ),
{
    let mut v = no_entries();
    push_entry(&mut v, "chat_id", Json::Signed(chat_id));
    push_entry(&mut v, "message_id", text_value(message_id));
    assert(json::entries(v@) =~= seq![
        ("chat_id"@, JsonView::Integer(chat_id as int)),
        ("message_id"@, JsonView::Text(message_id@)),
    ]);
    object(v)
}

/// Whether the answer to a request reports success, else what to report.
pub fn require_ok(method: &str, payload: &Json) -> (r: Result<(), String>)
    ensures
        (match r {
            Ok(_) => answer_ok(payload@),
            Err(e) => !answer_ok(payload@) && e@ == "telegram "@ + method@ + " not ok: "@
                + json::rendered_json(payload@),
        }),
{
    if is_answer_ok(payload) {
        Ok(())
    } else {
        let shown = render_json(payload);
        Err(cat4("telegram ", method, " not ok: ", shown.as_str()))
    }
}

// Polling and reactions.

/// The seconds that a poll waits: between one and fifty.
pub open spec fn poll_seconds(configured: int) -> int {
    if configured < 1 {
        1
    } else if configured > 50 {
        50
    } else {
        configured
    }
}

/// The seconds that a poll waits: between one and fifty.
pub fn polling_timeout(configured: u64) -> (r: u64)
    ensures
        r == poll_seconds(configured as int),
        r == (if configured < 1 {
            1
        } else if configured > 50 {
            50
        } else {
            configured
        }),
{
    if configured < 1 {
        1
    } else if configured > 50 {
        50
    } else {
        configured
    }
}

/// The body of a poll.
pub open spec fn poll_body(offset: int, timeout_s: int) -> JsonView {
    JsonView::Object(
        seq![
            ("offset"@, JsonView::Integer(offset)),
            ("timeout"@, JsonView::Integer(timeout_s)),
            ("allowed_updates"@, JsonView::Array(seq![JsonView::Text("message"@)])),
        ],
    )
}

/// The body of a poll.
pub fn poll_request(offset: i64, timeout_s: u64) -> (r: Json)
    ensures
        r@ == poll_body(offset as int, timeout_s as int),
        r@ == JsonView::Object(
            seq![
                ("offset"@, JsonView::Integer(offset as int)),
                ("timeout"@, JsonView::Integer(timeout_s as int)),
                ("allowed_updates"@, JsonView::Array(seq![JsonView::Text("message"@)])),
            ],
        ),
{
    let mut kinds = no_values();
    push_value(&mut kinds, text_value("message"));
    assert(json::values(kinds@) =~= seq![JsonView::Text("message"@)]);
    let mut v = no_entries();
    push_entry(&mut v, "offset", Json::Signed(offset));
    push_entry(&mut v, "timeout", Json::Unsigned(timeout_s));
    push_entry(&mut v, "allowed_updates", array(kinds));
    assert(json::entries(v@) =~= seq![
        ("offset"@, JsonView::Integer(offset as int)),
        ("timeout"@, JsonView::Integer(timeout_s as int)),
        ("allowed_updates"@, JsonView::Array(seq![JsonView::Text("message"@)])),
    ]);
    object(v)
}

/// The body that shows that an answer is being written.
pub fn typing_request(chat_id: i64) -> (r: Json)
    ensures
        r@ == JsonView::Object(
            seq![
                ("chat_id"@, JsonView::Integer(chat_id as int)),
                ("action"@, JsonView::Text("typing"@)),
            ],
        ),
{
    let mut v = no_entries();
    push_entry(&mut v, "chat_id", Json::Signed(chat_id));
    push_entry(&mut v, "action", text_value("typing"));
    assert(json::entries(v@) =~= seq![
        ("chat_id"@, JsonView::Integer(chat_id as int)),
        ("action"@, JsonView::Text("typing"@)),
    ]);
    object(v)
}

/// The body that puts a reaction to a message.
pub open spec fn reaction_body(chat_id: int, message_id: int, emoji: Seq<char>) -> JsonView {
    JsonView::Object(
        seq![
            ("chat_id"@, JsonView::Integer(chat_id)),
            ("message_id"@, JsonView::Integer(message_id)),
            (
                "reaction"@,
                JsonView::Array(
                    seq![
                        JsonView::Object(
                            seq![
                                ("type"@, JsonView::Text("emoji"@)),
                                ("emoji"@, JsonView::Text(emoji)),
                            ],
                        ),
                    ],
                ),
            ),
        ],
    )
}

/// The body that puts a reaction to a message.
pub fn reaction_request(chat_id: i64, message_id: i64, emoji: &str) -> (r: Json)
    ensures
        r@ == reaction_body(chat_id as int, message_id as int, emoji@),
        r@ == JsonView::Object(
            seq![
                ("chat_id"@, JsonView::Integer(chat_id as int)),
                ("message_id"@, JsonView::Integer(message_id as int)),
                (
                    "reaction"@,
                    JsonView::Array(
                        seq![
                            JsonView::Object(
                                seq![
                                    ("type"@, JsonView::Text("emoji"@)),
                                    ("emoji"@, JsonView::Text(emoji@)),
                                ],
                            ),
                        ],
                    ),
                ),
            ],
        ),
{
    let mut one = no_entries();
    push_entry(&mut one, "type", text_value("emoji"));
    push_entry(&mut one, "emoji", text_value(emoji));
    assert(json::entries(one@) =~= seq![
        ("type"@, JsonView::Text("emoji"@)),
        ("emoji"@, JsonView::Text(emoji@)),
    ]);
    let one_value = object(one);
    let ghost shown = one_value@;
    let mut all = no_values();
    push_value(&mut all, one_value);
    assert(json::values(all@) =~= seq![shown]);
    let mut v = no_entries();
    push_entry(&mut v, "chat_id", Json::Signed(chat_id));
    push_entry(&mut v, "message_id", Json::Signed(message_id));
    push_entry(&mut v, "reaction", array(all));
    assert(json::entries(v@) =~= seq![
        ("chat_id"@, JsonView::Integer(chat_id as int)),
        ("message_id"@, JsonView::Integer(message_id as int)),
        ("reaction"@, JsonView::Array(seq![shown])),
    ]);
    object(v)
}

/// The number of reactions to choose from.
pub const TELEGRAM_ACK_REACTION_COUNT: usize = 10;

/// The reaction at a position of the list to choose from.
pub open spec fn ack_reaction(index: int) -> Seq<char> {
    if index == 1 {
        "👌"@
    } else if index == 2 {
        "👀"@
    } else if index == 3 {
        "🔥"@
    } else if index == 4 {
        "👍"@
    } else if index == 5 {
        "💪"@
    } else if index == 6 {
        "🤩"@
    } else if index == 7 {
        "😎"@
    } else if index == 8 {
        "🤘"@
    } else if index == 9 {
        "🙌"@
    } else {
        "⚡️"@
    }
}

/// The reaction at a position of the list to choose from.
pub fn ack_reaction_at(index: usize) -> (r: &'static str)
    ensures
        r@ == ack_reaction(index as int),
{
    match index {
        1 => "👌",
        2 => "👀",
        3 => "🔥",
        4 => "👍",
        5 => "💪",
        6 => "🤩",
        7 => "😎",
        8 => "🤘",
        9 => "🙌",
        _ => "⚡️",
    }
}

/// The numbers below which a random number is taken: the greatest multiple of
/// `len` that there is.
pub open spec fn reject_threshold(len: int) -> int {
    (u64::MAX as int / len) * len
}

/// The index that a random number picks, or none where it would favour some.
pub open spec fn picked_index(value: int, len: int) -> Option<int> {
    if value < reject_threshold(len) {
        Some(value % len)
    } else {
        None
    }
}

/// The index that a random number picks, or none where it would favour some.
pub fn uniform_index(value: u64, len: usize) -> (r: Option<usize>)
    requires
        len > 0,
    ensures
        picked_index(value as int, len as int) == (match r {
            Some(i) => Some(i as int),
            None => None,
        }),
        r == (if value < reject_threshold(len as int) {
            Some((value as int % len as int) as usize)
        } else {
            None
        }),
        r matches Some(i) ==> i < len,
{
    let upper: u64 = len as u64;
    let count: u64 = u64::MAX / upper;
    assert(count * upper <= u64::MAX) by (nonlinear_arith)
        requires
            count == u64::MAX / upper,
            upper > 0,
    ;
    if value < count * upper {
        let index: u64 = value % upper;
        Some(index as usize)
    } else {
        None
    }
}

/// `rand::random::<u64>`: a random number.
#[verifier::external_body]
fn random_number() -> u64 {
    rand::random::<u64>()
}

/// An index below `len`, each with the same chance: random numbers are drawn until
/// one is taken.
pub fn pick_uniform_index(len: usize) -> (r: usize)
    requires
        len > 0,
    ensures
        r < len,
{
    let mut draws: u64 = u64::MAX;
    while draws > 0
        invariant
            len > 0,
        decreases draws,
    {
        if let Some(index) = uniform_index(random_number(), len) {
            return index;
        }
        draws -= 1;
    }
    0
}

/// One of the reactions to choose from.
pub fn random_ack_reaction() -> (r: &'static str)
    ensures
        exists|i: int| 0 <= i < TELEGRAM_ACK_REACTION_COUNT && r@ == #[trigger] ack_reaction(i),
{
    let index: usize = pick_uniform_index(TELEGRAM_ACK_REACTION_COUNT);
    ack_reaction_at(index)
}

} // verus!
