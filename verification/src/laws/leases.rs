//! Leases: which tools were found by search, and under which lease they are called.
use crate::json;
use crate::json::JsonView;
use crate::provider::bridge;
use crate::provider::bridge::Leases;
use crate::text;
use crate::tools::catalog;
use vstd::prelude::*;

verus! {

/// A result of a search gives the tool that it names its lease, unless the tool has one
/// already; a result without a tool that can be found, or without a lease, gives none.
pub proof fn law_results_give_leases(
    leases: Leases,
    results: Seq<JsonView>,
    result: JsonView,
    tool: Seq<char>,
    lease: Seq<char>,
    name: Seq<char>,
)
    requires
        result.str_at("tool_id"@) == Some(tool),
        result.str_at("lease"@) == Some(lease),
        catalog::discoverable_name(tool) == Some(name),
    ensures
        ({
            let before = bridge::with_results(leases, results);
            let all = bridge::with_results(leases, results.push(result));
            &&& bridge::lease_of(before, name) is Some ==> all == before
            &&& bridge::lease_of(before, name) is None ==> bridge::lease_of(all, name) == Some(
                lease,
            )
            &&& forall|other: Seq<char>|
                other != name ==> bridge::lease_of(all, other) == #[trigger] bridge::lease_of(
                    before,
                    other,
                )
        }),
{
    assert(results.push(result).drop_last() =~= results);
    let before = bridge::with_results(leases, results);
    assert forall|other: Seq<char>| other != name implies bridge::lease_of(
        bridge::with_results(leases, results.push(result)),
        other,
    ) == #[trigger] bridge::lease_of(before, other) by {
        bridge::law_first_lease_stays(before, name, lease, other);
    }
    bridge::law_first_lease_stays(before, name, lease, name);
}

/// A result that names no tool that can be found, or no lease, changes nothing.
pub proof fn law_other_results_give_none(
    leases: Leases,
    results: Seq<JsonView>,
    result: JsonView,
)
    requires
        result.str_at("tool_id"@) is None || result.str_at("lease"@) is None
            || catalog::discoverable_name(result.str_at("tool_id"@)->0) is None,
    ensures
        bridge::with_results(leases, results.push(result)) == bridge::with_results(leases, results),
        bridge::with_results(leases, Seq::empty()) == leases,
{
    assert(results.push(result).drop_last() =~= results);
}

/// A line that reports a complete search gives the results that its summary lists.
pub proof fn law_searches_are_read_from_their_line(
    line: Seq<char>,
    said: Seq<char>,
    envelope: JsonView,
    summary: Seq<char>,
    payload: JsonView,
)
    requires
        text::trim(line) == "[ok] "@ + said,
        json::parsed_json(said) == Ok::<JsonView, Seq<char>>(envelope),
        envelope.str_at("tool"@) == Some("tool.search"@),
        envelope.str_at("payload_summary"@) == Some(summary),
        json::parsed_json(summary) == Ok::<JsonView, Seq<char>>(payload),
    ensures
        envelope.get("payload_truncated"@) != Some(JsonView::Bool(true)) ==> bridge::line_results(
            line,
        ) == payload.array_at("results"@),
        envelope.get("payload_truncated"@) == Some(JsonView::Bool(true)) ==> bridge::line_results(
            line,
        ) is None,
{
    let t = text::trim(line);
    assert(t.subrange(0, "[ok] "@.len() as int) =~= "[ok] "@);
    assert(t.skip("[ok] "@.len() as int) =~= said);
}

/// A line of another tool, or without the mark of a success, gives nothing.
pub proof fn law_other_lines_give_no_leases(line: Seq<char>, said: Seq<char>, envelope: JsonView)
    ensures
        !text::starts_with(text::trim(line), "[ok] "@) ==> bridge::line_results(line) is None,
        text::trim(line) == "[ok] "@ + said && json::parsed_json(said) == Ok::<JsonView, Seq<char>>(
            envelope,
        ) && envelope.str_at("tool"@) != Some("tool.search"@) ==> bridge::line_results(line)
            is None,
{
    let t = text::trim(line);
    if t == "[ok] "@ + said {
        assert(t.skip("[ok] "@.len() as int) =~= said);
    }
}

/// The leases of lines are those of the lines before with those of the last one.
pub proof fn law_lines_are_read_in_order(l: Seq<Seq<char>>, line: Seq<char>)
    ensures
        bridge::lines_leases(l.push(line)) == (match bridge::line_results(line) {
            Some(results) => bridge::with_results(bridge::lines_leases(l), results),
            None => bridge::lines_leases(l),
        }),
        bridge::lines_leases(Seq::empty()).len() == 0,
{
    assert(l.push(line).drop_last() =~= l);
}

/// Of the messages, the last of the assistant that reports leases counts, and what others say
/// does not.
pub proof fn law_the_last_report_counts(messages: Seq<JsonView>, message: JsonView)
    ensures
        message.str_at("role"@) != Some("assistant"@) ==> bridge::latest_leases(
            messages.push(message),
        ) == bridge::latest_leases(messages),
        message.str_at("role"@) == Some("assistant"@) && message.str_at("content"@) is None
            ==> bridge::latest_leases(messages.push(message)) == bridge::latest_leases(messages),
        message.str_at("role"@) == Some("assistant"@) && message.str_at("content"@) is Some ==> {
            let reported = bridge::content_leases(message.str_at("content"@)->0);
            bridge::latest_leases(messages.push(message)) == (if reported.len() > 0 {
                reported
            } else {
                bridge::latest_leases(messages)
            })
        },
        bridge::latest_leases(Seq::empty()).len() == 0,
{
    assert(messages.push(message).drop_last() =~= messages);
}

/// Leases are reported behind the mark of a result, line by line.
pub proof fn law_reports_stand_behind_their_mark(content: Seq<char>, rest: Seq<char>)
    ensures
        text::trim(content) == "[tool_result]\n"@ + rest ==> bridge::content_leases(content)
            == bridge::lines_leases(text::lines(rest)),
        !text::starts_with(text::trim(content), "[tool_result]\n"@) ==> bridge::content_leases(
            content,
        ).len() == 0,
{
    let t = text::trim(content);
    if t == "[tool_result]\n"@ + rest {
        assert(t.subrange(0, "[tool_result]\n"@.len() as int) =~= "[tool_result]\n"@);
        assert(t.skip("[tool_result]\n"@.len() as int) =~= rest);
    }
}

/// A name that means no tool of the catalog stays as it is and cannot be found; one that means
/// a tool that providers see at once cannot be found either.
pub proof fn law_only_found_tools_need_a_lease(raw: Seq<char>)
    ensures
        (forall|i: int|
            0 <= i < catalog::catalog_rows().len() ==> !(
            #[trigger] catalog::catalog_rows()[i]).matches(raw)) ==> catalog::canonical_name(raw)
            == raw && catalog::discoverable_name(raw) is None,
        catalog::discoverable_name(raw) matches Some(name) ==> name == catalog::canonical_name(raw),
{
    if forall|i: int|
        0 <= i < catalog::catalog_rows().len() ==> !(#[trigger] catalog::catalog_rows()[i]).matches(
            raw,
        ) {
        lemma_unresolved(catalog::catalog_rows(), raw);
    }
}

proof fn lemma_unresolved(rows: Seq<catalog::DescriptorView>, raw: Seq<char>)
    requires
        forall|i: int| 0 <= i < rows.len() ==> !(#[trigger] rows[i]).matches(raw),
    ensures
        catalog::resolved(rows, raw) is None,
    decreases rows.len(),
{
    if rows.len() > 0 {
        assert(!rows[0].matches(raw));
        assert forall|i: int| 0 <= i < rows.skip(1).len() implies !(
        #[trigger] rows.skip(1)[i]).matches(raw) by {
            assert(rows.skip(1)[i] == rows[i + 1]);
        }
        lemma_unresolved(rows.skip(1), raw);
    }
}

} // verus!
