//! The names of the tools: those of the catalog, those that providers call, and others.
use crate::text;
use crate::tools::catalog;
use crate::tools::catalog::DescriptorView;
use crate::tools::tables::TOOLS;
use vstd::prelude::*;

verus! {

/// The row of the tool that has a short name.
spec fn shell_row() -> int {
    36
}

/// A name with underscores in place of its dots.
spec fn without_dots(name: Seq<char>) -> Seq<char> {
    name.map_values(
        |c: char|
            if c == '.' {
                '_'
            } else {
                c
            },
    )
}

/// How the names of a row hang together.
proof fn lemma_names_of_row(i: int)
    requires
        0 <= i < TOOLS@.len(),
    ensures
        without_dots(TOOLS@[i].0@) == TOOLS@[i].1@,
        without_dots(TOOLS@[i].1@) == TOOLS@[i].1@,
        TOOLS@[i].1@.len() != "shell"@.len(),
        TOOLS@[i].2@.len() > 0 ==> TOOLS@[i].2@ == TOOLS@[i].1@ || TOOLS@[i].2@ == "shell"@ && i
            == shell_row(),
{
    reveal_strlit("");
    reveal_strlit("shell");
    if i == 0 {
        reveal_strlit("approval_request_resolve");
    } else if i == 1 {
        reveal_strlit("approval_request_status");
    } else if i == 2 {
        reveal_strlit("approval_requests_list");
    } else if i == 3 {
        reveal_strlit("browser.click");
        reveal_strlit("browser_click");
    } else if i == 4 {
        reveal_strlit("browser.companion.click");
        reveal_strlit("browser_companion_click");
    } else if i == 5 {
        reveal_strlit("browser.companion.navigate");
        reveal_strlit("browser_companion_navigate");
    } else if i == 6 {
        reveal_strlit("browser.companion.session.start");
        reveal_strlit("browser_companion_session_start");
    } else if i == 7 {
        reveal_strlit("browser.companion.session.stop");
        reveal_strlit("browser_companion_session_stop");
    } else if i == 8 {
        reveal_strlit("browser.companion.snapshot");
        reveal_strlit("browser_companion_snapshot");
    } else if i == 9 {
        reveal_strlit("browser.companion.type");
        reveal_strlit("browser_companion_type");
    } else if i == 10 {
        reveal_strlit("browser.companion.wait");
        reveal_strlit("browser_companion_wait");
    } else if i == 11 {
        reveal_strlit("browser.extract");
        reveal_strlit("browser_extract");
    } else if i == 12 {
        reveal_strlit("browser.open");
        reveal_strlit("browser_open");
    } else if i == 13 {
        reveal_strlit("claw.migrate");
        reveal_strlit("claw_migrate");
    } else if i == 14 {
        reveal_strlit("delegate");
    } else if i == 15 {
        reveal_strlit("delegate_async");
    } else if i == 16 {
        reveal_strlit("external_skills.fetch");
        reveal_strlit("external_skills_fetch");
    } else if i == 17 {
        reveal_strlit("external_skills.inspect");
        reveal_strlit("external_skills_inspect");
    } else if i == 18 {
        reveal_strlit("external_skills.install");
        reveal_strlit("external_skills_install");
    } else if i == 19 {
        reveal_strlit("external_skills.invoke");
        reveal_strlit("external_skills_invoke");
    } else if i == 20 {
        reveal_strlit("external_skills.list");
        reveal_strlit("external_skills_list");
    } else if i == 21 {
        reveal_strlit("external_skills.policy");
        reveal_strlit("external_skills_policy");
    } else if i == 22 {
        reveal_strlit("external_skills.remove");
        reveal_strlit("external_skills_remove");
    } else if i == 23 {
        reveal_strlit("file.edit");
        reveal_strlit("file_edit");
    } else if i == 24 {
        reveal_strlit("file.read");
        reveal_strlit("file_read");
    } else if i == 25 {
        reveal_strlit("file.write");
        reveal_strlit("file_write");
    } else if i == 26 {
        reveal_strlit("provider.switch");
        reveal_strlit("provider_switch");
    } else if i == 27 {
        reveal_strlit("session_archive");
    } else if i == 28 {
        reveal_strlit("session_cancel");
    } else if i == 29 {
        reveal_strlit("session_events");
    } else if i == 30 {
        reveal_strlit("session_recover");
    } else if i == 31 {
        reveal_strlit("session_status");
    } else if i == 32 {
        reveal_strlit("session_wait");
    } else if i == 33 {
        reveal_strlit("sessions_history");
    } else if i == 34 {
        reveal_strlit("sessions_list");
    } else if i == 35 {
        reveal_strlit("sessions_send");
    } else if i == 36 {
        reveal_strlit("shell.exec");
        reveal_strlit("shell_exec");
    } else if i == 37 {
        reveal_strlit("tool.invoke");
        reveal_strlit("tool_invoke");
    } else if i == 38 {
        reveal_strlit("tool.search");
        reveal_strlit("tool_search");
    } else if i == 39 {
        reveal_strlit("web.fetch");
        reveal_strlit("web_fetch");
    } else if i == 40 {
        reveal_strlit("web.search");
        reveal_strlit("web_search");
    }
    assert(without_dots(TOOLS@[i].0@) =~= TOOLS@[i].1@);
    assert(without_dots(TOOLS@[i].1@) =~= TOOLS@[i].1@);
}

/// The names for providers of two neighbours in the table rise.
proof fn lemma_provider_neighbours_rise(i: int)
    requires
        0 <= i < TOOLS@.len() - 1,
    ensures
        text::text_le(TOOLS@[i].1@, TOOLS@[i + 1].1@),
        TOOLS@[i].1@ != TOOLS@[i + 1].1@,
{
    if i == 0 {
        reveal_strlit("approval_request_resolve");
        reveal_strlit("approval_request_status");
        text::lemma_text_lt_at("approval_request_resolve"@, "approval_request_status"@, 17);
    } else if i == 1 {
        reveal_strlit("approval_request_status");
        reveal_strlit("approval_requests_list");
        text::lemma_text_lt_at("approval_request_status"@, "approval_requests_list"@, 16);
    } else if i == 2 {
        reveal_strlit("approval_requests_list");
        reveal_strlit("browser_click");
        text::lemma_text_lt_at("approval_requests_list"@, "browser_click"@, 0);
    } else if i == 3 {
        reveal_strlit("browser_click");
        reveal_strlit("browser_companion_click");
        text::lemma_text_lt_at("browser_click"@, "browser_companion_click"@, 9);
    } else if i == 4 {
        reveal_strlit("browser_companion_click");
        reveal_strlit("browser_companion_navigate");
        text::lemma_text_lt_at("browser_companion_click"@, "browser_companion_navigate"@, 18);
    } else if i == 5 {
        reveal_strlit("browser_companion_navigate");
        reveal_strlit("browser_companion_session_start");
        text::lemma_text_lt_at(
            "browser_companion_navigate"@,
            "browser_companion_session_start"@,
            18,
        );
    } else if i == 6 {
        reveal_strlit("browser_companion_session_start");
        reveal_strlit("browser_companion_session_stop");
        text::lemma_text_lt_at(
            "browser_companion_session_start"@,
            "browser_companion_session_stop"@,
            28,
        );
    } else if i == 7 {
        reveal_strlit("browser_companion_session_stop");
        reveal_strlit("browser_companion_snapshot");
        text::lemma_text_lt_at(
            "browser_companion_session_stop"@,
            "browser_companion_snapshot"@,
            19,
        );
    } else if i == 8 {
        reveal_strlit("browser_companion_snapshot");
        reveal_strlit("browser_companion_type");
        text::lemma_text_lt_at("browser_companion_snapshot"@, "browser_companion_type"@, 18);
    } else if i == 9 {
        reveal_strlit("browser_companion_type");
        reveal_strlit("browser_companion_wait");
        text::lemma_text_lt_at("browser_companion_type"@, "browser_companion_wait"@, 18);
    } else if i == 10 {
        reveal_strlit("browser_companion_wait");
        reveal_strlit("browser_extract");
        text::lemma_text_lt_at("browser_companion_wait"@, "browser_extract"@, 8);
    } else if i == 11 {
        reveal_strlit("browser_extract");
        reveal_strlit("browser_open");
        text::lemma_text_lt_at("browser_extract"@, "browser_open"@, 8);
    } else if i == 12 {
        reveal_strlit("browser_open");
        reveal_strlit("claw_migrate");
        text::lemma_text_lt_at("browser_open"@, "claw_migrate"@, 0);
    } else if i == 13 {
        reveal_strlit("claw_migrate");
        reveal_strlit("delegate");
        text::lemma_text_lt_at("claw_migrate"@, "delegate"@, 0);
    } else if i == 14 {
        reveal_strlit("delegate");
        reveal_strlit("delegate_async");
        text::lemma_text_lt_at("delegate"@, "delegate_async"@, 8);
    } else if i == 15 {
        reveal_strlit("delegate_async");
        reveal_strlit("external_skills_fetch");
        text::lemma_text_lt_at("delegate_async"@, "external_skills_fetch"@, 0);
    } else if i == 16 {
        reveal_strlit("external_skills_fetch");
        reveal_strlit("external_skills_inspect");
        text::lemma_text_lt_at("external_skills_fetch"@, "external_skills_inspect"@, 16);
    } else if i == 17 {
        reveal_strlit("external_skills_inspect");
        reveal_strlit("external_skills_install");
        text::lemma_text_lt_at("external_skills_inspect"@, "external_skills_install"@, 19);
    } else if i == 18 {
        reveal_strlit("external_skills_install");
        reveal_strlit("external_skills_invoke");
        text::lemma_text_lt_at("external_skills_install"@, "external_skills_invoke"@, 18);
    } else if i == 19 {
        reveal_strlit("external_skills_invoke");
        reveal_strlit("external_skills_list");
        text::lemma_text_lt_at("external_skills_invoke"@, "external_skills_list"@, 16);
    } else if i == 20 {
        reveal_strlit("external_skills_list");
        reveal_strlit("external_skills_policy");
        text::lemma_text_lt_at("external_skills_list"@, "external_skills_policy"@, 16);
    } else if i == 21 {
        reveal_strlit("external_skills_policy");
        reveal_strlit("external_skills_remove");
        text::lemma_text_lt_at("external_skills_policy"@, "external_skills_remove"@, 16);
    } else if i == 22 {
        reveal_strlit("external_skills_remove");
        reveal_strlit("file_edit");
        text::lemma_text_lt_at("external_skills_remove"@, "file_edit"@, 0);
    } else if i == 23 {
        reveal_strlit("file_edit");
        reveal_strlit("file_read");
        text::lemma_text_lt_at("file_edit"@, "file_read"@, 5);
    } else if i == 24 {
        reveal_strlit("file_read");
        reveal_strlit("file_write");
        text::lemma_text_lt_at("file_read"@, "file_write"@, 5);
    } else if i == 25 {
        reveal_strlit("file_write");
        reveal_strlit("provider_switch");
        text::lemma_text_lt_at("file_write"@, "provider_switch"@, 0);
    } else if i == 26 {
        reveal_strlit("provider_switch");
        reveal_strlit("session_archive");
        text::lemma_text_lt_at("provider_switch"@, "session_archive"@, 0);
    } else if i == 27 {
        reveal_strlit("session_archive");
        reveal_strlit("session_cancel");
        text::lemma_text_lt_at("session_archive"@, "session_cancel"@, 8);
    } else if i == 28 {
        reveal_strlit("session_cancel");
        reveal_strlit("session_events");
        text::lemma_text_lt_at("session_cancel"@, "session_events"@, 8);
    } else if i == 29 {
        reveal_strlit("session_events");
        reveal_strlit("session_recover");
        text::lemma_text_lt_at("session_events"@, "session_recover"@, 8);
    } else if i == 30 {
        reveal_strlit("session_recover");
        reveal_strlit("session_status");
        text::lemma_text_lt_at("session_recover"@, "session_status"@, 8);
    } else if i == 31 {
        reveal_strlit("session_status");
        reveal_strlit("session_wait");
        text::lemma_text_lt_at("session_status"@, "session_wait"@, 8);
    } else if i == 32 {
        reveal_strlit("session_wait");
        reveal_strlit("sessions_history");
        text::lemma_text_lt_at("session_wait"@, "sessions_history"@, 7);
    } else if i == 33 {
        reveal_strlit("sessions_history");
        reveal_strlit("sessions_list");
        text::lemma_text_lt_at("sessions_history"@, "sessions_list"@, 9);
    } else if i == 34 {
        reveal_strlit("sessions_list");
        reveal_strlit("sessions_send");
        text::lemma_text_lt_at("sessions_list"@, "sessions_send"@, 9);
    } else if i == 35 {
        reveal_strlit("sessions_send");
        reveal_strlit("shell_exec");
        text::lemma_text_lt_at("sessions_send"@, "shell_exec"@, 1);
    } else if i == 36 {
        reveal_strlit("shell_exec");
        reveal_strlit("tool_invoke");
        text::lemma_text_lt_at("shell_exec"@, "tool_invoke"@, 0);
    } else if i == 37 {
        reveal_strlit("tool_invoke");
        reveal_strlit("tool_search");
        text::lemma_text_lt_at("tool_invoke"@, "tool_search"@, 5);
    } else if i == 38 {
        reveal_strlit("tool_search");
        reveal_strlit("web_fetch");
        text::lemma_text_lt_at("tool_search"@, "web_fetch"@, 0);
    } else if i == 39 {
        reveal_strlit("web_fetch");
        reveal_strlit("web_search");
        text::lemma_text_lt_at("web_fetch"@, "web_search"@, 4);
    }
}

proof fn lemma_provider_names_rise(i: int, j: int)
    requires
        0 <= i < j < TOOLS@.len(),
    ensures
        text::text_le(TOOLS@[i].1@, TOOLS@[j].1@),
        TOOLS@[i].1@ != TOOLS@[j].1@,
    decreases j - i,
{
    lemma_provider_neighbours_rise(j - 1);
    if i < j - 1 {
        lemma_provider_names_rise(i, j - 1);
        let a = TOOLS@[i].1@;
        let b = TOOLS@[j - 1].1@;
        let c = TOOLS@[j].1@;
        text::lemma_text_le_transitive(a, b, c);
        if a == c {
            text::lemma_text_le_total(b, c);
        }
    }
}

/// A name that a row matches is its name for providers once its dots are gone, but for the
/// one short name.
proof fn lemma_matching_name(i: int, raw: Seq<char>)
    requires
        0 <= i < TOOLS@.len(),
        catalog::catalog_rows()[i].matches(raw),
    ensures
        if raw == "shell"@ {
            i == shell_row()
        } else {
            without_dots(raw) == TOOLS@[i].1@
        },
{
    lemma_names_of_row(i);
    let row = catalog::catalog_rows()[i];
    if raw == "shell"@ {
        assert(without_dots(raw).len() == raw.len());
    }
    if row.aliases.contains(raw) {
        assert(raw == TOOLS@[i].2@);
    }
}

/// A text means at most one tool, be it the tool's name, its name for providers or another
/// name of it.
pub proof fn law_a_name_means_one_tool(i: int, j: int, raw: Seq<char>)
    requires
        0 <= i < catalog::catalog_rows().len(),
        0 <= j < catalog::catalog_rows().len(),
        catalog::catalog_rows()[i].matches(raw),
        catalog::catalog_rows()[j].matches(raw),
    ensures
        i == j,
{
    lemma_matching_name(i, raw);
    lemma_matching_name(j, raw);
    if i < j {
        lemma_provider_names_rise(i, j);
    } else if j < i {
        lemma_provider_names_rise(j, i);
    }
}

proof fn lemma_resolved_from(rows: Seq<DescriptorView>, i: int, raw: Seq<char>)
    requires
        0 <= i < rows.len(),
        rows[i].matches(raw),
        forall|k: int| 0 <= k < i ==> !(#[trigger] rows[k]).matches(raw),
    ensures
        catalog::resolved(rows, raw) == Some(rows[i]),
    decreases i,
{
    if i > 0 {
        assert(!rows[0].matches(raw));
        assert forall|k: int| 0 <= k < i - 1 implies !(#[trigger] rows.skip(1)[k]).matches(raw) by {
            assert(rows.skip(1)[k] == rows[k + 1]);
        }
        lemma_resolved_from(rows.skip(1), i - 1, raw);
    }
}

/// Every tool of the catalog is found under each of its names, and each of them is turned
/// into the tool's one name, which stays as it is.
pub proof fn law_tools_are_found_by_all_names(i: int, raw: Seq<char>)
    requires
        0 <= i < catalog::catalog_rows().len(),
        catalog::catalog_rows()[i].matches(raw),
    ensures
        catalog::resolved(catalog::catalog_rows(), raw) == Some(catalog::catalog_rows()[i]),
        catalog::canonical_name(raw) == catalog::catalog_rows()[i].name,
        catalog::canonical_name(catalog::canonical_name(raw)) == catalog::canonical_name(raw),
{
    let rows = catalog::catalog_rows();
    assert forall|k: int| 0 <= k < i implies !(#[trigger] rows[k]).matches(raw) by {
        if rows[k].matches(raw) {
            law_a_name_means_one_tool(k, i, raw);
        }
    }
    lemma_resolved_from(rows, i, raw);
    let name = rows[i].name;
    assert forall|k: int| 0 <= k < i implies !(#[trigger] rows[k]).matches(name) by {
        if rows[k].matches(name) {
            law_a_name_means_one_tool(k, i, name);
        }
    }
    lemma_resolved_from(rows, i, name);
}

} // verus!
