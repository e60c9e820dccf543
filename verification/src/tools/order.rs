//! The order of the tool catalog.
use crate::text;
use crate::tools::catalog;
use crate::tools::catalog::DescriptorView;
use crate::tools::tables::TOOLS;
use vstd::prelude::*;

verus! {

/// The names of two neighbours in the table rise.
proof fn lemma_neighbours_rise(i: int)
    requires
        0 <= i < TOOLS@.len() - 1,
    ensures
        text::text_le(TOOLS@[i].0@, TOOLS@[i + 1].0@),
        TOOLS@[i].0@ != TOOLS@[i + 1].0@,
{
    if i == 0 {
        reveal_strlit("approval_request_resolve");
        reveal_strlit("approval_request_status");
        text::lemma_text_lt_at("approval_request_resolve"@, "approval_request_status"@, 17);
    } else if i == 1 {
        reveal_strlit("approval_request_status");
        reveal_strlit("approval_requests_list");
        text::lemma_text_lt_at("approval_request_status"@, "approval_requests_list"@, 16);
    } else if i == 2 {
        reveal_strlit("approval_requests_list");
        reveal_strlit("browser.click");
        text::lemma_text_lt_at("approval_requests_list"@, "browser.click"@, 0);
    } else if i == 3 {
        reveal_strlit("browser.click");
        reveal_strlit("browser.companion.click");
        text::lemma_text_lt_at("browser.click"@, "browser.companion.click"@, 9);
    } else if i == 4 {
        reveal_strlit("browser.companion.click");
        reveal_strlit("browser.companion.navigate");
        text::lemma_text_lt_at("browser.companion.click"@, "browser.companion.navigate"@, 18);
    } else if i == 5 {
        reveal_strlit("browser.companion.navigate");
        reveal_strlit("browser.companion.session.start");
        text::lemma_text_lt_at("browser.companion.navigate"@, "browser.companion.session.start"@, 18);
    } else if i == 6 {
        reveal_strlit("browser.companion.session.start");
        reveal_strlit("browser.companion.session.stop");
        text::lemma_text_lt_at("browser.companion.session.start"@, "browser.companion.session.stop"@, 28);
    } else if i == 7 {
        reveal_strlit("browser.companion.session.stop");
        reveal_strlit("browser.companion.snapshot");
        text::lemma_text_lt_at("browser.companion.session.stop"@, "browser.companion.snapshot"@, 19);
    } else if i == 8 {
        reveal_strlit("browser.companion.snapshot");
        reveal_strlit("browser.companion.type");
        text::lemma_text_lt_at("browser.companion.snapshot"@, "browser.companion.type"@, 18);
    } else if i == 9 {
        reveal_strlit("browser.companion.type");
        reveal_strlit("browser.companion.wait");
        text::lemma_text_lt_at("browser.companion.type"@, "browser.companion.wait"@, 18);
    } else if i == 10 {
        reveal_strlit("browser.companion.wait");
        reveal_strlit("browser.extract");
        text::lemma_text_lt_at("browser.companion.wait"@, "browser.extract"@, 8);
    } else if i == 11 {
        reveal_strlit("browser.extract");
        reveal_strlit("browser.open");
        text::lemma_text_lt_at("browser.extract"@, "browser.open"@, 8);
    } else if i == 12 {
        reveal_strlit("browser.open");
        reveal_strlit("claw.migrate");
        text::lemma_text_lt_at("browser.open"@, "claw.migrate"@, 0);
    } else if i == 13 {
        reveal_strlit("claw.migrate");
        reveal_strlit("delegate");
        text::lemma_text_lt_at("claw.migrate"@, "delegate"@, 0);
    } else if i == 14 {
        reveal_strlit("delegate");
        reveal_strlit("delegate_async");
        text::lemma_text_lt_at("delegate"@, "delegate_async"@, 8);
    } else if i == 15 {
        reveal_strlit("delegate_async");
        reveal_strlit("external_skills.fetch");
        text::lemma_text_lt_at("delegate_async"@, "external_skills.fetch"@, 0);
    } else if i == 16 {
        reveal_strlit("external_skills.fetch");
        reveal_strlit("external_skills.inspect");
        text::lemma_text_lt_at("external_skills.fetch"@, "external_skills.inspect"@, 16);
    } else if i == 17 {
        reveal_strlit("external_skills.inspect");
        reveal_strlit("external_skills.install");
        text::lemma_text_lt_at("external_skills.inspect"@, "external_skills.install"@, 19);
    } else if i == 18 {
        reveal_strlit("external_skills.install");
        reveal_strlit("external_skills.invoke");
        text::lemma_text_lt_at("external_skills.install"@, "external_skills.invoke"@, 18);
    } else if i == 19 {
        reveal_strlit("external_skills.invoke");
        reveal_strlit("external_skills.list");
        text::lemma_text_lt_at("external_skills.invoke"@, "external_skills.list"@, 16);
    } else if i == 20 {
        reveal_strlit("external_skills.list");
        reveal_strlit("external_skills.policy");
        text::lemma_text_lt_at("external_skills.list"@, "external_skills.policy"@, 16);
    } else if i == 21 {
        reveal_strlit("external_skills.policy");
        reveal_strlit("external_skills.remove");
        text::lemma_text_lt_at("external_skills.policy"@, "external_skills.remove"@, 16);
    } else if i == 22 {
        reveal_strlit("external_skills.remove");
        reveal_strlit("file.edit");
        text::lemma_text_lt_at("external_skills.remove"@, "file.edit"@, 0);
    } else if i == 23 {
        reveal_strlit("file.edit");
        reveal_strlit("file.read");
        text::lemma_text_lt_at("file.edit"@, "file.read"@, 5);
    } else if i == 24 {
        reveal_strlit("file.read");
        reveal_strlit("file.write");
        text::lemma_text_lt_at("file.read"@, "file.write"@, 5);
    } else if i == 25 {
        reveal_strlit("file.write");
        reveal_strlit("provider.switch");
        text::lemma_text_lt_at("file.write"@, "provider.switch"@, 0);
    } else if i == 26 {
        reveal_strlit("provider.switch");
        reveal_strlit("session_archive");
        text::lemma_text_lt_at("provider.switch"@, "session_archive"@, 0);
    } else if i == 27 {
        reveal_strlit("session_archive");
        reveal_strlit("session_cancel");
        text::lemma_text_lt_at("session_archive"@, "session_cancel"@, 8);
    } else if i == 28 {
        reveal_strlit("session_cancel");
        reveal_strlit("session_events");
        text::lemma_text_lt_at("session_cancel"@, "session_events"@, 8);
    } else if i == 29 {
        reveal_strlit("session_events");
        reveal_strlit("session_recover");
        text::lemma_text_lt_at("session_events"@, "session_recover"@, 8);
    } else if i == 30 {
        reveal_strlit("session_recover");
        reveal_strlit("session_status");
        text::lemma_text_lt_at("session_recover"@, "session_status"@, 8);
    } else if i == 31 {
        reveal_strlit("session_status");
        reveal_strlit("session_wait");
        text::lemma_text_lt_at("session_status"@, "session_wait"@, 8);
    } else if i == 32 {
        reveal_strlit("session_wait");
        reveal_strlit("sessions_history");
        text::lemma_text_lt_at("session_wait"@, "sessions_history"@, 7);
    } else if i == 33 {
        reveal_strlit("sessions_history");
        reveal_strlit("sessions_list");
        text::lemma_text_lt_at("sessions_history"@, "sessions_list"@, 9);
    } else if i == 34 {
        reveal_strlit("sessions_list");
        reveal_strlit("sessions_send");
        text::lemma_text_lt_at("sessions_list"@, "sessions_send"@, 9);
    } else if i == 35 {
        reveal_strlit("sessions_send");
        reveal_strlit("shell.exec");
        text::lemma_text_lt_at("sessions_send"@, "shell.exec"@, 1);
    } else if i == 36 {
        reveal_strlit("shell.exec");
        reveal_strlit("tool.invoke");
        text::lemma_text_lt_at("shell.exec"@, "tool.invoke"@, 0);
    } else if i == 37 {
        reveal_strlit("tool.invoke");
        reveal_strlit("tool.search");
        text::lemma_text_lt_at("tool.invoke"@, "tool.search"@, 5);
    } else if i == 38 {
        reveal_strlit("tool.search");
        reveal_strlit("web.fetch");
        text::lemma_text_lt_at("tool.search"@, "web.fetch"@, 0);
    } else if i == 39 {
        reveal_strlit("web.fetch");
        reveal_strlit("web.search");
        text::lemma_text_lt_at("web.fetch"@, "web.search"@, 4);
    }
}

/// The tools stand in the rising order of their names, and no two have the same name.
pub proof fn law_catalog_is_in_order(i: int, j: int)
    requires
        0 <= i < j < catalog::catalog_rows().len(),
    ensures
        text::text_le(catalog::catalog_rows()[i].name, catalog::catalog_rows()[j].name),
        catalog::catalog_rows()[i].name != catalog::catalog_rows()[j].name,
    decreases j - i,
{
    lemma_neighbours_rise(j - 1);
    if i < j - 1 {
        law_catalog_is_in_order(i, j - 1);
        let a = TOOLS@[i].0@;
        let b = TOOLS@[j - 1].0@;
        let c = TOOLS@[j].0@;
        text::lemma_text_le_transitive(a, b, c);
        if a == c {
            text::lemma_text_le_total(b, c);
        }
    }
}

proof fn lemma_named_from(rows: Seq<DescriptorView>, i: int)
    requires
        0 <= i < rows.len(),
        forall|k: int| 0 <= k < i ==> (#[trigger] rows[k]).name != rows[i].name,
    ensures
        catalog::named(rows, rows[i].name) == Some(rows[i]),
    decreases i,
{
    if i > 0 {
        assert forall|k: int| 0 <= k < i - 1 implies (#[trigger] rows.skip(1)[k]).name != rows.skip(
            1,
        )[i - 1].name by {
            assert(rows.skip(1)[k] == rows[k + 1]);
        }
        assert(rows[0].name != rows[i].name);
        lemma_named_from(rows.skip(1), i - 1);
    }
}

/// Every tool of the catalog is found under its name.
pub proof fn law_tools_are_found_by_name(i: int)
    requires
        0 <= i < catalog::catalog_rows().len(),
    ensures
        catalog::named(catalog::catalog_rows(), catalog::catalog_rows()[i].name) == Some(
            catalog::catalog_rows()[i],
        ),
{
    let rows = catalog::catalog_rows();
    assert forall|k: int| 0 <= k < i implies (#[trigger] rows[k]).name != rows[i].name by {
        law_catalog_is_in_order(k, i);
    }
    lemma_named_from(rows, i);
}

} // verus!
