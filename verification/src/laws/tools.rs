//! Tools: which of them a session or a delegated task sees, and how they are described.
use crate::json;
use crate::json::JsonView;
use crate::text;
use crate::tools::catalog;
use crate::tools::catalog::{
    DescriptorView, EntryView, RequirementKind, ToolApprovalMode, ToolAvailability,
    ToolExecutionKind, ToolExposureClass, ToolGovernanceScope, ToolRiskClass, ToolSchedulingClass,
    ToolVisibilityGate,
};
use crate::tools::order;
use crate::tools::schema;
use crate::tools::schema::ToolSchemaSettings;
use crate::tools::tables::{
    PARAMETER_TYPES, REQUIRED_FIELDS, SCHEMA_CHOICES, SCHEMA_FILLED_LISTS, SCHEMA_FILLED_STRINGS,
    SCHEMA_LINK_LIMITED, SCHEMA_LISTS, SCHEMA_MINIMUMS, SCHEMA_PAGE_LIMITED, SCHEMA_PROPERTIES,
    SCHEMA_REQUIRED, TOOLS,
};
use crate::tools::view;
use crate::tools::view::{ToolConfig, ToolRuntimeConfig, ViewRule};
use vstd::prelude::*;

verus! {

// Gates.

/// At run time every gate follows its own setting and no other.
pub proof fn law_gates_follow_their_settings(a: ToolRuntimeConfig, b: ToolRuntimeConfig)
    ensures
        view::gate_open_at_runtime(ToolVisibilityGate::Always, a),
        (a.sessions_enabled == b.sessions_enabled) ==> view::gate_open_at_runtime(
            ToolVisibilityGate::Sessions,
            a,
        ) == view::gate_open_at_runtime(ToolVisibilityGate::Sessions, b),
        view::gate_open_at_runtime(ToolVisibilityGate::Sessions, a) <==> a.sessions_enabled,
        (a.messages_enabled == b.messages_enabled) ==> view::gate_open_at_runtime(
            ToolVisibilityGate::Messages,
            a,
        ) == view::gate_open_at_runtime(ToolVisibilityGate::Messages, b),
        view::gate_open_at_runtime(ToolVisibilityGate::Messages, a) <==> a.messages_enabled,
        (a.delegate_enabled == b.delegate_enabled) ==> view::gate_open_at_runtime(
            ToolVisibilityGate::Delegate,
            a,
        ) == view::gate_open_at_runtime(ToolVisibilityGate::Delegate, b),
        view::gate_open_at_runtime(ToolVisibilityGate::Delegate, a) <==> a.delegate_enabled,
        (a.browser.enabled == b.browser.enabled) ==> view::gate_open_at_runtime(
            ToolVisibilityGate::Browser,
            a,
        ) == view::gate_open_at_runtime(ToolVisibilityGate::Browser, b),
        view::gate_open_at_runtime(ToolVisibilityGate::Browser, a) <==> a.browser.enabled,
        (a.browser_companion.enabled == b.browser_companion.enabled && a.browser_companion.ready == b.browser_companion.ready) ==> view::gate_open_at_runtime(
            ToolVisibilityGate::BrowserCompanion,
            a,
        ) == view::gate_open_at_runtime(ToolVisibilityGate::BrowserCompanion, b),
        view::gate_open_at_runtime(ToolVisibilityGate::BrowserCompanion, a) <==> a.browser_companion.enabled && a.browser_companion.ready,
        (a.external_skills.enabled == b.external_skills.enabled) ==> view::gate_open_at_runtime(
            ToolVisibilityGate::ExternalSkills,
            a,
        ) == view::gate_open_at_runtime(ToolVisibilityGate::ExternalSkills, b),
        view::gate_open_at_runtime(ToolVisibilityGate::ExternalSkills, a) <==> a.external_skills.enabled,
        (a.web_fetch.enabled == b.web_fetch.enabled) ==> view::gate_open_at_runtime(
            ToolVisibilityGate::WebFetch,
            a,
        ) == view::gate_open_at_runtime(ToolVisibilityGate::WebFetch, b),
        view::gate_open_at_runtime(ToolVisibilityGate::WebFetch, a) <==> a.web_fetch.enabled,
        (a.web_search.enabled == b.web_search.enabled) ==> view::gate_open_at_runtime(
            ToolVisibilityGate::WebSearch,
            a,
        ) == view::gate_open_at_runtime(ToolVisibilityGate::WebSearch, b),
        view::gate_open_at_runtime(ToolVisibilityGate::WebSearch, a) <==> a.web_search.enabled,
{
}

/// In the configuration every gate follows its own setting; the browser companion is never
/// shown by it.
pub proof fn law_configured_gates_follow_their_settings(config: ToolConfig, external_skills: bool)
    ensures
        view::gate_open_in_config(ToolVisibilityGate::Always, config, external_skills),
        !view::gate_open_in_config(
            ToolVisibilityGate::BrowserCompanion,
            config,
            external_skills,
        ),
        view::gate_open_in_config(ToolVisibilityGate::Sessions, config, external_skills)
            <==> config.sessions.enabled,
        view::gate_open_in_config(ToolVisibilityGate::Messages, config, external_skills)
            <==> config.messages.enabled,
        view::gate_open_in_config(ToolVisibilityGate::Delegate, config, external_skills)
            <==> config.delegate.enabled,
        view::gate_open_in_config(ToolVisibilityGate::Browser, config, external_skills)
            <==> config.browser.enabled,
        view::gate_open_in_config(ToolVisibilityGate::ExternalSkills, config, external_skills)
            <==> external_skills,
        view::gate_open_in_config(ToolVisibilityGate::WebFetch, config, external_skills)
            <==> config.web.enabled,
        view::gate_open_in_config(ToolVisibilityGate::WebSearch, config, external_skills)
            <==> config.web_search.enabled,
{
}

// What is shown.

proof fn lemma_row_is_shown(i: int, rule: ViewRule)
    requires
        0 <= i < catalog::catalog_rows().len(),
    ensures
        view::set_of(view::names_shown(catalog::catalog_rows(), rule)).contains(
            catalog::catalog_rows()[i].name,
        ) <==> view::shows(rule, catalog::catalog_rows()[i]),
{
    let rows = catalog::catalog_rows();
    let n = rows[i].name;
    view::lemma_names_shown(rows, rule, n);
    if view::set_of(view::names_shown(rows, rule)).contains(n) {
        let k = choose|k: int|
            0 <= k < rows.len() && view::shows(rule, #[trigger] rows[k]) && rows[k].name == n;
        if k < i {
            order::law_catalog_is_in_order(k, i);
        } else if i < k {
            order::law_catalog_is_in_order(i, k);
        }
    }
}

/// The names of the tools behind one gate.
pub open spec fn is_always_tool(n: Seq<char>) -> bool {
    ||| n == "claw.migrate"@
    ||| n == "external_skills.policy"@
    ||| n == "file.edit"@
    ||| n == "file.read"@
    ||| n == "file.write"@
    ||| n == "provider.switch"@
    ||| n == "shell.exec"@
    ||| n == "tool.invoke"@
    ||| n == "tool.search"@
}

/// The names of the tools behind one gate.
pub open spec fn is_session_tool(n: Seq<char>) -> bool {
    ||| n == "approval_request_resolve"@
    ||| n == "approval_request_status"@
    ||| n == "approval_requests_list"@
    ||| n == "session_archive"@
    ||| n == "session_cancel"@
    ||| n == "session_events"@
    ||| n == "session_recover"@
    ||| n == "session_status"@
    ||| n == "session_wait"@
    ||| n == "sessions_history"@
    ||| n == "sessions_list"@
}

/// The names of the tools behind one gate.
pub open spec fn is_message_tool(n: Seq<char>) -> bool {
    ||| n == "sessions_send"@
}

/// The names of the tools behind one gate.
pub open spec fn is_delegate_tool(n: Seq<char>) -> bool {
    ||| n == "delegate"@
    ||| n == "delegate_async"@
}

/// The names of the tools behind one gate.
pub open spec fn is_browser_tool(n: Seq<char>) -> bool {
    ||| n == "browser.click"@
    ||| n == "browser.extract"@
    ||| n == "browser.open"@
}

/// The names of the tools behind one gate.
pub open spec fn is_companion_tool(n: Seq<char>) -> bool {
    ||| n == "browser.companion.click"@
    ||| n == "browser.companion.navigate"@
    ||| n == "browser.companion.session.start"@
    ||| n == "browser.companion.session.stop"@
    ||| n == "browser.companion.snapshot"@
    ||| n == "browser.companion.type"@
    ||| n == "browser.companion.wait"@
}

/// The names of the tools behind one gate.
pub open spec fn is_skill_tool(n: Seq<char>) -> bool {
    ||| n == "external_skills.fetch"@
    ||| n == "external_skills.inspect"@
    ||| n == "external_skills.install"@
    ||| n == "external_skills.invoke"@
    ||| n == "external_skills.list"@
    ||| n == "external_skills.remove"@
}

/// The names of the tools behind one gate.
pub open spec fn is_fetch_tool(n: Seq<char>) -> bool {
    ||| n == "web.fetch"@
}

/// The names of the tools behind one gate.
pub open spec fn is_search_tool(n: Seq<char>) -> bool {
    ||| n == "web.search"@
}

/// The names of the tools that run in the assistant itself.
pub open spec fn is_core_tool(n: Seq<char>) -> bool {
    ||| n == "browser.click"@
    ||| n == "browser.companion.navigate"@
    ||| n == "browser.companion.session.start"@
    ||| n == "browser.companion.session.stop"@
    ||| n == "browser.companion.snapshot"@
    ||| n == "browser.companion.wait"@
    ||| n == "browser.extract"@
    ||| n == "browser.open"@
    ||| n == "claw.migrate"@
    ||| n == "external_skills.fetch"@
    ||| n == "external_skills.inspect"@
    ||| n == "external_skills.install"@
    ||| n == "external_skills.invoke"@
    ||| n == "external_skills.list"@
    ||| n == "external_skills.policy"@
    ||| n == "external_skills.remove"@
    ||| n == "file.edit"@
    ||| n == "file.read"@
    ||| n == "file.write"@
    ||| n == "provider.switch"@
    ||| n == "shell.exec"@
    ||| n == "tool.invoke"@
    ||| n == "tool.search"@
    ||| n == "web.fetch"@
    ||| n == "web.search"@
}

/// What a name of the catalog says of its row.
proof fn lemma_row_by_name(i: int)
    requires
        0 <= i < TOOLS@.len(),
    ensures
        ({
            let d = catalog::catalog_rows()[i];
            let n = d.name;
            &&& d.availability == ToolAvailability::Runtime
            &&& d.visibility_gate == ToolVisibilityGate::Always ==> is_always_tool(n)
            &&& d.visibility_gate == ToolVisibilityGate::Sessions ==> is_session_tool(n)
            &&& d.visibility_gate == ToolVisibilityGate::Messages ==> is_message_tool(n)
            &&& d.visibility_gate == ToolVisibilityGate::Delegate ==> is_delegate_tool(n)
            &&& d.visibility_gate == ToolVisibilityGate::Browser ==> is_browser_tool(n)
            &&& d.visibility_gate == ToolVisibilityGate::BrowserCompanion ==> is_companion_tool(n)
            &&& d.visibility_gate == ToolVisibilityGate::ExternalSkills ==> is_skill_tool(n)
            &&& d.visibility_gate == ToolVisibilityGate::WebFetch ==> is_fetch_tool(n)
            &&& d.visibility_gate == ToolVisibilityGate::WebSearch ==> is_search_tool(n)
            &&& d.execution_kind == ToolExecutionKind::Core ==> is_core_tool(n)
        }),
{
}

/// The row of each name.
proof fn lemma_rows_of_names(rule: ViewRule, n: Seq<char>)
    ensures
        ({
            let rows = catalog::catalog_rows();
            let seen = view::set_of(view::names_shown(rows, rule));
            &&& is_always_tool(n) ==> exists|i: int|
                0 <= i < rows.len() && (#[trigger] rows[i]).name == n && rows[i].visibility_gate
                    == ToolVisibilityGate::Always && rows[i].availability == ToolAvailability::Runtime
                    && (rows[i].execution_kind == ToolExecutionKind::Core <==> is_core_tool(n))
                    && (seen.contains(n) <==> view::shows(rule, rows[i]))
            &&& is_session_tool(n) ==> exists|i: int|
                0 <= i < rows.len() && (#[trigger] rows[i]).name == n && rows[i].visibility_gate
                    == ToolVisibilityGate::Sessions && rows[i].availability == ToolAvailability::Runtime
                    && (rows[i].execution_kind == ToolExecutionKind::Core <==> is_core_tool(n))
                    && (seen.contains(n) <==> view::shows(rule, rows[i]))
            &&& is_message_tool(n) ==> exists|i: int|
                0 <= i < rows.len() && (#[trigger] rows[i]).name == n && rows[i].visibility_gate
                    == ToolVisibilityGate::Messages && rows[i].availability == ToolAvailability::Runtime
                    && (rows[i].execution_kind == ToolExecutionKind::Core <==> is_core_tool(n))
                    && (seen.contains(n) <==> view::shows(rule, rows[i]))
            &&& is_delegate_tool(n) ==> exists|i: int|
                0 <= i < rows.len() && (#[trigger] rows[i]).name == n && rows[i].visibility_gate
                    == ToolVisibilityGate::Delegate && rows[i].availability == ToolAvailability::Runtime
                    && (rows[i].execution_kind == ToolExecutionKind::Core <==> is_core_tool(n))
                    && (seen.contains(n) <==> view::shows(rule, rows[i]))
            &&& is_browser_tool(n) ==> exists|i: int|
                0 <= i < rows.len() && (#[trigger] rows[i]).name == n && rows[i].visibility_gate
                    == ToolVisibilityGate::Browser && rows[i].availability == ToolAvailability::Runtime
                    && (rows[i].execution_kind == ToolExecutionKind::Core <==> is_core_tool(n))
                    && (seen.contains(n) <==> view::shows(rule, rows[i]))
            &&& is_companion_tool(n) ==> exists|i: int|
                0 <= i < rows.len() && (#[trigger] rows[i]).name == n && rows[i].visibility_gate
                    == ToolVisibilityGate::BrowserCompanion && rows[i].availability == ToolAvailability::Runtime
                    && (rows[i].execution_kind == ToolExecutionKind::Core <==> is_core_tool(n))
                    && (seen.contains(n) <==> view::shows(rule, rows[i]))
            &&& is_skill_tool(n) ==> exists|i: int|
                0 <= i < rows.len() && (#[trigger] rows[i]).name == n && rows[i].visibility_gate
                    == ToolVisibilityGate::ExternalSkills && rows[i].availability == ToolAvailability::Runtime
                    && (rows[i].execution_kind == ToolExecutionKind::Core <==> is_core_tool(n))
                    && (seen.contains(n) <==> view::shows(rule, rows[i]))
            &&& is_fetch_tool(n) ==> exists|i: int|
                0 <= i < rows.len() && (#[trigger] rows[i]).name == n && rows[i].visibility_gate
                    == ToolVisibilityGate::WebFetch && rows[i].availability == ToolAvailability::Runtime
                    && (rows[i].execution_kind == ToolExecutionKind::Core <==> is_core_tool(n))
                    && (seen.contains(n) <==> view::shows(rule, rows[i]))
            &&& is_search_tool(n) ==> exists|i: int|
                0 <= i < rows.len() && (#[trigger] rows[i]).name == n && rows[i].visibility_gate
                    == ToolVisibilityGate::WebSearch && rows[i].availability == ToolAvailability::Runtime
                    && (rows[i].execution_kind == ToolExecutionKind::Core <==> is_core_tool(n))
                    && (seen.contains(n) <==> view::shows(rule, rows[i]))
        }),
{
    let rows = catalog::catalog_rows();
    lemma_core_names();
    if n == "approval_request_resolve"@ {
        lemma_row_is_shown(0, rule);
        assert(rows[0].name == n);
    }
    if n == "approval_request_status"@ {
        lemma_row_is_shown(1, rule);
        assert(rows[1].name == n);
    }
    if n == "approval_requests_list"@ {
        lemma_row_is_shown(2, rule);
        assert(rows[2].name == n);
    }
    if n == "browser.click"@ {
        lemma_row_is_shown(3, rule);
        assert(rows[3].name == n);
    }
    if n == "browser.companion.click"@ {
        lemma_row_is_shown(4, rule);
        assert(rows[4].name == n);
    }
    if n == "browser.companion.navigate"@ {
        lemma_row_is_shown(5, rule);
        assert(rows[5].name == n);
    }
    if n == "browser.companion.session.start"@ {
        lemma_row_is_shown(6, rule);
        assert(rows[6].name == n);
    }
    if n == "browser.companion.session.stop"@ {
        lemma_row_is_shown(7, rule);
        assert(rows[7].name == n);
    }
    if n == "browser.companion.snapshot"@ {
        lemma_row_is_shown(8, rule);
        assert(rows[8].name == n);
    }
    if n == "browser.companion.type"@ {
        lemma_row_is_shown(9, rule);
        assert(rows[9].name == n);
    }
    if n == "browser.companion.wait"@ {
        lemma_row_is_shown(10, rule);
        assert(rows[10].name == n);
    }
    if n == "browser.extract"@ {
        lemma_row_is_shown(11, rule);
        assert(rows[11].name == n);
    }
    if n == "browser.open"@ {
        lemma_row_is_shown(12, rule);
        assert(rows[12].name == n);
    }
    if n == "claw.migrate"@ {
        lemma_row_is_shown(13, rule);
        assert(rows[13].name == n);
    }
    if n == "delegate"@ {
        lemma_row_is_shown(14, rule);
        assert(rows[14].name == n);
    }
    if n == "delegate_async"@ {
        lemma_row_is_shown(15, rule);
        assert(rows[15].name == n);
    }
    if n == "external_skills.fetch"@ {
        lemma_row_is_shown(16, rule);
        assert(rows[16].name == n);
    }
    if n == "external_skills.inspect"@ {
        lemma_row_is_shown(17, rule);
        assert(rows[17].name == n);
    }
    if n == "external_skills.install"@ {
        lemma_row_is_shown(18, rule);
        assert(rows[18].name == n);
    }
    if n == "external_skills.invoke"@ {
        lemma_row_is_shown(19, rule);
        assert(rows[19].name == n);
    }
    if n == "external_skills.list"@ {
        lemma_row_is_shown(20, rule);
        assert(rows[20].name == n);
    }
    if n == "external_skills.policy"@ {
        lemma_row_is_shown(21, rule);
        assert(rows[21].name == n);
    }
    if n == "external_skills.remove"@ {
        lemma_row_is_shown(22, rule);
        assert(rows[22].name == n);
    }
    if n == "file.edit"@ {
        lemma_row_is_shown(23, rule);
        assert(rows[23].name == n);
    }
    if n == "file.read"@ {
        lemma_row_is_shown(24, rule);
        assert(rows[24].name == n);
    }
    if n == "file.write"@ {
        lemma_row_is_shown(25, rule);
        assert(rows[25].name == n);
    }
    if n == "provider.switch"@ {
        lemma_row_is_shown(26, rule);
        assert(rows[26].name == n);
    }
    if n == "session_archive"@ {
        lemma_row_is_shown(27, rule);
        assert(rows[27].name == n);
    }
    if n == "session_cancel"@ {
        lemma_row_is_shown(28, rule);
        assert(rows[28].name == n);
    }
    if n == "session_events"@ {
        lemma_row_is_shown(29, rule);
        assert(rows[29].name == n);
    }
    if n == "session_recover"@ {
        lemma_row_is_shown(30, rule);
        assert(rows[30].name == n);
    }
    if n == "session_status"@ {
        lemma_row_is_shown(31, rule);
        assert(rows[31].name == n);
    }
    if n == "session_wait"@ {
        lemma_row_is_shown(32, rule);
        assert(rows[32].name == n);
    }
    if n == "sessions_history"@ {
        lemma_row_is_shown(33, rule);
        assert(rows[33].name == n);
    }
    if n == "sessions_list"@ {
        lemma_row_is_shown(34, rule);
        assert(rows[34].name == n);
    }
    if n == "sessions_send"@ {
        lemma_row_is_shown(35, rule);
        assert(rows[35].name == n);
    }
    if n == "shell.exec"@ {
        lemma_row_is_shown(36, rule);
        assert(rows[36].name == n);
    }
    if n == "tool.invoke"@ {
        lemma_row_is_shown(37, rule);
        assert(rows[37].name == n);
    }
    if n == "tool.search"@ {
        lemma_row_is_shown(38, rule);
        assert(rows[38].name == n);
    }
    if n == "web.fetch"@ {
        lemma_row_is_shown(39, rule);
        assert(rows[39].name == n);
    }
    if n == "web.search"@ {
        lemma_row_is_shown(40, rule);
        assert(rows[40].name == n);
    }
}

/// No tool that runs elsewhere is one of the assistant itself.
proof fn lemma_core_names()
    ensures
        !is_core_tool("approval_request_resolve"@),
        !is_core_tool("approval_request_status"@),
        !is_core_tool("approval_requests_list"@),
        !is_core_tool("browser.companion.click"@),
        !is_core_tool("browser.companion.type"@),
        !is_core_tool("delegate"@),
        !is_core_tool("delegate_async"@),
        !is_core_tool("session_archive"@),
        !is_core_tool("session_cancel"@),
        !is_core_tool("session_events"@),
        !is_core_tool("session_recover"@),
        !is_core_tool("session_status"@),
        !is_core_tool("session_wait"@),
        !is_core_tool("sessions_history"@),
        !is_core_tool("sessions_list"@),
        !is_core_tool("sessions_send"@),
{
    lemma_names_differ();
    let t = TOOLS@;
    assert(t[0].0@ == "approval_request_resolve"@);
    assert(t[1].0@ == "approval_request_status"@);
    assert(t[2].0@ == "approval_requests_list"@);
    assert(t[3].0@ == "browser.click"@);
    assert(t[4].0@ == "browser.companion.click"@);
    assert(t[5].0@ == "browser.companion.navigate"@);
    assert(t[6].0@ == "browser.companion.session.start"@);
    assert(t[7].0@ == "browser.companion.session.stop"@);
    assert(t[8].0@ == "browser.companion.snapshot"@);
    assert(t[9].0@ == "browser.companion.type"@);
    assert(t[10].0@ == "browser.companion.wait"@);
    assert(t[11].0@ == "browser.extract"@);
    assert(t[12].0@ == "browser.open"@);
    assert(t[13].0@ == "claw.migrate"@);
    assert(t[14].0@ == "delegate"@);
    assert(t[15].0@ == "delegate_async"@);
    assert(t[16].0@ == "external_skills.fetch"@);
    assert(t[17].0@ == "external_skills.inspect"@);
    assert(t[18].0@ == "external_skills.install"@);
    assert(t[19].0@ == "external_skills.invoke"@);
    assert(t[20].0@ == "external_skills.list"@);
    assert(t[21].0@ == "external_skills.policy"@);
    assert(t[22].0@ == "external_skills.remove"@);
    assert(t[23].0@ == "file.edit"@);
    assert(t[24].0@ == "file.read"@);
    assert(t[25].0@ == "file.write"@);
    assert(t[26].0@ == "provider.switch"@);
    assert(t[27].0@ == "session_archive"@);
    assert(t[28].0@ == "session_cancel"@);
    assert(t[29].0@ == "session_events"@);
    assert(t[30].0@ == "session_recover"@);
    assert(t[31].0@ == "session_status"@);
    assert(t[32].0@ == "session_wait"@);
    assert(t[33].0@ == "sessions_history"@);
    assert(t[34].0@ == "sessions_list"@);
    assert(t[35].0@ == "sessions_send"@);
    assert(t[36].0@ == "shell.exec"@);
    assert(t[37].0@ == "tool.invoke"@);
    assert(t[38].0@ == "tool.search"@);
    assert(t[39].0@ == "web.fetch"@);
    assert(t[40].0@ == "web.search"@);
}

proof fn lemma_names_differ()
    ensures
        forall|i: int, j: int|
            0 <= i < j < TOOLS@.len() ==> (#[trigger] TOOLS@[i]).0@ != (#[trigger] TOOLS@[j]).0@,
{
    assert forall|i: int, j: int| 0 <= i < j < TOOLS@.len() implies (#[trigger] TOOLS@[i]).0@ != (
    #[trigger] TOOLS@[j]).0@ by {
        order::law_catalog_is_in_order(i, j);
    }
}

proof fn lemma_shown_is_of_a_row(rule: ViewRule, n: Seq<char>) -> (i: int)
    requires
        view::set_of(view::names_shown(catalog::catalog_rows(), rule)).contains(n),
    ensures
        0 <= i < catalog::catalog_rows().len(),
        catalog::catalog_rows()[i].name == n,
        view::shows(rule, catalog::catalog_rows()[i]),
{
    let rows = catalog::catalog_rows();
    view::lemma_names_shown(rows, rule, n);
    choose|k: int|
        0 <= k < rows.len() && view::shows(rule, #[trigger] rows[k]) && rows[k].name == n
}

/// What the settings at run time show: the tools behind every gate exactly where the setting
/// of that gate is on, and nothing else.
pub proof fn law_settings_show_their_tools(config: ToolRuntimeConfig, n: Seq<char>)
    ensures
        view::set_of(
            view::names_shown(catalog::catalog_rows(), ViewRule::AtRuntime(config)),
        ).contains(n) <==> {
            ||| is_always_tool(n)
            ||| is_session_tool(n) && config.sessions_enabled
            ||| is_message_tool(n) && config.messages_enabled
            ||| is_delegate_tool(n) && config.delegate_enabled
            ||| is_browser_tool(n) && config.browser.enabled
            ||| is_companion_tool(n) && config.browser_companion.enabled && config.browser_companion.ready
            ||| is_skill_tool(n) && config.external_skills.enabled
            ||| is_fetch_tool(n) && config.web_fetch.enabled
            ||| is_search_tool(n) && config.web_search.enabled
        },
{
    let rule = ViewRule::AtRuntime(config);
    if view::set_of(view::names_shown(catalog::catalog_rows(), rule)).contains(n) {
        let i = lemma_shown_is_of_a_row(rule, n);
        lemma_row_by_name(i);
    }
    lemma_rows_of_names(rule, n);
}

/// What the configuration shows: the tools behind every gate exactly where the setting of
/// that gate is on, never the browser companion, and nothing else.
pub proof fn law_configuration_shows_its_tools(
    config: ToolConfig,
    external_skills: bool,
    n: Seq<char>,
)
    ensures
        view::set_of(
            view::names_shown(
                catalog::catalog_rows(),
                ViewRule::Configured(config, external_skills),
            ),
        ).contains(n) <==> {
            ||| is_always_tool(n)
            ||| is_session_tool(n) && config.sessions.enabled
            ||| is_message_tool(n) && config.messages.enabled
            ||| is_delegate_tool(n) && config.delegate.enabled
            ||| is_browser_tool(n) && config.browser.enabled
            ||| is_skill_tool(n) && external_skills
            ||| is_fetch_tool(n) && config.web.enabled
            ||| is_search_tool(n) && config.web_search.enabled
        },
{
    let rule = ViewRule::Configured(config, external_skills);
    if view::set_of(view::names_shown(catalog::catalog_rows(), rule)).contains(n) {
        let i = lemma_shown_is_of_a_row(rule, n);
        lemma_row_by_name(i);
    }
    lemma_rows_of_names(rule, n);
}

/// The whole catalog is shown where nothing is left out.
pub proof fn law_root_sees_everything(n: Seq<char>)
    ensures
        view::set_of(view::names_shown(catalog::catalog_rows(), ViewRule::All)).contains(n) <==> {
            ||| is_always_tool(n)
            ||| is_session_tool(n)
            ||| is_message_tool(n)
            ||| is_delegate_tool(n)
            ||| is_browser_tool(n)
            ||| is_companion_tool(n)
            ||| is_skill_tool(n)
            ||| is_fetch_tool(n)
            ||| is_search_tool(n)
        },
{
    if view::set_of(view::names_shown(catalog::catalog_rows(), ViewRule::All)).contains(n) {
        let i = lemma_shown_is_of_a_row(ViewRule::All, n);
        lemma_row_by_name(i);
    }
    lemma_rows_of_names(ViewRule::All, n);
}

/// What a delegated task sees: the shell exactly where it is allowed, the tools to delegate
/// with exactly where it may delegate and delegation is on, and of the others those that run
/// in the assistant itself, stand on its list and are turned on.
pub proof fn law_child_sees_exactly_what_is_allowed(
    config: ToolConfig,
    allow_delegate: bool,
    n: Seq<char>,
)
    ensures
        view::child_names(config, allow_delegate).contains(n) <==> {
            ||| n == "shell.exec"@ && config.delegate.allow_shell_in_child
            ||| (n == "delegate"@ || n == "delegate_async"@) && allow_delegate
                && config.delegate.enabled
            ||| n != "shell.exec"@ && text::texts(config.delegate.child_tool_allowlist@).contains(n)
                && is_core_tool(n) && {
                ||| is_always_tool(n)
                ||| is_browser_tool(n) && config.browser.enabled
                ||| is_fetch_tool(n) && config.web.enabled
                ||| is_search_tool(n) && config.web_search.enabled
            }
        },
{
    let rule = ViewRule::Child(config);
    let rows = catalog::catalog_rows();
    let shown = view::names_shown(rows, rule);
    let more = view::delegate_names(config, allow_delegate);
    let all = shown + more;
    lemma_delegates_run();
    assert(view::set_of(all).contains(n) <==> view::set_of(shown).contains(n) || more.contains(n))
        by {
        if all.contains(n) {
            let k = all.index_of(n);
            if k < shown.len() {
                assert(shown[k] == n);
            } else {
                assert(more[k - shown.len()] == n);
            }
        }
        if shown.contains(n) {
            assert(all[shown.index_of(n)] == n);
        }
        if more.contains(n) {
            assert(all[shown.len() + more.index_of(n)] == n);
        }
    }
    assert(more.contains(n) <==> (n == "delegate"@ || n == "delegate_async"@) && allow_delegate
        && config.delegate.enabled) by {
        if allow_delegate && config.delegate.enabled {
            assert(more[0] == "delegate"@ && more[1] == "delegate_async"@);
        }
    }
    if view::set_of(shown).contains(n) {
        let i = lemma_shown_is_of_a_row(rule, n);
        lemma_row_by_name(i);
    }
    lemma_rows_of_names(rule, n);
    lemma_core_families(n);
}

proof fn lemma_delegates_run()
    ensures
        view::runs("delegate"@),
        view::runs("delegate_async"@),
{
    order::law_tools_are_found_by_name(14);
    order::law_tools_are_found_by_name(15);
}

/// The core tools by the gates that they stand behind.
proof fn lemma_core_families(n: Seq<char>)
    ensures
        is_core_tool(n) ==> is_always_tool(n) || is_browser_tool(n) || is_companion_tool(n)
            || is_skill_tool(n) || is_fetch_tool(n) || is_search_tool(n),
{
}

// Descriptions.

/// The tools that providers see at once are these, and every other is found by search.
pub proof fn law_core_tools_are_shown_at_once(i: int)
    requires
        0 <= i < catalog::catalog_rows().len(),
    ensures
        ({
            let d = catalog::catalog_rows()[i];
            let n = d.name;
            &&& d.exposure == ToolExposureClass::ProviderCore <==> {
                ||| n == "browser.open"@
                ||| n == "shell.exec"@
                ||| n == "tool.invoke"@
                ||| n == "tool.search"@
                ||| n == "web.search"@
            }
            &&& d.availability == ToolAvailability::Runtime
        }),
{
    lemma_names_differ();
    let t = TOOLS@;
    assert(t[12].0@ == "browser.open"@);
    assert(t[36].0@ == "shell.exec"@);
    assert(t[37].0@ == "tool.invoke"@);
    assert(t[38].0@ == "tool.search"@);
    assert(t[40].0@ == "web.search"@);
    assert(catalog::catalog_rows()[i].name == t[i].0@);
}

/// Calls that change the layout of sessions, or act in a page or on a session, need approval;
/// no others do.
pub proof fn law_approval_is_needed_for_these(n: Seq<char>)
    ensures
        ({
            let g = catalog::governance(n);
            &&& g.scope == ToolGovernanceScope::TopologyMutation <==> n == "delegate"@ || n
                == "delegate_async"@
            &&& g.risk_class == ToolRiskClass::High <==> n == "delegate"@ || n == "delegate_async"@
                || n == "browser.companion.click"@ || n == "browser.companion.type"@
            &&& g.risk_class == ToolRiskClass::Elevated <==> n == "session_archive"@ || n
                == "session_cancel"@ || n == "session_recover"@ || n == "sessions_send"@
            &&& g.approval_mode == ToolApprovalMode::PolicyDriven <==> n == "delegate"@ || n
                == "delegate_async"@ || n == "browser.companion.click"@ || n
                == "browser.companion.type"@ || n == "session_archive"@ || n == "session_cancel"@
                || n == "session_recover"@ || n == "sessions_send"@
        }),
{
    lemma_governed_names_differ();
}

proof fn lemma_governed_names_differ()
    ensures
        "delegate"@ != "delegate_async"@,
        "delegate"@ != "browser.companion.click"@,
        "delegate"@ != "browser.companion.type"@,
        "delegate"@ != "session_archive"@,
        "delegate"@ != "session_cancel"@,
        "delegate"@ != "session_recover"@,
        "delegate"@ != "sessions_send"@,
        "delegate_async"@ != "browser.companion.click"@,
        "delegate_async"@ != "browser.companion.type"@,
        "delegate_async"@ != "session_archive"@,
        "delegate_async"@ != "session_cancel"@,
        "delegate_async"@ != "session_recover"@,
        "delegate_async"@ != "sessions_send"@,
        "browser.companion.click"@ != "browser.companion.type"@,
        "browser.companion.click"@ != "session_archive"@,
        "browser.companion.click"@ != "session_cancel"@,
        "browser.companion.click"@ != "session_recover"@,
        "browser.companion.click"@ != "sessions_send"@,
        "browser.companion.type"@ != "session_archive"@,
        "browser.companion.type"@ != "session_cancel"@,
        "browser.companion.type"@ != "session_recover"@,
        "browser.companion.type"@ != "sessions_send"@,
        "session_archive"@ != "session_cancel"@,
        "session_archive"@ != "session_recover"@,
        "session_archive"@ != "sessions_send"@,
        "session_cancel"@ != "session_recover"@,
        "session_cancel"@ != "sessions_send"@,
        "session_recover"@ != "sessions_send"@,
{
    lemma_names_differ();
    let t = TOOLS@;
    assert(t[14].0@ == "delegate"@);
    assert(t[15].0@ == "delegate_async"@);
    assert(t[4].0@ == "browser.companion.click"@);
    assert(t[9].0@ == "browser.companion.type"@);
    assert(t[27].0@ == "session_archive"@);
    assert(t[28].0@ == "session_cancel"@);
    assert(t[30].0@ == "session_recover"@);
    assert(t[35].0@ == "sessions_send"@);
}

/// Only calls that read run beside others.
pub proof fn law_only_reading_runs_in_parallel(n: Seq<char>)
    ensures
        catalog::scheduling(n) == ToolSchedulingClass::ParallelSafe <==> n == "tool.search"@ || n
            == "file.read"@ || n == "web.fetch"@ || n == "web.search"@ || n == "sessions_list"@,
{
}

/// An entry of the catalog tells of its tool what the tool is.
pub proof fn law_entries_describe_their_tools(d: DescriptorView)
    ensures
        ({
            let e = catalog::entry_of(d);
            &&& e.canonical_name == d.name
            &&& e.provider_function_name == d.provider_name
            &&& e.summary == d.description
            &&& e.exposure == d.exposure
            &&& e.execution_kind == d.execution_kind
            &&& e.availability == d.availability
            &&& e.argument_hint == catalog::argument_hint_of(d.name)
            &&& e.scheduling_class == catalog::scheduling(d.name)
        }),
{
}

/// A catalog of one exposure holds every tool of it once, in the order of the catalog, and no
/// other; together the two hold all.
pub proof fn law_catalogs_hold_their_tools(
    a: Seq<DescriptorView>,
    d: DescriptorView,
    b: Seq<DescriptorView>,
    exposure: Option<ToolExposureClass>,
)
    ensures
        catalog::entries_with(a + b, exposure) == catalog::entries_with(a, exposure)
            + catalog::entries_with(b, exposure),
        catalog::entries_with(seq![d], exposure) == (if exposure is None || exposure
            == Some(d.exposure) {
            seq![catalog::entry_of(d)]
        } else {
            Seq::<EntryView>::empty()
        }),
        catalog::entries_with(a, None).len() == a.len(),
        forall|i: int|
            0 <= i < a.len() ==> (#[trigger] catalog::entries_with(a, None)[i])
                == catalog::entry_of(a[i]),
    decreases b.len() + a.len(),
{
    assert(seq![d].drop_last() =~= Seq::<DescriptorView>::empty());
    assert(catalog::entries_with(seq![d].drop_last(), exposure) =~= Seq::<EntryView>::empty());
    assert(Seq::<EntryView>::empty().push(catalog::entry_of(d)) =~= seq![catalog::entry_of(d)]);
    if b.len() > 0 {
        law_catalogs_hold_their_tools(a, d, b.drop_last(), exposure);
        assert((a + b).drop_last() =~= a + b.drop_last());
    } else {
        assert(a + b =~= a);
        if a.len() > 0 {
            law_catalogs_hold_their_tools(a.drop_last(), d, b, exposure);
        }
    }
    assert(catalog::entries_with(a + b, exposure) =~= catalog::entries_with(a, exposure)
        + catalog::entries_with(b, exposure));
}

/// A table is read whole and in its order: what it gives for a key is what its first rows
/// give, followed by what the others give, and a row gives its value under its own key only.
pub proof fn law_tables_are_read_whole(
    a: Seq<(&'static str, &'static str)>,
    row: (&'static str, &'static str),
    b: Seq<(&'static str, &'static str)>,
    key: Seq<char>,
)
    ensures
        catalog::values_for(a + b, key) == catalog::values_for(a, key) + catalog::values_for(
            b,
            key,
        ),
        catalog::values_for(seq![row], key) == (if row.0@ == key {
            seq![row.1@]
        } else {
            Seq::<Seq<char>>::empty()
        }),
    decreases b.len(),
{
    assert(seq![row].drop_last() =~= Seq::<(&'static str, &'static str)>::empty());
    reveal_with_fuel(catalog::values_for, 2);
    assert(seq![row].last() == row);
    assert(Seq::<Seq<char>>::empty().push(row.1@) =~= seq![row.1@]);
    if b.len() > 0 {
        law_tables_are_read_whole(a, row, b.drop_last(), key);
        assert((a + b).drop_last() =~= a + b.drop_last());
    } else {
        assert(a + b =~= a);
    }
    assert(catalog::values_for(a + b, key) =~= catalog::values_for(a, key) + catalog::values_for(
        b,
        key,
    ));
}

/// The properties of a definition are those that the table has for the tool, each with its
/// type, in the order of the table.
pub proof fn law_properties_are_read_whole(
    a: Seq<(&'static str, &'static str, &'static str, &'static str)>,
    row: (&'static str, &'static str, &'static str, &'static str),
    b: Seq<(&'static str, &'static str, &'static str, &'static str)>,
    tool: Seq<char>,
    settings: ToolSchemaSettings,
)
    ensures
        schema::properties_json(a + b, tool, settings) == schema::properties_json(
            a,
            tool,
            settings,
        ) + schema::properties_json(b, tool, settings),
        row.0@ != tool ==> schema::properties_json(seq![row], tool, settings).len() == 0,
        row.0@ == tool ==> {
            let one = schema::properties_json(seq![row], tool, settings);
            &&& one.len() == 1
            &&& one[0].0 == row.1@
            &&& one[0].1.str_at("type"@) == Some(row.2@)
        },
    decreases b.len(),
{
    reveal_with_fuel(schema::properties_json, 2);
    assert(seq![row].last() == row);
    assert(seq![row].drop_last().len() == 0);
    let one = schema::properties_json(seq![row], tool, settings);
    if row.0@ == tool {
        lemma_property_type(tool, row.1@, row.2@, row.3@, settings);
    }
    if b.len() > 0 {
        law_properties_are_read_whole(a, row, b.drop_last(), tool, settings);
        assert((a + b).drop_last() =~= a + b.drop_last());
    } else {
        assert(a + b =~= a);
    }
    assert(schema::properties_json(a + b, tool, settings) =~= schema::properties_json(
        a,
        tool,
        settings,
    ) + schema::properties_json(b, tool, settings));
}

proof fn lemma_property_type(
    tool: Seq<char>,
    property: Seq<char>,
    kind: Seq<char>,
    given: Seq<char>,
    settings: ToolSchemaSettings,
)
    ensures
        schema::property_json(tool, property, kind, given, settings).str_at("type"@) == Some(kind),
{
    let e = schema::property_json(tool, property, kind, given, settings)->Object_0;
    assert(e[0] == ("type"@, JsonView::Text(kind)));
}

/// A definition names the tool as providers call it, and describes an object whose properties
/// are those of the table.
pub proof fn law_definitions_name_the_tool(d: DescriptorView, settings: ToolSchemaSettings)
    ensures
        ({
            let definition = schema::definition_json(d, settings);
            let function = definition.get("function"@);
            let parameters = function->0.get("parameters"@);
            &&& definition.str_at("type"@) == Some("function"@)
            &&& function is Some
            &&& function->0.str_at("name"@) == Some(d.provider_name)
            &&& parameters is Some
            &&& parameters->0.str_at("type"@) == Some("object"@)
            &&& parameters->0.get("properties"@) == Some(
                JsonView::Object(schema::properties_json(SCHEMA_PROPERTIES@, d.name, settings)),
            )
        }),
{
    reveal_strlit("type");
    reveal_strlit("function");
    reveal_strlit("name");
    reveal_strlit("description");
    reveal_strlit("parameters");
    reveal_strlit("properties");
    reveal_with_fuel(json::lookup, 4);
    let definition = schema::definition_json(d, settings);
    let top = definition->Object_0;
    assert("type"@.len() == 4 && "function"@.len() == 8 && "name"@.len() == 4);
    assert("type"@[0] == 't' && "name"@[0] == 'n');
    assert("description"@.len() == 11 && "parameters"@.len() == 10 && "properties"@.len() == 10);
    assert(top.skip(1)[0] == top[1]);
    let inner = top[1].1->Object_0;
    assert(inner.skip(1)[0] == inner[1]);
    assert(inner.skip(1).skip(1)[0] == inner[2]);
    let parameters = schema::parameters_json(d, settings);
    let p = parameters->Object_0;
    assert(p[0] == ("type"@, JsonView::Text("object"@)));
    assert(p[1].0 == "properties"@);
    assert(p.skip(1)[0] == p[1]);
}

proof fn lemma_lookup_joined(
    a: Seq<(Seq<char>, JsonView)>,
    b: Seq<(Seq<char>, JsonView)>,
    key: Seq<char>,
)
    ensures
        json::lookup(a + b, key) == (match json::lookup(a, key) {
            Some(v) => Some(v),
            None => json::lookup(b, key),
        }),
    decreases a.len(),
{
    if a.len() == 0 {
        assert(a + b =~= b);
    } else {
        assert((a + b).skip(1) =~= a.skip(1) + b);
        lemma_lookup_joined(a.skip(1), b, key);
    }
}

proof fn lemma_one(key: Seq<char>, value: JsonView, other: Seq<char>)
    ensures
        json::lookup(seq![(key, value)], key) == Some(value),
        other != key ==> json::lookup(seq![(key, value)], other) is None,
        json::lookup(Seq::<(Seq<char>, JsonView)>::empty(), other) is None,
{
    let e = seq![(key, value)];
    assert(e[0] == (key, value));
    assert(e.skip(1).len() == 0);
    assert(json::lookup(e.skip(1), other) is None);
}

proof fn lemma_schema_keys()
    ensures
        "type"@ != "minimum"@,
        "type"@ != "maximum"@,
        "type"@ != "minLength"@,
        "type"@ != "enum"@,
        "type"@ != "items"@,
        "type"@ != "minItems"@,
        "minimum"@ != "maximum"@,
        "minimum"@ != "minLength"@,
        "minimum"@ != "enum"@,
        "maximum"@ != "minLength"@,
        "maximum"@ != "enum"@,
        "minLength"@ != "enum"@,
        "minItems"@ != "minimum"@,
        "minItems"@ != "maximum"@,
        "items"@ != "minimum"@,
        "items"@ != "maximum"@,
        "description"@ != "type"@,
        "description"@ != "minimum"@,
        "description"@ != "maximum"@,
        "description"@ != "minLength"@,
        "description"@ != "enum"@,
        "description"@ != "items"@,
        "description"@ != "minItems"@,
        "required"@ != "type"@,
        "required"@ != "properties"@,
        "additionalProperties"@ != "type"@,
        "additionalProperties"@ != "properties"@,
        "additionalProperties"@ != "required"@,
        "additionalProperties"@ != "anyOf"@,
        "additionalProperties"@ != "oneOf"@,
        "anyOf"@ != "type"@,
        "anyOf"@ != "properties"@,
        "oneOf"@ != "type"@,
        "oneOf"@ != "properties"@,
        "anyOf"@ != "oneOf"@,
        "required"@ != "anyOf"@,
        "required"@ != "oneOf"@,
{
    reveal_strlit("type");
    reveal_strlit("minimum");
    reveal_strlit("maximum");
    reveal_strlit("minLength");
    reveal_strlit("enum");
    reveal_strlit("items");
    reveal_strlit("minItems");
    reveal_strlit("description");
    reveal_strlit("required");
    reveal_strlit("properties");
    reveal_strlit("additionalProperties");
    reveal_strlit("anyOf");
    reveal_strlit("oneOf");
    assert("type"@.len() == 4 && "minimum"@.len() == 7 && "maximum"@.len() == 7
        && "minLength"@.len() == 9 && "enum"@.len() == 4 && "items"@.len() == 5
        && "minItems"@.len() == 8 && "description"@.len() == 11 && "required"@.len() == 8
        && "properties"@.len() == 10 && "additionalProperties"@.len() == 20 && "anyOf"@.len() == 5
        && "oneOf"@.len() == 5);
    assert("type"@[0] == 't' && "enum"@[0] == 'e' && "minimum"@[1] == 'i' && "maximum"@[1] == 'a');
    assert("anyOf"@[0] == 'a' && "oneOf"@[0] == 'o');
}

/// A property says its type, what it is, its least and its greatest value, and the values that
/// it chooses from, each where there is one.
pub proof fn law_properties_say_their_limits(
    tool: Seq<char>,
    property: Seq<char>,
    kind: Seq<char>,
    given: Seq<char>,
    settings: ToolSchemaSettings,
)
    ensures
        ({
            let p = schema::property_json(tool, property, kind, given, settings);
            &&& p.str_at("type"@) == Some(kind)
            &&& p.str_at("description"@) == Some(
                schema::property_description(tool, property, given, settings),
            )
            &&& p.get("minimum"@) == (match schema::number_for(SCHEMA_MINIMUMS@, tool, property) {
                Some(n) => Some(JsonView::Integer(n as int)),
                None => None,
            })
            &&& p.get("maximum"@) == (match schema::maximum_of(tool, property, settings) {
                Some(n) => Some(JsonView::Integer(n as int)),
                None => None,
            })
        }),
{
    lemma_schema_keys();
    let minimum = schema::number_for(SCHEMA_MINIMUMS@, tool, property);
    let maximum = schema::maximum_of(tool, property, settings);
    let filled = if schema::holds(SCHEMA_FILLED_STRINGS@, tool, property) {
        Some(1u64)
    } else {
        None
    };
    let items = if schema::holds(SCHEMA_FILLED_LISTS@, tool, property) {
        Some(1u64)
    } else {
        None
    };
    let a = seq![("type"@, JsonView::Text(kind))];
    let b = schema::number_entry("minimum"@, minimum);
    let c = schema::number_entry("maximum"@, maximum);
    let d = schema::number_entry("minLength"@, filled);
    let choices = schema::property_choices(tool, property, settings);
    let e = schema::choices_entry(choices);
    let list = schema::holds(SCHEMA_LISTS@, tool, property);
    let f = schema::items_entry(list);
    let g = schema::number_entry("minItems"@, items);
    let described = schema::property_description(tool, property, given, settings);
    let h = seq![("description"@, JsonView::Text(described))];
    let all = schema::property_json(tool, property, kind, given, settings)->Object_0;
    assert(all == a + b + c + d + e + f + g + h);
    lemma_property_keys(a, b, c, d, e, f, g, h, "type"@);
    lemma_property_keys(a, b, c, d, e, f, g, h, "minimum"@);
    lemma_property_keys(a, b, c, d, e, f, g, h, "maximum"@);
    lemma_property_keys(a, b, c, d, e, f, g, h, "description"@);
    lemma_one("type"@, JsonView::Text(kind), "minimum"@);
    lemma_one("type"@, JsonView::Text(kind), "maximum"@);
    lemma_one("type"@, JsonView::Text(kind), "description"@);
    lemma_numbers("minimum"@, minimum, "maximum"@);
    lemma_numbers("minimum"@, minimum, "description"@);
    lemma_numbers("maximum"@, maximum, "minimum"@);
    lemma_numbers("maximum"@, maximum, "description"@);
    lemma_numbers("minLength"@, filled, "minimum"@);
    lemma_numbers("minLength"@, filled, "maximum"@);
    lemma_numbers("minLength"@, filled, "description"@);
    lemma_numbers("minItems"@, items, "minimum"@);
    lemma_numbers("minItems"@, items, "maximum"@);
    lemma_numbers("minItems"@, items, "description"@);
    lemma_choices(choices, "minimum"@);
    lemma_choices(choices, "maximum"@);
    lemma_choices(choices, "description"@);
    lemma_items(list, "minimum"@);
    lemma_items(list, "maximum"@);
    lemma_items(list, "description"@);
    lemma_one("description"@, JsonView::Text(described), "minimum"@);
    lemma_one("description"@, JsonView::Text(described), "maximum"@);
}

proof fn lemma_property_keys(
    a: Seq<(Seq<char>, JsonView)>,
    b: Seq<(Seq<char>, JsonView)>,
    c: Seq<(Seq<char>, JsonView)>,
    d: Seq<(Seq<char>, JsonView)>,
    e: Seq<(Seq<char>, JsonView)>,
    f: Seq<(Seq<char>, JsonView)>,
    g: Seq<(Seq<char>, JsonView)>,
    h: Seq<(Seq<char>, JsonView)>,
    key: Seq<char>,
)
    ensures
        json::lookup(a + b + c + d + e + f + g + h, key) == (if json::lookup(a, key) is Some {
            json::lookup(a, key)
        } else if json::lookup(b, key) is Some {
            json::lookup(b, key)
        } else if json::lookup(c, key) is Some {
            json::lookup(c, key)
        } else if json::lookup(d, key) is Some {
            json::lookup(d, key)
        } else if json::lookup(e, key) is Some {
            json::lookup(e, key)
        } else if json::lookup(f, key) is Some {
            json::lookup(f, key)
        } else if json::lookup(g, key) is Some {
            json::lookup(g, key)
        } else {
            json::lookup(h, key)
        }),
{
    lemma_lookup_joined(a, b, key);
    lemma_lookup_joined(a + b, c, key);
    lemma_lookup_joined(a + b + c, d, key);
    lemma_lookup_joined(a + b + c + d, e, key);
    lemma_lookup_joined(a + b + c + d + e, f, key);
    lemma_lookup_joined(a + b + c + d + e + f, g, key);
    lemma_lookup_joined(a + b + c + d + e + f + g, h, key);
}

proof fn lemma_numbers(key: Seq<char>, n: Option<u64>, other: Seq<char>)
    requires
        other != key,
    ensures
        json::lookup(schema::number_entry(key, n), key) == (match n {
            Some(x) => Some(JsonView::Integer(x as int)),
            None => None,
        }),
        json::lookup(schema::number_entry(key, n), other) is None,
{
    if let Some(x) = n {
        lemma_one(key, JsonView::Integer(x as int), other);
    }
}

proof fn lemma_choices(v: Option<Seq<Seq<char>>>, other: Seq<char>)
    requires
        other != "enum"@,
    ensures
        json::lookup(schema::choices_entry(v), other) is None,
{
    if let Some(x) = v {
        lemma_one("enum"@, schema::text_array(x), other);
    }
}

proof fn lemma_items(list: bool, other: Seq<char>)
    requires
        other != "items"@,
    ensures
        json::lookup(schema::items_entry(list), other) is None,
{
    if list {
        lemma_one(
            "items"@,
            JsonView::Object(seq![("type"@, JsonView::Text("string"@))]),
            other,
        );
    }
}

/// A definition requires the fields that the table has for the tool: all of them, any, or one;
/// it allows no others exactly where the table says so.
pub proof fn law_definitions_require_their_fields(d: DescriptorView, settings: ToolSchemaSettings)
    ensures
        ({
            let p = schema::parameters_json(d, settings);
            let fields = catalog::values_for(SCHEMA_REQUIRED@, d.name);
            let (_, kind, no_others) = schema::schema_of(d);
            &&& kind == RequirementKind::All ==> p.get("required"@) == Some(
                JsonView::Array(Seq::new(fields.len(), |i: int| JsonView::Text(fields[i]))),
            )
            &&& kind != RequirementKind::All ==> p.get("required"@) is None
            &&& kind == RequirementKind::AnyOf <==> p.get("anyOf"@) is Some
            &&& kind == RequirementKind::OneOf <==> p.get("oneOf"@) is Some
            &&& no_others <==> p.get("additionalProperties"@) == Some(JsonView::Bool(false))
        }),
{
    lemma_schema_keys();
    let fields = catalog::values_for(SCHEMA_REQUIRED@, d.name);
    let (_, kind, no_others) = schema::schema_of(d);
    let properties = JsonView::Object(
        schema::properties_json(SCHEMA_PROPERTIES@, d.name, settings),
    );
    let a = seq![("type"@, JsonView::Text("object"@))];
    let b = seq![("properties"@, properties)];
    let c = schema::requirement_entry(kind, fields);
    let e = if no_others {
        seq![("additionalProperties"@, JsonView::Bool(false))]
    } else {
        Seq::empty()
    };
    let all = schema::parameters_json(d, settings)->Object_0;
    assert(all =~= a + b + c + e);
    lemma_four(a, b, c, e, "required"@);
    lemma_four(a, b, c, e, "anyOf"@);
    lemma_four(a, b, c, e, "oneOf"@);
    lemma_four(a, b, c, e, "additionalProperties"@);
    lemma_one("type"@, JsonView::Text("object"@), "required"@);
    lemma_one("type"@, JsonView::Text("object"@), "anyOf"@);
    lemma_one("type"@, JsonView::Text("object"@), "oneOf"@);
    lemma_one("type"@, JsonView::Text("object"@), "additionalProperties"@);
    lemma_one("properties"@, properties, "required"@);
    lemma_one("properties"@, properties, "anyOf"@);
    lemma_one("properties"@, properties, "oneOf"@);
    lemma_one("properties"@, properties, "additionalProperties"@);
    lemma_requirement(kind, fields, "required"@);
    lemma_requirement(kind, fields, "anyOf"@);
    lemma_requirement(kind, fields, "oneOf"@);
    lemma_requirement(kind, fields, "additionalProperties"@);
    lemma_one("additionalProperties"@, JsonView::Bool(false), "required"@);
    lemma_one("additionalProperties"@, JsonView::Bool(false), "anyOf"@);
    lemma_one("additionalProperties"@, JsonView::Bool(false), "oneOf"@);
    assert(schema::text_array(fields) =~= JsonView::Array(
        Seq::new(fields.len(), |i: int| JsonView::Text(fields[i])),
    ));
}

proof fn lemma_requirement(kind: RequirementKind, fields: Seq<Seq<char>>, key: Seq<char>)
    ensures
        ({
            let found = json::lookup(schema::requirement_entry(kind, fields), key);
            match kind {
                RequirementKind::Nothing => found is None,
                RequirementKind::All => found == (if key == "required"@ {
                    Some(schema::text_array(fields))
                } else {
                    None
                }),
                RequirementKind::AnyOf => found == (if key == "anyOf"@ {
                    Some(schema::alternatives(fields))
                } else {
                    None
                }),
                RequirementKind::OneOf => found == (if key == "oneOf"@ {
                    Some(schema::alternatives(fields))
                } else {
                    None
                }),
            }
        }),
{
    lemma_one("required"@, schema::text_array(fields), key);
    lemma_one("anyOf"@, schema::alternatives(fields), key);
    lemma_one("oneOf"@, schema::alternatives(fields), key);
}

proof fn lemma_four(
    a: Seq<(Seq<char>, JsonView)>,
    b: Seq<(Seq<char>, JsonView)>,
    c: Seq<(Seq<char>, JsonView)>,
    d: Seq<(Seq<char>, JsonView)>,
    key: Seq<char>,
)
    ensures
        json::lookup(a + b + c + d, key) == (if json::lookup(a, key) is Some {
            json::lookup(a, key)
        } else if json::lookup(b, key) is Some {
            json::lookup(b, key)
        } else if json::lookup(c, key) is Some {
            json::lookup(c, key)
        } else {
            json::lookup(d, key)
        }),
{
    lemma_lookup_joined(a, b, key);
    lemma_lookup_joined(a + b, c, key);
    lemma_lookup_joined(a + b + c, d, key);
}

/// A choice of fields asks for each of them by itself, in their order.
pub proof fn law_alternatives_ask_for_one_field_each(fields: Seq<Seq<char>>, i: int)
    requires
        0 <= i < fields.len(),
    ensures
        schema::alternatives(fields)->Array_0.len() == fields.len(),
        schema::alternatives(fields)->Array_0[i].array_at("required"@) == Some(
            seq![JsonView::Text(fields[i])],
        ),
{
    let one = schema::text_array(seq![fields[i]]);
    lemma_one("required"@, one, "type"@);
    assert(one->Array_0 =~= seq![JsonView::Text(fields[i])]);
}

/// The values of a choice, and the number of a limit, are those of the table under the tool and
/// the property.
pub proof fn law_limits_are_those_of_the_table(
    a: Seq<(&'static str, &'static str, &'static str)>,
    row: (&'static str, &'static str, &'static str),
    t: Seq<(&'static str, &'static str, u64)>,
    tool: Seq<char>,
    property: Seq<char>,
)
    ensures
        schema::choices_for(a.push(row), tool, property) == (if row.0@ == tool && row.1@
            == property {
            schema::choices_for(a, tool, property).push(row.2@)
        } else {
            schema::choices_for(a, tool, property)
        }),
        t.len() > 0 && t[0].0@ == tool && t[0].1@ == property ==> schema::number_for(
            t,
            tool,
            property,
        ) == Some(t[0].2),
        t.len() > 0 && !(t[0].0@ == tool && t[0].1@ == property) ==> schema::number_for(
            t,
            tool,
            property,
        ) == schema::number_for(t.skip(1), tool, property),
        schema::number_for(Seq::empty(), tool, property) is None,
{
    assert(a.push(row).drop_last() =~= a);
}

/// The settings decide what the tables leave to them: the greatest page, the greatest number of
/// links, and the providers of a web search with what is said of them.
pub proof fn law_settings_fill_the_tables(
    tool: Seq<char>,
    property: Seq<char>,
    given: Seq<char>,
    settings: ToolSchemaSettings,
)
    ensures
        tool == "web.search"@ && property == "provider"@ ==> schema::property_choices(
            tool,
            property,
            settings,
        ) == Some(text::texts(settings.web_search_providers@)) && schema::property_description(
            tool,
            property,
            given,
            settings,
        ) == settings.web_search_provider_description@,
        schema::holds(SCHEMA_PAGE_LIMITED@, tool, property) ==> schema::maximum_of(
            tool,
            property,
            settings,
        ) == Some(settings.max_page_bytes),
        !schema::holds(SCHEMA_PAGE_LIMITED@, tool, property) && schema::holds(
            SCHEMA_LINK_LIMITED@,
            tool,
            property,
        ) ==> schema::maximum_of(tool, property, settings) == Some(settings.max_links),
        !(tool == "web.search"@ && property == "provider"@) && !(tool == "provider.switch"@
            && property == "selector"@) ==> schema::property_description(
            tool,
            property,
            given,
            settings,
        ) == given,
{
}

/// A view lists the tools of a catalog whose names it holds, in the order of the catalog.
pub proof fn law_views_list_their_tools(
    rows: Seq<DescriptorView>,
    d: DescriptorView,
    names: Set<Seq<char>>,
)
    ensures
        view::held(rows.push(d), names) == (if names.contains(d.name) {
            view::held(rows, names).push(d)
        } else {
            view::held(rows, names)
        }),
        view::held(Seq::empty(), names).len() == 0,
{
    assert(rows.push(d).drop_last() =~= rows);
}

/// Only the installation of a skill asks for one of two fields: a path or a bundled skill.
pub proof fn law_groups_of_fields_are_these(name: Seq<char>)
    ensures
        name == "external_skills.install"@ ==> catalog::required_groups(name) == seq![
            seq!["path"@],
            seq!["bundled_skill_id"@],
        ],
        name != "external_skills.install"@ ==> catalog::required_groups(name).len() == 0,
{
}

/// Where the definitions have a parameter.
spec fn place_of_parameter(i: int) -> int {
    if i < 2 {
        i + 108
    } else if i < 5 {
        i + 103
    } else if i < 8 {
        i + 23
    } else if i < 13 {
        i + 37
    } else if i < 14 {
        i + 41
    } else if i < 15 {
        i + 47
    } else if i < 19 {
        i + 35
    } else if i < 20 {
        i - 7
    } else if i < 22 {
        i - 10
    } else if i < 24 {
        i - 8
    } else if i < 27 {
        i - 5
    } else if i < 28 {
        i - 14
    } else if i < 30 {
        i - 20
    } else if i < 33 {
        i - 14
    } else if i < 34 {
        i + 22
    } else if i < 35 {
        i + 23
    } else if i < 37 {
        i + 24
    } else if i < 42 {
        i + 29
    } else if i < 46 {
        i + 20
    } else if i < 50 {
        i + 55
    } else if i < 51 {
        i + 21
    } else if i < 57 {
        i - 12
    } else if i < 58 {
        i + 15
    } else if i < 59 {
        i + 17
    } else if i < 60 {
        i + 19
    } else if i < 61 {
        i + 21
    } else if i < 62 {
        i + 23
    } else if i < 63 {
        i + 24
    } else if i < 64 {
        i + 27
    } else if i < 66 {
        i + 28
    } else if i < 68 {
        i + 33
    } else {
        i + 45
    }
}

/// Where the definitions have a required field.
spec fn place_of_field(i: int) -> int {
    if i < 1 {
        i + 50
    } else if i < 4 {
        i + 46
    } else if i < 6 {
        i + 16
    } else if i < 8 {
        i + 18
    } else if i < 9 {
        i + 1
    } else if i < 11 {
        i - 2
    } else if i < 12 {
        i
    } else if i < 13 {
        i + 3
    } else if i < 14 {
        i - 3
    } else if i < 16 {
        i - 9
    } else if i < 19 {
        i - 4
    } else if i < 22 {
        i + 10
    } else if i < 25 {
        i + 4
    } else if i < 26 {
        i + 21
    } else if i < 28 {
        i - 8
    } else if i < 29 {
        i + 4
    } else if i < 30 {
        i + 5
    } else if i < 32 {
        i + 6
    } else if i < 33 {
        i + 7
    } else if i < 34 {
        i + 8
    } else if i < 37 {
        i + 9
    } else {
        i + 15
    }
}

proof fn lemma_parameter_is_defined(i: int)
    requires
        0 <= i < PARAMETER_TYPES@.len(),
    ensures
        0 <= place_of_parameter(i) < SCHEMA_PROPERTIES@.len(),
        SCHEMA_PROPERTIES@[place_of_parameter(i)].0@ == PARAMETER_TYPES@[i].0@,
        SCHEMA_PROPERTIES@[place_of_parameter(i)].1@ == PARAMETER_TYPES@[i].1@,
        SCHEMA_PROPERTIES@[place_of_parameter(i)].2@ == PARAMETER_TYPES@[i].2@,
{
}

proof fn lemma_field_is_defined(i: int)
    requires
        0 <= i < REQUIRED_FIELDS@.len(),
    ensures
        0 <= place_of_field(i) < SCHEMA_REQUIRED@.len(),
        SCHEMA_REQUIRED@[place_of_field(i)].0@ == REQUIRED_FIELDS@[i].0@,
        SCHEMA_REQUIRED@[place_of_field(i)].1@ == REQUIRED_FIELDS@[i].1@,
{
}

/// Whether there is a property of a name and a type.
pub open spec fn has_property(
    all: Seq<(Seq<char>, JsonView)>,
    name: Seq<char>,
    kind: Seq<char>,
) -> bool {
    exists|k: int|
        0 <= k < all.len() && (#[trigger] all[k]).0 == name && all[k].1.str_at("type"@) == Some(
            kind,
        )
}

/// Every parameter that the catalog gives for a tool is a property of the tool's definition,
/// with the same type, and every field that it requires is one that the definition asks for.
pub proof fn law_definitions_have_the_parameters(i: int, settings: ToolSchemaSettings)
    ensures
        0 <= i < PARAMETER_TYPES@.len() ==> ({
            let (tool, parameter, kind) = PARAMETER_TYPES@[i];
            has_property(
                schema::properties_json(SCHEMA_PROPERTIES@, tool@, settings),
                parameter@,
                kind@,
            )
        }),
        0 <= i < REQUIRED_FIELDS@.len() ==> ({
            let (tool, field) = REQUIRED_FIELDS@[i];
            catalog::values_for(SCHEMA_REQUIRED@, tool@).contains(field@)
        }),
{
    if 0 <= i < PARAMETER_TYPES@.len() {
        lemma_parameter_is_defined(i);
        let _k = lemma_row_is_a_property(SCHEMA_PROPERTIES@, place_of_parameter(i), settings);
    }
    if 0 <= i < REQUIRED_FIELDS@.len() {
        lemma_field_is_defined(i);
        lemma_row_is_a_value(SCHEMA_REQUIRED@, place_of_field(i));
    }
}

proof fn lemma_row_is_a_property(
    t: Seq<(&'static str, &'static str, &'static str, &'static str)>,
    j: int,
    settings: ToolSchemaSettings,
) -> (k: int)
    requires
        0 <= j < t.len(),
    ensures
        ({
            let all = schema::properties_json(t, t[j].0@, settings);
            &&& 0 <= k < all.len()
            &&& all[k].0 == t[j].1@
            &&& all[k].1.str_at("type"@) == Some(t[j].2@)
        }),
    decreases t.len(),
{
    let tool = t[j].0@;
    let init = t.drop_last();
    let before = schema::properties_json(init, tool, settings);
    let all = schema::properties_json(t, tool, settings);
    if j < t.len() - 1 {
        assert(init[j] == t[j]);
        let k = lemma_row_is_a_property(init, j, settings);
        assert(all[k] == before[k]);
        k
    } else {
        lemma_property_type(tool, t[j].1@, t[j].2@, t[j].3@, settings);
        all.len() - 1
    }
}

proof fn lemma_row_is_a_value(t: Seq<(&'static str, &'static str)>, j: int)
    requires
        0 <= j < t.len(),
    ensures
        catalog::values_for(t, t[j].0@).contains(t[j].1@),
    decreases t.len(),
{
    let init = t.drop_last();
    let all = catalog::values_for(t, t[j].0@);
    if j < t.len() - 1 {
        assert(init[j] == t[j]);
        lemma_row_is_a_value(init, j);
        let before = catalog::values_for(init, t[j].0@);
        let k = before.index_of(t[j].1@);
        assert(all[k] == before[k]);
    } else {
        assert(all[all.len() - 1] == t[j].1@);
    }
}

// Names.

/// Every class of a tool has its name.
pub proof fn law_classes_have_these_names()
    ensures
        ToolSchedulingClass::SerialOnly.name() == "serial_only"@,
        ToolSchedulingClass::ParallelSafe.name() == "parallel_safe"@,
        ToolGovernanceScope::Routine.name() == "routine"@,
        ToolGovernanceScope::TopologyMutation.name() == "topology_mutation"@,
        ToolRiskClass::Low.name() == "low"@,
        ToolRiskClass::Elevated.name() == "elevated"@,
        ToolRiskClass::High.name() == "high"@,
        ToolApprovalMode::Never.name() == "never"@,
        ToolApprovalMode::PolicyDriven.name() == "policy_driven"@,
{
}

/// A name finds the first tool that has it, and nothing exactly where no tool has it.
pub proof fn law_names_find_the_first_tool(rows: Seq<DescriptorView>, name: Seq<char>, i: int)
    requires
        0 <= i < rows.len(),
    ensures
        rows[i].name == name && (forall|j: int| 0 <= j < i ==> (#[trigger] rows[j]).name != name)
            ==> catalog::named(rows, name) == Some(rows[i]),
        rows[i].matches(name) && (forall|j: int|
            0 <= j < i ==> !(#[trigger] rows[j]).matches(name)) ==> catalog::resolved(rows, name)
            == Some(rows[i]),
        (forall|j: int| 0 <= j < rows.len() ==> (#[trigger] rows[j]).name != name)
            ==> catalog::named(rows, name) is None,
        (forall|j: int| 0 <= j < rows.len() ==> !(#[trigger] rows[j]).matches(name))
            ==> catalog::resolved(rows, name) is None,
    decreases rows.len(),
{
    let rest = rows.skip(1);
    assert forall|j: int| 0 <= j < rest.len() implies #[trigger] rest[j] == rows[j + 1] by {}
    if rest.len() > 0 {
        let k = if i > 0 {
            i - 1
        } else {
            0
        };
        law_names_find_the_first_tool(rest, name, k);
    }
    assert(rows[0] == rows[0]);
}

/// A tool is found by search exactly where it runs and is not shown at once.
pub proof fn law_tools_are_found_that_run_and_are_not_shown(raw: Seq<char>)
    ensures
        match catalog::resolved(catalog::catalog_rows(), raw) {
            Some(d) => {
                &&& catalog::discoverable_name(raw) is Some <==> d.availability
                    is Runtime && d.exposure is Discoverable
                &&& catalog::discoverable_name(raw) is Some ==> catalog::discoverable_name(raw)
                    == Some(d.name)
            },
            None => catalog::discoverable_name(raw) is None,
        },
{
}

/// A property has a choice exactly where the table gives it one, or where it is the provider of
/// a web search; no choice is empty but for that one.
pub proof fn law_choices_are_those_of_the_table(
    tool: Seq<char>,
    property: Seq<char>,
    settings: ToolSchemaSettings,
)
    requires
        tool != "web.search"@ || property != "provider"@,
    ensures
        ({
            let given = schema::choices_for(SCHEMA_CHOICES@, tool, property);
            let choice = schema::property_choices(tool, property, settings);
            &&& given.len() == 0 ==> choice is None
            &&& given.len() > 0 ==> choice == Some(given)
        }),
{
}

} // verus!
