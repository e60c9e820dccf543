//! The catalog of tools.
use loongclaw::json::{render_json, Json};
use loongclaw::tools::catalog::{
    all_tool_catalog, canonical_tool_name, discoverable_tool_catalog, discoverable_tool_name,
    find_tool_catalog_entry, governance_profile_for_tool_name, provider_core_tool_catalog,
    scheduling_class_for_tool_name, tool_argument_hint, tool_catalog, tool_parameter_types,
    tool_required_fields, ToolApprovalMode, ToolExecutionKind, ToolRiskClass,
    ToolSchedulingClass, ToolVisibilityGate,
};
use loongclaw::tools::schema::ToolSchemaSettings;
use loongclaw::tools::view::{
    delegate_child_tool_view_for_config, delegate_child_tool_view_for_config_with_delegate,
    planned_root_tool_view, runtime_tool_view_for_config, runtime_tool_view_for_runtime_config,
    tool_visibility_gate_enabled_for_runtime_policy, tool_visibility_gate_enabled_for_runtime_view,
    ToolConfig, ToolRuntimeConfig, ToolView,
};
use serde_json::Value;

fn value(json: &Json) -> Value {
    serde_json::from_str(&render_json(json)).expect("json")
}

fn settings() -> ToolSchemaSettings {
    ToolSchemaSettings {
        max_page_bytes: 1_000,
        max_links: 40,
        provider_selector_summary: "a profile".to_owned(),
        web_search_providers: vec!["duckduckgo".to_owned()],
        web_search_provider_description: "where to search".to_owned(),
    }
}

#[test]
fn browser_companion_visibility_surface_requires_runtime_readiness_for_all_companion_tools() {
    let catalog = tool_catalog();
    let expected = [
        ("browser.companion.session.start", ToolExecutionKind::Core),
        ("browser.companion.navigate", ToolExecutionKind::Core),
        ("browser.companion.snapshot", ToolExecutionKind::Core),
        ("browser.companion.wait", ToolExecutionKind::Core),
        ("browser.companion.session.stop", ToolExecutionKind::Core),
        ("browser.companion.click", ToolExecutionKind::App),
        ("browser.companion.type", ToolExecutionKind::App),
    ];

    let mut hidden = ToolRuntimeConfig::default();
    hidden.browser_companion.enabled = true;
    hidden.browser_companion.ready = false;
    hidden.browser_companion.command = Some("browser-companion".to_owned());
    let hidden_view = runtime_tool_view_for_runtime_config(&hidden);

    let mut visible = ToolRuntimeConfig::default();
    visible.browser_companion.enabled = true;
    visible.browser_companion.ready = true;
    visible.browser_companion.command = Some("browser-companion".to_owned());
    let visible_view = runtime_tool_view_for_runtime_config(&visible);

    for (tool_name, execution_kind) in expected {
        let descriptor = catalog
            .resolve(tool_name)
            .unwrap_or_else(|| panic!("missing browser companion descriptor `{tool_name}`"));
        assert_eq!(
            descriptor.visibility_gate,
            ToolVisibilityGate::BrowserCompanion
        );
        assert_eq!(descriptor.execution_kind, execution_kind);
        assert!(
            !hidden_view.contains(tool_name),
            "tool should stay hidden until runtime-ready: {tool_name}"
        );
        assert!(
            visible_view.contains(tool_name),
            "tool should appear once runtime-ready: {tool_name}"
        );
    }
}

#[test]
fn browser_companion_visibility_gate_requires_runtime_readiness() {
    let mut config = ToolRuntimeConfig::default();
    config.browser_companion.enabled = true;
    config.browser_companion.ready = false;
    config.browser_companion.command = Some("browser-companion".to_owned());
    assert!(!tool_visibility_gate_enabled_for_runtime_policy(
        ToolVisibilityGate::BrowserCompanion,
        &config
    ));
    config.browser_companion.ready = true;
    assert!(tool_visibility_gate_enabled_for_runtime_policy(
        ToolVisibilityGate::BrowserCompanion,
        &config
    ));
}

#[test]
fn browser_companion_visibility_gate_stays_hidden_for_config_only_views() {
    let mut config = ToolConfig::default();
    config.browser_companion.enabled = true;
    assert!(!tool_visibility_gate_enabled_for_runtime_view(
        ToolVisibilityGate::BrowserCompanion,
        &config,
        false
    ));
}

#[test]
fn browser_visibility_gate_is_independent_from_companion_settings() {
    let mut config = ToolRuntimeConfig::default();
    config.browser.enabled = true;
    config.browser_companion.enabled = false;
    config.browser_companion.ready = false;
    assert!(tool_visibility_gate_enabled_for_runtime_policy(
        ToolVisibilityGate::Browser,
        &config
    ));
}

#[test]
fn delegate_child_tool_view_respects_visibility_gates() {
    let mut config = ToolConfig::default();
    config.web.enabled = false;
    config.delegate.child_tool_allowlist = vec!["web.fetch".to_owned()];
    let child_view = delegate_child_tool_view_for_config(&config);
    assert!(!child_view.contains("web.fetch"));
}

#[test]
fn scheduling_class_marks_parallel_safe_subset() {
    let catalog = tool_catalog();
    for name in ["tool.search", "file.read", "web.fetch", "sessions_list"] {
        assert_eq!(
            catalog
                .descriptor(name)
                .expect("descriptor")
                .scheduling_class(),
            ToolSchedulingClass::ParallelSafe
        );
    }
    assert_eq!(
        catalog
            .descriptor("delegate_async")
            .expect("delegate_async descriptor")
            .scheduling_class(),
        ToolSchedulingClass::SerialOnly
    );
}

#[test]
fn sessions_send_definition_mentions_generic_channel_sessions() {
    let catalog = tool_catalog();
    let descriptor = catalog
        .descriptor("sessions_send")
        .expect("sessions_send descriptor");
    let definition = value(&descriptor.provider_definition(&settings()));
    let description =
        definition["function"]["parameters"]["properties"]["session_id"]["description"]
            .as_str()
            .expect("session_id description");
    assert!(description.contains("channel-backed"));
    assert!(description.contains("Matrix"));
}

#[test]
fn definitions_describe_their_parameters() {
    let catalog = tool_catalog();
    let descriptor = catalog.descriptor("file.read").expect("file.read");
    let definition = value(&descriptor.provider_definition(&settings()));
    assert_eq!(definition["type"], "function");
    assert_eq!(definition["function"]["name"], "file_read");
    assert_eq!(definition["function"]["parameters"]["type"], "object");
    assert_eq!(
        definition["function"]["parameters"]["required"],
        serde_json::from_str::<Value>(r#"["path"]"#).expect("json")
    );
    assert_eq!(
        definition["function"]["parameters"]["properties"]["path"]["type"],
        "string"
    );
    for descriptor in catalog.descriptors() {
        let definition = value(&descriptor.provider_definition(&settings()));
        assert_eq!(definition["function"]["name"], descriptor.provider_name);
        assert!(definition["function"]["parameters"]["properties"].is_object());
        assert!(definition["function"]["description"].is_string());
    }
}

#[test]
fn tools_are_found_under_all_their_names() {
    let catalog = tool_catalog();
    assert_eq!(catalog.descriptors().len(), 41);
    assert_eq!(all_tool_catalog().len(), 41);
    assert_eq!(
        provider_core_tool_catalog().len() + discoverable_tool_catalog().len(),
        41
    );
    for descriptor in catalog.descriptors() {
        let found = catalog.resolve(descriptor.name).expect("by name");
        assert_eq!(found.name, descriptor.name);
        let found = catalog.resolve(descriptor.provider_name).expect("by alias");
        assert_eq!(found.name, descriptor.name);
    }
    assert!(catalog.resolve("no.such.tool").is_none());
    assert!(find_tool_catalog_entry("file.read").is_some());
    assert!(find_tool_catalog_entry("nothing").is_none());
    assert_eq!(canonical_tool_name("file_read"), "file.read");
    assert_eq!(canonical_tool_name("unknown_tool"), "unknown_tool");
    assert!(discoverable_tool_name("shell_exec").is_none());
}

#[test]
fn governance_follows_risk() {
    let profile = governance_profile_for_tool_name("file.read");
    assert_eq!(profile.approval_mode, ToolApprovalMode::Never);
    for descriptor in tool_catalog().descriptors() {
        let profile = governance_profile_for_tool_name(descriptor.name);
        if profile.risk_class == ToolRiskClass::High {
            assert_eq!(profile.approval_mode, ToolApprovalMode::PolicyDriven);
        }
    }
    assert_eq!(
        scheduling_class_for_tool_name("no.such.tool"),
        ToolSchedulingClass::SerialOnly
    );
}

#[test]
fn views_hold_what_the_settings_allow() {
    let none = runtime_tool_view_for_config(&ToolConfig::default());
    assert!(none.contains("file.read"));
    assert!(!none.contains("web.fetch"));
    let mut config = ToolConfig::default();
    config.web.enabled = true;
    let web = runtime_tool_view_for_config(&config);
    assert!(web.contains("web.fetch"));
    let root = planned_root_tool_view();
    assert_eq!(root.tool_names().len(), 41);
    assert_eq!(root.iter(&tool_catalog()).len(), 41);
    let pair = ToolView::from_tool_names(&vec!["b", "a", "b"]);
    assert_eq!(pair.tool_names(), &vec!["a".to_owned(), "b".to_owned()]);
    let one = ToolView::from_tool_names(&vec!["b", "c"]);
    assert_eq!(
        pair.intersect(&one).tool_names(),
        one.intersect(&pair).tool_names()
    );
    assert_eq!(pair.intersect(&one).tool_names(), &vec!["b".to_owned()]);
    assert!(ToolView::none().tool_names().is_empty());
}

#[test]
fn delegated_tasks_get_their_own_tools() {
    let mut config = ToolConfig::default();
    config.delegate.child_tool_allowlist =
        vec!["file.read".to_owned(), "shell.exec".to_owned()];
    let child = delegate_child_tool_view_for_config(&config);
    assert!(child.contains("file.read"));
    assert!(!child.contains("shell.exec"));
    assert!(!child.contains("delegate"));
    config.delegate.allow_shell_in_child = true;
    let child = delegate_child_tool_view_for_config(&config);
    assert!(child.contains("shell.exec"));
    config.delegate.enabled = true;
    let more = delegate_child_tool_view_for_config_with_delegate(&config, true);
    for name in child.tool_names() {
        assert!(more.contains(name));
    }
}

#[test]
fn hints_show_the_parameters() {
    let mut hinted = 0;
    for descriptor in tool_catalog().descriptors() {
        let required = descriptor.required_fields();
        let shown: Vec<String> = descriptor
            .parameter_types()
            .iter()
            .map(|(name, kind)| {
                let mark = if required.contains(name) { ":" } else { "?:" };
                let kind = if *kind == "array" { "string[]" } else { *kind };
                format!("{name}{mark}{kind}")
            })
            .collect();
        assert_eq!(descriptor.argument_hint(), shown.join(","));
        for field in required {
            assert!(descriptor.parameter_types().iter().any(|(name, _)| *name == field));
        }
        if !descriptor.argument_hint().is_empty() {
            hinted += 1;
        }
    }
    assert_eq!(hinted, 33);
    assert_eq!(
        tool_argument_hint("shell.exec"),
        "command:string,args?:string[],timeout_ms?:integer,cwd?:string"
    );
    assert_eq!(tool_argument_hint("unknown"), "");
    assert!(tool_parameter_types("unknown").is_empty());
    assert!(tool_required_fields("unknown").is_empty());
}

#[test]
fn a_name_means_one_tool() {
    let catalog = tool_catalog();
    for descriptor in catalog.descriptors() {
        let mut names = vec![descriptor.name, descriptor.provider_name];
        names.extend(descriptor.aliases.iter().copied());
        for name in names {
            let matching = catalog
                .descriptors()
                .iter()
                .filter(|other| other.matches_name(name))
                .count();
            assert_eq!(matching, 1);
            assert_eq!(canonical_tool_name(name), descriptor.name);
        }
    }
    assert_eq!(canonical_tool_name("shell"), "shell.exec");
    assert_eq!(canonical_tool_name("nothing"), "nothing");
}
