//! The tables of the tool catalog.
use crate::tools::catalog::{
    RequirementKind, ToolAvailability, ToolExecutionKind, ToolExposureClass, ToolVisibilityGate,
};
use vstd::prelude::*;

verus! {

/// The tools by name: their names, the names that providers call them by, another
/// name where they have one, what they do, how they run, whether they do, how they are
/// shown, and what shows them.
pub const TOOLS: [(
    &'static str,
    &'static str,
    &'static str,
    &'static str,
    ToolExecutionKind,
    ToolAvailability,
    ToolExposureClass,
    ToolVisibilityGate,
); 41] = [
    ("approval_request_resolve", "approval_request_resolve", "", "Resolve one visible governed tool approval request", ToolExecutionKind::App, ToolAvailability::Runtime, ToolExposureClass::Discoverable, ToolVisibilityGate::Sessions),
    ("approval_request_status", "approval_request_status", "", "Inspect full detail for a visible governed tool approval request", ToolExecutionKind::App, ToolAvailability::Runtime, ToolExposureClass::Discoverable, ToolVisibilityGate::Sessions),
    ("approval_requests_list", "approval_requests_list", "", "List visible governed tool approval requests across the current session scope", ToolExecutionKind::App, ToolAvailability::Runtime, ToolExposureClass::Discoverable, ToolVisibilityGate::Sessions),
    ("browser.click", "browser_click", "browser_click", "Follow one previously discovered page link within a bounded browser session", ToolExecutionKind::Core, ToolAvailability::Runtime, ToolExposureClass::Discoverable, ToolVisibilityGate::Browser),
    ("browser.companion.click", "browser_companion_click", "browser_companion_click", "Click a page element inside a governed browser companion session after policy review", ToolExecutionKind::App, ToolAvailability::Runtime, ToolExposureClass::Discoverable, ToolVisibilityGate::BrowserCompanion),
    ("browser.companion.navigate", "browser_companion_navigate", "browser_companion_navigate", "Navigate a governed browser companion session to a target URL", ToolExecutionKind::Core, ToolAvailability::Runtime, ToolExposureClass::Discoverable, ToolVisibilityGate::BrowserCompanion),
    ("browser.companion.session.start", "browser_companion_session_start", "browser_companion_session_start", "Start a governed browser companion session at a target URL", ToolExecutionKind::Core, ToolAvailability::Runtime, ToolExposureClass::Discoverable, ToolVisibilityGate::BrowserCompanion),
    ("browser.companion.session.stop", "browser_companion_session_stop", "browser_companion_session_stop", "Stop a governed browser companion session and release companion-side state", ToolExecutionKind::Core, ToolAvailability::Runtime, ToolExposureClass::Discoverable, ToolVisibilityGate::BrowserCompanion),
    ("browser.companion.snapshot", "browser_companion_snapshot", "browser_companion_snapshot", "Capture a readable snapshot of the current browser companion page", ToolExecutionKind::Core, ToolAvailability::Runtime, ToolExposureClass::Discoverable, ToolVisibilityGate::BrowserCompanion),
    ("browser.companion.type", "browser_companion_type", "browser_companion_type", "Type text into a page element inside a governed browser companion session after policy review", ToolExecutionKind::App, ToolAvailability::Runtime, ToolExposureClass::Discoverable, ToolVisibilityGate::BrowserCompanion),
    ("browser.companion.wait", "browser_companion_wait", "browser_companion_wait", "Wait inside a governed browser companion session for a condition or timeout window", ToolExecutionKind::Core, ToolAvailability::Runtime, ToolExposureClass::Discoverable, ToolVisibilityGate::BrowserCompanion),
    ("browser.extract", "browser_extract", "browser_extract", "Extract structured text or links from the current browser session page", ToolExecutionKind::Core, ToolAvailability::Runtime, ToolExposureClass::Discoverable, ToolVisibilityGate::Browser),
    ("browser.open", "browser_open", "browser_open", "Open a public web page into a bounded browser session with safe link discovery", ToolExecutionKind::Core, ToolAvailability::Runtime, ToolExposureClass::ProviderCore, ToolVisibilityGate::Browser),
    ("claw.migrate", "claw_migrate", "", "Migrate legacy Claw configs into native LoongClaw settings", ToolExecutionKind::Core, ToolAvailability::Runtime, ToolExposureClass::Discoverable, ToolVisibilityGate::Always),
    ("delegate", "delegate", "", "Delegate a focused subtask into a child session", ToolExecutionKind::App, ToolAvailability::Runtime, ToolExposureClass::Discoverable, ToolVisibilityGate::Delegate),
    ("delegate_async", "delegate_async", "", "Delegate a focused subtask into a background child session", ToolExecutionKind::App, ToolAvailability::Runtime, ToolExposureClass::Discoverable, ToolVisibilityGate::Delegate),
    ("external_skills.fetch", "external_skills_fetch", "", "Download external skills artifacts with domain policy and approval guards", ToolExecutionKind::Core, ToolAvailability::Runtime, ToolExposureClass::Discoverable, ToolVisibilityGate::ExternalSkills),
    ("external_skills.inspect", "external_skills_inspect", "", "Read metadata for a resolved external skill across managed, user, and project scopes", ToolExecutionKind::Core, ToolAvailability::Runtime, ToolExposureClass::Discoverable, ToolVisibilityGate::ExternalSkills),
    ("external_skills.install", "external_skills_install", "", "Install a managed external skill from a local directory or archive", ToolExecutionKind::Core, ToolAvailability::Runtime, ToolExposureClass::Discoverable, ToolVisibilityGate::ExternalSkills),
    ("external_skills.invoke", "external_skills_invoke", "", "Load a resolved external skill into the conversation loop", ToolExecutionKind::Core, ToolAvailability::Runtime, ToolExposureClass::Discoverable, ToolVisibilityGate::ExternalSkills),
    ("external_skills.list", "external_skills_list", "", "List resolved external skills across managed, user, and project scopes", ToolExecutionKind::Core, ToolAvailability::Runtime, ToolExposureClass::Discoverable, ToolVisibilityGate::ExternalSkills),
    ("external_skills.policy", "external_skills_policy", "", "Read/update external skills domain allow/block policy at runtime", ToolExecutionKind::Core, ToolAvailability::Runtime, ToolExposureClass::Discoverable, ToolVisibilityGate::Always),
    ("external_skills.remove", "external_skills_remove", "", "Remove an installed external skill from the managed runtime", ToolExecutionKind::Core, ToolAvailability::Runtime, ToolExposureClass::Discoverable, ToolVisibilityGate::ExternalSkills),
    ("file.edit", "file_edit", "", "Replace text in a file", ToolExecutionKind::Core, ToolAvailability::Runtime, ToolExposureClass::Discoverable, ToolVisibilityGate::Always),
    ("file.read", "file_read", "", "Read file contents", ToolExecutionKind::Core, ToolAvailability::Runtime, ToolExposureClass::Discoverable, ToolVisibilityGate::Always),
    ("file.write", "file_write", "", "Write file contents", ToolExecutionKind::Core, ToolAvailability::Runtime, ToolExposureClass::Discoverable, ToolVisibilityGate::Always),
    ("provider.switch", "provider_switch", "", "Inspect current provider state or switch the default provider profile for subsequent turns", ToolExecutionKind::Core, ToolAvailability::Runtime, ToolExposureClass::Discoverable, ToolVisibilityGate::Always),
    ("session_archive", "session_archive", "", "Archive a visible terminal session from default session listings", ToolExecutionKind::App, ToolAvailability::Runtime, ToolExposureClass::Discoverable, ToolVisibilityGate::Sessions),
    ("session_cancel", "session_cancel", "", "Cancel a visible async delegate child session", ToolExecutionKind::App, ToolAvailability::Runtime, ToolExposureClass::Discoverable, ToolVisibilityGate::Sessions),
    ("session_events", "session_events", "", "Fetch session events for a visible session", ToolExecutionKind::App, ToolAvailability::Runtime, ToolExposureClass::Discoverable, ToolVisibilityGate::Sessions),
    ("session_recover", "session_recover", "", "Recover an overdue queued async delegate child session by marking it failed", ToolExecutionKind::App, ToolAvailability::Runtime, ToolExposureClass::Discoverable, ToolVisibilityGate::Sessions),
    ("session_status", "session_status", "", "Inspect the current status of a visible session", ToolExecutionKind::App, ToolAvailability::Runtime, ToolExposureClass::Discoverable, ToolVisibilityGate::Sessions),
    ("session_wait", "session_wait", "", "Wait for a visible session to reach a terminal state", ToolExecutionKind::App, ToolAvailability::Runtime, ToolExposureClass::Discoverable, ToolVisibilityGate::Sessions),
    ("sessions_history", "sessions_history", "", "Fetch transcript history for a visible session", ToolExecutionKind::App, ToolAvailability::Runtime, ToolExposureClass::Discoverable, ToolVisibilityGate::Sessions),
    ("sessions_list", "sessions_list", "", "List visible sessions and their high-level state", ToolExecutionKind::App, ToolAvailability::Runtime, ToolExposureClass::Discoverable, ToolVisibilityGate::Sessions),
    ("sessions_send", "sessions_send", "", "Send an outbound text message to a known channel-backed root session", ToolExecutionKind::App, ToolAvailability::Runtime, ToolExposureClass::Discoverable, ToolVisibilityGate::Messages),
    ("shell.exec", "shell_exec", "shell", "Execute shell commands", ToolExecutionKind::Core, ToolAvailability::Runtime, ToolExposureClass::ProviderCore, ToolVisibilityGate::Always),
    ("tool.invoke", "tool_invoke", "", "Invoke a discovered non-core tool", ToolExecutionKind::Core, ToolAvailability::Runtime, ToolExposureClass::ProviderCore, ToolVisibilityGate::Always),
    ("tool.search", "tool_search", "", "Discover non-core tools", ToolExecutionKind::Core, ToolAvailability::Runtime, ToolExposureClass::ProviderCore, ToolVisibilityGate::Always),
    ("web.fetch", "web_fetch", "web_fetch", "Fetch a public web page with SSRF-safe guards and readable extraction", ToolExecutionKind::Core, ToolAvailability::Runtime, ToolExposureClass::Discoverable, ToolVisibilityGate::WebFetch),
    ("web.search", "web_search", "", "Search the web for APIs, documentation, and error messages using configured web search providers", ToolExecutionKind::Core, ToolAvailability::Runtime, ToolExposureClass::ProviderCore, ToolVisibilityGate::WebSearch),
];

/// What the arguments of a tool look like, in short.
pub const ARGUMENT_HINTS: [(&'static str, &'static str); 33] = [
    ("tool.search", "query:string,limit?:integer"),
    ("tool.invoke", "tool_id:string,lease:string,arguments:object"),
    ("claw.migrate", "input_path?:string,mode?:string,source?:string"),
    ("external_skills.fetch", "url:string,approval_granted?:boolean,save_as?:string,max_bytes?:integer"),
    ("external_skills.inspect", "skill_id:string"),
    ("external_skills.install", "path?:string,bundled_skill_id?:string,skill_id?:string,replace?:boolean"),
    ("external_skills.invoke", "skill_id:string"),
    ("external_skills.policy", "action?:string,enabled?:boolean,allowed_domains?:string[],blocked_domains?:string[]"),
    ("external_skills.remove", "skill_id:string"),
    ("browser.companion.session.start", "url:string"),
    ("browser.companion.navigate", "session_id:string,url:string"),
    ("browser.companion.snapshot", "session_id:string,mode?:string"),
    ("browser.companion.wait", "session_id:string,condition?:string,timeout_ms?:integer"),
    ("browser.companion.session.stop", "session_id:string"),
    ("browser.companion.click", "session_id:string,selector:string"),
    ("browser.companion.type", "session_id:string,selector:string,text:string"),
    ("file.read", "path:string,max_bytes?:integer"),
    ("file.write", "path:string,content:string,create_dirs?:boolean"),
    ("file.edit", "path:string,old_string:string,new_string:string,replace_all?:boolean"),
    ("shell.exec", "command:string,args?:string[],timeout_ms?:integer,cwd?:string"),
    ("provider.switch", "selector?:string"),
    ("delegate", "task:string,label?:string,timeout_seconds?:integer"),
    ("delegate_async", "task:string,label?:string,timeout_seconds?:integer"),
    ("session_archive", "session_id:string"),
    ("session_cancel", "session_id:string"),
    ("session_events", "session_id:string"),
    ("session_recover", "session_id:string"),
    ("session_status", "session_id:string"),
    ("session_wait", "session_id:string"),
    ("sessions_history", "session_id:string"),
    ("sessions_list", "limit?:integer,state?:string"),
    ("sessions_send", "session_id:string,text:string"),
    ("web.search", "query:string,provider?:string,max_results?:integer"),
];

/// The parameters of a tool and their types.
pub const PARAMETER_TYPES: [(&'static str, &'static str, &'static str); 71] = [
    ("tool.search", "query", "string"),
    ("tool.search", "limit", "integer"),
    ("tool.invoke", "tool_id", "string"),
    ("tool.invoke", "lease", "string"),
    ("tool.invoke", "arguments", "object"),
    ("claw.migrate", "input_path", "string"),
    ("claw.migrate", "mode", "string"),
    ("claw.migrate", "source", "string"),
    ("external_skills.fetch", "url", "string"),
    ("external_skills.fetch", "approval_granted", "boolean"),
    ("external_skills.fetch", "save_as", "string"),
    ("external_skills.fetch", "max_bytes", "integer"),
    ("external_skills.inspect", "skill_id", "string"),
    ("external_skills.invoke", "skill_id", "string"),
    ("external_skills.remove", "skill_id", "string"),
    ("external_skills.install", "path", "string"),
    ("external_skills.install", "bundled_skill_id", "string"),
    ("external_skills.install", "skill_id", "string"),
    ("external_skills.install", "replace", "boolean"),
    ("browser.companion.session.start", "url", "string"),
    ("browser.companion.navigate", "session_id", "string"),
    ("browser.companion.navigate", "url", "string"),
    ("browser.companion.snapshot", "session_id", "string"),
    ("browser.companion.snapshot", "mode", "string"),
    ("browser.companion.wait", "session_id", "string"),
    ("browser.companion.wait", "condition", "string"),
    ("browser.companion.wait", "timeout_ms", "integer"),
    ("browser.companion.session.stop", "session_id", "string"),
    ("browser.companion.click", "session_id", "string"),
    ("browser.companion.click", "selector", "string"),
    ("browser.companion.type", "session_id", "string"),
    ("browser.companion.type", "selector", "string"),
    ("browser.companion.type", "text", "string"),
    ("external_skills.policy", "action", "string"),
    ("external_skills.policy", "enabled", "boolean"),
    ("external_skills.policy", "allowed_domains", "array"),
    ("external_skills.policy", "blocked_domains", "array"),
    ("file.read", "path", "string"),
    ("file.read", "max_bytes", "integer"),
    ("file.write", "path", "string"),
    ("file.write", "content", "string"),
    ("file.write", "create_dirs", "boolean"),
    ("file.edit", "path", "string"),
    ("file.edit", "old_string", "string"),
    ("file.edit", "new_string", "string"),
    ("file.edit", "replace_all", "boolean"),
    ("shell.exec", "command", "string"),
    ("shell.exec", "args", "array"),
    ("shell.exec", "timeout_ms", "integer"),
    ("shell.exec", "cwd", "string"),
    ("provider.switch", "selector", "string"),
    ("delegate", "task", "string"),
    ("delegate", "label", "string"),
    ("delegate", "timeout_seconds", "integer"),
    ("delegate_async", "task", "string"),
    ("delegate_async", "label", "string"),
    ("delegate_async", "timeout_seconds", "integer"),
    ("session_archive", "session_id", "string"),
    ("session_cancel", "session_id", "string"),
    ("session_events", "session_id", "string"),
    ("session_recover", "session_id", "string"),
    ("session_status", "session_id", "string"),
    ("session_wait", "session_id", "string"),
    ("sessions_history", "session_id", "string"),
    ("sessions_list", "limit", "integer"),
    ("sessions_list", "state", "string"),
    ("sessions_send", "session_id", "string"),
    ("sessions_send", "text", "string"),
    ("web.search", "query", "string"),
    ("web.search", "provider", "string"),
    ("web.search", "max_results", "integer"),
];

/// The fields that a call of a tool must have.
pub const REQUIRED_FIELDS: [(&'static str, &'static str); 38] = [
    ("tool.search", "query"),
    ("tool.invoke", "tool_id"),
    ("tool.invoke", "lease"),
    ("tool.invoke", "arguments"),
    ("external_skills.fetch", "url"),
    ("external_skills.inspect", "skill_id"),
    ("external_skills.invoke", "skill_id"),
    ("external_skills.remove", "skill_id"),
    ("browser.companion.session.start", "url"),
    ("browser.companion.navigate", "session_id"),
    ("browser.companion.navigate", "url"),
    ("browser.companion.snapshot", "session_id"),
    ("browser.companion.wait", "session_id"),
    ("browser.companion.session.stop", "session_id"),
    ("browser.companion.click", "session_id"),
    ("browser.companion.click", "selector"),
    ("browser.companion.type", "session_id"),
    ("browser.companion.type", "selector"),
    ("browser.companion.type", "text"),
    ("file.read", "path"),
    ("file.write", "path"),
    ("file.write", "content"),
    ("file.edit", "path"),
    ("file.edit", "old_string"),
    ("file.edit", "new_string"),
    ("shell.exec", "command"),
    ("delegate", "task"),
    ("delegate_async", "task"),
    ("session_archive", "session_id"),
    ("session_cancel", "session_id"),
    ("session_events", "session_id"),
    ("session_recover", "session_id"),
    ("session_status", "session_id"),
    ("session_wait", "session_id"),
    ("sessions_history", "session_id"),
    ("sessions_send", "session_id"),
    ("sessions_send", "text"),
    ("web.search", "query"),
];

/// The words by which a tool is found.
pub const TAGS: [(&'static str, &'static str); 115] = [
    ("tool.search", "core"),
    ("tool.search", "discover"),
    ("tool.search", "search"),
    ("tool.invoke", "core"),
    ("tool.invoke", "dispatch"),
    ("tool.invoke", "invoke"),
    ("claw.migrate", "migration"),
    ("claw.migrate", "migrate"),
    ("claw.migrate", "config"),
    ("claw.migrate", "legacy"),
    ("external_skills.fetch", "skills"),
    ("external_skills.fetch", "download"),
    ("external_skills.fetch", "external"),
    ("external_skills.fetch", "fetch"),
    ("external_skills.inspect", "skills"),
    ("external_skills.inspect", "inspect"),
    ("external_skills.inspect", "metadata"),
    ("external_skills.install", "skills"),
    ("external_skills.install", "install"),
    ("external_skills.install", "package"),
    ("external_skills.invoke", "skills"),
    ("external_skills.invoke", "invoke"),
    ("external_skills.invoke", "instructions"),
    ("external_skills.list", "skills"),
    ("external_skills.list", "list"),
    ("external_skills.list", "discover"),
    ("external_skills.policy", "skills"),
    ("external_skills.policy", "policy"),
    ("external_skills.policy", "security"),
    ("external_skills.remove", "skills"),
    ("external_skills.remove", "remove"),
    ("external_skills.remove", "uninstall"),
    ("browser.companion.session.start", "browser"),
    ("browser.companion.session.start", "companion"),
    ("browser.companion.session.start", "session"),
    ("browser.companion.session.start", "read"),
    ("browser.companion.navigate", "browser"),
    ("browser.companion.navigate", "companion"),
    ("browser.companion.navigate", "session"),
    ("browser.companion.navigate", "read"),
    ("browser.companion.snapshot", "browser"),
    ("browser.companion.snapshot", "companion"),
    ("browser.companion.snapshot", "session"),
    ("browser.companion.snapshot", "read"),
    ("browser.companion.wait", "browser"),
    ("browser.companion.wait", "companion"),
    ("browser.companion.wait", "session"),
    ("browser.companion.wait", "read"),
    ("browser.companion.session.stop", "browser"),
    ("browser.companion.session.stop", "companion"),
    ("browser.companion.session.stop", "session"),
    ("browser.companion.session.stop", "read"),
    ("browser.companion.click", "browser"),
    ("browser.companion.click", "companion"),
    ("browser.companion.click", "write"),
    ("browser.companion.click", "approval"),
    ("browser.companion.type", "browser"),
    ("browser.companion.type", "companion"),
    ("browser.companion.type", "write"),
    ("browser.companion.type", "approval"),
    ("file.read", "file"),
    ("file.read", "read"),
    ("file.read", "filesystem"),
    ("file.read", "repo"),
    ("file.write", "file"),
    ("file.write", "write"),
    ("file.write", "filesystem"),
    ("file.edit", "file"),
    ("file.edit", "edit"),
    ("file.edit", "filesystem"),
    ("shell.exec", "shell"),
    ("shell.exec", "command"),
    ("shell.exec", "process"),
    ("shell.exec", "exec"),
    ("provider.switch", "provider"),
    ("provider.switch", "switch"),
    ("provider.switch", "model"),
    ("provider.switch", "runtime"),
    ("delegate", "session"),
    ("delegate", "delegate"),
    ("delegate", "child"),
    ("delegate_async", "session"),
    ("delegate_async", "delegate"),
    ("delegate_async", "child"),
    ("session_archive", "session"),
    ("session_archive", "history"),
    ("session_archive", "runtime"),
    ("session_cancel", "session"),
    ("session_cancel", "history"),
    ("session_cancel", "runtime"),
    ("session_events", "session"),
    ("session_events", "history"),
    ("session_events", "runtime"),
    ("session_recover", "session"),
    ("session_recover", "history"),
    ("session_recover", "runtime"),
    ("session_status", "session"),
    ("session_status", "history"),
    ("session_status", "runtime"),
    ("session_wait", "session"),
    ("session_wait", "history"),
    ("session_wait", "runtime"),
    ("sessions_history", "session"),
    ("sessions_history", "history"),
    ("sessions_history", "runtime"),
    ("sessions_list", "session"),
    ("sessions_list", "history"),
    ("sessions_list", "runtime"),
    ("sessions_send", "session"),
    ("sessions_send", "message"),
    ("sessions_send", "channel"),
    ("web.search", "web"),
    ("web.search", "search"),
    ("web.search", "discover"),
    ("web.search", "external"),
];

/// The definition of a tool: what it says the tool does, where that is not the tool's
/// description, which fields it requires, and whether it allows no others.
pub const SCHEMAS: [(&'static str, &'static str, RequirementKind, bool); 41] = [
    ("approval_request_resolve", "", RequirementKind::All, true),
    ("approval_request_status", "", RequirementKind::All, true),
    ("approval_requests_list", "", RequirementKind::Nothing, true),
    ("browser.click", "", RequirementKind::All, true),
    ("browser.companion.click", "", RequirementKind::All, true),
    ("browser.companion.navigate", "", RequirementKind::All, true),
    ("browser.companion.session.start", "", RequirementKind::All, true),
    ("browser.companion.session.stop", "", RequirementKind::All, true),
    ("browser.companion.snapshot", "", RequirementKind::All, true),
    ("browser.companion.type", "", RequirementKind::All, true),
    ("browser.companion.wait", "", RequirementKind::All, true),
    ("browser.extract", "", RequirementKind::All, true),
    ("browser.open", "", RequirementKind::All, true),
    ("claw.migrate", "Import, discover, plan, merge, apply, and rollback legacy Claw workspace migration into native LoongClaw config.", RequirementKind::All, true),
    ("delegate", "", RequirementKind::All, true),
    ("delegate_async", "", RequirementKind::All, true),
    ("external_skills.fetch", "Download an external skill artifact with strict domain policy checks and explicit approval gating.", RequirementKind::All, true),
    ("external_skills.inspect", "Read metadata and a short preview for a resolved external skill across managed, user, and project scopes.", RequirementKind::All, true),
    ("external_skills.install", "Install a managed external skill from a local directory, local .tgz/.tar.gz archive, or a first-party bundled skill id.", RequirementKind::AnyOf, true),
    ("external_skills.invoke", "Load a resolved external skill's SKILL.md instructions into the conversation loop across managed, user, and project scopes.", RequirementKind::All, true),
    ("external_skills.list", "List resolved external skills available for invocation across managed, user, and project scopes.", RequirementKind::All, true),
    ("external_skills.policy", "Get, set, or reset runtime policy for external skills downloads (enabled flag, approval gate, domain allowlist/blocklist).", RequirementKind::All, true),
    ("external_skills.remove", "Remove an installed external skill from the managed runtime.", RequirementKind::All, true),
    ("file.edit", "", RequirementKind::All, true),
    ("file.read", "", RequirementKind::All, true),
    ("file.write", "", RequirementKind::All, true),
    ("provider.switch", "Inspect current provider state or switch the default provider profile for subsequent turns when the user explicitly wants future replies to use another configured provider, profile, or model.", RequirementKind::All, false),
    ("session_archive", "", RequirementKind::OneOf, true),
    ("session_cancel", "", RequirementKind::OneOf, true),
    ("session_events", "", RequirementKind::All, true),
    ("session_recover", "", RequirementKind::OneOf, true),
    ("session_status", "", RequirementKind::OneOf, true),
    ("session_wait", "", RequirementKind::OneOf, true),
    ("sessions_history", "", RequirementKind::All, true),
    ("sessions_list", "", RequirementKind::Nothing, true),
    ("sessions_send", "", RequirementKind::All, true),
    ("shell.exec", "", RequirementKind::All, true),
    ("tool.invoke", "Invoke a discovered non-core tool using a valid lease from tool_search.", RequirementKind::All, true),
    ("tool.search", "Discover non-core tools relevant to the current task.", RequirementKind::All, true),
    ("web.fetch", "", RequirementKind::All, true),
    ("web.search", "", RequirementKind::All, true),
];

/// The fields that the definition of a tool requires.
pub const SCHEMA_REQUIRED: [(&'static str, &'static str); 53] = [
    ("approval_request_resolve", "approval_request_id"),
    ("approval_request_resolve", "decision"),
    ("approval_request_status", "approval_request_id"),
    ("browser.click", "session_id"),
    ("browser.click", "link_id"),
    ("browser.companion.click", "session_id"),
    ("browser.companion.click", "selector"),
    ("browser.companion.navigate", "session_id"),
    ("browser.companion.navigate", "url"),
    ("browser.companion.session.start", "url"),
    ("browser.companion.session.stop", "session_id"),
    ("browser.companion.snapshot", "session_id"),
    ("browser.companion.type", "session_id"),
    ("browser.companion.type", "selector"),
    ("browser.companion.type", "text"),
    ("browser.companion.wait", "session_id"),
    ("browser.extract", "session_id"),
    ("browser.open", "url"),
    ("delegate", "task"),
    ("delegate_async", "task"),
    ("external_skills.fetch", "url"),
    ("external_skills.inspect", "skill_id"),
    ("external_skills.install", "path"),
    ("external_skills.install", "bundled_skill_id"),
    ("external_skills.invoke", "skill_id"),
    ("external_skills.remove", "skill_id"),
    ("file.edit", "path"),
    ("file.edit", "old_string"),
    ("file.edit", "new_string"),
    ("file.read", "path"),
    ("file.write", "path"),
    ("file.write", "content"),
    ("session_archive", "session_id"),
    ("session_archive", "session_ids"),
    ("session_cancel", "session_id"),
    ("session_cancel", "session_ids"),
    ("session_events", "session_id"),
    ("session_recover", "session_id"),
    ("session_recover", "session_ids"),
    ("session_status", "session_id"),
    ("session_status", "session_ids"),
    ("session_wait", "session_id"),
    ("session_wait", "session_ids"),
    ("sessions_history", "session_id"),
    ("sessions_send", "session_id"),
    ("sessions_send", "text"),
    ("shell.exec", "command"),
    ("tool.invoke", "tool_id"),
    ("tool.invoke", "lease"),
    ("tool.invoke", "arguments"),
    ("tool.search", "query"),
    ("web.fetch", "url"),
    ("web.search", "query"),
];

/// The properties in the definition of a tool: their types and descriptions.
pub const SCHEMA_PROPERTIES: [(&'static str, &'static str, &'static str, &'static str); 116] = [
    ("approval_request_resolve", "approval_request_id", "string", "Visible approval request identifier to resolve."),
    ("approval_request_resolve", "decision", "string", "Operator decision for the pending approval request."),
    ("approval_request_status", "approval_request_id", "string", "Visible approval request identifier to inspect in detail."),
    ("approval_requests_list", "session_id", "string", "Optional visible session identifier to scope approval requests to one session."),
    ("approval_requests_list", "status", "string", "Optional approval request status filter."),
    ("approval_requests_list", "limit", "integer", "Maximum visible approval requests to return after filtering."),
    ("browser.click", "session_id", "string", "Bounded browser session identifier returned by browser.open."),
    ("browser.click", "link_id", "integer", "One-based link identifier returned in the current page snapshot."),
    ("browser.companion.click", "session_id", "string", "Browser companion session identifier returned by browser.companion.session.start."),
    ("browser.companion.click", "selector", "string", "Selector for the element to click."),
    ("browser.companion.navigate", "session_id", "string", "Browser companion session identifier returned by browser.companion.session.start."),
    ("browser.companion.navigate", "url", "string", "HTTP or HTTPS URL to load next."),
    ("browser.companion.session.start", "url", "string", "HTTP or HTTPS URL to open in the managed browser companion session."),
    ("browser.companion.session.stop", "session_id", "string", "Browser companion session identifier returned by browser.companion.session.start."),
    ("browser.companion.snapshot", "session_id", "string", "Browser companion session identifier returned by browser.companion.session.start."),
    ("browser.companion.snapshot", "mode", "string", "Optional snapshot mode. Defaults to `summary`."),
    ("browser.companion.type", "session_id", "string", "Browser companion session identifier returned by browser.companion.session.start."),
    ("browser.companion.type", "selector", "string", "Selector for the element to type into."),
    ("browser.companion.type", "text", "string", "Text to enter."),
    ("browser.companion.wait", "session_id", "string", "Browser companion session identifier returned by browser.companion.session.start."),
    ("browser.companion.wait", "condition", "string", "Optional companion-side wait condition."),
    ("browser.companion.wait", "timeout_ms", "integer", "Optional maximum wait in milliseconds."),
    ("browser.extract", "session_id", "string", "Bounded browser session identifier returned by browser.open."),
    ("browser.extract", "mode", "string", "Extraction mode. Defaults to `page_text`."),
    ("browser.extract", "selector", "string", "Optional CSS selector used only with `selector_text` mode."),
    ("browser.extract", "limit", "integer", "Maximum extracted items when the mode returns a list."),
    ("browser.open", "url", "string", "HTTP or HTTPS URL to open."),
    ("browser.open", "max_bytes", "integer", "Optional per-call read limit in bytes. Cannot exceed the configured runtime max."),
    ("claw.migrate", "input_path", "string", "Path to the legacy Claw workspace, config root, or portable migration file. Required for all modes except rollback_last_apply."),
    ("claw.migrate", "mode", "string", "Migration mode. Defaults to `plan` when omitted."),
    ("claw.migrate", "source", "string", "Optional source hint for plan/apply modes. Defaults to automatic detection."),
    ("claw.migrate", "source_id", "string", "Selected source identifier for apply_selected mode."),
    ("claw.migrate", "selection_id", "string", "Alias of source_id for apply_selected mode."),
    ("claw.migrate", "primary_source_id", "string", "Primary source identifier for safe profile merge in apply_selected mode."),
    ("claw.migrate", "primary_selection_id", "string", "Alias of primary_source_id for safe profile merge in apply_selected mode."),
    ("claw.migrate", "safe_profile_merge", "boolean", "Enable safe multi-source profile merge in apply_selected mode."),
    ("claw.migrate", "apply_external_skills_plan", "boolean", "When true, apply a generated external-skills mapping addendum into profile_note during apply_selected."),
    ("claw.migrate", "output_path", "string", "Target config path. Required in apply/apply_selected/rollback_last_apply modes."),
    ("claw.migrate", "force", "boolean", "Overwrite an existing target config when applying. Defaults to false."),
    ("delegate", "task", "string", "Focused subtask to run in a child session."),
    ("delegate", "label", "string", "Optional human-readable label for the child session."),
    ("delegate", "timeout_seconds", "integer", "Optional timeout for the delegated task."),
    ("delegate_async", "task", "string", "Focused subtask to run in a background child session."),
    ("delegate_async", "label", "string", "Optional human-readable label for the child session."),
    ("delegate_async", "timeout_seconds", "integer", "Optional timeout for the delegated task."),
    ("external_skills.fetch", "url", "string", "HTTPS URL to download."),
    ("external_skills.fetch", "approval_granted", "boolean", "Explicit user authorization for this download. Required when require_download_approval=true."),
    ("external_skills.fetch", "save_as", "string", "Optional output filename (stored under configured file root / external-skills-downloads)."),
    ("external_skills.fetch", "max_bytes", "integer", "Maximum download size in bytes. Defaults to 5242880 and is capped at 20971520."),
    ("external_skills.inspect", "skill_id", "string", "Resolved external skill identifier."),
    ("external_skills.install", "path", "string", "Path to a local directory containing SKILL.md or a local .tgz/.tar.gz archive."),
    ("external_skills.install", "bundled_skill_id", "string", "Optional first-party bundled skill identifier, for example `browser-companion-preview`."),
    ("external_skills.install", "skill_id", "string", "Optional explicit managed skill id override."),
    ("external_skills.install", "replace", "boolean", "Replace an existing installed skill with the same id. Defaults to false."),
    ("external_skills.invoke", "skill_id", "string", "Resolved external skill identifier."),
    ("external_skills.policy", "action", "string", "Policy action. Defaults to `get`."),
    ("external_skills.policy", "policy_update_approved", "boolean", "Explicit user authorization for policy updates. Required for `set` and `reset`."),
    ("external_skills.policy", "enabled", "boolean", "Whether external skills runtime/download is enabled."),
    ("external_skills.policy", "require_download_approval", "boolean", "When true, every external skills download requires explicit approval_granted=true."),
    ("external_skills.policy", "allowed_domains", "array", "Optional domain allowlist (supports exact domains and wildcard forms like *.example.com). Empty list means allow all domains unless blocked."),
    ("external_skills.policy", "blocked_domains", "array", "Optional domain blocklist (supports exact domains and wildcard forms like *.example.com). Blocklist always takes precedence."),
    ("external_skills.remove", "skill_id", "string", "Managed external skill identifier."),
    ("file.edit", "path", "string", "Path to the file (absolute or relative to configured file root)."),
    ("file.edit", "old_string", "string", "Literal substring to find. Must be non-empty. Must match exactly once unless replace_all is true."),
    ("file.edit", "new_string", "string", "Replacement text."),
    ("file.edit", "replace_all", "boolean", "Replace all occurrences instead of requiring a unique match. Zero-match still fails regardless of this flag. Defaults to false."),
    ("file.read", "path", "string", "Path to read (absolute or relative to configured file root)."),
    ("file.read", "max_bytes", "integer", "Optional read limit in bytes. Defaults to 1048576."),
    ("file.write", "path", "string", "Path to write (absolute or relative to configured file root)."),
    ("file.write", "content", "string", "File content to write."),
    ("file.write", "create_dirs", "boolean", "Create parent directories when missing. Defaults to true."),
    ("provider.switch", "selector", "string", ""),
    ("session_archive", "session_id", "string", "Visible terminal session identifier to archive."),
    ("session_archive", "session_ids", "array", "Visible terminal session identifiers to archive in one request."),
    ("session_archive", "dry_run", "boolean", "When true, preview which targets are archivable without mutating state."),
    ("session_cancel", "session_id", "string", "Visible async delegate child session identifier to cancel."),
    ("session_cancel", "session_ids", "array", "Visible async delegate child session identifiers to cancel in one request."),
    ("session_cancel", "dry_run", "boolean", "When true, preview which targets are cancellable without mutating state."),
    ("session_events", "session_id", "string", "Visible session identifier to inspect."),
    ("session_events", "after_id", "integer", "Optional event id cursor; when present only newer events are returned."),
    ("session_events", "limit", "integer", "Maximum event rows to return."),
    ("session_recover", "session_id", "string", "Visible delegate child session identifier to recover."),
    ("session_recover", "session_ids", "array", "Visible delegate child session identifiers to recover in one request."),
    ("session_recover", "dry_run", "boolean", "When true, preview which targets are recoverable without mutating state."),
    ("session_status", "session_id", "string", "Visible session identifier to inspect."),
    ("session_status", "session_ids", "array", "Visible session identifiers to inspect in one request."),
    ("session_wait", "session_id", "string", "Visible session identifier to wait on."),
    ("session_wait", "session_ids", "array", "Visible session identifiers to wait on in one request."),
    ("session_wait", "after_id", "integer", "Optional event cursor. When present, the response also returns session events with id greater than this value."),
    ("session_wait", "timeout_ms", "integer", "Bounded wait timeout in milliseconds."),
    ("sessions_history", "session_id", "string", "Visible session identifier to inspect."),
    ("sessions_history", "limit", "integer", "Maximum transcript entries to return."),
    ("sessions_list", "limit", "integer", "Maximum visible sessions to return after filtering."),
    ("sessions_list", "state", "string", "Optional lifecycle state filter."),
    ("sessions_list", "kind", "string", "Optional session kind filter."),
    ("sessions_list", "parent_session_id", "string", "Optional direct parent session filter."),
    ("sessions_list", "overdue_only", "boolean", "When true, only return async delegate children whose lifecycle staleness is overdue."),
    ("sessions_list", "include_archived", "boolean", "When true, include archived visible sessions in the returned list."),
    ("sessions_list", "include_delegate_lifecycle", "boolean", "When true, include normalized delegate lifecycle metadata for returned sessions."),
    ("sessions_send", "session_id", "string", "Known channel-backed root session identifier to receive the outbound text message (for example Telegram, Feishu, or Matrix)."),
    ("sessions_send", "text", "string", "Outbound plain-text message content."),
    ("shell.exec", "command", "string", "Executable command name. Must be allowlisted."),
    ("shell.exec", "args", "array", "Optional command arguments."),
    ("shell.exec", "timeout_ms", "integer", "Optional command timeout in milliseconds. Defaults to 120000 and is clamped to 1000..=600000."),
    ("shell.exec", "cwd", "string", "Optional working directory."),
    ("tool.invoke", "tool_id", "string", "Canonical id of the discovered tool."),
    ("tool.invoke", "lease", "string", "Short-lived lease returned by tool_search."),
    ("tool.invoke", "arguments", "object", "Arguments for the discovered tool payload."),
    ("tool.search", "query", "string", "English natural-language description of the tool capability you need."),
    ("tool.search", "limit", "integer", "Optional maximum number of search results to return."),
    ("web.fetch", "url", "string", "HTTP or HTTPS URL to fetch."),
    ("web.fetch", "mode", "string", "How to render the response body. Defaults to `readable_text`."),
    ("web.fetch", "max_bytes", "integer", "Optional per-call read limit in bytes. Cannot exceed the configured runtime max."),
    ("web.search", "query", "string", "Search query string."),
    ("web.search", "provider", "string", ""),
    ("web.search", "max_results", "integer", "Maximum results to return. Defaults to 5."),
];

/// The least values of properties.
pub const SCHEMA_MINIMUMS: [(&'static str, &'static str, u64); 17] = [
    ("approval_requests_list", "limit", 1),
    ("browser.click", "link_id", 1),
    ("browser.companion.wait", "timeout_ms", 1),
    ("browser.extract", "limit", 1),
    ("browser.open", "max_bytes", 1),
    ("delegate", "timeout_seconds", 1),
    ("delegate_async", "timeout_seconds", 1),
    ("external_skills.fetch", "max_bytes", 1),
    ("file.read", "max_bytes", 1),
    ("session_events", "after_id", 0),
    ("session_events", "limit", 1),
    ("session_wait", "timeout_ms", 1),
    ("sessions_history", "limit", 1),
    ("sessions_list", "limit", 1),
    ("shell.exec", "timeout_ms", 1000),
    ("web.fetch", "max_bytes", 1),
    ("web.search", "max_results", 1),
];

/// The greatest values of properties.
pub const SCHEMA_MAXIMUMS: [(&'static str, &'static str, u64); 12] = [
    ("approval_requests_list", "limit", 100),
    ("browser.companion.wait", "timeout_ms", 30000),
    ("delegate", "timeout_seconds", 600),
    ("delegate_async", "timeout_seconds", 600),
    ("external_skills.fetch", "max_bytes", 20971520),
    ("file.read", "max_bytes", 8388608),
    ("session_events", "limit", 200),
    ("session_wait", "timeout_ms", 30000),
    ("sessions_history", "limit", 200),
    ("sessions_list", "limit", 200),
    ("shell.exec", "timeout_ms", 600000),
    ("web.search", "max_results", 10),
];

/// The properties whose greatest value is the configured size of a fetched page.
pub const SCHEMA_PAGE_LIMITED: [(&'static str, &'static str); 2] = [
    ("browser.open", "max_bytes"),
    ("web.fetch", "max_bytes"),
];

/// The properties whose greatest value is the configured number of links.
pub const SCHEMA_LINK_LIMITED: [(&'static str, &'static str); 2] = [
    ("browser.click", "link_id"),
    ("browser.extract", "limit"),
];

/// The values that properties choose from.
pub const SCHEMA_CHOICES: [(&'static str, &'static str, &'static str); 44] = [
    ("approval_request_resolve", "decision", "approve_once"),
    ("approval_request_resolve", "decision", "approve_always"),
    ("approval_request_resolve", "decision", "deny"),
    ("approval_requests_list", "status", "pending"),
    ("approval_requests_list", "status", "approved"),
    ("approval_requests_list", "status", "executing"),
    ("approval_requests_list", "status", "executed"),
    ("approval_requests_list", "status", "denied"),
    ("approval_requests_list", "status", "expired"),
    ("approval_requests_list", "status", "cancelled"),
    ("browser.companion.snapshot", "mode", "summary"),
    ("browser.companion.snapshot", "mode", "html"),
    ("browser.companion.snapshot", "mode", "links"),
    ("browser.extract", "mode", "page_text"),
    ("browser.extract", "mode", "title"),
    ("browser.extract", "mode", "links"),
    ("browser.extract", "mode", "selector_text"),
    ("claw.migrate", "mode", "plan"),
    ("claw.migrate", "mode", "apply"),
    ("claw.migrate", "mode", "discover"),
    ("claw.migrate", "mode", "plan_many"),
    ("claw.migrate", "mode", "recommend_primary"),
    ("claw.migrate", "mode", "merge_profiles"),
    ("claw.migrate", "mode", "map_external_skills"),
    ("claw.migrate", "mode", "apply_selected"),
    ("claw.migrate", "mode", "rollback_last_apply"),
    ("claw.migrate", "source", "auto"),
    ("claw.migrate", "source", "nanobot"),
    ("claw.migrate", "source", "openclaw"),
    ("claw.migrate", "source", "picoclaw"),
    ("claw.migrate", "source", "zeroclaw"),
    ("claw.migrate", "source", "nanoclaw"),
    ("external_skills.policy", "action", "get"),
    ("external_skills.policy", "action", "set"),
    ("external_skills.policy", "action", "reset"),
    ("sessions_list", "state", "ready"),
    ("sessions_list", "state", "running"),
    ("sessions_list", "state", "completed"),
    ("sessions_list", "state", "failed"),
    ("sessions_list", "state", "timed_out"),
    ("sessions_list", "kind", "root"),
    ("sessions_list", "kind", "delegate_child"),
    ("web.fetch", "mode", "readable_text"),
    ("web.fetch", "mode", "raw_text"),
];

/// The properties that are lists of strings.
pub const SCHEMA_LISTS: [(&'static str, &'static str); 8] = [
    ("external_skills.policy", "allowed_domains"),
    ("external_skills.policy", "blocked_domains"),
    ("session_archive", "session_ids"),
    ("session_cancel", "session_ids"),
    ("session_recover", "session_ids"),
    ("session_status", "session_ids"),
    ("session_wait", "session_ids"),
    ("shell.exec", "args"),
];

/// The lists that have at least one item.
pub const SCHEMA_FILLED_LISTS: [(&'static str, &'static str); 5] = [
    ("session_archive", "session_ids"),
    ("session_cancel", "session_ids"),
    ("session_recover", "session_ids"),
    ("session_status", "session_ids"),
    ("session_wait", "session_ids"),
];

/// The strings that have at least one character.
pub const SCHEMA_FILLED_STRINGS: [(&'static str, &'static str); 1] = [
    ("file.edit", "old_string"),
];

} // verus!
