//! Who sees which tools.
use crate::text;
use crate::text::{contains_text, is_text_le, same};
use crate::tools::catalog;
use crate::tools::catalog::{
    tool_catalog, DescriptorView, ToolAvailability, ToolCatalog, ToolDescriptor, ToolExecutionKind,
    ToolVisibilityGate,
};
use vstd::prelude::*;

verus! {

// Settings.

/// A setting that turns something on.
#[derive(Clone, Copy)]
pub struct ToolToggle {
    pub enabled: bool,
}

/// The settings of delegated tasks.
pub struct DelegateToolConfig {
    pub enabled: bool,
    pub child_tool_allowlist: Vec<String>,
    pub allow_shell_in_child: bool,
}

/// The settings of the tools as they are configured.
pub struct ToolConfig {
    pub sessions: ToolToggle,
    pub messages: ToolToggle,
    pub delegate: DelegateToolConfig,
    pub browser: ToolToggle,
    pub browser_companion: ToolToggle,
    pub web: ToolToggle,
    pub web_search: ToolToggle,
}

impl Default for ToolConfig {
    /// Everything off.
    fn default() -> (r: Self)
        ensures
            !r.sessions.enabled,
            !r.messages.enabled,
            !r.delegate.enabled,
            r.delegate.child_tool_allowlist@.len() == 0,
            !r.delegate.allow_shell_in_child,
            !r.browser.enabled,
            !r.browser_companion.enabled,
            !r.web.enabled,
            !r.web_search.enabled,
    {
        let off = ToolToggle { enabled: false };
        ToolConfig {
            sessions: off,
            messages: off,
            delegate: DelegateToolConfig {
                enabled: false,
                child_tool_allowlist: Vec::new(),
                allow_shell_in_child: false,
            },
            browser: off,
            browser_companion: off,
            web: off,
            web_search: off,
        }
    }
}

/// The state of the browser companion.
pub struct BrowserCompanionRuntime {
    pub enabled: bool,
    pub ready: bool,
    pub command: Option<String>,
}

impl BrowserCompanionRuntime {
    pub open spec fn runtime_ready(&self) -> bool {
        self.enabled && self.ready
    }

    pub fn is_runtime_ready(&self) -> (r: bool)
        ensures
            r == self.runtime_ready(),
    {
        self.enabled && self.ready
    }
}

/// The settings of the tools as they apply at run time.
pub struct ToolRuntimeConfig {
    pub sessions_enabled: bool,
    pub messages_enabled: bool,
    pub delegate_enabled: bool,
    pub browser: ToolToggle,
    pub browser_companion: BrowserCompanionRuntime,
    pub external_skills: ToolToggle,
    pub web_fetch: ToolToggle,
    pub web_search: ToolToggle,
}

impl Default for ToolRuntimeConfig {
    /// Everything off.
    fn default() -> (r: Self)
        ensures
            !r.sessions_enabled,
            !r.messages_enabled,
            !r.delegate_enabled,
            !r.browser.enabled,
            !r.browser_companion.runtime_ready(),
            !r.external_skills.enabled,
            !r.web_fetch.enabled,
            !r.web_search.enabled,
    {
        let off = ToolToggle { enabled: false };
        ToolRuntimeConfig {
            sessions_enabled: false,
            messages_enabled: false,
            delegate_enabled: false,
            browser: off,
            browser_companion: BrowserCompanionRuntime {
                enabled: false,
                ready: false,
                command: None,
            },
            external_skills: off,
            web_fetch: off,
            web_search: off,
        }
    }
}

// Gates.

/// Whether the configuration shows the tools behind a gate; the browser companion is
/// never shown by configuration alone.
pub open spec fn gate_open_in_config(
    gate: ToolVisibilityGate,
    config: ToolConfig,
    external_skills_enabled: bool,
) -> bool {
    match gate {
        ToolVisibilityGate::Always => true,
        ToolVisibilityGate::Sessions => config.sessions.enabled,
        ToolVisibilityGate::Messages => config.messages.enabled,
        ToolVisibilityGate::Delegate => config.delegate.enabled,
        ToolVisibilityGate::Browser => config.browser.enabled,
        ToolVisibilityGate::BrowserCompanion => false,
        ToolVisibilityGate::ExternalSkills => external_skills_enabled,
        ToolVisibilityGate::WebFetch => config.web.enabled,
        ToolVisibilityGate::WebSearch => config.web_search.enabled,
    }
}

/// Whether the settings at run time show the tools behind a gate.
pub open spec fn gate_open_at_runtime(gate: ToolVisibilityGate, config: ToolRuntimeConfig) -> bool {
    match gate {
        ToolVisibilityGate::Always => true,
        ToolVisibilityGate::Sessions => config.sessions_enabled,
        ToolVisibilityGate::Messages => config.messages_enabled,
        ToolVisibilityGate::Delegate => config.delegate_enabled,
        ToolVisibilityGate::Browser => config.browser.enabled,
        ToolVisibilityGate::BrowserCompanion => config.browser_companion.runtime_ready(),
        ToolVisibilityGate::ExternalSkills => config.external_skills.enabled,
        ToolVisibilityGate::WebFetch => config.web_fetch.enabled,
        ToolVisibilityGate::WebSearch => config.web_search.enabled,
    }
}

/// Whether the configuration shows the tools behind a gate.
pub fn tool_visibility_gate_enabled_for_runtime_view(
    gate: ToolVisibilityGate,
    config: &ToolConfig,
    external_skills_enabled: bool,
) -> (r: bool)
    ensures
        r == gate_open_in_config(gate, *config, external_skills_enabled),
{
    match gate {
        ToolVisibilityGate::Always => true,
        ToolVisibilityGate::Sessions => config.sessions.enabled,
        ToolVisibilityGate::Messages => config.messages.enabled,
        ToolVisibilityGate::Delegate => config.delegate.enabled,
        ToolVisibilityGate::Browser => config.browser.enabled,
        ToolVisibilityGate::BrowserCompanion => false,
        ToolVisibilityGate::ExternalSkills => external_skills_enabled,
        ToolVisibilityGate::WebFetch => config.web.enabled,
        ToolVisibilityGate::WebSearch => config.web_search.enabled,
    }
}

/// Whether the settings at run time show the tools behind a gate.
pub fn tool_visibility_gate_enabled_for_runtime_policy(
    gate: ToolVisibilityGate,
    config: &ToolRuntimeConfig,
) -> (r: bool)
    ensures
        r == gate_open_at_runtime(gate, *config),
{
    match gate {
        ToolVisibilityGate::Always => true,
        ToolVisibilityGate::Sessions => config.sessions_enabled,
        ToolVisibilityGate::Messages => config.messages_enabled,
        ToolVisibilityGate::Delegate => config.delegate_enabled,
        ToolVisibilityGate::Browser => config.browser.enabled,
        ToolVisibilityGate::BrowserCompanion => config.browser_companion.is_runtime_ready(),
        ToolVisibilityGate::ExternalSkills => config.external_skills.enabled,
        ToolVisibilityGate::WebFetch => config.web_fetch.enabled,
        ToolVisibilityGate::WebSearch => config.web_search.enabled,
    }
}

// Views.

/// A set of tool names, kept in their order.
pub struct ToolView {
    allowed_names: Vec<String>,
}

/// Whether texts stand in strictly rising order.
pub open spec fn rising(s: Seq<Seq<char>>) -> bool {
    forall|i: int, j: int|
        0 <= i < j < s.len() ==> #[trigger] text::text_le(s[i], s[j]) && s[i] != s[j]
}

/// The set of the texts of a sequence.
pub open spec fn set_of(s: Seq<Seq<char>>) -> Set<Seq<char>> {
    Set::new(|n: Seq<char>| s.contains(n))
}

proof fn lemma_insert_rising(s: Seq<Seq<char>>, at: int, n: Seq<char>)
    requires
        rising(s),
        0 <= at <= s.len(),
        forall|i: int| 0 <= i < at ==> #[trigger] text::text_le(s[i], n) && s[i] != n,
        at < s.len() ==> text::text_le(n, s[at]) && s[at] != n,
    ensures
        rising(s.insert(at, n)),
{
    let t = s.insert(at, n);
    assert forall|i: int, j: int| 0 <= i < j < t.len() implies #[trigger] text::text_le(t[i], t[j])
        && t[i] != t[j] by {
        if j < at {
            assert(text::text_le(s[i], s[j]));
        } else if j == at {
            assert(text::text_le(s[i], n));
        } else if i < at {
            assert(text::text_le(s[i], s[j - 1]));
        } else if i == at {
            if j - 1 > at {
                assert(text::text_le(s[at], s[j - 1]));
                text::lemma_text_le_transitive(n, s[at], s[j - 1]);
                text::lemma_text_le_total(n, s[at]);
                if n == s[j - 1] {
                    text::lemma_text_le_total(s[at], n);
                }
            }
        } else {
            assert(text::text_le(s[i - 1], s[j - 1]));
        }
    }
}

proof fn lemma_set_of_insert(s: Seq<Seq<char>>, at: int, n: Seq<char>)
    requires
        0 <= at <= s.len(),
    ensures
        set_of(s.insert(at, n)) == set_of(s).insert(n),
{
    let t = s.insert(at, n);
    assert forall|x: Seq<char>| #[trigger] set_of(t).contains(x) <==> set_of(s).insert(n).contains(
        x,
    ) by {
        if t.contains(x) {
            let k = choose|k: int| 0 <= k < t.len() && t[k] == x;
            if k < at {
                assert(s[k] == x);
            } else if k > at {
                assert(s[k - 1] == x);
            }
        }
        if x == n {
            assert(t[at] == x);
        } else if s.contains(x) {
            let k = choose|k: int| 0 <= k < s.len() && s[k] == x;
            if k < at {
                assert(t[k] == x);
            } else {
                assert(t[k + 1] == x);
            }
        }
    }
    assert(set_of(t) =~= set_of(s).insert(n));
}

impl ToolView {
    /// The names, in their order.
    pub closed spec fn names(&self) -> Seq<Seq<char>> {
        text::texts(self.allowed_names@)
    }

    pub open spec fn view(&self) -> Set<Seq<char>> {
        set_of(self.names())
    }

    pub open spec fn wf(&self) -> bool {
        rising(self.names())
    }

    /// A view that holds no name.
    pub fn none() -> (r: Self)
        ensures
            r.wf(),
            r@ == Set::<Seq<char>>::empty(),
    {
        let r = ToolView { allowed_names: Vec::new() };
        assert(r@ =~= Set::<Seq<char>>::empty());
        r
    }

    fn insert_name(&mut self, name: &str)
        requires
            old(self).wf(),
        ensures
            final(self).wf(),
            final(self)@ == old(self)@.insert(name@),
    {
        let ghost before = self.names();
        let mut at: usize = 0;
        while at < self.allowed_names.len() && !is_text_le(name, self.allowed_names[at].as_str())
            invariant
                at <= self.allowed_names@.len(),
                *self == *old(self),
                before == text::texts(self.allowed_names@),
                forall|i: int|
                    0 <= i < at ==> #[trigger] text::text_le(before[i], name@) && before[i] != name@,
            decreases self.allowed_names@.len() - at,
        {
            proof {
                text::lemma_text_le_total(name@, before[at as int]);
                text::lemma_text_le_total(before[at as int], name@);
            }
            at += 1;
        }
        if at < self.allowed_names.len() && same(self.allowed_names[at].as_str(), name) {
            assert(before[at as int] == name@);
            assert(self@ =~= old(self)@.insert(name@));
            return;
        }
        self.allowed_names.insert(at, name.to_owned());
        proof {
            lemma_insert_rising(before, at as int, name@);
            lemma_set_of_insert(before, at as int, name@);
            assert(self.names() =~= before.insert(at as int, name@));
        }
    }

    /// The view of these names.
    pub fn from_tool_names(names: &Vec<&str>) -> (r: Self)
        ensures
            r.wf(),
            r@ == set_of(catalog::strs(names@)),
    {
        let mut r = ToolView::none();
        let mut i: usize = 0;
        let ghost all = catalog::strs(names@);
        assert(r@ =~= set_of(all.take(0)));
        while i < names.len()
            invariant
                i <= names@.len(),
                all == catalog::strs(names@),
                r.wf(),
                r@ == set_of(all.take(i as int)),
            decreases names@.len() - i,
        {
            r.insert_name(names[i]);
            proof {
                assert(all.take(i + 1) =~= all.take(i as int).insert(i as int, all[i as int]));
                lemma_set_of_insert(all.take(i as int), i as int, all[i as int]);
            }
            i += 1;
        }
        assert(all.take(i as int) =~= all);
        r
    }

    pub fn contains(&self, tool_name: &str) -> (r: bool)
        ensures
            r == self@.contains(tool_name@),
    {
        contains_text(&self.allowed_names, tool_name)
    }

    /// The names, each once and in their order.
    pub fn tool_names(&self) -> (r: &Vec<String>)
        ensures
            text::texts(r@) == self.names(),
    {
        &self.allowed_names
    }

    /// The names that both views hold.
    pub fn intersect(&self, other: &ToolView) -> (r: ToolView)
        ensures
            r.wf(),
            r@ == self@.intersect(other@),
    {
        let mut r = ToolView::none();
        let mut i: usize = 0;
        let ghost all = self.names();
        assert(r@ =~= set_of(all.take(0)).intersect(other@));
        while i < self.allowed_names.len()
            invariant
                i <= self.allowed_names@.len(),
                all == text::texts(self.allowed_names@),
                r.wf(),
                r@ == set_of(all.take(i as int)).intersect(other@),
            decreases self.allowed_names@.len() - i,
        {
            proof {
                assert(all.take(i + 1) =~= all.take(i as int).insert(i as int, all[i as int]));
                lemma_set_of_insert(all.take(i as int), i as int, all[i as int]);
            }
            let ghost before = r@;
            if other.contains(self.allowed_names[i].as_str()) {
                r.insert_name(self.allowed_names[i].as_str());
                assert(r@ =~= set_of(all.take(i + 1)).intersect(other@));
            } else {
                assert(r@ =~= set_of(all.take(i + 1)).intersect(other@));
            }
            i += 1;
        }
        assert(all.take(i as int) =~= all);
        r
    }

    /// The tools of a catalog whose names the view holds.
    pub fn iter<'a>(&self, tools: &'a ToolCatalog) -> (r: Vec<&'a ToolDescriptor>)
        ensures
            descriptor_refs(r@) == held(tools@, self@),
    {
        let all = tools.descriptors();
        let ghost rows = tools@;
        let mut r: Vec<&'a ToolDescriptor> = Vec::new();
        let mut i: usize = 0;
        assert(descriptor_refs(r@) =~= held(rows.take(0), self@));
        while i < all.len()
            invariant
                i <= all@.len(),
                rows == catalog::descriptor_views(all@),
                descriptor_refs(r@) == held(rows.take(i as int), self@),
            decreases all@.len() - i,
        {
            assert(rows.take(i + 1).drop_last() =~= rows.take(i as int));
            assert(rows.take(i + 1).last() == all@[i as int]@);
            let d: &'a ToolDescriptor = &all[i];
            if self.contains(d.name) {
                assert(descriptor_refs(r@.push(d)) =~= descriptor_refs(r@).push(d@));
                r.push(d);
            }
            i += 1;
        }
        assert(rows.take(i as int) =~= rows);
        r
    }
}

/// The views of a list of references to tools.
pub open spec fn descriptor_refs(v: Seq<&ToolDescriptor>) -> Seq<DescriptorView> {
    Seq::new(v.len(), |i: int| v[i]@)
}

/// The tools whose names a set holds, in their order.
pub open spec fn held(rows: Seq<DescriptorView>, names: Set<Seq<char>>) -> Seq<DescriptorView>
    decreases rows.len(),
{
    if rows.len() == 0 {
        Seq::empty()
    } else if names.contains(rows.last().name) {
        held(rows.drop_last(), names).push(rows.last())
    } else {
        held(rows.drop_last(), names)
    }
}

/// What decides which tools a view shows.
pub enum ViewRule {
    /// The configuration, and whether external skills are on.
    Configured(ToolConfig, bool),
    /// The settings at run time.
    AtRuntime(ToolRuntimeConfig),
    /// Nothing: it shows all.
    All,
    /// What the configuration lets a delegated task use.
    Child(ToolConfig),
}

/// Whether a rule shows a tool.
pub open spec fn shows(rule: ViewRule, d: DescriptorView) -> bool {
    match rule {
        ViewRule::Configured(config, external_skills) => d.availability == ToolAvailability::Runtime
            && gate_open_in_config(d.visibility_gate, config, external_skills),
        ViewRule::AtRuntime(config) => d.availability == ToolAvailability::Runtime
            && gate_open_at_runtime(d.visibility_gate, config),
        ViewRule::All => true,
        ViewRule::Child(config) => d.availability == ToolAvailability::Runtime && d.execution_kind
            == ToolExecutionKind::Core && (if d.name == "shell.exec"@ {
            config.delegate.allow_shell_in_child
        } else {
            text::texts(config.delegate.child_tool_allowlist@).contains(d.name)
                && gate_open_in_config(d.visibility_gate, config, false)
        }),
    }
}

/// The names of the tools that a rule shows, in their order.
pub open spec fn names_shown(rows: Seq<DescriptorView>, rule: ViewRule) -> Seq<Seq<char>>
    decreases rows.len(),
{
    if rows.len() == 0 {
        Seq::empty()
    } else if shows(rule, rows.last()) {
        names_shown(rows.drop_last(), rule).push(rows.last().name)
    } else {
        names_shown(rows.drop_last(), rule)
    }
}

/// A name is shown where it is the name of a tool that the rule shows.
pub proof fn lemma_names_shown(rows: Seq<DescriptorView>, rule: ViewRule, n: Seq<char>)
    ensures
        set_of(names_shown(rows, rule)).contains(n) <==> exists|i: int|
            0 <= i < rows.len() && shows(rule, #[trigger] rows[i]) && rows[i].name == n,
    decreases rows.len(),
{
    let all = names_shown(rows, rule);
    if rows.len() > 0 {
        let init = rows.drop_last();
        let before = names_shown(init, rule);
        lemma_names_shown(init, rule, n);
        if all.contains(n) {
            let k = choose|k: int| 0 <= k < all.len() && all[k] == n;
            if k < before.len() {
                assert(before[k] == n);
                assert(set_of(before).contains(n));
                let i = choose|i: int|
                    0 <= i < init.len() && shows(rule, #[trigger] init[i]) && init[i].name == n;
                assert(rows[i] == init[i]);
            } else {
                assert(shows(rule, rows[rows.len() - 1]));
            }
        }
        if exists|i: int|
            0 <= i < rows.len() && shows(rule, #[trigger] rows[i]) && rows[i].name == n {
            let i = choose|i: int|
                0 <= i < rows.len() && shows(rule, #[trigger] rows[i]) && rows[i].name == n;
            if i < init.len() {
                assert(init[i] == rows[i]);
                assert(set_of(before).contains(n));
                let k = choose|k: int| 0 <= k < before.len() && before[k] == n;
                assert(all[k] == n);
            } else {
                assert(all[all.len() - 1] == n);
            }
        }
    }
}

proof fn lemma_push_name(v: Seq<&'static str>, name: &'static str)
    ensures
        catalog::strs(v.push(name)) == catalog::strs(v).push(name@),
{
    assert(catalog::strs(v.push(name)) =~= catalog::strs(v).push(name@));
}

/// The tools that the configuration shows.
pub fn runtime_tool_view_for_config_with_external_skills(
    config: &ToolConfig,
    external_skills_enabled: bool,
) -> (r: ToolView)
    ensures
        r.wf(),
        r@ == set_of(
            names_shown(
                catalog::catalog_rows(),
                ViewRule::Configured(*config, external_skills_enabled),
            ),
        ),
{
    let tools = tool_catalog();
    let all = tools.descriptors();
    let ghost rows = catalog::catalog_rows();
    let ghost rule = ViewRule::Configured(*config, external_skills_enabled);
    let mut names: Vec<&'static str> = Vec::new();
    let mut i: usize = 0;
    assert(catalog::strs(names@) =~= names_shown(rows.take(0), rule));
    while i < all.len()
        invariant
            i <= all@.len(),
            rows == catalog::descriptor_views(all@),
            rule == ViewRule::Configured(*config, external_skills_enabled),
            catalog::strs(names@) == names_shown(rows.take(i as int), rule),
        decreases all@.len() - i,
    {
        assert(rows.take(i + 1).drop_last() =~= rows.take(i as int));
        assert(rows.take(i + 1).last() == all@[i as int]@);
        if all[i].availability == ToolAvailability::Runtime
            && tool_visibility_gate_enabled_for_runtime_view(
            all[i].visibility_gate,
            config,
            external_skills_enabled,
        ) {
            proof {
                lemma_push_name(names@, all@[i as int].name);
            }
            names.push(all[i].name);
        }
        i += 1;
    }
    assert(rows.take(i as int) =~= rows);
    ToolView::from_tool_names(&names)
}

/// The tools that the configuration shows without external skills.
pub fn runtime_tool_view_for_config(config: &ToolConfig) -> (r: ToolView)
    ensures
        r.wf(),
        r@ == set_of(
            names_shown(catalog::catalog_rows(), ViewRule::Configured(*config, false)),
        ),
{
    runtime_tool_view_for_config_with_external_skills(config, false)
}

/// The tools that the settings at run time show.
pub fn runtime_tool_view_for_runtime_config(config: &ToolRuntimeConfig) -> (r: ToolView)
    ensures
        r.wf(),
        r@ == set_of(names_shown(catalog::catalog_rows(), ViewRule::AtRuntime(*config))),
{
    let tools = tool_catalog();
    let all = tools.descriptors();
    let ghost rows = catalog::catalog_rows();
    let ghost rule = ViewRule::AtRuntime(*config);
    let mut names: Vec<&'static str> = Vec::new();
    let mut i: usize = 0;
    assert(catalog::strs(names@) =~= names_shown(rows.take(0), rule));
    while i < all.len()
        invariant
            i <= all@.len(),
            rows == catalog::descriptor_views(all@),
            rule == ViewRule::AtRuntime(*config),
            catalog::strs(names@) == names_shown(rows.take(i as int), rule),
        decreases all@.len() - i,
    {
        assert(rows.take(i + 1).drop_last() =~= rows.take(i as int));
        assert(rows.take(i + 1).last() == all@[i as int]@);
        if all[i].availability == ToolAvailability::Runtime
            && tool_visibility_gate_enabled_for_runtime_policy(all[i].visibility_gate, config) {
            proof {
                lemma_push_name(names@, all@[i as int].name);
            }
            names.push(all[i].name);
        }
        i += 1;
    }
    assert(rows.take(i as int) =~= rows);
    ToolView::from_tool_names(&names)
}

/// The tools that the settings in force show.
pub fn runtime_tool_view(settings: &ToolRuntimeConfig) -> (r: ToolView)
    ensures
        r.wf(),
        r@ == set_of(names_shown(catalog::catalog_rows(), ViewRule::AtRuntime(*settings))),
{
    runtime_tool_view_for_runtime_config(settings)
}

/// All tools.
pub fn planned_root_tool_view() -> (r: ToolView)
    ensures
        r.wf(),
        r@ == set_of(names_shown(catalog::catalog_rows(), ViewRule::All)),
{
    let tools = tool_catalog();
    let all = tools.descriptors();
    let ghost rows = catalog::catalog_rows();
    let mut names: Vec<&'static str> = Vec::new();
    let mut i: usize = 0;
    assert(catalog::strs(names@) =~= names_shown(rows.take(0), ViewRule::All));
    while i < all.len()
        invariant
            i <= all@.len(),
            rows == catalog::descriptor_views(all@),
            catalog::strs(names@) == names_shown(rows.take(i as int), ViewRule::All),
        decreases all@.len() - i,
    {
        assert(rows.take(i + 1).drop_last() =~= rows.take(i as int));
        assert(rows.take(i + 1).last() == all@[i as int]@);
        proof {
            lemma_push_name(names@, all@[i as int].name);
        }
        names.push(all[i].name);
        i += 1;
    }
    assert(rows.take(i as int) =~= rows);
    ToolView::from_tool_names(&names)
}

/// Whether a tool of the catalog runs.
pub open spec fn runs(name: Seq<char>) -> bool {
    match catalog::named(catalog::catalog_rows(), name) {
        Some(d) => d.availability == ToolAvailability::Runtime,
        None => false,
    }
}

/// The names of the tools with which a delegated task delegates further.
pub open spec fn delegate_names(config: ToolConfig, allow_delegate: bool) -> Seq<Seq<char>> {
    let first = if allow_delegate && config.delegate.enabled && runs("delegate"@) {
        seq!["delegate"@]
    } else {
        Seq::empty()
    };
    if allow_delegate && config.delegate.enabled && runs("delegate_async"@) {
        first.push("delegate_async"@)
    } else {
        first
    }
}

/// The tools of a delegated task: those that the configuration lets it use, and, where
/// it may delegate further, those for that.
pub open spec fn child_names(config: ToolConfig, allow_delegate: bool) -> Set<Seq<char>> {
    set_of(
        names_shown(catalog::catalog_rows(), ViewRule::Child(config)) + delegate_names(
            config,
            allow_delegate,
        ),
    )
}

fn tool_runs(tools: &ToolCatalog, name: &str) -> (r: bool)
    requires
        tools@ == catalog::catalog_rows(),
    ensures
        r == runs(name@),
{
    match tools.descriptor(name) {
        Some(d) => d.availability == ToolAvailability::Runtime,
        None => false,
    }
}

/// The tools of a delegated task.
pub fn delegate_child_tool_view_for_config_with_delegate(
    config: &ToolConfig,
    allow_delegate: bool,
) -> (r: ToolView)
    ensures
        r.wf(),
        r@ == child_names(*config, allow_delegate),
{
    let tools = tool_catalog();
    let all = tools.descriptors();
    let ghost rows = catalog::catalog_rows();
    let ghost rule = ViewRule::Child(*config);
    let mut names: Vec<&'static str> = Vec::new();
    let mut i: usize = 0;
    assert(catalog::strs(names@) =~= names_shown(rows.take(0), rule));
    while i < all.len()
        invariant
            i <= all@.len(),
            rows == catalog::descriptor_views(all@),
            rule == ViewRule::Child(*config),
            catalog::strs(names@) == names_shown(rows.take(i as int), rule),
        decreases all@.len() - i,
    {
        assert(rows.take(i + 1).drop_last() =~= rows.take(i as int));
        assert(rows.take(i + 1).last() == all@[i as int]@);
        let d = &all[i];
        let runnable = d.execution_kind == ToolExecutionKind::Core && d.availability
            == ToolAvailability::Runtime;
        let allowed = if same(d.name, "shell.exec") {
            config.delegate.allow_shell_in_child
        } else {
            contains_text(&config.delegate.child_tool_allowlist, d.name)
                && tool_visibility_gate_enabled_for_runtime_view(d.visibility_gate, config, false)
        };
        if runnable && allowed {
            proof {
                lemma_push_name(names@, d.name);
            }
            names.push(d.name);
        }
        i += 1;
    }
    assert(rows.take(i as int) =~= rows);
    let ghost shown = catalog::strs(names@);
    if allow_delegate && config.delegate.enabled && tool_runs(&tools, "delegate") {
        proof {
            lemma_push_name(names@, "delegate");
        }
        names.push("delegate");
    }
    if allow_delegate && config.delegate.enabled && tool_runs(&tools, "delegate_async") {
        proof {
            lemma_push_name(names@, "delegate_async");
        }
        names.push("delegate_async");
    }
    assert(catalog::strs(names@) =~= shown + delegate_names(*config, allow_delegate));
    ToolView::from_tool_names(&names)
}

/// The tools of a delegated task that may not delegate further.
pub fn delegate_child_tool_view_for_config(config: &ToolConfig) -> (r: ToolView)
    ensures
        r.wf(),
        r@ == child_names(*config, false),
{
    delegate_child_tool_view_for_config_with_delegate(config, false)
}

/// The tools of a delegated task under the settings that apply where none are
/// configured.
pub fn planned_delegate_child_tool_view(settings: &ToolConfig) -> (r: ToolView)
    ensures
        r.wf(),
        r@ == child_names(*settings, false),
{
    delegate_child_tool_view_for_config(settings)
}

// Laws.

/// A view shows only tools of the catalog, and only those that its rule shows.
pub proof fn law_views_stay_in_catalog(rule: ViewRule, n: Seq<char>)
    ensures
        set_of(names_shown(catalog::catalog_rows(), rule)).contains(n) ==> exists|i: int|
            0 <= i < catalog::catalog_rows().len() && shows(
                rule,
                #[trigger] catalog::catalog_rows()[i],
            ) && catalog::catalog_rows()[i].name == n,
        set_of(names_shown(catalog::catalog_rows(), rule)).contains(n) ==> set_of(
            names_shown(catalog::catalog_rows(), ViewRule::All),
        ).contains(n),
{
    let rows = catalog::catalog_rows();
    lemma_names_shown(rows, rule, n);
    lemma_names_shown(rows, ViewRule::All, n);
    if set_of(names_shown(rows, rule)).contains(n) {
        let i = choose|i: int|
            0 <= i < rows.len() && shows(rule, #[trigger] rows[i]) && rows[i].name == n;
        assert(shows(ViewRule::All, rows[i]));
    }
}

/// The configuration alone never shows a tool of the browser companion.
pub proof fn law_companion_needs_runtime(
    config: ToolConfig,
    external_skills: bool,
    d: DescriptorView,
)
    requires
        d.visibility_gate == ToolVisibilityGate::BrowserCompanion,
    ensures
        !shows(ViewRule::Configured(config, external_skills), d),
        d.name != "shell.exec"@ ==> !shows(ViewRule::Child(config), d),
{
}

/// Whether the plain browser is shown does not depend on the browser companion.
pub proof fn law_browser_gate_ignores_companion(a: ToolRuntimeConfig, b: ToolRuntimeConfig)
    requires
        a.browser.enabled == b.browser.enabled,
    ensures
        gate_open_at_runtime(ToolVisibilityGate::Browser, a) == gate_open_at_runtime(
            ToolVisibilityGate::Browser,
            b,
        ),
{
}

/// A delegated task sees nothing that is not allowed to it: every tool of its view is
/// on the allow list, or is the shell where that is allowed, or is one to delegate with
/// where that is allowed.
pub proof fn law_child_sees_allowed_tools_only(
    config: ToolConfig,
    allow_delegate: bool,
    n: Seq<char>,
)
    requires
        child_names(config, allow_delegate).contains(n),
    ensures
        ({
            ||| text::texts(config.delegate.child_tool_allowlist@).contains(n)
            ||| n == "shell.exec"@ && config.delegate.allow_shell_in_child
            ||| (n == "delegate"@ || n == "delegate_async"@) && allow_delegate
                && config.delegate.enabled
        }),
{
    let shown = names_shown(catalog::catalog_rows(), ViewRule::Child(config));
    let more = delegate_names(config, allow_delegate);
    let k = choose|k: int| 0 <= k < (shown + more).len() && (shown + more)[k] == n;
    if k < shown.len() {
        assert(shown[k] == n);
        assert(set_of(shown).contains(n));
        lemma_names_shown(catalog::catalog_rows(), ViewRule::Child(config), n);
    } else {
        assert(more[k - shown.len()] == n);
    }
}

/// A delegated task that may not delegate further sees a subset of what one that may
/// sees.
pub proof fn law_delegation_only_adds(config: ToolConfig)
    ensures
        child_names(config, false).subset_of(child_names(config, true)),
{
    let shown = names_shown(catalog::catalog_rows(), ViewRule::Child(config));
    assert forall|n: Seq<char>| child_names(config, false).contains(n) implies child_names(
        config,
        true,
    ).contains(n) by {
        let all = shown + delegate_names(config, false);
        let k = choose|k: int| 0 <= k < all.len() && all[k] == n;
        assert((shown + delegate_names(config, true))[k] == n);
    }
}

/// The intersection of views holds what both hold, in whichever order it is taken.
pub proof fn law_intersection_is_symmetric(a: ToolView, b: ToolView)
    ensures
        a@.intersect(b@) == b@.intersect(a@),
        a@.intersect(b@).subset_of(a@),
        a@.intersect(a@) == a@,
{
    assert(a@.intersect(b@) =~= b@.intersect(a@));
    assert(a@.intersect(a@) =~= a@);
}

} // verus!
