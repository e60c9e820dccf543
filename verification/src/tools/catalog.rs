//! The catalog of the tools.
use crate::text;
use crate::text::same;
use crate::tools::tables::{
    ARGUMENT_HINTS, PARAMETER_TYPES, REQUIRED_FIELDS, TAGS, TOOLS,
};
use vstd::prelude::*;

verus! {

/// Where a tool runs.
#[derive(Clone, Copy, Debug, PartialEq, Eq, Structural)]
pub enum ToolExecutionKind {
    Core,
    App,
}

/// Whether a tool runs already.
#[derive(Clone, Copy, Debug, PartialEq, Eq, Structural)]
pub enum ToolAvailability {
    Runtime,
    Planned,
}

/// Whether calls of a tool may run beside others.
#[derive(Clone, Copy, Debug, PartialEq, Eq, Structural)]
pub enum ToolSchedulingClass {
    SerialOnly,
    ParallelSafe,
}

impl ToolSchedulingClass {
    pub open spec fn name(self) -> Seq<char> {
        match self {
            ToolSchedulingClass::SerialOnly => "serial_only"@,
            ToolSchedulingClass::ParallelSafe => "parallel_safe"@,
        }
    }

    pub fn as_str(self) -> (r: &'static str)
        ensures
            r@ == self.name(),
    {
        match self {
            ToolSchedulingClass::SerialOnly => "serial_only",
            ToolSchedulingClass::ParallelSafe => "parallel_safe",
        }
    }
}

/// What a call of a tool may change.
#[derive(Clone, Copy, Debug, PartialEq, Eq, Structural)]
pub enum ToolGovernanceScope {
    Routine,
    TopologyMutation,
}

impl ToolGovernanceScope {
    pub open spec fn name(self) -> Seq<char> {
        match self {
            ToolGovernanceScope::Routine => "routine"@,
            ToolGovernanceScope::TopologyMutation => "topology_mutation"@,
        }
    }

    pub fn as_str(self) -> (r: &'static str)
        ensures
            r@ == self.name(),
    {
        match self {
            ToolGovernanceScope::Routine => "routine",
            ToolGovernanceScope::TopologyMutation => "topology_mutation",
        }
    }
}

/// How much harm a call of a tool may do.
#[derive(Clone, Copy, Debug, PartialEq, Eq, Structural)]
pub enum ToolRiskClass {
    Low,
    Elevated,
    High,
}

impl ToolRiskClass {
    pub open spec fn name(self) -> Seq<char> {
        match self {
            ToolRiskClass::Low => "low"@,
            ToolRiskClass::Elevated => "elevated"@,
            ToolRiskClass::High => "high"@,
        }
    }

    pub fn as_str(self) -> (r: &'static str)
        ensures
            r@ == self.name(),
    {
        match self {
            ToolRiskClass::Low => "low",
            ToolRiskClass::Elevated => "elevated",
            ToolRiskClass::High => "high",
        }
    }
}

/// Whether a call of a tool needs approval.
#[derive(Clone, Copy, Debug, PartialEq, Eq, Structural)]
pub enum ToolApprovalMode {
    Never,
    PolicyDriven,
}

impl ToolApprovalMode {
    pub open spec fn name(self) -> Seq<char> {
        match self {
            ToolApprovalMode::Never => "never"@,
            ToolApprovalMode::PolicyDriven => "policy_driven"@,
        }
    }

    pub fn as_str(self) -> (r: &'static str)
        ensures
            r@ == self.name(),
    {
        match self {
            ToolApprovalMode::Never => "never",
            ToolApprovalMode::PolicyDriven => "policy_driven",
        }
    }
}

/// How calls of a tool are governed.
#[derive(Clone, Copy, Debug, PartialEq, Eq, Structural)]
pub struct ToolGovernanceProfile {
    pub scope: ToolGovernanceScope,
    pub risk_class: ToolRiskClass,
    pub approval_mode: ToolApprovalMode,
}

/// Whether a tool is shown to providers at once or found by search.
#[derive(Clone, Copy, Debug, PartialEq, Eq, Structural)]
pub enum ToolExposureClass {
    ProviderCore,
    Discoverable,
}

/// The setting that shows a tool.
#[derive(Clone, Copy, Debug, PartialEq, Eq, Structural)]
pub enum ToolVisibilityGate {
    Always,
    Sessions,
    Messages,
    Delegate,
    Browser,
    BrowserCompanion,
    ExternalSkills,
    WebFetch,
    WebSearch,
}

/// Which of its fields the definition of a tool requires.
#[derive(Clone, Copy, Debug, PartialEq, Eq, Structural)]
pub enum RequirementKind {
    /// It says nothing of them.
    Nothing,
    All,
    AnyOf,
    OneOf,
}

// Tables.

/// The views of a list of string literals.
pub open spec fn strs(v: Seq<&str>) -> Seq<Seq<char>> {
    Seq::new(v.len(), |i: int| v[i]@)
}

/// The values of a table under `key`, in its order.
pub open spec fn values_for(t: Seq<(&'static str, &'static str)>, key: Seq<char>) -> Seq<Seq<char>>
    decreases t.len(),
{
    if t.len() == 0 {
        Seq::empty()
    } else if t.last().0@ == key {
        values_for(t.drop_last(), key).push(t.last().1@)
    } else {
        values_for(t.drop_last(), key)
    }
}

/// The values of a table under `key`, in its order.
pub fn values_of(t: &[(&'static str, &'static str)], key: &str) -> (r: Vec<&'static str>)
    ensures
        strs(r@) == values_for(t@, key@),
{
    let mut r: Vec<&'static str> = Vec::new();
    let mut i: usize = 0;
    assert(strs(r@) =~= values_for(t@.take(0), key@));
    while i < t.len()
        invariant
            i <= t@.len(),
            strs(r@) == values_for(t@.take(i as int), key@),
        decreases t@.len() - i,
    {
        assert(t@.take(i + 1).drop_last() =~= t@.take(i as int));
        if same(t[i].0, key) {
            assert(strs(r@.push(t[i as int].1)) =~= strs(r@).push(t[i as int].1@));
            r.push(t[i].1);
        }
        i += 1;
    }
    assert(t@.take(i as int) =~= t@);
    r
}

/// The views of a list of pairs of string literals.
pub open spec fn str_pairs(v: Seq<(&str, &str)>) -> Seq<(Seq<char>, Seq<char>)> {
    Seq::new(v.len(), |i: int| (v[i].0@, v[i].1@))
}

/// The pairs of a table under `key`, in its order.
pub open spec fn pairs_for(
    t: Seq<(&'static str, &'static str, &'static str)>,
    key: Seq<char>,
) -> Seq<(Seq<char>, Seq<char>)>
    decreases t.len(),
{
    if t.len() == 0 {
        Seq::empty()
    } else if t.last().0@ == key {
        pairs_for(t.drop_last(), key).push((t.last().1@, t.last().2@))
    } else {
        pairs_for(t.drop_last(), key)
    }
}

/// The pairs of a table under `key`, in its order.
pub fn pairs_of(t: &[(&'static str, &'static str, &'static str)], key: &str) -> (r: Vec<
    (&'static str, &'static str),
>)
    ensures
        str_pairs(r@) == pairs_for(t@, key@),
{
    let mut r: Vec<(&'static str, &'static str)> = Vec::new();
    let mut i: usize = 0;
    assert(str_pairs(r@) =~= pairs_for(t@.take(0), key@));
    while i < t.len()
        invariant
            i <= t@.len(),
            str_pairs(r@) == pairs_for(t@.take(i as int), key@),
        decreases t@.len() - i,
    {
        assert(t@.take(i + 1).drop_last() =~= t@.take(i as int));
        if same(t[i].0, key) {
            assert(str_pairs(r@.push((t[i as int].1, t[i as int].2))) =~= str_pairs(r@).push(
                (t[i as int].1@, t[i as int].2@),
            ));
            r.push((t[i].1, t[i].2));
        }
        i += 1;
    }
    assert(t@.take(i as int) =~= t@);
    r
}

// Descriptors.

/// A tool.
pub struct ToolDescriptor {
    pub name: &'static str,
    pub provider_name: &'static str,
    pub aliases: Vec<&'static str>,
    pub description: &'static str,
    pub execution_kind: ToolExecutionKind,
    pub availability: ToolAvailability,
    pub exposure: ToolExposureClass,
    pub visibility_gate: ToolVisibilityGate,
}

/// What a `ToolDescriptor` is.
#[verifier::ext_equal]
pub struct DescriptorView {
    pub name: Seq<char>,
    pub provider_name: Seq<char>,
    pub aliases: Seq<Seq<char>>,
    pub description: Seq<char>,
    pub execution_kind: ToolExecutionKind,
    pub availability: ToolAvailability,
    pub exposure: ToolExposureClass,
    pub visibility_gate: ToolVisibilityGate,
}

/// A row of the table of tools.
pub type ToolRow = (
    &'static str,
    &'static str,
    &'static str,
    &'static str,
    ToolExecutionKind,
    ToolAvailability,
    ToolExposureClass,
    ToolVisibilityGate,
);

/// The tool that a row of the table describes.
pub open spec fn row_view(row: ToolRow) -> DescriptorView {
    DescriptorView {
        name: row.0@,
        provider_name: row.1@,
        aliases: if row.2@.len() == 0 {
            Seq::empty()
        } else {
            seq![row.2@]
        },
        description: row.3@,
        execution_kind: row.4,
        availability: row.5,
        exposure: row.6,
        visibility_gate: row.7,
    }
}

/// The tools of the catalog, in the order of their names.
pub open spec fn catalog_rows() -> Seq<DescriptorView> {
    Seq::new(TOOLS@.len(), |i: int| row_view(TOOLS@[i]))
}

/// How calls of a tool are governed.
pub open spec fn governance(name: Seq<char>) -> ToolGovernanceProfile {
    if name == "delegate"@ || name == "delegate_async"@ {
        ToolGovernanceProfile {
            scope: ToolGovernanceScope::TopologyMutation,
            risk_class: ToolRiskClass::High,
            approval_mode: ToolApprovalMode::PolicyDriven,
        }
    } else if name == "browser.companion.click"@ || name == "browser.companion.type"@ {
        ToolGovernanceProfile {
            scope: ToolGovernanceScope::Routine,
            risk_class: ToolRiskClass::High,
            approval_mode: ToolApprovalMode::PolicyDriven,
        }
    } else if name == "session_archive"@ || name == "session_cancel"@ || name == "session_recover"@
        || name == "sessions_send"@ {
        ToolGovernanceProfile {
            scope: ToolGovernanceScope::Routine,
            risk_class: ToolRiskClass::Elevated,
            approval_mode: ToolApprovalMode::PolicyDriven,
        }
    } else {
        ToolGovernanceProfile {
            scope: ToolGovernanceScope::Routine,
            risk_class: ToolRiskClass::Low,
            approval_mode: ToolApprovalMode::Never,
        }
    }
}

/// How calls of a tool are governed.
pub fn governance_profile_for_tool_name(tool_name: &str) -> (r: ToolGovernanceProfile)
    ensures
        r == governance(tool_name@),
{
    if same(tool_name, "delegate") || same(tool_name, "delegate_async") {
        ToolGovernanceProfile {
            scope: ToolGovernanceScope::TopologyMutation,
            risk_class: ToolRiskClass::High,
            approval_mode: ToolApprovalMode::PolicyDriven,
        }
    } else if same(tool_name, "browser.companion.click") || same(
        tool_name,
        "browser.companion.type",
    ) {
        ToolGovernanceProfile {
            scope: ToolGovernanceScope::Routine,
            risk_class: ToolRiskClass::High,
            approval_mode: ToolApprovalMode::PolicyDriven,
        }
    } else if same(tool_name, "session_archive") || same(tool_name, "session_cancel") || same(
        tool_name,
        "session_recover",
    ) || same(tool_name, "sessions_send") {
        ToolGovernanceProfile {
            scope: ToolGovernanceScope::Routine,
            risk_class: ToolRiskClass::Elevated,
            approval_mode: ToolApprovalMode::PolicyDriven,
        }
    } else {
        ToolGovernanceProfile {
            scope: ToolGovernanceScope::Routine,
            risk_class: ToolRiskClass::Low,
            approval_mode: ToolApprovalMode::Never,
        }
    }
}

/// How calls of a tool are governed.
pub fn governance_profile_for_descriptor(descriptor: &ToolDescriptor) -> (r: ToolGovernanceProfile)
    ensures
        r == governance(descriptor.name@),
{
    governance_profile_for_tool_name(descriptor.name)
}

/// A tool whose calls need no approval is of low risk and changes nothing in the
/// layout of sessions, and the other way round.
pub proof fn law_approval_follows_risk(name: Seq<char>)
    ensures
        governance(name).approval_mode == ToolApprovalMode::Never <==> governance(name).risk_class
            == ToolRiskClass::Low,
        governance(name).scope == ToolGovernanceScope::TopologyMutation ==> governance(
            name,
        ).risk_class == ToolRiskClass::High,
{
}

/// Whether calls of a tool may run beside others.
pub open spec fn scheduling(name: Seq<char>) -> ToolSchedulingClass {
    if name == "tool.search"@ || name == "file.read"@ || name == "web.fetch"@ || name
        == "web.search"@ || name == "sessions_list"@ {
        ToolSchedulingClass::ParallelSafe
    } else {
        ToolSchedulingClass::SerialOnly
    }
}

/// Whether calls of a tool may run beside others.
pub fn scheduling_class_for_tool_name(tool_name: &str) -> (r: ToolSchedulingClass)
    ensures
        r == scheduling(tool_name@),
{
    if same(tool_name, "tool.search") || same(tool_name, "file.read") || same(
        tool_name,
        "web.fetch",
    ) || same(tool_name, "web.search") || same(tool_name, "sessions_list") {
        ToolSchedulingClass::ParallelSafe
    } else {
        ToolSchedulingClass::SerialOnly
    }
}

/// What the arguments of a tool look like, in short.
pub open spec fn argument_hint_of(name: Seq<char>) -> Seq<char> {
    let v = values_for(ARGUMENT_HINTS@, name);
    if v.len() > 0 {
        v[0]
    } else {
        Seq::empty()
    }
}

/// What the arguments of a tool look like, in short.
pub fn tool_argument_hint(name: &str) -> (r: &'static str)
    ensures
        r@ == argument_hint_of(name@),
{
    let v = values_of(&ARGUMENT_HINTS, name);
    if v.len() > 0 {
        assert(strs(v@)[0] == v@[0]@);
        v[0]
    } else {
        proof {
            reveal_strlit("");
            assert(""@ =~= Seq::empty());
        }
        ""
    }
}

/// The parameters of a tool and their types.
pub fn tool_parameter_types(name: &str) -> (r: Vec<(&'static str, &'static str)>)
    ensures
        str_pairs(r@) == pairs_for(PARAMETER_TYPES@, name@),
{
    pairs_of(&PARAMETER_TYPES, name)
}

/// The fields that a call of a tool must have.
pub fn tool_required_fields(name: &str) -> (r: Vec<&'static str>)
    ensures
        strs(r@) == values_for(REQUIRED_FIELDS@, name@),
{
    values_of(&REQUIRED_FIELDS, name)
}

/// The groups of fields of which a call of a tool must have one.
pub open spec fn required_groups(name: Seq<char>) -> Seq<Seq<Seq<char>>> {
    if name == "external_skills.install"@ {
        seq![seq!["path"@], seq!["bundled_skill_id"@]]
    } else {
        Seq::empty()
    }
}

/// The views of a list of lists of string literals.
pub open spec fn str_lists(v: Seq<Vec<&'static str>>) -> Seq<Seq<Seq<char>>> {
    Seq::new(v.len(), |i: int| strs(v[i]@))
}

/// The groups of fields of which a call of a tool must have one.
pub fn tool_required_field_groups(name: &str) -> (r: Vec<Vec<&'static str>>)
    ensures
        str_lists(r@) == required_groups(name@),
{
    let mut r: Vec<Vec<&'static str>> = Vec::new();
    if same(name, "external_skills.install") {
        let mut path: Vec<&'static str> = Vec::new();
        path.push("path");
        assert(strs(path@) =~= seq!["path"@]);
        let mut bundled: Vec<&'static str> = Vec::new();
        bundled.push("bundled_skill_id");
        assert(strs(bundled@) =~= seq!["bundled_skill_id"@]);
        r.push(path);
        r.push(bundled);
    }
    assert(str_lists(r@) =~= required_groups(name@));
    r
}

/// The words by which a tool is found.
pub fn tool_tags(name: &str) -> (r: Vec<&'static str>)
    ensures
        strs(r@) == values_for(TAGS@, name@),
{
    values_of(&TAGS, name)
}

impl DescriptorView {
    /// Whether a name is one of the tool's.
    pub open spec fn matches(self, raw: Seq<char>) -> bool {
        self.name == raw || self.provider_name == raw || self.aliases.contains(raw)
    }
}

impl ToolDescriptor {
    pub open spec fn view(&self) -> DescriptorView {
        DescriptorView {
            name: self.name@,
            provider_name: self.provider_name@,
            aliases: strs(self.aliases@),
            description: self.description@,
            execution_kind: self.execution_kind,
            availability: self.availability,
            exposure: self.exposure,
            visibility_gate: self.visibility_gate,
        }
    }

    /// Whether a name is one of the tool's.
    pub fn matches_name(&self, raw: &str) -> (r: bool)
        ensures
            r == self@.matches(raw@),
    {
        if same(self.name, raw) || same(self.provider_name, raw) {
            return true;
        }
        let mut i: usize = 0;
        while i < self.aliases.len()
            invariant
                i <= self.aliases@.len(),
                forall|j: int| 0 <= j < i ==> strs(self.aliases@)[j] != raw@,
            decreases self.aliases@.len() - i,
        {
            if same(self.aliases[i], raw) {
                assert(strs(self.aliases@)[i as int] == raw@);
                return true;
            }
            i += 1;
        }
        false
    }

    pub fn argument_hint(&self) -> (r: &'static str)
        ensures
            r@ == argument_hint_of(self@.name),
    {
        tool_argument_hint(self.name)
    }

    pub fn parameter_types(&self) -> (r: Vec<(&'static str, &'static str)>)
        ensures
            str_pairs(r@) == pairs_for(PARAMETER_TYPES@, self@.name),
    {
        tool_parameter_types(self.name)
    }

    pub fn required_fields(&self) -> (r: Vec<&'static str>)
        ensures
            strs(r@) == values_for(REQUIRED_FIELDS@, self@.name),
    {
        tool_required_fields(self.name)
    }

    pub fn tags(&self) -> (r: Vec<&'static str>)
        ensures
            strs(r@) == values_for(TAGS@, self@.name),
    {
        tool_tags(self.name)
    }

    pub fn is_provider_core(&self) -> (r: bool)
        ensures
            r == (self@.exposure == ToolExposureClass::ProviderCore),
    {
        self.exposure == ToolExposureClass::ProviderCore
    }

    pub fn is_discoverable(&self) -> (r: bool)
        ensures
            r == (self@.exposure == ToolExposureClass::Discoverable),
    {
        self.exposure == ToolExposureClass::Discoverable
    }

    pub fn scheduling_class(&self) -> (r: ToolSchedulingClass)
        ensures
            r == scheduling(self@.name),
    {
        scheduling_class_for_tool_name(self.name)
    }
}

// The catalog.

/// The tools that there are.
pub struct ToolCatalog {
    descriptors: Vec<ToolDescriptor>,
}

/// The views of a list of tools.
pub open spec fn descriptor_views(v: Seq<ToolDescriptor>) -> Seq<DescriptorView> {
    Seq::new(v.len(), |i: int| v[i]@)
}

/// The first tool with the name `name`.
pub open spec fn named(rows: Seq<DescriptorView>, name: Seq<char>) -> Option<DescriptorView>
    decreases rows.len(),
{
    if rows.len() == 0 {
        None
    } else if rows[0].name == name {
        Some(rows[0])
    } else {
        named(rows.skip(1), name)
    }
}

/// The first tool of which `raw` is a name.
pub open spec fn resolved(rows: Seq<DescriptorView>, raw: Seq<char>) -> Option<DescriptorView>
    decreases rows.len(),
{
    if rows.len() == 0 {
        None
    } else if rows[0].matches(raw) {
        Some(rows[0])
    } else {
        resolved(rows.skip(1), raw)
    }
}

/// The view of an optional tool.
pub open spec fn opt_descriptor(d: Option<&ToolDescriptor>) -> Option<DescriptorView> {
    match d {
        Some(x) => Some(x@),
        None => None,
    }
}

impl ToolCatalog {
    pub closed spec fn view(&self) -> Seq<DescriptorView> {
        descriptor_views(self.descriptors@)
    }

    /// The tool with a name.
    pub fn descriptor(&self, tool_name: &str) -> (r: Option<&ToolDescriptor>)
        ensures
            opt_descriptor(r) == named(self@, tool_name@),
    {
        let mut i: usize = 0;
        assert(self@.skip(0) =~= self@);
        while i < self.descriptors.len()
            invariant
                i <= self.descriptors@.len(),
                named(self@, tool_name@) == named(self@.skip(i as int), tool_name@),
            decreases self.descriptors@.len() - i,
        {
            assert(self@.skip(i as int)[0] == self.descriptors@[i as int]@);
            assert(self@.skip(i as int).skip(1) =~= self@.skip(i + 1));
            if same(self.descriptors[i].name, tool_name) {
                return Some(&self.descriptors[i]);
            }
            i += 1;
        }
        None
    }

    /// The tool that a name of any kind means.
    pub fn resolve(&self, raw_tool_name: &str) -> (r: Option<&ToolDescriptor>)
        ensures
            opt_descriptor(r) == resolved(self@, raw_tool_name@),
    {
        let mut i: usize = 0;
        assert(self@.skip(0) =~= self@);
        while i < self.descriptors.len()
            invariant
                i <= self.descriptors@.len(),
                resolved(self@, raw_tool_name@) == resolved(self@.skip(i as int), raw_tool_name@),
            decreases self.descriptors@.len() - i,
        {
            assert(self@.skip(i as int)[0] == self.descriptors@[i as int]@);
            assert(self@.skip(i as int).skip(1) =~= self@.skip(i + 1));
            if self.descriptors[i].matches_name(raw_tool_name) {
                return Some(&self.descriptors[i]);
            }
            i += 1;
        }
        None
    }

    pub fn descriptors(&self) -> (r: &Vec<ToolDescriptor>)
        ensures
            descriptor_views(r@) == self@,
    {
        &self.descriptors
    }
}

fn descriptor_at(i: usize) -> (r: ToolDescriptor)
    requires
        i < TOOLS@.len(),
    ensures
        r@ == row_view(TOOLS@[i as int]),
{
    let row = TOOLS[i];
    let mut aliases: Vec<&'static str> = Vec::new();
    if !row.2.is_empty() {
        aliases.push(row.2);
        assert(strs(aliases@) =~= seq![row.2@]);
    } else {
        assert(strs(aliases@) =~= Seq::empty());
    }
    ToolDescriptor {
        name: row.0,
        provider_name: row.1,
        aliases,
        description: row.3,
        execution_kind: row.4,
        availability: row.5,
        exposure: row.6,
        visibility_gate: row.7,
    }
}

/// The catalog of the tools, in the order of their names.
pub fn tool_catalog() -> (r: ToolCatalog)
    ensures
        r@ == catalog_rows(),
{
    let mut descriptors: Vec<ToolDescriptor> = Vec::new();
    let mut i: usize = 0;
    assert(descriptor_views(descriptors@) =~= catalog_rows().take(0));
    while i < TOOLS.len()
        invariant
            i <= TOOLS@.len(),
            descriptor_views(descriptors@) == catalog_rows().take(i as int),
        decreases TOOLS@.len() - i,
    {
        let d = descriptor_at(i);
        assert(descriptor_views(descriptors@.push(d)) =~= descriptor_views(descriptors@).push(d@));
        assert(catalog_rows().take(i + 1) =~= catalog_rows().take(i as int).push(
            catalog_rows()[i as int],
        ));
        descriptors.push(d);
        i += 1;
    }
    assert(catalog_rows().take(i as int) =~= catalog_rows());
    ToolCatalog { descriptors }
}

// Entries.

/// A tool as the catalog shows it.
pub struct ToolCatalogEntry {
    pub canonical_name: &'static str,
    pub provider_function_name: &'static str,
    pub summary: &'static str,
    pub argument_hint: &'static str,
    pub parameter_types: Vec<(&'static str, &'static str)>,
    pub required_fields: Vec<&'static str>,
    pub tags: Vec<&'static str>,
    pub exposure: ToolExposureClass,
    pub execution_kind: ToolExecutionKind,
    pub availability: ToolAvailability,
    pub scheduling_class: ToolSchedulingClass,
}

/// What a `ToolCatalogEntry` is.
#[verifier::ext_equal]
pub struct EntryView {
    pub canonical_name: Seq<char>,
    pub provider_function_name: Seq<char>,
    pub summary: Seq<char>,
    pub argument_hint: Seq<char>,
    pub parameter_types: Seq<(Seq<char>, Seq<char>)>,
    pub required_fields: Seq<Seq<char>>,
    pub tags: Seq<Seq<char>>,
    pub exposure: ToolExposureClass,
    pub execution_kind: ToolExecutionKind,
    pub availability: ToolAvailability,
    pub scheduling_class: ToolSchedulingClass,
}

/// A tool as the catalog shows it.
pub open spec fn entry_of(d: DescriptorView) -> EntryView {
    EntryView {
        canonical_name: d.name,
        provider_function_name: d.provider_name,
        summary: d.description,
        argument_hint: argument_hint_of(d.name),
        parameter_types: pairs_for(PARAMETER_TYPES@, d.name),
        required_fields: values_for(REQUIRED_FIELDS@, d.name),
        tags: values_for(TAGS@, d.name),
        exposure: d.exposure,
        execution_kind: d.execution_kind,
        availability: d.availability,
        scheduling_class: scheduling(d.name),
    }
}

impl ToolCatalogEntry {
    pub open spec fn view(&self) -> EntryView {
        EntryView {
            canonical_name: self.canonical_name@,
            provider_function_name: self.provider_function_name@,
            summary: self.summary@,
            argument_hint: self.argument_hint@,
            parameter_types: str_pairs(self.parameter_types@),
            required_fields: strs(self.required_fields@),
            tags: strs(self.tags@),
            exposure: self.exposure,
            execution_kind: self.execution_kind,
            availability: self.availability,
            scheduling_class: self.scheduling_class,
        }
    }

    pub fn is_provider_core(&self) -> (r: bool)
        ensures
            r == (self@.exposure == ToolExposureClass::ProviderCore),
    {
        self.exposure == ToolExposureClass::ProviderCore
    }

    pub fn is_discoverable(&self) -> (r: bool)
        ensures
            r == (self@.exposure == ToolExposureClass::Discoverable),
    {
        self.exposure == ToolExposureClass::Discoverable
    }
}

/// The views of a list of entries.
pub open spec fn entry_views(v: Seq<ToolCatalogEntry>) -> Seq<EntryView> {
    Seq::new(v.len(), |i: int| v[i]@)
}

fn descriptor_to_entry(descriptor: &ToolDescriptor) -> (r: ToolCatalogEntry)
    ensures
        r@ == entry_of(descriptor@),
{
    ToolCatalogEntry {
        canonical_name: descriptor.name,
        provider_function_name: descriptor.provider_name,
        summary: descriptor.description,
        argument_hint: descriptor.argument_hint(),
        parameter_types: descriptor.parameter_types(),
        required_fields: descriptor.required_fields(),
        tags: descriptor.tags(),
        exposure: descriptor.exposure,
        execution_kind: descriptor.execution_kind,
        availability: descriptor.availability,
        scheduling_class: descriptor.scheduling_class(),
    }
}

/// The entries of the tools of one exposure, or of all, in their order.
pub open spec fn entries_with(
    rows: Seq<DescriptorView>,
    exposure: Option<ToolExposureClass>,
) -> Seq<EntryView>
    decreases rows.len(),
{
    if rows.len() == 0 {
        Seq::empty()
    } else if exposure is None || rows.last().exposure == exposure->0 {
        entries_with(rows.drop_last(), exposure).push(entry_of(rows.last()))
    } else {
        entries_with(rows.drop_last(), exposure)
    }
}

fn catalog_entries(exposure: Option<ToolExposureClass>) -> (r: Vec<ToolCatalogEntry>)
    ensures
        entry_views(r@) == entries_with(catalog_rows(), exposure),
{
    let catalog = tool_catalog();
    let all = catalog.descriptors();
    let ghost rows = catalog_rows();
    let mut r: Vec<ToolCatalogEntry> = Vec::new();
    let mut i: usize = 0;
    assert(entry_views(r@) =~= entries_with(rows.take(0), exposure));
    while i < all.len()
        invariant
            i <= all@.len(),
            rows == descriptor_views(all@),
            entry_views(r@) == entries_with(rows.take(i as int), exposure),
        decreases all@.len() - i,
    {
        assert(rows.take(i + 1).drop_last() =~= rows.take(i as int));
        assert(rows.take(i + 1).last() == all@[i as int]@);
        let wanted = match exposure {
            Some(e) => all[i].exposure == e,
            None => true,
        };
        if wanted {
            let entry = descriptor_to_entry(&all[i]);
            assert(entry_views(r@.push(entry)) =~= entry_views(r@).push(entry@));
            r.push(entry);
        }
        i += 1;
    }
    assert(rows.take(i as int) =~= rows);
    r
}

/// The tools that providers see at once.
pub fn provider_core_tool_catalog() -> (r: Vec<ToolCatalogEntry>)
    ensures
        entry_views(r@) == entries_with(catalog_rows(), Some(ToolExposureClass::ProviderCore)),
{
    catalog_entries(Some(ToolExposureClass::ProviderCore))
}

/// The tools that are found by search.
pub fn discoverable_tool_catalog() -> (r: Vec<ToolCatalogEntry>)
    ensures
        entry_views(r@) == entries_with(catalog_rows(), Some(ToolExposureClass::Discoverable)),
{
    catalog_entries(Some(ToolExposureClass::Discoverable))
}

/// All tools.
pub fn all_tool_catalog() -> (r: Vec<ToolCatalogEntry>)
    ensures
        entry_views(r@) == entries_with(catalog_rows(), None),
{
    catalog_entries(None)
}

/// The tool that a name of any kind means.
pub fn find_tool_catalog_entry(name: &str) -> (r: Option<ToolCatalogEntry>)
    ensures
        (match (r, resolved(catalog_rows(), name@)) {
            (Some(e), Some(d)) => e@ == entry_of(d),
            (None, None) => true,
            _ => false,
        }),
{
    let catalog = tool_catalog();
    match catalog.resolve(name) {
        Some(d) => Some(descriptor_to_entry(d)),
        None => None,
    }
}

// Names of tools.

/// The name of the tool that a name of any kind means, or the name itself.
pub open spec fn canonical_name(raw: Seq<char>) -> Seq<char> {
    match resolved(catalog_rows(), raw) {
        Some(d) => d.name,
        None => raw,
    }
}

/// The name of the tool that a name of any kind means, or the name itself.
pub fn canonical_tool_name(raw: &str) -> (r: String)
    ensures
        r@ == canonical_name(raw@),
{
    let catalog = tool_catalog();
    match catalog.resolve(raw) {
        Some(d) => d.name.to_owned(),
        None => raw.to_owned(),
    }
}

/// The name of the tool that a name of any kind means, where it runs and is found by
/// search.
pub open spec fn discoverable_name(raw: Seq<char>) -> Option<Seq<char>> {
    match resolved(catalog_rows(), raw) {
        Some(d) => if d.availability == ToolAvailability::Runtime && d.exposure
            != ToolExposureClass::ProviderCore {
            Some(d.name)
        } else {
            None
        },
        None => None,
    }
}

/// The name of the tool that a name of any kind means, where it runs and is found by
/// search.
pub fn discoverable_tool_name(raw: &str) -> (r: Option<&'static str>)
    ensures
        text::opt_str(r) == discoverable_name(raw@),
{
    let catalog = tool_catalog();
    match catalog.resolve(raw) {
        Some(d) => if d.availability == ToolAvailability::Runtime && d.exposure
            != ToolExposureClass::ProviderCore {
            Some(d.name)
        } else {
            None
        },
        None => None,
    }
}

} // verus!
