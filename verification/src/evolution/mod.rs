//! Sessions in which the assistant works on its own code.
use crate::text;
use crate::text::{cat, cat4, decimal_text, integer_text};
use std::collections::BTreeMap;
use vstd::prelude::*;

pub mod watch;

verus! {

/// What a session is for.
#[non_exhaustive]
#[derive(Clone, Copy, Debug, PartialEq, Eq, Structural)]
pub enum EvolutionMode {
    /// Find issues and change nothing.
    Scan,
    /// Repair what fails.
    Fix,
    /// Make things better that do not fail.
    Improve,
    /// Repair and make better.
    Full,
}

impl EvolutionMode {
    pub open spec fn name(self) -> Seq<char> {
        match self {
            EvolutionMode::Scan => "scan"@,
            EvolutionMode::Fix => "fix"@,
            EvolutionMode::Improve => "improve"@,
            EvolutionMode::Full => "full"@,
        }
    }

    pub fn as_str(self) -> (r: &'static str)
        ensures
            r@ == self.name(),
    {
        match self {
            EvolutionMode::Scan => "scan",
            EvolutionMode::Fix => "fix",
            EvolutionMode::Improve => "improve",
            EvolutionMode::Full => "full",
        }
    }

    pub fn includes_fix(self) -> (r: bool)
        ensures
            r == (self == EvolutionMode::Fix || self == EvolutionMode::Full),
    {
        matches!(self, EvolutionMode::Fix | EvolutionMode::Full)
    }

    pub fn includes_improve(self) -> (r: bool)
        ensures
            r == (self == EvolutionMode::Improve || self == EvolutionMode::Full),
    {
        matches!(self, EvolutionMode::Improve | EvolutionMode::Full)
    }
}

/// What began a session.
#[derive(Debug, Clone, PartialEq, Eq)]
pub enum EvolutionTrigger {
    Manual,
    TestFailure { test_name: String, error: String },
    RuntimeError { context: String, error: String },
    Scheduled { schedule_id: String },
}

/// What an `EvolutionTrigger` is.
#[verifier::ext_equal]
pub enum TriggerView {
    Manual,
    TestFailure { test_name: Seq<char>, error: Seq<char> },
    RuntimeError { context: Seq<char>, error: Seq<char> },
    Scheduled { schedule_id: Seq<char> },
}

impl TriggerView {
    pub open spec fn name(self) -> Seq<char> {
        match self {
            TriggerView::Manual => "manual"@,
            TriggerView::TestFailure { .. } => "test_failure"@,
            TriggerView::RuntimeError { .. } => "runtime_error"@,
            TriggerView::Scheduled { .. } => "scheduled"@,
        }
    }
}

impl EvolutionTrigger {
    pub open spec fn view(&self) -> TriggerView {
        match self {
            EvolutionTrigger::Manual => TriggerView::Manual,
            EvolutionTrigger::TestFailure { test_name, error } => TriggerView::TestFailure {
                test_name: test_name@,
                error: error@,
            },
            EvolutionTrigger::RuntimeError { context, error } => TriggerView::RuntimeError {
                context: context@,
                error: error@,
            },
            EvolutionTrigger::Scheduled { schedule_id } => TriggerView::Scheduled {
                schedule_id: schedule_id@,
            },
        }
    }

    pub fn kind_str(&self) -> (r: &'static str)
        ensures
            r@ == self@.name(),
    {
        match self {
            EvolutionTrigger::Manual => "manual",
            EvolutionTrigger::TestFailure { .. } => "test_failure",
            EvolutionTrigger::RuntimeError { .. } => "runtime_error",
            EvolutionTrigger::Scheduled { .. } => "scheduled",
        }
    }
}

/// How far an attempt came.
#[non_exhaustive]
#[derive(Clone, Copy, Debug, PartialEq, Eq, Structural)]
pub enum EvolutionPhase {
    Detect,
    Diagnose,
    Snapshot,
    Patch,
    Verify,
    Decide,
}

impl EvolutionPhase {
    pub open spec fn name(self) -> Seq<char> {
        match self {
            EvolutionPhase::Detect => "detect"@,
            EvolutionPhase::Diagnose => "diagnose"@,
            EvolutionPhase::Snapshot => "snapshot"@,
            EvolutionPhase::Patch => "patch"@,
            EvolutionPhase::Verify => "verify"@,
            EvolutionPhase::Decide => "decide"@,
        }
    }

    pub fn as_str(self) -> (r: &'static str)
        ensures
            r@ == self.name(),
    {
        match self {
            EvolutionPhase::Detect => "detect",
            EvolutionPhase::Diagnose => "diagnose",
            EvolutionPhase::Snapshot => "snapshot",
            EvolutionPhase::Patch => "patch",
            EvolutionPhase::Verify => "verify",
            EvolutionPhase::Decide => "decide",
        }
    }
}

/// What was done with an attempt.
#[derive(Debug, Clone, PartialEq, Eq)]
pub enum EvolutionDecision {
    Keep { commit_sha: String },
    Rollback { reason: String, breadcrumb_id: String },
    Skip { reason: String },
}

/// What an `EvolutionDecision` is.
#[verifier::ext_equal]
pub enum DecisionView {
    Keep { commit_sha: Seq<char> },
    Rollback { reason: Seq<char>, breadcrumb_id: Seq<char> },
    Skip { reason: Seq<char> },
}

impl EvolutionDecision {
    pub open spec fn view(&self) -> DecisionView {
        match self {
            EvolutionDecision::Keep { commit_sha } => DecisionView::Keep {
                commit_sha: commit_sha@,
            },
            EvolutionDecision::Rollback { reason, breadcrumb_id } => DecisionView::Rollback {
                reason: reason@,
                breadcrumb_id: breadcrumb_id@,
            },
            EvolutionDecision::Skip { reason } => DecisionView::Skip { reason: reason@ },
        }
    }
}

/// What kind of issue was found.
#[non_exhaustive]
#[derive(Clone, Copy, Debug, PartialEq, Eq, Structural)]
pub enum EvolutionIssueKind {
    TestFailure,
    CompilationError,
    ClippyWarning,
    MissingTest,
    DeadCode,
    RuntimeError,
}

impl EvolutionIssueKind {
    pub open spec fn name(self) -> Seq<char> {
        match self {
            EvolutionIssueKind::TestFailure => "test_failure"@,
            EvolutionIssueKind::CompilationError => "compilation_error"@,
            EvolutionIssueKind::ClippyWarning => "clippy_warning"@,
            EvolutionIssueKind::MissingTest => "missing_test"@,
            EvolutionIssueKind::DeadCode => "dead_code"@,
            EvolutionIssueKind::RuntimeError => "runtime_error"@,
        }
    }

    pub fn as_str(self) -> (r: &'static str)
        ensures
            r@ == self.name(),
    {
        match self {
            EvolutionIssueKind::TestFailure => "test_failure",
            EvolutionIssueKind::CompilationError => "compilation_error",
            EvolutionIssueKind::ClippyWarning => "clippy_warning",
            EvolutionIssueKind::MissingTest => "missing_test",
            EvolutionIssueKind::DeadCode => "dead_code",
            EvolutionIssueKind::RuntimeError => "runtime_error",
        }
    }

    /// Whether something fails.
    pub fn is_reactive(self) -> (r: bool)
        ensures
            r == (self == EvolutionIssueKind::TestFailure || self
                == EvolutionIssueKind::CompilationError || self
                == EvolutionIssueKind::RuntimeError),
    {
        matches!(
            self,
            EvolutionIssueKind::TestFailure
            | EvolutionIssueKind::CompilationError
            | EvolutionIssueKind::RuntimeError
        )
    }
}

/// How bad an issue is.
#[non_exhaustive]
#[derive(Clone, Copy, Debug, PartialEq, Eq, PartialOrd, Ord)]
pub enum IssueSeverity {
    Low,
    Medium,
    High,
    Critical,
}

/// An issue that was found.
#[derive(Debug, Clone, PartialEq, Eq)]
pub struct EvolutionIssue {
    pub issue_id: String,
    pub kind: EvolutionIssueKind,
    pub file_path: String,
    pub description: String,
    pub severity: IssueSeverity,
    pub raw_output: Option<String>,
}

/// What was tried, and what came of it.
#[derive(Debug, Clone, PartialEq, Eq)]
pub struct EvolutionBreadcrumb {
    pub breadcrumb_id: String,
    pub session_id: String,
    pub issue_id: String,
    pub attempt_number: u32,
    pub phase_reached: EvolutionPhase,
    pub decision: EvolutionDecision,
    pub patch_description: String,
    pub error_output: Option<String>,
    pub files_modified: Vec<String>,
    pub fingerprint_before: String,
    pub fingerprint_after: Option<String>,
    pub timestamp_epoch_s: i64,
}

/// What an `EvolutionBreadcrumb` is.
#[verifier::ext_equal]
pub struct BreadcrumbView {
    pub breadcrumb_id: Seq<char>,
    pub session_id: Seq<char>,
    pub issue_id: Seq<char>,
    pub attempt_number: u32,
    pub phase_reached: EvolutionPhase,
    pub decision: DecisionView,
    pub patch_description: Seq<char>,
    pub error_output: Option<Seq<char>>,
    pub files_modified: Seq<Seq<char>>,
    pub fingerprint_before: Seq<char>,
    pub fingerprint_after: Option<Seq<char>>,
    pub timestamp_epoch_s: i64,
}

impl EvolutionBreadcrumb {
    pub open spec fn view(&self) -> BreadcrumbView {
        BreadcrumbView {
            breadcrumb_id: self.breadcrumb_id@,
            session_id: self.session_id@,
            issue_id: self.issue_id@,
            attempt_number: self.attempt_number,
            phase_reached: self.phase_reached,
            decision: self.decision@,
            patch_description: self.patch_description@,
            error_output: text::opt_text(self.error_output),
            files_modified: text::texts(self.files_modified@),
            fingerprint_before: self.fingerprint_before@,
            fingerprint_after: text::opt_text(self.fingerprint_after),
            timestamp_epoch_s: self.timestamp_epoch_s,
        }
    }
}

/// What a session did.
#[derive(Debug, Clone, PartialEq, Eq)]
pub struct EvolutionSessionSummary {
    pub session_id: String,
    pub mode: EvolutionMode,
    pub trigger: EvolutionTrigger,
    pub started_at_epoch_s: i64,
    pub completed_at_epoch_s: Option<i64>,
    pub issues_detected: u32,
    pub patches_applied: u32,
    pub patches_rolled_back: u32,
    pub patches_skipped: u32,
}

/// What an `EvolutionSessionSummary` is.
#[verifier::ext_equal]
pub struct SummaryView {
    pub session_id: Seq<char>,
    pub mode: EvolutionMode,
    pub trigger: TriggerView,
    pub started_at_epoch_s: i64,
    pub completed_at_epoch_s: Option<i64>,
    pub issues_detected: u32,
    pub patches_applied: u32,
    pub patches_rolled_back: u32,
    pub patches_skipped: u32,
}

impl EvolutionSessionSummary {
    pub open spec fn view(&self) -> SummaryView {
        SummaryView {
            session_id: self.session_id@,
            mode: self.mode,
            trigger: self.trigger@,
            started_at_epoch_s: self.started_at_epoch_s,
            completed_at_epoch_s: self.completed_at_epoch_s,
            issues_detected: self.issues_detected,
            patches_applied: self.patches_applied,
            patches_rolled_back: self.patches_rolled_back,
            patches_skipped: self.patches_skipped,
        }
    }
}

/// What a session may do.
#[derive(Debug, Clone, PartialEq, Eq)]
pub struct EvolutionConfig {
    pub max_retries_per_issue: u32,
    pub max_mutations_per_session: u32,
    pub cooldown_seconds: u64,
    pub auto_commit: bool,
    pub dry_run: bool,
    pub verify_commands: Vec<String>,
}

impl Default for EvolutionConfig {
    fn default() -> (r: EvolutionConfig)
        ensures
            r.max_retries_per_issue == 3,
            r.max_mutations_per_session == 10,
            r.cooldown_seconds == 300,
            r.auto_commit,
            !r.dry_run,
            text::texts(r.verify_commands@) == seq![
                "cargo test --workspace"@,
                "cargo clippy --workspace --all-targets --all-features -- -D warnings"@,
            ],
    {
        let mut verify_commands: Vec<String> = Vec::new();
        verify_commands.push("cargo test --workspace".to_owned());
        verify_commands.push(
            "cargo clippy --workspace --all-targets --all-features -- -D warnings".to_owned(),
        );
        assert(text::texts(verify_commands@) =~= seq![
            "cargo test --workspace"@,
            "cargo clippy --workspace --all-targets --all-features -- -D warnings"@,
        ]);
        EvolutionConfig {
            max_retries_per_issue: 3,
            max_mutations_per_session: 10,
            cooldown_seconds: 300,
            auto_commit: true,
            dry_run: false,
            verify_commands,
        }
    }
}

/// What a command of the shell put out.
#[derive(Debug, Clone, PartialEq, Eq)]
pub struct ShellOutput {
    pub exit_code: i32,
    pub stdout: String,
    pub stderr: String,
}

impl ShellOutput {
    pub fn success(&self) -> (r: bool)
        ensures
            r == (self.exit_code == 0),
    {
        self.exit_code == 0
    }

    /// The output of a command. One that was ended by a signal has no code of its own.
    pub fn new(code: Option<i32>, stdout: String, stderr: String) -> (r: ShellOutput)
        ensures
            r.exit_code == (match code {
                Some(n) => n,
                None => -1i32,
            }),
            r.stdout == stdout,
            r.stderr == stderr,
    {
        let exit_code: i32 = match code {
            Some(n) => n,
            None => -1,
        };
        ShellOutput { exit_code, stdout, stderr }
    }
}

/// All that is known of a session.
#[derive(Debug, Clone, PartialEq, Eq)]
pub struct EvolutionReport {
    pub session: EvolutionSessionSummary,
    pub breadcrumbs: Vec<EvolutionBreadcrumb>,
    pub issues: Vec<EvolutionIssue>,
    pub metadata: BTreeMap<String, String>,
}

/// A text with zeros before it, up to a length of four.
pub open spec fn padded(s: Seq<char>) -> Seq<char>
    decreases 4 - s.len(),
{
    if s.len() < 4 {
        padded(seq!['0'] + s)
    } else {
        s
    }
}

fn pad_with_zeros(s: String) -> (r: String)
    ensures
        r@ == padded(s@),
{
    proof {
        reveal_strlit("0");
    }
    let mut r = s;
    let ghost start = r@;
    while r.as_str().unicode_len() < 4
        invariant
            padded(start) == padded(r@),
        decreases 4 - r@.len(),
    {
        let ghost before = r@;
        proof {
            reveal_strlit("0");
        }
        r = cat("0", r.as_str());
        assert(r@ =~= seq!['0'] + before);
    }
    r
}

/// A name that no other session or attempt has, from a prefix, the time in seconds and
/// a number that is given once.
pub fn generate_id(prefix: &str, now_epoch_s: i64, counter: u64) -> (r: String)
    ensures
        r@ == prefix@ + "-"@ + text::int_text(now_epoch_s as int) + "-"@ + padded(
            text::decimal(counter as nat),
        ),
{
    let ts = integer_text(now_epoch_s);
    let number = pad_with_zeros(decimal_text(counter));
    let start = cat4(prefix, "-", ts.as_str(), "-");
    cat(start.as_str(), number.as_str())
}

} // verus!
