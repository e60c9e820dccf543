//! The rows in which sessions and attempts are kept.
use crate::evolution::{
    BreadcrumbView, DecisionView, EvolutionBreadcrumb, EvolutionDecision, EvolutionMode,
    EvolutionPhase, EvolutionSessionSummary, EvolutionTrigger, SummaryView, TriggerView,
};
use crate::text;
use crate::text::{cat, same};
use vstd::prelude::*;

verus! {

// Lists of texts.

/// What `serde_json::from_str` reads of a text as a list of texts.
pub uninterp spec fn parsed_texts(s: Seq<char>) -> Result<Seq<Seq<char>>, Seq<char>>;

/// What `serde_json::to_string` writes for a list of texts.
pub uninterp spec fn rendered_texts(v: Seq<Seq<char>>) -> Seq<char>;

/// Whether a text is read as a list.
pub open spec fn is_read_as(s: Seq<char>, v: Seq<Seq<char>>) -> bool {
    parsed_texts(s) matches Ok(t) && t == v
}

/// The view of what was read.
pub open spec fn texts_result(r: Result<Vec<String>, String>) -> Result<Seq<Seq<char>>, Seq<char>> {
    match r {
        Ok(v) => Ok(text::texts(v@)),
        Err(e) => Err(e@),
    }
}

/// Reads a JSON list of texts with `serde_json::from_str`. The result is named, the error
/// by what it prints.
#[verifier::external_body]
fn texts_from_json(s: &str) -> (r: Result<Vec<String>, String>)
    ensures
        texts_result(r) == parsed_texts(s@),
{
    match serde_json::from_str::<Vec<String>>(s) {
        Ok(v) => Ok(v),
        Err(e) => Err(e.to_string()),
    }
}

/// Writes a list of texts with `serde_json::to_string`, which cannot fail for texts. The
/// result is named, and it is read back as the same list.
#[verifier::external_body]
fn texts_to_json(v: &Vec<String>) -> (r: String)
    ensures
        r@ == rendered_texts(text::texts(v@)) && is_read_as(r@, text::texts(v@)),
{
    serde_json::to_string(v).unwrap_or_default()
}

// Names.

/// The phase with a name.
pub open spec fn phase_named(s: Seq<char>) -> Option<EvolutionPhase> {
    if s == "detect"@ {
        Some(EvolutionPhase::Detect)
    } else if s == "diagnose"@ {
        Some(EvolutionPhase::Diagnose)
    } else if s == "snapshot"@ {
        Some(EvolutionPhase::Snapshot)
    } else if s == "patch"@ {
        Some(EvolutionPhase::Patch)
    } else if s == "verify"@ {
        Some(EvolutionPhase::Verify)
    } else if s == "decide"@ {
        Some(EvolutionPhase::Decide)
    } else {
        None
    }
}

/// The mode with a name.
pub open spec fn mode_named(s: Seq<char>) -> Option<EvolutionMode> {
    if s == "scan"@ {
        Some(EvolutionMode::Scan)
    } else if s == "fix"@ {
        Some(EvolutionMode::Fix)
    } else if s == "improve"@ {
        Some(EvolutionMode::Improve)
    } else if s == "full"@ {
        Some(EvolutionMode::Full)
    } else {
        None
    }
}

/// Every phase and every mode is found under its name.
pub proof fn law_names_are_read_back(phase: EvolutionPhase, mode: EvolutionMode)
    ensures
        phase_named(phase.name()) == Some(phase),
        mode_named(mode.name()) == Some(mode),
{
    reveal_strlit("detect");
    reveal_strlit("diagnose");
    reveal_strlit("snapshot");
    reveal_strlit("patch");
    reveal_strlit("verify");
    reveal_strlit("decide");
    reveal_strlit("scan");
    reveal_strlit("fix");
    reveal_strlit("improve");
    reveal_strlit("full");
    assert("detect"@[2] == 't' && "verify"@[2] == 'r' && "decide"@[2] == 'c');
    assert("diagnose"@[0] == 'd' && "snapshot"@[0] == 's');
    assert("scan"@[0] == 's' && "full"@[0] == 'f');
    assert("detect"@.len() == 6 && "verify"@.len() == 6 && "decide"@.len() == 6);
    assert("diagnose"@.len() == 8 && "snapshot"@.len() == 8 && "patch"@.len() == 5);
    assert("scan"@.len() == 4 && "full"@.len() == 4);
    assert("fix"@.len() == 3 && "improve"@.len() == 7);
}

fn parse_phase(s: &str) -> (r: Option<EvolutionPhase>)
    ensures
        r == phase_named(s@),
{
    if same(s, "detect") {
        Some(EvolutionPhase::Detect)
    } else if same(s, "diagnose") {
        Some(EvolutionPhase::Diagnose)
    } else if same(s, "snapshot") {
        Some(EvolutionPhase::Snapshot)
    } else if same(s, "patch") {
        Some(EvolutionPhase::Patch)
    } else if same(s, "verify") {
        Some(EvolutionPhase::Verify)
    } else if same(s, "decide") {
        Some(EvolutionPhase::Decide)
    } else {
        None
    }
}

fn parse_mode(s: &str) -> (r: Option<EvolutionMode>)
    ensures
        r == mode_named(s@),
{
    if same(s, "scan") {
        Some(EvolutionMode::Scan)
    } else if same(s, "fix") {
        Some(EvolutionMode::Fix)
    } else if same(s, "improve") {
        Some(EvolutionMode::Improve)
    } else if same(s, "full") {
        Some(EvolutionMode::Full)
    } else {
        None
    }
}

fn copied_option(o: &Option<String>) -> (r: Option<String>)
    ensures
        text::opt_text(r) == text::opt_text(*o),
{
    match o {
        Some(s) => Some(s.clone()),
        None => None,
    }
}

// Attempts.

/// The row of an attempt.
pub struct BreadcrumbRow {
    pub breadcrumb_id: String,
    pub session_id: String,
    pub issue_id: String,
    pub attempt_number: u32,
    pub phase_reached: String,
    pub decision_json: String,
    pub patch_description: String,
    pub error_output: Option<String>,
    pub files_modified_json: String,
    pub fingerprint_before: String,
    pub fingerprint_after: Option<String>,
    pub timestamp_epoch_s: i64,
}

/// What a `BreadcrumbRow` is.
#[verifier::ext_equal]
pub struct BreadcrumbRowView {
    pub breadcrumb_id: Seq<char>,
    pub session_id: Seq<char>,
    pub issue_id: Seq<char>,
    pub attempt_number: u32,
    pub phase_reached: Seq<char>,
    pub decision_json: Seq<char>,
    pub patch_description: Seq<char>,
    pub error_output: Option<Seq<char>>,
    pub files_modified_json: Seq<char>,
    pub fingerprint_before: Seq<char>,
    pub fingerprint_after: Option<Seq<char>>,
    pub timestamp_epoch_s: i64,
}

/// The view of a decision that was read.
pub open spec fn decision_result(r: Result<EvolutionDecision, String>) -> Result<
    DecisionView,
    Seq<char>,
> {
    match r {
        Ok(d) => Ok(d@),
        Err(e) => Err(e@),
    }
}

impl BreadcrumbRowView {
    /// The attempt of a row, with the decision that its text was read as, or the first
    /// thing in it that cannot be read.
    pub open spec fn breadcrumb(self, decision: Result<DecisionView, Seq<char>>) -> Result<
        BreadcrumbView,
        Seq<char>,
    > {
        match phase_named(self.phase_reached) {
            None => Err("unknown evolution phase: "@ + self.phase_reached),
            Some(phase_reached) => match decision {
                Err(e) => Err("failed to deserialize decision: "@ + e),
                Ok(decision) => match parsed_texts(self.files_modified_json) {
                    Err(e) => Err("failed to deserialize files_modified: "@ + e),
                    Ok(files_modified) => Ok(
                        BreadcrumbView {
                            breadcrumb_id: self.breadcrumb_id,
                            session_id: self.session_id,
                            issue_id: self.issue_id,
                            attempt_number: self.attempt_number,
                            phase_reached,
                            decision,
                            patch_description: self.patch_description,
                            error_output: self.error_output,
                            files_modified,
                            fingerprint_before: self.fingerprint_before,
                            fingerprint_after: self.fingerprint_after,
                            timestamp_epoch_s: self.timestamp_epoch_s,
                        },
                    ),
                },
            },
        }
    }
}

/// The view of an attempt that was read.
pub open spec fn breadcrumb_result(r: Result<EvolutionBreadcrumb, String>) -> Result<
    BreadcrumbView,
    Seq<char>,
> {
    match r {
        Ok(b) => Ok(b@),
        Err(e) => Err(e@),
    }
}

impl BreadcrumbRow {
    pub open spec fn view(&self) -> BreadcrumbRowView {
        BreadcrumbRowView {
            breadcrumb_id: self.breadcrumb_id@,
            session_id: self.session_id@,
            issue_id: self.issue_id@,
            attempt_number: self.attempt_number,
            phase_reached: self.phase_reached@,
            decision_json: self.decision_json@,
            patch_description: self.patch_description@,
            error_output: text::opt_text(self.error_output),
            files_modified_json: self.files_modified_json@,
            fingerprint_before: self.fingerprint_before@,
            fingerprint_after: text::opt_text(self.fingerprint_after),
            timestamp_epoch_s: self.timestamp_epoch_s,
        }
    }

    /// The row of an attempt, with its decision written as `decision_json`. Whatever the
    /// decision is read as, the row gives the rest of the attempt back.
    pub fn from_breadcrumb(b: &EvolutionBreadcrumb, decision_json: String) -> (r: BreadcrumbRow)
        ensures
            r@.decision_json == decision_json@,
            r@.phase_reached == b@.phase_reached.name(),
            r@.files_modified_json == rendered_texts(b@.files_modified),
            forall|d: DecisionView|
                #[trigger] r@.breadcrumb(Ok(d)) == Ok::<BreadcrumbView, Seq<char>>(
                    BreadcrumbView { decision: d, ..b@ },
                ),
    {
        let r = BreadcrumbRow {
            breadcrumb_id: b.breadcrumb_id.clone(),
            session_id: b.session_id.clone(),
            issue_id: b.issue_id.clone(),
            attempt_number: b.attempt_number,
            phase_reached: b.phase_reached.as_str().to_owned(),
            decision_json,
            patch_description: b.patch_description.clone(),
            error_output: copied_option(&b.error_output),
            files_modified_json: texts_to_json(&b.files_modified),
            fingerprint_before: b.fingerprint_before.clone(),
            fingerprint_after: copied_option(&b.fingerprint_after),
            timestamp_epoch_s: b.timestamp_epoch_s,
        };
        proof {
            law_names_are_read_back(b.phase_reached, EvolutionMode::Scan);
        }
        r
    }

    /// The attempt of a row, with the decision that its text was read as.
    pub fn into_breadcrumb(self, decision: Result<EvolutionDecision, String>) -> (r: Result<
        EvolutionBreadcrumb,
        String,
    >)
        ensures
            breadcrumb_result(r) == self@.breadcrumb(decision_result(decision)),
    {
        let phase_reached = match parse_phase(self.phase_reached.as_str()) {
            Some(p) => p,
            None => {
                return Err(cat("unknown evolution phase: ", self.phase_reached.as_str()));
            },
        };
        let decision = match decision {
            Ok(d) => d,
            Err(e) => {
                return Err(cat("failed to deserialize decision: ", e.as_str()));
            },
        };
        let files_modified = match texts_from_json(self.files_modified_json.as_str()) {
            Ok(v) => v,
            Err(e) => {
                return Err(cat("failed to deserialize files_modified: ", e.as_str()));
            },
        };
        Ok(
            EvolutionBreadcrumb {
                breadcrumb_id: self.breadcrumb_id,
                session_id: self.session_id,
                issue_id: self.issue_id,
                attempt_number: self.attempt_number,
                phase_reached,
                decision,
                patch_description: self.patch_description,
                error_output: self.error_output,
                files_modified,
                fingerprint_before: self.fingerprint_before,
                fingerprint_after: self.fingerprint_after,
                timestamp_epoch_s: self.timestamp_epoch_s,
            },
        )
    }
}

/// The views of a list of decisions.
pub open spec fn decision_views(v: Seq<EvolutionDecision>) -> Seq<DecisionView> {
    Seq::new(v.len(), |i: int| v[i]@)
}

/// How many of the decisions took a change back.
pub open spec fn rollbacks(v: Seq<DecisionView>) -> nat
    decreases v.len(),
{
    if v.len() == 0 {
        0
    } else if v.last() is Rollback {
        rollbacks(v.drop_last()) + 1
    } else {
        rollbacks(v.drop_last())
    }
}

/// How many of the attempts with these decisions failed: those that were taken back,
/// whatever the reasons of the others say.
pub fn failed_attempts(decisions: &Vec<EvolutionDecision>) -> (r: usize)
    ensures
        r == rollbacks(decision_views(decisions@)),
{
    let ghost all = decision_views(decisions@);
    let mut count: usize = 0;
    let mut i: usize = 0;
    while i < decisions.len()
        invariant
            count <= i <= decisions@.len(),
            all == decision_views(decisions@),
            count == rollbacks(all.take(i as int)),
        decreases decisions@.len() - i,
    {
        assert(all.take(i + 1).drop_last() =~= all.take(i as int));
        assert(all.take(i + 1).last() == decisions@[i as int]@);
        if let EvolutionDecision::Rollback { .. } = &decisions[i] {
            count += 1;
        }
        i += 1;
    }
    assert(all.take(i as int) =~= all);
    count
}

// Sessions.

/// The row of a session.
pub struct SessionRow {
    pub session_id: String,
    pub mode: String,
    pub trigger_kind: String,
    pub trigger_detail: Option<String>,
    pub started_at_epoch_s: i64,
    pub completed_at_epoch_s: Option<i64>,
    pub issues_detected: u32,
    pub patches_applied: u32,
    pub patches_rolled_back: u32,
    pub patches_skipped: u32,
}

/// What a `SessionRow` is.
#[verifier::ext_equal]
pub struct SessionRowView {
    pub session_id: Seq<char>,
    pub mode: Seq<char>,
    pub trigger_kind: Seq<char>,
    pub trigger_detail: Option<Seq<char>>,
    pub started_at_epoch_s: i64,
    pub completed_at_epoch_s: Option<i64>,
    pub issues_detected: u32,
    pub patches_applied: u32,
    pub patches_rolled_back: u32,
    pub patches_skipped: u32,
}

/// The view of a trigger that was read.
pub open spec fn trigger_result(r: Result<EvolutionTrigger, String>) -> Result<
    TriggerView,
    Seq<char>,
> {
    match r {
        Ok(t) => Ok(t@),
        Err(e) => Err(e@),
    }
}

impl SessionRowView {
    /// The session of a row, with the trigger that its detail was read as. Without a
    /// detail the session was begun by hand, whatever its kind says.
    pub open spec fn session(self, trigger: Result<TriggerView, Seq<char>>) -> Result<
        SummaryView,
        Seq<char>,
    > {
        match mode_named(self.mode) {
            None => Err("unknown evolution mode: "@ + self.mode),
            Some(mode) => match (self.trigger_detail, trigger) {
                (Some(_), Err(e)) => Err("failed to deserialize trigger: "@ + e),
                (detail, trigger) => Ok(
                    SummaryView {
                        session_id: self.session_id,
                        mode,
                        trigger: match detail {
                            Some(_) => trigger->Ok_0,
                            None => TriggerView::Manual,
                        },
                        started_at_epoch_s: self.started_at_epoch_s,
                        completed_at_epoch_s: self.completed_at_epoch_s,
                        issues_detected: self.issues_detected,
                        patches_applied: self.patches_applied,
                        patches_rolled_back: self.patches_rolled_back,
                        patches_skipped: self.patches_skipped,
                    },
                ),
            },
        }
    }
}

/// The view of a session that was read.
pub open spec fn session_result(r: Result<EvolutionSessionSummary, String>) -> Result<
    SummaryView,
    Seq<char>,
> {
    match r {
        Ok(s) => Ok(s@),
        Err(e) => Err(e@),
    }
}

impl SessionRow {
    pub open spec fn view(&self) -> SessionRowView {
        SessionRowView {
            session_id: self.session_id@,
            mode: self.mode@,
            trigger_kind: self.trigger_kind@,
            trigger_detail: text::opt_text(self.trigger_detail),
            started_at_epoch_s: self.started_at_epoch_s,
            completed_at_epoch_s: self.completed_at_epoch_s,
            issues_detected: self.issues_detected,
            patches_applied: self.patches_applied,
            patches_rolled_back: self.patches_rolled_back,
            patches_skipped: self.patches_skipped,
        }
    }

    /// The row of a session, with its trigger written as `trigger_detail`.
    pub fn from_session(s: &EvolutionSessionSummary, trigger_detail: String) -> (r: SessionRow)
        ensures
            r@ == (SessionRowView {
                session_id: s@.session_id,
                mode: s@.mode.name(),
                trigger_kind: s@.trigger.name(),
                trigger_detail: Some(trigger_detail@),
                started_at_epoch_s: s@.started_at_epoch_s,
                completed_at_epoch_s: s@.completed_at_epoch_s,
                issues_detected: s@.issues_detected,
                patches_applied: s@.patches_applied,
                patches_rolled_back: s@.patches_rolled_back,
                patches_skipped: s@.patches_skipped,
            }),
    {
        SessionRow {
            session_id: s.session_id.clone(),
            mode: s.mode.as_str().to_owned(),
            trigger_kind: s.trigger.kind_str().to_owned(),
            trigger_detail: Some(trigger_detail),
            started_at_epoch_s: s.started_at_epoch_s,
            completed_at_epoch_s: s.completed_at_epoch_s,
            issues_detected: s.issues_detected,
            patches_applied: s.patches_applied,
            patches_rolled_back: s.patches_rolled_back,
            patches_skipped: s.patches_skipped,
        }
    }

    /// The session of a row, with the trigger that its detail was read as.
    pub fn into_session(self, trigger: Result<EvolutionTrigger, String>) -> (r: Result<
        EvolutionSessionSummary,
        String,
    >)
        ensures
            session_result(r) == self@.session(trigger_result(trigger)),
    {
        let mode = match parse_mode(self.mode.as_str()) {
            Some(m) => m,
            None => {
                return Err(cat("unknown evolution mode: ", self.mode.as_str()));
            },
        };
        let trigger = if self.trigger_detail.is_some() {
            match trigger {
                Ok(t) => t,
                Err(e) => {
                    return Err(cat("failed to deserialize trigger: ", e.as_str()));
                },
            }
        } else {
            EvolutionTrigger::Manual
        };
        Ok(
            EvolutionSessionSummary {
                session_id: self.session_id,
                mode,
                trigger,
                started_at_epoch_s: self.started_at_epoch_s,
                completed_at_epoch_s: self.completed_at_epoch_s,
                issues_detected: self.issues_detected,
                patches_applied: self.patches_applied,
                patches_rolled_back: self.patches_rolled_back,
                patches_skipped: self.patches_skipped,
            },
        )
    }
}

/// A session that was written is read back, where its trigger is.
pub proof fn law_session_is_read_back(s: SummaryView, row: SessionRowView)
    requires
        row.session_id == s.session_id,
        row.mode == s.mode.name(),
        row.trigger_detail is Some,
        row.started_at_epoch_s == s.started_at_epoch_s,
        row.completed_at_epoch_s == s.completed_at_epoch_s,
        row.issues_detected == s.issues_detected,
        row.patches_applied == s.patches_applied,
        row.patches_rolled_back == s.patches_rolled_back,
        row.patches_skipped == s.patches_skipped,
    ensures
        row.session(Ok(s.trigger)) == Ok::<SummaryView, Seq<char>>(s),
{
    law_names_are_read_back(EvolutionPhase::Detect, s.mode);
}

} // verus!
