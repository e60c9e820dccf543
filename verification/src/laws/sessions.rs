//! Sessions that mend the workspace, their rows, and what a prompt gets of the memory.
use crate::evolution;
use crate::evolution::watch;
use crate::evolution::watch::{NextView, WatchEvent};
use crate::evolution::{
    BreadcrumbView, DecisionView, EvolutionIssueKind, EvolutionMode, EvolutionPhase, SummaryView,
    TriggerView,
};
use crate::json;
use crate::json::JsonView;
use crate::memory;
use crate::memory::evolution_store;
use crate::memory::evolution_store::{BreadcrumbRowView, SessionRowView};
use crate::memory::{
    ContextSnapshot, MemoryContextKind, MemoryMode, MemoryRuntimeConfig,
};
use crate::text;
use vstd::prelude::*;

verus! {

// The watch.

/// A tick of the scan runs a session of the mode that was asked for, a tick of the force runs
/// a full one; each says by which schedule it runs.
pub proof fn law_ticks_run_their_sessions(mode: EvolutionMode, event: WatchEvent)
    ensures
        watch::done_next(mode, WatchEvent::ScanTick) == (NextView::Run {
            mode,
            trigger: TriggerView::Scheduled { schedule_id: "watch-scan"@ },
        }),
        watch::done_next(mode, WatchEvent::ForceTick) == (NextView::Run {
            mode: EvolutionMode::Full,
            trigger: TriggerView::Scheduled { schedule_id: "watch-force"@ },
        }),
        event is ScanDone || event is ForceDone ==> watch::done_next(mode, event) is Wait,
{
}

/// What is said of a session that ended gives its number of issues found, of patches applied,
/// taken back and left out, in that order. A session that failed says why. What is rendered
/// comes behind it where it was asked for.
pub proof fn law_ended_sessions_are_told(
    mode: EvolutionMode,
    json: bool,
    s: evolution::EvolutionSessionSummary,
    rendered: Option<String>,
    e: String,
)
    ensures
        ({
            let counts = s.session_id@ + " complete: "@ + text::decimal(s.issues_detected as nat)
                + " detected, "@ + text::decimal(s.patches_applied as nat) + " applied, "@
                + text::decimal(s.patches_rolled_back as nat) + " rolled back, "@ + text::decimal(
                s.patches_skipped as nat,
            ) + " skipped"@;
            let scan = watch::said(mode, json, WatchEvent::ScanDone(Ok(s), rendered));
            let force = watch::said(mode, json, WatchEvent::ForceDone(Ok(s)));
            &&& scan[0] == "[evolve-watch] session "@ + counts
            &&& force == seq!["[evolve-watch] force session "@ + counts]
            &&& json && rendered is Some ==> scan.len() == 2 && scan[1] == rendered->0@
            &&& !(json && rendered is Some) ==> scan.len() == 1
        }),
        watch::said(mode, json, WatchEvent::ScanDone(Err(e), rendered)) == seq![
            "[evolve-watch] scan error: "@ + e@,
        ],
        watch::said(mode, json, WatchEvent::ForceDone(Err(e))) == seq![
            "[evolve-watch] force error: "@ + e@,
        ],
{
    let v = s@;
    let counts = s.session_id@ + " complete: "@ + text::decimal(s.issues_detected as nat)
        + " detected, "@ + text::decimal(s.patches_applied as nat) + " applied, "@ + text::decimal(
        s.patches_rolled_back as nat,
    ) + " rolled back, "@ + text::decimal(s.patches_skipped as nat) + " skipped"@;
    assert(watch::session_text("[evolve-watch] session "@, v) =~= "[evolve-watch] session "@
        + counts);
    assert(watch::session_text("[evolve-watch] force session "@, v)
        =~= "[evolve-watch] force session "@ + counts);
}

// Names.

/// The names under which modes, phases, issues and triggers are kept.
pub proof fn law_names_are_these(t: TriggerView)
    ensures
        EvolutionMode::Scan.name() == "scan"@,
        EvolutionMode::Fix.name() == "fix"@,
        EvolutionMode::Improve.name() == "improve"@,
        EvolutionMode::Full.name() == "full"@,
        EvolutionPhase::Detect.name() == "detect"@,
        EvolutionPhase::Diagnose.name() == "diagnose"@,
        EvolutionPhase::Snapshot.name() == "snapshot"@,
        EvolutionPhase::Patch.name() == "patch"@,
        EvolutionPhase::Verify.name() == "verify"@,
        EvolutionPhase::Decide.name() == "decide"@,
        EvolutionIssueKind::TestFailure.name() == "test_failure"@,
        EvolutionIssueKind::CompilationError.name() == "compilation_error"@,
        EvolutionIssueKind::ClippyWarning.name() == "clippy_warning"@,
        EvolutionIssueKind::MissingTest.name() == "missing_test"@,
        EvolutionIssueKind::DeadCode.name() == "dead_code"@,
        EvolutionIssueKind::RuntimeError.name() == "runtime_error"@,
        t is Manual ==> t.name() == "manual"@,
        t is TestFailure ==> t.name() == "test_failure"@,
        t is RuntimeError ==> t.name() == "runtime_error"@,
        t is Scheduled ==> t.name() == "scheduled"@,
{
}

/// A name is padded with zeros up to four digits, and one of four or more stays.
pub proof fn law_numbers_have_four_digits(s: Seq<char>)
    ensures
        s.len() >= 4 ==> evolution::padded(s) == s,
        s.len() == 3 ==> evolution::padded(s) == seq!['0'] + s,
        s.len() == 2 ==> evolution::padded(s) == seq!['0', '0'] + s,
        s.len() == 1 ==> evolution::padded(s) == seq!['0', '0', '0'] + s,
{
    reveal_with_fuel(evolution::padded, 5);
    assert(seq!['0'] + (seq!['0'] + s) =~= seq!['0', '0'] + s);
    assert(seq!['0'] + (seq!['0', '0'] + s) =~= seq!['0', '0', '0'] + s);
}

// Rows.

/// A row that can be read gives back what it holds; one with a phase that is not known, a
/// decision or a list of files that cannot be read, gives an error.
pub proof fn law_rows_of_attempts_give_what_they_hold(
    row: BreadcrumbRowView,
    decision: Result<DecisionView, Seq<char>>,
)
    ensures
        match row.breadcrumb(decision) {
            Ok(b) => {
                &&& b.breadcrumb_id == row.breadcrumb_id
                &&& b.session_id == row.session_id
                &&& b.issue_id == row.issue_id
                &&& b.attempt_number == row.attempt_number
                &&& b.phase_reached.name() == row.phase_reached
                &&& decision == Ok::<DecisionView, Seq<char>>(b.decision)
                &&& b.patch_description == row.patch_description
                &&& b.error_output == row.error_output
                &&& evolution_store::parsed_texts(row.files_modified_json) == Ok::<
                    Seq<Seq<char>>,
                    Seq<char>,
                >(b.files_modified)
                &&& b.fingerprint_before == row.fingerprint_before
                &&& b.fingerprint_after == row.fingerprint_after
                &&& b.timestamp_epoch_s == row.timestamp_epoch_s
            },
            Err(_) => decision is Err || evolution_store::parsed_texts(row.files_modified_json)
                is Err || (forall|p: EvolutionPhase| row.phase_reached != #[trigger] p.name()),
        },
{
    assert forall|p: EvolutionPhase| row.phase_reached == #[trigger] p.name() implies
        evolution_store::phase_named(row.phase_reached) == Some(p) by {
        evolution_store::law_names_are_read_back(p, EvolutionMode::Scan);
    }
}

/// An error of a row says what cannot be read: the first of its phase, its decision and its
/// files, or of its mode and its trigger.
pub proof fn law_rows_say_what_cannot_be_read(
    attempt: BreadcrumbRowView,
    decision: Result<DecisionView, Seq<char>>,
    row: SessionRowView,
    trigger: Result<TriggerView, Seq<char>>,
    p: EvolutionPhase,
    m: EvolutionMode,
    e: Seq<char>,
)
    ensures
        (forall|q: EvolutionPhase| attempt.phase_reached != #[trigger] q.name())
            ==> attempt.breadcrumb(decision) == Err::<BreadcrumbView, Seq<char>>(
            "unknown evolution phase: "@ + attempt.phase_reached,
        ),
        attempt.phase_reached == p.name() && decision == Err::<DecisionView, Seq<char>>(e)
            ==> attempt.breadcrumb(decision) == Err::<BreadcrumbView, Seq<char>>(
            "failed to deserialize decision: "@ + e,
        ),
        attempt.phase_reached == p.name() && decision is Ok && evolution_store::parsed_texts(
            attempt.files_modified_json,
        ) == Err::<Seq<Seq<char>>, Seq<char>>(e) ==> attempt.breadcrumb(decision) == Err::<
            BreadcrumbView,
            Seq<char>,
        >("failed to deserialize files_modified: "@ + e),
        (forall|n: EvolutionMode| row.mode != #[trigger] n.name()) ==> row.session(trigger) == Err::<
            SummaryView,
            Seq<char>,
        >("unknown evolution mode: "@ + row.mode),
        row.mode == m.name() && row.trigger_detail is Some && trigger == Err::<
            TriggerView,
            Seq<char>,
        >(e) ==> row.session(trigger) == Err::<SummaryView, Seq<char>>(
            "failed to deserialize trigger: "@ + e,
        ),
{
    evolution_store::law_names_are_read_back(p, m);
    if let Some(q) = evolution_store::phase_named(attempt.phase_reached) {
        assert(attempt.phase_reached == q.name());
    }
    if let Some(n) = evolution_store::mode_named(row.mode) {
        assert(row.mode == n.name());
    }
}

/// A row of a session gives back what it holds, and the trigger that its detail was read as;
/// without a detail the session was begun by hand.
pub proof fn law_rows_of_sessions_give_what_they_hold(
    row: SessionRowView,
    trigger: Result<TriggerView, Seq<char>>,
)
    ensures
        match row.session(trigger) {
            Ok(s) => {
                &&& s.session_id == row.session_id
                &&& s.mode.name() == row.mode
                &&& row.trigger_detail is None ==> s.trigger is Manual
                &&& row.trigger_detail is Some ==> trigger == Ok::<TriggerView, Seq<char>>(
                    s.trigger,
                )
                &&& s.started_at_epoch_s == row.started_at_epoch_s
                &&& s.completed_at_epoch_s == row.completed_at_epoch_s
                &&& s.issues_detected == row.issues_detected
                &&& s.patches_applied == row.patches_applied
                &&& s.patches_rolled_back == row.patches_rolled_back
                &&& s.patches_skipped == row.patches_skipped
            },
            Err(_) => trigger is Err && row.trigger_detail is Some || (forall|m: EvolutionMode|
                row.mode != #[trigger] m.name()),
        },
{
    assert forall|m: EvolutionMode| row.mode == #[trigger] m.name() implies
        evolution_store::mode_named(row.mode) == Some(m) by {
        evolution_store::law_names_are_read_back(EvolutionPhase::Detect, m);
    }
}

/// Failed attempts are those that were taken back, counted one by one.
pub proof fn law_rollbacks_are_counted_one_by_one(v: Seq<DecisionView>, d: DecisionView)
    ensures
        d is Rollback ==> evolution_store::rollbacks(v.push(d)) == evolution_store::rollbacks(v)
            + 1,
        !(d is Rollback) ==> evolution_store::rollbacks(v.push(d)) == evolution_store::rollbacks(v),
        evolution_store::rollbacks(Seq::empty()) == 0,
{
    assert(v.push(d).drop_last() =~= v);
}

// What a prompt gets of the memory.

/// A prompt gets the profile exactly where the mode asks for it and there is one, the summary
/// exactly where the mode asks for it and there is one, and every turn of the window with its
/// role and its content.
pub proof fn law_prompts_get_what_the_mode_asks_for(
    config: MemoryRuntimeConfig,
    s: ContextSnapshot,
    i: int,
)
    ensures
        ({
            let all = memory::context_entries(config, s);
            let has_profile = config.mode == MemoryMode::ProfilePlusWindow && config.profile_note
                is Some && text::trim(config.profile_note->0@).len() > 0;
            let has_summary = config.mode == MemoryMode::WindowPlusSummary && s.summary_block
                is Some;
            let first = if has_profile || has_summary {
                1int
            } else {
                0
            };
            &&& all.len() == first + s.window_turns@.len()
            &&& has_profile ==> all[0].kind == MemoryContextKind::Profile && all[0].role
                == "system"@ && all[0].content
                == "## Session Profile\nDurable preferences or imported identity carried into this session:\n- "@
                + text::trim(config.profile_note->0@)
            &&& has_summary ==> all[0].kind == MemoryContextKind::Summary && all[0].role
                == "system"@ && all[0].content == s.summary_block->0@
            &&& 0 <= i < s.window_turns@.len() ==> all[first + i].kind == MemoryContextKind::Turn
                && all[first + i].role == s.window_turns@[i].role@ && all[first + i].content
                == s.window_turns@[i].content@
        }),
{
}

/// An operation that the memory does not know is answered with the request itself.
pub proof fn law_unknown_operations_are_echoed(operation: Seq<char>, payload: JsonView)
    ensures
        ({
            let answer = memory::echoed(operation, payload);
            &&& answer.str_at("adapter"@) == Some("kv-core"@)
            &&& answer.str_at("operation"@) == Some(operation)
            &&& answer.get("payload"@) == Some(payload)
        }),
{
    reveal_strlit("adapter");
    reveal_strlit("operation");
    reveal_strlit("payload");
    assert("adapter"@.len() == 7 && "operation"@.len() == 9 && "payload"@.len() == 7);
    assert("adapter"@[0] == 'a' && "payload"@[0] == 'p');
    let v = memory::echoed(operation, payload)->Object_0;
    reveal_with_fuel(json::lookup, 4);
    assert(v.skip(1)[0] == v[1]);
    assert(v.skip(1).skip(1)[0] == v[2]);
}

} // verus!
