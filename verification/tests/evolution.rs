//! Sessions in which the assistant works on its own code.
use loongclaw::evolution::watch::{
    force_enabled, force_period_secs, on_watch_event, start_line, EvolveWatchOptions, WatchEvent,
    WatchNext,
};
use loongclaw::evolution::{
    generate_id, EvolutionBreadcrumb, EvolutionConfig, EvolutionDecision, EvolutionIssueKind,
    EvolutionMode, EvolutionPhase, EvolutionSessionSummary, EvolutionTrigger, IssueSeverity,
    ShellOutput,
};
use loongclaw::memory::evolution_store::{failed_attempts, BreadcrumbRow, SessionRow};

fn summary() -> EvolutionSessionSummary {
    EvolutionSessionSummary {
        session_id: "ev-test-001".to_owned(),
        mode: EvolutionMode::Fix,
        trigger: EvolutionTrigger::Manual,
        started_at_epoch_s: 1000,
        completed_at_epoch_s: None,
        issues_detected: 1,
        patches_applied: 2,
        patches_rolled_back: 3,
        patches_skipped: 4,
    }
}

fn rollback() -> EvolutionDecision {
    EvolutionDecision::Rollback {
        reason: "tests failed".to_owned(),
        breadcrumb_id: "bc-001".to_owned(),
    }
}

fn breadcrumb() -> EvolutionBreadcrumb {
    EvolutionBreadcrumb {
        breadcrumb_id: "bc-001".to_owned(),
        session_id: "ev-test-001".to_owned(),
        issue_id: "issue-abc".to_owned(),
        attempt_number: 1,
        phase_reached: EvolutionPhase::Verify,
        decision: rollback(),
        patch_description: "clippy autofix".to_owned(),
        error_output: Some("assertion failed".to_owned()),
        files_modified: vec!["crates/app/src/tools/mod.rs".to_owned(), "a \"b\"".to_owned()],
        fingerprint_before: "abc123".to_owned(),
        fingerprint_after: None,
        timestamp_epoch_s: 1001,
    }
}

#[test]
fn attempts_are_read_back_from_their_rows() {
    let row = BreadcrumbRow::from_breadcrumb(&breadcrumb(), "decision".to_owned());
    assert_eq!(row.phase_reached, "verify");
    assert_eq!(row.decision_json, "decision");
    assert_eq!(
        row.files_modified_json,
        "[\"crates/app/src/tools/mod.rs\",\"a \\\"b\\\"\"]"
    );
    assert_eq!(row.into_breadcrumb(Ok(rollback())), Ok(breadcrumb()));
}

#[test]
fn rows_that_cannot_be_read_are_told() {
    let row = || BreadcrumbRow::from_breadcrumb(&breadcrumb(), String::new());
    let mut odd = row();
    odd.phase_reached = "later".to_owned();
    assert_eq!(
        odd.into_breadcrumb(Ok(rollback())),
        Err("unknown evolution phase: later".to_owned())
    );
    assert_eq!(
        row().into_breadcrumb(Err("bad".to_owned())),
        Err("failed to deserialize decision: bad".to_owned())
    );
    let mut odd = row();
    odd.files_modified_json = "[1]".to_owned();
    assert_eq!(
        odd.into_breadcrumb(Ok(rollback())),
        Err(
            "failed to deserialize files_modified: invalid type: integer `1`, expected a string at line 1 column 2"
                .to_owned()
        )
    );
}

#[test]
fn sessions_are_read_back_from_their_rows() {
    let row = SessionRow::from_session(&summary(), "{\"kind\":\"manual\"}".to_owned());
    assert_eq!(row.mode, "fix");
    assert_eq!(row.trigger_kind, "manual");
    assert_eq!(
        row.into_session(Ok(EvolutionTrigger::Manual)),
        Ok(summary())
    );
    let row = || SessionRow::from_session(&summary(), "x".to_owned());
    assert_eq!(
        row().into_session(Err("bad".to_owned())),
        Err("failed to deserialize trigger: bad".to_owned())
    );
    let mut odd = row();
    odd.mode = "idle".to_owned();
    assert_eq!(
        odd.into_session(Ok(EvolutionTrigger::Manual)),
        Err("unknown evolution mode: idle".to_owned())
    );
    let mut plain = row();
    plain.trigger_detail = None;
    plain.trigger_kind = "scheduled".to_owned();
    assert_eq!(
        plain.into_session(Err("unused".to_owned())).map(|s| s.trigger),
        Ok(EvolutionTrigger::Manual)
    );
}

#[test]
fn names_of_modes_phases_and_issues() {
    for (mode, name, fix, improve) in [
        (EvolutionMode::Scan, "scan", false, false),
        (EvolutionMode::Fix, "fix", true, false),
        (EvolutionMode::Improve, "improve", false, true),
        (EvolutionMode::Full, "full", true, true),
    ] {
        assert_eq!(mode.as_str(), name);
        assert_eq!(mode.includes_fix(), fix);
        assert_eq!(mode.includes_improve(), improve);
    }
    assert_eq!(EvolutionPhase::Snapshot.as_str(), "snapshot");
    for (kind, name, reactive) in [
        (EvolutionIssueKind::TestFailure, "test_failure", true),
        (EvolutionIssueKind::CompilationError, "compilation_error", true),
        (EvolutionIssueKind::ClippyWarning, "clippy_warning", false),
        (EvolutionIssueKind::MissingTest, "missing_test", false),
        (EvolutionIssueKind::DeadCode, "dead_code", false),
        (EvolutionIssueKind::RuntimeError, "runtime_error", true),
    ] {
        assert_eq!(kind.as_str(), name);
        assert_eq!(kind.is_reactive(), reactive);
    }
    let failure = EvolutionTrigger::TestFailure {
        test_name: "t".to_owned(),
        error: "e".to_owned(),
    };
    assert_eq!(failure.kind_str(), "test_failure");
    assert!(IssueSeverity::Low < IssueSeverity::Critical);
}

#[test]
fn defaults_and_shell_output() {
    let config = EvolutionConfig::default();
    assert_eq!(config.max_retries_per_issue, 3);
    assert_eq!(config.max_mutations_per_session, 10);
    assert_eq!(config.cooldown_seconds, 300);
    assert!(config.auto_commit && !config.dry_run);
    assert_eq!(config.verify_commands.len(), 2);
    assert!(ShellOutput::new(Some(0), String::new(), String::new()).success());
    let ended = ShellOutput::new(None, String::new(), String::new());
    assert_eq!(ended.exit_code, -1);
    assert!(!ended.success());
}

#[test]
fn ids_count_up() {
    assert_eq!(generate_id("ev", 1700000000, 7), "ev-1700000000-0007");
    assert_eq!(generate_id("ev", -1, 12345), "ev--1-12345");
    assert_eq!(generate_id("ev", 0, 0), "ev-0-0000");
}

fn options(force_interval_secs: u64, json: bool) -> EvolveWatchOptions {
    EvolveWatchOptions {
        workspace_root: ".".to_owned(),
        db_path: "evolution.db".to_owned(),
        scan_interval_secs: 60,
        force_interval_secs,
        mode: EvolutionMode::Improve,
        config: EvolutionConfig::default(),
        json,
    }
}

#[test]
fn the_watch_runs_sessions_until_it_is_interrupted() {
    let watch = options(3600, true);
    assert_eq!(
        start_line(&watch),
        "[evolve-watch] started (scan=60s, force=3600s, mode=improve)"
    );
    assert!(force_enabled(&watch));
    assert_eq!(force_period_secs(&watch), 3600);
    assert!(!force_enabled(&options(0, false)));
    assert_eq!(force_period_secs(&options(0, false)), u64::MAX / 2);

    let step = on_watch_event(&watch, WatchEvent::ScanTick);
    assert_eq!(
        step.lines,
        vec!["[evolve-watch] scan tick: running improve scan..."]
    );
    match step.next {
        WatchNext::Run {
            mode,
            trigger: EvolutionTrigger::Scheduled { schedule_id },
        } => {
            assert_eq!(mode, EvolutionMode::Improve);
            assert_eq!(schedule_id, "watch-scan");
        }
        _ => panic!("a session should run"),
    }
    let step = on_watch_event(&watch, WatchEvent::ForceTick);
    assert_eq!(
        step.lines,
        vec!["[evolve-watch] force tick: running full evolution cycle..."]
    );
    assert!(matches!(
        step.next,
        WatchNext::Run {
            mode: EvolutionMode::Full,
            ..
        }
    ));
    let done = WatchEvent::ScanDone(Ok(summary()), Some("{}".to_owned()));
    let step = on_watch_event(&watch, done);
    assert_eq!(
        step.lines,
        vec![
            "[evolve-watch] session ev-test-001 complete: 1 detected, 2 applied, 3 rolled back, 4 skipped",
            "{}"
        ]
    );
    assert!(matches!(step.next, WatchNext::Wait));
    let quiet = WatchEvent::ScanDone(Ok(summary()), Some("{}".to_owned()));
    assert_eq!(on_watch_event(&options(0, false), quiet).lines.len(), 1);
    let failed = WatchEvent::ScanDone(Err("no disk".to_owned()), None);
    let step = on_watch_event(&watch, failed);
    assert_eq!(step.lines, vec!["[evolve-watch] scan error: no disk"]);
    assert!(matches!(step.next, WatchNext::Wait));
    let step = on_watch_event(&watch, WatchEvent::ForceDone(Ok(summary())));
    assert!(step.lines[0].starts_with("[evolve-watch] force session ev-test-001 complete"));
    let step = on_watch_event(&watch, WatchEvent::ForceDone(Err("x".to_owned())));
    assert_eq!(step.lines, vec!["[evolve-watch] force error: x"]);
    let step = on_watch_event(&watch, WatchEvent::Interrupted);
    assert_eq!(step.lines.len(), 2);
    assert_eq!(step.lines[1], "[evolve-watch] stopped");
    assert!(matches!(step.next, WatchNext::Stop));
}

#[test]
fn count_failed_attempts_counts_rollbacks() {
    let mut decisions = Vec::new();
    for i in 1..=3 {
        let decision = if i <= 2 {
            EvolutionDecision::Rollback {
                reason: "failed".to_owned(),
                breadcrumb_id: format!("bc-{i}"),
            }
        } else {
            EvolutionDecision::Keep {
                commit_sha: "abc".to_owned(),
            }
        };
        decisions.push(decision);
    }
    let count = failed_attempts(&decisions);
    assert_eq!(count, 2);
}

#[test]
fn reasons_of_other_decisions_do_not_count() {
    let decisions = vec![
        EvolutionDecision::Skip {
            reason: "no rollback needed".to_owned(),
        },
        rollback(),
    ];
    assert_eq!(failed_attempts(&decisions), 1);
    assert_eq!(failed_attempts(&Vec::new()), 0);
}
