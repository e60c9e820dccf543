//! The watch: sessions that run at intervals.
use crate::evolution::{
    EvolutionConfig, EvolutionMode, EvolutionSessionSummary, EvolutionTrigger, SummaryView,
    TriggerView,
};
use crate::text;
use crate::text::{cat, cat3, cat5, decimal_text};
use vstd::prelude::*;

verus! {

/// How to watch.
pub struct EvolveWatchOptions {
    pub workspace_root: String,
    pub db_path: String,
    pub scan_interval_secs: u64,
    pub force_interval_secs: u64,
    pub mode: EvolutionMode,
    pub config: EvolutionConfig,
    pub json: bool,
}

/// What the watch is told. The JSON of a summary is there where it could be written.
pub enum WatchEvent {
    ScanTick,
    ForceTick,
    ScanDone(Result<EvolutionSessionSummary, String>, Option<String>),
    ForceDone(Result<EvolutionSessionSummary, String>),
    Interrupted,
}

/// What the watch does next.
pub enum WatchNext {
    /// Wait for the next event.
    Wait,
    /// Run a session.
    Run { mode: EvolutionMode, trigger: EvolutionTrigger },
    /// End.
    Stop,
}

/// What a `WatchNext` is.
#[verifier::ext_equal]
pub enum NextView {
    Wait,
    Run { mode: EvolutionMode, trigger: TriggerView },
    Stop,
}

impl WatchNext {
    pub open spec fn view(&self) -> NextView {
        match self {
            WatchNext::Wait => NextView::Wait,
            WatchNext::Run { mode, trigger } => NextView::Run { mode: *mode, trigger: trigger@ },
            WatchNext::Stop => NextView::Stop,
        }
    }
}

/// What the watch says and does.
pub struct WatchStep {
    pub lines: Vec<String>,
    pub next: WatchNext,
}

/// What is said of a session that ended.
pub open spec fn session_text(head: Seq<char>, s: SummaryView) -> Seq<char> {
    head + s.session_id + " complete: "@ + text::decimal(s.issues_detected as nat)
        + " detected, "@ + text::decimal(s.patches_applied as nat) + " applied, "@
        + text::decimal(s.patches_rolled_back as nat) + " rolled back, "@ + text::decimal(
        s.patches_skipped as nat,
    ) + " skipped"@
}

fn session_line(head: &str, s: &EvolutionSessionSummary) -> (r: String)
    ensures
        r@ == session_text(head@, s@),
{
    let detected = decimal_text(s.issues_detected as u64);
    let applied = decimal_text(s.patches_applied as u64);
    let rolled_back = decimal_text(s.patches_rolled_back as u64);
    let skipped = decimal_text(s.patches_skipped as u64);
    let a = cat5(head, s.session_id.as_str(), " complete: ", detected.as_str(), " detected, ");
    let b = cat5(
        a.as_str(),
        applied.as_str(),
        " applied, ",
        rolled_back.as_str(),
        " rolled back, ",
    );
    cat3(b.as_str(), skipped.as_str(), " skipped")
}

/// What the watch says when it begins.
pub fn start_line(options: &EvolveWatchOptions) -> (r: String)
    ensures
        r@ == "[evolve-watch] started (scan="@ + text::decimal(options.scan_interval_secs as nat)
            + "s, force="@ + text::decimal(options.force_interval_secs as nat) + "s, mode="@
            + options.mode.name() + ")"@,
{
    let scan = decimal_text(options.scan_interval_secs);
    let force = decimal_text(options.force_interval_secs);
    let start = cat5(
        "[evolve-watch] started (scan=",
        scan.as_str(),
        "s, force=",
        force.as_str(),
        "s, mode=",
    );
    cat3(start.as_str(), options.mode.as_str(), ")")
}

/// Whether full sessions run at intervals of their own.
pub fn force_enabled(options: &EvolveWatchOptions) -> (r: bool)
    ensures
        r == (options.force_interval_secs > 0),
{
    options.force_interval_secs > 0
}

/// The interval of the full sessions in seconds. Where there are none it is too long to
/// pass.
pub fn force_period_secs(options: &EvolveWatchOptions) -> (r: u64)
    ensures
        r == (if options.force_interval_secs > 0 {
            options.force_interval_secs
        } else {
            (u64::MAX / 2) as u64
        }),
{
    if options.force_interval_secs > 0 {
        options.force_interval_secs
    } else {
        u64::MAX / 2
    }
}

/// What the watch says to an event.
pub open spec fn said(mode: EvolutionMode, json: bool, event: WatchEvent) -> Seq<Seq<char>> {
    match event {
        WatchEvent::ScanTick => seq![
            "[evolve-watch] scan tick: running "@ + mode.name() + " scan..."@,
        ],
        WatchEvent::ForceTick => seq![
            "[evolve-watch] force tick: running full evolution cycle..."@,
        ],
        WatchEvent::ScanDone(Ok(s), rendered) => {
            let line = session_text("[evolve-watch] session "@, s@);
            match rendered {
                Some(j) => if json {
                    seq![line, j@]
                } else {
                    seq![line]
                },
                None => seq![line],
            }
        },
        WatchEvent::ScanDone(Err(e), _) => seq!["[evolve-watch] scan error: "@ + e@],
        WatchEvent::ForceDone(Ok(s)) => seq![
            session_text("[evolve-watch] force session "@, s@),
        ],
        WatchEvent::ForceDone(Err(e)) => seq!["[evolve-watch] force error: "@ + e@],
        WatchEvent::Interrupted => seq![
            "\n[evolve-watch] received Ctrl-C, shutting down gracefully..."@,
            "[evolve-watch] stopped"@,
        ],
    }
}

/// What the watch does on an event: a tick runs a session, Ctrl-C ends the watch, and
/// nothing else does, not even a session that failed.
pub open spec fn done_next(mode: EvolutionMode, event: WatchEvent) -> NextView {
    match event {
        WatchEvent::ScanTick => NextView::Run {
            mode,
            trigger: TriggerView::Scheduled { schedule_id: "watch-scan"@ },
        },
        WatchEvent::ForceTick => NextView::Run {
            mode: EvolutionMode::Full,
            trigger: TriggerView::Scheduled { schedule_id: "watch-force"@ },
        },
        WatchEvent::Interrupted => NextView::Stop,
        _ => NextView::Wait,
    }
}

fn one_line(s: String) -> (r: Vec<String>)
    ensures
        text::texts(r@) == seq![s@],
{
    let mut v: Vec<String> = Vec::new();
    v.push(s);
    assert(text::texts(v@) =~= seq![s@]);
    v
}

/// What the watch says and does on an event.
pub fn on_watch_event(options: &EvolveWatchOptions, event: WatchEvent) -> (r: WatchStep)
    ensures
        text::texts(r.lines@) == said(options.mode, options.json, event),
        r.next@ == done_next(options.mode, event),
{
    match event {
        WatchEvent::ScanTick => {
            let line = cat3(
                "[evolve-watch] scan tick: running ",
                options.mode.as_str(),
                " scan...",
            );
            WatchStep {
                lines: one_line(line),
                next: WatchNext::Run {
                    mode: options.mode,
                    trigger: EvolutionTrigger::Scheduled { schedule_id: "watch-scan".to_owned() },
                },
            }
        },
        WatchEvent::ForceTick => WatchStep {
            lines: one_line(
                "[evolve-watch] force tick: running full evolution cycle...".to_owned(),
            ),
            next: WatchNext::Run {
                mode: EvolutionMode::Full,
                trigger: EvolutionTrigger::Scheduled { schedule_id: "watch-force".to_owned() },
            },
        },
        WatchEvent::ScanDone(Ok(s), rendered) => {
            let line = session_line("[evolve-watch] session ", &s);
            let ghost first = line@;
            let mut lines = one_line(line);
            if options.json {
                if let Some(j) = rendered {
                    proof {
                        text::lemma_texts_push(lines@, j);
                        assert(seq![first].push(j@) =~= seq![first, j@]);
                    }
                    lines.push(j);
                }
            }
            WatchStep { lines, next: WatchNext::Wait }
        },
        WatchEvent::ScanDone(Err(e), _) => WatchStep {
            lines: one_line(cat("[evolve-watch] scan error: ", e.as_str())),
            next: WatchNext::Wait,
        },
        WatchEvent::ForceDone(Ok(s)) => WatchStep {
            lines: one_line(session_line("[evolve-watch] force session ", &s)),
            next: WatchNext::Wait,
        },
        WatchEvent::ForceDone(Err(e)) => WatchStep {
            lines: one_line(cat("[evolve-watch] force error: ", e.as_str())),
            next: WatchNext::Wait,
        },
        WatchEvent::Interrupted => {
            let mut lines: Vec<String> = Vec::new();
            lines.push(
                "\n[evolve-watch] received Ctrl-C, shutting down gracefully...".to_owned(),
            );
            lines.push("[evolve-watch] stopped".to_owned());
            assert(text::texts(lines@) =~= seq![
                "\n[evolve-watch] received Ctrl-C, shutting down gracefully..."@,
                "[evolve-watch] stopped"@,
            ]);
            WatchStep { lines, next: WatchNext::Stop }
        },
    }
}

/// Only Ctrl-C ends the watch, and a tick always runs a session.
pub proof fn law_only_interruption_ends_the_watch(mode: EvolutionMode, event: WatchEvent)
    ensures
        done_next(mode, event) is Stop <==> event is Interrupted,
        done_next(mode, event) is Run <==> event is ScanTick || event is ForceTick,
{
}

} // verus!
