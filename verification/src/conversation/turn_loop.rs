//! The loop that runs a turn: rounds of the provider and its tools, under a
//! supervisor that ends them where they make no progress.
use crate::conversation::turn_shared;
use crate::conversation::turn_shared::{
    decide_provider_turn_request_action, tool_loop_circuit_breaker_reply, BaseDecisionView,
    PayloadView, ProviderErrorMode, ProviderTurnRequestAction, ReplyPersistenceMode,
    ToolDrivenFollowupPayload, ToolDrivenReplyBaseDecision, ToolDrivenReplyPhase, TurnRoundBudget,
    TurnRoundBudgetDecision,
};
use crate::conversation::{ProviderTurn, ToolIntent, ToolIntentView, TurnResult};
use crate::json;
use crate::json::{no_entries, object, push_entry, push_value, render_json, text_value, Json, JsonView};
use crate::text;
use crate::text::{
    cat, cat3, cat4, cat5, chars_of, decimal_text, hex_text, is_text_le, joined_texts, same,
    string_of, trimmed, trimmed_str,
};
use std::collections::VecDeque;
use vstd::prelude::*;

verus! {

// The limits of a turn.

/// The limits of a turn as they are configured.
pub struct TurnLoopConfig {
    pub max_rounds: usize,
    pub max_tool_steps_per_round: usize,
    pub max_repeated_tool_call_rounds: usize,
    pub max_ping_pong_cycles: usize,
    pub max_same_tool_failure_rounds: usize,
    pub max_followup_tool_payload_chars: usize,
    pub max_followup_tool_payload_chars_total: usize,
    pub max_total_tool_calls: usize,
    pub max_consecutive_same_tool: usize,
}

/// The limits of a turn as they apply.
#[derive(Clone, Copy)]
pub struct TurnLoopPolicy {
    pub max_rounds: usize,
    pub max_tool_steps_per_round: usize,
    pub max_repeated_tool_call_rounds: usize,
    pub max_ping_pong_cycles: usize,
    pub max_same_tool_failure_rounds: usize,
    pub max_followup_tool_payload_chars: usize,
    pub max_followup_tool_payload_chars_total: usize,
    pub max_total_tool_calls: usize,
    pub max_consecutive_same_tool: usize,
}

/// The greater of two numbers.
pub open spec fn at_least(n: usize, least: usize) -> usize {
    if n < least {
        least
    } else {
        n
    }
}

fn raise_to(n: usize, least: usize) -> (r: usize)
    ensures
        r == at_least(n, least),
{
    if n < least {
        least
    } else {
        n
    }
}

/// The limits of a turn as they apply, from those that are configured.
pub open spec fn policy_of(config: TurnLoopConfig) -> TurnLoopPolicy {
    TurnLoopPolicy {
        max_rounds: at_least(config.max_rounds, 1),
        max_tool_steps_per_round: at_least(config.max_tool_steps_per_round, 1),
        max_repeated_tool_call_rounds: at_least(config.max_repeated_tool_call_rounds, 1),
        max_ping_pong_cycles: at_least(config.max_ping_pong_cycles, 1),
        max_same_tool_failure_rounds: at_least(config.max_same_tool_failure_rounds, 1),
        max_followup_tool_payload_chars: at_least(config.max_followup_tool_payload_chars, 256),
        max_followup_tool_payload_chars_total: at_least(
            config.max_followup_tool_payload_chars_total,
            1,
        ),
        max_total_tool_calls: at_least(config.max_total_tool_calls, 1),
        max_consecutive_same_tool: at_least(config.max_consecutive_same_tool, 1),
    }
}

impl TurnLoopPolicy {
    /// Whether every limit lets the loop do at least one thing.
    pub open spec fn wf(&self) -> bool {
        &&& self.max_rounds >= 1
        &&& self.max_tool_steps_per_round >= 1
        &&& self.max_repeated_tool_call_rounds >= 1
        &&& self.max_ping_pong_cycles >= 1
        &&& self.max_same_tool_failure_rounds >= 1
        &&& self.max_followup_tool_payload_chars >= 256
        &&& self.max_followup_tool_payload_chars_total >= 1
        &&& self.max_total_tool_calls >= 1
        &&& self.max_consecutive_same_tool >= 1
    }

    /// The limits as they apply: the configured ones, each at least its least.
    pub fn from_config(config: &TurnLoopConfig) -> (r: Self)
        ensures
            r.wf(),
            r == policy_of(*config),
            r.max_rounds == at_least(config.max_rounds, 1),
            r.max_tool_steps_per_round == at_least(config.max_tool_steps_per_round, 1),
            r.max_repeated_tool_call_rounds == at_least(config.max_repeated_tool_call_rounds, 1),
            r.max_ping_pong_cycles == at_least(config.max_ping_pong_cycles, 1),
            r.max_same_tool_failure_rounds == at_least(config.max_same_tool_failure_rounds, 1),
            r.max_followup_tool_payload_chars == at_least(
                config.max_followup_tool_payload_chars,
                256,
            ),
            r.max_followup_tool_payload_chars_total == at_least(
                config.max_followup_tool_payload_chars_total,
                1,
            ),
            r.max_total_tool_calls == at_least(config.max_total_tool_calls, 1),
            r.max_consecutive_same_tool == at_least(config.max_consecutive_same_tool, 1),
    {
        TurnLoopPolicy {
            max_rounds: raise_to(config.max_rounds, 1),
            max_tool_steps_per_round: raise_to(config.max_tool_steps_per_round, 1),
            max_repeated_tool_call_rounds: raise_to(config.max_repeated_tool_call_rounds, 1),
            max_ping_pong_cycles: raise_to(config.max_ping_pong_cycles, 1),
            max_same_tool_failure_rounds: raise_to(config.max_same_tool_failure_rounds, 1),
            max_followup_tool_payload_chars: raise_to(config.max_followup_tool_payload_chars, 256),
            max_followup_tool_payload_chars_total: raise_to(
                config.max_followup_tool_payload_chars_total,
                1,
            ),
            max_total_tool_calls: raise_to(config.max_total_tool_calls, 1),
            max_consecutive_same_tool: raise_to(config.max_consecutive_same_tool, 1),
        }
    }
}

// The supervisor.

/// One round as the supervisor remembers it.
pub struct ToolLoopObservation {
    pub pattern: String,
    pub tool_name_signature: String,
    pub failed: bool,
}

/// What a `ToolLoopObservation` is.
#[verifier::ext_equal]
pub struct ObservationView {
    pub pattern: Seq<char>,
    pub name: Seq<char>,
    pub failed: bool,
}

impl ToolLoopObservation {
    pub open spec fn view(&self) -> ObservationView {
        ObservationView {
            pattern: self.pattern@,
            name: self.tool_name_signature@,
            failed: self.failed,
        }
    }
}

/// The views of a list of rounds.
pub open spec fn observations(v: Seq<ToolLoopObservation>) -> Seq<ObservationView> {
    Seq::new(v.len(), |i: int| v[i]@)
}

/// Watches the rounds of a turn for loops.
pub struct ToolLoopSupervisor {
    last_pattern: Option<String>,
    last_pattern_streak: usize,
    warned_reason_key: Option<String>,
    recent_rounds: VecDeque<ToolLoopObservation>,
    consecutive_same_tool: usize,
    last_tool_name: Option<String>,
}

/// What a `ToolLoopSupervisor` remembers.
#[verifier::ext_equal]
pub struct SupervisorView {
    pub last_pattern: Option<Seq<char>>,
    pub streak: nat,
    pub warned: Option<Seq<char>>,
    pub recent: Seq<ObservationView>,
    pub consecutive: nat,
    pub last_tool: Option<Seq<char>>,
}

/// What the supervisor says to a round.
pub enum ToolLoopSupervisorVerdict {
    Continue,
    InjectWarning { reason: String },
    HardStop { reason: String },
}

/// What a `ToolLoopSupervisorVerdict` is.
pub enum VerdictView {
    Continue,
    InjectWarning(Seq<char>),
    HardStop(Seq<char>),
}

impl ToolLoopSupervisorVerdict {
    pub open spec fn view(&self) -> VerdictView {
        match self {
            ToolLoopSupervisorVerdict::Continue => VerdictView::Continue,
            ToolLoopSupervisorVerdict::InjectWarning { reason } => VerdictView::InjectWarning(
                reason@,
            ),
            ToolLoopSupervisorVerdict::HardStop { reason } => VerdictView::HardStop(reason@),
        }
    }
}

/// Why a round looks like part of a loop: a key that tells loops apart, and a text.
pub struct LoopDetectionReason {
    pub key: String,
    pub text: String,
}

/// What a `LoopDetectionReason` is.
pub struct ReasonView {
    pub key: Seq<char>,
    pub text: Seq<char>,
}

impl LoopDetectionReason {
    pub open spec fn view(&self) -> ReasonView {
        ReasonView { key: self.key@, text: self.text@ }
    }
}

/// The view of an optional reason.
pub open spec fn opt_reason(r: Option<LoopDetectionReason>) -> Option<ReasonView> {
    match r {
        Some(x) => Some(x@),
        None => None,
    }
}

/// The most rounds that the supervisor remembers.
pub const MAX_RECENT_ROUNDS: usize = 24;

/// The same call with the same outcome, more than `threshold` times in a row.
pub open spec fn no_progress(s: SupervisorView, threshold: nat) -> Option<ReasonView> {
    match s.last_pattern {
        Some(pattern) => if s.streak <= threshold {
            None
        } else {
            Some(
                ReasonView {
                    key: "no_progress:"@ + pattern,
                    text: "repeated_tool_call_no_progress signature_streak="@ + text::decimal(
                        s.streak,
                    ) + " threshold="@ + text::decimal(threshold),
                },
            )
        },
        None => None,
    }
}

/// Whether the last `2 * cycles` rounds show two patterns in turn.
pub open spec fn alternates(recent: Seq<ObservationView>, cycles: nat) -> bool {
    let n = recent.len() as int;
    &&& cycles > 0
    &&& n >= 2 * cycles
    &&& recent[n - 1].pattern != recent[n - 2].pattern
    &&& forall|k: int|
        0 <= k < 2 * cycles ==> (#[trigger] recent[n - 1 - k]).pattern == (if k % 2 == 0 {
            recent[n - 1].pattern
        } else {
            recent[n - 2].pattern
        })
}

/// Two calls in turn, `cycles` times each.
pub open spec fn ping_pong(recent: Seq<ObservationView>, cycles: nat) -> Option<ReasonView> {
    if alternates(recent, cycles) {
        let first = recent[recent.len() - 1].pattern;
        let second = recent[recent.len() - 2].pattern;
        let (left, right) = if text::text_le(first, second) {
            (first, second)
        } else {
            (second, first)
        };
        Some(
            ReasonView {
                key: "ping_pong:"@ + left + "<->"@ + right,
                text: "ping_pong_tool_patterns cycles="@ + text::decimal(cycles) + " threshold="@
                    + text::decimal(cycles),
            },
        )
    } else {
        None
    }
}

/// The number of failed rounds of the tools `name` at the end.
pub open spec fn trailing_failures(recent: Seq<ObservationView>, name: Seq<char>) -> nat
    decreases recent.len(),
{
    if recent.len() > 0 && recent.last().failed && recent.last().name == name {
        1 + trailing_failures(recent.drop_last(), name)
    } else {
        0
    }
}

/// The same tools failing, at least `threshold` times in a row.
pub open spec fn failure_streak(recent: Seq<ObservationView>, threshold: nat) -> Option<ReasonView> {
    if recent.len() == 0 || !recent.last().failed {
        None
    } else {
        let name = recent.last().name;
        let streak = trailing_failures(recent, name);
        if streak < threshold {
            None
        } else {
            Some(
                ReasonView {
                    key: "failure_streak:"@ + name,
                    text: "tool_failure_streak rounds="@ + text::decimal(streak) + " threshold="@
                        + text::decimal(threshold) + " tool="@ + name,
                },
            )
        }
    }
}

/// The same tools, at least `limit` times in a row.
pub open spec fn same_tool_reason(s: SupervisorView, name: Seq<char>, limit: nat) -> Option<
    ReasonView,
> {
    if s.consecutive >= limit {
        Some(
            ReasonView {
                key: "consecutive_same_tool:"@ + name,
                text: "consecutive_same_tool: "@ + name + " called "@ + text::decimal(s.consecutive)
                    + " times in a row (limit="@ + text::decimal(limit) + ")"@,
            },
        )
    } else {
        None
    }
}

/// What a supervisor remembers that has seen nothing.
pub open spec fn unused_supervisor() -> SupervisorView {
    SupervisorView {
        last_pattern: None,
        streak: 0,
        warned: None,
        recent: Seq::empty(),
        consecutive: 0,
        last_tool: None,
    }
}

/// What the supervisor remembers once it has seen a round, before it judges it.
pub open spec fn remembered(
    s: SupervisorView,
    signature: Seq<char>,
    name: Seq<char>,
    fingerprint: Seq<char>,
    failed: bool,
) -> SupervisorView {
    let pattern = signature + "::"@ + fingerprint;
    let grown = s.recent.push(ObservationView { pattern, name, failed });
    SupervisorView {
        last_pattern: Some(pattern),
        streak: if s.last_pattern == Some(pattern) {
            s.streak + 1
        } else {
            1
        },
        warned: s.warned,
        recent: if grown.len() > MAX_RECENT_ROUNDS {
            grown.skip(1)
        } else {
            grown
        },
        consecutive: if s.last_tool == Some(name) {
            s.consecutive + 1
        } else {
            1
        },
        last_tool: Some(name),
    }
}

/// Why the last round that the supervisor remembers looks like part of a loop.
pub open spec fn detection(
    s: SupervisorView,
    policy: TurnLoopPolicy,
    name: Seq<char>,
) -> Option<ReasonView> {
    if same_tool_reason(s, name, policy.max_consecutive_same_tool as nat) is Some {
        same_tool_reason(s, name, policy.max_consecutive_same_tool as nat)
    } else if no_progress(s, policy.max_repeated_tool_call_rounds as nat) is Some {
        no_progress(s, policy.max_repeated_tool_call_rounds as nat)
    } else if ping_pong(s.recent, policy.max_ping_pong_cycles as nat) is Some {
        ping_pong(s.recent, policy.max_ping_pong_cycles as nat)
    } else {
        failure_streak(s.recent, policy.max_same_tool_failure_rounds as nat)
    }
}

/// The verdict on a detection, and the key that the supervisor has warned of then:
/// the first time a warning, the second time in a row a hard stop.
pub open spec fn judged(warned: Option<Seq<char>>, found: Option<ReasonView>) -> (
    VerdictView,
    Option<Seq<char>>,
) {
    match found {
        Some(reason) => if warned == Some(reason.key) {
            (VerdictView::HardStop(reason.text), warned)
        } else {
            (VerdictView::InjectWarning(reason.text), Some(reason.key))
        },
        None => (VerdictView::Continue, None),
    }
}

/// What the supervisor says to a round, and what it remembers then.
pub open spec fn observed(
    s: SupervisorView,
    policy: TurnLoopPolicy,
    signature: Seq<char>,
    name: Seq<char>,
    fingerprint: Seq<char>,
    failed: bool,
) -> (VerdictView, SupervisorView) {
    let seen = remembered(s, signature, name, fingerprint, failed);
    let (verdict, warned) = judged(s.warned, detection(seen, policy, name));
    (verdict, SupervisorView { warned, ..seen })
}

fn same_opt(a: &Option<String>, b: &str) -> (r: bool)
    ensures
        r == (text::opt_text(*a) == Some(b@)),
{
    match a {
        Some(s) => same(s.as_str(), b),
        None => false,
    }
}

impl Default for ToolLoopSupervisor {
    /// A supervisor that has seen nothing.
    fn default() -> (r: ToolLoopSupervisor)
        ensures
            r.wf(),
            r@ == unused_supervisor(),
            r.has_seen(Seq::empty()),
    {
        let r = ToolLoopSupervisor {
            last_pattern: None,
            last_pattern_streak: 0,
            warned_reason_key: None,
            recent_rounds: VecDeque::new(),
            consecutive_same_tool: 0,
            last_tool_name: None,
        };
        assert(observations(r.recent_rounds@) =~= Seq::empty());
        r
    }
}

impl ToolLoopSupervisor {
    pub closed spec fn view(&self) -> SupervisorView {
        SupervisorView {
            last_pattern: text::opt_text(self.last_pattern),
            streak: self.last_pattern_streak as nat,
            warned: text::opt_text(self.warned_reason_key),
            recent: observations(self.recent_rounds@),
            consecutive: self.consecutive_same_tool as nat,
            last_tool: text::opt_text(self.last_tool_name),
        }
    }

    pub open spec fn wf(&self) -> bool {
        self@.recent.len() <= MAX_RECENT_ROUNDS
    }

    /// Whether these are the rounds that the supervisor has seen, in their order.
    pub open spec fn has_seen(&self, rounds: Seq<RoundView>) -> bool {
        self@ == after_rounds(rounds).1
    }

    /// Why the last round looks like the same call with the same outcome again.
    pub fn check_no_progress(&self, threshold: usize) -> (r: Option<LoopDetectionReason>)
        ensures
            opt_reason(r) == no_progress(self@, threshold as nat),
    {
        match &self.last_pattern {
            Some(pattern) => {
                if self.last_pattern_streak <= threshold {
                    return None;
                }
                let streak = decimal_text(self.last_pattern_streak as u64);
                let limit = decimal_text(threshold as u64);
                Some(
                    LoopDetectionReason {
                        key: cat("no_progress:", pattern.as_str()),
                        text: cat4(
                            "repeated_tool_call_no_progress signature_streak=",
                            streak.as_str(),
                            " threshold=",
                            limit.as_str(),
                        ),
                    },
                )
            },
            None => None,
        }
    }

    /// Why the last rounds look like two calls in turn, `cycles` times each.
    pub fn check_ping_pong(&self, cycles: usize) -> (r: Option<LoopDetectionReason>)
        requires
            self.wf(),
        ensures
            opt_reason(r) == ping_pong(self@.recent, cycles as nat),
            r is Some <==> cycles >= 1 && exists|x: Seq<char>, y: Seq<char>|
                x != y && #[trigger] takes_turns(self@.recent, cycles as nat, x, y),
    {
        proof {
            law_ping_pong_is_two_patterns_in_turn(self@.recent, cycles as nat);
        }
        let ghost recent = self@.recent;
        let n: usize = self.recent_rounds.len();
        assert(recent.len() == n);
        if cycles == 0 || cycles > n / 2 {
            return None;
        }
        let rounds: usize = 2 * cycles;
        assert(recent[n - 1] == self.recent_rounds@[n - 1]@);
        assert(recent[n - 2] == self.recent_rounds@[n - 2]@);
        let first = self.recent_rounds[n - 1].pattern.as_str();
        let second = self.recent_rounds[n - 2].pattern.as_str();
        if same(first, second) {
            return None;
        }
        let mut k: usize = 0;
        while k < rounds
            invariant
                k <= rounds == 2 * cycles <= n == self.recent_rounds@.len(),
                n >= 2,
                recent == observations(self.recent_rounds@),
                first@ == recent[n - 1].pattern,
                second@ == recent[n - 2].pattern,
                forall|j: int|
                    0 <= j < k ==> (#[trigger] recent[n - 1 - j]).pattern == (if j % 2 == 0 {
                        first@
                    } else {
                        second@
                    }),
            decreases rounds - k,
        {
            let expected: &str = if k % 2 == 0 {
                first
            } else {
                second
            };
            assert(recent[n - 1 - k] == self.recent_rounds@[n - 1 - k]@);
            if !same(self.recent_rounds[n - 1 - k].pattern.as_str(), expected) {
                assert(!alternates(recent, cycles as nat)) by {
                    assert(recent[n - 1 - k].pattern != expected@);
                }
                proof {
                    law_ping_pong_is_two_patterns_in_turn(recent, cycles as nat);
                }
                return None;
            }
            k += 1;
        }
        let (left, right): (&str, &str) = if is_text_le(first, second) {
            (first, second)
        } else {
            (second, first)
        };
        let number = decimal_text(cycles as u64);
        Some(
            LoopDetectionReason {
                key: cat4("ping_pong:", left, "<->", right),
                text: cat4(
                    "ping_pong_tool_patterns cycles=",
                    number.as_str(),
                    " threshold=",
                    number.as_str(),
                ),
            },
        )
    }

    /// Why the last rounds look like the same tools failing.
    pub fn check_failure_streak(&self, threshold: usize) -> (r: Option<LoopDetectionReason>)
        ensures
            opt_reason(r) == failure_streak(self@.recent, threshold as nat),
    {
        let ghost recent = self@.recent;
        let n: usize = self.recent_rounds.len();
        if n == 0 {
            return None;
        }
        assert(recent.last() == self.recent_rounds@[n - 1]@);
        let last = &self.recent_rounds[n - 1];
        if !last.failed {
            return None;
        }
        let name = last.tool_name_signature.as_str();
        let mut streak: usize = 0;
        assert(recent.take(n as int) =~= recent);
        while streak < n && self.recent_rounds[n - 1 - streak].failed && same(
            self.recent_rounds[n - 1 - streak].tool_name_signature.as_str(),
            name,
        )
            invariant
                streak <= n == self.recent_rounds@.len(),
                recent == observations(self.recent_rounds@),
                trailing_failures(recent, name@) == streak + trailing_failures(
                    recent.take(n - streak),
                    name@,
                ),
            decreases n - streak,
        {
            assert(recent.take(n - streak).last() == self.recent_rounds@[n - 1 - streak]@);
            assert(recent.take(n - streak).drop_last() =~= recent.take(n - streak - 1));
            streak += 1;
        }
        assert(trailing_failures(recent.take(n - streak), name@) == 0) by {
            if streak < n {
                assert(recent.take(n - streak).last() == self.recent_rounds@[n - 1 - streak]@);
            }
        }
        if streak < threshold {
            return None;
        }
        let rounds = decimal_text(streak as u64);
        let limit = decimal_text(threshold as u64);
        let head = cat4(
            "tool_failure_streak rounds=",
            rounds.as_str(),
            " threshold=",
            limit.as_str(),
        );
        Some(
            LoopDetectionReason {
                key: cat("failure_streak:", name),
                text: cat3(head.as_str(), " tool=", name),
            },
        )
    }

    fn check_same_tool(&self, name: &str, limit: usize) -> (r: Option<LoopDetectionReason>)
        ensures
            opt_reason(r) == same_tool_reason(self@, name@, limit as nat),
    {
        if self.consecutive_same_tool < limit {
            return None;
        }
        let count = decimal_text(self.consecutive_same_tool as u64);
        let bound = decimal_text(limit as u64);
        let head = cat5(
            "consecutive_same_tool: ",
            name,
            " called ",
            count.as_str(),
            " times in a row (limit=",
        );
        Some(
            LoopDetectionReason {
                key: cat("consecutive_same_tool:", name),
                text: cat3(head.as_str(), bound.as_str(), ")"),
            },
        )
    }

    fn remember(
        &mut self,
        tool_signature: &str,
        tool_name_signature: &str,
        outcome_fingerprint: &str,
        failed: bool,
    )
        requires
            old(self).wf(),
            old(self)@.streak < usize::MAX,
            old(self)@.consecutive < usize::MAX,
        ensures
            final(self).wf(),
            final(self)@ == remembered(
                old(self)@,
                tool_signature@,
                tool_name_signature@,
                outcome_fingerprint@,
                failed,
            ),
    {
        if same_opt(&self.last_tool_name, tool_name_signature) {
            self.consecutive_same_tool = self.consecutive_same_tool + 1;
        } else {
            self.last_tool_name = Some(tool_name_signature.to_owned());
            self.consecutive_same_tool = 1;
        }
        let pattern = cat3(tool_signature, "::", outcome_fingerprint);
        if same_opt(&self.last_pattern, pattern.as_str()) {
            self.last_pattern_streak = self.last_pattern_streak + 1;
        } else {
            self.last_pattern = Some(pattern.clone());
            self.last_pattern_streak = 1;
        }
        let ghost before = self.recent_rounds@;
        let observation = ToolLoopObservation {
            pattern,
            tool_name_signature: tool_name_signature.to_owned(),
            failed,
        };
        let ghost seen = observation@;
        self.recent_rounds.push_back(observation);
        assert(observations(self.recent_rounds@) =~= observations(before).push(seen));
        if self.recent_rounds.len() > MAX_RECENT_ROUNDS {
            let ghost grown = self.recent_rounds@;
            let _ = self.recent_rounds.pop_front();
            assert(observations(self.recent_rounds@) =~= observations(grown).skip(1));
        }
    }

    /// What the supervisor says to a round.
    pub fn observe_round(
        &mut self,
        policy: &TurnLoopPolicy,
        tool_signature: &str,
        tool_name_signature: &str,
        outcome_fingerprint: &str,
        failed: bool,
    ) -> (r: ToolLoopSupervisorVerdict)
        requires
            old(self).wf(),
            old(self)@.streak < usize::MAX,
            old(self)@.consecutive < usize::MAX,
        ensures
            final(self).wf(),
            (r@, final(self)@) == observed(
                old(self)@,
                *policy,
                tool_signature@,
                tool_name_signature@,
                outcome_fingerprint@,
                failed,
            ),
            forall|rounds: Seq<RoundView>|
                #![trigger old(self).has_seen(rounds)]
                old(self).has_seen(rounds) ==> {
                    let all = rounds.push(
                        RoundView {
                            policy: *policy,
                            signature: tool_signature@,
                            name: tool_name_signature@,
                            fingerprint: outcome_fingerprint@,
                            failed,
                        },
                    );
                    final(self).has_seen(all) && r@ == after_rounds(all).0
                },
    {
        proof {
            assert forall|rounds: Seq<RoundView>, round: RoundView| true implies (
            #[trigger] rounds.push(round)).drop_last() == rounds && rounds.push(round).last()
                == round by {
                assert(rounds.push(round).drop_last() =~= rounds);
            }
        }
        self.remember(tool_signature, tool_name_signature, outcome_fingerprint, failed);
        let found = match self.check_same_tool(
            tool_name_signature,
            policy.max_consecutive_same_tool,
        ) {
            Some(reason) => Some(reason),
            None => match self.check_no_progress(policy.max_repeated_tool_call_rounds) {
                Some(reason) => Some(reason),
                None => match self.check_ping_pong(policy.max_ping_pong_cycles) {
                    Some(reason) => Some(reason),
                    None => self.check_failure_streak(policy.max_same_tool_failure_rounds),
                },
            },
        };
        match found {
            Some(reason) => if same_opt(&self.warned_reason_key, reason.key.as_str()) {
                ToolLoopSupervisorVerdict::HardStop { reason: reason.text }
            } else {
                self.warned_reason_key = Some(reason.key);
                ToolLoopSupervisorVerdict::InjectWarning { reason: reason.text }
            },
            None => {
                self.warned_reason_key = None;
                ToolLoopSupervisorVerdict::Continue
            },
        }
    }
}

/// The same tools in two rounds in a row, both at or over the limit: the first
/// brings a warning unless it was already given, the second ends the loop.
pub proof fn law_same_tool_again_is_stopped(
    s: SupervisorView,
    policy: TurnLoopPolicy,
    name: Seq<char>,
    first: (Seq<char>, Seq<char>, bool),
    second: (Seq<char>, Seq<char>, bool),
)
    requires
        s.last_tool == Some(name) && s.consecutive + 1 >= policy.max_consecutive_same_tool
            || policy.max_consecutive_same_tool <= 1,
    ensures
        ({
            let (verdict, next) = observed(s, policy, first.0, name, first.1, first.2);
            let (again, _) = observed(next, policy, second.0, name, second.1, second.2);
            &&& verdict is InjectWarning || verdict is HardStop
            &&& s.warned != Some("consecutive_same_tool:"@ + name) ==> verdict is InjectWarning
            &&& again is HardStop
        }),
{
}

/// A round of other tools starts the count of the same tools anew.
pub proof fn law_other_tool_resets_count(
    s: SupervisorView,
    policy: TurnLoopPolicy,
    signature: Seq<char>,
    name: Seq<char>,
    fingerprint: Seq<char>,
    failed: bool,
)
    requires
        s.last_tool != Some(name),
    ensures
        observed(s, policy, signature, name, fingerprint, failed).1.consecutive == 1,
{
}

/// A hard stop comes only for a loop that was warned of in the round before, and
/// after every other verdict the supervisor has warned of what it found.
pub proof fn law_warning_precedes_stop(
    s: SupervisorView,
    policy: TurnLoopPolicy,
    signature: Seq<char>,
    name: Seq<char>,
    fingerprint: Seq<char>,
    failed: bool,
)
    ensures
        ({
            let (verdict, next) = observed(s, policy, signature, name, fingerprint, failed);
            let found = detection(
                remembered(s, signature, name, fingerprint, failed),
                policy,
                name,
            );
            &&& verdict is Continue <==> found is None
            &&& verdict is HardStop <==> found is Some && s.warned == Some(found->0.key)
            &&& next.warned == (match found {
                Some(reason) => Some(reason.key),
                None => None,
            })
        }),
{
}

/// The supervisor never remembers more than its most rounds, and its counts grow by
/// at most one a round.
pub proof fn law_supervisor_is_bounded(
    s: SupervisorView,
    policy: TurnLoopPolicy,
    signature: Seq<char>,
    name: Seq<char>,
    fingerprint: Seq<char>,
    failed: bool,
)
    requires
        s.recent.len() <= MAX_RECENT_ROUNDS,
    ensures
        ({
            let next = observed(s, policy, signature, name, fingerprint, failed).1;
            &&& 1 <= next.recent.len() <= MAX_RECENT_ROUNDS
            &&& 1 <= next.streak <= s.streak + 1
            &&& 1 <= next.consecutive <= s.consecutive + 1
        }),
{
}

/// One round as the supervisor gets to see it, and the limits that hold for it.
pub struct RoundView {
    pub policy: TurnLoopPolicy,
    pub signature: Seq<char>,
    pub name: Seq<char>,
    pub fingerprint: Seq<char>,
    pub failed: bool,
}

impl RoundView {
    /// The round as the supervisor remembers it.
    pub open spec fn observation(self) -> ObservationView {
        ObservationView {
            pattern: self.signature + "::"@ + self.fingerprint,
            name: self.name,
            failed: self.failed,
        }
    }
}

/// What a supervisor says to the last of the rounds that it has seen, and what it
/// remembers then. To no round it says nothing that would end them.
pub open spec fn after_rounds(rounds: Seq<RoundView>) -> (VerdictView, SupervisorView)
    decreases rounds.len(),
{
    if rounds.len() == 0 {
        (VerdictView::Continue, unused_supervisor())
    } else {
        let round = rounds.last();
        observed(
            after_rounds(rounds.drop_last()).1,
            round.policy,
            round.signature,
            round.name,
            round.fingerprint,
            round.failed,
        )
    }
}

/// Among all rounds that a supervisor sees, a hard stop comes only right after a warning
/// or another hard stop.
pub proof fn law_stop_follows_warning(rounds: Seq<RoundView>)
    requires
        rounds.len() > 0,
        after_rounds(rounds).0 is HardStop,
    ensures
        rounds.len() > 1,
        !(after_rounds(rounds.drop_last()).0 is Continue),
{
    lemma_warned_unless_continued(rounds.drop_last());
}

proof fn lemma_warned_unless_continued(rounds: Seq<RoundView>)
    ensures
        after_rounds(rounds).1.warned is None <==> after_rounds(rounds).0 is Continue,
{
}

/// From as many rounds of the same tools in a row as the limit says, the supervisor lets
/// none of them pass.
pub proof fn law_rounds_of_same_tools_are_noticed(rounds: Seq<RoundView>, count: nat)
    requires
        1 <= count <= rounds.len(),
        count >= rounds.last().policy.max_consecutive_same_tool,
        forall|i: int|
            rounds.len() - count <= i < rounds.len() ==> (#[trigger] rounds[i]).name
                == rounds.last().name,
    ensures
        !(after_rounds(rounds).0 is Continue),
{
    lemma_same_tools_are_counted(rounds, count);
}

proof fn lemma_same_tools_are_counted(rounds: Seq<RoundView>, count: nat)
    requires
        1 <= count <= rounds.len(),
        forall|i: int|
            rounds.len() - count <= i < rounds.len() ==> (#[trigger] rounds[i]).name
                == rounds.last().name,
    ensures
        after_rounds(rounds).1.consecutive >= count,
        after_rounds(rounds).1.last_tool == Some(rounds.last().name),
    decreases count,
{
    if count > 1 {
        let before = rounds.drop_last();
        assert(before.last() == rounds[rounds.len() - 2]);
        assert forall|i: int| before.len() - (count - 1) <= i < before.len() implies (
        #[trigger] before[i]).name == before.last().name by {
            assert(before[i] == rounds[i]);
        }
        lemma_same_tools_are_counted(before, (count - 1) as nat);
    }
}

/// No count of a supervisor goes over the number of rounds that it has seen.
pub proof fn law_counts_stay_within_rounds(rounds: Seq<RoundView>)
    ensures
        after_rounds(rounds).1.streak <= rounds.len(),
        after_rounds(rounds).1.consecutive <= rounds.len(),
    decreases rounds.len(),
{
    if rounds.len() > 0 {
        law_counts_stay_within_rounds(rounds.drop_last());
    }
}

/// The rounds that a supervisor remembers are the last ones that it has seen, in their
/// order and up to its most rounds; the round just seen is the last of them.
pub proof fn law_last_rounds_are_remembered(rounds: Seq<RoundView>)
    ensures
        ({
            let recent = after_rounds(rounds).1.recent;
            let n = rounds.len();
            &&& recent.len() == (if n < MAX_RECENT_ROUNDS {
                n as int
            } else {
                MAX_RECENT_ROUNDS as int
            })
            &&& forall|i: int|
                0 <= i < recent.len() ==> (#[trigger] recent[i]) == rounds[n - recent.len()
                    + i].observation()
            &&& n > 0 ==> recent.last() == rounds.last().observation()
        }),
    decreases rounds.len(),
{
    if rounds.len() > 0 {
        law_last_rounds_are_remembered(rounds.drop_last());
    }
}

/// Whether the last `2 * cycles` rounds show the patterns `x` and `y` in turn, `x` last.
pub open spec fn takes_turns(
    recent: Seq<ObservationView>,
    cycles: nat,
    x: Seq<char>,
    y: Seq<char>,
) -> bool {
    &&& recent.len() >= 2 * cycles
    &&& forall|k: int|
        0 <= k < 2 * cycles ==> (#[trigger] recent[recent.len() - 1 - k]).pattern == (if k % 2
            == 0 {
            x
        } else {
            y
        })
}

/// Two calls in turn are found exactly where the last rounds show two different patterns
/// in turn, as often as asked for and at least once.
pub proof fn law_ping_pong_is_two_patterns_in_turn(recent: Seq<ObservationView>, cycles: nat)
    ensures
        ping_pong(recent, cycles) is Some <==> cycles >= 1 && exists|x: Seq<char>, y: Seq<char>|
            x != y && #[trigger] takes_turns(recent, cycles, x, y),
{
    let n = recent.len();
    if alternates(recent, cycles) {
        assert(takes_turns(recent, cycles, recent[n - 1].pattern, recent[n - 2].pattern));
    }
    if cycles >= 1 {
        assert forall|x: Seq<char>, y: Seq<char>|
            x != y && #[trigger] takes_turns(recent, cycles, x, y) implies alternates(
            recent,
            cycles,
        ) by {
            assert(recent[n - 1 - 0].pattern == x);
            assert(recent[n - 1 - 1].pattern == y);
        }
    }
}

/// The key under which two calls in turn are warned of is the same whichever of them came
/// last, and however often they took turns.
pub proof fn law_ping_pong_key_ignores_order(
    one: Seq<ObservationView>,
    cycles: nat,
    other: Seq<ObservationView>,
    other_cycles: nat,
    x: Seq<char>,
    y: Seq<char>,
)
    requires
        cycles >= 1,
        other_cycles >= 1,
        x != y,
        takes_turns(one, cycles, x, y),
        takes_turns(other, other_cycles, y, x),
    ensures
        ping_pong(one, cycles) matches Some(a) && ping_pong(other, other_cycles) matches Some(b)
            && a.key == b.key,
{
    law_ping_pong_is_two_patterns_in_turn(one, cycles);
    law_ping_pong_is_two_patterns_in_turn(other, other_cycles);
    assert(one[one.len() - 1 - 0].pattern == x);
    assert(one[one.len() - 1 - 1].pattern == y);
    assert(other[other.len() - 1 - 0].pattern == y);
    assert(other[other.len() - 1 - 1].pattern == x);
    text::lemma_text_le_total(x, y);
}

// The payloads that follow a round.

/// A payload for the next request, cut to about `max` characters.
pub open spec fn truncated_payload(label: Seq<char>, s: Seq<char>, max: int) -> Seq<char> {
    let body = text::trim(s);
    if body.len() <= max {
        body
    } else {
        let keep = if max > 81 {
            max - 80
        } else {
            1
        };
        body.take(keep) + "\n["@ + label + "_truncated] removed_chars="@ + text::decimal(
            (body.len() - keep) as nat,
        )
    }
}

/// A payload for the next request, cut to about `max_chars` characters.
pub fn truncate_followup_tool_payload(label: &str, s: &str, max_chars: usize) -> (r: String)
    ensures
        r@ == truncated_payload(label@, s@, max_chars as int),
{
    let v = chars_of(s);
    let body = trimmed(&v);
    let total: usize = body.len();
    if total <= max_chars {
        let r = string_of(&body, 0, total);
        assert(body@.subrange(0, total as int) =~= body@);
        return r;
    }
    let keep: usize = if max_chars > 81 {
        max_chars - 80
    } else {
        1
    };
    let head = string_of(&body, 0, keep);
    assert(body@.subrange(0, keep as int) =~= body@.take(keep as int));
    let removed = decimal_text((total - keep) as u64);
    cat5(head.as_str(), "\n[", label, "_truncated] removed_chars=", removed.as_str())
}

/// How many characters of tool payloads may still go into the requests of a turn.
pub struct FollowupPayloadBudget {
    pub per_round_max_chars: usize,
    pub remaining_total_chars: usize,
}

/// The characters that one payload may have.
pub open spec fn round_allowance(per_round: int, remaining: int) -> int {
    if per_round < remaining {
        per_round
    } else {
        remaining
    }
}

/// The characters that a payload of `total` characters takes from the budget.
pub open spec fn consumed_chars(total: int, allowed: int) -> int {
    if total <= allowed {
        total
    } else if allowed > 80 {
        allowed - 80
    } else {
        allowed
    }
}

/// A payload as the budget lets it into a request.
pub open spec fn budgeted_payload(
    per_round: int,
    remaining: int,
    label: Seq<char>,
    s: Seq<char>,
) -> Seq<char> {
    if remaining == 0 {
        "["@ + label + "_truncated] removed_chars="@ + text::decimal(text::trim(s).len())
            + " budget_exhausted=true"@
    } else {
        truncated_payload(label, s, round_allowance(per_round, remaining))
    }
}

impl FollowupPayloadBudget {
    pub open spec fn wf(&self) -> bool {
        self.per_round_max_chars >= 1
    }

    pub fn new(per_round_max_chars: usize, total_max_chars: usize) -> (r: Self)
        ensures
            r.wf(),
            r.per_round_max_chars == at_least(per_round_max_chars, 1),
            r.remaining_total_chars == total_max_chars,
    {
        FollowupPayloadBudget {
            per_round_max_chars: raise_to(per_round_max_chars, 1),
            remaining_total_chars: total_max_chars,
        }
    }

    /// A payload as the budget lets it into a request, which it then takes from the
    /// budget.
    pub fn truncate_payload(&mut self, label: &str, s: &str) -> (r: String)
        requires
            old(self).wf(),
        ensures
            final(self).wf(),
            final(self).per_round_max_chars == old(self).per_round_max_chars,
            r@ == budgeted_payload(
                old(self).per_round_max_chars as int,
                old(self).remaining_total_chars as int,
                label@,
                s@,
            ),
            final(self).remaining_total_chars == old(self).remaining_total_chars - (if old(
                self,
            ).remaining_total_chars == 0 {
                0
            } else {
                consumed_chars(
                    text::trim(s@).len() as int,
                    round_allowance(
                        old(self).per_round_max_chars as int,
                        old(self).remaining_total_chars as int,
                    ),
                )
            }),
    {
        let v = chars_of(s);
        let body = trimmed(&v);
        let total: usize = body.len();
        if self.remaining_total_chars == 0 {
            let removed = decimal_text(total as u64);
            return cat5(
                "[",
                label,
                "_truncated] removed_chars=",
                removed.as_str(),
                " budget_exhausted=true",
            );
        }
        let allowed: usize = if self.per_round_max_chars < self.remaining_total_chars {
            self.per_round_max_chars
        } else {
            self.remaining_total_chars
        };
        let bounded = truncate_followup_tool_payload(label, s, allowed);
        let consumed: usize = if total <= allowed {
            total
        } else if allowed > 80 {
            allowed - 80
        } else {
            allowed
        };
        self.remaining_total_chars = self.remaining_total_chars - consumed;
        bounded
    }
}

/// A payload takes something from the budget unless it is empty, never more than
/// is left, and what the request gets of it is no longer than what it takes.
pub proof fn law_budget_pays_for_payloads(
    per_round: int,
    remaining: int,
    label: Seq<char>,
    s: Seq<char>,
)
    requires
        per_round >= 1,
        remaining > 0,
    ensures
        ({
            let body = text::trim(s);
            let allowed = round_allowance(per_round, remaining);
            let taken = consumed_chars(body.len() as int, allowed);
            &&& 0 <= taken <= remaining
            &&& body.len() > 0 ==> taken > 0
            &&& exists|kept: int|
                0 <= kept <= taken && kept <= body.len() && #[trigger] text::starts_with(
                    budgeted_payload(per_round, remaining, label, s),
                    body.take(kept),
                ) && (kept == body.len() || budgeted_payload(per_round, remaining, label, s)
                    == body.take(kept) + ("\n["@ + label + "_truncated] removed_chars="@
                    + text::decimal((body.len() - kept) as nat)))
        }),
{
    let body = text::trim(s);
    let allowed = round_allowance(per_round, remaining);
    let out = budgeted_payload(per_round, remaining, label, s);
    if body.len() <= allowed {
        assert(body.take(body.len() as int) =~= body);
        assert(out.subrange(0, body.len() as int) =~= body);
        assert(text::starts_with(out, body.take(body.len() as int)));
    } else {
        let keep = if allowed > 81 {
            allowed - 80
        } else {
            1
        };
        let tail = "\n["@ + label + "_truncated] removed_chars="@ + text::decimal(
            (body.len() - keep) as nat,
        );
        assert(out =~= body.take(keep) + tail);
        assert(out.subrange(0, keep) =~= body.take(keep));
        assert(text::starts_with(out, body.take(keep)));
    }
}

// What a round did.

/// What `std::hash::BuildHasher::hash_one` of `BuildHasherDefault<DefaultHasher>`
/// makes of a text.
pub uninterp spec fn default_hash(s: Seq<char>) -> u64;

/// `BuildHasher::hash_one` of `BuildHasherDefault<DefaultHasher>`, whose hashers all
/// start alike: the same text always gives the same number.
#[verifier::external_body]
fn hash_text(s: &str) -> (r: u64)
    ensures
        r == default_hash(s@),
{
    std::hash::BuildHasher::hash_one(
        &std::hash::BuildHasherDefault::<std::hash::DefaultHasher>::default(),
        s,
    )
}

/// A label and a number of sixteen hexadecimal digits.
pub open spec fn labelled_digest(label: Seq<char>, digest: u64) -> Seq<char> {
    label + ":"@ + text::hex(digest as nat, 16)
}

/// A label and a number of sixteen hexadecimal digits.
pub fn format_fingerprint(label: &str, digest: u64) -> (r: String)
    ensures
        r@ == labelled_digest(label@, digest),
{
    let digits = hex_text(digest, 16);
    cat3(label, ":", digits.as_str())
}

/// A short text that stands for a long one.
pub fn text_fingerprint(label: &str, s: &str) -> (r: String)
    ensures
        r@ == labelled_digest(label@, default_hash(text::trim(s@))),
{
    let body = trimmed_str(s);
    format_fingerprint(label, hash_text(body.as_str()))
}

/// What came of the tools of a round.
pub struct ToolRoundOutcome {
    pub fingerprint: String,
    pub failed: bool,
}

/// The label and the text from which an outcome's fingerprint is made, and whether
/// the tools failed.
pub open spec fn outcome_source(result: TurnResult) -> Option<(Seq<char>, Seq<char>, bool)> {
    match result {
        TurnResult::FinalText(s) => Some(("tool_final_text"@, s@, false)),
        TurnResult::StreamingText(s) => Some(("tool_final_text"@, s@, false)),
        TurnResult::StreamingDone(s) => Some(("tool_final_text"@, s@, false)),
        TurnResult::NeedsApproval(a) => Some(
            (
                "tool_approval_required"@,
                match a.approval_request_id {
                    Some(id) => id@,
                    None => a.reason@,
                },
                false,
            ),
        ),
        TurnResult::ToolDenied(f) => Some(("tool_denied"@, f.reason@, true)),
        TurnResult::ToolError(f) => Some(("tool_error"@, f.reason@, true)),
        TurnResult::ProviderError(_) => None,
    }
}

/// What came of the tools of a round.
pub fn tool_round_outcome(turn_result: &TurnResult) -> (r: Option<ToolRoundOutcome>)
    ensures
        (match outcome_source(*turn_result) {
            Some((label, s, failed)) => {
                &&& r is Some
                &&& r->0.fingerprint@ == labelled_digest(label, default_hash(text::trim(s)))
                &&& r->0.failed == failed
            },
            None => r is None,
        }),
{
    match turn_result {
        TurnResult::FinalText(s) | TurnResult::StreamingText(s) | TurnResult::StreamingDone(s) => {
            Some(
                ToolRoundOutcome {
                    fingerprint: text_fingerprint("tool_final_text", s.as_str()),
                    failed: false,
                },
            )
        },
        TurnResult::NeedsApproval(a) => {
            let body: &str = match &a.approval_request_id {
                Some(id) => id.as_str(),
                None => a.reason.as_str(),
            };
            Some(
                ToolRoundOutcome {
                    fingerprint: text_fingerprint("tool_approval_required", body),
                    failed: false,
                },
            )
        },
        TurnResult::ToolDenied(f) => Some(
            ToolRoundOutcome {
                fingerprint: text_fingerprint("tool_denied", f.as_str()),
                failed: true,
            },
        ),
        TurnResult::ToolError(f) => Some(
            ToolRoundOutcome {
                fingerprint: text_fingerprint("tool_error", f.as_str()),
                failed: true,
            },
        ),
        TurnResult::ProviderError(_) => None,
    }
}

/// What stands for each of the tool calls of a round: its name and its arguments.
pub open spec fn call_signatures(intents: Seq<ToolIntentView>) -> Seq<Seq<char>> {
    Seq::new(
        intents.len(),
        |i: int|
            text::trim(intents[i].tool_name) + ":"@ + json::rendered_json(intents[i].args_json),
    )
}

/// The names of the tools of a round.
pub open spec fn call_names(intents: Seq<ToolIntentView>) -> Seq<Seq<char>> {
    Seq::new(intents.len(), |i: int| text::trim(intents[i].tool_name))
}

/// What stands for the tool calls of a round: their names and arguments.
pub fn tool_intent_signature(intents: &Vec<ToolIntent>) -> (r: String)
    ensures
        r@ == text::join(call_signatures(super::intent_views(intents@)), "||"@),
{
    let ghost all = call_signatures(super::intent_views(intents@));
    let mut calls: Vec<String> = Vec::new();
    let mut i: usize = 0;
    assert(text::texts(calls@) =~= all.take(0));
    while i < intents.len()
        invariant
            i <= intents@.len(),
            all == call_signatures(super::intent_views(intents@)),
            text::texts(calls@) == all.take(i as int),
        decreases intents@.len() - i,
    {
        let name = trimmed_str(intents[i].tool_name.as_str());
        let args = render_json(&intents[i].args_json);
        let call = cat3(name.as_str(), ":", args.as_str());
        assert(call@ == all[i as int]);
        proof {
            text::lemma_texts_push(calls@, call);
            assert(all.take(i + 1) =~= all.take(i as int).push(all[i as int]));
        }
        calls.push(call);
        i += 1;
    }
    assert(all.take(i as int) =~= all);
    joined_texts(&calls, "||")
}

/// What stands for the tools of a round: their names.
pub fn tool_name_signature(intents: &Vec<ToolIntent>) -> (r: String)
    ensures
        r@ == text::join(call_names(super::intent_views(intents@)), "||"@),
{
    let ghost all = call_names(super::intent_views(intents@));
    let mut names: Vec<String> = Vec::new();
    let mut i: usize = 0;
    assert(text::texts(names@) =~= all.take(0));
    while i < intents.len()
        invariant
            i <= intents@.len(),
            all == call_names(super::intent_views(intents@)),
            text::texts(names@) == all.take(i as int),
        decreases intents@.len() - i,
    {
        let name = trimmed_str(intents[i].tool_name.as_str());
        assert(name@ == all[i as int]);
        proof {
            text::lemma_texts_push(names@, name);
            assert(all.take(i + 1) =~= all.take(i as int).push(all[i as int]));
        }
        names.push(name);
        i += 1;
    }
    assert(all.take(i as int) =~= all);
    joined_texts(&names, "||")
}

// The decision on a round.

/// What is known of a round once its tools have run.
pub struct RoundKernelEvaluation {
    pub assistant_preface: String,
    pub had_tool_intents: bool,
    pub turn_result: TurnResult,
    pub loop_verdict: Option<ToolLoopSupervisorVerdict>,
}

/// What goes into the next request.
pub enum RoundFollowup {
    Tool {
        assistant_preface: String,
        payload: ToolDrivenFollowupPayload,
        loop_warning_reason: Option<String>,
    },
    Guard {
        assistant_preface: String,
        reason: String,
        latest_tool_payload: Option<ToolDrivenFollowupPayload>,
    },
}

/// What a `RoundFollowup` is.
pub enum FollowupView {
    Tool { preface: Seq<char>, payload: PayloadView, warning: Option<Seq<char>> },
    Guard { preface: Seq<char>, reason: Seq<char>, latest: Option<PayloadView> },
}

impl RoundFollowup {
    pub open spec fn view(&self) -> FollowupView {
        match self {
            RoundFollowup::Tool { assistant_preface, payload, loop_warning_reason } =>
                FollowupView::Tool {
                preface: assistant_preface@,
                payload: payload@,
                warning: text::opt_text(*loop_warning_reason),
            },
            RoundFollowup::Guard { assistant_preface, reason, latest_tool_payload } =>
                FollowupView::Guard {
                preface: assistant_preface@,
                reason: reason@,
                latest: match latest_tool_payload {
                    Some(p) => Some(p@),
                    None => None,
                },
            },
        }
    }
}

/// The messages that tell the provider what came of a round.
pub enum FollowupTail {
    /// What the tools gave, with a warning where the rounds look like a loop.
    ToolDriven {
        assistant_preface: String,
        payload: ToolDrivenFollowupPayload,
        loop_warning_reason: Option<String>,
    },
    /// That no more tools are run, and the label and text of what the last ones gave.
    LoopGuard {
        assistant_preface: String,
        reason: String,
        latest_tool_context: Option<(&'static str, String)>,
    },
}

/// What a `FollowupTail` is.
pub enum TailView {
    ToolDriven { preface: Seq<char>, payload: PayloadView, warning: Option<Seq<char>> },
    LoopGuard {
        preface: Seq<char>,
        reason: Seq<char>,
        context: Option<(Seq<char>, Seq<char>)>,
    },
}

impl FollowupTail {
    pub open spec fn view(&self) -> TailView {
        match self {
            FollowupTail::ToolDriven { assistant_preface, payload, loop_warning_reason } =>
                TailView::ToolDriven {
                preface: assistant_preface@,
                payload: payload@,
                warning: text::opt_text(*loop_warning_reason),
            },
            FollowupTail::LoopGuard { assistant_preface, reason, latest_tool_context } =>
                TailView::LoopGuard {
                preface: assistant_preface@,
                reason: reason@,
                context: match latest_tool_context {
                    Some(c) => Some((c.0@, c.1@)),
                    None => None,
                },
            },
        }
    }
}

impl FollowupView {
    /// The messages that tell the provider what came of the round.
    pub open spec fn tail(self) -> TailView {
        match self {
            FollowupView::Tool { preface, payload, warning } => TailView::ToolDriven {
                preface,
                payload,
                warning,
            },
            FollowupView::Guard { preface, reason, latest } => TailView::LoopGuard {
                preface,
                reason,
                context: match latest {
                    Some(PayloadView::ToolResult(s)) => Some(("tool_result"@, s)),
                    Some(PayloadView::ToolFailure(s)) => Some(("tool_failure"@, s)),
                    None => None,
                },
            },
        }
    }
}

impl RoundFollowup {
    /// The messages that tell the provider what came of the round.
    pub fn into_tail(self) -> (r: FollowupTail)
        ensures
            r@ == self@.tail(),
    {
        match self {
            RoundFollowup::Tool { assistant_preface, payload, loop_warning_reason } =>
                FollowupTail::ToolDriven { assistant_preface, payload, loop_warning_reason },
            RoundFollowup::Guard { assistant_preface, reason, latest_tool_payload } => {
                let latest_tool_context = match &latest_tool_payload {
                    Some(payload) => {
                        let (label, body) = payload.message_context();
                        Some((label, body.to_owned()))
                    },
                    None => None,
                };
                FollowupTail::LoopGuard { assistant_preface, reason, latest_tool_context }
            },
        }
    }
}

/// What to do after a round.
pub enum RoundKernelDecision {
    ContinueWithFollowup(RoundFollowup),
    FinalizeDirect { reply: String },
    FinalizeWithCompletionPass { raw_reply: String, followup: RoundFollowup },
}

/// What a `RoundKernelDecision` is.
pub enum DecisionView {
    ContinueWithFollowup(FollowupView),
    FinalizeDirect(Seq<char>),
    FinalizeWithCompletionPass { raw_reply: Seq<char>, followup: FollowupView },
}

impl RoundKernelDecision {
    pub open spec fn view(&self) -> DecisionView {
        match self {
            RoundKernelDecision::ContinueWithFollowup(f) => DecisionView::ContinueWithFollowup(f@),
            RoundKernelDecision::FinalizeDirect { reply } => DecisionView::FinalizeDirect(reply@),
            RoundKernelDecision::FinalizeWithCompletionPass { raw_reply, followup } =>
                DecisionView::FinalizeWithCompletionPass {
                raw_reply: raw_reply@,
                followup: followup@,
            },
        }
    }
}

/// The view of an optional verdict.
pub open spec fn opt_verdict(v: Option<ToolLoopSupervisorVerdict>) -> VerdictView {
    match v {
        Some(x) => x@,
        None => VerdictView::Continue,
    }
}

/// What to do after a round: its reply is final, or goes into a last request where
/// the supervisor stopped the loop or no round is left, or into the next round.
pub open spec fn round_decision(
    has_followup: bool,
    preface: Seq<char>,
    verdict: VerdictView,
    base: BaseDecisionView,
) -> DecisionView {
    match base {
        BaseDecisionView::FinalizeDirect(reply) => DecisionView::FinalizeDirect(reply),
        BaseDecisionView::RequireFollowup(raw_reply, payload) => match verdict {
            VerdictView::HardStop(reason) => DecisionView::FinalizeWithCompletionPass {
                raw_reply,
                followup: FollowupView::Guard { preface, reason, latest: Some(payload) },
            },
            _ => {
                let followup = FollowupView::Tool {
                    preface,
                    payload,
                    warning: match verdict {
                        VerdictView::InjectWarning(reason) => Some(reason),
                        _ => None,
                    },
                };
                if has_followup {
                    DecisionView::ContinueWithFollowup(followup)
                } else {
                    DecisionView::FinalizeWithCompletionPass { raw_reply, followup }
                }
            },
        },
    }
}

impl RoundKernelEvaluation {
    pub fn reply_phase(&self, raw_tool_output_requested: bool) -> (r: ToolDrivenReplyPhase)
        ensures
            r.decision@ == turn_shared::base_decision(
                self.assistant_preface@,
                self.had_tool_intents,
                raw_tool_output_requested,
                self.turn_result,
            ),
    {
        ToolDrivenReplyPhase::new(
            self.assistant_preface.as_str(),
            self.had_tool_intents,
            raw_tool_output_requested,
            &self.turn_result,
        )
    }
}

/// What to do after a round.
pub fn decide_round_kernel_action(
    round_budget: TurnRoundBudget,
    evaluation: RoundKernelEvaluation,
    reply_phase: ToolDrivenReplyPhase,
) -> (r: RoundKernelDecision)
    ensures
        r@ == round_decision(
            round_budget.has_followup(),
            evaluation.assistant_preface@,
            opt_verdict(evaluation.loop_verdict),
            reply_phase.decision@,
        ),
{
    let (raw_reply, tool_payload) = match reply_phase.into_decision() {
        ToolDrivenReplyBaseDecision::FinalizeDirect { reply } => {
            return RoundKernelDecision::FinalizeDirect { reply };
        },
        ToolDrivenReplyBaseDecision::RequireFollowup { raw_reply, payload } => (raw_reply, payload),
    };
    let loop_warning_reason = match evaluation.loop_verdict {
        Some(ToolLoopSupervisorVerdict::HardStop { reason }) => {
            return RoundKernelDecision::FinalizeWithCompletionPass {
                raw_reply,
                followup: RoundFollowup::Guard {
                    assistant_preface: evaluation.assistant_preface,
                    reason,
                    latest_tool_payload: Some(tool_payload),
                },
            };
        },
        Some(ToolLoopSupervisorVerdict::InjectWarning { reason }) => Some(reason),
        _ => None,
    };
    let followup = RoundFollowup::Tool {
        assistant_preface: evaluation.assistant_preface,
        payload: tool_payload,
        loop_warning_reason,
    };
    match round_budget.followup_decision() {
        TurnRoundBudgetDecision::ContinueWithFollowup => RoundKernelDecision::ContinueWithFollowup(
            followup,
        ),
        TurnRoundBudgetDecision::FinalizeWithCompletionPass => {
            RoundKernelDecision::FinalizeWithCompletionPass { raw_reply, followup }
        },
    }
}

/// How a turn ends.
pub enum TurnLoopTerminalAction {
    PersistReply { reply: String, persistence_mode: ReplyPersistenceMode },
    ReturnError { error: String },
}

/// The reply of a turn whose rounds are used up.
pub open spec fn round_limit_reply(last_raw_reply: Seq<char>) -> Seq<char> {
    if last_raw_reply.len() == 0 {
        "agent_loop_round_limit_reached"@
    } else {
        last_raw_reply
    }
}

/// How a turn ends whose rounds are used up.
pub fn build_round_limit_terminal_action(last_raw_reply: &str) -> (r: TurnLoopTerminalAction)
    ensures
        r is PersistReply,
        r->persistence_mode == ReplyPersistenceMode::Success,
        r->reply@ == round_limit_reply(last_raw_reply@),
{
    TurnLoopTerminalAction::PersistReply {
        persistence_mode: ReplyPersistenceMode::Success,
        reply: if last_raw_reply.is_empty() {
            "agent_loop_round_limit_reached".to_owned()
        } else {
            last_raw_reply.to_owned()
        },
    }
}

// The loop.

/// A turn under way.
pub struct TurnLoopSession {
    policy: TurnLoopPolicy,
    messages: Vec<Json>,
    raw_tool_output_requested: bool,
    last_raw_reply: String,
    loop_supervisor: ToolLoopSupervisor,
    followup_payload_budget: FollowupPayloadBudget,
    total_tool_calls: usize,
    round_index: usize,
}

/// What a `TurnLoopSession` is.
#[verifier::ext_equal]
pub struct SessionView {
    pub policy: TurnLoopPolicy,
    pub messages: Seq<JsonView>,
    pub raw_requested: bool,
    pub last_raw_reply: Seq<char>,
    pub supervisor: SupervisorView,
    pub per_round_chars: int,
    pub remaining_chars: int,
    pub total_tool_calls: int,
    pub round: int,
}

impl SessionView {
    /// Whether the session is within its limits: a round is left, the tool calls
    /// are no more than allowed, and the supervisor has seen no more rounds than
    /// there were.
    pub open spec fn wf(&self) -> bool {
        &&& self.policy.wf()
        &&& 0 <= self.round < self.policy.max_rounds
        &&& 0 <= self.total_tool_calls <= self.policy.max_total_tool_calls
        &&& self.supervisor.recent.len() <= MAX_RECENT_ROUNDS
        &&& self.supervisor.streak <= self.round
        &&& self.supervisor.consecutive <= self.round
        &&& self.per_round_chars >= 1
    }
}

/// The number of tool calls with those of a further round, as far as a `usize`
/// holds it.
pub open spec fn calls_with(total: int, more: nat) -> int {
    if total + more > usize::MAX {
        usize::MAX as int
    } else {
        total + more
    }
}

/// Whether the tools of a further round may run: with them the turn has no more tool calls
/// than allowed.
pub open spec fn may_run(s: SessionView, more: nat) -> bool {
    calls_with(s.total_tool_calls, more) <= s.policy.max_total_tool_calls
}

/// The reply where the provider failed and its error is shown.
pub open spec fn provider_error_reply(error: Seq<char>) -> Seq<char> {
    "[provider_error] "@ + error
}

/// The message of a role.
pub open spec fn role_message(role: Seq<char>, content: Seq<char>) -> JsonView {
    JsonView::Object(
        seq![("role"@, JsonView::Text(role)), ("content"@, JsonView::Text(content))],
    )
}

/// What to do with the answer to the request of a round.
pub enum TurnStep {
    /// Run the tools of this turn.
    RunTools { turn: ProviderTurn },
    End { action: TurnLoopTerminalAction },
}

/// What to do once the tools of a round have run.
pub enum RoundStep {
    /// Put this into the messages and request the next round.
    NextRound { followup: RoundFollowup },
    /// Put this into the messages and request a last reply; where that fails, the
    /// raw reply is the reply.
    CompletionPass { raw_reply: String, followup: RoundFollowup },
    End { action: TurnLoopTerminalAction },
}

/// The round's verdict and what the supervisor remembers then: a round without
/// tools, or with an error of the provider, is not shown to it.
pub open spec fn supervised(
    s: SupervisorView,
    policy: TurnLoopPolicy,
    intents: Seq<ToolIntentView>,
    result: TurnResult,
) -> (VerdictView, SupervisorView) {
    match outcome_source(result) {
        Some((label, body, failed)) => if intents.len() > 0 {
            observed(
                s,
                policy,
                text::join(call_signatures(intents), "||"@),
                text::join(call_names(intents), "||"@),
                labelled_digest(label, default_hash(text::trim(body))),
                failed,
            )
        } else {
            (VerdictView::Continue, s)
        },
        None => (VerdictView::Continue, s),
    }
}

/// What the reply of a round rests on.
pub open spec fn session_base(
    s: SessionView,
    preface: Seq<char>,
    intents: Seq<ToolIntentView>,
    result: TurnResult,
) -> BaseDecisionView {
    turn_shared::base_decision(preface, intents.len() > 0, s.raw_requested, result)
}

/// What to do once the tools of a round have run.
pub open spec fn session_decision(
    s: SessionView,
    preface: Seq<char>,
    intents: Seq<ToolIntentView>,
    result: TurnResult,
) -> DecisionView {
    round_decision(
        s.round + 1 < s.policy.max_rounds,
        preface,
        supervised(s.supervisor, s.policy, intents, result).0,
        session_base(s, preface, intents, result),
    )
}

/// The session once the tools of a round have run.
pub open spec fn session_after(
    s: SessionView,
    preface: Seq<char>,
    intents: Seq<ToolIntentView>,
    result: TurnResult,
) -> SessionView {
    SessionView {
        last_raw_reply: match session_base(s, preface, intents, result) {
            BaseDecisionView::RequireFollowup(raw, _) => raw,
            BaseDecisionView::FinalizeDirect(_) => s.last_raw_reply,
        },
        supervisor: supervised(s.supervisor, s.policy, intents, result).1,
        total_tool_calls: calls_with(s.total_tool_calls, intents.len()),
        round: if session_decision(s, preface, intents, result) is ContinueWithFollowup {
            s.round + 1
        } else {
            s.round
        },
        ..s
    }
}

impl TurnLoopSession {
    pub closed spec fn view(&self) -> SessionView {
        SessionView {
            policy: self.policy,
            messages: json::values(self.messages@),
            raw_requested: self.raw_tool_output_requested,
            last_raw_reply: self.last_raw_reply@,
            supervisor: self.loop_supervisor@,
            per_round_chars: self.followup_payload_budget.per_round_max_chars as int,
            remaining_chars: self.followup_payload_budget.remaining_total_chars as int,
            total_tool_calls: self.total_tool_calls as int,
            round: self.round_index as int,
        }
    }

    /// The messages of the next request.
    pub fn messages(&self) -> (r: &Vec<Json>)
        ensures
            json::values(r@) == self@.messages,
    {
        &self.messages
    }

    /// What to do with the answer to the request of a round: end the turn on an
    /// error, or where its tools would be more than allowed; else run its tools.
    pub fn on_turn(&self, result: Result<ProviderTurn, String>, error_mode: ProviderErrorMode) -> (r:
        TurnStep)
        requires
            self@.wf(),
        ensures
            r is RunTools <==> result is Ok && may_run(self@, result->Ok_0.tool_intents@.len()),
            result is Err && error_mode == ProviderErrorMode::InlineMessage ==> {
                &&& r matches TurnStep::End {
                    action: TurnLoopTerminalAction::PersistReply { reply, .. },
                }
                &&& reply@ == provider_error_reply(result->Err_0@)
            },
            (match result {
                Err(error) => match error_mode {
                    ProviderErrorMode::Propagate => r == (TurnStep::End {
                        action: (TurnLoopTerminalAction::ReturnError { error }),
                    }),
                    ProviderErrorMode::InlineMessage => {
                        &&& r matches TurnStep::End {
                            action: TurnLoopTerminalAction::PersistReply { reply, persistence_mode },
                        }
                        &&& reply@ == "[provider_error] "@ + error@
                        &&& persistence_mode == ReplyPersistenceMode::InlineProviderError
                    },
                },
                Ok(turn) => {
                    let total = calls_with(self@.total_tool_calls, turn.tool_intents@.len());
                    match turn_shared::circuit_breaker_reply(
                        total,
                        self@.policy.max_total_tool_calls as int,
                    ) {
                        None => r == (TurnStep::RunTools { turn }),
                        Some(breaker) => {
                            &&& r matches TurnStep::End {
                                action: TurnLoopTerminalAction::PersistReply {
                                    reply,
                                    persistence_mode,
                                },
                            }
                            &&& reply@ == breaker
                            &&& persistence_mode == ReplyPersistenceMode::Success
                        },
                    }
                },
            }),
    {
        let turn = match decide_provider_turn_request_action(result, error_mode) {
            ProviderTurnRequestAction::Continue { turn } => turn,
            ProviderTurnRequestAction::FinalizeInlineProviderError { reply } => {
                return TurnStep::End {
                    action: TurnLoopTerminalAction::PersistReply {
                        reply,
                        persistence_mode: ReplyPersistenceMode::InlineProviderError,
                    },
                };
            },
            ProviderTurnRequestAction::ReturnError { error } => {
                return TurnStep::End { action: TurnLoopTerminalAction::ReturnError { error } };
            },
        };
        let prospective: usize = self.total_tool_calls.saturating_add(turn.tool_intents.len());
        match tool_loop_circuit_breaker_reply(prospective, self.policy.max_total_tool_calls) {
            Some(reply) => TurnStep::End {
                action: TurnLoopTerminalAction::PersistReply {
                    reply,
                    persistence_mode: ReplyPersistenceMode::Success,
                },
            },
            None => TurnStep::RunTools { turn },
        }
    }
}

/// The session at the start of a turn: what was said before, and what the user says
/// now. `raw_tool_output_requested` is whether the user asks for the raw output of
/// tools.
pub fn initialize_turn_loop_session(
    messages: Vec<Json>,
    user_input: &str,
    raw_tool_output_requested: bool,
    policy: &TurnLoopPolicy,
) -> (r: TurnLoopSession)
    requires
        policy.wf(),
    ensures
        r@.wf(),
        r@ == (SessionView {
            policy: *policy,
            messages: json::values(messages@).push(role_message("user"@, user_input@)),
            raw_requested: raw_tool_output_requested,
            last_raw_reply: Seq::empty(),
            supervisor: unused_supervisor(),
            per_round_chars: policy.max_followup_tool_payload_chars as int,
            remaining_chars: policy.max_followup_tool_payload_chars_total as int,
            total_tool_calls: 0,
            round: 0,
        }),
{
    let mut all = messages;
    let mut entry = no_entries();
    push_entry(&mut entry, "role", text_value("user"));
    push_entry(&mut entry, "content", text_value(user_input));
    assert(json::entries(entry@) =~= seq![
        ("role"@, JsonView::Text("user"@)),
        ("content"@, JsonView::Text(user_input@)),
    ]);
    push_value(&mut all, object(entry));
    TurnLoopSession {
        policy: *policy,
        messages: all,
        raw_tool_output_requested,
        last_raw_reply: String::new(),
        loop_supervisor: ToolLoopSupervisor::default(),
        followup_payload_budget: FollowupPayloadBudget::new(
            policy.max_followup_tool_payload_chars,
            policy.max_followup_tool_payload_chars_total,
        ),
        total_tool_calls: 0,
        round_index: 0,
    }
}

impl TurnLoopSession {
    /// The verdict on a round whose tools have run.
    fn supervise(&mut self, turn: &ProviderTurn, turn_result: &TurnResult) -> (r: Option<
        ToolLoopSupervisorVerdict,
    >)
        requires
            old(self)@.wf(),
        ensures
            ({
                let (verdict, supervisor) = supervised(
                    old(self)@.supervisor,
                    old(self)@.policy,
                    turn@.tool_intents,
                    *turn_result,
                );
                &&& opt_verdict(r) == verdict
                &&& final(self)@ == (SessionView { supervisor, ..old(self)@ })
            }),
    {
        if turn.tool_intents.len() == 0 {
            return None;
        }
        match tool_round_outcome(turn_result) {
            Some(outcome) => {
                let signature = tool_intent_signature(&turn.tool_intents);
                let name = tool_name_signature(&turn.tool_intents);
                let policy = self.policy;
                let verdict = self.loop_supervisor.observe_round(
                    &policy,
                    signature.as_str(),
                    name.as_str(),
                    outcome.fingerprint.as_str(),
                    outcome.failed,
                );
                Some(verdict)
            },
            None => None,
        }
    }

    /// What to do once the tools of a round have run.
    pub fn on_tools(&mut self, turn: ProviderTurn, turn_result: TurnResult) -> (r: RoundStep)
        requires
            old(self)@.wf(),
            calls_with(old(self)@.total_tool_calls, turn.tool_intents@.len()) <= old(
                self,
            )@.policy.max_total_tool_calls,
        ensures
            final(self)@ == session_after(
                old(self)@,
                turn@.assistant_text,
                turn@.tool_intents,
                turn_result,
            ),
            (match session_decision(
                old(self)@,
                turn@.assistant_text,
                turn@.tool_intents,
                turn_result,
            ) {
                DecisionView::ContinueWithFollowup(followup) => {
                    &&& r matches RoundStep::NextRound { followup: f }
                    &&& f@ == followup
                    &&& final(self)@.wf()
                },
                DecisionView::FinalizeDirect(direct) => {
                    &&& r matches RoundStep::End {
                        action: TurnLoopTerminalAction::PersistReply { reply, persistence_mode },
                    }
                    &&& reply@ == direct
                    &&& persistence_mode == ReplyPersistenceMode::Success
                },
                DecisionView::FinalizeWithCompletionPass { raw_reply, followup } => {
                    &&& r matches RoundStep::CompletionPass { raw_reply: raw, followup: f }
                    &&& raw@ == raw_reply
                    &&& f@ == followup
                },
            }),
    {
        let verdict = self.supervise(&turn, &turn_result);
        let count: usize = turn.tool_intents.len();
        self.total_tool_calls = self.total_tool_calls.saturating_add(count);
        let evaluation = RoundKernelEvaluation {
            assistant_preface: turn.assistant_text,
            had_tool_intents: count > 0,
            turn_result,
            loop_verdict: verdict,
        };
        let reply_phase = evaluation.reply_phase(self.raw_tool_output_requested);
        if let Some(raw) = reply_phase.raw_reply() {
            self.last_raw_reply = raw.to_owned();
        }
        let budget = TurnRoundBudget::for_round_index(self.round_index, self.policy.max_rounds);
        match decide_round_kernel_action(budget, evaluation, reply_phase) {
            RoundKernelDecision::ContinueWithFollowup(followup) => {
                self.round_index = self.round_index + 1;
                RoundStep::NextRound { followup }
            },
            RoundKernelDecision::FinalizeDirect { reply } => RoundStep::End {
                action: TurnLoopTerminalAction::PersistReply {
                    reply,
                    persistence_mode: ReplyPersistenceMode::Success,
                },
            },
            RoundKernelDecision::FinalizeWithCompletionPass { raw_reply, followup } =>
                RoundStep::CompletionPass { raw_reply, followup },
        }
    }

    /// How the turn ends once its rounds are used up.
    pub fn on_round_limit(&self) -> (r: TurnLoopTerminalAction)
        ensures
            r is PersistReply,
            r->persistence_mode == ReplyPersistenceMode::Success,
            r->reply@ == round_limit_reply(self@.last_raw_reply),
    {
        build_round_limit_terminal_action(self.last_raw_reply.as_str())
    }

    /// A payload, reduced to what a model needs of it, as the turn's budget lets it into a
    /// request.
    pub fn truncate_payload(&mut self, label: &str, s: &str) -> (r: String)
        requires
            old(self)@.per_round_chars >= 1,
        ensures
            r@ == budgeted_payload(
                old(self)@.per_round_chars,
                old(self)@.remaining_chars,
                label@,
                s@,
            ),
            final(self)@ == (SessionView {
                remaining_chars: final(self)@.remaining_chars,
                ..old(self)@
            }),
            final(self)@.remaining_chars == old(self)@.remaining_chars - (if old(
                self,
            )@.remaining_chars == 0 {
                0
            } else {
                consumed_chars(
                    text::trim(s@).len() as int,
                    round_allowance(old(self)@.per_round_chars, old(self)@.remaining_chars),
                )
            }),
    {
        self.followup_payload_budget.truncate_payload(label, s)
    }

    /// Puts messages behind the others.
    pub fn append_messages(&mut self, tail: Vec<Json>)
        ensures
            final(self)@ == (SessionView {
                messages: old(self)@.messages + json::values(tail@),
                ..old(self)@
            }),
    {
        let ghost before = self.messages@;
        let ghost added = tail@;
        let mut more = tail;
        self.messages.append(&mut more);
        assert(json::values(self.messages@) =~= json::values(before) + json::values(added));
    }
}

/// Another round follows only where one is left: the last round that is allowed
/// always ends the turn.
pub proof fn law_last_round_ends_turn(
    s: SessionView,
    preface: Seq<char>,
    intents: Seq<ToolIntentView>,
    result: TurnResult,
)
    requires
        s.round + 1 >= s.policy.max_rounds,
    ensures
        session_decision(s, preface, intents, result) !is ContinueWithFollowup,
{
}

/// A round after which another follows leaves the session within its limits: no
/// more rounds and no more tool calls than allowed.
pub proof fn law_rounds_keep_limits(
    s: SessionView,
    preface: Seq<char>,
    intents: Seq<ToolIntentView>,
    result: TurnResult,
)
    requires
        s.wf(),
        turn_shared::circuit_breaker_reply(
            calls_with(s.total_tool_calls, intents.len()),
            s.policy.max_total_tool_calls as int,
        ) is None,
        session_decision(s, preface, intents, result) is ContinueWithFollowup,
    ensures
        session_after(s, preface, intents, result).wf(),
        session_after(s, preface, intents, result).round == s.round + 1,
        session_after(s, preface, intents, result).policy == s.policy,
{
}

/// A loop that the supervisor stops ends the turn, unless the reply of the round is
/// final anyway.
pub proof fn law_hard_stop_ends_turn(
    s: SessionView,
    preface: Seq<char>,
    intents: Seq<ToolIntentView>,
    result: TurnResult,
)
    requires
        supervised(s.supervisor, s.policy, intents, result).0 is HardStop,
    ensures
        session_decision(s, preface, intents, result) !is ContinueWithFollowup,
{
}

/// Where the user asked for the raw output of tools, every round's reply is final.
pub proof fn law_raw_output_is_final(
    s: SessionView,
    preface: Seq<char>,
    intents: Seq<ToolIntentView>,
    result: TurnResult,
)
    requires
        s.raw_requested,
    ensures
        session_decision(s, preface, intents, result) is FinalizeDirect,
{
}

/// The loop that runs a turn.
pub struct ConversationTurnLoop;

impl ConversationTurnLoop {
    pub fn new() -> (r: Self)
        ensures
            r == ConversationTurnLoop,
    {
        ConversationTurnLoop
    }
}

} // verus!
