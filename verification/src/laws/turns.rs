//! Turns: what the supervisor notices, what a round leads to, and what the next request gets.
use crate::conversation::turn_loop;
use crate::conversation::turn_loop::{
    DecisionView, FollowupView, ObservationView, ReasonView, RoundView, SessionView,
    SupervisorView, TailView, TurnLoopConfig, TurnLoopPolicy, VerdictView, MAX_RECENT_ROUNDS,
};
use crate::conversation::turn_shared;
use crate::conversation::turn_shared::PayloadView;
use crate::conversation::{ApprovalRequirement, ToolIntentView, TurnFailure, TurnResult};
use crate::json;
use crate::text;
use vstd::prelude::*;

verus! {

// What the supervisor sees of a round.

/// A round with tools is shown to the supervisor as failed exactly where its tools were denied
/// or ended in an error, under the names of its tools; a round without tools, or one that the
/// provider failed, is not shown to it.
pub proof fn law_denials_and_errors_are_failures(
    s: SupervisorView,
    policy: TurnLoopPolicy,
    intents: Seq<ToolIntentView>,
    result: TurnResult,
)
    ensures
        intents.len() == 0 || result is ProviderError ==> turn_loop::supervised(
            s,
            policy,
            intents,
            result,
        ) == (VerdictView::Continue, s),
        intents.len() > 0 && !(result is ProviderError) ==> {
            let next = turn_loop::supervised(s, policy, intents, result).1;
            let names = Seq::new(intents.len(), |i: int| text::trim(intents[i].tool_name));
            &&& next.recent.len() > 0
            &&& next.recent.last().failed <==> (result is ToolDenied || result is ToolError)
            &&& next.recent.last().name == text::join(names, "||"@)
            &&& next.last_tool == Some(text::join(names, "||"@))
        },
{
    let names = Seq::new(intents.len(), |i: int| text::trim(intents[i].tool_name));
    assert(turn_loop::call_names(intents) =~= names);
}

/// A round of a turn: the limits, the calls, and what came of them.
pub struct ToolRound {
    pub policy: TurnLoopPolicy,
    pub intents: Seq<ToolIntentView>,
    pub result: TurnResult,
}

/// What the supervisor says to the last of some rounds, and what it remembers then.
pub open spec fn after_tool_rounds(rounds: Seq<ToolRound>) -> (VerdictView, SupervisorView)
    decreases rounds.len(),
{
    if rounds.len() == 0 {
        (VerdictView::Continue, turn_loop::unused_supervisor())
    } else {
        turn_loop::supervised(
            after_tool_rounds(rounds.drop_last()).1,
            rounds.last().policy,
            rounds.last().intents,
            rounds.last().result,
        )
    }
}

/// Whether two lists of calls name the same tools in the same order.
pub open spec fn same_tools(a: Seq<ToolIntentView>, b: Seq<ToolIntentView>) -> bool {
    &&& a.len() == b.len()
    &&& forall|i: int|
        0 <= i < a.len() ==> text::trim((#[trigger] a[i]).tool_name) == text::trim(b[i].tool_name)
}

/// Whether a round had tools that were denied or ended in an error.
pub open spec fn has_failed(round: ToolRound) -> bool {
    round.intents.len() > 0 && (round.result is ToolDenied || round.result is ToolError)
}

/// How many of the rounds that a supervisor remembers last are failures of these tools.
proof fn lemma_failures_are_remembered(rounds: Seq<ToolRound>, n: nat)
    requires
        n <= rounds.len(),
        forall|i: int|
            rounds.len() - n <= i < rounds.len() ==> has_failed(#[trigger] rounds[i]) && same_tools(
                rounds[i].intents,
                rounds.last().intents,
            ),
    ensures
        ({
            let recent = after_tool_rounds(rounds).1.recent;
            let name = text::join(turn_loop::call_names(rounds.last().intents), "||"@);
            let k = if n < MAX_RECENT_ROUNDS {
                n as int
            } else {
                MAX_RECENT_ROUNDS as int
            };
            &&& recent.len() <= MAX_RECENT_ROUNDS
            &&& recent.len() >= k
            &&& forall|i: int|
                recent.len() - k <= i < recent.len() ==> (#[trigger] recent[i]).failed
                    && recent[i].name == name
        }),
    decreases rounds.len(),
{
    if rounds.len() > 0 {
        let before = rounds.drop_last();
        let m: nat = if n > 0 {
            (n - 1) as nat
        } else {
            0
        };
        assert forall|i: int| before.len() - m <= i < before.len() implies has_failed(
            #[trigger] before[i],
        ) && same_tools(before[i].intents, before.last().intents) by {
            assert(before[i] == rounds[i]);
            assert(before.last() == rounds[rounds.len() - 2]);
            assert(has_failed(rounds[rounds.len() - 2]));
        }
        lemma_failures_are_remembered(before, m);
        let last = rounds.last();
        let name = text::join(turn_loop::call_names(last.intents), "||"@);
        if n > 1 {
            assert(before.last() == rounds[rounds.len() - 2]);
            assert(has_failed(rounds[rounds.len() - 2]));
            assert(turn_loop::call_names(before.last().intents) =~= turn_loop::call_names(
                last.intents,
            ));
        }
        if n > 0 {
            assert(has_failed(rounds[rounds.len() - 1]));
        }
        let old = after_tool_rounds(before).1.recent;
        let recent = after_tool_rounds(rounds).1.recent;
        let k = if n < MAX_RECENT_ROUNDS {
            n as int
        } else {
            MAX_RECENT_ROUNDS as int
        };
        let shift = old.len() + 1 - recent.len();
        assert forall|i: int| recent.len() - k <= i < recent.len() implies (
        #[trigger] recent[i]).failed && recent[i].name == name by {
            if i < recent.len() - 1 {
                assert(recent[i] == old[i + shift]);
            }
        }
    }
}

proof fn lemma_trailing(recent: Seq<ObservationView>, name: Seq<char>, k: int)
    requires
        0 <= k <= recent.len(),
        forall|i: int|
            recent.len() - k <= i < recent.len() ==> (#[trigger] recent[i]).failed && recent[i].name
                == name,
    ensures
        turn_loop::trailing_failures(recent, name) >= k,
    decreases k,
{
    if k > 0 {
        assert(recent[recent.len() - 1].failed);
        let init = recent.drop_last();
        assert forall|i: int| init.len() - (k - 1) <= i < init.len() implies (
        #[trigger] init[i]).failed && init[i].name == name by {
            assert(init[i] == recent[i]);
        }
        lemma_trailing(init, name, k - 1);
    }
}

/// Tools that fail in as many rounds in a row as the limit allows are noticed: whatever the
/// calls and the errors are, the supervisor does not let the last of these rounds pass. The
/// limit has to lie within what the supervisor remembers.
pub proof fn law_failing_tools_are_noticed(rounds: Seq<ToolRound>, n: nat)
    requires
        1 <= n <= rounds.len(),
        rounds.last().policy.max_same_tool_failure_rounds <= n,
        rounds.last().policy.max_same_tool_failure_rounds <= 24,
        forall|i: int|
            rounds.len() - n <= i < rounds.len() ==> has_failed(#[trigger] rounds[i]) && same_tools(
                rounds[i].intents,
                rounds.last().intents,
            ),
    ensures
        !(after_tool_rounds(rounds).0 is Continue),
{
    lemma_failures_are_remembered(rounds, n);
    let last = rounds.last();
    assert(has_failed(rounds[rounds.len() - 1]));
    let recent = after_tool_rounds(rounds).1.recent;
    let name = text::join(turn_loop::call_names(last.intents), "||"@);
    let k = if n < MAX_RECENT_ROUNDS {
        n as int
    } else {
        MAX_RECENT_ROUNDS as int
    };
    assert(recent[recent.len() - 1].failed);
    lemma_trailing(recent, name, k);
    assert(turn_loop::failure_streak(
        recent,
        last.policy.max_same_tool_failure_rounds as nat,
    ) is Some);
}

/// The same calls with the same outcome, more often in a row than the limit allows, are
/// noticed.
pub proof fn law_calls_without_progress_are_noticed(rounds: Seq<ToolRound>, n: nat)
    requires
        1 <= n <= rounds.len(),
        rounds.last().policy.max_repeated_tool_call_rounds < n,
        rounds.last().intents.len() > 0,
        !(rounds.last().result is ProviderError),
        forall|i: int|
            rounds.len() - n <= i < rounds.len() ==> (#[trigger] rounds[i]).intents
                == rounds.last().intents && rounds[i].result == rounds.last().result,
    ensures
        !(after_tool_rounds(rounds).0 is Continue),
{
    lemma_streak_grows(rounds, n);
}

proof fn lemma_streak_grows(rounds: Seq<ToolRound>, n: nat)
    requires
        1 <= n <= rounds.len(),
        rounds.last().intents.len() > 0,
        !(rounds.last().result is ProviderError),
        forall|i: int|
            rounds.len() - n <= i < rounds.len() ==> (#[trigger] rounds[i]).intents
                == rounds.last().intents && rounds[i].result == rounds.last().result,
    ensures
        after_tool_rounds(rounds).1.streak >= n,
        after_tool_rounds(rounds).1.last_pattern is Some,
        ({
            let source = turn_loop::outcome_source(rounds.last().result)->0;
            after_tool_rounds(rounds).1.last_pattern == Some(
                text::join(turn_loop::call_signatures(rounds.last().intents), "||"@) + "::"@
                    + turn_loop::labelled_digest(
                    source.0,
                    turn_loop::default_hash(text::trim(source.1)),
                ),
            )
        }),
    decreases n,
{
    if n > 1 {
        let before = rounds.drop_last();
        assert(before.last() == rounds[rounds.len() - 2]);
        assert forall|i: int| before.len() - (n - 1) <= i < before.len() implies (
        #[trigger] before[i]).intents == before.last().intents && before[i].result
            == before.last().result by {
            assert(before[i] == rounds[i]);
        }
        lemma_streak_grows(before, (n - 1) as nat);
    }
}

/// Two patterns of calls that take turns as often as the limit says are noticed.
pub proof fn law_calls_in_turn_are_noticed(rounds: Seq<RoundView>, x: Seq<char>, y: Seq<char>)
    requires
        rounds.len() > 0,
        x != y,
        1 <= rounds.last().policy.max_ping_pong_cycles <= 12,
        2 * rounds.last().policy.max_ping_pong_cycles <= rounds.len(),
        forall|k: int|
            0 <= k < 2 * rounds.last().policy.max_ping_pong_cycles ==> {
                let round = #[trigger] rounds[rounds.len() - 1 - k];
                round.signature + "::"@ + round.fingerprint == (if k % 2 == 0 {
                    x
                } else {
                    y
                })
            },
    ensures
        !(turn_loop::after_rounds(rounds).0 is Continue),
{
    let cycles = rounds.last().policy.max_ping_pong_cycles as nat;
    let recent = turn_loop::after_rounds(rounds).1.recent;
    turn_loop::law_last_rounds_are_remembered(rounds);
    assert forall|k: int| 0 <= k < 2 * cycles implies (#[trigger] recent[recent.len() - 1
        - k]).pattern == (if k % 2 == 0 {
        x
    } else {
        y
    }) by {
        assert(recent[recent.len() - 1 - k] == rounds[rounds.len() - 1 - k].observation());
    }
    assert(turn_loop::takes_turns(recent, cycles, x, y));
    turn_loop::law_ping_pong_is_two_patterns_in_turn(recent, cycles);
}

/// The supervisor raises no alarm without a loop: where it does not let a round pass, the last
/// rounds were of the same tools, or the same call with the same outcome, or two calls in
/// turn, or failures of the same tools, as often as the limit for that says.
pub proof fn law_only_loops_are_noticed(rounds: Seq<RoundView>)
    requires
        rounds.len() > 0,
        !(turn_loop::after_rounds(rounds).0 is Continue),
    ensures
        ({
            let s = turn_loop::after_rounds(rounds).1;
            let policy = rounds.last().policy;
            let n = s.recent.len();
            ||| s.consecutive >= policy.max_consecutive_same_tool
            ||| s.streak > policy.max_repeated_tool_call_rounds
            ||| policy.max_ping_pong_cycles >= 1 && n >= 2 * policy.max_ping_pong_cycles
                && s.recent[n - 1].pattern != s.recent[n - 2].pattern
            ||| s.recent[n - 1].failed
        }),
{
    turn_loop::law_last_rounds_are_remembered(rounds);
}

/// The counts of the supervisor are of the last rounds only: a round of other tools, or with
/// another pattern, lies behind all that is counted.
pub proof fn law_counts_are_of_the_last_rounds(rounds: Seq<RoundView>, c: nat)
    requires
        c < rounds.len(),
    ensures
        rounds[rounds.len() - 1 - c].name != rounds.last().name ==> turn_loop::after_rounds(
            rounds,
        ).1.consecutive <= c,
        rounds[rounds.len() - 1 - c].observation().pattern != rounds.last().observation().pattern
            ==> turn_loop::after_rounds(rounds).1.streak <= c,
    decreases c,
{
    let before = rounds.drop_last();
    if c > 0 {
        assert(before.last() == rounds[rounds.len() - 2]);
        assert(before[before.len() - 1 - (c - 1)] == rounds[rounds.len() - 1 - c]);
        law_counts_are_of_the_last_rounds(before, (c - 1) as nat);
        lemma_last_is_noted(before);
    }
}

proof fn lemma_last_is_noted(rounds: Seq<RoundView>)
    requires
        rounds.len() > 0,
    ensures
        turn_loop::after_rounds(rounds).1.last_tool == Some(rounds.last().name),
        turn_loop::after_rounds(rounds).1.last_pattern == Some(rounds.last().observation().pattern),
{
}

/// The supervisor remembers the last twenty-four rounds: all of them where there were no more.
pub proof fn law_twenty_four_rounds_are_remembered(rounds: Seq<RoundView>)
    ensures
        rounds.len() <= 24 ==> turn_loop::after_rounds(rounds).1.recent.len() == rounds.len(),
        rounds.len() > 24 ==> turn_loop::after_rounds(rounds).1.recent.len() == 24,
{
    turn_loop::law_last_rounds_are_remembered(rounds);
}

/// What is said of a loop names what was counted, the limit, and the tools.
pub proof fn law_reasons_say_what_was_counted(
    s: SupervisorView,
    name: Seq<char>,
    limit: nat,
)
    ensures
        s.consecutive >= limit ==> turn_loop::same_tool_reason(s, name, limit) is Some
            && turn_loop::same_tool_reason(s, name, limit)->0.text == "consecutive_same_tool: "@
            + name + " called "@ + text::decimal(s.consecutive) + " times in a row (limit="@
            + text::decimal(limit) + ")"@,
        s.consecutive < limit ==> turn_loop::same_tool_reason(s, name, limit) is None,
        s.last_pattern is Some && s.streak > limit ==> turn_loop::no_progress(s, limit) is Some
            && turn_loop::no_progress(s, limit)->0.text
            == "repeated_tool_call_no_progress signature_streak="@ + text::decimal(s.streak)
            + " threshold="@ + text::decimal(limit),
        s.streak <= limit ==> turn_loop::no_progress(s, limit) is None,
        s.recent.len() > 0 && s.recent.last().failed && s.recent.last().name == name
            && turn_loop::trailing_failures(s.recent, name) >= limit ==> turn_loop::failure_streak(
            s.recent,
            limit,
        ) is Some && turn_loop::failure_streak(s.recent, limit)->0.text
            == "tool_failure_streak rounds="@ + text::decimal(
            turn_loop::trailing_failures(s.recent, name),
        ) + " threshold="@ + text::decimal(limit) + " tool="@ + name,
{
}

/// Each kind of loop, each tool and each pattern has a key of its own, so that a warning of one
/// loop stops no other.
pub proof fn law_loops_are_told_apart(s: SupervisorView, name: Seq<char>, limit: nat)
    ensures
        s.consecutive >= limit ==> turn_loop::same_tool_reason(s, name, limit)->0.key
            == "consecutive_same_tool:"@ + name,
        s.last_pattern is Some && s.streak > limit ==> turn_loop::no_progress(s, limit)->0.key
            == "no_progress:"@ + s.last_pattern->0,
        s.recent.len() > 0 && s.recent.last().failed && s.recent.last().name == name
            && turn_loop::trailing_failures(s.recent, name) >= limit ==> turn_loop::failure_streak(
            s.recent,
            limit,
        )->0.key == "failure_streak:"@ + name,
{
}

/// A loop that was not warned of in the round before is warned of, and only one that was is
/// stopped.
pub proof fn law_first_a_warning_then_a_stop(
    warned: Option<Seq<char>>,
    key: Seq<char>,
    said: Seq<char>,
)
    ensures
        ({
            let found = Some(ReasonView { key, text: said });
            &&& warned != Some(key) ==> turn_loop::judged(warned, found) == (
                VerdictView::InjectWarning(said),
                Some(key),
            )
            &&& warned == Some(key) ==> turn_loop::judged(warned, found) == (
                VerdictView::HardStop(said),
                Some(key),
            )
            &&& turn_loop::judged(warned, None) == (
                VerdictView::Continue,
                None::<Seq<char>>,
            )
        }),
{
}

/// Of several loops the one of the same tools is told first, then the call without progress,
/// then the two calls in turn, then the failures.
pub proof fn law_loops_are_told_in_this_order(
    s: SupervisorView,
    policy: TurnLoopPolicy,
    name: Seq<char>,
)
    ensures
        ({
            let a = turn_loop::same_tool_reason(s, name, policy.max_consecutive_same_tool as nat);
            let b = turn_loop::no_progress(s, policy.max_repeated_tool_call_rounds as nat);
            let c = turn_loop::ping_pong(s.recent, policy.max_ping_pong_cycles as nat);
            let d = turn_loop::failure_streak(
                s.recent,
                policy.max_same_tool_failure_rounds as nat,
            );
            let found = turn_loop::detection(s, policy, name);
            &&& a is Some ==> found == a
            &&& a is None && b is Some ==> found == b
            &&& a is None && b is None && c is Some ==> found == c
            &&& a is None && b is None && c is None ==> found == d
        }),
{
}

/// What came of a round is told by its kind and its text: the same text of another kind is
/// another outcome, and white space round it does not matter.
pub proof fn law_outcomes_are_told_by_kind_and_text(
    s: String,
    f: TurnFailure,
    a: ApprovalRequirement,
)
    ensures
        turn_loop::outcome_source(TurnResult::FinalText(s)) == Some(
            ("tool_final_text"@, s@, false),
        ),
        turn_loop::outcome_source(TurnResult::StreamingText(s)) == Some(
            ("tool_final_text"@, s@, false),
        ),
        turn_loop::outcome_source(TurnResult::StreamingDone(s)) == Some(
            ("tool_final_text"@, s@, false),
        ),
        turn_loop::outcome_source(TurnResult::ToolDenied(f)) == Some(
            ("tool_denied"@, f.reason@, true),
        ),
        turn_loop::outcome_source(TurnResult::ToolError(f)) == Some(
            ("tool_error"@, f.reason@, true),
        ),
        turn_loop::outcome_source(TurnResult::ProviderError(f)) is None,
        a.approval_request_id matches Some(id) ==> turn_loop::outcome_source(
            TurnResult::NeedsApproval(a),
        ) == Some(("tool_approval_required"@, id@, false)),
        a.approval_request_id is None ==> turn_loop::outcome_source(TurnResult::NeedsApproval(a))
            == Some(("tool_approval_required"@, a.reason@, false)),
{
}

/// A call is told by its name and its arguments, every call of a round in its place.
pub proof fn law_calls_are_told_by_name_and_arguments(intents: Seq<ToolIntentView>, i: int)
    requires
        0 <= i < intents.len(),
    ensures
        turn_loop::call_signatures(intents).len() == intents.len(),
        turn_loop::call_signatures(intents)[i] == text::trim(intents[i].tool_name) + ":"@
            + json::rendered_json(intents[i].args_json),
        turn_loop::call_names(intents).len() == intents.len(),
        turn_loop::call_names(intents)[i] == text::trim(intents[i].tool_name),
{
}

/// A digest is a label and sixteen digits.
pub proof fn law_digests_are_labelled(label: Seq<char>, n: u64)
    ensures
        turn_loop::labelled_digest(label, n) == label + ":"@ + text::hex(n as nat, 16),
{
}

/// Failures in a row are counted one by one, up to the first round that did not fail or was of
/// other tools.
pub proof fn law_failures_are_counted_one_by_one(
    recent: Seq<ObservationView>,
    o: ObservationView,
    name: Seq<char>,
)
    ensures
        turn_loop::trailing_failures(recent.push(o), name) == (if o.failed && o.name == name {
            turn_loop::trailing_failures(recent, name) + 1
        } else {
            0
        }),
        turn_loop::trailing_failures(Seq::empty(), name) == 0,
{
    assert(recent.push(o).drop_last() =~= recent);
}

// What a round leads to.

/// Two texts on lines of their own, where neither is empty.
pub open spec fn preface_and(preface: Seq<char>, said: Seq<char>) -> Seq<char> {
    if preface.len() == 0 {
        said
    } else if said.len() == 0 {
        preface
    } else {
        preface + seq!['\n'] + said
    }
}

proof fn lemma_lines(a: Seq<char>, b: Seq<char>)
    ensures
        turn_shared::join_lines(a, b) == preface_and(a, b),
{
    reveal_strlit("\n");
    assert("\n"@ =~= seq!['\n']);
}

/// A round without tools ends the turn with what the provider said.
pub proof fn law_answers_without_tools_are_final(
    s: SessionView,
    preface: Seq<char>,
    result: TurnResult,
    said: String,
)
    requires
        result == TurnResult::FinalText(said) || result == TurnResult::StreamingText(said) || result
            == TurnResult::StreamingDone(said),
    ensures
        turn_loop::session_decision(s, preface, Seq::empty(), result)
            == DecisionView::FinalizeDirect(said@),
        turn_loop::session_after(s, preface, Seq::empty(), result).supervisor == s.supervisor,
        turn_loop::session_after(s, preface, Seq::empty(), result).total_tool_calls
            == s.total_tool_calls || s.total_tool_calls > usize::MAX,
{
}

/// What tools gave goes into the next request, as long as a round is left: as a result where
/// they ran, as a failure where they were denied or ended in an error, with the warning of the
/// supervisor where there is one. In the last round a last reply is asked for with it, and
/// what the tools gave stands in for that reply.
pub proof fn law_tools_lead_to_the_next_request(
    s: SessionView,
    preface: Seq<char>,
    intents: Seq<ToolIntentView>,
    result: TurnResult,
)
    requires
        intents.len() > 0,
        !s.raw_requested,
        !(result is NeedsApproval) && !(result is ProviderError),
        !(turn_loop::supervised(s.supervisor, s.policy, intents, result).0 is HardStop),
    ensures
        ({
            let verdict = turn_loop::supervised(s.supervisor, s.policy, intents, result).0;
            let warning = match verdict {
                VerdictView::InjectWarning(reason) => Some(reason),
                _ => None,
            };
            let (payload, said) = match result {
                TurnResult::FinalText(t) => (PayloadView::ToolResult(t@), t@),
                TurnResult::StreamingText(t) => (PayloadView::ToolResult(t@), t@),
                TurnResult::StreamingDone(t) => (PayloadView::ToolResult(t@), t@),
                TurnResult::ToolDenied(f) => (PayloadView::ToolFailure(f.reason@), f.reason@),
                TurnResult::ToolError(f) => (PayloadView::ToolFailure(f.reason@), f.reason@),
                _ => (PayloadView::ToolResult(Seq::empty()), Seq::empty()),
            };
            let followup = FollowupView::Tool { preface, payload, warning };
            let decision = turn_loop::session_decision(s, preface, intents, result);
            &&& s.round + 1 < s.policy.max_rounds ==> decision
                == DecisionView::ContinueWithFollowup(followup)
            &&& s.round + 1 >= s.policy.max_rounds ==> decision
                == (DecisionView::FinalizeWithCompletionPass {
                raw_reply: preface_and(preface, said),
                followup,
            })
            &&& turn_loop::session_after(s, preface, intents, result).last_raw_reply == preface_and(
                preface,
                said,
            )
        }),
{
    lemma_lines(preface, turn_shared::result_text(result));
}

/// A hard stop asks for a last reply with the reason of the stop and with what the tools gave.
pub proof fn law_stops_ask_for_a_last_reply(
    s: SessionView,
    preface: Seq<char>,
    intents: Seq<ToolIntentView>,
    result: TurnResult,
    reason: Seq<char>,
)
    requires
        intents.len() > 0,
        !s.raw_requested,
        !(result is NeedsApproval) && !(result is ProviderError),
        turn_loop::supervised(s.supervisor, s.policy, intents, result).0 == VerdictView::HardStop(
            reason,
        ),
    ensures
        turn_loop::session_decision(s, preface, intents, result) matches
            DecisionView::FinalizeWithCompletionPass {
            followup: FollowupView::Guard { preface: p, reason: r, latest },
            ..
        } && {
            &&& p == preface
            &&& r == reason
            &&& match result {
                TurnResult::ToolDenied(f) => latest == Some(PayloadView::ToolFailure(f.reason@)),
                TurnResult::ToolError(f) => latest == Some(PayloadView::ToolFailure(f.reason@)),
                TurnResult::FinalText(t) => latest == Some(PayloadView::ToolResult(t@)),
                TurnResult::StreamingText(t) => latest == Some(PayloadView::ToolResult(t@)),
                TurnResult::StreamingDone(t) => latest == Some(PayloadView::ToolResult(t@)),
                _ => true,
            }
        },
{
}

/// What needs approval, and what the provider failed, ends the turn with the reason behind
/// what the provider said.
pub proof fn law_approvals_end_the_turn(
    s: SessionView,
    preface: Seq<char>,
    intents: Seq<ToolIntentView>,
    result: TurnResult,
)
    requires
        intents.len() > 0,
        result is NeedsApproval || result is ProviderError,
    ensures
        turn_loop::session_decision(s, preface, intents, result) == DecisionView::FinalizeDirect(
            preface_and(
                preface,
                match result {
                    TurnResult::NeedsApproval(a) => a.reason@,
                    TurnResult::ProviderError(f) => f.reason@,
                    _ => Seq::empty(),
                },
            ),
        ),
{
    lemma_lines(preface, turn_shared::result_text(result));
}

/// Every round adds its calls to those of the turn, and a round is counted exactly where
/// another follows it; the limits, the messages and the budget stay.
pub proof fn law_rounds_are_counted(
    s: SessionView,
    preface: Seq<char>,
    intents: Seq<ToolIntentView>,
    result: TurnResult,
)
    requires
        s.total_tool_calls + intents.len() <= usize::MAX,
    ensures
        ({
            let next = turn_loop::session_after(s, preface, intents, result);
            &&& next.total_tool_calls == s.total_tool_calls + intents.len()
            &&& next.round == s.round + 1 <==> turn_loop::session_decision(
                s,
                preface,
                intents,
                result,
            ) is ContinueWithFollowup
            &&& next.round == s.round || next.round == s.round + 1
            &&& next.policy == s.policy
            &&& next.messages == s.messages
            &&& next.raw_requested == s.raw_requested
            &&& next.per_round_chars == s.per_round_chars
            &&& next.remaining_chars == s.remaining_chars
        }),
{
}

/// The circuit breaker trips above the limit and not at it.
pub proof fn law_the_breaker_trips_above_the_limit(total: int, limit: int)
    ensures
        turn_shared::circuit_breaker_reply(total, limit) is Some <==> total > limit,
{
}

/// Tools run exactly as long as the calls of the turn, with theirs, are no more than allowed.
pub proof fn law_tools_run_within_the_limit(s: SessionView, more: nat)
    requires
        s.total_tool_calls >= 0,
        s.total_tool_calls + more <= usize::MAX,
    ensures
        turn_loop::may_run(s, more) <==> s.total_tool_calls + more <= s.policy.max_total_tool_calls,
{
}

/// An error of the provider is shown as such, with what it says.
pub proof fn law_provider_errors_are_shown(error: Seq<char>)
    ensures
        turn_loop::provider_error_reply(error) == "[provider_error] "@ + error,
{
}

/// What a provider is told of a round keeps what the round was: the result or failure of the
/// tools with the warning, or the reason of the stop with what the tools gave under its label.
pub proof fn law_followups_tell_what_came(f: FollowupView)
    ensures
        match f {
            FollowupView::Tool { preface, payload, warning } => f.tail() == (TailView::ToolDriven {
                preface,
                payload,
                warning,
            }),
            FollowupView::Guard { preface, reason, latest } => {
                &&& f.tail() matches TailView::LoopGuard { preface: p, reason: r, context }
                &&& p == preface
                &&& r == reason
                &&& match latest {
                    Some(PayloadView::ToolResult(t)) => context == Some(("tool_result"@, t)),
                    Some(PayloadView::ToolFailure(t)) => context == Some(("tool_failure"@, t)),
                    None => context is None,
                }
            },
        },
{
}

// Payloads.

/// A payload that fits goes in whole; one that does not is cut to its first characters, eighty
/// fewer than allowed and at least one, and says how many it lost.
pub proof fn law_cut_payloads_say_what_they_lost(label: Seq<char>, s: Seq<char>, max: int)
    requires
        max >= 0,
    ensures
        ({
            let body = text::trim(s);
            let out = turn_loop::truncated_payload(label, s, max);
            let keep = if max - 80 > 1 {
                max - 80
            } else {
                1
            };
            &&& body.len() <= max ==> out == body
            &&& body.len() > max ==> out == body.take(keep) + (seq!['\n', '['] + label
                + "_truncated] removed_chars="@ + text::decimal((body.len() - keep) as nat))
        }),
{
    reveal_strlit("\n[");
    assert("\n["@ =~= seq!['\n', '[']);
    let body = text::trim(s);
    if body.len() > max {
        let keep = if max - 80 > 1 {
            max - 80
        } else {
            1
        };
        let tail = "_truncated] removed_chars="@ + text::decimal((body.len() - keep) as nat);
        assert(turn_loop::truncated_payload(label, s, max) =~= body.take(keep) + (seq!['\n', '[']
            + label + "_truncated] removed_chars="@ + text::decimal(
            (body.len() - keep) as nat,
        )));
    }
}

/// A payload may have what a round allows or what is left of the turn, whichever is less.
pub proof fn law_payloads_keep_both_limits(per_round: int, remaining: int)
    ensures
        turn_loop::round_allowance(per_round, remaining) <= per_round,
        turn_loop::round_allowance(per_round, remaining) <= remaining,
        turn_loop::round_allowance(per_round, remaining) == per_round || turn_loop::round_allowance(
            per_round,
            remaining,
        ) == remaining,
{
}

/// What a payload takes from the budget: all of it where it fits, else what is kept of it. A
/// budget that is used up lets nothing in but a note of how much was left out.
pub proof fn law_payloads_take_what_they_keep(
    total: int,
    allowed: int,
    label: Seq<char>,
    s: Seq<char>,
    per_round: int,
)
    requires
        total >= 0,
        allowed >= 1,
    ensures
        total <= allowed ==> turn_loop::consumed_chars(total, allowed) == total,
        total > allowed && allowed > 80 ==> turn_loop::consumed_chars(total, allowed) == allowed
            - 80,
        total > allowed && allowed <= 80 ==> turn_loop::consumed_chars(total, allowed) == allowed,
        turn_loop::budgeted_payload(per_round, 0, label, s) == "["@ + label
            + "_truncated] removed_chars="@ + text::decimal(text::trim(s).len())
            + " budget_exhausted=true"@,
        per_round >= 1 && allowed <= per_round ==> turn_loop::budgeted_payload(
            per_round,
            allowed,
            label,
            s,
        ) == turn_loop::truncated_payload(label, s, allowed),
{
}

/// A limit that is too low is raised to the least that makes sense, and any other stays.
pub proof fn law_limits_are_raised_only(n: usize, least: usize)
    ensures
        n >= least ==> turn_loop::at_least(n, least) == n,
        n < least ==> turn_loop::at_least(n, least) == least,
{
}

/// The limits apply as configured, each on its own, but for those that are too low: every limit
/// is at least one, and a payload may have at least 256 characters.
pub proof fn law_limits_apply_as_configured(c: TurnLoopConfig)
    ensures
        ({
            let p = turn_loop::policy_of(c);
            &&& c.max_rounds >= 1 ==> p.max_rounds == c.max_rounds
            &&& c.max_tool_steps_per_round >= 1 ==> p.max_tool_steps_per_round
                == c.max_tool_steps_per_round
            &&& c.max_repeated_tool_call_rounds >= 1 ==> p.max_repeated_tool_call_rounds
                == c.max_repeated_tool_call_rounds
            &&& c.max_ping_pong_cycles >= 1 ==> p.max_ping_pong_cycles == c.max_ping_pong_cycles
            &&& c.max_same_tool_failure_rounds >= 1 ==> p.max_same_tool_failure_rounds
                == c.max_same_tool_failure_rounds
            &&& c.max_followup_tool_payload_chars >= 256 ==> p.max_followup_tool_payload_chars
                == c.max_followup_tool_payload_chars
            &&& c.max_followup_tool_payload_chars < 256 ==> p.max_followup_tool_payload_chars == 256
            &&& c.max_followup_tool_payload_chars_total >= 1
                ==> p.max_followup_tool_payload_chars_total
                == c.max_followup_tool_payload_chars_total
            &&& c.max_total_tool_calls >= 1 ==> p.max_total_tool_calls == c.max_total_tool_calls
            &&& c.max_consecutive_same_tool >= 1 ==> p.max_consecutive_same_tool
                == c.max_consecutive_same_tool
            &&& p.wf()
        }),
{
}

/// A turn whose rounds are used up ends with what the tools said last.
pub proof fn law_used_up_turns_say_what_tools_said(last: Seq<char>)
    ensures
        last.len() > 0 ==> turn_loop::round_limit_reply(last) == last,
        turn_loop::round_limit_reply(last).len() > 0,
{
    reveal_strlit("agent_loop_round_limit_reached");
}

/// The message of a role says what it is of whom.
pub proof fn law_messages_name_their_role(role: Seq<char>, content: Seq<char>)
    ensures
        turn_loop::role_message(role, content).str_at("role"@) == Some(role),
        turn_loop::role_message(role, content).str_at("content"@) == Some(content),
{
    reveal_strlit("role");
    reveal_strlit("content");
    assert("role"@.len() == 4 && "content"@.len() == 7);
    let v = turn_loop::role_message(role, content)->Object_0;
    reveal_with_fuel(json::lookup, 3);
    assert(v.skip(1)[0] == v[1]);
}

/// Two calls in turn have one key, whichever came last: both patterns, the smaller first.
pub proof fn law_calls_in_turn_have_one_key(recent: Seq<ObservationView>, cycles: nat)
    requires
        turn_loop::ping_pong(recent, cycles) is Some,
    ensures
        ({
            let last = recent[recent.len() - 1].pattern;
            let other = recent[recent.len() - 2].pattern;
            let key = turn_loop::ping_pong(recent, cycles)->0.key;
            &&& text::text_le(last, other) ==> key == "ping_pong:"@ + last + "<->"@ + other
            &&& !text::text_le(last, other) ==> key == "ping_pong:"@ + other + "<->"@ + last
        }),
{
}

} // verus!
