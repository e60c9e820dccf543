//! Requests that failed: why, and what is told of it.
use crate::json;
use crate::json::{no_entries, object, push_entry, render_json, text_value, Json, JsonView};
use crate::provider::contracts::{ApiErrorView, ProviderApiError};
use crate::text::{cat3, same};
use vstd::prelude::*;

verus! {

/// Why a request failed.
#[derive(Clone, Copy, Debug, PartialEq, Eq, Structural)]
pub enum ProviderFailoverReason {
    ModelMismatch,
    RateLimited,
    ProviderOverloaded,
    AuthRejected,
    PayloadIncompatible,
    TransportFailure,
    ResponseDecodeFailure,
    ResponseShapeInvalid,
    RequestRejected,
}

impl ProviderFailoverReason {
    pub open spec fn name(self) -> Seq<char> {
        match self {
            ProviderFailoverReason::ModelMismatch => "model_mismatch"@,
            ProviderFailoverReason::RateLimited => "rate_limited"@,
            ProviderFailoverReason::ProviderOverloaded => "provider_overloaded"@,
            ProviderFailoverReason::AuthRejected => "auth_rejected"@,
            ProviderFailoverReason::PayloadIncompatible => "payload_incompatible"@,
            ProviderFailoverReason::TransportFailure => "transport_failure"@,
            ProviderFailoverReason::ResponseDecodeFailure => "response_decode_failure"@,
            ProviderFailoverReason::ResponseShapeInvalid => "response_shape_invalid"@,
            ProviderFailoverReason::RequestRejected => "request_rejected"@,
        }
    }

    pub fn as_str(&self) -> (r: &'static str)
        ensures
            r@ == self.name(),
    {
        match self {
            ProviderFailoverReason::ModelMismatch => "model_mismatch",
            ProviderFailoverReason::RateLimited => "rate_limited",
            ProviderFailoverReason::ProviderOverloaded => "provider_overloaded",
            ProviderFailoverReason::AuthRejected => "auth_rejected",
            ProviderFailoverReason::PayloadIncompatible => "payload_incompatible",
            ProviderFailoverReason::TransportFailure => "transport_failure",
            ProviderFailoverReason::ResponseDecodeFailure => "response_decode_failure",
            ProviderFailoverReason::ResponseShapeInvalid => "response_shape_invalid",
            ProviderFailoverReason::RequestRejected => "request_rejected",
        }
    }
}

/// Where a request failed.
#[derive(Clone, Copy, Debug, PartialEq, Eq, Structural)]
pub enum ProviderFailoverStage {
    TransportFailure,
    ResponseDecode,
    ResponseShapeInvalid,
    ModelCandidateRejected,
    StatusFailure,
}

impl ProviderFailoverStage {
    pub open spec fn name(self) -> Seq<char> {
        match self {
            ProviderFailoverStage::TransportFailure => "transport_failure"@,
            ProviderFailoverStage::ResponseDecode => "response_decode"@,
            ProviderFailoverStage::ResponseShapeInvalid => "response_shape_invalid"@,
            ProviderFailoverStage::ModelCandidateRejected => "model_candidate_rejected"@,
            ProviderFailoverStage::StatusFailure => "status_failure"@,
        }
    }

    pub fn as_str(&self) -> (r: &'static str)
        ensures
            r@ == self.name(),
    {
        match self {
            ProviderFailoverStage::TransportFailure => "transport_failure",
            ProviderFailoverStage::ResponseDecode => "response_decode",
            ProviderFailoverStage::ResponseShapeInvalid => "response_shape_invalid",
            ProviderFailoverStage::ModelCandidateRejected => "model_candidate_rejected",
            ProviderFailoverStage::StatusFailure => "status_failure",
        }
    }
}

/// What is known of a request that failed.
pub struct ProviderFailoverSnapshot {
    pub reason: ProviderFailoverReason,
    pub stage: ProviderFailoverStage,
    pub model: String,
    pub attempt: usize,
    pub max_attempts: usize,
    pub status_code: Option<u16>,
}

/// What a `ProviderFailoverSnapshot` is.
#[verifier::ext_equal]
pub struct SnapshotView {
    pub reason: ProviderFailoverReason,
    pub stage: ProviderFailoverStage,
    pub model: Seq<char>,
    pub attempt: int,
    pub max_attempts: int,
    pub status_code: Option<u16>,
}

impl ProviderFailoverSnapshot {
    pub open spec fn view(&self) -> SnapshotView {
        SnapshotView {
            reason: self.reason,
            stage: self.stage,
            model: self.model@,
            attempt: self.attempt as int,
            max_attempts: self.max_attempts as int,
            status_code: self.status_code,
        }
    }
}

/// A request that failed.
pub struct ModelRequestError {
    pub message: String,
    pub try_next_model: bool,
    pub reason: ProviderFailoverReason,
    pub snapshot: ProviderFailoverSnapshot,
    pub api_error: Option<ProviderApiError>,
}

/// What a `ModelRequestError` is.
#[verifier::ext_equal]
pub struct RequestErrorView {
    pub message: Seq<char>,
    pub try_next_model: bool,
    pub reason: ProviderFailoverReason,
    pub snapshot: SnapshotView,
    pub api_error: Option<ApiErrorView>,
}

/// The view of an optional error.
pub open spec fn opt_api_error(o: Option<ProviderApiError>) -> Option<ApiErrorView> {
    match o {
        Some(e) => Some(e@),
        None => None,
    }
}

impl ModelRequestError {
    pub open spec fn view(&self) -> RequestErrorView {
        RequestErrorView {
            message: self.message@,
            try_next_model: self.try_next_model,
            reason: self.reason,
            snapshot: self.snapshot@,
            api_error: opt_api_error(self.api_error),
        }
    }
}

/// What is known of a failure, as JSON. The status is left out where there is none.
pub open spec fn failover_entries(s: SnapshotView) -> Seq<(Seq<char>, JsonView)> {
    let all = seq![
        ("attempt"@, JsonView::Integer(s.attempt)),
        ("max_attempts"@, JsonView::Integer(s.max_attempts)),
        ("model"@, JsonView::Text(s.model)),
        ("reason"@, JsonView::Text(s.reason.name())),
        ("stage"@, JsonView::Text(s.stage.name())),
    ];
    match s.status_code {
        Some(n) => all.push(("status_code"@, JsonView::Integer(n as int))),
        None => all,
    }
}

fn failover_json(s: &ProviderFailoverSnapshot) -> (r: Json)
    ensures
        r@ == JsonView::Object(failover_entries(s@)),
{
    let mut v = no_entries();
    push_entry(&mut v, "attempt", Json::Unsigned(s.attempt as u64));
    push_entry(&mut v, "max_attempts", Json::Unsigned(s.max_attempts as u64));
    push_entry(&mut v, "model", text_value(s.model.as_str()));
    push_entry(&mut v, "reason", text_value(s.reason.as_str()));
    push_entry(&mut v, "stage", text_value(s.stage.as_str()));
    if let Some(n) = s.status_code {
        push_entry(&mut v, "status_code", Json::Unsigned(n as u64));
    }
    assert(json::entries(v@) =~= failover_entries(s@));
    object(v)
}

/// The error of a request: its message holds what is known of the failure, behind what
/// is said of it.
pub open spec fn request_error(
    message: Seq<char>,
    try_next_model: bool,
    snapshot: SnapshotView,
    api_error: Option<ApiErrorView>,
) -> RequestErrorView {
    RequestErrorView {
        message: message + " | provider_failover="@ + json::rendered_json(
            JsonView::Object(failover_entries(snapshot)),
        ),
        try_next_model,
        reason: snapshot.reason,
        snapshot,
        api_error,
    }
}

/// The error of a request.
pub fn build_model_request_error(
    message: &str,
    try_next_model: bool,
    snapshot: ProviderFailoverSnapshot,
    api_error: Option<ProviderApiError>,
) -> (r: ModelRequestError)
    ensures
        r@ == request_error(message@, try_next_model, snapshot@, opt_api_error(api_error)),
{
    let known = failover_json(&snapshot);
    let rendered = render_json(&known);
    ModelRequestError {
        message: cat3(message, " | provider_failover=", rendered.as_str()),
        try_next_model,
        reason: snapshot.reason,
        snapshot,
        api_error,
    }
}

// Metrics.

/// How often things occurred, by name.
pub struct EventCounts {
    entries: Vec<(String, u64)>,
}

/// The number of a name in a list of counts.
pub open spec fn count_in(v: Seq<(Seq<char>, int)>, name: Seq<char>) -> int
    decreases v.len(),
{
    if v.len() == 0 {
        0
    } else if v[0].0 == name {
        v[0].1
    } else {
        count_in(v.skip(1), name)
    }
}

/// A number with one more, up to the greatest one.
pub open spec fn one_more(n: int) -> int {
    if n < u64::MAX {
        n + 1
    } else {
        n
    }
}

/// The counts with one more of a name.
pub open spec fn counted(v: Seq<(Seq<char>, int)>, name: Seq<char>) -> Seq<(Seq<char>, int)>
    decreases v.len(),
{
    if v.len() == 0 {
        seq![(name, 1int)]
    } else if v[0].0 == name {
        seq![(name, one_more(v[0].1))] + v.skip(1)
    } else {
        seq![v[0]] + counted(v.skip(1), name)
    }
}

/// The views of a list of counts.
pub open spec fn count_views(v: Seq<(String, u64)>) -> Seq<(Seq<char>, int)> {
    Seq::new(v.len(), |i: int| (v[i].0@, v[i].1 as int))
}

/// One more of a name is one more of that name and of no other.
pub proof fn law_counting_counts_one(v: Seq<(Seq<char>, int)>, name: Seq<char>, other: Seq<char>)
    ensures
        count_in(counted(v, name), name) == one_more(count_in(v, name)),
        other != name ==> count_in(counted(v, name), other) == count_in(v, other),
    decreases v.len(),
{
    let r = counted(v, name);
    if v.len() == 0 {
        assert(r.skip(1) =~= v);
    } else {
        law_counting_counts_one(v.skip(1), name, other);
        if v[0].0 == name {
            assert(r.skip(1) =~= v.skip(1));
        } else {
            assert(r.skip(1) =~= counted(v.skip(1), name));
            assert(r[0] == v[0]);
        }
    }
}

proof fn lemma_counted_at(v: Seq<(Seq<char>, int)>, name: Seq<char>, k: int)
    requires
        0 <= k < v.len(),
        v[k].0 == name,
        forall|i: int| 0 <= i < k ==> (#[trigger] v[i]).0 != name,
    ensures
        counted(v, name) == v.update(k, (name, one_more(v[k].1))),
    decreases v.len(),
{
    if k == 0 {
        assert(counted(v, name) =~= v.update(0, (name, one_more(v[0].1))));
    } else {
        let t = v.skip(1);
        assert forall|i: int| 0 <= i < k - 1 implies (#[trigger] t[i]).0 != name by {
            assert(t[i] == v[i + 1]);
        }
        lemma_counted_at(t, name, k - 1);
        assert(counted(v, name) =~= v.update(k, (name, one_more(v[k].1))));
    }
}

proof fn lemma_counted_new(v: Seq<(Seq<char>, int)>, name: Seq<char>)
    requires
        forall|i: int| 0 <= i < v.len() ==> (#[trigger] v[i]).0 != name,
    ensures
        counted(v, name) == v.push((name, 1)),
    decreases v.len(),
{
    if v.len() > 0 {
        let t = v.skip(1);
        assert forall|i: int| 0 <= i < t.len() implies (#[trigger] t[i]).0 != name by {
            assert(t[i] == v[i + 1]);
        }
        lemma_counted_new(t, name);
    }
    assert(counted(v, name) =~= v.push((name, 1)));
}

impl EventCounts {
    pub closed spec fn view(&self) -> Seq<(Seq<char>, int)> {
        count_views(self.entries@)
    }

    pub fn new() -> (r: EventCounts)
        ensures
            r@ == Seq::<(Seq<char>, int)>::empty(),
    {
        let r = EventCounts { entries: Vec::new() };
        assert(r@ =~= Seq::empty());
        r
    }

    /// How often a name was counted.
    pub fn count(&self, name: &str) -> (r: u64)
        ensures
            r == count_in(self@, name@),
    {
        let v = &self.entries;
        let ghost all = count_views(v@);
        let mut i: usize = 0;
        assert(all.skip(0) =~= all);
        while i < v.len()
            invariant
                i <= v@.len(),
                all == count_views(v@),
                all == self@,
                count_in(all, name@) == count_in(all.skip(i as int), name@),
            decreases v@.len() - i,
        {
            assert(all.skip(i as int)[0] == all[i as int]);
            assert(all.skip(i as int).skip(1) =~= all.skip(i + 1));
            if same(v[i].0.as_str(), name) {
                return v[i].1;
            }
            i += 1;
        }
        0
    }

    fn record(&mut self, name: &str)
        ensures
            final(self)@ == counted(old(self)@, name@),
    {
        let ghost all = count_views(self.entries@);
        let mut i: usize = 0;
        while i < self.entries.len()
            invariant
                i <= self.entries@.len(),
                *self == *old(self),
                all == count_views(self.entries@),
                forall|k: int| 0 <= k < i ==> (#[trigger] all[k]).0 != name@,
            decreases self.entries@.len() - i,
        {
            if same(self.entries[i].0.as_str(), name) {
                let n: u64 = self.entries[i].1;
                let more: u64 = if n < u64::MAX {
                    n + 1
                } else {
                    n
                };
                proof {
                    assert(all[i as int] == (name@, n as int));
                    lemma_counted_at(all, name@, i as int);
                }
                self.entries.set(i, (name.to_owned(), more));
                assert(count_views(self.entries@) =~= all.update(i as int, (name@, more as int)));
                return ;
            }
            assert(all[i as int].0 != name@);
            i += 1;
        }
        proof {
            lemma_counted_new(all, name@);
        }
        self.entries.push((name.to_owned(), 1));
        assert(count_views(self.entries@) =~= all.push((name@, 1)));
    }
}

/// How often requests failed.
pub struct ProviderFailoverMetrics {
    pub total_events: u64,
    pub continued_events: u64,
    pub exhausted_events: u64,
    pub by_reason: EventCounts,
    pub by_stage: EventCounts,
    pub by_provider: EventCounts,
}

fn plus_one(n: u64) -> (r: u64)
    ensures
        r == one_more(n as int),
{
    if n < u64::MAX {
        n + 1
    } else {
        n
    }
}

impl ProviderFailoverMetrics {
    pub fn new() -> (r: ProviderFailoverMetrics)
        ensures
            r.total_events == 0,
            r.continued_events == 0,
            r.exhausted_events == 0,
            r.by_reason@ == Seq::<(Seq<char>, int)>::empty(),
            r.by_stage@ == Seq::<(Seq<char>, int)>::empty(),
            r.by_provider@ == Seq::<(Seq<char>, int)>::empty(),
    {
        ProviderFailoverMetrics {
            total_events: 0,
            continued_events: 0,
            exhausted_events: 0,
            by_reason: EventCounts::new(),
            by_stage: EventCounts::new(),
            by_provider: EventCounts::new(),
        }
    }

    /// Takes note of a request that failed: after it another model was tried, or no
    /// model was left (`exhausted`).
    pub fn record(
        &mut self,
        provider_id: &str,
        snapshot: &ProviderFailoverSnapshot,
        try_next_model: bool,
        exhausted: bool,
    )
        ensures
            final(self).total_events == one_more(old(self).total_events as int),
            final(self).continued_events == (if try_next_model && !exhausted {
                one_more(old(self).continued_events as int)
            } else {
                old(self).continued_events as int
            }),
            final(self).exhausted_events == (if exhausted {
                one_more(old(self).exhausted_events as int)
            } else {
                old(self).exhausted_events as int
            }),
            final(self).by_reason@ == counted(old(self).by_reason@, snapshot.reason.name()),
            final(self).by_stage@ == counted(old(self).by_stage@, snapshot.stage.name()),
            final(self).by_provider@ == counted(old(self).by_provider@, provider_id@),
    {
        self.total_events = plus_one(self.total_events);
        if exhausted {
            self.exhausted_events = plus_one(self.exhausted_events);
        } else if try_next_model {
            self.continued_events = plus_one(self.continued_events);
        }
        self.by_reason.record(snapshot.reason.as_str());
        self.by_stage.record(snapshot.stage.as_str());
        self.by_provider.record(provider_id);
    }
}

} // verus!
