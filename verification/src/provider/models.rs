//! The models that a provider offers.
use crate::json;
use crate::json::{Json, JsonView};
use crate::provider::shape;
use crate::provider::shape::normalize_text;
use crate::text;
use crate::text::{contains_text, is_text_le, lower_text, same, trimmed_str};
use vstd::prelude::*;

verus! {

/// A model of a list of models.
pub struct ModelCandidate {
    pub id: String,
    pub created: Option<i64>,
    pub created_text: Option<String>,
    pub deprecated: bool,
}

/// What a `ModelCandidate` is.
#[verifier::ext_equal]
pub struct CandidateView {
    pub id: Seq<char>,
    pub created: Option<int>,
    pub created_text: Option<Seq<char>>,
    pub deprecated: bool,
}

impl ModelCandidate {
    pub open spec fn view(&self) -> CandidateView {
        CandidateView {
            id: self.id@,
            created: match self.created {
                Some(n) => Some(n as int),
                None => None,
            },
            created_text: text::opt_text(self.created_text),
            deprecated: self.deprecated,
        }
    }
}

/// The views of a list of models.
pub open spec fn candidate_views(v: Seq<ModelCandidate>) -> Seq<CandidateView> {
    Seq::new(v.len(), |i: int| v[i]@)
}

// Reading.

/// The items of a list of models.
pub open spec fn items_of(body: JsonView) -> Option<Seq<JsonView>> {
    if body.array_at("data"@) is Some {
        body.array_at("data"@)
    } else if body.array_at("modelSummaries"@) is Some {
        body.array_at("modelSummaries"@)
    } else if body.array_at("models"@) is Some {
        body.array_at("models"@)
    } else if nested_items(body, "Result"@, "Items"@) is Some {
        nested_items(body, "Result"@, "Items"@)
    } else if nested_items(body, "result"@, "models"@) is Some {
        nested_items(body, "result"@, "models"@)
    } else {
        body.as_array()
    }
}

/// The items of the array under two keys.
pub open spec fn nested_items(body: JsonView, outer: Seq<char>, inner: Seq<char>) -> Option<
    Seq<JsonView>,
> {
    match body.get(outer) {
        Some(v) => v.array_at(inner),
        None => None,
    }
}

/// The view of an optional list of values.
pub open spec fn opt_values(o: Option<&Vec<Json>>) -> Option<Seq<JsonView>> {
    match o {
        Some(v) => Some(json::values(v@)),
        None => None,
    }
}

fn items_under<'a>(body: &'a Json, outer: &str, inner: &str) -> (r: Option<&'a Vec<Json>>)
    ensures
        opt_values(r) == nested_items(body@, outer@, inner@),
{
    match body.get(outer) {
        Some(v) => v.array_at(inner),
        None => None,
    }
}

fn model_items(body: &Json) -> (r: Option<&Vec<Json>>)
    ensures
        opt_values(r) == items_of(body@),
{
    if let Some(v) = body.array_at("data") {
        return Some(v);
    }
    if let Some(v) = body.array_at("modelSummaries") {
        return Some(v);
    }
    if let Some(v) = body.array_at("models") {
        return Some(v);
    }
    if let Some(v) = items_under(body, "Result", "Items") {
        return Some(v);
    }
    if let Some(v) = items_under(body, "result", "models") {
        return Some(v);
    }
    body.as_array()
}

/// The first of two texts that is there.
pub open spec fn first_text(value: JsonView, key: Seq<char>, other: Option<Seq<char>>) -> Option<
    Seq<char>,
> {
    match value.str_at(key) {
        Some(s) => Some(s),
        None => other,
    }
}

/// The name of a model.
pub open spec fn model_id(value: JsonView) -> Option<Seq<char>> {
    let raw = match value.as_str() {
        Some(s) => Some(s),
        None => first_text(
            value,
            "id"@,
            first_text(
                value,
                "modelId"@,
                first_text(value, "model"@, first_text(value, "name"@, None)),
            ),
        ),
    };
    match raw {
        Some(s) => shape::normalized(s),
        None => None,
    }
}

fn model_id_from_value(value: &Json) -> (r: Option<String>)
    ensures
        text::opt_text(r) == model_id(value@),
{
    if let Some(s) = value.as_str() {
        return normalize_text(s);
    }
    if let Some(s) = value.str_at("id") {
        return normalize_text(s);
    }
    if let Some(s) = value.str_at("modelId") {
        return normalize_text(s);
    }
    if let Some(s) = value.str_at("model") {
        return normalize_text(s);
    }
    if let Some(s) = value.str_at("name") {
        return normalize_text(s);
    }
    None
}

/// The texts of a list in lower case, with everything else left out.
pub open spec fn lower_texts(v: Seq<JsonView>) -> Seq<Seq<char>>
    decreases v.len(),
{
    if v.len() == 0 {
        Seq::empty()
    } else {
        match v.last().as_str() {
            Some(s) => lower_texts(v.drop_last()).push(text::lower(s)),
            None => lower_texts(v.drop_last()),
        }
    }
}

fn lowered(v: &Vec<Json>) -> (r: Vec<String>)
    ensures
        text::texts(r@) == lower_texts(json::values(v@)),
{
    let ghost all = json::values(v@);
    let mut r: Vec<String> = Vec::new();
    let mut i: usize = 0;
    assert(text::texts(r@) =~= lower_texts(all.take(0)));
    while i < v.len()
        invariant
            i <= v@.len(),
            all == json::values(v@),
            text::texts(r@) == lower_texts(all.take(i as int)),
        decreases v@.len() - i,
    {
        assert(all.take(i + 1).drop_last() =~= all.take(i as int));
        assert(all.take(i + 1).last() == v@[i as int]@);
        if let Some(s) = v[i].as_str() {
            let l = lower_text(s);
            proof {
                text::lemma_texts_push(r@, l);
            }
            r.push(l);
        }
        i += 1;
    }
    assert(all.take(i as int) =~= all);
    r
}

/// The list under the first of two keys that is there, where it is a list.
pub open spec fn list_under(value: JsonView, key: Seq<char>, other: Seq<char>) -> Option<
    Seq<JsonView>,
> {
    let found = match value.get(key) {
        Some(v) => Some(v),
        None => value.get(other),
    };
    match found {
        Some(v) => v.as_array(),
        None => None,
    }
}

fn array_under<'a>(value: &'a Json, key: &str, other: &str) -> (r: Option<&'a Vec<Json>>)
    ensures
        opt_values(r) == list_under(value@, key@, other@),
{
    let found = match value.get(key) {
        Some(v) => Some(v),
        None => value.get(other),
    };
    match found {
        Some(v) => v.as_array(),
        None => None,
    }
}

/// Whether a model lists interfaces and none for chat is among them.
pub open spec fn lacks_chat_endpoint(value: JsonView) -> bool {
    match list_under(value, "supportedEndpointTypes"@, "supported_endpoint_types"@) {
        Some(v) => {
            let names = lower_texts(v);
            names.len() > 0 && !names.contains("chat"@) && !names.contains("chat_completion"@)
                && !names.contains("chat-completion"@)
        },
        None => false,
    }
}

/// Whether a model says that it does not chat.
pub open spec fn denies_chat(value: JsonView) -> bool {
    value.bool_at("supports_chat"@) == Some(false) || value.bool_at("chat_completion"@) == Some(
        false,
    )
}

/// Whether a model is archived.
pub open spec fn is_archived(value: JsonView) -> bool {
    match value.bool_at("archived"@) {
        Some(b) => b,
        None => value.bool_at("is_archived"@) == Some(true),
    }
}

/// Whether a model lists what it puts out and text is not among it.
pub open spec fn lacks_text_output(value: JsonView) -> bool {
    match list_under(value, "output_modalities"@, "outputModalities"@) {
        Some(v) => {
            let names = lower_texts(v);
            names.len() > 0 && !names.contains("text"@)
        },
        None => false,
    }
}

/// Whether a model is known not to be one to chat with.
pub open spec fn is_no_chat_model(value: JsonView) -> bool {
    lacks_chat_endpoint(value) || denies_chat(value) || is_archived(value) || lacks_text_output(
        value,
    )
}

fn bool_is(value: &Json, key: &str, expected: bool) -> (r: bool)
    ensures
        r == (value@.bool_at(key@) == Some(expected)),
{
    match value.bool_at(key) {
        Some(b) => b == expected,
        None => false,
    }
}

fn model_is_known_non_chat_candidate(value: &Json) -> (r: bool)
    ensures
        r == is_no_chat_model(value@),
{
    if let Some(v) = array_under(value, "supportedEndpointTypes", "supported_endpoint_types") {
        let names = lowered(v);
        if names.len() > 0 && !contains_text(&names, "chat") && !contains_text(
            &names,
            "chat_completion",
        ) && !contains_text(&names, "chat-completion") {
            return true;
        }
    }
    if bool_is(value, "supports_chat", false) || bool_is(value, "chat_completion", false) {
        return true;
    }
    let archived = match value.bool_at("archived") {
        Some(b) => b,
        None => bool_is(value, "is_archived", true),
    };
    if archived {
        return true;
    }
    if let Some(v) = array_under(value, "output_modalities", "outputModalities") {
        let names = lowered(v);
        if names.len() > 0 && !contains_text(&names, "text") {
            return true;
        }
    }
    false
}

/// When a model was made, as a number: under `created`, else under `created_at`. A
/// number under `created` that is too great counts as none.
pub open spec fn model_created(value: JsonView) -> Option<int> {
    match value.get("created"@) {
        Some(v) => if v.as_i64() is Some {
            v.as_i64()
        } else if v.as_u64() is Some {
            None
        } else {
            value.i64_at("created_at"@)
        },
        None => value.i64_at("created_at"@),
    }
}

fn model_created_from_value(value: &Json) -> (r: Option<i64>)
    ensures
        (match r {
            Some(n) => model_created(value@) == Some(n as int),
            None => model_created(value@) is None,
        }),
{
    if let Some(v) = value.get("created") {
        if let Some(n) = v.as_i64() {
            return Some(n);
        }
        if v.as_u64().is_some() {
            return None;
        }
    }
    value.i64_at("created_at")
}

/// The text under a key, where there is more to it than white space.
pub open spec fn normal_text_at(value: JsonView, key: Seq<char>) -> Option<Seq<char>> {
    match value.str_at(key) {
        Some(s) => shape::normalized(s),
        None => None,
    }
}

/// When a model was made, as a text.
pub open spec fn model_created_text(value: JsonView) -> Option<Seq<char>> {
    if normal_text_at(value, "created_at"@) is Some {
        normal_text_at(value, "created_at"@)
    } else if normal_text_at(value, "createdAt"@) is Some {
        normal_text_at(value, "createdAt"@)
    } else if normal_text_at(value, "release_date"@) is Some {
        normal_text_at(value, "release_date"@)
    } else {
        normal_text_at(value, "releaseDate"@)
    }
}

fn text_at(value: &Json, key: &str) -> (r: Option<String>)
    ensures
        text::opt_text(r) == normal_text_at(value@, key@),
{
    match value.str_at(key) {
        Some(s) => normalize_text(s),
        None => None,
    }
}

fn model_created_text_from_value(value: &Json) -> (r: Option<String>)
    ensures
        text::opt_text(r) == model_created_text(value@),
{
    if let Some(s) = text_at(value, "created_at") {
        return Some(s);
    }
    if let Some(s) = text_at(value, "createdAt") {
        return Some(s);
    }
    if let Some(s) = text_at(value, "release_date") {
        return Some(s);
    }
    text_at(value, "releaseDate")
}

/// Whether a status is that of a model that goes or is gone.
pub open spec fn is_retired_status(status: Seq<char>) -> bool {
    let s = text::lower(text::trim(status));
    s == "deprecated"@ || s == "deprecation"@ || s == "retired"@ || s == "sunset"@
}

/// Whether a model goes or is gone.
pub open spec fn is_deprecated(value: JsonView) -> bool {
    ||| value.bool_at("deprecated"@) == Some(true)
    ||| (value.str_at("status"@) matches Some(s) && is_retired_status(s))
    ||| (value.array_at("tags"@) matches Some(v) && (lower_texts(v).contains("deprecated"@)
        || lower_texts(v).contains("retired"@)))
}

fn model_is_deprecated(value: &Json) -> (r: bool)
    ensures
        r == is_deprecated(value@),
{
    if bool_is(value, "deprecated", true) {
        return true;
    }
    if let Some(status) = value.str_at("status") {
        let body = trimmed_str(status);
        let s = lower_text(body.as_str());
        if same(s.as_str(), "deprecated") || same(s.as_str(), "deprecation") || same(
            s.as_str(),
            "retired",
        ) || same(s.as_str(), "sunset") {
            return true;
        }
    }
    if let Some(tags) = value.array_at("tags") {
        let names = lowered(tags);
        if contains_text(&names, "deprecated") || contains_text(&names, "retired") {
            return true;
        }
    }
    false
}

/// The model of an item, where it is one that may chat.
pub open spec fn candidate_of(item: JsonView) -> Option<CandidateView> {
    if is_no_chat_model(item) {
        None
    } else {
        match model_id(item) {
            Some(id) => Some(
                CandidateView {
                    id,
                    created: model_created(item),
                    created_text: model_created_text(item),
                    deprecated: is_deprecated(item),
                },
            ),
            None => None,
        }
    }
}

/// The models of a list of items.
pub open spec fn candidates_of(items: Seq<JsonView>) -> Seq<CandidateView>
    decreases items.len(),
{
    if items.len() == 0 {
        Seq::empty()
    } else {
        match candidate_of(items.last()) {
            Some(c) => candidates_of(items.drop_last()).push(c),
            None => candidates_of(items.drop_last()),
        }
    }
}

/// The models of a list of models.
pub open spec fn listed_candidates(body: JsonView) -> Seq<CandidateView> {
    match items_of(body) {
        Some(items) => candidates_of(items),
        None => Seq::empty(),
    }
}

/// The models of a list of models.
pub fn collect_model_candidates(body: &Json) -> (r: Vec<ModelCandidate>)
    ensures
        candidate_views(r@) == listed_candidates(body@),
{
    let mut r: Vec<ModelCandidate> = Vec::new();
    assert(candidate_views(r@) =~= Seq::empty());
    let items = match model_items(body) {
        Some(items) => items,
        None => {
            return r;
        },
    };
    let ghost all = json::values(items@);
    let mut i: usize = 0;
    while i < items.len()
        invariant
            i <= items@.len(),
            all == json::values(items@),
            candidate_views(r@) == candidates_of(all.take(i as int)),
        decreases items@.len() - i,
    {
        assert(all.take(i + 1).drop_last() =~= all.take(i as int));
        assert(all.take(i + 1).last() == items@[i as int]@);
        let item = &items[i];
        if !model_is_known_non_chat_candidate(item) {
            if let Some(id) = model_id_from_value(item) {
                let c = ModelCandidate {
                    id,
                    created: model_created_from_value(item),
                    created_text: model_created_text_from_value(item),
                    deprecated: model_is_deprecated(item),
                };
                assert(candidate_views(r@.push(c)) =~= candidate_views(r@).push(c@));
                r.push(c);
            }
        }
        i += 1;
    }
    assert(all.take(i as int) =~= all);
    r
}

// Order.

/// Whether a number or none comes later than another: every number later than none.
pub open spec fn later(a: Option<int>, b: Option<int>) -> bool {
    match (a, b) {
        (Some(m), Some(n)) => m > n,
        (Some(_), None) => true,
        (None, _) => false,
    }
}

/// Whether a text or none comes later than another: every text later than none.
pub open spec fn later_text(a: Option<Seq<char>>, b: Option<Seq<char>>) -> bool {
    match (a, b) {
        (Some(m), Some(n)) => m != n && text::text_le(n, m),
        (Some(_), None) => true,
        (None, _) => false,
    }
}

/// Whether a model stands before another, or equals it: those that stay before those
/// that go, then the newer first, then by name.
pub open spec fn not_after(a: CandidateView, b: CandidateView) -> bool {
    if a.deprecated != b.deprecated {
        !a.deprecated
    } else if a.created != b.created {
        later(a.created, b.created)
    } else if a.created_text != b.created_text {
        later_text(a.created_text, b.created_text)
    } else {
        text::text_le(a.id, b.id)
    }
}

fn is_not_after(a: &ModelCandidate, b: &ModelCandidate) -> (r: bool)
    ensures
        r == not_after(a@, b@),
{
    if a.deprecated != b.deprecated {
        return !a.deprecated;
    }
    match (a.created, b.created) {
        (Some(m), Some(n)) => {
            if m != n {
                return m > n;
            }
        },
        (Some(_), None) => {
            return true;
        },
        (None, Some(_)) => {
            return false;
        },
        (None, None) => {},
    }
    match (&a.created_text, &b.created_text) {
        (Some(m), Some(n)) => {
            if !same(m.as_str(), n.as_str()) {
                return is_text_le(n.as_str(), m.as_str());
            }
        },
        (Some(_), None) => {
            return true;
        },
        (None, Some(_)) => {
            return false;
        },
        (None, None) => {},
    }
    is_text_le(a.id.as_str(), b.id.as_str())
}

/// A sorted list with one more, behind those that stand before it or equal it.
pub open spec fn placed(s: Seq<CandidateView>, c: CandidateView) -> Seq<CandidateView>
    decreases s.len(),
{
    if s.len() == 0 || not_after(s.last(), c) {
        s.push(c)
    } else {
        placed(s.drop_last(), c).push(s.last())
    }
}

/// The models in their order.
pub open spec fn ordered(s: Seq<CandidateView>) -> Seq<CandidateView>
    decreases s.len(),
{
    if s.len() == 0 {
        s
    } else {
        placed(ordered(s.drop_last()), s.last())
    }
}

proof fn lemma_placed_at(s: Seq<CandidateView>, c: CandidateView, k: int)
    requires
        0 <= k <= s.len(),
        forall|i: int| k <= i < s.len() ==> !not_after(#[trigger] s[i], c),
        k > 0 ==> not_after(s[k - 1], c),
    ensures
        placed(s, c) == s.insert(k, c),
    decreases s.len(),
{
    if k < s.len() {
        lemma_placed_at(s.drop_last(), c, k);
        assert(s.insert(k, c) =~= s.drop_last().insert(k, c).push(s.last()));
    } else {
        assert(s.insert(k, c) =~= s.push(c));
    }
}

fn place(v: &mut Vec<ModelCandidate>, c: ModelCandidate)
    ensures
        candidate_views(final(v)@) == placed(candidate_views(old(v)@), c@),
{
    let ghost before = candidate_views(v@);
    let ghost shown = c@;
    let mut k: usize = v.len();
    while k > 0 && !is_not_after(&v[k - 1], &c)
        invariant
            k <= v@.len(),
            *v == *old(v),
            before == candidate_views(v@),
            shown == c@,
            forall|i: int| k <= i < before.len() ==> !not_after(#[trigger] before[i], shown),
        decreases k,
    {
        assert(before[k - 1] == v@[k - 1]@);
        k -= 1;
    }
    assert(k > 0 ==> before[k - 1] == v@[k - 1]@);
    v.insert(k, c);
    proof {
        lemma_placed_at(before, shown, k as int);
        assert(candidate_views(v@) =~= before.insert(k as int, shown));
    }
}

/// The names of models, each where it comes first.
pub open spec fn first_ids(s: Seq<CandidateView>) -> Seq<Seq<char>>
    decreases s.len(),
{
    if s.len() == 0 {
        Seq::empty()
    } else {
        let before = first_ids(s.drop_last());
        if before.contains(s.last().id) {
            before
        } else {
            before.push(s.last().id)
        }
    }
}

/// The names of the models that a list of models offers for chat, in their order, each
/// once.
pub fn extract_model_ids(body: &Json) -> (r: Vec<String>)
    ensures
        text::texts(r@) == first_ids(ordered(listed_candidates(body@))),
{
    let found = collect_model_candidates(body);
    let ghost all = candidate_views(found@);
    let mut rest = found;
    let mut sorted: Vec<ModelCandidate> = Vec::new();
    let ghost mut i: int = 0;
    assert(candidate_views(sorted@) =~= ordered(all.take(0)));
    while rest.len() > 0
        invariant
            0 <= i <= all.len(),
            candidate_views(rest@) == all.skip(i),
            candidate_views(sorted@) == ordered(all.take(i)),
        decreases rest@.len(),
    {
        let ghost before = rest@;
        assert(candidate_views(before).len() == before.len());
        assert(all.skip(i)[0] == before[0]@);
        assert(all.take(i + 1).drop_last() =~= all.take(i));
        let c = rest.remove(0);
        place(&mut sorted, c);
        proof {
            assert(candidate_views(rest@) =~= all.skip(i).skip(1));
            assert(all.skip(i).skip(1) =~= all.skip(i + 1));
            i = i + 1;
        }
    }
    assert(candidate_views(rest@).len() == 0);
    assert(all.take(i) =~= all);
    let ghost order = ordered(all);
    let mut ids: Vec<String> = Vec::new();
    let mut k: usize = 0;
    assert(text::texts(ids@) =~= first_ids(order.take(0)));
    while k < sorted.len()
        invariant
            k <= sorted@.len(),
            order == candidate_views(sorted@),
            text::texts(ids@) == first_ids(order.take(k as int)),
        decreases sorted@.len() - k,
    {
        assert(order.take(k + 1).drop_last() =~= order.take(k as int));
        assert(order.take(k + 1).last() == sorted@[k as int]@);
        if !contains_text(&ids, sorted[k].id.as_str()) {
            let id = sorted[k].id.clone();
            proof {
                text::lemma_texts_push(ids@, id);
            }
            ids.push(id);
        }
        k += 1;
    }
    assert(order.take(k as int) =~= order);
    ids
}

// Laws.

proof fn lemma_not_after_total(a: CandidateView, b: CandidateView)
    ensures
        not_after(a, b) || not_after(b, a),
{
    text::lemma_text_le_total(a.id, b.id);
    if let (Some(m), Some(n)) = (a.created_text, b.created_text) {
        text::lemma_text_le_total(m, n);
    }
}

proof fn lemma_not_after_transitive(a: CandidateView, b: CandidateView, c: CandidateView)
    requires
        not_after(a, b),
        not_after(b, c),
    ensures
        not_after(a, c),
{
    if text::text_le(a.id, b.id) && text::text_le(b.id, c.id) {
        text::lemma_text_le_transitive(a.id, b.id, c.id);
    }
    if let (Some(m), Some(n), Some(o)) = (a.created_text, b.created_text, c.created_text) {
        if text::text_le(n, m) && text::text_le(o, n) {
            text::lemma_text_le_transitive(o, n, m);
            text::lemma_text_le_total(m, n);
            text::lemma_text_le_total(n, o);
        }
    }
}

/// Whether a list of models is in order.
pub open spec fn in_order(s: Seq<CandidateView>) -> bool {
    forall|i: int, j: int| 0 <= i < j < s.len() ==> not_after(#[trigger] s[i], #[trigger] s[j])
}

proof fn lemma_placed_in_order(s: Seq<CandidateView>, c: CandidateView)
    requires
        in_order(s),
    ensures
        in_order(placed(s, c)),
        placed(s, c).len() == s.len() + 1,
        placed(s, c).to_multiset() =~= s.push(c).to_multiset(),
        forall|x: CandidateView| #[trigger] placed(s, c).contains(x) ==> s.contains(x) || x == c,
    decreases s.len(),
{
    broadcast use vstd::seq_lib::group_to_multiset_ensures;

    if s.len() == 0 {
    } else if not_after(s.last(), c) {
        assert forall|i: int, j: int| 0 <= i < j < s.push(c).len() implies not_after(
            #[trigger] s.push(c)[i],
            #[trigger] s.push(c)[j],
        ) by {
            if j == s.len() && i < s.len() - 1 {
                lemma_not_after_transitive(s[i], s.last(), c);
            }
        }
    } else {
        let init = s.drop_last();
        lemma_placed_in_order(init, c);
        let p = placed(init, c);
        let all = p.push(s.last());
        lemma_not_after_total(s.last(), c);
        assert forall|i: int, j: int| 0 <= i < j < all.len() implies not_after(
            #[trigger] all[i],
            #[trigger] all[j],
        ) by {
            if j == p.len() {
                assert(p.contains(p[i]));
                if p[i] != c {
                    let k = choose|k: int| 0 <= k < init.len() && init[k] == p[i];
                    assert(not_after(s[k], s[s.len() - 1]));
                }
            }
        }
        assert(s =~= init.push(s.last()));
        assert(s.push(c).to_multiset() =~= init.to_multiset().insert(s.last()).insert(c));
        assert(all.to_multiset() =~= p.to_multiset().insert(s.last()));
        assert forall|x: CandidateView| #[trigger] all.contains(x) implies s.contains(x) || x
            == c by {
            let k = choose|k: int| 0 <= k < all.len() && all[k] == x;
            if k < p.len() {
                assert(p.contains(x));
                if x != c {
                    let m = choose|m: int| 0 <= m < init.len() && init[m] == x;
                    assert(s[m] == x);
                }
            } else {
                assert(s[s.len() - 1] == x);
            }
        }
    }
}

/// The models in their order are the same models, in order.
pub proof fn law_models_are_sorted(s: Seq<CandidateView>)
    ensures
        in_order(ordered(s)),
        ordered(s).to_multiset() =~= s.to_multiset(),
    decreases s.len(),
{
    broadcast use vstd::seq_lib::group_to_multiset_ensures;

    if s.len() > 0 {
        law_models_are_sorted(s.drop_last());
        lemma_placed_in_order(ordered(s.drop_last()), s.last());
        assert(s =~= s.drop_last().push(s.last()));
        assert(ordered(s.drop_last()).push(s.last()).to_multiset() =~= s.to_multiset());
    }
}

/// No model is named twice, and every model that is listed is named.
pub proof fn law_model_ids_are_unique_and_complete(s: Seq<CandidateView>)
    ensures
        forall|i: int, j: int|
            0 <= i < j < first_ids(s).len() ==> #[trigger] first_ids(s)[i]
                != #[trigger] first_ids(s)[j],
        forall|k: int| 0 <= k < s.len() ==> first_ids(s).contains((#[trigger] s[k]).id),
    decreases s.len(),
{
    if s.len() > 0 {
        let init = s.drop_last();
        let before = first_ids(init);
        law_model_ids_are_unique_and_complete(init);
        assert forall|k: int| 0 <= k < s.len() implies first_ids(s).contains(
            (#[trigger] s[k]).id,
        ) by {
            if k < init.len() {
                assert(init[k] == s[k]);
                let m = choose|m: int| 0 <= m < before.len() && before[m] == s[k].id;
                assert(first_ids(s)[m] == s[k].id);
            } else if !before.contains(s[k].id) {
                assert(first_ids(s)[before.len() as int] == s[k].id);
            }
        }
        assert forall|i: int, j: int| 0 <= i < j < first_ids(s).len() implies #[trigger] first_ids(
            s,
        )[i] != #[trigger] first_ids(s)[j] by {
            if j < before.len() {
                assert(before[i] != before[j]);
            } else {
                assert(before[i] == first_ids(s)[i]);
                assert(!before.contains(s.last().id));
            }
        }
    }
}

} // verus!
