//! Models: which of them a provider lists, in which order they are tried, and which rest.
use crate::json::JsonView;
use crate::provider::candidates;
use crate::provider::candidates::CooldownView;
use crate::provider::failover::ProviderFailoverReason;
use crate::provider::models;
use crate::provider::models::CandidateView;
use crate::text;
use vstd::prelude::*;

verus! {

// What is listed.

/// The models of a list are those of its first items followed by those of the others.
pub proof fn law_models_of_lists_are_joined(a: Seq<JsonView>, b: Seq<JsonView>)
    ensures
        models::candidates_of(a + b) == models::candidates_of(a) + models::candidates_of(b),
        models::lower_texts(a + b) == models::lower_texts(a) + models::lower_texts(b),
    decreases b.len(),
{
    if b.len() == 0 {
        assert(a + b =~= a);
    } else {
        law_models_of_lists_are_joined(a, b.drop_last());
        assert((a + b).drop_last() =~= a + b.drop_last());
        assert((a + b).last() == b.last());
    }
    assert(models::candidates_of(a + b) =~= models::candidates_of(a) + models::candidates_of(b));
    assert(models::lower_texts(a + b) =~= models::lower_texts(a) + models::lower_texts(b));
}

/// Where a list of models stands in an answer.
pub proof fn law_lists_are_found(body: JsonView, items: Seq<JsonView>)
    ensures
        body.array_at("data"@) == Some(items) ==> models::items_of(body) == Some(items),
        body.array_at("data"@) is None && body.array_at("modelSummaries"@) == Some(items)
            ==> models::items_of(body) == Some(items),
        body.array_at("data"@) is None && body.array_at("modelSummaries"@) is None
            && body.array_at("models"@) == Some(items) ==> models::items_of(body) == Some(items),
        body.array_at("data"@) is None && body.array_at("modelSummaries"@) is None
            && body.array_at("models"@) is None && body.get("Result"@) is Some && body.get(
            "Result"@,
        )->0.array_at("Items"@) == Some(items) ==> models::items_of(body) == Some(items),
        body.array_at("data"@) is None && body.array_at("modelSummaries"@) is None
            && body.array_at("models"@) is None && body.get("Result"@) is None && body.get(
            "result"@,
        ) is Some && body.get("result"@)->0.array_at("models"@) == Some(items)
            ==> models::items_of(body) == Some(items),
        body.get("data"@) is None && body.get("modelSummaries"@) is None && body.get("models"@)
            is None && body.get("Result"@) is None && body.get("result"@) is None && !(body is Array)
            ==> models::items_of(body) is None,
        body == JsonView::Array(items) ==> models::items_of(body) == Some(items),
{
}

/// A model is named by its text, or by the first name that it has; the name is taken without
/// the white space round it.
pub proof fn law_models_are_named(item: JsonView)
    ensures
        ({
            let raw = match item {
                JsonView::Text(s) => Some(s),
                _ => if item.str_at("id"@) is Some {
                    item.str_at("id"@)
                } else if item.str_at("modelId"@) is Some {
                    item.str_at("modelId"@)
                } else if item.str_at("model"@) is Some {
                    item.str_at("model"@)
                } else {
                    item.str_at("name"@)
                },
            };
            &&& raw is Some && text::trim(raw->0).len() > 0 ==> models::model_id(item) == Some(
                text::trim(raw->0),
            )
            &&& raw is None ==> models::model_id(item) is None
        }),
{
}

/// A model that is archived, that says that it does not chat, or whose list of interfaces or
/// of outputs lacks the one for that, is no model to chat with. A model that has a name and
/// says none of that is one.
pub proof fn law_models_that_chat_are_listed(item: JsonView)
    ensures
        item.bool_at("archived"@) == Some(true) ==> models::candidate_of(item) is None,
        item.bool_at("supports_chat"@) == Some(false) ==> models::candidate_of(item) is None,
        item.bool_at("chat_completion"@) == Some(false) ==> models::candidate_of(item) is None,
        item.array_at("output_modalities"@) == Some(seq![JsonView::Text("image"@)])
            ==> models::candidate_of(item) is None,
        ({
            &&& item.get("supportedEndpointTypes"@) is None
            &&& item.get("supported_endpoint_types"@) is None
            &&& item.get("supports_chat"@) is None
            &&& item.get("chat_completion"@) is None
            &&& item.get("archived"@) is None
            &&& item.get("is_archived"@) is None
            &&& item.get("output_modalities"@) is None
            &&& item.get("outputModalities"@) is None
            &&& models::model_id(item) is Some
        }) ==> models::candidate_of(item) is Some && models::candidate_of(item)->0.id
            == models::model_id(item)->0,
{
    if item.array_at("output_modalities"@) == Some(seq![JsonView::Text("image"@)]) {
        let v = seq![JsonView::Text("image"@)];
        reveal_with_fuel(models::lower_texts, 2);
        assert(v.last() == JsonView::Text("image"@));
        assert(v.drop_last().len() == 0);
        let names = models::lower_texts(v);
        reveal_strlit("image");
        reveal_strlit("text");
        assert(names.len() == 1);
        assert(names[0].len() == 5);
        assert forall|k: int| 0 <= k < names.len() implies names[k] != "text"@ by {}
    }
}

/// A model is deprecated exactly where its flag, its status or one of its tags says so.
pub proof fn law_deprecation_is_noticed(item: JsonView)
    ensures
        models::is_deprecated(item) <==> {
            ||| item.bool_at("deprecated"@) == Some(true)
            ||| item.str_at("status"@) is Some && ({
                let t = text::lower(text::trim(item.str_at("status"@)->0));
                t == "deprecated"@ || t == "deprecation"@ || t == "retired"@ || t == "sunset"@
            })
            ||| item.array_at("tags"@) is Some && exists|i: int|
                0 <= i < item.array_at("tags"@)->0.len() && says_that_it_goes(
                    #[trigger] item.array_at("tags"@)->0[i],
                )
        },
{
    if let Some(v) = item.array_at("tags"@) {
        lemma_lowered(v, "deprecated"@);
        lemma_lowered(v, "retired"@);
    }
}

/// Whether a tag is one of a model that goes.
pub open spec fn says_that_it_goes(tag: JsonView) -> bool {
    tag is Text && (text::lower(tag->Text_0) == "deprecated"@ || text::lower(tag->Text_0)
        == "retired"@)
}

proof fn lemma_lowered(v: Seq<JsonView>, name: Seq<char>)
    ensures
        models::lower_texts(v).contains(name) <==> exists|i: int|
            0 <= i < v.len() && (#[trigger] v[i]) is Text && text::lower(v[i]->Text_0) == name,
    decreases v.len(),
{
    if v.len() > 0 {
        lemma_lowered(v.drop_last(), name);
        let rest = models::lower_texts(v.drop_last());
        if let JsonView::Text(s) = v.last() {
            let all = rest.push(text::lower(s));
            assert(models::lower_texts(v) == all);
            if rest.contains(name) {
                let k = rest.index_of(name);
                assert(all[k] == name);
            }
            if text::lower(s) == name {
                assert(all[rest.len() as int] == name);
                assert(v[v.len() - 1] is Text);
            }
        }
        assert forall|i: int|
            0 <= i < v.len() && (#[trigger] v[i]) is Text && text::lower(v[i]->Text_0)
                == name implies models::lower_texts(v).contains(name) by {
            if i < v.len() - 1 {
                assert(v.drop_last()[i] == v[i]);
            }
        }
        if models::lower_texts(v).contains(name) && rest.contains(name) {
            let i = choose|i: int|
                0 <= i < v.drop_last().len() && (#[trigger] v.drop_last()[i]) is Text
                    && text::lower(v.drop_last()[i]->Text_0) == name;
            assert(v[i] is Text);
        }
    }
}

/// The models stand in the order in which they are wanted: one that goes behind every one that
/// stays, then the newer before the older, and those with a date before those without.
pub proof fn law_newer_models_come_first(s: Seq<CandidateView>, i: int, j: int)
    requires
        0 <= i < j < models::ordered(s).len(),
    ensures
        ({
            let a = models::ordered(s)[i];
            let b = models::ordered(s)[j];
            &&& !(a.deprecated && !b.deprecated)
            &&& a.deprecated == b.deprecated && a.created is Some && b.created is Some
                ==> a.created->0 >= b.created->0
            &&& a.deprecated == b.deprecated ==> !(a.created is None && b.created is Some)
            &&& a.deprecated == b.deprecated && a.created == b.created && a.created_text is Some
                && b.created_text is Some ==> text::text_le(b.created_text->0, a.created_text->0)
            &&& a.deprecated == b.deprecated && a.created == b.created && a.created_text
                == b.created_text ==> text::text_le(a.id, b.id)
        }),
{
    models::law_models_are_sorted(s);
    let a = models::ordered(s)[i];
    let b = models::ordered(s)[j];
    assert(models::not_after(a, b));
    if a.created_text is Some && b.created_text is Some && a.created_text == b.created_text {
        text::lemma_text_le_total(a.created_text->0, b.created_text->0);
    }
}

/// The names keep the order of the models: a name comes in where its model comes first.
pub proof fn law_names_keep_the_order(s: Seq<CandidateView>, c: CandidateView)
    ensures
        models::first_ids(s.push(c)) == (if models::first_ids(s).contains(c.id) {
            models::first_ids(s)
        } else {
            models::first_ids(s).push(c.id)
        }),
        models::first_ids(Seq::empty()).len() == 0,
{
    assert(s.push(c).drop_last() =~= s);
}

/// When a model was made is read as a number from `created`, else from `created_at`, and as a
/// text from the first of its dates that there is.
pub proof fn law_dates_are_read(item: JsonView, n: int, s: Seq<char>)
    ensures
        item.i64_at("created"@) == Some(n) ==> models::model_created(item) == Some(n),
        item.get("created"@) is None ==> models::model_created(item) == item.i64_at("created_at"@),
        item.str_at("created_at"@) == Some(s) && text::trim(s).len() > 0
            ==> models::model_created_text(item) == Some(text::trim(s)),
        item.str_at("created_at"@) is None && item.str_at("createdAt"@) == Some(s) && text::trim(
            s,
        ).len() > 0 ==> models::model_created_text(item) == Some(text::trim(s)),
        item.str_at("created_at"@) is None && item.str_at("createdAt"@) is None && item.str_at(
            "release_date"@,
        ) == Some(s) && text::trim(s).len() > 0 ==> models::model_created_text(item) == Some(
            text::trim(s),
        ),
        item.str_at("created_at"@) is None && item.str_at("createdAt"@) is None && item.str_at(
            "release_date"@,
        ) is None && item.str_at("releaseDate"@) == Some(s) ==> models::model_created_text(item)
            == (if text::trim(s).len() > 0 {
            Some(text::trim(s))
        } else {
            None
        }),
        item.str_at("created_at"@) is None && item.str_at("createdAt"@) is None && item.str_at(
            "release_date"@,
        ) is None && item.str_at("releaseDate"@) is None ==> models::model_created_text(item)
            is None,
{
}

/// A model whose interfaces are listed is one to chat with only where one for chat is among
/// them; one whose outputs are listed, only where text is among them. Either list may have
/// either of its names, and one that names nothing decides nothing.
pub proof fn law_listed_interfaces_decide(item: JsonView, v: Seq<JsonView>)
    ensures
        item.array_at("supportedEndpointTypes"@) == Some(v) || (item.get("supportedEndpointTypes"@)
            is None && item.array_at("supported_endpoint_types"@) == Some(v)) ==> {
            let names = models::lower_texts(v);
            let chats = names.contains("chat"@) || names.contains("chat_completion"@)
                || names.contains("chat-completion"@);
            &&& models::lacks_chat_endpoint(item) == (names.len() > 0 && !chats)
            &&& names.len() > 0 && !chats ==> models::candidate_of(item) is None
        },
        item.array_at("output_modalities"@) == Some(v) || (item.get("output_modalities"@) is None
            && item.array_at("outputModalities"@) == Some(v)) ==> {
            let names = models::lower_texts(v);
            &&& models::lacks_text_output(item) == (names.len() > 0 && !names.contains("text"@))
            &&& names.len() > 0 && !names.contains("text"@) ==> models::candidate_of(item) is None
        },
{
}

/// A model with a name is listed exactly where it says neither that it does not chat nor that
/// it is archived, and where no list of it lacks the interface or the output for that.
pub proof fn law_models_are_listed_by_what_they_say(item: JsonView)
    requires
        !models::lacks_chat_endpoint(item),
        !models::lacks_text_output(item),
    ensures
        models::candidate_of(item) is Some <==> {
            &&& models::model_id(item) is Some
            &&& item.bool_at("supports_chat"@) != Some(false)
            &&& item.bool_at("chat_completion"@) != Some(false)
            &&& item.bool_at("archived"@) == Some(false) || (item.bool_at("archived"@) is None
                && item.bool_at("is_archived"@) != Some(true))
        },
{
}

/// A candidate is what its item says: its name, its dates, and whether it goes.
pub proof fn law_candidates_are_their_items(item: JsonView)
    ensures
        models::candidate_of(item) matches Some(c) ==> {
            &&& models::model_id(item) == Some(c.id)
            &&& c.created == models::model_created(item)
            &&& c.created_text == models::model_created_text(item)
            &&& c.deprecated == models::is_deprecated(item)
        },
        models::candidates_of(seq![item]) == (match models::candidate_of(item) {
            Some(c) => seq![c],
            None => Seq::<CandidateView>::empty(),
        }),
{
    reveal_with_fuel(models::candidates_of, 2);
    assert(seq![item].last() == item);
    assert(seq![item].drop_last().len() == 0);
    match models::candidate_of(item) {
        Some(c) => {
            assert(models::candidates_of(seq![item]) =~= seq![c]);
        },
        None => {
            assert(models::candidates_of(seq![item]) =~= Seq::<CandidateView>::empty());
        },
    }
}

// What is tried.

/// A model that is asked for is the first of the catalog with that name, whatever the case of
/// its letters; it comes behind those asked for before it.
pub proof fn law_wishes_are_taken_in_their_order(
    preferred: Seq<Seq<char>>,
    wish: Seq<char>,
    catalog: Seq<Seq<char>>,
    k: int,
)
    requires
        0 <= k < catalog.len(),
        text::lower(catalog[k]) == text::lower(wish),
        forall|i: int| 0 <= i < k ==> text::lower(#[trigger] catalog[i]) != text::lower(wish),
    ensures
        candidates::asked_for(preferred.push(wish), catalog) == candidates::asked_for(
            preferred,
            catalog,
        ).push(catalog[k]),
{
    assert(preferred.push(wish).drop_last() =~= preferred);
    lemma_spelled(catalog, wish, k);
}

proof fn lemma_spelled(list: Seq<Seq<char>>, name: Seq<char>, k: int)
    requires
        0 <= k < list.len(),
        text::lower(list[k]) == text::lower(name),
        forall|i: int| 0 <= i < k ==> text::lower(#[trigger] list[i]) != text::lower(name),
    ensures
        candidates::spelled(list, name) == Some(list[k]),
    decreases k,
{
    if k > 0 {
        assert(text::lower(list[0]) != text::lower(name));
        assert forall|i: int| 0 <= i < k - 1 implies text::lower(#[trigger] list.skip(1)[i])
            != text::lower(name) by {
            assert(list.skip(1)[i] == list[i + 1]);
        }
        lemma_spelled(list.skip(1), name, k - 1);
    }
}

/// The first model that is asked for, and that the catalog has, is tried first; where none is,
/// the catalog is tried in its own order.
pub proof fn law_the_first_wish_is_tried_first(
    preferred: Seq<Seq<char>>,
    catalog: Seq<Seq<char>>,
)
    requires
        candidates::all_differ(catalog),
    ensures
        candidates::asked_for(preferred, catalog).len() > 0 ==> candidates::ranked(
            preferred,
            catalog,
        ).len() > 0 && candidates::ranked(preferred, catalog)[0] == candidates::asked_for(
            preferred,
            catalog,
        )[0],
        candidates::asked_for(preferred, catalog).len() == 0 ==> candidates::ranked(
            preferred,
            catalog,
        ) == catalog,
{
    let wishes = candidates::asked_for(preferred, catalog);
    candidates::law_ranking_keeps_the_catalog(preferred, catalog);
    let first = candidates::joined_once(Seq::empty(), wishes);
    if wishes.len() > 0 {
        lemma_joined_first(wishes);
        assert(candidates::ranked(preferred, catalog).take(first.len() as int)[0] == first[0]);
    } else {
        assert(first.len() == 0);
        assert(first =~= Seq::empty());
        lemma_joined_same(catalog);
    }
}

proof fn lemma_joined_first(list: Seq<Seq<char>>)
    requires
        list.len() > 0,
    ensures
        candidates::joined_once(Seq::empty(), list).len() > 0,
        candidates::joined_once(Seq::empty(), list)[0] == list[0],
    decreases list.len(),
{
    if list.len() > 1 {
        lemma_joined_first(list.drop_last());
    } else {
        assert(candidates::joined_once(Seq::empty(), list.drop_last()) =~= Seq::<Seq<char>>::empty());
    }
}

proof fn lemma_joined_same(list: Seq<Seq<char>>)
    requires
        candidates::all_differ(list),
    ensures
        candidates::joined_once(Seq::empty(), list) == list,
    decreases list.len(),
{
    if list.len() > 0 {
        let init = list.drop_last();
        assert forall|i: int, j: int| 0 <= i < j < init.len() implies #[trigger] init[i]
            != #[trigger] init[j] by {
            assert(list[i] != list[j]);
        }
        lemma_joined_same(init);
        let n = list.len() - 1;
        assert(!init.contains(list.last())) by {
            if init.contains(list.last()) {
                let k = init.index_of(list.last());
                assert(list[k] != list[n]);
            }
        }
        assert(init.push(list.last()) =~= list);
    } else {
        assert(candidates::joined_once(Seq::empty(), list) =~= list);
    }
}

// What rests.

/// The first rest is the base, every further one twice the one before, and none is longer than
/// the limit.
pub proof fn law_rests_double(base: int, max: int, failures: int)
    requires
        failures >= 1,
        0 <= base,
        0 <= max,
    ensures
        candidates::rest_time(base, max, 1) == (if base <= max {
            base
        } else {
            max
        }),
        candidates::rest_time(base, max, failures + 1) == (if 2 * candidates::rest_time(
            base,
            max,
            failures,
        ) <= max {
            2 * candidates::rest_time(base, max, failures)
        } else {
            max
        }),
{
}

/// A model that failed rests until its time is over and not longer, and counts its failures:
/// one more than it had while it rested, else one.
pub proof fn law_failed_models_rest(
    e: Seq<CooldownView>,
    x: CooldownView,
    now: int,
)
    ensures
        candidates::resting(candidates::others(e, x.key).push(x), x.key, now) == (if now
            < x.expires_at {
            Some(x)
        } else {
            None
        }),
        candidates::resting(e, x.key, now) is None ==> candidates::failures_with(e, x.key, now)
            == 1,
        candidates::resting(e, x.key, now) is Some && candidates::resting(
            e,
            x.key,
            now,
        )->0.failure_count < u32::MAX ==> candidates::failures_with(e, x.key, now)
            == candidates::resting(e, x.key, now)->0.failure_count + 1,
{
    broadcast use vstd::seq_lib::group_filter_ensures;

    let o = candidates::others(e, x.key);
    let keep = |y: CooldownView| y.key != x.key;
    assert forall|i: int| 0 <= i < o.len() implies (#[trigger] o[i]).key != x.key by {
        assert(keep(e.filter(keep)[i]));
    }
    lemma_rests_last(o, x, now);
}

proof fn lemma_rests_last(e: Seq<CooldownView>, x: CooldownView, now: int)
    requires
        forall|i: int| 0 <= i < e.len() ==> (#[trigger] e[i]).key != x.key,
    ensures
        candidates::resting(e.push(x), x.key, now) == (if now < x.expires_at {
            Some(x)
        } else {
            None
        }),
    decreases e.len(),
{
    let all = e.push(x);
    if e.len() == 0 {
        assert(all[0] == x);
    } else {
        assert(e[0].key != x.key);
        assert(all[0] == e[0]);
        assert(all.skip(1) =~= e.skip(1).push(x));
        assert forall|i: int| 0 <= i < e.skip(1).len() implies (#[trigger] e.skip(1)[i]).key
            != x.key by {
            assert(e.skip(1)[i] == e[i + 1]);
        }
        lemma_rests_last(e.skip(1), x, now);
    }
}

/// Times add up, as far as there are numbers for them; only the newest entries are kept where
/// there are more than allowed.
pub proof fn law_times_add_up(a: int, b: int, e: Seq<CooldownView>, max: int)
    requires
        0 <= max,
    ensures
        a + b <= u64::MAX ==> candidates::later_by(a, b) == a + b,
        a + b > u64::MAX ==> candidates::later_by(a, b) == u64::MAX,
        e.len() <= max ==> candidates::newest(e, max) == e,
        e.len() > max ==> candidates::newest(e, max).len() == max && candidates::newest(e, max)
            == e.subrange(e.len() - max, e.len() as int),
{
    if e.len() > max {
        assert(candidates::newest(e, max) =~= e.subrange(e.len() - max, e.len() as int));
    }
}

/// Only a model that the provider does not have makes way for another.
pub proof fn law_only_missing_models_rest(reason: ProviderFailoverReason)
    ensures
        candidates::asks_for_another_model(reason) <==> reason
            == ProviderFailoverReason::ModelMismatch,
{
}

/// Models that do not rest come before those that rest, and each kind keeps its order.
pub proof fn law_resting_models_come_last(
    a: Seq<Seq<char>>,
    b: Seq<Seq<char>>,
    e: Seq<CooldownView>,
    namespace: Seq<char>,
    now: int,
    rest: bool,
)
    ensures
        candidates::those(a + b, e, namespace, now, rest) == candidates::those(
            a,
            e,
            namespace,
            now,
            rest,
        ) + candidates::those(b, e, namespace, now, rest),
        forall|i: int|
            0 <= i < candidates::those(a, e, namespace, now, rest).len() ==> (candidates::resting(
                e,
                namespace + "::"@ + #[trigger] candidates::those(a, e, namespace, now, rest)[i],
                now,
            ) is Some) == rest,
    decreases a.len() + b.len(),
{
    if b.len() > 0 {
        law_resting_models_come_last(a, b.drop_last(), e, namespace, now, rest);
        assert((a + b).drop_last() =~= a + b.drop_last());
        assert((a + b).last() == b.last());
    } else {
        assert(a + b =~= a);
        if a.len() > 0 {
            law_resting_models_come_last(a.drop_last(), b, e, namespace, now, rest);
        }
    }
    assert(candidates::those(a + b, e, namespace, now, rest) =~= candidates::those(
        a,
        e,
        namespace,
        now,
        rest,
    ) + candidates::those(b, e, namespace, now, rest));
}

} // verus!
