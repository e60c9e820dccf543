//! The models to try: their order, what is known of them, and which of them rest.
use crate::provider::contracts::ProviderConfig;
use crate::provider::failover::ProviderFailoverReason;
use crate::text;
use crate::text::{cat3, contains_text, lower_text, same};
use vstd::prelude::*;

verus! {

// Order.

/// The first name of a list that is `name`, whatever the case of the letters.
pub open spec fn spelled(list: Seq<Seq<char>>, name: Seq<char>) -> Option<Seq<char>>
    decreases list.len(),
{
    if list.len() == 0 {
        None
    } else if text::lower(list[0]) == text::lower(name) {
        Some(list[0])
    } else {
        spelled(list.skip(1), name)
    }
}

/// The names of a list that were asked for, as the list spells them.
pub open spec fn asked_for(preferred: Seq<Seq<char>>, list: Seq<Seq<char>>) -> Seq<Seq<char>>
    decreases preferred.len(),
{
    if preferred.len() == 0 {
        Seq::empty()
    } else {
        match spelled(list, preferred.last()) {
            Some(s) => asked_for(preferred.drop_last(), list).push(s),
            None => asked_for(preferred.drop_last(), list),
        }
    }
}

/// Names with those of another list behind them, each once.
pub open spec fn joined_once(start: Seq<Seq<char>>, list: Seq<Seq<char>>) -> Seq<Seq<char>>
    decreases list.len(),
{
    if list.len() == 0 {
        start
    } else {
        let before = joined_once(start, list.drop_last());
        if before.contains(list.last()) {
            before
        } else {
            before.push(list.last())
        }
    }
}

/// The models of a catalog in the order in which they are tried: those that were asked
/// for, in the order in which they were asked for, then the others.
pub open spec fn ranked(preferred: Seq<Seq<char>>, catalog: Seq<Seq<char>>) -> Seq<Seq<char>> {
    joined_once(joined_once(Seq::empty(), asked_for(preferred, catalog)), catalog)
}

fn spelling(list: &Vec<String>, name: &str) -> (r: Option<String>)
    ensures
        text::opt_text(r) == spelled(text::texts(list@), name@),
{
    let ghost all = text::texts(list@);
    let low = lower_text(name);
    let mut i: usize = 0;
    assert(all.skip(0) =~= all);
    while i < list.len()
        invariant
            i <= list@.len(),
            all == text::texts(list@),
            low@ == text::lower(name@),
            spelled(all, name@) == spelled(all.skip(i as int), name@),
        decreases list@.len() - i,
    {
        assert(all.skip(i as int)[0] == list@[i as int]@);
        assert(all.skip(i as int).skip(1) =~= all.skip(i + 1));
        let one = lower_text(list[i].as_str());
        if same(one.as_str(), low.as_str()) {
            return Some(list[i].clone());
        }
        i += 1;
    }
    None
}

fn push_once(v: &mut Vec<String>, s: String)
    ensures
        text::texts(final(v)@) == (if text::texts(old(v)@).contains(s@) {
            text::texts(old(v)@)
        } else {
            text::texts(old(v)@).push(s@)
        }),
{
    if !contains_text(v, s.as_str()) {
        proof {
            text::lemma_texts_push(v@, s);
        }
        v.push(s);
    }
}

/// The models of a catalog in the order in which they are tried.
pub fn rank_model_candidates(provider: &ProviderConfig, catalog: &Vec<String>) -> (r: Vec<String>)
    ensures
        text::texts(r@) == ranked(text::texts(provider.preferred_models@), text::texts(catalog@)),
{
    let preferred = &provider.preferred_models;
    let ghost wanted = text::texts(preferred@);
    let ghost all = text::texts(catalog@);
    let mut r: Vec<String> = Vec::new();
    let mut i: usize = 0;
    assert(text::texts(r@) =~= Seq::empty());
    assert(wanted.take(0) =~= Seq::empty());
    while i < preferred.len()
        invariant
            i <= preferred@.len(),
            wanted == text::texts(preferred@),
            all == text::texts(catalog@),
            text::texts(r@) == joined_once(
                Seq::empty(),
                asked_for(wanted.take(i as int), all),
            ),
        decreases preferred@.len() - i,
    {
        assert(wanted.take(i + 1).drop_last() =~= wanted.take(i as int));
        assert(wanted.take(i + 1).last() == preferred@[i as int]@);
        if let Some(s) = spelling(catalog, preferred[i].as_str()) {
            proof {
                let before = asked_for(wanted.take(i as int), all);
                assert(before.push(s@).drop_last() =~= before);
            }
            push_once(&mut r, s);
        }
        i += 1;
    }
    assert(wanted.take(i as int) =~= wanted);
    let ghost start = joined_once(Seq::empty(), asked_for(wanted, all));
    let mut k: usize = 0;
    assert(all.take(0) =~= Seq::empty());
    while k < catalog.len()
        invariant
            k <= catalog@.len(),
            all == text::texts(catalog@),
            text::texts(r@) == joined_once(start, all.take(k as int)),
        decreases catalog@.len() - k,
    {
        assert(all.take(k + 1).drop_last() =~= all.take(k as int));
        assert(all.take(k + 1).last() == catalog@[k as int]@);
        push_once(&mut r, catalog[k].clone());
        k += 1;
    }
    assert(all.take(k as int) =~= all);
    r
}

/// Whether no name stands twice in a list.
pub open spec fn all_differ(list: Seq<Seq<char>>) -> bool {
    forall|i: int, j: int| 0 <= i < j < list.len() ==> #[trigger] list[i] != #[trigger] list[j]
}

proof fn lemma_joined_once(start: Seq<Seq<char>>, list: Seq<Seq<char>>)
    requires
        all_differ(start),
    ensures
        all_differ(joined_once(start, list)),
        forall|x: Seq<char>|
            #[trigger] joined_once(start, list).contains(x) <==> start.contains(x)
                || list.contains(x),
        start.len() <= joined_once(start, list).len(),
        joined_once(start, list).take(start.len() as int) == start,
    decreases list.len(),
{
    if list.len() == 0 {
        assert(start.take(start.len() as int) =~= start);
    } else {
        let init = list.drop_last();
        let before = joined_once(start, init);
        let r = joined_once(start, list);
        lemma_joined_once(start, init);
        assert forall|x: Seq<char>| #[trigger] r.contains(x) <==> start.contains(x)
            || list.contains(x) by {
            if r.contains(x) && !before.contains(x) {
                assert(x == list.last());
                assert(list[list.len() - 1] == x);
            }
            if r.contains(x) && init.contains(x) {
                let k = choose|k: int| 0 <= k < init.len() && init[k] == x;
                assert(list[k] == x);
            }
            if list.contains(x) {
                let k = choose|k: int| 0 <= k < list.len() && list[k] == x;
                if k < init.len() {
                    assert(init[k] == x);
                    assert(before.contains(x));
                }
            }
            if before.contains(x) {
                let k = choose|k: int| 0 <= k < before.len() && before[k] == x;
                assert(r[k] == x);
            } else if list.contains(x) {
                assert(r[before.len() as int] == x);
            }
        }
        assert(r.take(start.len() as int) =~= before.take(start.len() as int));
    }
}

proof fn lemma_spelled_is_listed(list: Seq<Seq<char>>, name: Seq<char>)
    ensures
        spelled(list, name) matches Some(s) ==> list.contains(s) && text::lower(s) == text::lower(
            name,
        ),
    decreases list.len(),
{
    if list.len() > 0 && text::lower(list[0]) != text::lower(name) {
        lemma_spelled_is_listed(list.skip(1), name);
        if let Some(s) = spelled(list, name) {
            let k = choose|k: int| 0 <= k < list.skip(1).len() && list.skip(1)[k] == s;
            assert(list[k + 1] == s);
        }
    }
}

proof fn lemma_asked_for_is_listed(preferred: Seq<Seq<char>>, list: Seq<Seq<char>>)
    ensures
        forall|x: Seq<char>| #[trigger] asked_for(preferred, list).contains(x) ==> list.contains(x),
    decreases preferred.len(),
{
    if preferred.len() > 0 {
        lemma_asked_for_is_listed(preferred.drop_last(), list);
        lemma_spelled_is_listed(list, preferred.last());
        assert forall|x: Seq<char>| #[trigger]
            asked_for(preferred, list).contains(x) implies list.contains(x) by {
            let before = asked_for(preferred.drop_last(), list);
            let all = asked_for(preferred, list);
            let k = choose|k: int| 0 <= k < all.len() && all[k] == x;
            if k < before.len() {
                assert(before[k] == x);
                assert(before.contains(x));
            }
        }
    }
}

/// The ranked models are those of the catalog, each once, whatever was asked for, and
/// those that were asked for come first.
pub proof fn law_ranking_keeps_the_catalog(preferred: Seq<Seq<char>>, catalog: Seq<Seq<char>>)
    ensures
        all_differ(ranked(preferred, catalog)),
        forall|x: Seq<char>|
            #[trigger] ranked(preferred, catalog).contains(x) <==> catalog.contains(x),
        ({
            let first = joined_once(Seq::empty(), asked_for(preferred, catalog));
            first.len() <= ranked(preferred, catalog).len() && ranked(preferred, catalog).take(
                first.len() as int,
            ) == first
        }),
{
    let asked = asked_for(preferred, catalog);
    let first = joined_once(Seq::empty(), asked);
    lemma_joined_once(Seq::empty(), asked);
    lemma_joined_once(first, catalog);
    lemma_asked_for_is_listed(preferred, catalog);
    assert forall|x: Seq<char>| #[trigger]
        ranked(preferred, catalog).contains(x) <==> catalog.contains(x) by {
        if first.contains(x) {
            assert(asked.contains(x));
        }
    }
}

// What is known of the models of a provider.

/// How many catalogs are kept.
pub const MODEL_CATALOG_CACHE_MAX_ENTRIES: usize = 32;

/// The catalog of a provider, and how long it may be used, in milliseconds.
pub struct ModelCatalogEntry {
    pub key: String,
    pub models: Vec<String>,
    pub fresh_until: u64,
    pub stale_until: u64,
}

/// What a `ModelCatalogEntry` is.
#[verifier::ext_equal]
pub struct CatalogEntryView {
    pub key: Seq<char>,
    pub models: Seq<Seq<char>>,
    pub fresh_until: int,
    pub stale_until: int,
}

impl ModelCatalogEntry {
    pub open spec fn view(&self) -> CatalogEntryView {
        CatalogEntryView {
            key: self.key@,
            models: text::texts(self.models@),
            fresh_until: self.fresh_until as int,
            stale_until: self.stale_until as int,
        }
    }
}

/// The views of a list of catalogs.
pub open spec fn catalog_views(v: Seq<ModelCatalogEntry>) -> Seq<CatalogEntryView> {
    Seq::new(v.len(), |i: int| v[i]@)
}

/// What a cache knows of a catalog.
#[derive(Debug, PartialEq, Eq)]
pub enum ModelCatalogCacheLookup {
    Fresh(Vec<String>),
    Stale(Vec<String>),
}

/// What a `ModelCatalogCacheLookup` is.
#[verifier::ext_equal]
pub enum LookupView {
    Fresh(Seq<Seq<char>>),
    Stale(Seq<Seq<char>>),
}

impl ModelCatalogCacheLookup {
    pub open spec fn view(&self) -> LookupView {
        match self {
            ModelCatalogCacheLookup::Fresh(v) => LookupView::Fresh(text::texts(v@)),
            ModelCatalogCacheLookup::Stale(v) => LookupView::Stale(text::texts(v@)),
        }
    }
}

/// A sum of times, up to the greatest number.
pub open spec fn later_by(a: int, b: int) -> int {
    if a + b <= u64::MAX {
        a + b
    } else {
        u64::MAX as int
    }
}

fn time_after(a: u64, b: u64) -> (r: u64)
    ensures
        r == later_by(a as int, b as int),
{
    if a <= u64::MAX - b {
        a + b
    } else {
        u64::MAX
    }
}

/// The catalogs without those of a key.
pub open spec fn without_key(e: Seq<CatalogEntryView>, key: Seq<char>) -> Seq<CatalogEntryView> {
    e.filter(|x: CatalogEntryView| x.key != key)
}

/// The catalogs that may still be used.
pub open spec fn usable(e: Seq<CatalogEntryView>, now: int) -> Seq<CatalogEntryView> {
    e.filter(|x: CatalogEntryView| now < x.stale_until)
}

/// The last entries of a list, at most `max` of them.
pub open spec fn newest<T>(e: Seq<T>, max: int) -> Seq<T> {
    if e.len() <= max {
        e
    } else {
        e.skip(e.len() - max)
    }
}

/// What is known of the catalog of a key.
pub open spec fn known_of(e: Seq<CatalogEntryView>, key: Seq<char>, now: int) -> Option<LookupView>
    decreases e.len(),
{
    if e.len() == 0 {
        None
    } else if e[0].key == key {
        if now < e[0].fresh_until {
            Some(LookupView::Fresh(e[0].models))
        } else {
            Some(LookupView::Stale(e[0].models))
        }
    } else {
        known_of(e.skip(1), key, now)
    }
}

/// The catalogs that were fetched, the oldest first.
pub struct ModelCatalogCache {
    entries: Vec<ModelCatalogEntry>,
}

impl Default for ModelCatalogCache {
    fn default() -> (r: ModelCatalogCache)
        ensures
            r@ == Seq::<CatalogEntryView>::empty(),
    {
        let r = ModelCatalogCache { entries: Vec::new() };
        assert(r@ =~= Seq::empty());
        r
    }
}

/// A copy of a list of texts.
fn copied(v: &Vec<String>) -> (r: Vec<String>)
    ensures
        text::texts(r@) == text::texts(v@),
{
    let mut r: Vec<String> = Vec::new();
    let mut i: usize = 0;
    while i < v.len()
        invariant
            i <= v@.len(),
            r@.len() == i,
            forall|k: int| 0 <= k < i ==> (#[trigger] r@[k])@ == v@[k]@,
        decreases v@.len() - i,
    {
        r.push(v[i].clone());
        i += 1;
    }
    assert(text::texts(r@) =~= text::texts(v@));
    r
}

proof fn lemma_filter_step<T>(s: Seq<T>, p: spec_fn(T) -> bool, i: int)
    requires
        0 <= i < s.len(),
    ensures
        s.take(i + 1).filter(p) == (if p(s[i]) {
            s.take(i).filter(p).push(s[i])
        } else {
            s.take(i).filter(p)
        }),
{
    assert(s.take(i + 1).drop_last() =~= s.take(i));
    reveal(Seq::filter);
}

/// What is kept of a list by what the items are is what is kept of what they are.
proof fn lemma_filter_views<T, V>(s: Seq<T>, shown: spec_fn(T) -> V, p: spec_fn(V) -> bool)
    ensures
        s.filter(|x: T| p(shown(x))).map_values(shown) == s.map_values(shown).filter(p),
    decreases s.len(),
{
    reveal(Seq::filter);
    let q = |x: T| p(shown(x));
    let views = s.map_values(shown);
    if s.len() > 0 {
        lemma_filter_views(s.drop_last(), shown, p);
        assert(views.drop_last() =~= s.drop_last().map_values(shown));
        let kept = s.drop_last().filter(q);
        assert(kept.push(s.last()).map_values(shown) =~= kept.map_values(shown).push(
            shown(s.last()),
        ));
    }
    assert(s.filter(q).map_values(shown) =~= views.filter(p));
}

/// Keeps the items for which `keep` says so, which is to say `p`.
fn retain_where<T, F: Fn(&T) -> bool>(v: &mut Vec<T>, keep: F, p: Ghost<spec_fn(T) -> bool>)
    requires
        forall|x: &T| #[trigger] keep.requires((x,)),
        forall|x: &T, b: bool| #[trigger] keep.ensures((x,), b) ==> b == p@(*x),
    ensures
        final(v)@ == old(v)@.filter(p@),
{
    let ghost all = v@;
    let mut rest: Vec<T> = Vec::new();
    std::mem::swap(&mut rest, v);
    let ghost mut i: int = 0;
    assert(v@ =~= all.take(0).filter(p@)) by {
        reveal(Seq::filter);
    }
    while rest.len() > 0
        invariant
            0 <= i <= all.len(),
            rest@ == all.skip(i),
            v@ == all.take(i).filter(p@),
            forall|x: &T| #[trigger] keep.requires((x,)),
            forall|x: &T, b: bool| #[trigger] keep.ensures((x,), b) ==> b == p@(*x),
        decreases rest@.len(),
    {
        proof {
            lemma_filter_step(all, p@, i);
        }
        let item = rest.remove(0);
        if keep(&item) {
            v.push(item);
        }
        proof {
            assert(rest@ =~= all.skip(i + 1));
            i = i + 1;
        }
    }
    assert(all.take(i) =~= all);
}

/// Drops the first items while there are more than `max`.
fn retain_newest<T>(v: &mut Vec<T>, max: usize)
    ensures
        final(v)@ == newest(old(v)@, max as int),
{
    let ghost all = v@;
    let ghost mut k: int = 0;
    assert(all.skip(0) =~= all);
    while v.len() > max
        invariant
            0 <= k <= all.len(),
            v@ == all.skip(k),
            k > 0 ==> k <= all.len() - max,
        decreases v@.len(),
    {
        let _ = v.remove(0);
        proof {
            assert(v@ =~= all.skip(k + 1));
            k = k + 1;
        }
    }
}

impl ModelCatalogCache {
    pub closed spec fn view(&self) -> Seq<CatalogEntryView> {
        catalog_views(self.entries@)
    }

    /// How many catalogs are kept.
    pub fn len(&self) -> (r: usize)
        ensures
            r == self@.len(),
    {
        self.entries.len()
    }

    fn drop_key(&mut self, key: &str)
        ensures
            final(self)@ == without_key(old(self)@, key@),
    {
        let ghost all = self.entries@;
        let ghost shown = |x: ModelCatalogEntry| x@;
        let ghost keep = |x: CatalogEntryView| x.key != key@;
        let ghost kept = |x: ModelCatalogEntry| keep(shown(x));
        let test = |x: &ModelCatalogEntry| -> (b: bool)
            ensures
                b == (x.key@ != key@),
        {
            !same(x.key.as_str(), key)
        };
        retain_where(&mut self.entries, test, Ghost(kept));
        proof {
            lemma_filter_views(all, shown, keep);
            assert(catalog_views(all) =~= all.map_values(shown));
            assert(catalog_views(self.entries@) =~= self.entries@.map_values(shown));
        }
    }

    fn drop_expired(&mut self, now: u64)
        ensures
            final(self)@ == usable(old(self)@, now as int),
    {
        let ghost all = self.entries@;
        let ghost shown = |x: ModelCatalogEntry| x@;
        let ghost keep = |x: CatalogEntryView| (now as int) < x.stale_until;
        let ghost kept = |x: ModelCatalogEntry| keep(shown(x));
        let test = |x: &ModelCatalogEntry| -> (b: bool)
            ensures
                b == (now < x.stale_until),
        {
            now < x.stale_until
        };
        retain_where(&mut self.entries, test, Ghost(kept));
        proof {
            lemma_filter_views(all, shown, keep);
            assert(catalog_views(all) =~= all.map_values(shown));
            assert(catalog_views(self.entries@) =~= self.entries@.map_values(shown));
        }
    }

    /// Keeps a catalog: it is fresh for `ttl` and may be used for `stale_grace` more. Of
    /// more than `max_entries` catalogs the oldest go.
    pub fn put(
        &mut self,
        key: String,
        models: Vec<String>,
        now: u64,
        ttl: u64,
        stale_grace: u64,
        max_entries: usize,
    )
        ensures
            final(self)@ == newest(
                without_key(old(self)@, key@).push(
                    CatalogEntryView {
                        key: key@,
                        models: text::texts(models@),
                        fresh_until: later_by(now as int, ttl as int),
                        stale_until: later_by(
                            later_by(now as int, ttl as int),
                            stale_grace as int,
                        ),
                    },
                ),
                max_entries as int,
            ),
    {
        self.drop_key(key.as_str());
        let fresh_until: u64 = time_after(now, ttl);
        let stale_until: u64 = time_after(fresh_until, stale_grace);
        let entry = ModelCatalogEntry { key, models, fresh_until, stale_until };
        let ghost shown = entry@;
        let ghost before = self.entries@;
        self.entries.push(entry);
        assert(catalog_views(self.entries@) =~= catalog_views(before).push(shown));
        let ghost all = self.entries@;
        retain_newest(&mut self.entries, max_entries);
        assert(catalog_views(self.entries@) =~= newest(catalog_views(all), max_entries as int));
    }

    /// What is known of the catalog of a key. Catalogs that may no longer be used go.
    pub fn lookup(&mut self, key: &str, now: u64) -> (r: Option<ModelCatalogCacheLookup>)
        ensures
            final(self)@ == usable(old(self)@, now as int),
            (match r {
                Some(l) => known_of(usable(old(self)@, now as int), key@, now as int) == Some(l@),
                None => known_of(usable(old(self)@, now as int), key@, now as int) is None,
            }),
    {
        self.drop_expired(now);
        let v = &self.entries;
        let ghost all = catalog_views(v@);
        let mut i: usize = 0;
        assert(all.skip(0) =~= all);
        while i < v.len()
            invariant
                i <= v@.len(),
                all == catalog_views(v@),
                known_of(all, key@, now as int) == known_of(all.skip(i as int), key@, now as int),
                all == usable(old(self)@, now as int),
                self@ == all,
            decreases v@.len() - i,
        {
            assert(all.skip(i as int)[0] == v@[i as int]@);
            assert(all.skip(i as int).skip(1) =~= all.skip(i + 1));
            if same(v[i].key.as_str(), key) {
                let models = copied(&v[i].models);
                if now < v[i].fresh_until {
                    return Some(ModelCatalogCacheLookup::Fresh(models));
                }
                return Some(ModelCatalogCacheLookup::Stale(models));
            }
            i += 1;
        }
        None
    }
}

proof fn lemma_no_key_without_key(e: Seq<CatalogEntryView>, key: Seq<char>)
    ensures
        forall|i: int|
            0 <= i < without_key(e, key).len() ==> (#[trigger] without_key(e, key)[i]).key != key,
{
    broadcast use vstd::seq_lib::group_filter_ensures;

    let keep = |x: CatalogEntryView| x.key != key;
    assert forall|i: int| 0 <= i < without_key(e, key).len() implies (#[trigger] without_key(
        e,
        key,
    )[i]).key != key by {
        assert(keep(e.filter(keep)[i]));
    }
}

proof fn lemma_known_of_last(e: Seq<CatalogEntryView>, x: CatalogEntryView, now: int)
    requires
        forall|i: int| 0 <= i < e.len() ==> (#[trigger] e[i]).key != x.key,
    ensures
        known_of(e.push(x), x.key, now) == known_of(seq![x], x.key, now),
    decreases e.len(),
{
    if e.len() == 0 {
        assert(e.push(x) =~= seq![x]);
    } else {
        assert(e.push(x).skip(1) =~= e.skip(1).push(x));
        assert forall|i: int| 0 <= i < e.skip(1).len() implies (#[trigger] e.skip(1)[i]).key
            != x.key by {
            assert(e.skip(1)[i] == e[i + 1]);
        }
        assert(e.push(x)[0] == e[0]);
        lemma_known_of_last(e.skip(1), x, now);
    }
}

/// A catalog that was put down is found: fresh within its time, stale within its grace,
/// and not at all afterwards.
pub proof fn law_catalog_is_found_in_its_time(
    e: Seq<CatalogEntryView>,
    x: CatalogEntryView,
    now: int,
    max: int,
)
    requires
        max >= 1,
        x.fresh_until <= x.stale_until,
    ensures
        ({
            let kept = usable(newest(without_key(e, x.key).push(x), max), now);
            known_of(kept, x.key, now) == (if now < x.fresh_until {
                Some(LookupView::Fresh(x.models))
            } else if now < x.stale_until {
                Some(LookupView::Stale(x.models))
            } else {
                None
            })
        }),
{
    broadcast use vstd::seq_lib::group_filter_ensures;

    let rest = without_key(e, x.key);
    let all = rest.push(x);
    let n = newest(all, max);
    let before = n.drop_last();
    let keep = |y: CatalogEntryView| now < y.stale_until;
    assert(n.last() == x);
    assert(n =~= before.push(x));
    lemma_no_key_without_key(e, x.key);
    let f = before.filter(keep);
    assert forall|i: int| 0 <= i < f.len() implies (#[trigger] f[i]).key != x.key by {
        before.lemma_filter_contains_rev(keep, f[i]);
        let k = choose|k: int| 0 <= k < before.len() && before[k] == f[i];
        if rest.len() + 1 <= max {
            assert(before[k] == rest[k]);
        } else {
            assert(before[k] == rest[k + rest.len() + 1 - max]);
        }
    }
    assert(n.filter(keep) == (if keep(x) {
        f.push(x)
    } else {
        f
    })) by {
        reveal(Seq::filter);
        assert(n.drop_last() =~= before);
    }
    if keep(x) {
        lemma_known_of_last(f, x, now);
    } else {
        lemma_unknown(f, x.key, now);
    }
    assert(seq![x].skip(1) =~= Seq::empty());
}

proof fn lemma_unknown(e: Seq<CatalogEntryView>, key: Seq<char>, now: int)
    requires
        forall|i: int| 0 <= i < e.len() ==> (#[trigger] e[i]).key != key,
    ensures
        known_of(e, key, now) is None,
    decreases e.len(),
{
    if e.len() > 0 {
        assert forall|i: int| 0 <= i < e.skip(1).len() implies (#[trigger] e.skip(1)[i]).key
            != key by {
            assert(e.skip(1)[i] == e[i + 1]);
        }
        lemma_unknown(e.skip(1), key, now);
    }
}

// Models that rest.

/// How many resting models are kept in mind.
pub const MODEL_CANDIDATE_COOLDOWN_CACHE_MAX_ENTRIES: usize = 256;

/// A model that rests after it failed, until a time in milliseconds.
#[derive(Debug)]
pub struct ModelCandidateCooldownEntry {
    pub key: String,
    pub reason: ProviderFailoverReason,
    pub failure_count: u32,
    pub expires_at: u64,
}

/// What a `ModelCandidateCooldownEntry` is.
#[verifier::ext_equal]
pub struct CooldownView {
    pub key: Seq<char>,
    pub reason: ProviderFailoverReason,
    pub failure_count: int,
    pub expires_at: int,
}

impl ModelCandidateCooldownEntry {
    pub open spec fn view(&self) -> CooldownView {
        CooldownView {
            key: self.key@,
            reason: self.reason,
            failure_count: self.failure_count as int,
            expires_at: self.expires_at as int,
        }
    }
}

/// The views of a list of resting models.
pub open spec fn cooldown_views(v: Seq<ModelCandidateCooldownEntry>) -> Seq<CooldownView> {
    Seq::new(v.len(), |i: int| v[i]@)
}

/// How long a model rests after a number of failures in a row: twice as long each time,
/// up to a limit.
pub open spec fn rest_time(base: int, max: int, failures: int) -> int
    decreases failures,
{
    let t = if failures <= 1 {
        base
    } else {
        2 * rest_time(base, max, failures - 1)
    };
    if t <= max {
        t
    } else {
        max
    }
}

/// A model rests no longer than the limit, and no shorter after more failures.
pub proof fn law_rest_grows_up_to_the_limit(base: int, max: int, failures: int)
    requires
        0 <= base,
        0 <= max,
        failures >= 1,
    ensures
        0 <= rest_time(base, max, failures) <= max,
        rest_time(base, max, failures) <= rest_time(base, max, failures + 1),
    decreases failures,
{
    if failures > 1 {
        law_rest_grows_up_to_the_limit(base, max, failures - 1);
    }
}

proof fn lemma_rest_stays(base: int, max: int, from: int, to: int)
    requires
        0 <= base,
        0 <= max,
        1 <= from <= to,
        rest_time(base, max, from) == 0 || rest_time(base, max, from) == max,
    ensures
        rest_time(base, max, to) == rest_time(base, max, from),
    decreases to - from,
{
    if from < to {
        law_rest_grows_up_to_the_limit(base, max, from);
        lemma_rest_stays(base, max, from + 1, to);
    }
}

fn cooldown_for(base: u64, max: u64, failures: u32) -> (r: u64)
    requires
        failures >= 1,
    ensures
        r == rest_time(base as int, max as int, failures as int),
{
    let mut t: u64 = if base <= max {
        base
    } else {
        max
    };
    let mut n: u32 = 1;
    while n < failures
        invariant
            1 <= n <= failures,
            t == rest_time(base as int, max as int, n as int),
        decreases failures - n,
    {
        if t == 0 || t == max {
            proof {
                lemma_rest_stays(base as int, max as int, n as int, failures as int);
            }
            return t;
        }
        t = if t <= max / 2 {
            t * 2
        } else {
            max
        };
        n += 1;
    }
    t
}

/// The models that rest, those that failed longest ago first.
pub struct ModelCandidateCooldownCache {
    entries: Vec<ModelCandidateCooldownEntry>,
}

impl Default for ModelCandidateCooldownCache {
    fn default() -> (r: ModelCandidateCooldownCache)
        ensures
            r@ == Seq::<CooldownView>::empty(),
    {
        let r = ModelCandidateCooldownCache { entries: Vec::new() };
        assert(r@ =~= Seq::empty());
        r
    }
}

/// What is known of a model that rests.
pub open spec fn resting(e: Seq<CooldownView>, key: Seq<char>, now: int) -> Option<CooldownView>
    decreases e.len(),
{
    if e.len() == 0 {
        None
    } else if e[0].key == key {
        if now < e[0].expires_at {
            Some(e[0])
        } else {
            None
        }
    } else {
        resting(e.skip(1), key, now)
    }
}

/// How often a model has failed in a row, with a failure now.
pub open spec fn failures_with(e: Seq<CooldownView>, key: Seq<char>, now: int) -> int {
    match resting(e, key, now) {
        Some(x) => if x.failure_count < u32::MAX {
            x.failure_count + 1
        } else {
            x.failure_count
        },
        None => 1,
    }
}

/// The models without those of a key.
pub open spec fn others(e: Seq<CooldownView>, key: Seq<char>) -> Seq<CooldownView> {
    e.filter(|x: CooldownView| x.key != key)
}

impl ModelCandidateCooldownCache {
    pub closed spec fn view(&self) -> Seq<CooldownView> {
        cooldown_views(self.entries@)
    }

    /// What is known of a model that rests.
    pub fn lookup_active(&self, key: &str, now: u64) -> (r: Option<&ModelCandidateCooldownEntry>)
        ensures
            (match r {
                Some(x) => resting(self@, key@, now as int) == Some(x@),
                None => resting(self@, key@, now as int) is None,
            }),
    {
        let v = &self.entries;
        let ghost all = cooldown_views(v@);
        let mut i: usize = 0;
        assert(all.skip(0) =~= all);
        while i < v.len()
            invariant
                i <= v@.len(),
                all == cooldown_views(v@),
                self@ == all,
                resting(all, key@, now as int) == resting(all.skip(i as int), key@, now as int),
            decreases v@.len() - i,
        {
            assert(all.skip(i as int)[0] == v@[i as int]@);
            assert(all.skip(i as int).skip(1) =~= all.skip(i + 1));
            if same(v[i].key.as_str(), key) {
                if now < v[i].expires_at {
                    return Some(&v[i]);
                }
                return None;
            }
            i += 1;
        }
        None
    }

    fn drop_key(&mut self, key: &str)
        ensures
            final(self)@ == others(old(self)@, key@),
    {
        let ghost all = self.entries@;
        let ghost shown = |x: ModelCandidateCooldownEntry| x@;
        let ghost keep = |x: CooldownView| x.key != key@;
        let ghost kept = |x: ModelCandidateCooldownEntry| keep(shown(x));
        let test = |x: &ModelCandidateCooldownEntry| -> (b: bool)
            ensures
                b == (x.key@ != key@),
        {
            !same(x.key.as_str(), key)
        };
        retain_where(&mut self.entries, test, Ghost(kept));
        proof {
            lemma_filter_views(all, shown, keep);
            assert(cooldown_views(all) =~= all.map_values(shown));
            assert(cooldown_views(self.entries@) =~= self.entries@.map_values(shown));
        }
    }

    /// Lets a model rest after it failed: `base` after the first failure, and twice as
    /// long for every failure while it rests, up to `max`. Of more than `max_entries`
    /// models the oldest go.
    pub fn put(
        &mut self,
        key: String,
        reason: ProviderFailoverReason,
        now: u64,
        base: u64,
        max: u64,
        max_entries: usize,
    )
        ensures
            final(self)@ == newest(
                others(old(self)@, key@).push(
                    CooldownView {
                        key: key@,
                        reason,
                        failure_count: failures_with(old(self)@, key@, now as int),
                        expires_at: later_by(
                            now as int,
                            rest_time(
                                base as int,
                                max as int,
                                failures_with(old(self)@, key@, now as int),
                            ),
                        ),
                    },
                ),
                max_entries as int,
            ),
    {
        let failures: u32 = match self.lookup_active(key.as_str(), now) {
            Some(x) => if x.failure_count < u32::MAX {
                x.failure_count + 1
            } else {
                x.failure_count
            },
            None => 1,
        };
        self.drop_key(key.as_str());
        let rest: u64 = cooldown_for(base, max, failures);
        let entry = ModelCandidateCooldownEntry {
            key,
            reason,
            failure_count: failures,
            expires_at: time_after(now, rest),
        };
        let ghost shown = entry@;
        let ghost before = self.entries@;
        self.entries.push(entry);
        assert(cooldown_views(self.entries@) =~= cooldown_views(before).push(shown));
        let ghost all = self.entries@;
        retain_newest(&mut self.entries, max_entries);
        assert(cooldown_views(self.entries@) =~= newest(cooldown_views(all), max_entries as int));
    }
}

/// Which models rest, and for how long, in milliseconds.
pub struct ModelCandidateCooldownPolicy {
    pub namespace: String,
    pub cooldown: u64,
    pub max_cooldown: u64,
    pub max_entries: usize,
}

/// The key of a model.
pub open spec fn model_key(namespace: Seq<char>, model: Seq<char>) -> Seq<char> {
    namespace + "::"@ + model
}

/// Whether another model may do better after a failure.
pub open spec fn asks_for_another_model(reason: ProviderFailoverReason) -> bool {
    reason == ProviderFailoverReason::ModelMismatch
}

/// Lets a model rest after it failed, where another model may do better.
pub fn register_model_candidate_cooldown(
    cache: &mut ModelCandidateCooldownCache,
    policy: &ModelCandidateCooldownPolicy,
    model: &str,
    reason: ProviderFailoverReason,
    now: u64,
)
    ensures
        final(cache)@ == (if asks_for_another_model(reason) {
            let key = model_key(policy.namespace@, model@);
            newest(
                others(old(cache)@, key).push(
                    CooldownView {
                        key,
                        reason,
                        failure_count: failures_with(old(cache)@, key, now as int),
                        expires_at: later_by(
                            now as int,
                            rest_time(
                                policy.cooldown as int,
                                policy.max_cooldown as int,
                                failures_with(old(cache)@, key, now as int),
                            ),
                        ),
                    },
                ),
                policy.max_entries as int,
            )
        } else {
            old(cache)@
        }),
{
    if reason == ProviderFailoverReason::ModelMismatch {
        let key = cat3(policy.namespace.as_str(), "::", model);
        cache.put(
            key,
            reason,
            now,
            policy.cooldown,
            policy.max_cooldown,
            policy.max_entries,
        );
    }
}

/// The models of a list that rest, or that do not.
pub open spec fn those(
    list: Seq<Seq<char>>,
    e: Seq<CooldownView>,
    namespace: Seq<char>,
    now: int,
    rest: bool,
) -> Seq<Seq<char>>
    decreases list.len(),
{
    if list.len() == 0 {
        Seq::empty()
    } else {
        let before = those(list.drop_last(), e, namespace, now, rest);
        if (resting(e, model_key(namespace, list.last()), now) is Some) == rest {
            before.push(list.last())
        } else {
            before
        }
    }
}

/// The models to try in their order, with those that rest behind the others.
pub fn prioritize_model_candidates_by_cooldown(
    candidates: &Vec<String>,
    cache: &ModelCandidateCooldownCache,
    policy: Option<&ModelCandidateCooldownPolicy>,
    now: u64,
) -> (r: Vec<String>)
    ensures
        text::texts(r@) == (match policy {
            Some(p) => those(
                text::texts(candidates@),
                cache@,
                p.namespace@,
                now as int,
                false,
            ) + those(text::texts(candidates@), cache@, p.namespace@, now as int, true),
            None => text::texts(candidates@),
        }),
{
    let p = match policy {
        Some(p) => p,
        None => {
            return copied(candidates);
        },
    };
    let ghost all = text::texts(candidates@);
    let mut ready: Vec<String> = Vec::new();
    let mut resting_models: Vec<String> = Vec::new();
    let mut i: usize = 0;
    assert(all.take(0) =~= Seq::empty());
    assert(text::texts(ready@) =~= Seq::empty());
    assert(text::texts(resting_models@) =~= Seq::empty());
    while i < candidates.len()
        invariant
            i <= candidates@.len(),
            all == text::texts(candidates@),
            text::texts(ready@) == those(
                all.take(i as int),
                cache@,
                p.namespace@,
                now as int,
                false,
            ),
            text::texts(resting_models@) == those(
                all.take(i as int),
                cache@,
                p.namespace@,
                now as int,
                true,
            ),
        decreases candidates@.len() - i,
    {
        assert(all.take(i + 1).drop_last() =~= all.take(i as int));
        assert(all.take(i + 1).last() == candidates@[i as int]@);
        let key = cat3(p.namespace.as_str(), "::", candidates[i].as_str());
        let s = candidates[i].clone();
        if cache.lookup_active(key.as_str(), now).is_some() {
            proof {
                text::lemma_texts_push(resting_models@, s);
            }
            resting_models.push(s);
        } else {
            proof {
                text::lemma_texts_push(ready@, s);
            }
            ready.push(s);
        }
        i += 1;
    }
    assert(all.take(i as int) =~= all);
    let ghost first = text::texts(ready@);
    let ghost second = text::texts(resting_models@);
    let mut k: usize = 0;
    assert(first + second.take(0) =~= first);
    while k < resting_models.len()
        invariant
            k <= resting_models@.len(),
            second == text::texts(resting_models@),
            text::texts(ready@) == first + second.take(k as int),
        decreases resting_models@.len() - k,
    {
        let s = resting_models[k].clone();
        proof {
            text::lemma_texts_push(ready@, s);
            assert(second.take(k + 1) =~= second.take(k as int).push(s@));
            assert(first + second.take(k + 1) =~= (first + second.take(k as int)).push(s@));
        }
        ready.push(s);
        k += 1;
    }
    assert(second.take(k as int) =~= second);
    ready
}

/// No model is lost or added for resting: the two parts hold all models of the list.
pub proof fn law_resting_keeps_all_models(
    list: Seq<Seq<char>>,
    e: Seq<CooldownView>,
    namespace: Seq<char>,
    now: int,
)
    ensures
        (those(list, e, namespace, now, false) + those(
            list,
            e,
            namespace,
            now,
            true,
        )).to_multiset() =~= list.to_multiset(),
    decreases list.len(),
{
    broadcast use vstd::seq_lib::group_to_multiset_ensures;

    if list.len() == 0 {
        assert(those(list, e, namespace, now, false) + those(list, e, namespace, now, true)
            =~= list);
    } else {
        let init = list.drop_last();
        let x = list.last();
        law_resting_keeps_all_models(init, e, namespace, now);
        let a = those(init, e, namespace, now, false);
        let b = those(init, e, namespace, now, true);
        assert(list =~= init.push(x));
        vstd::seq_lib::lemma_multiset_commutative(a, b);
        if resting(e, model_key(namespace, x), now) is Some {
            assert(a + b.push(x) =~= (a + b).push(x));
        } else {
            vstd::seq_lib::lemma_multiset_commutative(a.push(x), b);
            assert((a.push(x) + b).to_multiset() =~= (a + b).to_multiset().insert(x));
        }
    }
}

} // verus!
