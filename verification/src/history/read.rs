//! Queries over the store: what is known of a place, which URLs were
//! visited, how many visits there are, and pages of visits for display.

use crate::history::history_sync::{frecency_key, recency_key};
use crate::history::prune::age_key;
use crate::model::{has_visit_id, lemma_visits_fit, PlaceView, StoreView, VisitView};
use crate::outside::{host_of, url_host};
use crate::seq_util::{
    at_most, key_leq, lemma_filter_take_succ, lemma_position, lemma_position_first, lemma_take_succ,
    position, sort_keys, Keyed,
};
use crate::store::{clone_opt_string, opt_text, str_eq, texts_view, HistoryStore};
use crate::text::{spec_starts_with, starts_with};
use crate::types::{RowId, SyncStatus, Timestamp, VisitTransitionSet, VisitType};
use vstd::prelude::*;

verus! {

/// What the store knows of a place, with the counts and times that follow
/// from its visits.
#[derive(Debug)]
pub struct PageInfo {
    pub url: String,
    pub guid: String,
    pub row_id: RowId,
    pub title: String,
    pub hidden: bool,
    pub preview_image_url: Option<String>,
    pub typed: u32,
    pub frecency: i32,
    pub visit_count_local: u64,
    pub visit_count_remote: u64,
    pub last_visit_date_local: Timestamp,
    pub last_visit_date_remote: Timestamp,
    pub sync_status: SyncStatus,
    pub sync_change_counter: u32,
    pub unknown_fields: Option<String>,
}

/// A place with the row identifier of its latest visit.
#[derive(Debug)]
pub struct FetchedPageInfo {
    pub page: PageInfo,
    pub last_visit_id: Option<RowId>,
}

/// What the store knows of a place, as plain values.
pub struct PageInfoView {
    pub place: PlaceView,
    pub visit_count_local: nat,
    pub visit_count_remote: nat,
    pub last_visit_date_local: u64,
    pub last_visit_date_remote: u64,
}

impl View for PageInfo {
    type V = PageInfoView;

    open spec fn view(&self) -> PageInfoView {
        PageInfoView {
            place: PlaceView {
                row_id: self.row_id.0,
                guid: self.guid@,
                url: self.url@,
                title: self.title@,
                preview_image_url: opt_text(self.preview_image_url),
                hidden: self.hidden,
                typed: self.typed,
                frecency: self.frecency,
                sync_status: self.sync_status,
                sync_change_counter: self.sync_change_counter,
                foreign_count: 0,
                unknown_fields: opt_text(self.unknown_fields),
            },
            visit_count_local: self.visit_count_local as nat,
            visit_count_remote: self.visit_count_remote as nat,
            last_visit_date_local: self.last_visit_date_local.0,
            last_visit_date_remote: self.last_visit_date_remote.0,
        }
    }
}

/// True for the visits of a place that began on this device, or for those
/// that began elsewhere.
pub open spec fn visit_by(place_id: i64, is_local: bool) -> spec_fn(VisitView) -> bool {
    |v: VisitView| v.place_id == place_id && v.is_local == is_local
}

/// Number of visits of the place, by where they began.
pub open spec fn spec_visit_count(s: StoreView, place_id: i64, is_local: bool) -> nat {
    s.visits.filter(visit_by(place_id, is_local)).len()
}

/// The latest time among those of the first `n` visits that `keep` holds
/// of, zero where there is none.
pub open spec fn latest_where(
    visits: Seq<VisitView>,
    keep: spec_fn(VisitView) -> bool,
    n: nat,
) -> u64
    decreases n,
{
    if n == 0 || n > visits.len() {
        0
    } else {
        let before = latest_where(visits, keep, (n - 1) as nat);
        if keep(visits[n - 1]) && visits[n - 1].visit_date > before {
            visits[n - 1].visit_date
        } else {
            before
        }
    }
}

/// The time of the latest visit of the place, by where it began.
pub open spec fn spec_last_visit_date(s: StoreView, place_id: i64, is_local: bool) -> u64 {
    latest_where(s.visits, visit_by(place_id, is_local), s.visits.len())
}

/// True for the visits of the place at one of the two instants.
pub open spec fn visit_at_either(place_id: i64, a: u64, b: u64) -> spec_fn(VisitView) -> bool {
    |v: VisitView| v.place_id == place_id && (v.visit_date == a || v.visit_date == b)
}

/// What the store knows of the place at `idx`. The count of references to
/// the place is not handed out.
pub open spec fn spec_page_info(s: StoreView, idx: int) -> PageInfoView {
    let p = s.places[idx];
    PageInfoView {
        place: PlaceView { foreign_count: 0, ..p },
        visit_count_local: spec_visit_count(s, p.row_id, true),
        visit_count_remote: spec_visit_count(s, p.row_id, false),
        last_visit_date_local: spec_last_visit_date(s, p.row_id, true),
        last_visit_date_remote: spec_last_visit_date(s, p.row_id, false),
    }
}

/// The row identifier of the first recorded visit of the place that is of
/// the time of its latest local or its latest remote visit.
pub open spec fn spec_last_visit_id(s: StoreView, place_id: i64) -> Option<i64> {
    match position(
        s.visits,
        visit_at_either(
            place_id,
            spec_last_visit_date(s, place_id, true),
            spec_last_visit_date(s, place_id, false),
        ),
    ) {
        Some(i) => Some(s.visits[i].id),
        None => None,
    }
}

/// Counts the visits of a place and finds the latest, by where they began.
fn tally(store: &HistoryStore, place_id: RowId, is_local: bool) -> (r: (u64, Timestamp))
    ensures
        r.0 == spec_visit_count(store@, place_id.0, is_local),
        r.1.0 == spec_last_visit_date(store@, place_id.0, is_local),
{
    let ghost src = store@.visits;
    let ghost keep = visit_by(place_id.0, is_local);
    let mut count: u64 = 0;
    let mut latest: u64 = 0;
    let mut i: usize = 0;
    while i < store.visits().len()
        invariant
            i <= src.len(),
            src == store@.visits,
            keep == visit_by(place_id.0, is_local),
            count == src.take(i as int).filter(keep).len(),
            count <= i,
            latest == latest_where(src, keep, i as nat),
        decreases src.len() - i,
    {
        proof {
            lemma_filter_take_succ(src, keep, i as int);
        }
        let v = &store.visits()[i];
        if v.place_id.0 == place_id.0 && v.is_local == is_local {
            count += 1;
            if v.visit_date.0 > latest {
                latest = v.visit_date.0;
            }
        }
        i += 1;
    }
    proof {
        assert(src.take(src.len() as int) =~= src);
    }
    (count, Timestamp(latest))
}

/// What the store knows of the place of `url`, or nothing where it has no
/// such place.
pub fn fetch_page_info(store: &HistoryStore, url: &str) -> (r: Option<FetchedPageInfo>)
    ensures
        match store@.place_by_url(url@) {
            Some(idx) => {
                &&& r matches Some(info)
                &&& info.page@ == spec_page_info(store@, idx)
                &&& spec_last_visit_id(store@, store@.places[idx].row_id) == match info.last_visit_id {
                    Some(id) => Some(id.0),
                    None => None,
                }
            },
            None => r is None,
        },
{
    let idx = match store.find_place_by_url(url) {
        Some(i) => i,
        None => {
            return None;
        },
    };
    let p = &store.places()[idx];
    let (count_local, last_local) = tally(store, p.row_id, true);
    let (count_remote, last_remote) = tally(store, p.row_id, false);
    let ghost hit = visit_at_either(p.row_id.0, last_local.0, last_remote.0);
    let mut last_visit_id: Option<RowId> = None;
    let mut i: usize = 0;
    while i < store.visits().len() && last_visit_id.is_none()
        invariant
            i <= store@.visits.len(),
            hit == visit_at_either(p.row_id.0, last_local.0, last_remote.0),
            match last_visit_id {
                Some(id) => position(store@.visits, hit) == Some(i - 1) && store@.visits[i
                    - 1].id == id.0,
                None => forall|j: int| 0 <= j < i ==> !hit(#[trigger] store@.visits[j]),
            },
        decreases store@.visits.len() - i,
    {
        let v = &store.visits()[i];
        if v.place_id.0 == p.row_id.0 && (v.visit_date.0 == last_local.0 || v.visit_date.0
            == last_remote.0) {
            last_visit_id = Some(v.id);
            proof {
                lemma_position_first(store@.visits, hit, i as int);
            }
        }
        i += 1;
    }
    proof {
        if last_visit_id is None {
            lemma_position(store@.visits, hit);
        }
    }
    Some(
        FetchedPageInfo {
            page: PageInfo {
                url: p.url.clone(),
                guid: p.guid.clone(),
                row_id: p.row_id,
                title: p.title.clone(),
                hidden: p.hidden,
                preview_image_url: clone_opt_string(&p.preview_image_url),
                typed: p.typed,
                frecency: p.frecency,
                visit_count_local: count_local,
                visit_count_remote: count_remote,
                last_visit_date_local: last_local,
                last_visit_date_remote: last_remote,
                sync_status: p.sync_status,
                sync_change_counter: p.sync_change_counter,
                unknown_fields: clone_opt_string(&p.unknown_fields),
            },
            last_visit_id,
        },
    )
}

/// The GUID of the place with the given URL.
pub open spec fn spec_url_to_guid(s: StoreView, url: Seq<char>) -> Option<Seq<char>> {
    match s.place_by_url(url) {
        Some(i) => Some(s.places[i].guid),
        None => None,
    }
}

/// Returns the GUID for the specified URL, or nothing if the store has no
/// place for it.
pub fn href_to_guid(store: &HistoryStore, url: &str) -> (r: Option<String>)
    ensures
        opt_text(r) == spec_url_to_guid(store@, url@),
{
    match store.find_place_by_url(url) {
        Some(i) => Some(store.places()[i].guid.clone()),
        None => None,
    }
}

/// Returns the GUID for the specified URL, or nothing if the store has no
/// place for it.
pub fn url_to_guid(store: &HistoryStore, url: &str) -> (r: Option<String>)
    ensures
        opt_text(r) == spec_url_to_guid(store@, url@),
{
    href_to_guid(store, url)
}

/// True when the URL has a place with a visit left.
pub open spec fn spec_visited(s: StoreView, url: Seq<char>) -> bool {
    match s.place_by_url(url) {
        Some(i) => s.has_visits(s.places[i].row_id),
        None => false,
    }
}

/// Whether the URL has a place with a visit left.
fn is_visited(store: &HistoryStore, url: &str) -> (r: bool)
    ensures
        r == spec_visited(store@, url@),
{
    match store.find_place_by_url(url) {
        Some(i) => store.has_visits(store.places()[i].row_id),
        None => false,
    }
}

/// For each URL, whether it was visited.
pub fn get_visited(store: &HistoryStore, urls: &Vec<String>) -> (r: Vec<bool>)
    ensures
        r@.len() == urls@.len(),
        forall|i: int| 0 <= i < urls@.len() ==> r@[i] == spec_visited(store@, (#[trigger] urls@[i])@),
{
    let mut result: Vec<bool> = Vec::new();
    let mut i: usize = 0;
    while i < urls.len()
        invariant
            i <= urls@.len(),
            result@.len() == i,
            forall|k: int|
                0 <= k < i ==> result@[k] == spec_visited(store@, (#[trigger] urls@[k])@),
        decreases urls.len() - i,
    {
        result.push(is_visited(store, urls[i].as_str()));
        i += 1;
    }
    result
}

/// True when one of the first `n` requests asks about the slot `slot` with a
/// visited URL.
pub open spec fn asked_and_visited(
    s: StoreView,
    urls_idxs: Seq<(usize, String)>,
    slot: int,
    n: int,
) -> bool {
    exists|k: int|
        0 <= k < n && k < urls_idxs.len() && (#[trigger] urls_idxs[k]).0 == slot && spec_visited(
            s,
            urls_idxs[k].1@,
        )
}

/// Sets the slot of each request whose URL was visited. Slots that no
/// request names, or whose URLs were not visited, stay as they are. Each
/// request names a slot of `result`.
pub fn get_visited_into(
    store: &HistoryStore,
    urls_idxs: &Vec<(usize, String)>,
    result: &mut Vec<bool>,
)
    requires
        forall|k: int| 0 <= k < urls_idxs@.len() ==> (#[trigger] urls_idxs@[k]).0 < old(result)@.len(),
    ensures
        final(result)@.len() == old(result)@.len(),
        forall|slot: int|
            0 <= slot < old(result)@.len() ==> (#[trigger] final(result)@[slot]) == (old(
                result,
            )@[slot] || asked_and_visited(store@, urls_idxs@, slot, urls_idxs@.len() as int)),
{
    let mut i: usize = 0;
    while i < urls_idxs.len()
        invariant
            i <= urls_idxs@.len(),
            result@.len() == old(result)@.len(),
            forall|k: int|
                0 <= k < urls_idxs@.len() ==> (#[trigger] urls_idxs@[k]).0 < result@.len(),
            forall|slot: int|
                0 <= slot < result@.len() ==> (#[trigger] result@[slot]) == (old(result)@[slot]
                    || asked_and_visited(store@, urls_idxs@, slot, i as int)),
        decreases urls_idxs.len() - i,
    {
        let ghost before = result@;
        let slot = urls_idxs[i].0;
        let seen = is_visited(store, urls_idxs[i].1.as_str());
        if seen {
            result.set(slot, true);
        }
        proof {
            assert forall|t: int| 0 <= t < result@.len() implies (#[trigger] result@[t]) == (old(
                result,
            )@[t] || asked_and_visited(store@, urls_idxs@, t, i + 1)) by {
                if asked_and_visited(store@, urls_idxs@, t, i + 1) {
                    let k = choose|k: int|
                        0 <= k < i + 1 && k < urls_idxs@.len() && (#[trigger] urls_idxs@[k]).0 == t
                            && spec_visited(store@, urls_idxs@[k].1@);
                    if k < i {
                        assert(asked_and_visited(store@, urls_idxs@, t, i as int));
                        assert(before[t]);
                    }
                }
                if asked_and_visited(store@, urls_idxs@, t, i as int) {
                    let k = choose|k: int|
                        0 <= k < i && k < urls_idxs@.len() && (#[trigger] urls_idxs@[k]).0 == t
                            && spec_visited(store@, urls_idxs@[k].1@);
                    assert(0 <= k < i + 1);
                }
                if t == slot && seen {
                    assert(urls_idxs@[i as int].0 == t);
                }
            }
        }
        i += 1;
    }
}

/// True when the place has a visit between `start` and `end`, both
/// included; remote visits count only where `include_remote` is set.
pub open spec fn visited_in(
    s: StoreView,
    place_id: i64,
    start: u64,
    end: u64,
    include_remote: bool,
) -> bool {
    exists|i: int|
        0 <= i < s.visits.len() && (#[trigger] s.visits[i]).place_id == place_id && start
            <= s.visits[i].visit_date <= end && (include_remote || s.visits[i].is_local)
}

/// True for the places visited in the range.
pub open spec fn place_visited_in(
    s: StoreView,
    start: u64,
    end: u64,
    include_remote: bool,
) -> spec_fn(PlaceView) -> bool {
    |p: PlaceView| visited_in(s, p.row_id, start, end, include_remote)
}

/// How a place is named in a list of URLs.
pub open spec fn url_of() -> spec_fn(PlaceView) -> Seq<char> {
    |p: PlaceView| p.url
}

/// Whether the place has a visit in the range.
fn was_visited_in(
    store: &HistoryStore,
    place_id: RowId,
    start: Timestamp,
    end: Timestamp,
    include_remote: bool,
) -> (r: bool)
    ensures
        r == visited_in(store@, place_id.0, start.0, end.0, include_remote),
{
    let mut i: usize = 0;
    while i < store.visits().len()
        invariant
            i <= store@.visits.len(),
            forall|j: int|
                0 <= j < i ==> !((#[trigger] store@.visits[j]).place_id == place_id.0 && start.0
                    <= store@.visits[j].visit_date <= end.0 && (include_remote
                    || store@.visits[j].is_local)),
        decreases store@.visits.len() - i,
    {
        let v = &store.visits()[i];
        if v.place_id.0 == place_id.0 && start.0 <= v.visit_date.0 && v.visit_date.0 <= end.0 && (
        include_remote || v.is_local) {
            assert(store@.visits[i as int].place_id == place_id.0);
            return true;
        }
        i += 1;
    }
    false
}

/// The URLs that were visited between `start` and `end`. Only local visits
/// count unless `include_remote` is set.
pub fn get_visited_urls(
    store: &HistoryStore,
    start: Timestamp,
    end: Timestamp,
    include_remote: bool,
) -> (r: Vec<String>)
    ensures
        texts_view(r@) == store@.places.filter(
            place_visited_in(store@, start.0, end.0, include_remote),
        ).map_values(url_of()),
{
    let ghost src = store@.places;
    let ghost keep = place_visited_in(store@, start.0, end.0, include_remote);
    let ghost f = url_of();
    let mut out: Vec<String> = Vec::new();
    let mut i: usize = 0;
    while i < store.places().len()
        invariant
            i <= src.len(),
            src == store@.places,
            keep == place_visited_in(store@, start.0, end.0, include_remote),
            f == url_of(),
            texts_view(out@) == src.take(i as int).filter(keep).map_values(f),
        decreases src.len() - i,
    {
        proof {
            lemma_filter_take_succ(src, keep, i as int);
        }
        let p = &store.places()[i];
        if was_visited_in(store, p.row_id, start, end, include_remote) {
            let ghost before = out@;
            let url = p.url.clone();
            out.push(url);
            proof {
                let prev = src.take(i as int).filter(keep);
                assert(prev.push(src[i as int]).map_values(f) =~= prev.map_values(f).push(
                    f(src[i as int]),
                ));
                assert(texts_view(out@) =~= texts_view(before).push(
                    url@,
                ));
            }
        }
        i += 1;
    }
    proof {
        assert(src.take(src.len() as int) =~= src);
    }
    out
}

/// True for the visits whose kind is not left out.
pub open spec fn of_allowed_type(exclude_types: VisitTransitionSet) -> spec_fn(VisitView) -> bool {
    |v: VisitView| !exclude_types.spec_contains(v.visit_type)
}

/// Number of visits whose kind is not among `exclude_types`.
pub fn get_visit_count(store: &HistoryStore, exclude_types: VisitTransitionSet) -> (r: i64)
    requires
        store.wf(),
    ensures
        r == store@.visits.filter(of_allowed_type(exclude_types)).len(),
{
    let ghost src = store@.visits;
    let ghost keep = of_allowed_type(exclude_types);
    proof {
        lemma_visits_fit(store@);
    }
    let mut count: i64 = 0;
    let mut i: usize = 0;
    while i < store.visits().len()
        invariant
            i <= src.len(),
            src.len() < i64::MAX,
            src == store@.visits,
            keep == of_allowed_type(exclude_types),
            count == src.take(i as int).filter(keep).len(),
            count <= i,
        decreases src.len() - i,
    {
        proof {
            lemma_filter_take_succ(src, keep, i as int);
        }
        if !exclude_types.contains(store.visits()[i].visit_type) {
            count += 1;
        }
        i += 1;
    }
    proof {
        assert(src.take(src.len() as int) =~= src);
    }
    count
}

/// True when the place of the visit is on `host`.
pub open spec fn on_host(s: StoreView, place_id: i64, host: Seq<char>) -> bool {
    match s.place_by_id(place_id) {
        Some(i) => url_host(s.places[i].url) == Some(host),
        None => false,
    }
}

/// True for the visits to `host` before `before` whose kind is not left out.
pub open spec fn counted_for_host(
    s: StoreView,
    host: Seq<char>,
    before: u64,
    exclude_types: VisitTransitionSet,
) -> spec_fn(VisitView) -> bool {
    |v: VisitView|
        v.visit_date < before && !exclude_types.spec_contains(v.visit_type) && on_host(
            s,
            v.place_id,
            host,
        )
}

/// Whether the place is on `host`.
fn is_on_host(store: &HistoryStore, place_id: RowId, host: &str) -> (r: bool)
    ensures
        r == on_host(store@, place_id.0, host@),
{
    match store.find_place_by_id(place_id) {
        Some(i) => match host_of(store.places()[i].url.as_str()) {
            Some(h) => str_eq(h.as_str(), host),
            None => false,
        },
        None => false,
    }
}

/// Number of visits to the places of a host before a time, leaving out the
/// kinds of visit among `exclude_types`.
pub fn get_visit_count_for_host(
    store: &HistoryStore,
    host: &str,
    before: Timestamp,
    exclude_types: VisitTransitionSet,
) -> (r: i64)
    requires
        store.wf(),
    ensures
        r == store@.visits.filter(counted_for_host(store@, host@, before.0, exclude_types)).len(),
{
    let ghost src = store@.visits;
    let ghost keep = counted_for_host(store@, host@, before.0, exclude_types);
    proof {
        lemma_visits_fit(store@);
    }
    let mut count: i64 = 0;
    let mut i: usize = 0;
    while i < store.visits().len()
        invariant
            i <= src.len(),
            src.len() < i64::MAX,
            src == store@.visits,
            keep == counted_for_host(store@, host@, before.0, exclude_types),
            count == src.take(i as int).filter(keep).len(),
            count <= i,
        decreases src.len() - i,
    {
        proof {
            lemma_filter_take_succ(src, keep, i as int);
        }
        let v = &store.visits()[i];
        if v.visit_date.0 < before.0 && !exclude_types.contains(v.visit_type) && is_on_host(
            store,
            v.place_id,
            host,
        ) {
            count += 1;
        }
        i += 1;
    }
    proof {
        assert(src.take(src.len() as int) =~= src);
    }
    count
}

/// A visit with what is shown of its place.
#[derive(Debug)]
pub struct HistoryVisitInfo {
    pub url: String,
    pub title: Option<String>,
    pub timestamp: Timestamp,
    pub visit_type: VisitType,
    pub is_hidden: bool,
    pub preview_image_url: Option<String>,
    pub is_remote: bool,
}

/// A shown visit as plain values.
pub struct VisitInfoView {
    pub url: Seq<char>,
    pub title: Option<Seq<char>>,
    pub timestamp: u64,
    pub visit_type: VisitType,
    pub is_hidden: bool,
    pub preview_image_url: Option<Seq<char>>,
    pub is_remote: bool,
}

impl View for HistoryVisitInfo {
    type V = VisitInfoView;

    open spec fn view(&self) -> VisitInfoView {
        VisitInfoView {
            url: self.url@,
            title: opt_text(self.title),
            timestamp: self.timestamp.0,
            visit_type: self.visit_type,
            is_hidden: self.is_hidden,
            preview_image_url: opt_text(self.preview_image_url),
            is_remote: self.is_remote,
        }
    }
}

pub open spec fn infos_view(s: Seq<HistoryVisitInfo>) -> Seq<VisitInfoView> {
    s.map_values(|i: HistoryVisitInfo| i@)
}

/// A page of visits with the cursor for the next page.
#[derive(Debug)]
pub struct HistoryVisitInfosWithBound {
    pub infos: Vec<HistoryVisitInfo>,
    pub bound: i64,
    pub offset: i64,
}

/// What is shown of a visit and its place. A place without title shows none.
pub open spec fn shown_visit(p: PlaceView, v: VisitView) -> VisitInfoView {
    VisitInfoView {
        url: p.url,
        title: if p.title.len() == 0 {
            None
        } else {
            Some(p.title)
        },
        timestamp: v.visit_date,
        visit_type: v.visit_type,
        is_hidden: p.hidden,
        preview_image_url: p.preview_image_url,
        is_remote: !v.is_local,
    }
}

/// What is shown for a visit that is not there.
pub open spec fn no_visit() -> VisitInfoView {
    VisitInfoView {
        url: Seq::empty(),
        title: None,
        timestamp: 0,
        visit_type: VisitType::Link,
        is_hidden: false,
        preview_image_url: None,
        is_remote: false,
    }
}

/// What is shown of the visit that a key stands for.
pub open spec fn visit_info(s: StoreView) -> spec_fn(Keyed) -> VisitInfoView {
    |k: Keyed|
        match position(s.visits, has_visit_id(k.1)) {
            Some(i) => match s.place_by_id(s.visits[i].place_id) {
                Some(j) => shown_visit(s.places[j], s.visits[i]),
                None => no_visit(),
            },
            None => no_visit(),
        }
}

/// True when the place of a visit is hidden.
pub open spec fn place_hidden(s: StoreView, place_id: i64) -> bool {
    match s.place_by_id(place_id) {
        Some(i) => s.places[i].hidden,
        None => false,
    }
}

/// A time in milliseconds as a signed number, held at the largest.
pub open spec fn millis_i64(t: u64) -> i64 {
    if t <= i64::MAX {
        t as i64
    } else {
        i64::MAX
    }
}

/// True for the visits that a listing shows: of a place that is not
/// hidden, of a kind that is not left out, from `start` on, and not after
/// `bound`.
pub open spec fn listed(
    s: StoreView,
    exclude_types: VisitTransitionSet,
    start: u64,
    bound: i64,
) -> spec_fn(VisitView) -> bool {
    |v: VisitView|
        !exclude_types.spec_contains(v.visit_type) && !place_hidden(s, v.place_id) && start
            <= v.visit_date && millis_i64(v.visit_date) <= bound
}

/// The part of `s` that a page shows: from `offset` on, at most `count`
/// elements. An offset below zero counts as zero, a count below zero as no
/// limit.
pub open spec fn spec_window<T>(s: Seq<T>, offset: int, count: int) -> Seq<T> {
    let start = if offset <= 0 {
        0
    } else if offset >= s.len() {
        s.len() as int
    } else {
        offset
    };
    let rest = s.skip(start);
    if count < 0 {
        rest
    } else {
        at_most(rest, count as nat)
    }
}

/// The visits that a listing shows, in the order of `key`, from `offset`
/// on and at most `count`.
pub open spec fn spec_listing(
    s: StoreView,
    keep: spec_fn(VisitView) -> bool,
    key: spec_fn(VisitView) -> Keyed,
    offset: int,
    count: int,
) -> Seq<VisitInfoView> {
    spec_window(
        s.visits.filter(keep).map_values(key).sort_by(key_leq()),
        offset,
        count,
    ).map_values(visit_info(s))
}

/// Whether the place of a visit is hidden.
fn is_place_hidden(store: &HistoryStore, place_id: RowId) -> (r: bool)
    ensures
        r == place_hidden(store@, place_id.0),
{
    match store.find_place_by_id(place_id) {
        Some(i) => store.places()[i].hidden,
        None => false,
    }
}

/// A time in milliseconds as a signed number, held at the largest.
fn to_millis_i64(t: Timestamp) -> (r: i64)
    ensures
        r == millis_i64(t.0),
{
    if t.0 <= i64::MAX as u64 {
        t.0 as i64
    } else {
        i64::MAX
    }
}

/// The part of `keys` that a page shows.
fn window(keys: &Vec<Keyed>, offset: i64, count: i64) -> (r: Vec<Keyed>)
    ensures
        r@ == spec_window(keys@, offset as int, count as int),
        r@.len() <= keys@.len(),
{
    let start: usize = if offset <= 0 {
        0
    } else if offset as u64 >= keys.len() as u64 {
        keys.len()
    } else {
        offset as usize
    };
    let ghost rest = keys@.skip(start as int);
    let mut out: Vec<Keyed> = Vec::new();
    let mut i: usize = start;
    while i < keys.len() && (count < 0 || (out.len() as u64) < count as u64)
        invariant
            start <= i <= keys@.len(),
            rest == keys@.skip(start as int),
            out@ == rest.take(i - start),
            count >= 0 ==> out@.len() <= count,
        decreases keys@.len() - i,
    {
        out.push(keys[i]);
        proof {
            assert(rest.take(i - start + 1) =~= rest.take(i - start).push(keys@[i as int]));
        }
        i += 1;
    }
    proof {
        if i == keys@.len() {
            assert(rest.take(rest.len() as int) =~= rest);
        }
    }
    out
}

/// The visits that a listing shows.
fn listing(
    store: &HistoryStore,
    exclude_types: VisitTransitionSet,
    start: Timestamp,
    bound: i64,
    newest_first: bool,
    offset: i64,
    count: i64,
) -> (r: Vec<HistoryVisitInfo>)
    ensures
        infos_view(r@) == spec_listing(
            store@,
            listed(store@, exclude_types, start.0, bound),
            if newest_first {
                recency_key()
            } else {
                age_key()
            },
            offset as int,
            count as int,
        ),
        r@.len() <= store@.visits.len(),
{
    let ghost src = store@.visits;
    let ghost keep = listed(store@, exclude_types, start.0, bound);
    let ghost f = if newest_first {
        recency_key()
    } else {
        age_key()
    };
    let mut keys: Vec<Keyed> = Vec::new();
    let mut i: usize = 0;
    while i < store.visits().len()
        invariant
            i <= src.len(),
            src == store@.visits,
            keep == listed(store@, exclude_types, start.0, bound),
            f == (if newest_first {
                recency_key()
            } else {
                age_key()
            }),
            keys@ == src.take(i as int).filter(keep).map_values(f),
            keys@.len() <= i,
        decreases src.len() - i,
    {
        proof {
            lemma_filter_take_succ(src, keep, i as int);
        }
        let v = &store.visits()[i];
        if !exclude_types.contains(v.visit_type) && !is_place_hidden(store, v.place_id) && start.0
            <= v.visit_date.0 && to_millis_i64(v.visit_date) <= bound {
            let key: u64 = if newest_first {
                u64::MAX - v.visit_date.0
            } else {
                v.visit_date.0
            };
            keys.push((key, v.id.0));
            proof {
                let prev = src.take(i as int).filter(keep);
                assert(prev.push(src[i as int]).map_values(f) =~= prev.map_values(f).push(
                    f(src[i as int]),
                ));
            }
        }
        i += 1;
    }
    proof {
        assert(src.take(src.len() as int) =~= src);
    }
    let sorted = sort_keys(&keys);
    let page = window(&sorted, offset, count);
    let ghost g = visit_info(store@);
    let mut out: Vec<HistoryVisitInfo> = Vec::new();
    let mut k: usize = 0;
    while k < page.len()
        invariant
            k <= page@.len(),
            g == visit_info(store@),
            infos_view(out@) == page@.take(k as int).map_values(g),
            out@.len() == k,
        decreases page.len() - k,
    {
        let info = info_of(store, page[k]);
        let ghost before = out@;
        out.push(info);
        proof {
            lemma_take_succ(page@, k as int);
            assert(page@.take(k + 1).map_values(g) =~= page@.take(k as int).map_values(g).push(
                g(page@[k as int]),
            ));
            assert(infos_view(out@) =~= infos_view(before).push(info@));
        }
        k += 1;
    }
    proof {
        assert(page@.take(page@.len() as int) =~= page@);
    }
    out
}

/// What is shown of the visit that a key stands for.
fn info_of(store: &HistoryStore, key: Keyed) -> (r: HistoryVisitInfo)
    ensures
        r@ == visit_info(store@)(key),
{
    let blank = HistoryVisitInfo {
        url: String::new(),
        title: None,
        timestamp: Timestamp(0),
        visit_type: VisitType::Link,
        is_hidden: false,
        preview_image_url: None,
        is_remote: false,
    };
    let at = match store.find_visit_by_id(RowId(key.1)) {
        Some(i) => i,
        None => {
            return blank;
        },
    };
    let v = &store.visits()[at];
    let idx = match store.find_place_by_id(v.place_id) {
        Some(j) => j,
        None => {
            return blank;
        },
    };
    let p = &store.places()[idx];
    let title = if p.title.as_str().unicode_len() == 0 {
        None
    } else {
        Some(p.title.clone())
    };
    HistoryVisitInfo {
        url: p.url.clone(),
        title,
        timestamp: v.visit_date,
        visit_type: v.visit_type,
        is_hidden: p.hidden,
        preview_image_url: clone_opt_string(&p.preview_image_url),
        is_remote: !v.is_local,
    }
}

/// The visits between `start` and `end`, both included, from the oldest;
/// hidden places and the kinds among `exclude_types` are left out.
pub fn get_visit_infos(
    store: &HistoryStore,
    start: Timestamp,
    end: Timestamp,
    exclude_types: VisitTransitionSet,
) -> (r: Vec<HistoryVisitInfo>)
    ensures
        infos_view(r@) == spec_listing(
            store@,
            listed(store@, exclude_types, start.0, millis_i64(end.0)),
            age_key(),
            0,
            -1,
        ),
{
    listing(store, exclude_types, start, to_millis_i64(end), false, 0, -1)
}

/// A page of visits from the most recent: `count` visits from `offset` on.
pub fn get_visit_page(
    store: &HistoryStore,
    offset: i64,
    count: i64,
    exclude_types: VisitTransitionSet,
) -> (r: Vec<HistoryVisitInfo>)
    ensures
        infos_view(r@) == spec_listing(
            store@,
            listed(store@, exclude_types, 0, i64::MAX),
            recency_key(),
            offset as int,
            count as int,
        ),
{
    listing(store, exclude_types, Timestamp(0), i64::MAX, true, offset, count)
}

/// How many of the first `n` shown visits, counted from the end, are of
/// the time `at`.
pub open spec fn run_at_end(infos: Seq<VisitInfoView>, at: u64, n: nat) -> nat
    decreases n,
{
    if n == 0 || n > infos.len() {
        0
    } else if infos[n - 1].timestamp == at {
        1 + run_at_end(infos, at, (n - 1) as nat)
    } else {
        0
    }
}

/// The cursor after a page: where the page ends at the old bound, the
/// offset moves on by the page; otherwise the bound is the time of the last
/// visit shown and the offset counts the visits of that time at the page's
/// end. After an empty page both are zero.
pub open spec fn spec_next_cursor(infos: Seq<VisitInfoView>, bound: i64, offset: i64) -> (i64, i64) {
    if infos.len() == 0 {
        (0, 0)
    } else if millis_i64(infos.last().timestamp) == bound {
        (
            bound,
            if offset + infos.len() > i64::MAX {
                i64::MAX
            } else {
                (offset + infos.len()) as i64
            },
        )
    } else {
        (
            millis_i64(infos.last().timestamp),
            run_at_end(infos, infos.last().timestamp, infos.len()) as i64,
        )
    }
}

/// A page of visits not after `bound`, from the most recent, with the
/// cursor for the next page.
pub fn get_visit_page_with_bound(
    store: &HistoryStore,
    bound: i64,
    offset: i64,
    count: i64,
    exclude_types: VisitTransitionSet,
) -> (r: HistoryVisitInfosWithBound)
    requires
        store.wf(),
    ensures
        infos_view(r.infos@) == spec_listing(
            store@,
            listed(store@, exclude_types, 0, bound),
            recency_key(),
            offset as int,
            count as int,
        ),
        (r.bound, r.offset) == spec_next_cursor(infos_view(r.infos@), bound, offset),
{
    let infos = listing(store, exclude_types, Timestamp(0), bound, true, offset, count);
    let n = infos.len();
    proof {
        lemma_visits_fit(store@);
    }
    if n == 0 {
        return HistoryVisitInfosWithBound { infos, bound: 0, offset: 0 };
    }
    let ghost views = infos_view(infos@);
    let last = infos[n - 1].timestamp;
    proof {
        assert(views.last() == infos@[n - 1]@);
    }
    if to_millis_i64(last) == bound {
        let shown: i64 = n as i64;
        let next: i64 = if offset > i64::MAX - shown {
            i64::MAX
        } else {
            offset + shown
        };
        return HistoryVisitInfosWithBound { infos, bound, offset: next };
    }
    let mut run: usize = 0;
    let mut i: usize = n;
    while i > 0 && infos[i - 1].timestamp.0 == last.0
        invariant
            i <= n,
            n == infos@.len(),
            views == infos_view(infos@),
            run == n - i,
            run_at_end(views, last.0, n as nat) == run + run_at_end(views, last.0, i as nat),
        decreases i,
    {
        proof {
            assert(views[i - 1] == infos@[i - 1]@);
        }
        run += 1;
        i -= 1;
    }
    proof {
        if i > 0 {
            assert(views[i - 1] == infos@[i - 1]@);
        }
        assert(run_at_end(views, last.0, i as nat) == 0);
    }
    HistoryVisitInfosWithBound { infos, bound: to_millis_i64(last), offset: run as i64 }
}

/// A site as the list of most frecent sites shows it.
#[derive(Debug)]
pub struct TopFrecentSiteInfo {
    pub url: String,
    pub title: Option<String>,
}

/// A most frecent site as plain values.
pub struct TopSiteView {
    pub url: Seq<char>,
    pub title: Option<Seq<char>>,
}

impl View for TopFrecentSiteInfo {
    type V = TopSiteView;

    open spec fn view(&self) -> TopSiteView {
        TopSiteView { url: self.url@, title: opt_text(self.title) }
    }
}

pub open spec fn sites_view(s: Seq<TopFrecentSiteInfo>) -> Seq<TopSiteView> {
    s.map_values(|i: TopFrecentSiteInfo| i@)
}

/// The kinds of visit that do not make a site a top site.
pub open spec fn spec_top_site_exclusions() -> VisitTransitionSet {
    VisitTransitionSet::spec_empty().spec_insert(VisitType::Download).spec_insert(
        VisitType::Embed,
    ).spec_insert(VisitType::RedirectPermanent).spec_insert(
        VisitType::RedirectTemporary,
    ).spec_insert(VisitType::FramedLink).spec_insert(VisitType::Reload)
}

/// True when the place has a visit of a kind that makes a top site.
pub open spec fn has_counting_visit(s: StoreView, place_id: i64) -> bool {
    exists|i: int|
        0 <= i < s.visits.len() && (#[trigger] s.visits[i]).place_id == place_id
            && !spec_top_site_exclusions().spec_contains(s.visits[i].visit_type)
}

/// True for the places that may be listed as top sites: web pages that are
/// not hidden, at or above the frecency threshold, with a visit that counts.
pub open spec fn is_top_site(s: StoreView, frecency_threshold: i64) -> spec_fn(PlaceView) -> bool {
    |p: PlaceView|
        (spec_starts_with(p.url, "https:"@) || spec_starts_with(p.url, "http:"@)) && !p.hidden
            && p.frecency >= frecency_threshold && has_counting_visit(s, p.row_id)
}

/// The site that a key stands for.
pub open spec fn top_site(s: StoreView) -> spec_fn(Keyed) -> TopSiteView {
    |k: Keyed|
        match s.place_by_id(k.1) {
            Some(i) => TopSiteView {
                url: s.places[i].url,
                title: if s.places[i].title.len() == 0 {
                    None
                } else {
                    Some(s.places[i].title)
                },
            },
            None => TopSiteView { url: Seq::empty(), title: None },
        }
}

/// The most frecent sites: at most `num_items`, the most frecent first.
pub open spec fn spec_top_frecent_sites(
    s: StoreView,
    num_items: int,
    frecency_threshold: i64,
) -> Seq<TopSiteView> {
    spec_window(
        s.places.filter(is_top_site(s, frecency_threshold)).map_values(
            frecency_key(),
        ).sort_by(key_leq()),
        0,
        num_items,
    ).map_values(top_site(s))
}

/// Whether the place has a visit of a kind that makes a top site.
fn counts_as_visited(store: &HistoryStore, place_id: RowId) -> (r: bool)
    ensures
        r == has_counting_visit(store@, place_id.0),
{
    let mut i: usize = 0;
    while i < store.visits().len()
        invariant
            i <= store@.visits.len(),
            forall|j: int|
                0 <= j < i ==> !((#[trigger] store@.visits[j]).place_id == place_id.0
                    && !spec_top_site_exclusions().spec_contains(store@.visits[j].visit_type)),
        decreases store@.visits.len() - i,
    {
        let v = &store.visits()[i];
        let excluded = match v.visit_type {
            VisitType::Download => true,
            VisitType::Embed => true,
            VisitType::RedirectPermanent => true,
            VisitType::RedirectTemporary => true,
            VisitType::FramedLink => true,
            VisitType::Reload => true,
            _ => false,
        };
        if v.place_id.0 == place_id.0 && !excluded {
            assert(store@.visits[i as int].place_id == place_id.0);
            return true;
        }
        i += 1;
    }
    false
}

/// The site that a key stands for.
fn site_of(store: &HistoryStore, key: Keyed) -> (r: TopFrecentSiteInfo)
    ensures
        r@ == top_site(store@)(key),
{
    match store.find_place_by_id(RowId(key.1)) {
        Some(j) => {
            let p = &store.places()[j];
            TopFrecentSiteInfo {
                url: p.url.clone(),
                title: if p.title.as_str().unicode_len() == 0 {
                    None
                } else {
                    Some(p.title.clone())
                },
            }
        },
        None => TopFrecentSiteInfo { url: String::new(), title: None },
    }
}

/// The most frecent sites at or above a frecency threshold.
pub fn get_top_frecent_site_infos(
    store: &HistoryStore,
    num_items: i32,
    frecency_threshold: i64,
) -> (r: Vec<TopFrecentSiteInfo>)
    ensures
        sites_view(r@) == spec_top_frecent_sites(store@, num_items as int, frecency_threshold),
{
    let ghost src = store@.places;
    let ghost keep = is_top_site(store@, frecency_threshold);
    let ghost f = frecency_key();
    let mut keys: Vec<Keyed> = Vec::new();
    let mut i: usize = 0;
    while i < store.places().len()
        invariant
            i <= src.len(),
            src == store@.places,
            keep == is_top_site(store@, frecency_threshold),
            f == frecency_key(),
            keys@ == src.take(i as int).filter(keep).map_values(f),
        decreases src.len() - i,
    {
        proof {
            lemma_filter_take_succ(src, keep, i as int);
        }
        let p = &store.places()[i];
        if (starts_with(p.url.as_str(), "https:") || starts_with(p.url.as_str(), "http:"))
            && !p.hidden && p.frecency as i64 >= frecency_threshold && counts_as_visited(
            store,
            p.row_id,
        ) {
            let key: u64 = (i32::MAX as i64 - p.frecency as i64) as u64;
            keys.push((key, p.row_id.0));
            proof {
                let prev = src.take(i as int).filter(keep);
                assert(prev.push(src[i as int]).map_values(f) =~= prev.map_values(f).push(
                    f(src[i as int]),
                ));
            }
        }
        i += 1;
    }
    proof {
        assert(src.take(src.len() as int) =~= src);
    }
    let sorted = sort_keys(&keys);
    let page = window(&sorted, 0, num_items as i64);
    let ghost g = top_site(store@);
    let mut out: Vec<TopFrecentSiteInfo> = Vec::new();
    let mut k: usize = 0;
    while k < page.len()
        invariant
            k <= page@.len(),
            g == top_site(store@),
            sites_view(out@) == page@.take(k as int).map_values(g),
        decreases page.len() - k,
    {
        let site = site_of(store, page[k]);
        let ghost before = out@;
        out.push(site);
        proof {
            lemma_take_succ(page@, k as int);
            assert(page@.take(k + 1).map_values(g) =~= page@.take(k as int).map_values(g).push(
                g(page@[k as int]),
            ));
            assert(sites_view(out@) =~= sites_view(before).push(site@));
        }
        k += 1;
    }
    proof {
        assert(page@.take(page@.len() as int) =~= page@);
    }
    out
}

} // verus!
