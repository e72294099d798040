//! The merge with the sync service: what goes out, what comes in, and how
//! the store remembers which is which.

use crate::history::{record, rescore, reset_in_tx, spec_rescore, spec_reset, EngineSyncAssociation};
use crate::model::{
    delta_in, has_place, has_visit_at, has_visit_id, keeps_identity, visit_of, PlaceView,
    StagedChange, StoreView, VisitTombstone, VisitView,
};
use crate::seq_util::{
    at_most, key_leq, lemma_filter_prefix, lemma_filter_take_succ, lemma_take_succ, position,
    sort_keys, Keyed,
};
use crate::store::{
    clone_opt_string, opt_text, places_view, str_eq, texts_view, HistoryStore, Place,
};
use crate::types::{HistoryError, RowId, ServerVisitTimestamp, SyncStatus, Timestamp, VisitType};
use vstd::prelude::*;

verus! {

/// A visit as the store hands it out.
#[derive(Clone, Copy, Debug, PartialEq, Eq, Structural)]
pub struct FetchedVisit {
    pub is_local: bool,
    pub visit_date: Timestamp,
    pub visit_type: Option<VisitType>,
}

/// The place of the visits that the store hands out.
#[derive(Debug)]
pub struct FetchedVisitPage {
    pub url: String,
    pub guid: String,
    pub row_id: RowId,
    pub title: String,
    pub unknown_fields: Option<String>,
}

/// A fetched place as plain values.
pub struct FetchedPageView {
    pub url: Seq<char>,
    pub guid: Seq<char>,
    pub row_id: i64,
    pub title: Seq<char>,
    pub unknown_fields: Option<Seq<char>>,
}

impl View for FetchedVisitPage {
    type V = FetchedPageView;

    open spec fn view(&self) -> FetchedPageView {
        FetchedPageView {
            url: self.url@,
            guid: self.guid@,
            row_id: self.row_id.0,
            title: self.title@,
            unknown_fields: opt_text(self.unknown_fields),
        }
    }
}

/// How a visit is handed out.
pub open spec fn fetched_visit() -> spec_fn(VisitView) -> FetchedVisit {
    |v: VisitView|
        FetchedVisit {
            is_local: v.is_local,
            visit_date: Timestamp(v.visit_date),
            visit_type: Some(v.visit_type),
        }
}

/// How a place is handed out with its visits.
pub open spec fn spec_fetched_page(p: PlaceView) -> FetchedPageView {
    FetchedPageView {
        url: p.url,
        guid: p.guid,
        row_id: p.row_id,
        title: p.title,
        unknown_fields: p.unknown_fields,
    }
}

/// The first `limit` visits of the place, in the order they were recorded.
pub open spec fn spec_fetch_visits(s: StoreView, place_id: i64, limit: nat) -> Seq<FetchedVisit> {
    let all = s.visits.filter(visit_of(place_id)).map_values(fetched_visit());
    if limit < all.len() {
        all.take(limit as int)
    } else {
        all
    }
}

/// The place of `url` and up to `limit` of its visits, or nothing where the
/// store has no such place.
pub fn fetch_visits(store: &HistoryStore, url: &str, limit: usize) -> (r: Option<
    (FetchedVisitPage, Vec<FetchedVisit>),
>)
    ensures
        match store@.place_by_url(url@) {
            Some(i) => {
                &&& r matches Some((page, visits))
                &&& page@ == spec_fetched_page(store@.places[i])
                &&& visits@ == spec_fetch_visits(store@, store@.places[i].row_id, limit as nat)
            },
            None => r is None,
        },
{
    let idx = match store.find_place_by_url(url) {
        Some(i) => i,
        None => {
            return None;
        },
    };
    let place = &store.places()[idx];
    let page = FetchedVisitPage {
        url: place.url.clone(),
        guid: place.guid.clone(),
        row_id: place.row_id,
        title: place.title.clone(),
        unknown_fields: clone_opt_string(&place.unknown_fields),
    };
    let ghost src = store@.visits;
    let ghost of_place = visit_of(place.row_id.0);
    let ghost f = fetched_visit();
    let mut visits: Vec<FetchedVisit> = Vec::new();
    let mut i: usize = 0;
    while i < store.visits().len() && visits.len() < limit
        invariant
            i <= src.len(),
            src == store@.visits,
            of_place == visit_of(place.row_id.0),
            f == fetched_visit(),
            visits@ == src.take(i as int).filter(of_place).map_values(f),
            visits@.len() <= limit,
        decreases src.len() - i,
    {
        proof {
            lemma_filter_take_succ(src, of_place, i as int);
        }
        let v = &store.visits()[i];
        if v.place_id.0 == place.row_id.0 {
            let ghost before = visits@;
            visits.push(
                FetchedVisit {
                    is_local: v.is_local,
                    visit_date: v.visit_date,
                    visit_type: Some(v.visit_type),
                },
            );
            proof {
                let prev = src.take(i as int).filter(of_place);
                assert(prev.push(src[i as int]).map_values(f) =~= prev.map_values(f).push(
                    f(src[i as int]),
                ));
            }
        }
        i += 1;
    }
    proof {
        let all = src.filter(of_place).map_values(f);
        if i == src.len() {
            assert(src.take(src.len() as int) =~= src);
        } else {
            lemma_filter_prefix(src, of_place, i as int);
            assert(visits@ =~= all.take(limit as int));
        }
    }
    Some((page, visits))
}

/// A place that matches its remote record: synced, with nothing to upload.
pub open spec fn reconciled(p: PlaceView) -> PlaceView {
    PlaceView { sync_status: SyncStatus::Normal, sync_change_counter: 0, ..p }
}

/// The store after the place with `guid` is found to match its remote record.
pub open spec fn spec_apply_synced_reconciliation(s: StoreView, guid: Seq<char>) -> StoreView {
    match s.place_by_guid(guid) {
        Some(i) => s.set_place(i, reconciled(s.places[i])),
        None => s,
    }
}

/// Notes that the place with `guid` matches its remote record.
pub fn apply_synced_reconciliation(store: &mut HistoryStore, guid: &str)
    requires
        old(store).wf(),
    ensures
        final(store).wf(),
        final(store)@ == spec_apply_synced_reconciliation(old(store)@, guid@),
{
    match store.find_place_by_guid(guid) {
        Some(i) => {
            let mut p = store.places()[i].duplicate();
            p.sync_status = SyncStatus::Normal;
            p.sync_change_counter = 0;
            store.replace_place(i, p);
        },
        None => {},
    }
}

/// The store after the remote side deleted the place with `guid`: its
/// visits are gone, and so is the place unless something refers to it.
pub open spec fn spec_apply_synced_deletion(s: StoreView, guid: Seq<char>) -> StoreView {
    match s.place_by_guid(guid) {
        Some(i) => if s.places[i].foreign_count == 0 {
            s.delete_page(s.places[i].row_id)
        } else {
            s.delete_all_visits_for_page(s.places[i].row_id)
        },
        None => s,
    }
}

/// Applies a deletion that came from the remote side.
pub fn apply_synced_deletion(store: &mut HistoryStore, guid: &str)
    requires
        old(store).wf(),
    ensures
        final(store).wf(),
        final(store)@ == spec_apply_synced_deletion(old(store)@, guid@),
{
    match store.find_place_by_guid(guid) {
        Some(i) => {
            let id = store.places()[i].row_id;
            if store.places()[i].foreign_count == 0 {
                store.remove_place(id);
            } else {
                store.remove_visits_of(id);
            }
        },
        None => {},
    }
}

/// A place after an upload is done: a staged place keeps the changes made
/// since it was staged, every other place is clean and synced.
pub open spec fn finished_place(staged: Seq<StagedChange>) -> spec_fn(PlaceView) -> PlaceView {
    |p: PlaceView|
        match delta_in(staged, p.row_id) {
            Some(delta) => PlaceView {
                sync_change_counter: if p.sync_change_counter >= delta {
                    (p.sync_change_counter - delta) as u32
                } else {
                    0
                },
                ..p
            },
            None => PlaceView { sync_change_counter: 0, sync_status: SyncStatus::Normal, ..p },
        }
}

/// The store after an upload is done: the staging area and the place
/// tombstones are empty.
pub open spec fn spec_finish_outgoing(s: StoreView) -> StoreView {
    StoreView {
        staged: Seq::empty(),
        place_tombstones: Seq::empty(),
        ..s.map_places(finished_place(s.staged))
    }
}

/// Finishes an upload: takes from each staged place the changes that went
/// out, declares every other place clean, and forgets the place tombstones.
pub fn finish_outgoing(store: &mut HistoryStore)
    requires
        old(store).wf(),
    ensures
        final(store).wf(),
        final(store)@ == spec_finish_outgoing(old(store)@),
{
    let ghost f = finished_place(store@.staged);
    let ghost src = store@.places;
    let mut places: Vec<Place> = Vec::new();
    let mut i: usize = 0;
    while i < store.places().len()
        invariant
            i <= src.len(),
            store@ == old(store)@,
            src == store@.places,
            f == finished_place(store@.staged),
            places_view(places@) == src.take(i as int).map_values(f),
        decreases src.len() - i,
    {
        let mut p = store.places()[i].duplicate();
        match store.staged_delta(p.row_id) {
            Some(delta) => {
                p.sync_change_counter = if p.sync_change_counter >= delta {
                    p.sync_change_counter - delta
                } else {
                    0
                };
            },
            None => {
                p.sync_change_counter = 0;
                p.sync_status = SyncStatus::Normal;
            },
        }
        let ghost before = places@;
        places.push(p);
        proof {
            lemma_take_succ(src, i as int);
            assert(p@ == f(src[i as int]));
            assert(src.take(i + 1).map_values(f) =~= src.take(i as int).map_values(f).push(
                f(src[i as int]),
            ));
            assert(places_view(places@) =~= places_view(before).push(p@));
        }
        i += 1;
    }
    proof {
        assert(src.take(src.len() as int) =~= src);
        assert(keeps_identity(f));
    }
    store.rewrite_places(places, Ghost(f));
    store.clear_staged_and_tombstones();
}

/// Resets all sync metadata: change counters, sync statuses, the time of
/// the last sync and the sync identifiers.
pub fn reset(store: &mut HistoryStore, assoc: &EngineSyncAssociation)
    requires
        old(store).wf(),
    ensures
        final(store).wf(),
        final(store)@ == spec_reset(old(store)@, assoc.spec_ids()),
{
    reset_in_tx(store, assoc)
}

/// A visit as it travels in a sync record.
#[derive(Debug)]
pub struct HistoryRecordVisit {
    pub date: ServerVisitTimestamp,
    pub transition: u8,
    pub unknown_fields: Option<String>,
}

/// A visit of a sync record as plain values.
pub struct RecordVisitView {
    pub date: u64,
    pub transition: u8,
    pub unknown_fields: Option<Seq<char>>,
}

impl View for HistoryRecordVisit {
    type V = RecordVisitView;

    open spec fn view(&self) -> RecordVisitView {
        RecordVisitView {
            date: self.date.0,
            transition: self.transition,
            unknown_fields: opt_text(self.unknown_fields),
        }
    }
}

impl HistoryRecordVisit {
    /// A copy of the visit.
    pub fn duplicate(&self) -> (r: HistoryRecordVisit)
        ensures
            r == *self,
    {
        HistoryRecordVisit {
            date: self.date,
            transition: self.transition,
            unknown_fields: clone_opt_string(&self.unknown_fields),
        }
    }
}

pub open spec fn record_visits_view(s: Seq<HistoryRecordVisit>) -> Seq<RecordVisitView> {
    s.map_values(|v: HistoryRecordVisit| v@)
}

/// The local time of a record's visit, in milliseconds.
pub open spec fn local_time(v: RecordVisitView) -> u64 {
    v.date / 1000
}

/// True for the visits later than the deletion high-water mark.
pub open spec fn after_mark(mark: u64) -> spec_fn(RecordVisitView) -> bool {
    |v: RecordVisitView| local_time(v) > mark
}

/// True when one of `visits` is of the local time `at`.
pub open spec fn has_time(visits: Seq<RecordVisitView>, at: u64) -> bool {
    exists|i: int| 0 <= i < visits.len() && local_time(#[trigger] visits[i]) == at
}

/// Those of the first `n` incoming visits that the place takes: a visit is
/// left out when the place has a tombstone or a visit of the same time, or
/// when an earlier one of the same time is taken.
pub open spec fn spec_accepted(
    tombstones: Seq<VisitTombstone>,
    visits: Seq<VisitView>,
    place_id: i64,
    incoming: Seq<RecordVisitView>,
    n: nat,
) -> Seq<RecordVisitView>
    decreases n,
{
    if n == 0 || n > incoming.len() {
        Seq::empty()
    } else {
        let taken = spec_accepted(tombstones, visits, place_id, incoming, (n - 1) as nat);
        let v = incoming[n - 1];
        let at = local_time(v);
        if tombstones.contains(VisitTombstone { place_id, visit_date: at }) || has_visit_at(
            visits,
            place_id,
            at,
        ) || has_time(taken, at) {
            taken
        } else {
            taken.push(v)
        }
    }
}

/// The visit type of a validated transition tag.
pub open spec fn transition_type(tag: u8) -> VisitType
    recommends
        VisitType::spec_from_primitive(tag) is Some,
{
    VisitType::spec_from_primitive(tag)->0
}

/// The store with the first `n` of the taken visits recorded as remote
/// visits of the place.
pub open spec fn spec_insert_synced(
    s: StoreView,
    place_id: i64,
    taken: Seq<RecordVisitView>,
    n: nat,
) -> StoreView
    decreases n,
{
    if n == 0 || n > taken.len() {
        s
    } else {
        let v = taken[n - 1];
        spec_insert_synced(s, place_id, taken, (n - 1) as nat).add_visit(
            place_id,
            None,
            local_time(v),
            transition_type(v.transition),
            false,
            v.unknown_fields,
        )
    }
}

/// The place after a merge: it has the incoming title where one came, the
/// incoming unknown fields, it is synced, and its change counter is raised
/// by `incr`.
pub open spec fn merged_place(
    p: PlaceView,
    title: Option<Seq<char>>,
    unknown_fields: Option<Seq<char>>,
    incr: int,
) -> PlaceView {
    PlaceView {
        title: match title {
            Some(t) => t,
            None => p.title,
        },
        unknown_fields,
        sync_status: SyncStatus::Normal,
        sync_change_counter: (p.sync_change_counter + incr) as u32,
        ..p
    }
}

/// The store after the incoming visits are merged into the place at `idx`.
pub open spec fn spec_merge(
    s: StoreView,
    idx: int,
    fresh: Seq<RecordVisitView>,
    title: Option<Seq<char>>,
    unknown_fields: Option<Seq<char>>,
    now: u64,
    incr: int,
) -> StoreView {
    let place_id = s.places[idx].row_id;
    let taken = spec_accepted(s.visit_tombstones, s.visits, place_id, fresh, fresh.len());
    let s2 = spec_insert_synced(s, place_id, taken, taken.len());
    let s3 = spec_rescore(s2, idx, now, None);
    s3.set_place(idx, merged_place(s3.places[idx], title, unknown_fields, incr))
}

/// The place with the GUID that the remote side knows it by.
pub open spec fn adopted(p: PlaceView, guid: Seq<char>) -> PlaceView {
    PlaceView { guid, ..p }
}

/// Why incoming visits are refused, if they are.
pub open spec fn spec_synced_visits_error(
    s: StoreView,
    guid: Seq<char>,
    url: Seq<char>,
    visits: Seq<RecordVisitView>,
) -> Option<HistoryError> {
    let fresh = visits.filter(after_mark(s.deletion_high_water_mark));
    match s.place_by_url(url) {
        None => {
            let taken = spec_accepted(
                s.visit_tombstones,
                s.visits,
                s.next_place_id,
                fresh,
                fresh.len(),
            );
            if fresh.len() == 0 {
                None
            } else if s.place_by_guid(guid) is Some {
                Some(HistoryError::GuidInUse)
            } else if s.next_place_id >= i64::MAX {
                Some(HistoryError::RowIdsExhausted)
            } else if s.next_visit_id + taken.len() > i64::MAX {
                Some(HistoryError::RowIdsExhausted)
            } else {
                None
            }
        },
        Some(i) => {
            let p = s.places[i];
            let taken = spec_accepted(s.visit_tombstones, s.visits, p.row_id, fresh, fresh.len());
            if p.guid != guid && p.sync_status == SyncStatus::New && s.place_by_guid(guid) is Some {
                Some(HistoryError::GuidInUse)
            } else if s.next_visit_id + taken.len() > i64::MAX {
                Some(HistoryError::RowIdsExhausted)
            } else if p.guid != guid && p.sync_change_counter == u32::MAX {
                Some(HistoryError::CounterOverflow)
            } else {
                None
            }
        },
    }
}

/// The store after incoming visits that are not refused: those at or below
/// the deletion high-water mark are dropped; a place is made for the URL if
/// a visit is left and none was there; a place never synced takes the
/// incoming GUID; the visits are merged in.
pub open spec fn spec_apply_synced_visits(
    s: StoreView,
    guid: Seq<char>,
    url: Seq<char>,
    title: Option<Seq<char>>,
    visits: Seq<RecordVisitView>,
    unknown_fields: Option<Seq<char>>,
    now: u64,
) -> StoreView {
    let fresh = visits.filter(after_mark(s.deletion_high_water_mark));
    match s.place_by_url(url) {
        None => if fresh.len() == 0 {
            s
        } else {
            spec_merge(
                s.insert_place(guid, url),
                s.places.len() as int,
                fresh,
                title,
                unknown_fields,
                now,
                0,
            )
        },
        Some(i) => {
            let p = s.places[i];
            let s1 = if p.guid != guid && p.sync_status == SyncStatus::New {
                s.set_place(i, adopted(p, guid))
            } else {
                s
            };
            spec_merge(
                s1,
                i,
                fresh,
                title,
                unknown_fields,
                now,
                if p.guid != guid {
                    1
                } else {
                    0
                },
            )
        },
    }
}

/// True when every transition tag is the tag of a visit type.
pub open spec fn all_validated(visits: Seq<HistoryRecordVisit>) -> bool {
    forall|i: int|
        0 <= i < visits.len() ==> VisitType::spec_from_primitive(
            (#[trigger] visits[i]).transition,
        ) is Some
}

/// Whether every transition tag is the tag of a visit type.
pub fn is_validated(visits: &Vec<HistoryRecordVisit>) -> (r: bool)
    ensures
        r == all_validated(visits@),
{
    let mut i: usize = 0;
    while i < visits.len()
        invariant
            i <= visits@.len(),
            forall|j: int|
                0 <= j < i ==> VisitType::spec_from_primitive((#[trigger] visits@[j]).transition)
                    is Some,
        decreases visits.len() - i,
    {
        if VisitType::from_primitive(visits[i].transition).is_none() {
            return false;
        }
        i += 1;
    }
    true
}

/// The incoming visits later than the deletion high-water mark.
fn fresh_visits(visits: &Vec<HistoryRecordVisit>, mark: Timestamp) -> (r: Vec<HistoryRecordVisit>)
    requires
        all_validated(visits@),
    ensures
        record_visits_view(r@) == record_visits_view(visits@).filter(after_mark(mark.0)),
        all_validated(r@),
{
    let ghost src = record_visits_view(visits@);
    let ghost keep = after_mark(mark.0);
    let mut out: Vec<HistoryRecordVisit> = Vec::new();
    let mut i: usize = 0;
    while i < visits.len()
        invariant
            i <= visits@.len(),
            src == record_visits_view(visits@),
            keep == after_mark(mark.0),
            record_visits_view(out@) == src.take(i as int).filter(keep),
            all_validated(visits@),
            all_validated(out@),
        decreases visits.len() - i,
    {
        proof {
            lemma_filter_take_succ(src, keep, i as int);
        }
        if visits[i].date.to_timestamp().0 > mark.0 {
            let v = visits[i].duplicate();
            let ghost before = out@;
            out.push(v);
            proof {
                assert(record_visits_view(out@) =~= record_visits_view(before).push(v@));
                assert forall|a: int| 0 <= a < out@.len() implies VisitType::spec_from_primitive(
                    (#[trigger] out@[a]).transition,
                ) is Some by {
                    if a < before.len() {
                        assert(out@[a] == before[a]);
                    }
                }
            }
        }
        i += 1;
    }
    proof {
        assert(src.take(src.len() as int) =~= src);
    }
    out
}

/// Those of the incoming visits that the place takes.
fn accept(store: &HistoryStore, place_id: RowId, incoming: &Vec<HistoryRecordVisit>) -> (r: Vec<
    HistoryRecordVisit,
>)
    requires
        all_validated(incoming@),
    ensures
        record_visits_view(r@) == spec_accepted(
            store@.visit_tombstones,
            store@.visits,
            place_id.0,
            record_visits_view(incoming@),
            incoming@.len(),
        ),
        all_validated(r@),
{
    let ghost src = record_visits_view(incoming@);
    let mut taken: Vec<HistoryRecordVisit> = Vec::new();
    let mut i: usize = 0;
    while i < incoming.len()
        invariant
            i <= incoming@.len(),
            src == record_visits_view(incoming@),
            record_visits_view(taken@) == spec_accepted(
                store@.visit_tombstones,
                store@.visits,
                place_id.0,
                src,
                i as nat,
            ),
            all_validated(incoming@),
            all_validated(taken@),
        decreases incoming.len() - i,
    {
        let at = incoming[i].date.to_timestamp();
        if !store.has_visit_tombstone(place_id, at) && !store.has_visit_at(place_id, at)
            && !holds_time(&taken, at) {
            let v = incoming[i].duplicate();
            let ghost before = taken@;
            taken.push(v);
            proof {
                assert(record_visits_view(taken@) =~= record_visits_view(before).push(v@));
                assert forall|a: int|
                    0 <= a < taken@.len() implies VisitType::spec_from_primitive(
                    (#[trigger] taken@[a]).transition,
                ) is Some by {
                    if a < before.len() {
                        assert(taken@[a] == before[a]);
                    }
                }
            }
        }
        i += 1;
    }
    taken
}

/// Whether one of `visits` is of the local time `at`.
fn holds_time(visits: &Vec<HistoryRecordVisit>, at: Timestamp) -> (r: bool)
    ensures
        r == has_time(record_visits_view(visits@), at.0),
{
    let mut i: usize = 0;
    while i < visits.len()
        invariant
            i <= visits@.len(),
            forall|j: int|
                0 <= j < i ==> local_time(#[trigger] record_visits_view(visits@)[j]) != at.0,
        decreases visits.len() - i,
    {
        if visits[i].date.to_timestamp().0 == at.0 {
            assert(local_time(record_visits_view(visits@)[i as int]) == at.0);
            return true;
        }
        i += 1;
    }
    false
}

/// Records the taken visits as remote visits of the place.
fn insert_synced(store: &mut HistoryStore, place_id: RowId, taken: &Vec<HistoryRecordVisit>)
    requires
        old(store).wf(),
        has_place(old(store)@.places, place_id.0),
        old(store)@.next_visit_id + taken@.len() <= i64::MAX,
        all_validated(taken@),
    ensures
        final(store).wf(),
        final(store)@ == spec_insert_synced(
            old(store)@,
            place_id.0,
            record_visits_view(taken@),
            taken@.len(),
        ),
        final(store)@.places == old(store)@.places,
{
    let mut i: usize = 0;
    while i < taken.len()
        invariant
            i <= taken@.len(),
            store.wf(),
            has_place(store@.places, place_id.0),
            store@.places == old(store)@.places,
            store@.next_visit_id == old(store)@.next_visit_id + i,
            old(store)@.next_visit_id + taken@.len() <= i64::MAX,
            all_validated(taken@),
            store@ == spec_insert_synced(
                old(store)@,
                place_id.0,
                record_visits_view(taken@),
                i as nat,
            ),
        decreases taken.len() - i,
    {
        let v = &taken[i];
        let visit_type = match VisitType::from_primitive(v.transition) {
            Some(t) => t,
            None => VisitType::Link,
        };
        record(
            store,
            place_id,
            None,
            v.date.to_timestamp(),
            visit_type,
            false,
            clone_opt_string(&v.unknown_fields),
        );
        i += 1;
    }
}

/// Merges incoming visits into the place at `idx`.
fn merge(
    store: &mut HistoryStore,
    idx: usize,
    taken: &Vec<HistoryRecordVisit>,
    title: &Option<String>,
    unknown_fields: &Option<String>,
    now: Timestamp,
    incr: u32,
    Ghost(fresh): Ghost<Seq<RecordVisitView>>,
)
    requires
        old(store).wf(),
        idx < old(store)@.places.len(),
        incr <= 1,
        old(store)@.places[idx as int].sync_change_counter + incr <= u32::MAX,
        old(store)@.next_visit_id + taken@.len() <= i64::MAX,
        record_visits_view(taken@) == spec_accepted(
            old(store)@.visit_tombstones,
            old(store)@.visits,
            old(store)@.places[idx as int].row_id,
            fresh,
            fresh.len(),
        ),
        all_validated(taken@),
    ensures
        final(store).wf(),
        final(store)@ == spec_merge(
            old(store)@,
            idx as int,
            fresh,
            opt_text(*title),
            opt_text(*unknown_fields),
            now.0,
            incr as int,
        ),
{
    let place_id = store.places()[idx].row_id;
    proof {
        assert(old(store)@.places[idx as int].row_id == place_id.0);
    }
    insert_synced(store, place_id, taken);
    rescore(store, idx, now, None);
    let mut p = store.places()[idx].duplicate();
    match title {
        Some(t) => {
            p.title = t.clone();
        },
        None => {},
    }
    p.unknown_fields = clone_opt_string(unknown_fields);
    p.sync_status = SyncStatus::Normal;
    p.sync_change_counter = p.sync_change_counter + incr;
    store.replace_place(idx, p);
}

/// Applies the visits of a remote record to the place of `url`. The visits
/// are taken as validated: each transition tag is one of a visit type.
pub fn apply_synced_visits(
    store: &mut HistoryStore,
    incoming_guid: &str,
    url: &str,
    title: &Option<String>,
    visits: &Vec<HistoryRecordVisit>,
    unknown_fields: &Option<String>,
    now: Timestamp,
) -> (r: Result<(), HistoryError>)
    requires
        old(store).wf(),
        all_validated(visits@),
    ensures
        final(store).wf(),
        match spec_synced_visits_error(
            old(store)@,
            incoming_guid@,
            url@,
            record_visits_view(visits@),
        ) {
            Some(e) => r == Err::<(), HistoryError>(e) && final(store)@ == old(store)@,
            None => r == Ok::<(), HistoryError>(()) && final(store)@ == spec_apply_synced_visits(
                old(store)@,
                incoming_guid@,
                url@,
                opt_text(*title),
                record_visits_view(visits@),
                opt_text(*unknown_fields),
                now.0,
            ),
        },
{
    let fresh = fresh_visits(visits, store.deletion_high_water_mark());
    let ghost fresh_view = record_visits_view(fresh@);
    match store.find_place_by_url(url) {
        None => {
            if fresh.len() == 0 {
                return Ok(());
            }
            if store.find_place_by_guid(incoming_guid).is_some() {
                return Err(HistoryError::GuidInUse);
            }
            if !store.has_room_for_place() {
                return Err(HistoryError::RowIdsExhausted);
            }
            let taken = accept(store, store.next_place_id(), &fresh);
            if !store.has_room_for_visits(taken.len()) {
                return Err(HistoryError::RowIdsExhausted);
            }
            let idx = store.push_place(incoming_guid.to_owned(), url.to_owned());
            merge(store, idx, &taken, title, unknown_fields, now, 0, Ghost(fresh_view));
            Ok(())
        },
        Some(idx) => {
            let differs = !str_eq(store.places()[idx].guid.as_str(), incoming_guid);
            let adopt = differs && match store.places()[idx].sync_status {
                SyncStatus::New => true,
                _ => false,
            };
            if adopt && store.find_place_by_guid(incoming_guid).is_some() {
                return Err(HistoryError::GuidInUse);
            }
            let taken = accept(store, store.places()[idx].row_id, &fresh);
            if !store.has_room_for_visits(taken.len()) {
                return Err(HistoryError::RowIdsExhausted);
            }
            if differs && store.places()[idx].sync_change_counter == u32::MAX {
                return Err(HistoryError::CounterOverflow);
            }
            if adopt {
                let mut p = store.places()[idx].duplicate();
                p.guid = incoming_guid.to_owned();
                store.replace_place(idx, p);
            }
            let incr: u32 = if differs {
                1
            } else {
                0
            };
            merge(store, idx, &taken, title, unknown_fields, now, incr, Ghost(fresh_view));
            Ok(())
        },
    }
}

/// Seconds that an uploaded history record lives on the server: sixty days.
pub const HISTORY_TTL: u32 = 5_184_000;

/// What the server is told about a record beside its content.
#[derive(Debug)]
pub struct OutgoingEnvelope {
    pub id: String,
    pub sortindex: Option<i32>,
    pub ttl: Option<u32>,
}

/// The content of a history record: a place and its most recent visits.
#[derive(Debug)]
pub struct HistoryRecord {
    pub id: String,
    pub title: String,
    pub hist_uri: String,
    pub visits: Vec<HistoryRecordVisit>,
    pub unknown_fields: Option<String>,
}

/// A record to upload: a place with its visits, or the tombstone of a place
/// where there is no content.
#[derive(Debug)]
pub struct OutgoingBso {
    pub envelope: OutgoingEnvelope,
    pub payload: Option<HistoryRecord>,
}

/// The content of a history record as plain values.
pub struct RecordView {
    pub id: Seq<char>,
    pub title: Seq<char>,
    pub hist_uri: Seq<char>,
    pub visits: Seq<RecordVisitView>,
    pub unknown_fields: Option<Seq<char>>,
}

/// A record to upload as plain values.
pub struct OutgoingView {
    pub id: Seq<char>,
    pub sortindex: Option<i32>,
    pub ttl: Option<u32>,
    pub payload: Option<RecordView>,
}

impl View for HistoryRecord {
    type V = RecordView;

    open spec fn view(&self) -> RecordView {
        RecordView {
            id: self.id@,
            title: self.title@,
            hist_uri: self.hist_uri@,
            visits: record_visits_view(self.visits@),
            unknown_fields: opt_text(self.unknown_fields),
        }
    }
}

impl View for OutgoingBso {
    type V = OutgoingView;

    open spec fn view(&self) -> OutgoingView {
        OutgoingView {
            id: self.envelope.id@,
            sortindex: self.envelope.sortindex,
            ttl: self.envelope.ttl,
            payload: match self.payload {
                Some(r) => Some(r@),
                None => None,
            },
        }
    }
}

impl OutgoingBso {
    /// The record that tells the server that a place is gone.
    pub fn new_tombstone(envelope: OutgoingEnvelope) -> (r: OutgoingBso)
        ensures
            r.envelope == envelope,
            r.payload is None,
    {
        OutgoingBso { envelope, payload: None }
    }

    /// The record that carries `content`.
    pub fn from_content(envelope: OutgoingEnvelope, content: HistoryRecord) -> (r: OutgoingBso)
        ensures
            r.envelope == envelope,
            r.payload == Some(content),
    {
        OutgoingBso { envelope, payload: Some(content) }
    }

    /// Whether the record is the tombstone of a place.
    pub fn is_tombstone(&self) -> (r: bool)
        ensures
            r == (self@.payload is None),
    {
        self.payload.is_none()
    }
}

pub open spec fn outgoing_view(s: Seq<OutgoingBso>) -> Seq<OutgoingView> {
    s.map_values(|b: OutgoingBso| b@)
}

/// True for a place that has something to upload: it has changed or was
/// never synced, and it is not hidden.
pub open spec fn is_outgoing() -> spec_fn(PlaceView) -> bool {
    |p: PlaceView|
        (p.sync_change_counter > 0 || p.sync_status != SyncStatus::Normal) && !p.hidden
}

/// Orders places by falling frecency.
pub open spec fn frecency_key() -> spec_fn(PlaceView) -> Keyed {
    |p: PlaceView| ((i32::MAX - p.frecency) as u64, p.row_id)
}

/// Orders visits from the most recent.
pub open spec fn recency_key() -> spec_fn(VisitView) -> Keyed {
    |v: VisitView| ((u64::MAX - v.visit_date) as u64, v.id)
}

/// The places with something to upload, the most frecent first, as many as
/// the budget allows.
pub open spec fn spec_outgoing_order(s: StoreView, budget: nat) -> Seq<Keyed> {
    at_most(s.places.filter(is_outgoing()).map_values(frecency_key()).sort_by(key_leq()), budget)
}

/// The visits of the place from the most recent, at most `max_visits`.
pub open spec fn spec_recent_keys(s: StoreView, place_id: i64, max_visits: nat) -> Seq<Keyed> {
    at_most(
        s.visits.filter(visit_of(place_id)).map_values(recency_key()).sort_by(key_leq()),
        max_visits,
    )
}

/// A visit as it goes into a record.
pub open spec fn outgoing_visit(v: VisitView) -> RecordVisitView {
    RecordVisitView {
        date: ServerVisitTimestamp::spec_from_timestamp(Timestamp(v.visit_date)).0,
        transition: v.visit_type.spec_as_u8(),
        unknown_fields: v.unknown_fields,
    }
}

/// The visit of the store that a key stands for, as it goes into a record.
pub open spec fn record_visit(s: StoreView) -> spec_fn(Keyed) -> RecordVisitView {
    |k: Keyed|
        match position(s.visits, has_visit_id(k.1)) {
            Some(i) => outgoing_visit(s.visits[i]),
            None => RecordVisitView { date: 0, transition: 0, unknown_fields: None },
        }
}

/// The most recent visits of the place as they go into its record.
pub open spec fn spec_recent_visits(
    s: StoreView,
    place_id: i64,
    max_visits: nat,
) -> Seq<RecordVisitView> {
    spec_recent_keys(s, place_id, max_visits).map_values(record_visit(s))
}

/// The record of the place at `idx`, or nothing where its tombstone goes
/// out in the same upload or it has no visit to send.
pub open spec fn spec_outgoing_record(
    s: StoreView,
    idx: int,
    sent: Seq<Seq<char>>,
    max_visits: nat,
) -> Option<OutgoingView> {
    let p = s.places[idx];
    let visits = spec_recent_visits(s, p.row_id, max_visits);
    if sent.contains(p.guid) || visits.len() == 0 {
        None
    } else {
        Some(
            OutgoingView {
                id: p.guid,
                sortindex: Some(p.frecency),
                ttl: Some(HISTORY_TTL),
                payload: Some(
                    RecordView {
                        id: p.guid,
                        title: p.title,
                        hist_uri: p.url,
                        visits,
                        unknown_fields: p.unknown_fields,
                    },
                ),
            },
        )
    }
}

/// A place whose record is handed to the upload: it counts as synced at once.
pub open spec fn sent_place(p: PlaceView) -> PlaceView {
    PlaceView { sync_status: SyncStatus::Normal, ..p }
}

/// The store and the records after the first `n` of the chosen places are
/// gone through: each place that has a record is staged at its change
/// counter and marked as synced.
pub open spec fn spec_emit(
    s: StoreView,
    keys: Seq<Keyed>,
    sent: Seq<Seq<char>>,
    max_visits: nat,
    n: nat,
) -> (StoreView, Seq<OutgoingView>)
    decreases n,
{
    if n == 0 || n > keys.len() {
        (s, Seq::empty())
    } else {
        let (t, out) = spec_emit(s, keys, sent, max_visits, (n - 1) as nat);
        match t.place_by_id(keys[n - 1].1) {
            Some(i) => match spec_outgoing_record(t, i, sent, max_visits) {
                Some(record) => (
                    t.stage(t.places[i].row_id, t.places[i].sync_change_counter).set_place(
                        i,
                        sent_place(t.places[i]),
                    ),
                    out.push(record),
                ),
                None => (t, out),
            },
            None => (t, out),
        }
    }
}

/// The record that tells the server that the place with the GUID is gone.
pub open spec fn tombstone_record() -> spec_fn(Seq<char>) -> OutgoingView {
    |guid: Seq<char>|
        OutgoingView { id: guid, sortindex: None, ttl: Some(HISTORY_TTL), payload: None }
}

/// The store after an upload is staged, and the records to upload: first
/// the tombstones, at most `max_places`, then with what is left of that
/// budget the places with something to upload, the most frecent first, each
/// with at most `max_visits` of its most recent visits.
pub open spec fn spec_fetch_outgoing(
    s: StoreView,
    max_places: nat,
    max_visits: nat,
) -> (StoreView, Seq<OutgoingView>) {
    let sent = at_most(s.place_tombstones, max_places);
    let keys = spec_outgoing_order(s, (max_places - sent.len()) as nat);
    let (t, records) = spec_emit(s, keys, sent, max_visits, keys.len());
    (t, sent.map_values(tombstone_record()) + records)
}

/// The places with something to upload, in the order they go out.
fn outgoing_order(store: &HistoryStore, budget: usize) -> (r: Vec<Keyed>)
    ensures
        r@ == spec_outgoing_order(store@, budget as nat),
{
    let ghost src = store@.places;
    let ghost keep = is_outgoing();
    let ghost f = frecency_key();
    let mut keys: Vec<Keyed> = Vec::new();
    let mut i: usize = 0;
    while i < store.places().len()
        invariant
            i <= src.len(),
            src == store@.places,
            keep == is_outgoing(),
            f == frecency_key(),
            keys@ == src.take(i as int).filter(keep).map_values(f),
        decreases src.len() - i,
    {
        proof {
            lemma_filter_take_succ(src, keep, i as int);
        }
        let p = &store.places()[i];
        let dirty = p.sync_change_counter > 0 || match p.sync_status {
            SyncStatus::Normal => false,
            _ => true,
        };
        if dirty && !p.hidden {
            let key: u64 = (i32::MAX as i64 - p.frecency as i64) as u64;
            keys.push((key, p.row_id.0));
            proof {
                let prev = src.take(i as int).filter(keep);
                assert(prev.push(src[i as int]).map_values(f) =~= prev.map_values(f).push(
                    f(src[i as int]),
                ));
            }
        }
        i += 1;
    }
    proof {
        assert(src.take(src.len() as int) =~= src);
    }
    let mut sorted = sort_keys(&keys);
    sorted.truncate(budget);
    sorted
}

/// The visit that a key stands for, as it goes into a record.
fn record_visit_of(store: &HistoryStore, key: Keyed) -> (r: HistoryRecordVisit)
    ensures
        r@ == record_visit(store@)(key),
{
    match store.find_visit_by_id(RowId(key.1)) {
        Some(at) => {
            let v = &store.visits()[at];
            HistoryRecordVisit {
                date: ServerVisitTimestamp::from_timestamp(v.visit_date),
                transition: v.visit_type.as_u8(),
                unknown_fields: clone_opt_string(&v.unknown_fields),
            }
        },
        None => HistoryRecordVisit {
            date: ServerVisitTimestamp(0),
            transition: 0,
            unknown_fields: None,
        },
    }
}

/// The keys of the visits of the place from the most recent, at most
/// `max_visits`.
fn recent_keys(store: &HistoryStore, place_id: RowId, max_visits: usize) -> (r: Vec<Keyed>)
    ensures
        r@ == spec_recent_keys(store@, place_id.0, max_visits as nat),
{
    let ghost src = store@.visits;
    let ghost keep = visit_of(place_id.0);
    let ghost f = recency_key();
    let mut keys: Vec<Keyed> = Vec::new();
    let mut i: usize = 0;
    while i < store.visits().len()
        invariant
            i <= src.len(),
            src == store@.visits,
            keep == visit_of(place_id.0),
            f == recency_key(),
            keys@ == src.take(i as int).filter(keep).map_values(f),
        decreases src.len() - i,
    {
        proof {
            lemma_filter_take_succ(src, keep, i as int);
        }
        let v = &store.visits()[i];
        if v.place_id.0 == place_id.0 {
            keys.push((u64::MAX - v.visit_date.0, v.id.0));
            proof {
                let prev = src.take(i as int).filter(keep);
                assert(prev.push(src[i as int]).map_values(f) =~= prev.map_values(f).push(
                    f(src[i as int]),
                ));
            }
        }
        i += 1;
    }
    proof {
        assert(src.take(src.len() as int) =~= src);
    }
    let mut sorted = sort_keys(&keys);
    sorted.truncate(max_visits);
    sorted
}

/// The most recent visits of the place as they go into its record.
fn recent_visits(store: &HistoryStore, place_id: RowId, max_visits: usize) -> (r: Vec<
    HistoryRecordVisit,
>)
    ensures
        record_visits_view(r@) == spec_recent_visits(store@, place_id.0, max_visits as nat),
{
    let sorted = recent_keys(store, place_id, max_visits);
    let ghost chosen = sorted@;
    let ghost g = record_visit(store@);
    let mut out: Vec<HistoryRecordVisit> = Vec::new();
    let mut k: usize = 0;
    while k < sorted.len()
        invariant
            k <= sorted@.len(),
            chosen == sorted@,
            g == record_visit(store@),
            record_visits_view(out@) == chosen.take(k as int).map_values(g),
        decreases sorted.len() - k,
    {
        let visit = record_visit_of(store, sorted[k]);
        let ghost before = out@;
        out.push(visit);
        proof {
            lemma_take_succ(chosen, k as int);
            assert(visit@ == g(chosen[k as int]));
            assert(chosen.take(k + 1).map_values(g) =~= chosen.take(k as int).map_values(g).push(
                g(chosen[k as int]),
            ));
            assert(record_visits_view(out@) =~= record_visits_view(before).push(visit@));
        }
        k += 1;
    }
    proof {
        assert(chosen.take(chosen.len() as int) =~= chosen);
    }
    out
}

/// Whether `guid` is among the first `n` place tombstones.
fn is_sent(store: &HistoryStore, n: usize, guid: &String) -> (r: bool)
    requires
        n <= store@.place_tombstones.len(),
    ensures
        r == store@.place_tombstones.take(n as int).contains(guid@),
{
    let tombstones = store.place_tombstones();
    let ghost sent = store@.place_tombstones.take(n as int);
    let mut i: usize = 0;
    while i < n
        invariant
            i <= n,
            n <= tombstones@.len(),
            texts_view(tombstones@) == store@.place_tombstones,
            sent == store@.place_tombstones.take(n as int),
            forall|j: int| 0 <= j < i ==> sent[j] != guid@,
        decreases n - i,
    {
        if tombstones[i] == *guid {
            assert(sent[i as int] == guid@);
            return true;
        }
        i += 1;
    }
    false
}

/// Goes through one chosen place: hands out its record, if it has one, and
/// stages the place.
fn emit_place(
    store: &mut HistoryStore,
    key: Keyed,
    sent_count: usize,
    max_visits: usize,
    out: &mut Vec<OutgoingBso>,
    Ghost(sent): Ghost<Seq<Seq<char>>>,
)
    requires
        old(store).wf(),
        sent_count <= old(store)@.place_tombstones.len(),
        sent == old(store)@.place_tombstones.take(sent_count as int),
    ensures
        final(store).wf(),
        final(store)@.place_tombstones == old(store)@.place_tombstones,
        match old(store)@.place_by_id(key.1) {
            Some(i) => match spec_outgoing_record(old(store)@, i, sent, max_visits as nat) {
                Some(record) => {
                    &&& final(store)@ == old(store)@.stage(
                        old(store)@.places[i].row_id,
                        old(store)@.places[i].sync_change_counter,
                    ).set_place(i, sent_place(old(store)@.places[i]))
                    &&& outgoing_view(final(out)@) == outgoing_view(old(out)@).push(record)
                },
                None => final(store)@ == old(store)@ && final(out)@ == old(out)@,
            },
            None => final(store)@ == old(store)@ && final(out)@ == old(out)@,
        },
{
    let idx = match store.find_place_by_id(RowId(key.1)) {
        Some(i) => i,
        None => {
            return ;
        },
    };
    let place = store.places()[idx].duplicate();
    let visits = recent_visits(store, place.row_id, max_visits);
    if is_sent(store, sent_count, &place.guid) {
        return ;
    }
    if visits.len() == 0 {
        return ;
    }
    let content = HistoryRecord {
        id: place.guid.clone(),
        title: place.title.clone(),
        hist_uri: place.url.clone(),
        visits,
        unknown_fields: clone_opt_string(&place.unknown_fields),
    };
    let envelope = OutgoingEnvelope {
        id: place.guid.clone(),
        sortindex: Some(place.frecency),
        ttl: Some(HISTORY_TTL),
    };
    let bso = OutgoingBso::from_content(envelope, content);
    let ghost before = out@;
    out.push(bso);
    proof {
        assert(outgoing_view(out@) =~= outgoing_view(before).push(bso@));
    }
    store.stage(place.row_id, place.sync_change_counter);
    let mut marked = place;
    marked.sync_status = SyncStatus::Normal;
    store.replace_place(idx, marked);
}

/// Stages an upload and hands out its records: tombstones first, then the
/// places with something to upload. Each place handed out counts as synced
/// at once, so that an interrupted upload cannot leave it new for ever.
pub fn fetch_outgoing(store: &mut HistoryStore, max_places: usize, max_visits: usize) -> (r: Vec<
    OutgoingBso,
>)
    requires
        old(store).wf(),
    ensures
        final(store).wf(),
        final(store)@ == spec_fetch_outgoing(old(store)@, max_places as nat, max_visits as nat).0,
        outgoing_view(r@) == spec_fetch_outgoing(
            old(store)@,
            max_places as nat,
            max_visits as nat,
        ).1,
{
    let ghost all = store@.place_tombstones;
    let ghost sent = at_most(all, max_places as nat);
    let ghost make = tombstone_record();
    let sent_count: usize = if max_places < store.place_tombstones().len() {
        max_places
    } else {
        store.place_tombstones().len()
    };
    let mut result: Vec<OutgoingBso> = Vec::new();
    let mut i: usize = 0;
    while i < sent_count
        invariant
            i <= sent_count,
            sent_count == sent.len(),
            store@ == old(store)@,
            all == store@.place_tombstones,
            sent == at_most(all, max_places as nat),
            make == tombstone_record(),
            outgoing_view(result@) == sent.take(i as int).map_values(make),
        decreases sent_count - i,
    {
        let envelope = OutgoingEnvelope {
            id: store.place_tombstones()[i].clone(),
            sortindex: None,
            ttl: Some(HISTORY_TTL),
        };
        let bso = OutgoingBso::new_tombstone(envelope);
        let ghost before = result@;
        result.push(bso);
        proof {
            lemma_take_succ(sent, i as int);
            assert(bso@ == make(sent[i as int]));
            assert(sent.take(i + 1).map_values(make) =~= sent.take(i as int).map_values(make).push(
                make(sent[i as int]),
            ));
            assert(outgoing_view(result@) =~= outgoing_view(before).push(bso@));
        }
        i += 1;
    }
    proof {
        assert(sent.take(sent.len() as int) =~= sent);
        assert(sent =~= all.take(sent_count as int));
    }
    let keys = outgoing_order(store, max_places - sent_count);
    let ghost prefix = sent.map_values(make);
    let mut k: usize = 0;
    while k < keys.len()
        invariant
            k <= keys@.len(),
            store.wf(),
            store@.place_tombstones == all,
            sent_count <= all.len(),
            sent == all.take(sent_count as int),
            prefix == sent.map_values(make),
            store@ == spec_emit(old(store)@, keys@, sent, max_visits as nat, k as nat).0,
            outgoing_view(result@) == prefix + spec_emit(
                old(store)@,
                keys@,
                sent,
                max_visits as nat,
                k as nat,
            ).1,
        decreases keys.len() - k,
    {
        let ghost before = outgoing_view(result@);
        let ghost emitted = spec_emit(old(store)@, keys@, sent, max_visits as nat, k as nat).1;
        emit_place(store, keys[k], sent_count, max_visits, &mut result, Ghost(sent));
        proof {
            let after = spec_emit(old(store)@, keys@, sent, max_visits as nat, (k + 1) as nat).1;
            if after != emitted {
                assert(prefix + emitted.push(after.last()) =~= (prefix + emitted).push(after.last()));
            } else {
                assert(outgoing_view(result@) == before);
            }
        }
        k += 1;
    }
    result
}

} // verus!
