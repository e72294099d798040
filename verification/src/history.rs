//! The history engine: observations, deletions, pruning and queries over
//! the store.

use crate::frecency::{default_settings, FrecencySettings};
use crate::model::{has_guid, has_place, keeps_identity, PlaceView, StoreView, VisitView};
use crate::observation::{ObservationView, VisitObservation};
use crate::seq_util::{lemma_filter_take_succ, lemma_position, lemma_take_succ, position};
use crate::store::{opt_text, places_view, HistoryStore, Place};
use crate::text::{byte_len, slice_up_to, spec_slice_up_to};
use crate::types::{
    HistoryError, RowId, SyncStatus, Timestamp, VisitType, TITLE_LENGTH_MAX, URL_LENGTH_MAX,
};
use vstd::prelude::*;
use vstd::string::*;

pub mod history_sync;
pub mod prune;
pub mod read;

pub use self::prune::{
    find_exotic_visits_to_prune, find_normal_visits_to_prune, find_visits_to_prune,
    prune_older_visits, VisitToDelete,
};

verus! {

/// The store with the frecency of the place at `idx` computed anew.
pub open spec fn spec_rescore(
    s: StoreView,
    idx: int,
    now: u64,
    redirect_boost: Option<bool>,
) -> StoreView {
    s.set_place(
        idx,
        PlaceView {
            frecency: default_settings().spec_score(s.places[idx], s.visits, now, redirect_boost) as i32,
            ..s.places[idx]
        },
    )
}

/// The place that an observation leaves, given the place it found: the title
/// cut to its limit, the preview image kept unless a valid new one came, the
/// hidden flag cleared by a visit that is not hidden, the typed count raised
/// by a typed visit, and the change counter raised once when a title or a
/// visit came.
pub open spec fn observed_place(p: PlaceView, ob: ObservationView) -> PlaceView {
    PlaceView {
        title: match ob.title {
            Some(t) => spec_slice_up_to(t, TITLE_LENGTH_MAX as int),
            None => p.title,
        },
        preview_image_url: match ob.preview_image_url {
            Some(u) => if byte_len(u) <= URL_LENGTH_MAX {
                Some(u)
            } else {
                p.preview_image_url
            },
            None => p.preview_image_url,
        },
        hidden: if ob.visit_type is Some && !ob.is_hidden() {
            false
        } else {
            p.hidden
        },
        typed: if ob.visit_type == Some(VisitType::Typed) {
            (p.typed + 1) as u32
        } else {
            p.typed
        },
        sync_change_counter: if ob.title is Some || ob.visit_type is Some {
            (p.sync_change_counter + 1) as u32
        } else {
            p.sync_change_counter
        },
        ..p
    }
}

/// Why an observation is refused, if it is: the fresh GUID is taken, no row
/// identifier is left, or a counter of the place cannot grow. An observation
/// of an overlong URL is never refused: it is ignored.
pub open spec fn spec_observation_error(
    s: StoreView,
    ob: ObservationView,
    fresh_guid: Seq<char>,
) -> Option<HistoryError> {
    if byte_len(ob.url) > URL_LENGTH_MAX {
        None
    } else if ob.visit_type is Some && s.next_visit_id >= i64::MAX {
        Some(HistoryError::RowIdsExhausted)
    } else {
        match s.place_by_url(ob.url) {
            None => if s.place_by_guid(fresh_guid) is Some {
                Some(HistoryError::GuidInUse)
            } else if s.next_place_id >= i64::MAX {
                Some(HistoryError::RowIdsExhausted)
            } else {
                None
            },
            Some(i) => if ob.visit_type == Some(VisitType::Typed) && s.places[i].typed
                == u32::MAX {
                Some(HistoryError::CounterOverflow)
            } else if (ob.title is Some || ob.visit_type is Some)
                && s.places[i].sync_change_counter == u32::MAX {
                Some(HistoryError::CounterOverflow)
            } else {
                None
            },
        }
    }
}

/// The store with a place for `url`, made with `fresh_guid` where none
/// was there, and the position of that place.
pub open spec fn spec_resolve_place(
    s: StoreView,
    url: Seq<char>,
    fresh_guid: Seq<char>,
) -> (StoreView, int) {
    match s.place_by_url(url) {
        Some(i) => (s, i),
        None => (s.insert_place(fresh_guid, url), s.places.len() as int),
    }
}

/// The store with the visit of the observation recorded, if it has one,
/// winning over a tombstone of the same instant.
pub open spec fn spec_record_visit(
    s: StoreView,
    place_id: i64,
    ob: ObservationView,
    now: u64,
) -> StoreView {
    let at = match ob.at {
        Some(t) => t,
        None => now,
    };
    match ob.visit_type {
        Some(t) => s.add_visit(place_id, None, at, t, ob.is_remote != Some(true), None),
        None => s,
    }
}

/// The store with what the observation says of the place written to it.
pub open spec fn spec_note_observation(s: StoreView, idx: int, ob: ObservationView) -> StoreView {
    s.set_place(idx, observed_place(s.places[idx], ob))
}

/// The store after an observation that is not refused, and the row
/// identifier of the visit that it added, if it added one.
pub open spec fn spec_apply_observation(
    s: StoreView,
    ob: ObservationView,
    now: u64,
    fresh_guid: Seq<char>,
) -> (StoreView, Option<i64>) {
    if byte_len(ob.url) > URL_LENGTH_MAX {
        (s, None)
    } else {
        let (s1, idx) = spec_resolve_place(s, ob.url, fresh_guid);
        let s2 = spec_record_visit(s1, s1.places[idx].row_id, ob, now);
        let s3 = spec_note_observation(s2, idx, ob);
        let s4 = if ob.visit_type is Some && ob.is_error != Some(true) {
            spec_rescore(s3, idx, now, Some(ob.redirect_frecency_boost()))
        } else {
            s3
        };
        (
            s4,
            if ob.visit_type is Some {
                Some(s.next_visit_id)
            } else {
                None
            },
        )
    }
}

/// Computes the frecency of the place at `idx` anew.
pub(crate) fn rescore(store: &mut HistoryStore, idx: usize, now: Timestamp, redirect_boost: Option<bool>)
    requires
        old(store).wf(),
        idx < old(store)@.places.len(),
    ensures
        final(store)@ == spec_rescore(old(store)@, idx as int, now.0, redirect_boost),
        final(store).wf(),
{
    let settings = FrecencySettings::default();
    let score = settings.score(&store.places()[idx], store.visits(), now, redirect_boost);
    let mut place = store.places()[idx].duplicate();
    place.frecency = score;
    store.replace_place(idx, place);
}

/// Computes the frecency of a place anew and writes it to the place.
pub fn update_frecency(
    store: &mut HistoryStore,
    id: RowId,
    redirect_boost: Option<bool>,
    now: Timestamp,
) -> (r: Result<(), HistoryError>)
    requires
        old(store).wf(),
    ensures
        final(store).wf(),
        match old(store)@.place_by_id(id.0) {
            Some(idx) => r == Ok::<(), HistoryError>(()) && final(store)@ == spec_rescore(
                old(store)@,
                idx,
                now.0,
                redirect_boost,
            ),
            None => r == Err::<(), HistoryError>(HistoryError::NoSuchPlace) && final(store)@ == old(
                store,
            )@,
        },
{
    match store.find_place_by_id(id) {
        Some(idx) => {
            rescore(store, idx, now, redirect_boost);
            Ok(())
        },
        None => Err(HistoryError::NoSuchPlace),
    }
}

/// Applies one observation in a single step: either all of it is applied or,
/// when it is refused, nothing is.
pub fn apply_observation(
    store: &mut HistoryStore,
    visit_ob: VisitObservation,
    now: Timestamp,
    fresh_guid: String,
) -> (r: Result<Option<RowId>, HistoryError>)
    requires
        old(store).wf(),
    ensures
        final(store).wf(),
        byte_len(visit_ob@.url) > URL_LENGTH_MAX ==> r == Ok::<Option<RowId>, HistoryError>(None)
            && final(store)@ == old(store)@,
        match spec_observation_error(old(store)@, visit_ob@, fresh_guid@) {
            Some(e) => r == Err::<Option<RowId>, HistoryError>(e) && final(store)@ == old(store)@,
            None => {
                let (after, visit) = spec_apply_observation(
                    old(store)@,
                    visit_ob@,
                    now.0,
                    fresh_guid@,
                );
                &&& final(store)@ == after
                &&& r matches Ok(v)
                &&& visit == match v {
                    Some(id) => Some(id.0),
                    None => None,
                }
            },
        },
{
    apply_observation_direct(store, visit_ob, now, fresh_guid)
}

/// Records a visit of an existing place.
pub(crate) fn record(
    store: &mut HistoryStore,
    page_id: RowId,
    from_visit: Option<RowId>,
    visit_date: Timestamp,
    visit_type: VisitType,
    is_local: bool,
    unknown_fields: Option<String>,
) -> (id: RowId)
    requires
        old(store).wf(),
        has_place(old(store)@.places, page_id.0),
        old(store)@.next_visit_id < i64::MAX,
    ensures
        final(store).wf(),
        final(store)@ == old(store)@.add_visit(
            page_id.0,
            match from_visit {
                Some(r) => Some(r.0),
                None => None,
            },
            visit_date.0,
            visit_type,
            is_local,
            opt_text(unknown_fields),
        ),
        id.0 == old(store)@.next_visit_id,
{
    let id = store.push_visit(page_id, from_visit, visit_date, visit_type, is_local, unknown_fields);
    store.remove_visit_tombstone(page_id, visit_date);
    id
}

/// Why a visit cannot be added, if it cannot: its place is not there, or no
/// row identifier is left.
pub open spec fn spec_add_visit_error(s: StoreView, place_id: i64) -> Option<HistoryError> {
    if !has_place(s.places, place_id) {
        Some(HistoryError::NoSuchPlace)
    } else if s.next_visit_id >= i64::MAX {
        Some(HistoryError::RowIdsExhausted)
    } else {
        None
    }
}

/// Adds a single visit to the place with the row identifier `page_id`, and
/// gives the visit's row identifier. A tombstone of the same place and
/// instant gives way to the visit. The place itself is left as it is: its
/// change counter and frecency are the caller's to update.
pub fn add_visit(
    store: &mut HistoryStore,
    page_id: RowId,
    from_visit: Option<RowId>,
    visit_date: Timestamp,
    visit_type: VisitType,
    is_local: bool,
    unknown_fields: Option<String>,
) -> (r: Result<RowId, HistoryError>)
    requires
        old(store).wf(),
    ensures
        final(store).wf(),
        match spec_add_visit_error(old(store)@, page_id.0) {
            Some(e) => r == Err::<RowId, HistoryError>(e) && final(store)@ == old(store)@,
            None => {
                &&& r matches Ok(id)
                &&& id.0 == old(store)@.next_visit_id
                &&& final(store)@ == old(store)@.add_visit(
                    page_id.0,
                    match from_visit {
                        Some(f) => Some(f.0),
                        None => None,
                    },
                    visit_date.0,
                    visit_type,
                    is_local,
                    opt_text(unknown_fields),
                )
            },
        },
{
    if store.find_place_by_id(page_id).is_none() {
        return Err(HistoryError::NoSuchPlace);
    }
    if !store.has_room_for_visit() {
        return Err(HistoryError::RowIdsExhausted);
    }
    Ok(record(store, page_id, from_visit, visit_date, visit_type, is_local, unknown_fields))
}

/// Looks for what would refuse the observation, and for the place of its URL.
fn check_observation(store: &HistoryStore, visit_ob: &VisitObservation, fresh_guid: &str) -> (r:
    Result<Option<usize>, HistoryError>)
    requires
        store.wf(),
        byte_len(visit_ob@.url) <= URL_LENGTH_MAX,
    ensures
        match spec_observation_error(store@, visit_ob@, fresh_guid@) {
            Some(e) => r == Err::<Option<usize>, HistoryError>(e),
            None => {
                &&& r matches Ok(found)
                &&& store@.place_by_url(visit_ob@.url) == match found {
                    Some(i) => Some(i as int),
                    None => None,
                }
                &&& found matches Some(i) ==> i < store@.places.len()
            },
        },
{
    let is_typed = match visit_ob.visit_type {
        Some(t) => match t {
            VisitType::Typed => true,
            _ => false,
        },
        None => false,
    };
    let bump = visit_ob.title.is_some() || visit_ob.visit_type.is_some();
    if visit_ob.visit_type.is_some() && !store.has_room_for_visit() {
        return Err(HistoryError::RowIdsExhausted);
    }
    let found = store.find_place_by_url(visit_ob.url.as_str());
    match found {
        Some(i) => {
            let place = &store.places()[i];
            if is_typed && place.typed == u32::MAX {
                return Err(HistoryError::CounterOverflow);
            }
            if bump && place.sync_change_counter == u32::MAX {
                return Err(HistoryError::CounterOverflow);
            }
        },
        None => {
            if store.find_place_by_guid(fresh_guid).is_some() {
                return Err(HistoryError::GuidInUse);
            }
            if !store.has_room_for_place() {
                return Err(HistoryError::RowIdsExhausted);
            }
        },
    }
    Ok(found)
}

/// Records the visit of the observation, if it has one.
fn record_visit(
    store: &mut HistoryStore,
    place_id: RowId,
    visit_ob: &VisitObservation,
    now: Timestamp,
) -> (r: Option<RowId>)
    requires
        old(store).wf(),
        has_place(old(store)@.places, place_id.0),
        visit_ob@.visit_type is Some ==> old(store)@.next_visit_id < i64::MAX,
    ensures
        final(store).wf(),
        final(store)@ == spec_record_visit(old(store)@, place_id.0, visit_ob@, now.0),
        final(store)@.places == old(store)@.places,
        match r {
            Some(id) => visit_ob@.visit_type is Some && id.0 == old(store)@.next_visit_id,
            None => visit_ob@.visit_type is None,
        },
{
    match visit_ob.visit_type {
        Some(visit_type) => {
            let at = match visit_ob.at {
                Some(t) => t,
                None => now,
            };
            let is_remote = match visit_ob.is_remote {
                Some(b) => b,
                None => false,
            };
            let row_id = record(store, place_id, None, at, visit_type, !is_remote, None);
            Some(row_id)
        },
        None => None,
    }
}

/// Writes to the place at `idx` what the observation says of it.
fn note_observation(store: &mut HistoryStore, idx: usize, visit_ob: &VisitObservation)
    requires
        old(store).wf(),
        idx < old(store)@.places.len(),
        visit_ob@.visit_type == Some(VisitType::Typed) ==> old(store)@.places[idx as int].typed
            < u32::MAX,
        visit_ob@.title is Some || visit_ob@.visit_type is Some ==> old(store)@.places[idx as int].sync_change_counter
            < u32::MAX,
    ensures
        final(store).wf(),
        final(store)@ == spec_note_observation(old(store)@, idx as int, visit_ob@),
{
    let mut place = store.places()[idx].duplicate();
    match &visit_ob.title {
        Some(title) => {
            place.title = slice_up_to(title.as_str(), TITLE_LENGTH_MAX).to_owned();
        },
        None => {},
    }
    match &visit_ob.preview_image_url {
        Some(piu) => {
            if piu.as_str().as_bytes().len() <= URL_LENGTH_MAX {
                place.preview_image_url = Some(piu.clone());
            }
        },
        None => {},
    }
    if visit_ob.visit_type.is_some() && !visit_ob.get_is_hidden() {
        place.hidden = false;
    }
    let is_typed = match visit_ob.visit_type {
        Some(t) => match t {
            VisitType::Typed => true,
            _ => false,
        },
        None => false,
    };
    if is_typed {
        place.typed = place.typed + 1;
    }
    if visit_ob.title.is_some() || visit_ob.visit_type.is_some() {
        place.sync_change_counter = place.sync_change_counter + 1;
    }
    proof {
        assert(place@ == observed_place(old(store)@.places[idx as int], visit_ob@));
    }
    store.replace_place(idx, place);
}

/// Applies one observation: resolves or creates the place of the URL, notes
/// what the observation says of the place, records the visit if there is
/// one, and scores the place anew unless the visit was an error.
pub fn apply_observation_direct(
    store: &mut HistoryStore,
    visit_ob: VisitObservation,
    now: Timestamp,
    fresh_guid: String,
) -> (r: Result<Option<RowId>, HistoryError>)
    requires
        old(store).wf(),
    ensures
        final(store).wf(),
        byte_len(visit_ob@.url) > URL_LENGTH_MAX ==> r == Ok::<Option<RowId>, HistoryError>(None)
            && final(store)@ == old(store)@,
        match spec_observation_error(old(store)@, visit_ob@, fresh_guid@) {
            Some(e) => r == Err::<Option<RowId>, HistoryError>(e) && final(store)@ == old(store)@,
            None => {
                let (after, visit) = spec_apply_observation(
                    old(store)@,
                    visit_ob@,
                    now.0,
                    fresh_guid@,
                );
                &&& final(store)@ == after
                &&& r matches Ok(v)
                &&& visit == match v {
                    Some(id) => Some(id.0),
                    None => None,
                }
            },
        },
{
    if visit_ob.url.as_str().as_bytes().len() > URL_LENGTH_MAX {
        return Ok(None);
    }
    let found = match check_observation(store, &visit_ob, fresh_guid.as_str()) {
        Ok(found) => found,
        Err(e) => {
            return Err(e);
        },
    };
    let idx = match found {
        Some(i) => i,
        None => store.push_place(fresh_guid, visit_ob.url.clone()),
    };
    let ghost s1 = store@;
    let place_id = store.places()[idx].row_id;
    proof {
        assert(s1 == spec_resolve_place(old(store)@, visit_ob@.url, fresh_guid@).0);
        assert(s1.places[idx as int].row_id == place_id.0);
    }
    let visit_row_id = record_visit(store, place_id, &visit_ob, now);
    note_observation(store, idx, &visit_ob);
    let is_error = match visit_ob.is_error {
        Some(b) => b,
        None => false,
    };
    if visit_ob.visit_type.is_some() && !is_error {
        rescore(store, idx, now, Some(visit_ob.get_redirect_frecency_boost()));
    }
    Ok(visit_row_id)
}

/// What the deletion pipeline knows of a place when it decides its fate.
#[derive(Clone, Copy, Debug, PartialEq, Eq, Structural)]
pub struct PageToClean {
    pub id: RowId,
    pub has_foreign: bool,
    pub has_visits: bool,
    pub sync_status: SyncStatus,
}

/// What deleting a place's history does to the place.
#[derive(Clone, Copy, Debug, PartialEq, Eq, Structural)]
pub enum PageCleanup {
    /// Referenced and synced: the place stays, every visit leaves a tombstone.
    TombstoneVisits,
    /// Synced and not referenced: the place goes and leaves a tombstone.
    TombstonePlace,
    /// Referenced and never synced: the place stays, its visits go unmarked.
    PurgeVisits,
    /// Neither: the place goes without a trace.
    DeletePlace,
}

/// The fate of a place: a referenced place cannot go, and only what the
/// remote side has seen leaves tombstones.
pub open spec fn spec_classify(has_foreign: bool, sync_status: SyncStatus) -> PageCleanup {
    if sync_status == SyncStatus::Normal {
        if has_foreign {
            PageCleanup::TombstoneVisits
        } else {
            PageCleanup::TombstonePlace
        }
    } else {
        if has_foreign {
            PageCleanup::PurgeVisits
        } else {
            PageCleanup::DeletePlace
        }
    }
}

/// Decides the fate of a place whose history is deleted.
pub fn classify(has_foreign: bool, sync_status: SyncStatus) -> (r: PageCleanup)
    ensures
        r == spec_classify(has_foreign, sync_status),
{
    match sync_status {
        SyncStatus::Normal => if has_foreign {
            PageCleanup::TombstoneVisits
        } else {
            PageCleanup::TombstonePlace
        },
        _ => if has_foreign {
            PageCleanup::PurgeVisits
        } else {
            PageCleanup::DeletePlace
        },
    }
}

/// The store after the history of the place at `idx` is deleted.
pub open spec fn spec_clean_place(s: StoreView, idx: int) -> StoreView {
    let p = s.places[idx];
    match spec_classify(p.foreign_count != 0, p.sync_status) {
        PageCleanup::TombstoneVisits => s.insert_tombstones_for_all_page_visits(
            p.row_id,
        ).delete_all_visits_for_page(p.row_id),
        PageCleanup::TombstonePlace => s.add_place_tombstone(p.guid).delete_page(p.row_id),
        PageCleanup::PurgeVisits => s.delete_all_visits_for_page(p.row_id),
        PageCleanup::DeletePlace => s.delete_page(p.row_id),
    }
}

/// The store after the history of the place with `guid` is deleted; a GUID
/// that no place has changes nothing.
pub open spec fn spec_delete_visits_for(s: StoreView, guid: Seq<char>) -> StoreView {
    match s.place_by_guid(guid) {
        Some(idx) => spec_clean_place(s, idx),
        None => s,
    }
}

/// Writes a tombstone for each visit of the place.
pub fn insert_tombstones_for_all_page_visits(store: &mut HistoryStore, page_id: RowId)
    requires
        old(store).wf(),
    ensures
        final(store).wf(),
        final(store)@ == old(store)@.insert_tombstones_for_all_page_visits(page_id.0),
{
    store.tombstone_all_visits(page_id);
}

/// Removes every visit of the place, and nothing else.
pub fn delete_all_visits_for_page(store: &mut HistoryStore, page_id: RowId)
    requires
        old(store).wf(),
    ensures
        final(store).wf(),
        final(store)@ == old(store)@.delete_all_visits_for_page(page_id.0),
{
    store.remove_visits_of(page_id);
}

/// Writes a tombstone for the place that had `guid`.
pub fn insert_tombstone_for_page(store: &mut HistoryStore, guid: &str)
    requires
        old(store).wf(),
    ensures
        final(store).wf(),
        final(store)@ == old(store)@.add_place_tombstone(guid@),
{
    store.add_place_tombstone(guid);
}

/// Deletes a place with its visits and visit tombstones. A place that a
/// bookmark or keyword points at is not deleted.
pub fn delete_page(store: &mut HistoryStore, page_id: RowId) -> (r: Result<(), HistoryError>)
    requires
        old(store).wf(),
    ensures
        final(store).wf(),
        match old(store)@.place_by_id(page_id.0) {
            Some(idx) => if old(store)@.places[idx].foreign_count != 0 {
                r == Err::<(), HistoryError>(HistoryError::PlaceReferenced) && final(store)@ == old(
                    store,
                )@
            } else {
                r == Ok::<(), HistoryError>(()) && final(store)@ == old(store)@.delete_page(
                    page_id.0,
                )
            },
            None => r == Ok::<(), HistoryError>(()) && final(store)@ == old(store)@.delete_page(
                page_id.0,
            ),
        },
{
    match store.find_place_by_id(page_id) {
        Some(idx) => {
            if store.places()[idx].foreign_count != 0 {
                return Err(HistoryError::PlaceReferenced);
            }
        },
        None => {},
    }
    store.remove_place(page_id);
    Ok(())
}

/// Deletes the history of the place with `guid`, leaving the tombstones
/// that its fate calls for.
pub fn delete_visits_for_in_tx(store: &mut HistoryStore, guid: &str)
    requires
        old(store).wf(),
    ensures
        final(store).wf(),
        final(store)@ == spec_delete_visits_for(old(store)@, guid@),
{
    match store.find_place_by_guid(guid) {
        Some(idx) => {
            let id = store.places()[idx].row_id;
            let has_foreign = store.places()[idx].foreign_count != 0;
            let status = store.places()[idx].sync_status;
            proof {
                assert(store@.places[idx as int].guid == guid@) by {
                    lemma_position(store@.places, has_guid(guid@));
                }
            }
            match classify(has_foreign, status) {
                PageCleanup::TombstoneVisits => {
                    store.tombstone_all_visits(id);
                    store.remove_visits_of(id);
                },
                PageCleanup::TombstonePlace => {
                    store.add_place_tombstone(guid);
                    store.remove_place(id);
                },
                PageCleanup::PurgeVisits => {
                    store.remove_visits_of(id);
                },
                PageCleanup::DeletePlace => {
                    store.remove_place(id);
                },
            }
        },
        None => {},
    }
}

/// Deletes all visits of the place with the given GUID, creating tombstones
/// where they are due.
pub fn delete_visits_for(store: &mut HistoryStore, guid: &str)
    requires
        old(store).wf(),
    ensures
        final(store).wf(),
        final(store)@ == spec_delete_visits_for(old(store)@, guid@),
{
    delete_visits_for_in_tx(store, guid)
}

/// What the cleanup knows of the place with row identifier `id`.
pub open spec fn spec_page_to_clean(s: StoreView, id: i64) -> PageToClean {
    PageToClean {
        id: RowId(id),
        has_foreign: match s.place_by_id(id) {
            Some(i) => s.places[i].foreign_count != 0,
            None => false,
        },
        has_visits: s.has_visits(id),
        sync_status: match s.place_by_id(id) {
            Some(i) => s.places[i].sync_status,
            None => SyncStatus::Unknown,
        },
    }
}

/// What the cleanup knows of the place of a visit.
pub open spec fn page_of(s: StoreView) -> spec_fn(VisitView) -> PageToClean {
    |v: VisitView| spec_page_to_clean(s, v.place_id)
}

/// The store with the frecency computed anew for those of the first `n`
/// pages that are referenced or still visited.
pub open spec fn spec_rescore_pages(
    s: StoreView,
    pages: Seq<PageToClean>,
    now: u64,
    n: nat,
) -> StoreView
    decreases n,
{
    if n == 0 || n > pages.len() {
        s
    } else {
        let t = spec_rescore_pages(s, pages, now, (n - 1) as nat);
        let p = pages[n - 1];
        if p.has_foreign || p.has_visits {
            match t.place_by_id(p.id.0) {
                Some(i) => spec_rescore(t, i, now, None),
                None => t,
            }
        } else {
            t
        }
    }
}

/// The store without the place `id` if nothing refers to it and no visit of
/// it is left; a place that the remote side has seen leaves a tombstone.
pub open spec fn spec_remove_orphan(s: StoreView, id: i64) -> StoreView {
    match s.place_by_id(id) {
        Some(i) => if s.places[i].foreign_count == 0 && !s.has_visits(id) {
            if s.places[i].sync_status == SyncStatus::Normal {
                s.add_place_tombstone(s.places[i].guid).delete_page(id)
            } else {
                s.delete_page(id)
            }
        } else {
            s
        },
        None => s,
    }
}

/// The store without those of the first `n` pages that were seen orphaned
/// and still are.
pub open spec fn spec_remove_orphans(s: StoreView, pages: Seq<PageToClean>, n: nat) -> StoreView
    decreases n,
{
    if n == 0 || n > pages.len() {
        s
    } else {
        let t = spec_remove_orphans(s, pages, (n - 1) as nat);
        let p = pages[n - 1];
        if !p.has_foreign && !p.has_visits {
            spec_remove_orphan(t, p.id.0)
        } else {
            t
        }
    }
}

/// The store after the pages are cleaned up: those that are referenced or
/// still visited are scored anew, the orphans are removed.
pub open spec fn spec_cleanup_pages(s: StoreView, pages: Seq<PageToClean>, now: u64) -> StoreView {
    spec_remove_orphans(spec_rescore_pages(s, pages, now, pages.len()), pages, pages.len())
}

/// Removes the place if nothing refers to it and it has no visit left.
fn remove_orphan(store: &mut HistoryStore, id: RowId)
    requires
        old(store).wf(),
    ensures
        final(store).wf(),
        final(store)@ == spec_remove_orphan(old(store)@, id.0),
{
    match store.find_place_by_id(id) {
        Some(i) => {
            if store.places()[i].foreign_count == 0 && !store.has_visits(id) {
                match store.places()[i].sync_status {
                    SyncStatus::Normal => {
                        let guid = store.places()[i].guid.clone();
                        store.add_place_tombstone(guid.as_str());
                    },
                    _ => {},
                }
                store.remove_place(id);
            }
        },
        None => {},
    }
}

/// Cleans up pages whose history has changed: scores anew those that stay,
/// and removes those that nothing refers to and that have no visit left.
pub fn cleanup_pages(store: &mut HistoryStore, pages: &Vec<PageToClean>, now: Timestamp)
    requires
        old(store).wf(),
    ensures
        final(store).wf(),
        final(store)@ == spec_cleanup_pages(old(store)@, pages@, now.0),
{
    let mut i: usize = 0;
    while i < pages.len()
        invariant
            i <= pages@.len(),
            store.wf(),
            store@ == spec_rescore_pages(old(store)@, pages@, now.0, i as nat),
        decreases pages.len() - i,
    {
        let p = pages[i];
        if p.has_foreign || p.has_visits {
            match store.find_place_by_id(p.id) {
                Some(idx) => {
                    rescore(store, idx, now, None);
                },
                None => {},
            }
        }
        i += 1;
    }
    let ghost mid = store@;
    let mut j: usize = 0;
    while j < pages.len()
        invariant
            j <= pages@.len(),
            store.wf(),
            store@ == spec_remove_orphans(mid, pages@, j as nat),
        decreases pages.len() - j,
    {
        let p = pages[j];
        if !p.has_foreign && !p.has_visits {
            remove_orphan(store, p.id);
        }
        j += 1;
    }
}

/// The store after the visits that `doomed` holds of are deleted: each
/// leaves a tombstone, and the places they belonged to are cleaned up.
pub open spec fn spec_delete_visits(
    s: StoreView,
    doomed: spec_fn(VisitView) -> bool,
    now: u64,
) -> StoreView {
    let purged = s.purge_visits(doomed);
    spec_cleanup_pages(purged, s.visits.filter(doomed).map_values(page_of(purged)), now)
}

/// What the cleanup knows of a place, read from the store.
fn page_to_clean(store: &HistoryStore, id: RowId) -> (r: PageToClean)
    ensures
        r == spec_page_to_clean(store@, id.0),
{
    let has_visits = store.has_visits(id);
    match store.find_place_by_id(id) {
        Some(i) => PageToClean {
            id,
            has_foreign: store.places()[i].foreign_count != 0,
            has_visits,
            sync_status: store.places()[i].sync_status,
        },
        None => PageToClean { id, has_foreign: false, has_visits, sync_status: SyncStatus::Unknown },
    }
}

/// Deletes the visits whose mask entry is set, with tombstones and cleanup.
pub(crate) fn delete_visits_masked(
    store: &mut HistoryStore,
    mask: &Vec<bool>,
    Ghost(doomed): Ghost<spec_fn(VisitView) -> bool>,
    now: Timestamp,
)
    requires
        old(store).wf(),
        mask@.len() == old(store)@.visits.len(),
        forall|i: int| 0 <= i < mask@.len() ==> mask@[i] == doomed(#[trigger] old(store)@.visits[i]),
    ensures
        final(store).wf(),
        final(store)@ == spec_delete_visits(old(store)@, doomed, now.0),
{
    let ghost src = store@.visits;
    let mut owners: Vec<RowId> = Vec::new();
    let mut i: usize = 0;
    while i < store.visits().len()
        invariant
            i <= src.len(),
            store@ == old(store)@,
            src == store@.visits,
            mask@.len() == src.len(),
            forall|k: int| 0 <= k < mask@.len() ==> mask@[k] == doomed(#[trigger] src[k]),
            owners@.len() == src.take(i as int).filter(doomed).len(),
            forall|k: int|
                0 <= k < owners@.len() ==> (#[trigger] owners@[k]).0 == src.take(i as int).filter(
                    doomed,
                )[k].place_id,
        decreases store@.visits.len() - i,
    {
        proof {
            lemma_filter_take_succ(src, doomed, i as int);
        }
        if mask[i] {
            owners.push(store.visits()[i].place_id);
        }
        i += 1;
    }
    proof {
        assert(src.take(src.len() as int) =~= src);
    }
    let ghost gone = src.filter(doomed);
    store.purge_visits_masked(mask, Ghost(doomed));
    let ghost purged = store@;
    let mut pages: Vec<PageToClean> = Vec::new();
    let mut k: usize = 0;
    while k < owners.len()
        invariant
            k <= owners@.len(),
            store@ == purged,
            owners@.len() == gone.len(),
            forall|j: int| 0 <= j < owners@.len() ==> (#[trigger] owners@[j]).0 == gone[j].place_id,
            pages@ == gone.take(k as int).map_values(page_of(purged)),
        decreases owners.len() - k,
    {
        let page = page_to_clean(store, owners[k]);
        pages.push(page);
        proof {
            lemma_take_succ(gone, k as int);
            assert(gone.take(k + 1).map_values(page_of(purged)) =~= gone.take(k as int).map_values(
                page_of(purged),
            ).push(page_of(purged)(gone[k as int])));
        }
        k += 1;
    }
    proof {
        assert(gone.take(gone.len() as int) =~= gone);
    }
    cleanup_pages(store, &pages, now);
}

/// True for the visits from `start` to `end`, both included.
pub open spec fn visited_between(start: u64, end: u64) -> spec_fn(VisitView) -> bool {
    |v: VisitView| start <= v.visit_date <= end
}

/// Deletes all visits in a date range, both ends included: each leaves a
/// tombstone, and the places they belonged to are cleaned up.
pub fn delete_visits_between_in_tx(
    store: &mut HistoryStore,
    start: Timestamp,
    end: Timestamp,
    now: Timestamp,
)
    requires
        old(store).wf(),
    ensures
        final(store).wf(),
        final(store)@ == spec_delete_visits(old(store)@, visited_between(start.0, end.0), now.0),
{
    let ghost doomed = visited_between(start.0, end.0);
    let mut mask: Vec<bool> = Vec::new();
    let mut i: usize = 0;
    while i < store.visits().len()
        invariant
            i <= store@.visits.len(),
            store@ == old(store)@,
            mask@.len() == i,
            doomed == visited_between(start.0, end.0),
            forall|k: int| 0 <= k < i ==> mask@[k] == doomed(#[trigger] store@.visits[k]),
        decreases store@.visits.len() - i,
    {
        let date = store.visits()[i].visit_date.0;
        mask.push(start.0 <= date && date <= end.0);
        i += 1;
    }
    delete_visits_masked(store, &mask, Ghost(doomed), now);
}

/// Deletes all visits in a date range, both ends included.
pub fn delete_visits_between(
    store: &mut HistoryStore,
    start: Timestamp,
    end: Timestamp,
    now: Timestamp,
)
    requires
        old(store).wf(),
    ensures
        final(store).wf(),
        final(store)@ == spec_delete_visits(old(store)@, visited_between(start.0, end.0), now.0),
{
    delete_visits_between_in_tx(store, start, end, now)
}

/// True for the visits of the place `place_id` at the instant `visit_date`;
/// for none where no place is given.
pub open spec fn visited_at(place_id: Option<i64>, visit_date: u64) -> spec_fn(VisitView) -> bool {
    |v: VisitView| place_id == Some(v.place_id) && v.visit_date == visit_date
}

/// The row identifier of the place with the given URL.
pub open spec fn spec_place_id_of(s: StoreView, url: Seq<char>) -> Option<i64> {
    match s.place_by_url(url) {
        Some(i) => Some(s.places[i].row_id),
        None => None,
    }
}

/// Deletes the visits to the place of `url` at the instant `visit_date`:
/// each leaves a tombstone, and the place is cleaned up.
pub fn delete_place_visit_at_time_in_tx(
    store: &mut HistoryStore,
    url: &str,
    visit_date: Timestamp,
    now: Timestamp,
)
    requires
        old(store).wf(),
    ensures
        final(store).wf(),
        final(store)@ == spec_delete_visits(
            old(store)@,
            visited_at(spec_place_id_of(old(store)@, url@), visit_date.0),
            now.0,
        ),
{
    let owner: Option<RowId> = match store.find_place_by_url(url) {
        Some(i) => Some(store.places()[i].row_id),
        None => None,
    };
    let ghost doomed = visited_at(spec_place_id_of(old(store)@, url@), visit_date.0);
    let mut mask: Vec<bool> = Vec::new();
    let mut i: usize = 0;
    while i < store.visits().len()
        invariant
            i <= store@.visits.len(),
            store@ == old(store)@,
            mask@.len() == i,
            doomed == visited_at(spec_place_id_of(old(store)@, url@), visit_date.0),
            match owner {
                Some(id) => spec_place_id_of(old(store)@, url@) == Some(id.0),
                None => spec_place_id_of(old(store)@, url@) is None,
            },
            forall|k: int| 0 <= k < i ==> mask@[k] == doomed(#[trigger] store@.visits[k]),
        decreases store@.visits.len() - i,
    {
        let v = &store.visits()[i];
        let hit = match owner {
            Some(id) => v.place_id.0 == id.0 && v.visit_date.0 == visit_date.0,
            None => false,
        };
        mask.push(hit);
        i += 1;
    }
    delete_visits_masked(store, &mask, Ghost(doomed), now);
}

/// Deletes the visits to `place` at the instant `visit`.
pub fn delete_place_visit_at_time_by_href(
    store: &mut HistoryStore,
    place: &str,
    visit: Timestamp,
    now: Timestamp,
)
    requires
        old(store).wf(),
    ensures
        final(store).wf(),
        final(store)@ == spec_delete_visits(
            old(store)@,
            visited_at(spec_place_id_of(old(store)@, place@), visit.0),
            now.0,
        ),
{
    delete_place_visit_at_time_in_tx(store, place, visit, now)
}

/// Deletes the visits to `place` at the instant `visit`.
pub fn delete_place_visit_at_time(
    store: &mut HistoryStore,
    place: &str,
    visit: Timestamp,
    now: Timestamp,
)
    requires
        old(store).wf(),
    ensures
        final(store).wf(),
        final(store)@ == spec_delete_visits(
            old(store)@,
            visited_at(spec_place_id_of(old(store)@, place@), visit.0),
            now.0,
        ),
{
    delete_place_visit_at_time_by_href(store, place, visit, now)
}

/// The identifiers that tie the store to a collection on the sync server.
#[derive(Debug)]
pub struct CollSyncIds {
    pub global: String,
    pub coll: String,
}

/// Whether the store is tied to a collection on the sync server.
#[derive(Debug)]
pub enum EngineSyncAssociation {
    /// Signed out: nothing on the server belongs to this store.
    Disconnected,
    /// Signed in, with the identifiers that the server gave.
    Connected(CollSyncIds),
}

impl EngineSyncAssociation {
    /// The global and the collection identifier, where connected.
    pub open spec fn spec_ids(self) -> (Option<Seq<char>>, Option<Seq<char>>) {
        match self {
            EngineSyncAssociation::Disconnected => (None, None),
            EngineSyncAssociation::Connected(ids) => (Some(ids.global@), Some(ids.coll@)),
        }
    }
}

/// A place that sync has forgotten: never synced, with nothing to upload.
pub open spec fn reset_place() -> spec_fn(PlaceView) -> PlaceView {
    |p: PlaceView| PlaceView { sync_change_counter: 0, sync_status: SyncStatus::New, ..p }
}

/// The store after sync is reset: every place is as if never synced, the
/// next sync fetches everything, and the sync identifiers are those given.
pub open spec fn spec_reset(
    s: StoreView,
    ids: (Option<Seq<char>>, Option<Seq<char>>),
) -> StoreView {
    StoreView {
        last_sync: 0,
        global_sync_id: ids.0,
        collection_sync_id: ids.1,
        ..s.map_places(reset_place())
    }
}

/// The latest time among the first `n` visits, zero where there is none.
pub open spec fn latest_visit(visits: Seq<VisitView>, n: nat) -> u64
    decreases n,
{
    if n == 0 || n > visits.len() {
        0
    } else {
        let before = latest_visit(visits, (n - 1) as nat);
        if visits[n - 1].visit_date > before {
            visits[n - 1].visit_date
        } else {
            before
        }
    }
}

/// The deletion high-water mark that a wipe at `now` leaves: the latest of
/// now, the mark so far, and every visit known.
pub open spec fn spec_new_mark(s: StoreView, now: u64) -> u64 {
    let latest = latest_visit(s.visits, s.visits.len());
    let a = if now > s.deletion_high_water_mark {
        now
    } else {
        s.deletion_high_water_mark
    };
    if latest > a {
        latest
    } else {
        a
    }
}

/// The store after a local wipe: the places that nothing refers to are
/// gone with every visit and tombstone, and the places left are scored at
/// the bonus of an unvisited bookmark, with nothing to upload.
pub open spec fn spec_wipe_local(s: StoreView) -> StoreView {
    s.wipe_local(default_settings().unvisited_bookmark_bonus as i32)
}

/// The store after everything is deleted at `now`: the high-water mark is
/// raised first, then the store is wiped and sync is reset to disconnected.
pub open spec fn spec_delete_everything(s: StoreView, now: u64) -> StoreView {
    spec_reset(
        spec_wipe_local(StoreView { deletion_high_water_mark: spec_new_mark(s, now), ..s }),
        (None, None),
    )
}

/// The high-water mark never goes down, and no known visit is above it.
pub proof fn lemma_new_mark(s: StoreView, now: u64)
    ensures
        spec_new_mark(s, now) >= s.deletion_high_water_mark,
        spec_new_mark(s, now) >= now,
        forall|i: int| 0 <= i < s.visits.len() ==> (#[trigger] s.visits[i]).visit_date
            <= spec_new_mark(s, now),
{
    lemma_latest_visit(s.visits, s.visits.len());
}

pub proof fn lemma_latest_visit(visits: Seq<VisitView>, n: nat)
    requires
        n <= visits.len(),
    ensures
        forall|i: int| 0 <= i < n ==> (#[trigger] visits[i]).visit_date <= latest_visit(visits, n),
    decreases n,
{
    if n > 0 {
        lemma_latest_visit(visits, (n - 1) as nat);
    }
}

/// Wipes what is local. The caller raises the high-water mark first.
pub fn wipe_local_in_tx(store: &mut HistoryStore)
    requires
        old(store).wf(),
    ensures
        final(store).wf(),
        final(store)@ == spec_wipe_local(old(store)@),
{
    let settings = FrecencySettings::default();
    store.wipe(settings.unvisited_bookmark_bonus as i32);
}

/// Makes every place as if never synced and records the association.
pub fn reset_in_tx(store: &mut HistoryStore, assoc: &EngineSyncAssociation)
    requires
        old(store).wf(),
    ensures
        final(store).wf(),
        final(store)@ == spec_reset(old(store)@, assoc.spec_ids()),
{
    let ghost f = reset_place();
    let ghost src = store@.places;
    let mut places: Vec<Place> = Vec::new();
    let mut i: usize = 0;
    while i < store.places().len()
        invariant
            i <= src.len(),
            store@ == old(store)@,
            src == store@.places,
            f == reset_place(),
            places_view(places@) == src.take(i as int).map_values(f),
        decreases src.len() - i,
    {
        let mut p = store.places()[i].duplicate();
        p.sync_change_counter = 0;
        p.sync_status = SyncStatus::New;
        let ghost before = places@;
        places.push(p);
        proof {
            lemma_take_succ(src, i as int);
            assert(p@ == f(src[i as int]));
            assert(src.take(i + 1).map_values(f) =~= src.take(i as int).map_values(f).push(
                f(src[i as int]),
            ));
            assert(places_view(places@) =~= places_view(before).push(p@));
        }
        i += 1;
    }
    proof {
        assert(src.take(src.len() as int) =~= src);
        assert(keeps_identity(f));
    }
    store.rewrite_places(places, Ghost(f));
    match assoc {
        EngineSyncAssociation::Disconnected => {
            store.set_sync_meta(0, None, None);
        },
        EngineSyncAssociation::Connected(ids) => {
            store.set_sync_meta(0, Some(ids.global.clone()), Some(ids.coll.clone()));
        },
    }
}

/// Deletes the whole history at `now`. Places that a bookmark or keyword points at
/// stay, without visits; incoming synced visits from before are refused
/// from now on.
pub fn delete_everything(store: &mut HistoryStore, now: Timestamp)
    requires
        old(store).wf(),
    ensures
        final(store).wf(),
        final(store)@ == spec_delete_everything(old(store)@, now.0),
        final(store)@.deletion_high_water_mark >= old(store)@.deletion_high_water_mark,
{
    let mut mark: u64 = if now.0 > store.deletion_high_water_mark().0 {
        now.0
    } else {
        store.deletion_high_water_mark().0
    };
    let mut latest: u64 = 0;
    let mut i: usize = 0;
    while i < store.visits().len()
        invariant
            i <= store@.visits.len(),
            store@ == old(store)@,
            latest == latest_visit(store@.visits, i as nat),
        decreases store@.visits.len() - i,
    {
        let date = store.visits()[i].visit_date.0;
        if date > latest {
            latest = date;
        }
        i += 1;
    }
    if latest > mark {
        mark = latest;
    }
    store.set_deletion_high_water_mark(Timestamp(mark));
    wipe_local_in_tx(store);
    reset_in_tx(store, &EngineSyncAssociation::Disconnected);
}

} // verus!
