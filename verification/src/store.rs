//! The store itself: rows in vectors, kept in insertion order, with the
//! lookups and the row-level changes that the engine's operations are made of.

use crate::model::{
    has_guid, has_place, has_row_id, has_url, has_visit_id, is_referenced, keeps_identity,
    lemma_add_place_tombstone_wf, lemma_delete_page_wf, lemma_empty_wf, lemma_insert_place_wf,
    lemma_insert_tombstones_wf, lemma_insert_visit_wf, lemma_lookup_unique, lemma_map_places_wf,
    lemma_purge_visits_wf, lemma_retain_visits_wf, lemma_set_place_wf, lemma_stage,
    lemma_visit_tombstone_wf, lemma_wipe_local_wf, negation, new_place, place_guid, place_is_not,
    place_key, place_url, staged_at, staged_key, tombstone_is_not, tombstone_not_of, visit_is_not,
    visit_key, visit_not_of, wiped_place, with_tombstones_for, with_tombstones_of, PlaceView,
    StagedChange, StoreView, VisitTombstone, VisitView, UNSCORED_FRECENCY,
};
use crate::seq_util::{
    distinct_by, increasing_by, lemma_filter_take_succ, lemma_position, lemma_position_first,
    position,
};
use crate::types::{HistoryError, RowId, SyncStatus, Timestamp, VisitType};
use vstd::prelude::*;

verus! {

/// The text of an optional string.
pub open spec fn opt_text(o: Option<String>) -> Option<Seq<char>> {
    match o {
        Some(s) => Some(s@),
        None => None,
    }
}

/// A place as the store holds it.
#[derive(Debug)]
pub struct Place {
    pub row_id: RowId,
    pub guid: String,
    pub url: String,
    pub title: String,
    pub preview_image_url: Option<String>,
    pub hidden: bool,
    pub typed: u32,
    pub frecency: i32,
    pub sync_status: SyncStatus,
    pub sync_change_counter: u32,
    pub foreign_count: u32,
    pub unknown_fields: Option<String>,
}

impl View for Place {
    type V = PlaceView;

    open spec fn view(&self) -> PlaceView {
        PlaceView {
            row_id: self.row_id.0,
            guid: self.guid@,
            url: self.url@,
            title: self.title@,
            preview_image_url: opt_text(self.preview_image_url),
            hidden: self.hidden,
            typed: self.typed,
            frecency: self.frecency,
            sync_status: self.sync_status,
            sync_change_counter: self.sync_change_counter,
            foreign_count: self.foreign_count,
            unknown_fields: opt_text(self.unknown_fields),
        }
    }
}

/// A visit as the store holds it.
#[derive(Debug)]
pub struct Visit {
    pub id: RowId,
    pub place_id: RowId,
    pub from_visit: Option<RowId>,
    pub visit_date: Timestamp,
    pub visit_type: VisitType,
    pub is_local: bool,
    pub unknown_fields: Option<String>,
}

impl View for Visit {
    type V = VisitView;

    open spec fn view(&self) -> VisitView {
        VisitView {
            id: self.id.0,
            place_id: self.place_id.0,
            from_visit: match self.from_visit {
                Some(r) => Some(r.0),
                None => None,
            },
            visit_date: self.visit_date.0,
            visit_type: self.visit_type,
            is_local: self.is_local,
            unknown_fields: opt_text(self.unknown_fields),
        }
    }
}

/// A copy of an optional string.
pub fn clone_opt_string(o: &Option<String>) -> (r: Option<String>)
    ensures
        r == *o,
{
    match o {
        Some(s) => Some(s.clone()),
        None => None,
    }
}

impl Place {
    /// A copy of the place.
    pub fn duplicate(&self) -> (r: Place)
        ensures
            r == *self,
    {
        Place {
            row_id: self.row_id,
            guid: self.guid.clone(),
            url: self.url.clone(),
            title: self.title.clone(),
            preview_image_url: clone_opt_string(&self.preview_image_url),
            hidden: self.hidden,
            typed: self.typed,
            frecency: self.frecency,
            sync_status: self.sync_status,
            sync_change_counter: self.sync_change_counter,
            foreign_count: self.foreign_count,
            unknown_fields: clone_opt_string(&self.unknown_fields),
        }
    }
}

impl Visit {
    /// A copy of the visit.
    pub fn duplicate(&self) -> (r: Visit)
        ensures
            r == *self,
    {
        Visit {
            id: self.id,
            place_id: self.place_id,
            from_visit: self.from_visit,
            visit_date: self.visit_date,
            visit_type: self.visit_type,
            is_local: self.is_local,
            unknown_fields: clone_opt_string(&self.unknown_fields),
        }
    }
}

pub open spec fn places_view(s: Seq<Place>) -> Seq<PlaceView> {
    s.map_values(|p: Place| p@)
}

pub open spec fn visits_view(s: Seq<Visit>) -> Seq<VisitView> {
    s.map_values(|v: Visit| v@)
}

pub open spec fn texts_view(s: Seq<String>) -> Seq<Seq<char>> {
    s.map_values(|t: String| t@)
}

/// The history store: places, visits, tombstones, the staging area of an
/// upload, and the few values kept beside them.
#[derive(Debug)]
pub struct HistoryStore {
    pub(crate) places: Vec<Place>,
    pub(crate) visits: Vec<Visit>,
    pub(crate) place_tombstones: Vec<String>,
    pub(crate) visit_tombstones: Vec<VisitTombstone>,
    pub(crate) staged: Vec<StagedChange>,
    pub(crate) deletion_high_water_mark: Timestamp,
    pub(crate) last_sync: i64,
    pub(crate) global_sync_id: Option<String>,
    pub(crate) collection_sync_id: Option<String>,
    pub(crate) next_place_id: i64,
    pub(crate) next_visit_id: i64,
}

impl View for HistoryStore {
    type V = StoreView;

    closed spec fn view(&self) -> StoreView {
        StoreView {
            places: places_view(self.places@),
            visits: visits_view(self.visits@),
            place_tombstones: texts_view(self.place_tombstones@),
            visit_tombstones: self.visit_tombstones@,
            staged: self.staged@,
            deletion_high_water_mark: self.deletion_high_water_mark.0,
            last_sync: self.last_sync,
            global_sync_id: opt_text(self.global_sync_id),
            collection_sync_id: opt_text(self.collection_sync_id),
            next_place_id: self.next_place_id,
            next_visit_id: self.next_visit_id,
        }
    }
}

impl HistoryStore {
    /// True when the store meets its invariant.
    pub open spec fn wf(&self) -> bool {
        self@.wf()
    }

    /// An empty store.
    pub fn new() -> (r: HistoryStore)
        ensures
            r@ == StoreView::empty(),
            r.wf(),
    {
        let r = HistoryStore {
            places: Vec::new(),
            visits: Vec::new(),
            place_tombstones: Vec::new(),
            visit_tombstones: Vec::new(),
            staged: Vec::new(),
            deletion_high_water_mark: Timestamp(0),
            last_sync: 0,
            global_sync_id: None,
            collection_sync_id: None,
            next_place_id: 1,
            next_visit_id: 1,
        };
        proof {
            lemma_empty_wf();
            assert(r@.places =~= Seq::empty());
            assert(r@.visits =~= Seq::empty());
            assert(r@.place_tombstones =~= Seq::empty());
        }
        r
    }

    /// An empty store whose first place and first visit get the given row
    /// identifiers, for a store that takes up the numbering of another;
    /// nothing where an identifier is below one.
    pub fn with_first_ids(first_place_id: RowId, first_visit_id: RowId) -> (r: Option<HistoryStore>)
        ensures
            match r {
                Some(store) => first_place_id.0 >= 1 && first_visit_id.0 >= 1 && store.wf()
                    && store@ == (StoreView {
                    next_place_id: first_place_id.0,
                    next_visit_id: first_visit_id.0,
                    ..StoreView::empty()
                }),
                None => first_place_id.0 < 1 || first_visit_id.0 < 1,
            },
    {
        if first_place_id.0 < 1 || first_visit_id.0 < 1 {
            return None;
        }
        let mut store = HistoryStore::new();
        store.next_place_id = first_place_id.0;
        store.next_visit_id = first_visit_id.0;
        Some(store)
    }

    /// The places, in insertion order.
    pub fn places(&self) -> (r: &Vec<Place>)
        ensures
            places_view(r@) == self@.places,
    {
        &self.places
    }

    /// The visits, in insertion order.
    pub fn visits(&self) -> (r: &Vec<Visit>)
        ensures
            visits_view(r@) == self@.visits,
    {
        &self.visits
    }

    /// The GUIDs of the places deleted since the last completed upload.
    pub fn place_tombstones(&self) -> (r: &Vec<String>)
        ensures
            texts_view(r@) == self@.place_tombstones,
    {
        &self.place_tombstones
    }

    /// The tombstones of single visits.
    pub fn visit_tombstones(&self) -> (r: &Vec<VisitTombstone>)
        ensures
            r@ == self@.visit_tombstones,
    {
        &self.visit_tombstones
    }

    /// The places handed to the upload in progress.
    pub fn staged(&self) -> (r: &Vec<StagedChange>)
        ensures
            r@ == self@.staged,
    {
        &self.staged
    }

    /// The time of the last full wipe, below which synced visits are refused.
    pub fn deletion_high_water_mark(&self) -> (r: Timestamp)
        ensures
            r.0 == self@.deletion_high_water_mark,
    {
        self.deletion_high_water_mark
    }

    /// The time of the last sync, zero when the next one must fetch everything.
    pub fn last_sync(&self) -> (r: i64)
        ensures
            r == self@.last_sync,
    {
        self.last_sync
    }

    /// The sync identifier of the whole account's storage, when connected.
    pub fn global_sync_id(&self) -> (r: &Option<String>)
        ensures
            opt_text(*r) == self@.global_sync_id,
    {
        &self.global_sync_id
    }

    /// The sync identifier of the history collection, when connected.
    pub fn collection_sync_id(&self) -> (r: &Option<String>)
        ensures
            opt_text(*r) == self@.collection_sync_id,
    {
        &self.collection_sync_id
    }

    /// The row identifier that the next new place gets.
    pub fn next_place_id(&self) -> (r: RowId)
        ensures
            r.0 == self@.next_place_id,
    {
        RowId(self.next_place_id)
    }

    /// Whether row identifiers are left for `n` more visits.
    pub fn has_room_for_visits(&self, n: usize) -> (r: bool)
        requires
            self.wf(),
        ensures
            r == (self@.next_visit_id + n <= i64::MAX),
    {
        let left: u64 = (i64::MAX - self.next_visit_id) as u64;
        n as u64 <= left
    }

    /// Whether the place has a visit at the instant `visit_date`.
    pub fn has_visit_at(&self, place_id: RowId, visit_date: Timestamp) -> (r: bool)
        ensures
            r == crate::model::has_visit_at(self@.visits, place_id.0, visit_date.0),
    {
        let mut i: usize = 0;
        while i < self.visits.len()
            invariant
                i <= self.visits@.len(),
                forall|j: int|
                    0 <= j < i ==> !((#[trigger] self@.visits[j]).place_id == place_id.0
                        && self@.visits[j].visit_date == visit_date.0),
            decreases self.visits.len() - i,
        {
            if self.visits[i].place_id.0 == place_id.0 && self.visits[i].visit_date.0
                == visit_date.0 {
                assert(self@.visits[i as int].place_id == place_id.0);
                return true;
            }
            i += 1;
        }
        false
    }

    /// Position of the visit with the given row identifier.
    pub fn find_visit_by_id(&self, id: RowId) -> (r: Option<usize>)
        ensures
            match r {
                Some(i) => position(self@.visits, has_visit_id(id.0)) == Some(
                    i as int,
                ) && i < self@.visits.len(),
                None => position(self@.visits, has_visit_id(id.0)) is None,
            },
    {
        let ghost p = has_visit_id(id.0);
        let mut i: usize = 0;
        while i < self.visits.len()
            invariant
                i <= self.visits@.len(),
                p == has_visit_id(id.0),
                forall|j: int| 0 <= j < i ==> !p(#[trigger] self@.visits[j]),
            decreases self.visits.len() - i,
        {
            if self.visits[i].id.0 == id.0 {
                proof {
                    lemma_position_first(self@.visits, p, i as int);
                }
                return Some(i);
            }
            i += 1;
        }
        proof {
            lemma_position(self@.visits, p);
        }
        None
    }

    /// The row identifier that the next new visit gets.
    pub fn next_visit_id(&self) -> (r: RowId)
        ensures
            r.0 == self@.next_visit_id,
    {
        RowId(self.next_visit_id)
    }

    /// Whether a row identifier is left for another place.
    pub fn has_room_for_place(&self) -> (r: bool)
        ensures
            r == (self@.next_place_id < i64::MAX),
    {
        self.next_place_id < i64::MAX
    }

    /// Whether a row identifier is left for another visit.
    pub fn has_room_for_visit(&self) -> (r: bool)
        ensures
            r == (self@.next_visit_id < i64::MAX),
    {
        self.next_visit_id < i64::MAX
    }

    /// Position of the place with the given URL.
    pub fn find_place_by_url(&self, url: &str) -> (r: Option<usize>)
        ensures
            match r {
                Some(i) => self@.place_by_url(url@) == Some(i as int) && i < self@.places.len(),
                None => self@.place_by_url(url@) is None,
            },
    {
        let ghost p = has_url(url@);
        let needle = url.to_owned();
        let mut i: usize = 0;
        while i < self.places.len()
            invariant
                i <= self.places@.len(),
                p == has_url(url@),
                needle@ == url@,
                forall|j: int| 0 <= j < i ==> !p(#[trigger] self@.places[j]),
            decreases self.places.len() - i,
        {
            if self.places[i].url == needle {
                proof {
                    lemma_position_first(self@.places, p, i as int);
                }
                return Some(i);
            }
            i += 1;
        }
        proof {
            lemma_position(self@.places, p);
        }
        None
    }

    /// Position of the place with the given GUID.
    pub fn find_place_by_guid(&self, guid: &str) -> (r: Option<usize>)
        ensures
            match r {
                Some(i) => self@.place_by_guid(guid@) == Some(i as int) && i < self@.places.len(),
                None => self@.place_by_guid(guid@) is None,
            },
    {
        let ghost p = has_guid(guid@);
        let needle = guid.to_owned();
        let mut i: usize = 0;
        while i < self.places.len()
            invariant
                i <= self.places@.len(),
                p == has_guid(guid@),
                needle@ == guid@,
                forall|j: int| 0 <= j < i ==> !p(#[trigger] self@.places[j]),
            decreases self.places.len() - i,
        {
            if self.places[i].guid == needle {
                proof {
                    lemma_position_first(self@.places, p, i as int);
                }
                return Some(i);
            }
            i += 1;
        }
        proof {
            lemma_position(self@.places, p);
        }
        None
    }

    /// Position of the place with the given row identifier.
    pub fn find_place_by_id(&self, id: RowId) -> (r: Option<usize>)
        ensures
            match r {
                Some(i) => self@.place_by_id(id.0) == Some(i as int) && i < self@.places.len(),
                None => self@.place_by_id(id.0) is None,
            },
            r is Some <==> has_place(self@.places, id.0),
    {
        let ghost p = has_row_id(id.0);
        let mut i: usize = 0;
        while i < self.places.len()
            invariant
                i <= self.places@.len(),
                p == has_row_id(id.0),
                forall|j: int| 0 <= j < i ==> !p(#[trigger] self@.places[j]),
            decreases self.places.len() - i,
        {
            if self.places[i].row_id.0 == id.0 {
                proof {
                    lemma_position_first(self@.places, p, i as int);
                    assert(self@.places[i as int].row_id == id.0);
                }
                return Some(i);
            }
            i += 1;
        }
        proof {
            lemma_position(self@.places, p);
            if has_place(self@.places, id.0) {
                let j = choose|j: int|
                    0 <= j < self@.places.len() && #[trigger] self@.places[j].row_id == id.0;
                assert(p(self@.places[j]));
            }
        }
        None
    }
}

/// Tombstones written for a prefix of a list are those written for the
/// same prefix of a longer list.
pub proof fn lemma_with_tombstones_for_prefix(
    base: Seq<VisitTombstone>,
    long: Seq<VisitView>,
    short: Seq<VisitView>,
    n: nat,
)
    requires
        n <= short.len() <= long.len(),
        forall|i: int| 0 <= i < short.len() ==> short[i] == long[i],
    ensures
        with_tombstones_for(base, long, n) == with_tombstones_for(base, short, n),
    decreases n,
{
    if n > 0 {
        lemma_with_tombstones_for_prefix(base, long, short, (n - 1) as nat);
    }
}

/// Whether two strings hold the same text.
pub fn str_eq(a: &str, b: &str) -> (r: bool)
    ensures
        r == (a@ == b@),
{
    let x = a.to_owned();
    let y = b.to_owned();
    x == y
}

impl HistoryStore {
    /// Appends a fresh place for `url`, and gives its position.
    pub(crate) fn push_place(&mut self, guid: String, url: String) -> (idx: usize)
        requires
            old(self).wf(),
            old(self)@.place_by_url(url@) is None,
            old(self)@.place_by_guid(guid@) is None,
            old(self)@.next_place_id < i64::MAX,
        ensures
            final(self)@ == old(self)@.insert_place(guid@, url@),
            final(self).wf(),
            idx == old(self)@.places.len(),
            final(self)@.place_by_url(url@) == Some(idx as int),
    {
        let idx = self.places.len();
        let place = Place {
            row_id: RowId(self.next_place_id),
            guid,
            url,
            title: String::new(),
            preview_image_url: None,
            hidden: false,
            typed: 0,
            frecency: UNSCORED_FRECENCY,
            sync_status: SyncStatus::New,
            sync_change_counter: 0,
            foreign_count: 0,
            unknown_fields: None,
        };
        proof {
            lemma_insert_place_wf(old(self)@, guid@, url@);
            assert(place@ == new_place(old(self)@.next_place_id, guid@, url@));
        }
        self.places.push(place);
        self.next_place_id = self.next_place_id + 1;
        proof {
            assert(self@.places =~= old(self)@.places.push(place@));
        }
        idx
    }

    /// Puts `place` where the place at `idx` stood.
    pub(crate) fn replace_place(&mut self, idx: usize, place: Place)
        requires
            old(self).wf(),
            idx < old(self)@.places.len(),
            place@.row_id == old(self)@.places[idx as int].row_id,
            place@.url == old(self)@.places[idx as int].url,
            place@.guid == old(self)@.places[idx as int].guid || old(self)@.place_by_guid(
                place@.guid,
            ) is None,
        ensures
            final(self)@ == old(self)@.set_place(idx as int, place@),
            final(self).wf(),
    {
        proof {
            lemma_set_place_wf(old(self)@, idx as int, place@);
        }
        self.places.set(idx, place);
        proof {
            assert(self@.places =~= old(self)@.places.update(idx as int, place@));
        }
    }

    /// Appends a visit to an existing place, and gives the visit's row identifier.
    pub(crate) fn push_visit(
        &mut self,
        place_id: RowId,
        from_visit: Option<RowId>,
        visit_date: Timestamp,
        visit_type: VisitType,
        is_local: bool,
        unknown_fields: Option<String>,
    ) -> (id: RowId)
        requires
            old(self).wf(),
            has_place(old(self)@.places, place_id.0),
            old(self)@.next_visit_id < i64::MAX,
        ensures
            final(self)@ == old(self)@.insert_visit(
                place_id.0,
                match from_visit {
                    Some(r) => Some(r.0),
                    None => None,
                },
                visit_date.0,
                visit_type,
                is_local,
                opt_text(unknown_fields),
            ),
            final(self).wf(),
            id.0 == old(self)@.next_visit_id,
    {
        let id = RowId(self.next_visit_id);
        let visit = Visit {
            id,
            place_id,
            from_visit,
            visit_date,
            visit_type,
            is_local,
            unknown_fields,
        };
        proof {
            lemma_insert_visit_wf(
                old(self)@,
                place_id.0,
                visit@.from_visit,
                visit_date.0,
                visit_type,
                is_local,
                opt_text(unknown_fields),
            );
        }
        self.visits.push(visit);
        self.next_visit_id = self.next_visit_id + 1;
        proof {
            assert(self@.visits =~= old(self)@.visits.push(visit@));
        }
        id
    }

    /// Keeps the visits whose mask entry is set.
    pub(crate) fn retain_visits_masked(
        &mut self,
        mask: &Vec<bool>,
        Ghost(keep): Ghost<spec_fn(VisitView) -> bool>,
    )
        requires
            old(self).wf(),
            mask@.len() == old(self)@.visits.len(),
            forall|i: int| 0 <= i < mask@.len() ==> mask@[i] == keep(#[trigger] old(self)@.visits[i]),
        ensures
            final(self)@ == old(self)@.retain_visits(keep),
            final(self).wf(),
    {
        let ghost src = self@.visits;
        let mut kept: Vec<Visit> = Vec::new();
        let mut i: usize = 0;
        while i < self.visits.len()
            invariant
                i <= self.visits@.len(),
                *self == *old(self),
                src == self@.visits,
                mask@.len() == src.len(),
                forall|k: int| 0 <= k < mask@.len() ==> mask@[k] == keep(#[trigger] src[k]),
                visits_view(kept@) == src.take(i as int).filter(keep),
            decreases self.visits.len() - i,
        {
            proof {
                lemma_filter_take_succ(src, keep, i as int);
            }
            if mask[i] {
                let v = self.visits[i].duplicate();
                kept.push(v);
                proof {
                    assert(visits_view(kept@) =~= src.take(i as int).filter(keep).push(src[i as int]));
                }
            }
            i += 1;
        }
        proof {
            assert(src.take(src.len() as int) =~= src);
            lemma_retain_visits_wf(old(self)@, keep);
        }
        self.visits = kept;
    }

    /// Removes the tombstone of the visit at `visit_date`, if there is one.
    pub(crate) fn remove_visit_tombstone(&mut self, place_id: RowId, visit_date: Timestamp)
        requires
            old(self).wf(),
        ensures
            final(self)@ == old(self)@.remove_visit_tombstone(place_id.0, visit_date.0),
            final(self).wf(),
    {
        let ghost gone = VisitTombstone { place_id: place_id.0, visit_date: visit_date.0 };
        let ghost keep = tombstone_is_not(gone);
        let ghost src = self.visit_tombstones@;
        let mut kept: Vec<VisitTombstone> = Vec::new();
        let mut i: usize = 0;
        while i < self.visit_tombstones.len()
            invariant
                i <= src.len(),
                *self == *old(self),
                src == self.visit_tombstones@,
                keep == tombstone_is_not(gone),
                gone == (VisitTombstone { place_id: place_id.0, visit_date: visit_date.0 }),
                kept@ == src.take(i as int).filter(keep),
            decreases self.visit_tombstones.len() - i,
        {
            proof {
                lemma_filter_take_succ(src, keep, i as int);
            }
            let t = self.visit_tombstones[i];
            if t.place_id != place_id.0 || t.visit_date != visit_date.0 {
                kept.push(t);
            }
            i += 1;
        }
        proof {
            assert(src.take(src.len() as int) =~= src);
            lemma_visit_tombstone_wf(old(self)@, place_id.0, visit_date.0);
        }
        self.visit_tombstones = kept;
    }

    /// Whether the visit at `visit_date` has a tombstone.
    pub fn has_visit_tombstone(&self, place_id: RowId, visit_date: Timestamp) -> (r: bool)
        ensures
            r == self@.visit_tombstones.contains(
                VisitTombstone { place_id: place_id.0, visit_date: visit_date.0 },
            ),
    {
        let ghost x = VisitTombstone { place_id: place_id.0, visit_date: visit_date.0 };
        let mut i: usize = 0;
        while i < self.visit_tombstones.len()
            invariant
                i <= self.visit_tombstones@.len(),
                x == (VisitTombstone { place_id: place_id.0, visit_date: visit_date.0 }),
                forall|j: int| 0 <= j < i ==> self.visit_tombstones@[j] != x,
            decreases self.visit_tombstones.len() - i,
        {
            let t = self.visit_tombstones[i];
            if t.place_id == place_id.0 && t.visit_date == visit_date.0 {
                assert(self.visit_tombstones@[i as int] == x);
                return true;
            }
            i += 1;
        }
        false
    }

    /// Records a tombstone for the visit at `visit_date`, once.
    pub(crate) fn add_visit_tombstone(&mut self, place_id: RowId, visit_date: Timestamp)
        requires
            old(self).wf(),
            has_place(old(self)@.places, place_id.0),
        ensures
            final(self)@ == old(self)@.add_visit_tombstone(place_id.0, visit_date.0),
            final(self).wf(),
    {
        proof {
            lemma_visit_tombstone_wf(old(self)@, place_id.0, visit_date.0);
        }
        if !self.has_visit_tombstone(place_id, visit_date) {
            self.visit_tombstones.push(
                VisitTombstone { place_id: place_id.0, visit_date: visit_date.0 },
            );
        }
    }

    /// Whether a place with this GUID has a tombstone.
    pub fn has_place_tombstone(&self, guid: &str) -> (r: bool)
        ensures
            r == self@.place_tombstones.contains(guid@),
    {
        let needle = guid.to_owned();
        let mut i: usize = 0;
        while i < self.place_tombstones.len()
            invariant
                i <= self.place_tombstones@.len(),
                needle@ == guid@,
                forall|j: int| 0 <= j < i ==> self@.place_tombstones[j] != guid@,
            decreases self.place_tombstones.len() - i,
        {
            if self.place_tombstones[i] == needle {
                assert(self@.place_tombstones[i as int] == guid@);
                return true;
            }
            i += 1;
        }
        false
    }

    /// Records a tombstone for the place that had `guid`, once.
    pub(crate) fn add_place_tombstone(&mut self, guid: &str)
        requires
            old(self).wf(),
        ensures
            final(self)@ == old(self)@.add_place_tombstone(guid@),
            final(self).wf(),
    {
        proof {
            lemma_add_place_tombstone_wf(old(self)@, guid@);
        }
        if !self.has_place_tombstone(guid) {
            let g = guid.to_owned();
            self.place_tombstones.push(g);
            proof {
                assert(self@.place_tombstones =~= old(self)@.place_tombstones.push(guid@));
            }
        }
    }

    /// Writes a tombstone for each visit of the place.
    pub(crate) fn tombstone_all_visits(&mut self, place_id: RowId)
        requires
            old(self).wf(),
        ensures
            final(self)@ == old(self)@.insert_tombstones_for_all_page_visits(place_id.0),
            final(self).wf(),
    {
        let ghost base = self@.visit_tombstones;
        let ghost visits = self@.visits;
        let mut i: usize = 0;
        while i < self.visits.len()
            invariant
                i <= self.visits@.len(),
                self.wf(),
                self@.visits == visits,
                visits == old(self)@.visits,
                base == old(self)@.visit_tombstones,
                self@ == (StoreView {
                    visit_tombstones: with_tombstones_of(base, visits, place_id.0, i as nat),
                    ..old(self)@
                }),
            decreases self.visits.len() - i,
        {
            if self.visits[i].place_id.0 == place_id.0 {
                let date = self.visits[i].visit_date;
                proof {
                    assert(has_place(self@.places, self@.visits[i as int].place_id));
                }
                self.add_visit_tombstone(place_id, date);
            }
            i += 1;
        }
        proof {
            lemma_insert_tombstones_wf(old(self)@, place_id.0);
        }
    }

    /// Removes the visits whose mask entry is set, leaving a tombstone for each.
    pub(crate) fn purge_visits_masked(
        &mut self,
        mask: &Vec<bool>,
        Ghost(doomed): Ghost<spec_fn(VisitView) -> bool>,
    )
        requires
            old(self).wf(),
            mask@.len() == old(self)@.visits.len(),
            forall|i: int|
                0 <= i < mask@.len() ==> mask@[i] == doomed(#[trigger] old(self)@.visits[i]),
        ensures
            final(self)@ == old(self)@.purge_visits(doomed),
            final(self).wf(),
    {
        let ghost src = self@.visits;
        let ghost base = self@.visit_tombstones;
        let ghost keep = negation(doomed);
        let n = self.visits.len();
        let mut keep_mask: Vec<bool> = Vec::new();
        let mut i: usize = 0;
        while i < n
            invariant
                i <= n,
                n == src.len(),
                self.wf(),
                mask@.len() == src.len(),
                keep_mask@.len() == i,
                keep == negation(doomed),
                self@.visits == src,
                forall|k: int| 0 <= k < mask@.len() ==> mask@[k] == doomed(#[trigger] src[k]),
                forall|k: int| 0 <= k < i ==> keep_mask@[k] == keep(#[trigger] src[k]),
                self@ == (StoreView {
                    visit_tombstones: with_tombstones_for(
                        base,
                        src.take(i as int).filter(doomed),
                        src.take(i as int).filter(doomed).len(),
                    ),
                    ..old(self)@
                }),
            decreases n - i,
        {
            proof {
                lemma_filter_take_succ(src, doomed, i as int);
                let before = src.take(i as int).filter(doomed);
                if doomed(src[i as int]) {
                    let after = before.push(src[i as int]);
                    lemma_with_tombstones_for_prefix(base, after, before, before.len());
                    assert(has_place(self@.places, src[i as int].place_id));
                }
            }
            if mask[i] {
                let place_id = self.visits[i].place_id;
                let date = self.visits[i].visit_date;
                self.add_visit_tombstone(place_id, date);
            }
            keep_mask.push(!mask[i]);
            i += 1;
        }
        proof {
            assert(src.take(src.len() as int) =~= src);
            lemma_purge_visits_wf(old(self)@, doomed);
        }
        self.retain_visits_masked(&keep_mask, Ghost(keep));
    }

    /// Removes every visit of the place.
    pub(crate) fn remove_visits_of(&mut self, place_id: RowId)
        requires
            old(self).wf(),
        ensures
            final(self)@ == old(self)@.delete_all_visits_for_page(place_id.0),
            final(self).wf(),
    {
        let ghost keep = visit_not_of(place_id.0);
        let mut mask: Vec<bool> = Vec::new();
        let mut i: usize = 0;
        while i < self.visits.len()
            invariant
                i <= self.visits@.len(),
                mask@.len() == i,
                keep == visit_not_of(place_id.0),
                forall|k: int| 0 <= k < i ==> mask@[k] == keep(#[trigger] self@.visits[k]),
            decreases self.visits.len() - i,
        {
            mask.push(self.visits[i].place_id.0 != place_id.0);
            i += 1;
        }
        self.retain_visits_masked(&mask, Ghost(keep));
    }

    /// Removes the place with its visits and visit tombstones.
    pub(crate) fn remove_place(&mut self, place_id: RowId)
        requires
            old(self).wf(),
        ensures
            final(self)@ == old(self)@.delete_page(place_id.0),
            final(self).wf(),
    {
        self.remove_visits_of(place_id);
        let ghost mid = self@;
        let ghost keep_p = place_is_not(place_id.0);
        let ghost keep_t = tombstone_not_of(place_id.0);
        let ghost src_p = self@.places;
        let ghost src_t = self@.visit_tombstones;
        let mut places: Vec<Place> = Vec::new();
        let mut i: usize = 0;
        while i < self.places.len()
            invariant
                i <= self.places@.len(),
                self@ == mid,
                src_p == self@.places,
                keep_p == place_is_not(place_id.0),
                places_view(places@) == src_p.take(i as int).filter(keep_p),
            decreases self.places.len() - i,
        {
            proof {
                lemma_filter_take_succ(src_p, keep_p, i as int);
            }
            if self.places[i].row_id.0 != place_id.0 {
                let p = self.places[i].duplicate();
                places.push(p);
                proof {
                    assert(places_view(places@) =~= src_p.take(i as int).filter(keep_p).push(
                        src_p[i as int],
                    ));
                }
            }
            i += 1;
        }
        let mut tombstones: Vec<VisitTombstone> = Vec::new();
        let mut j: usize = 0;
        while j < self.visit_tombstones.len()
            invariant
                j <= self.visit_tombstones@.len(),
                self@ == mid,
                src_t == self.visit_tombstones@,
                keep_t == tombstone_not_of(place_id.0),
                tombstones@ == src_t.take(j as int).filter(keep_t),
            decreases self.visit_tombstones.len() - j,
        {
            proof {
                lemma_filter_take_succ(src_t, keep_t, j as int);
            }
            let t = self.visit_tombstones[j];
            if t.place_id != place_id.0 {
                tombstones.push(t);
            }
            j += 1;
        }
        proof {
            assert(src_p.take(src_p.len() as int) =~= src_p);
            assert(src_t.take(src_t.len() as int) =~= src_t);
            lemma_delete_page_wf(old(self)@, place_id.0);
        }
        self.places = places;
        self.visit_tombstones = tombstones;
    }
}

impl HistoryStore {
    /// Puts `places` in the place of the table, where they are the old
    /// places rewritten by `f`.
    pub(crate) fn rewrite_places(
        &mut self,
        places: Vec<Place>,
        Ghost(f): Ghost<spec_fn(PlaceView) -> PlaceView>,
    )
        requires
            old(self).wf(),
            keeps_identity(f),
            places_view(places@) == old(self)@.places.map_values(f),
        ensures
            final(self)@ == old(self)@.map_places(f),
            final(self).wf(),
    {
        proof {
            lemma_map_places_wf(old(self)@, f);
        }
        self.places = places;
    }

    /// Wipes what is local: keeps only the referenced places, scored at
    /// `bonus` and with nothing to upload, and drops every visit and tombstone.
    pub(crate) fn wipe(&mut self, bonus: i32)
        requires
            old(self).wf(),
        ensures
            final(self)@ == old(self)@.wipe_local(bonus),
            final(self).wf(),
    {
        let ghost src = self@.places;
        let ghost keep = is_referenced();
        let ghost f = wiped_place(bonus);
        let mut places: Vec<Place> = Vec::new();
        let mut i: usize = 0;
        while i < self.places.len()
            invariant
                i <= self.places@.len(),
                *self == *old(self),
                src == self@.places,
                keep == is_referenced(),
                f == wiped_place(bonus),
                places_view(places@) == src.take(i as int).filter(keep).map_values(f),
            decreases self.places.len() - i,
        {
            proof {
                lemma_filter_take_succ(src, keep, i as int);
            }
            if self.places[i].foreign_count != 0 {
                let mut p = self.places[i].duplicate();
                p.frecency = bonus;
                p.sync_change_counter = 0;
                let ghost before = places@;
                places.push(p);
                proof {
                    let prev = src.take(i as int).filter(keep);
                    assert(p@ == f(src[i as int]));
                    assert(prev.push(src[i as int]).map_values(f) =~= prev.map_values(f).push(
                        f(src[i as int]),
                    ));
                    assert(places_view(places@) =~= places_view(before).push(p@));
                }
            }
            i += 1;
        }
        proof {
            assert(src.take(src.len() as int) =~= src);
            lemma_wipe_local_wf(old(self)@, bonus);
        }
        self.places = places;
        self.visits = Vec::new();
        self.place_tombstones = Vec::new();
        self.visit_tombstones = Vec::new();
        proof {
            assert(self@.visits =~= Seq::empty());
            assert(self@.place_tombstones =~= Seq::empty());
        }
    }

    /// Records the time below which synced visits are refused.
    pub(crate) fn set_deletion_high_water_mark(&mut self, mark: Timestamp)
        requires
            old(self).wf(),
        ensures
            final(self)@ == (StoreView { deletion_high_water_mark: mark.0, ..old(self)@ }),
            final(self).wf(),
    {
        self.deletion_high_water_mark = mark;
    }

    /// Records the time of the last sync and the sync identifiers.
    pub(crate) fn set_sync_meta(
        &mut self,
        last_sync: i64,
        global_sync_id: Option<String>,
        collection_sync_id: Option<String>,
    )
        requires
            old(self).wf(),
        ensures
            final(self)@ == (StoreView {
                last_sync,
                global_sync_id: opt_text(global_sync_id),
                collection_sync_id: opt_text(collection_sync_id),
                ..old(self)@
            }),
            final(self).wf(),
    {
        self.last_sync = last_sync;
        self.global_sync_id = global_sync_id;
        self.collection_sync_id = collection_sync_id;
    }

    /// Stages the place for upload at the given change counter.
    pub(crate) fn stage(&mut self, place_id: RowId, change_delta: u32)
        requires
            old(self).wf(),
        ensures
            final(self)@ == old(self)@.stage(place_id.0, change_delta),
            final(self).wf(),
    {
        let ghost here = staged_at(place_id.0);
        proof {
            lemma_stage(old(self)@, place_id.0, change_delta);
        }
        let mut i: usize = 0;
        while i < self.staged.len()
            invariant
                i <= self.staged@.len(),
                *self == *old(self),
                old(self).wf(),
                here == staged_at(place_id.0),
                forall|j: int| 0 <= j < i ==> !here(#[trigger] self.staged@[j]),
            decreases self.staged.len() - i,
        {
            if self.staged[i].place_id == place_id.0 {
                proof {
                    lemma_position_first(self.staged@, here, i as int);
                    lemma_stage(old(self)@, place_id.0, change_delta);
                }
                self.staged.set(i, StagedChange { place_id: place_id.0, change_delta });
                return ;
            }
            i += 1;
        }
        proof {
            lemma_position(self.staged@, here);
        }
        self.staged.push(StagedChange { place_id: place_id.0, change_delta });
    }

    /// The change counter that the place was staged at, if it is staged.
    pub fn staged_delta(&self, place_id: RowId) -> (r: Option<u32>)
        ensures
            r == self@.staged_delta(place_id.0),
    {
        let ghost here = staged_at(place_id.0);
        let mut i: usize = 0;
        while i < self.staged.len()
            invariant
                i <= self.staged@.len(),
                here == staged_at(place_id.0),
                forall|j: int| 0 <= j < i ==> !here(#[trigger] self.staged@[j]),
            decreases self.staged.len() - i,
        {
            if self.staged[i].place_id == place_id.0 {
                proof {
                    lemma_position_first(self.staged@, here, i as int);
                }
                return Some(self.staged[i].change_delta);
            }
            i += 1;
        }
        proof {
            lemma_position(self.staged@, here);
        }
        None
    }

    /// Empties the staging area and forgets the place tombstones: the
    /// upload has carried them.
    pub(crate) fn clear_staged_and_tombstones(&mut self)
        requires
            old(self).wf(),
        ensures
            final(self)@ == (StoreView {
                staged: Seq::empty(),
                place_tombstones: Seq::empty(),
                ..old(self)@
            }),
            final(self).wf(),
    {
        self.staged = Vec::new();
        self.place_tombstones = Vec::new();
        proof {
            assert(self@.place_tombstones =~= Seq::empty());
        }
    }

    /// Whether the place has a visit left.
    pub fn has_visits(&self, place_id: RowId) -> (r: bool)
        ensures
            r == self@.has_visits(place_id.0),
    {
        let mut i: usize = 0;
        while i < self.visits.len()
            invariant
                i <= self.visits@.len(),
                forall|j: int| 0 <= j < i ==> (#[trigger] self@.visits[j]).place_id != place_id.0,
            decreases self.visits.len() - i,
        {
            if self.visits[i].place_id.0 == place_id.0 {
                assert(self@.visits[i as int].place_id == place_id.0);
                return true;
            }
            i += 1;
        }
        false
    }
}

/// The place with one more reference to it.
pub open spec fn referenced(p: PlaceView) -> PlaceView {
    PlaceView { foreign_count: (p.foreign_count + 1) as u32, ..p }
}

/// The place with one reference less, if it had one.
pub open spec fn dereferenced(p: PlaceView) -> PlaceView {
    PlaceView {
        foreign_count: if p.foreign_count > 0 {
            (p.foreign_count - 1) as u32
        } else {
            0
        },
        ..p
    }
}

/// Why a reference to a URL is refused, if it is.
pub open spec fn spec_reference_error(
    s: StoreView,
    url: Seq<char>,
    fresh_guid: Seq<char>,
) -> Option<HistoryError> {
    match s.place_by_url(url) {
        Some(i) => if s.places[i].foreign_count == u32::MAX {
            Some(HistoryError::CounterOverflow)
        } else {
            None
        },
        None => if s.place_by_guid(fresh_guid) is Some {
            Some(HistoryError::GuidInUse)
        } else if s.next_place_id >= i64::MAX {
            Some(HistoryError::RowIdsExhausted)
        } else {
            None
        },
    }
}

/// The store after a bookmark or keyword came to point at `url`: the place
/// of the URL, made with `fresh_guid` where none was there, has one more
/// reference.
pub open spec fn spec_add_foreign_reference(
    s: StoreView,
    url: Seq<char>,
    fresh_guid: Seq<char>,
) -> StoreView {
    match s.place_by_url(url) {
        Some(i) => s.set_place(i, referenced(s.places[i])),
        None => s.insert_place(fresh_guid, url).set_place(
            s.places.len() as int,
            referenced(new_place(s.next_place_id, fresh_guid, url)),
        ),
    }
}

impl HistoryStore {
    /// Notes that a bookmark or keyword points at `url`. A place is made
    /// for the URL, with `fresh_guid`, where the store has none.
    pub fn add_foreign_reference(&mut self, url: &str, fresh_guid: String) -> (r: Result<
        RowId,
        HistoryError,
    >)
        requires
            old(self).wf(),
        ensures
            final(self).wf(),
            match spec_reference_error(old(self)@, url@, fresh_guid@) {
                Some(e) => r == Err::<RowId, HistoryError>(e) && final(self)@ == old(self)@,
                None => {
                    &&& final(self)@ == spec_add_foreign_reference(old(self)@, url@, fresh_guid@)
                    &&& r matches Ok(id)
                    &&& final(self)@.place_by_url(url@) matches Some(i)
                    &&& final(self)@.places[i].row_id == id.0
                },
            },
    {
        proof {
            lemma_position(old(self)@.places, has_url(url@));
        }
        let idx = match self.find_place_by_url(url) {
            Some(i) => {
                if self.places[i].foreign_count == u32::MAX {
                    return Err(HistoryError::CounterOverflow);
                }
                i
            },
            None => {
                if self.find_place_by_guid(fresh_guid.as_str()).is_some() {
                    return Err(HistoryError::GuidInUse);
                }
                if !self.has_room_for_place() {
                    return Err(HistoryError::RowIdsExhausted);
                }
                let at = self.push_place(fresh_guid, url.to_owned());
                proof {
                    assert(self@.places[at as int] == new_place(
                        old(self)@.next_place_id,
                        fresh_guid@,
                        url@,
                    ));
                    assert(self.places@[at as int]@ == self@.places[at as int]);
                }
                at
            },
        };
        let mut p = self.places[idx].duplicate();
        p.foreign_count = p.foreign_count + 1;
        let id = p.row_id;
        self.replace_place(idx, p);
        proof {
            lemma_lookup_unique(self@, idx as int);
        }
        Ok(id)
    }

    /// Notes that a bookmark or keyword no longer points at `url`. Tells
    /// whether the store has a place for the URL.
    pub fn remove_foreign_reference(&mut self, url: &str) -> (r: bool)
        requires
            old(self).wf(),
        ensures
            final(self).wf(),
            match old(self)@.place_by_url(url@) {
                Some(i) => r && final(self)@ == old(self)@.set_place(
                    i,
                    dereferenced(old(self)@.places[i]),
                ),
                None => !r && final(self)@ == old(self)@,
            },
    {
        match self.find_place_by_url(url) {
            Some(i) => {
                let mut p = self.places[i].duplicate();
                if p.foreign_count > 0 {
                    p.foreign_count = p.foreign_count - 1;
                }
                self.replace_place(i, p);
                true
            },
            None => false,
        }
    }

    /// Writes the sync status and the change counter of a place.
    pub fn set_sync_state(
        &mut self,
        id: RowId,
        sync_status: SyncStatus,
        sync_change_counter: u32,
    ) -> (r: Result<(), HistoryError>)
        requires
            old(self).wf(),
        ensures
            final(self).wf(),
            match old(self)@.place_by_id(id.0) {
                Some(i) => r == Ok::<(), HistoryError>(()) && final(self)@ == old(self)@.set_place(
                    i,
                    PlaceView { sync_status, sync_change_counter, ..old(self)@.places[i] },
                ),
                None => r == Err::<(), HistoryError>(HistoryError::NoSuchPlace) && final(self)@
                    == old(self)@,
            },
    {
        match self.find_place_by_id(id) {
            Some(i) => {
                let mut p = self.places[i].duplicate();
                p.sync_status = sync_status;
                p.sync_change_counter = sync_change_counter;
                self.replace_place(i, p);
                Ok(())
            },
            None => Err(HistoryError::NoSuchPlace),
        }
    }

    /// Writes the frecency of a place.
    pub fn set_frecency(&mut self, id: RowId, frecency: i32) -> (r: Result<(), HistoryError>)
        requires
            old(self).wf(),
        ensures
            final(self).wf(),
            match old(self)@.place_by_id(id.0) {
                Some(i) => r == Ok::<(), HistoryError>(()) && final(self)@ == old(self)@.set_place(
                    i,
                    PlaceView { frecency, ..old(self)@.places[i] },
                ),
                None => r == Err::<(), HistoryError>(HistoryError::NoSuchPlace) && final(self)@
                    == old(self)@,
            },
    {
        match self.find_place_by_id(id) {
            Some(i) => {
                let mut p = self.places[i].duplicate();
                p.frecency = frecency;
                self.replace_place(i, p);
                Ok(())
            },
            None => Err(HistoryError::NoSuchPlace),
        }
    }

    /// Hides a place from listings and uploads, or shows it again.
    pub fn set_hidden(&mut self, id: RowId, hidden: bool) -> (r: Result<(), HistoryError>)
        requires
            old(self).wf(),
        ensures
            final(self).wf(),
            match old(self)@.place_by_id(id.0) {
                Some(i) => r == Ok::<(), HistoryError>(()) && final(self)@ == old(self)@.set_place(
                    i,
                    PlaceView { hidden, ..old(self)@.places[i] },
                ),
                None => r == Err::<(), HistoryError>(HistoryError::NoSuchPlace) && final(self)@
                    == old(self)@,
            },
    {
        match self.find_place_by_id(id) {
            Some(i) => {
                let mut p = self.places[i].duplicate();
                p.hidden = hidden;
                self.replace_place(i, p);
                Ok(())
            },
            None => Err(HistoryError::NoSuchPlace),
        }
    }

    /// Records the time of the last sync.
    pub fn set_last_sync(&mut self, last_sync: i64)
        requires
            old(self).wf(),
        ensures
            final(self).wf(),
            final(self)@ == (StoreView { last_sync, ..old(self)@ }),
    {
        self.last_sync = last_sync;
    }

    /// Drops one visit without a trace: no tombstone, no cleanup.
    pub fn forget_visit(&mut self, id: RowId)
        requires
            old(self).wf(),
        ensures
            final(self).wf(),
            final(self)@ == old(self)@.retain_visits(visit_is_not(id.0)),
    {
        let ghost keep = visit_is_not(id.0);
        let mut mask: Vec<bool> = Vec::new();
        let mut i: usize = 0;
        while i < self.visits.len()
            invariant
                i <= self.visits@.len(),
                mask@.len() == i,
                keep == visit_is_not(id.0),
                forall|k: int| 0 <= k < i ==> mask@[k] == keep(#[trigger] self@.visits[k]),
            decreases self.visits.len() - i,
        {
            mask.push(self.visits[i].id.0 != id.0);
            i += 1;
        }
        self.retain_visits_masked(&mask, Ghost(keep));
    }
}

/// The contents of a store as they are kept elsewhere, before anything
/// has shown that they fit together.
#[derive(Debug)]
pub struct StoreParts {
    pub places: Vec<Place>,
    pub visits: Vec<Visit>,
    pub place_tombstones: Vec<String>,
    pub visit_tombstones: Vec<VisitTombstone>,
    pub staged: Vec<StagedChange>,
    pub deletion_high_water_mark: Timestamp,
    pub last_sync: i64,
    pub global_sync_id: Option<String>,
    pub collection_sync_id: Option<String>,
    pub next_place_id: RowId,
    pub next_visit_id: RowId,
}

impl View for StoreParts {
    type V = StoreView;

    open spec fn view(&self) -> StoreView {
        StoreView {
            places: places_view(self.places@),
            visits: visits_view(self.visits@),
            place_tombstones: texts_view(self.place_tombstones@),
            visit_tombstones: self.visit_tombstones@,
            staged: self.staged@,
            deletion_high_water_mark: self.deletion_high_water_mark.0,
            last_sync: self.last_sync,
            global_sync_id: opt_text(self.global_sync_id),
            collection_sync_id: opt_text(self.collection_sync_id),
            next_place_id: self.next_place_id.0,
            next_visit_id: self.next_visit_id.0,
        }
    }
}

/// True when the row identifiers grow along the table and lie from one up
/// to below `next`.
pub open spec fn ids_in_order(ids: Seq<i64>, next: i64) -> bool {
    &&& forall|i: int, j: int| 0 <= i < j < ids.len() ==> ids[i] < ids[j]
    &&& forall|i: int| 0 <= i < ids.len() ==> 1 <= #[trigger] ids[i] < next
}

/// Whether the row identifiers grow along the table and lie below `next`.
fn check_ids(ids: &Vec<i64>, next: i64) -> (r: bool)
    ensures
        r == ids_in_order(ids@, next),
{
    let mut i: usize = 0;
    while i < ids.len()
        invariant
            i <= ids@.len(),
            forall|a: int, b: int| 0 <= a < b < i ==> ids@[a] < ids@[b],
            forall|a: int| 0 <= a < i ==> 1 <= #[trigger] ids@[a] < next,
        decreases ids.len() - i,
    {
        if ids[i] < 1 || ids[i] >= next {
            return false;
        }
        if i > 0 && ids[i - 1] >= ids[i] {
            return false;
        }
        proof {
            assert forall|a: int, b: int| 0 <= a < b < i + 1 implies ids@[a] < ids@[b] by {
                if b == i && a < i - 1 {
                    assert(ids@[a] < ids@[i - 1]);
                }
            }
        }
        i += 1;
    }
    true
}

/// Whether no text stands twice in the list.
fn check_distinct_texts(texts: &Vec<String>) -> (r: bool)
    ensures
        r == texts_view(texts@).no_duplicates(),
{
    let ghost view = texts_view(texts@);
    let mut i: usize = 0;
    while i < texts.len()
        invariant
            i <= texts@.len(),
            view == texts_view(texts@),
            forall|a: int, b: int| 0 <= a < b < i ==> view[a] != view[b],
        decreases texts.len() - i,
    {
        let mut j: usize = 0;
        while j < i
            invariant
                j <= i < texts@.len(),
                view == texts_view(texts@),
                forall|a: int| 0 <= a < j ==> view[a] != view[i as int],
            decreases i - j,
        {
            if texts[j] == texts[i] {
                assert(view[j as int] == view[i as int]);
                return false;
            }
            j += 1;
        }
        i += 1;
    }
    proof {
        assert forall|a: int, b: int| 0 <= a < view.len() && 0 <= b < view.len() && a
            != b implies view[a] != view[b] by {
            if a < b {
            } else {
                assert(view[b] != view[a]);
            }
        }
    }
    true
}

/// Whether no pair of numbers stands twice in the list.
fn check_distinct_pairs(pairs: &Vec<(i64, u64)>) -> (r: bool)
    ensures
        r == pairs@.no_duplicates(),
{
    let mut i: usize = 0;
    while i < pairs.len()
        invariant
            i <= pairs@.len(),
            forall|a: int, b: int| 0 <= a < b < i ==> pairs@[a] != pairs@[b],
        decreases pairs.len() - i,
    {
        let mut j: usize = 0;
        while j < i
            invariant
                j <= i < pairs@.len(),
                forall|a: int| 0 <= a < j ==> pairs@[a] != pairs@[i as int],
            decreases i - j,
        {
            if pairs[j].0 == pairs[i].0 && pairs[j].1 == pairs[i].1 {
                assert(pairs@[j as int] == pairs@[i as int]);
                return false;
            }
            j += 1;
        }
        i += 1;
    }
    proof {
        assert forall|a: int, b: int| 0 <= a < pairs@.len() && 0 <= b < pairs@.len() && a
            != b implies pairs@[a] != pairs@[b] by {
            if a < b {
            } else {
                assert(pairs@[b] != pairs@[a]);
            }
        }
    }
    true
}

impl HistoryStore {
    /// Whether every listed row identifier is that of a place.
    fn has_places(&self, owners: &Vec<i64>) -> (r: bool)
        ensures
            r == (forall|i: int| 0 <= i < owners@.len() ==> has_place(self@.places, #[trigger] owners@[i])),
    {
        let mut i: usize = 0;
        while i < owners.len()
            invariant
                i <= owners@.len(),
                forall|a: int| 0 <= a < i ==> has_place(self@.places, #[trigger] owners@[a]),
            decreases owners.len() - i,
        {
            if self.find_place_by_id(RowId(owners[i])).is_none() {
                return false;
            }
            i += 1;
        }
        true
    }

    /// Makes a store of contents kept elsewhere, if they fit together:
    /// if they meet the invariant of the store.
    pub fn from_parts(parts: StoreParts) -> (r: Option<HistoryStore>)
        ensures
            match r {
                Some(store) => parts@.wf() && store.wf() && store@ == parts@,
                None => !parts@.wf(),
            },
    {
        let ghost view = parts@;
        let mut place_ids: Vec<i64> = Vec::new();
        let mut urls: Vec<String> = Vec::new();
        let mut guids: Vec<String> = Vec::new();
        let mut i: usize = 0;
        while i < parts.places.len()
            invariant
                i <= parts.places@.len(),
                view == parts@,
                place_ids@.len() == i,
                urls@.len() == i,
                guids@.len() == i,
                forall|a: int| 0 <= a < i ==> place_ids@[a] == (#[trigger] view.places[a]).row_id,
                forall|a: int| 0 <= a < i ==> (#[trigger] urls@[a])@ == view.places[a].url,
                forall|a: int| 0 <= a < i ==> (#[trigger] guids@[a])@ == view.places[a].guid,
            decreases parts.places.len() - i,
        {
            place_ids.push(parts.places[i].row_id.0);
            urls.push(parts.places[i].url.clone());
            guids.push(parts.places[i].guid.clone());
            i += 1;
        }
        let mut visit_ids: Vec<i64> = Vec::new();
        let mut owners: Vec<i64> = Vec::new();
        let mut k: usize = 0;
        while k < parts.visits.len()
            invariant
                k <= parts.visits@.len(),
                view == parts@,
                visit_ids@.len() == k,
                owners@.len() == k,
                forall|a: int| 0 <= a < k ==> visit_ids@[a] == (#[trigger] view.visits[a]).id,
                forall|a: int| 0 <= a < k ==> owners@[a] == (#[trigger] view.visits[a]).place_id,
            decreases parts.visits.len() - k,
        {
            visit_ids.push(parts.visits[k].id.0);
            owners.push(parts.visits[k].place_id.0);
            k += 1;
        }
        let mut marked: Vec<i64> = Vec::new();
        let mut pairs: Vec<(i64, u64)> = Vec::new();
        let mut t: usize = 0;
        while t < parts.visit_tombstones.len()
            invariant
                t <= parts.visit_tombstones@.len(),
                view == parts@,
                marked@.len() == t,
                pairs@.len() == t,
                forall|a: int| 0 <= a < t ==> marked@[a] == (#[trigger] view.visit_tombstones[a]).place_id,
                forall|a: int|
                    0 <= a < t ==> (#[trigger] pairs@[a]) == (
                        view.visit_tombstones[a].place_id,
                        view.visit_tombstones[a].visit_date,
                    ),
            decreases parts.visit_tombstones.len() - t,
        {
            marked.push(parts.visit_tombstones[t].place_id);
            pairs.push((parts.visit_tombstones[t].place_id, parts.visit_tombstones[t].visit_date));
            t += 1;
        }
        let mut staged_ids: Vec<(i64, u64)> = Vec::new();
        let mut g: usize = 0;
        while g < parts.staged.len()
            invariant
                g <= parts.staged@.len(),
                view == parts@,
                staged_ids@.len() == g,
                forall|a: int|
                    0 <= a < g ==> (#[trigger] staged_ids@[a]) == (view.staged[a].place_id, 0u64),
            decreases parts.staged.len() - g,
        {
            staged_ids.push((parts.staged[g].place_id, 0));
            g += 1;
        }
        let ids_fit = parts.next_place_id.0 >= 1 && parts.next_visit_id.0 >= 1 && check_ids(
            &place_ids,
            parts.next_place_id.0,
        ) && check_ids(&visit_ids, parts.next_visit_id.0);
        let keys_fit = check_distinct_texts(&urls) && check_distinct_texts(&guids)
            && check_distinct_texts(&parts.place_tombstones) && check_distinct_pairs(&pairs)
            && check_distinct_pairs(&staged_ids);
        proof {
            lemma_parts_keys(
                view,
                place_ids@,
                texts_view(urls@),
                texts_view(guids@),
                visit_ids@,
                pairs@,
                staged_ids@,
            );
        }
        let store = HistoryStore {
            places: parts.places,
            visits: parts.visits,
            place_tombstones: parts.place_tombstones,
            visit_tombstones: parts.visit_tombstones,
            staged: parts.staged,
            deletion_high_water_mark: parts.deletion_high_water_mark,
            last_sync: parts.last_sync,
            global_sync_id: parts.global_sync_id,
            collection_sync_id: parts.collection_sync_id,
            next_place_id: parts.next_place_id.0,
            next_visit_id: parts.next_visit_id.0,
        };
        assert(store@ == view);
        let visits_fit = store.has_places(&owners);
        let tombstones_fit = store.has_places(&marked);
        proof {
            assert(visits_fit == (forall|a: int|
                0 <= a < view.visits.len() ==> has_place(
                    view.places,
                    (#[trigger] view.visits[a]).place_id,
                ))) by {
                if visits_fit {
                    assert forall|a: int| 0 <= a < view.visits.len() implies has_place(
                        view.places,
                        (#[trigger] view.visits[a]).place_id,
                    ) by {
                        assert(has_place(view.places, owners@[a]));
                    }
                } else {
                    let a = choose|a: int|
                        0 <= a < owners@.len() && !has_place(view.places, #[trigger] owners@[a]);
                    assert(view.visits[a].place_id == owners@[a]);
                }
            }
            assert(tombstones_fit == (forall|a: int|
                0 <= a < view.visit_tombstones.len() ==> has_place(
                    view.places,
                    (#[trigger] view.visit_tombstones[a]).place_id,
                ))) by {
                if tombstones_fit {
                    assert forall|a: int| 0 <= a < view.visit_tombstones.len() implies has_place(
                        view.places,
                        (#[trigger] view.visit_tombstones[a]).place_id,
                    ) by {
                        assert(has_place(view.places, marked@[a]));
                    }
                } else {
                    let a = choose|a: int|
                        0 <= a < marked@.len() && !has_place(view.places, #[trigger] marked@[a]);
                    assert(view.visit_tombstones[a].place_id == marked@[a]);
                }
            }
            assert(texts_view(store.place_tombstones@) == view.place_tombstones);
        }
        let owners_fit = visits_fit && tombstones_fit;
        if ids_fit && keys_fit && owners_fit {
            Some(store)
        } else {
            None
        }
    }

    /// The contents of the store, to keep them elsewhere.
    pub fn to_parts(&self) -> (r: StoreParts)
        ensures
            r@ == self@,
    {
        let mut places: Vec<Place> = Vec::new();
        let mut i: usize = 0;
        while i < self.places.len()
            invariant
                i <= self.places@.len(),
                places@ == self.places@.take(i as int),
            decreases self.places.len() - i,
        {
            places.push(self.places[i].duplicate());
            proof {
                assert(self.places@.take(i + 1) =~= self.places@.take(i as int).push(
                    self.places@[i as int],
                ));
            }
            i += 1;
        }
        let mut visits: Vec<Visit> = Vec::new();
        let mut k: usize = 0;
        while k < self.visits.len()
            invariant
                k <= self.visits@.len(),
                visits@ == self.visits@.take(k as int),
            decreases self.visits.len() - k,
        {
            visits.push(self.visits[k].duplicate());
            proof {
                assert(self.visits@.take(k + 1) =~= self.visits@.take(k as int).push(
                    self.visits@[k as int],
                ));
            }
            k += 1;
        }
        let mut place_tombstones: Vec<String> = Vec::new();
        let mut t: usize = 0;
        while t < self.place_tombstones.len()
            invariant
                t <= self.place_tombstones@.len(),
                place_tombstones@ == self.place_tombstones@.take(t as int),
            decreases self.place_tombstones.len() - t,
        {
            place_tombstones.push(self.place_tombstones[t].clone());
            proof {
                assert(self.place_tombstones@.take(t + 1) =~= self.place_tombstones@.take(
                    t as int,
                ).push(self.place_tombstones@[t as int]));
            }
            t += 1;
        }
        proof {
            assert(self.places@.take(self.places@.len() as int) =~= self.places@);
            assert(self.visits@.take(self.visits@.len() as int) =~= self.visits@);
            assert(self.place_tombstones@.take(self.place_tombstones@.len() as int)
                =~= self.place_tombstones@);
        }
        StoreParts {
            places,
            visits,
            place_tombstones,
            visit_tombstones: self.visit_tombstones.clone(),
            staged: self.staged.clone(),
            deletion_high_water_mark: self.deletion_high_water_mark,
            last_sync: self.last_sync,
            global_sync_id: clone_opt_string(&self.global_sync_id),
            collection_sync_id: clone_opt_string(&self.collection_sync_id),
            next_place_id: RowId(self.next_place_id),
            next_visit_id: RowId(self.next_visit_id),
        }
    }
}

/// The keys of the rows, listed apart, say of the store what the store's
/// invariant asks of its rows.
proof fn lemma_parts_keys(
    s: StoreView,
    place_ids: Seq<i64>,
    urls: Seq<Seq<char>>,
    guids: Seq<Seq<char>>,
    visit_ids: Seq<i64>,
    pairs: Seq<(i64, u64)>,
    staged_ids: Seq<(i64, u64)>,
)
    requires
        place_ids.len() == s.places.len(),
        urls.len() == s.places.len(),
        guids.len() == s.places.len(),
        visit_ids.len() == s.visits.len(),
        pairs.len() == s.visit_tombstones.len(),
        staged_ids.len() == s.staged.len(),
        forall|a: int| 0 <= a < s.places.len() ==> place_ids[a] == (#[trigger] s.places[a]).row_id,
        forall|a: int| 0 <= a < s.places.len() ==> (#[trigger] urls[a]) == s.places[a].url,
        forall|a: int| 0 <= a < s.places.len() ==> (#[trigger] guids[a]) == s.places[a].guid,
        forall|a: int| 0 <= a < s.visits.len() ==> visit_ids[a] == (#[trigger] s.visits[a]).id,
        forall|a: int|
            0 <= a < s.visit_tombstones.len() ==> (#[trigger] pairs[a]) == (
                s.visit_tombstones[a].place_id,
                s.visit_tombstones[a].visit_date,
            ),
        forall|a: int|
            0 <= a < s.staged.len() ==> (#[trigger] staged_ids[a]) == (s.staged[a].place_id, 0u64),
    ensures
        ids_in_order(place_ids, s.next_place_id) == (increasing_by(
            s.places,
            place_key(),
        ) && forall|i: int|
            0 <= i < s.places.len() ==> 1 <= (#[trigger] s.places[i]).row_id < s.next_place_id),
        ids_in_order(visit_ids, s.next_visit_id) == (increasing_by(
            s.visits,
            visit_key(),
        ) && forall|i: int|
            0 <= i < s.visits.len() ==> 1 <= (#[trigger] s.visits[i]).id < s.next_visit_id),
        urls.no_duplicates() == distinct_by(s.places, place_url()),
        guids.no_duplicates() == distinct_by(s.places, place_guid()),
        pairs.no_duplicates() == s.visit_tombstones.no_duplicates(),
        staged_ids.no_duplicates() == distinct_by(s.staged, staged_key()),
{
    let pk = place_key();
    let vk = visit_key();
    if ids_in_order(place_ids, s.next_place_id) {
        assert forall|i: int, j: int| 0 <= i < j < s.places.len() implies pk(
            #[trigger] s.places[i],
        ) < pk(#[trigger] s.places[j]) by {
            assert(place_ids[i] < place_ids[j]);
        }
        assert forall|i: int| 0 <= i < s.places.len() implies 1 <= (
        #[trigger] s.places[i]).row_id < s.next_place_id by {
            assert(1 <= place_ids[i] < s.next_place_id);
        }
    }
    if increasing_by(s.places, pk) && forall|i: int|
        0 <= i < s.places.len() ==> 1 <= (#[trigger] s.places[i]).row_id < s.next_place_id {
        assert forall|i: int, j: int| 0 <= i < j < place_ids.len() implies place_ids[i]
            < place_ids[j] by {
            assert(pk(s.places[i]) < pk(s.places[j]));
        }
        assert forall|i: int| 0 <= i < place_ids.len() implies 1 <= #[trigger] place_ids[i]
            < s.next_place_id by {
            assert(1 <= s.places[i].row_id);
        }
    }
    if ids_in_order(visit_ids, s.next_visit_id) {
        assert forall|i: int, j: int| 0 <= i < j < s.visits.len() implies vk(
            #[trigger] s.visits[i],
        ) < vk(#[trigger] s.visits[j]) by {
            assert(visit_ids[i] < visit_ids[j]);
        }
        assert forall|i: int| 0 <= i < s.visits.len() implies 1 <= (#[trigger] s.visits[i]).id
            < s.next_visit_id by {
            assert(1 <= visit_ids[i] < s.next_visit_id);
        }
    }
    if increasing_by(s.visits, vk) && forall|i: int|
        0 <= i < s.visits.len() ==> 1 <= (#[trigger] s.visits[i]).id < s.next_visit_id {
        assert forall|i: int, j: int| 0 <= i < j < visit_ids.len() implies visit_ids[i]
            < visit_ids[j] by {
            assert(vk(s.visits[i]) < vk(s.visits[j]));
        }
        assert forall|i: int| 0 <= i < visit_ids.len() implies 1 <= #[trigger] visit_ids[i]
            < s.next_visit_id by {
            assert(1 <= s.visits[i].id);
        }
    }
    let uk = place_url();
    if urls.no_duplicates() {
        assert forall|i: int, j: int| 0 <= i < j < s.places.len() implies uk(
            #[trigger] s.places[i],
        ) != uk(#[trigger] s.places[j]) by {
            assert(urls[i] != urls[j]);
        }
    }
    if distinct_by(s.places, uk) {
        assert forall|i: int, j: int|
            0 <= i < urls.len() && 0 <= j < urls.len() && i != j implies urls[i] != urls[j] by {
            if i < j {
                assert(uk(s.places[i]) != uk(s.places[j]));
            } else {
                assert(uk(s.places[j]) != uk(s.places[i]));
            }
        }
    }
    let gk = place_guid();
    if guids.no_duplicates() {
        assert forall|i: int, j: int| 0 <= i < j < s.places.len() implies gk(
            #[trigger] s.places[i],
        ) != gk(#[trigger] s.places[j]) by {
            assert(guids[i] != guids[j]);
        }
    }
    if distinct_by(s.places, gk) {
        assert forall|i: int, j: int|
            0 <= i < guids.len() && 0 <= j < guids.len() && i != j implies guids[i]
            != guids[j] by {
            if i < j {
                assert(gk(s.places[i]) != gk(s.places[j]));
            } else {
                assert(gk(s.places[j]) != gk(s.places[i]));
            }
        }
    }
    if pairs.no_duplicates() {
        assert forall|i: int, j: int|
            0 <= i < s.visit_tombstones.len() && 0 <= j < s.visit_tombstones.len() && i
                != j implies s.visit_tombstones[i] != s.visit_tombstones[j] by {
            assert(pairs[i] != pairs[j]);
        }
    }
    if s.visit_tombstones.no_duplicates() {
        assert forall|i: int, j: int|
            0 <= i < pairs.len() && 0 <= j < pairs.len() && i != j implies pairs[i]
            != pairs[j] by {
            assert(s.visit_tombstones[i] != s.visit_tombstones[j]);
        }
    }
    let sk = staged_key();
    if staged_ids.no_duplicates() {
        assert forall|i: int, j: int| 0 <= i < j < s.staged.len() implies sk(
            #[trigger] s.staged[i],
        ) != sk(#[trigger] s.staged[j]) by {
            assert(staged_ids[i] != staged_ids[j]);
        }
    }
    if distinct_by(s.staged, sk) {
        assert forall|i: int, j: int|
            0 <= i < staged_ids.len() && 0 <= j < staged_ids.len() && i
                != j implies staged_ids[i] != staged_ids[j] by {
            if i < j {
                assert(sk(s.staged[i]) != sk(s.staged[j]));
            } else {
                assert(sk(s.staged[j]) != sk(s.staged[i]));
            }
        }
    }
}

} // verus!
