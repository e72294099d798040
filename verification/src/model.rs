//! The mathematical model of the history store: rows as plain values, the
//! store as sequences of rows in insertion order, and each operation of the
//! engine as a function from store to store.

use crate::seq_util::{
    distinct_by, increasing_by, lemma_filter_distinct, lemma_filter_increasing, lemma_filter_keeps,
    lemma_filter_member, lemma_position, lemma_position_first, position,
};
use crate::types::{SyncStatus, VisitType};
use vstd::prelude::*;

verus! {

/// Frecency of a place that nothing has scored yet.
pub const UNSCORED_FRECENCY: i32 = -1;

/// A place: the canonical record of one URL.
pub struct PlaceView {
    pub row_id: i64,
    pub guid: Seq<char>,
    pub url: Seq<char>,
    pub title: Seq<char>,
    pub preview_image_url: Option<Seq<char>>,
    pub hidden: bool,
    pub typed: u32,
    pub frecency: i32,
    pub sync_status: SyncStatus,
    pub sync_change_counter: u32,
    pub foreign_count: u32,
    pub unknown_fields: Option<Seq<char>>,
}

/// A visit: one browsing or synced event at a place.
pub struct VisitView {
    pub id: i64,
    pub place_id: i64,
    pub from_visit: Option<i64>,
    pub visit_date: u64,
    pub visit_type: VisitType,
    pub is_local: bool,
    pub unknown_fields: Option<Seq<char>>,
}

/// Marks one visit of a surviving place as deleted locally.
#[derive(Clone, Copy, Debug, PartialEq, Eq, Structural, PartialOrd, Ord, Hash)]
pub struct VisitTombstone {
    pub place_id: i64,
    pub visit_date: u64,
}

/// A place handed to an upload, with the change counter it had then.
#[derive(Clone, Copy, Debug, PartialEq, Eq, Structural, Hash)]
pub struct StagedChange {
    pub place_id: i64,
    pub change_delta: u32,
}

/// The whole persisted state of the history engine.
pub struct StoreView {
    pub places: Seq<PlaceView>,
    pub visits: Seq<VisitView>,
    pub place_tombstones: Seq<Seq<char>>,
    pub visit_tombstones: Seq<VisitTombstone>,
    pub staged: Seq<StagedChange>,
    pub deletion_high_water_mark: u64,
    pub last_sync: i64,
    pub global_sync_id: Option<Seq<char>>,
    pub collection_sync_id: Option<Seq<char>>,
    pub next_place_id: i64,
    pub next_visit_id: i64,
}

pub open spec fn place_key() -> spec_fn(PlaceView) -> int {
    |p: PlaceView| p.row_id as int
}

pub open spec fn place_url() -> spec_fn(PlaceView) -> Seq<char> {
    |p: PlaceView| p.url
}

pub open spec fn place_guid() -> spec_fn(PlaceView) -> Seq<char> {
    |p: PlaceView| p.guid
}

pub open spec fn visit_key() -> spec_fn(VisitView) -> int {
    |v: VisitView| v.id as int
}

pub open spec fn staged_key() -> spec_fn(StagedChange) -> i64 {
    |c: StagedChange| c.place_id
}

pub open spec fn has_url(url: Seq<char>) -> spec_fn(PlaceView) -> bool {
    |p: PlaceView| p.url == url
}

pub open spec fn has_guid(guid: Seq<char>) -> spec_fn(PlaceView) -> bool {
    |p: PlaceView| p.guid == guid
}

pub open spec fn has_row_id(id: i64) -> spec_fn(PlaceView) -> bool {
    |p: PlaceView| p.row_id == id
}

pub open spec fn place_is_not(id: i64) -> spec_fn(PlaceView) -> bool {
    |p: PlaceView| p.row_id != id
}

pub open spec fn has_visit_id(id: i64) -> spec_fn(VisitView) -> bool {
    |v: VisitView| v.id == id
}

pub open spec fn visit_is_not(id: i64) -> spec_fn(VisitView) -> bool {
    |v: VisitView| v.id != id
}

pub open spec fn visit_of(place_id: i64) -> spec_fn(VisitView) -> bool {
    |v: VisitView| v.place_id == place_id
}

pub open spec fn visit_not_of(place_id: i64) -> spec_fn(VisitView) -> bool {
    |v: VisitView| v.place_id != place_id
}

pub open spec fn tombstone_not_of(place_id: i64) -> spec_fn(VisitTombstone) -> bool {
    |t: VisitTombstone| t.place_id != place_id
}

pub open spec fn tombstone_is_not(gone: VisitTombstone) -> spec_fn(VisitTombstone) -> bool {
    |t: VisitTombstone| t != gone
}

/// True when some place has the row identifier `id`.
pub open spec fn has_place(places: Seq<PlaceView>, id: i64) -> bool {
    exists|i: int| 0 <= i < places.len() && #[trigger] places[i].row_id == id
}

/// True when the place has a visit at the instant `visit_date`.
pub open spec fn has_visit_at(visits: Seq<VisitView>, place_id: i64, visit_date: u64) -> bool {
    exists|i: int|
        0 <= i < visits.len() && (#[trigger] visits[i]).place_id == place_id && visits[i].visit_date
            == visit_date
}

/// The place that a fresh URL gets.
pub open spec fn new_place(row_id: i64, guid: Seq<char>, url: Seq<char>) -> PlaceView {
    PlaceView {
        row_id,
        guid,
        url,
        title: Seq::empty(),
        preview_image_url: None,
        hidden: false,
        typed: 0,
        frecency: UNSCORED_FRECENCY,
        sync_status: SyncStatus::New,
        sync_change_counter: 0,
        foreign_count: 0,
        unknown_fields: None,
    }
}

/// `s` with `x` appended unless it already holds `x`.
pub open spec fn with_member<T>(s: Seq<T>, x: T) -> Seq<T> {
    if s.contains(x) {
        s
    } else {
        s.push(x)
    }
}

/// The tombstones `base` with one added for each of the first `n` of
/// `visits` that belongs to `place_id`.
pub open spec fn with_tombstones_of(
    base: Seq<VisitTombstone>,
    visits: Seq<VisitView>,
    place_id: i64,
    n: nat,
) -> Seq<VisitTombstone>
    decreases n,
{
    if n == 0 || n > visits.len() {
        base
    } else {
        let before = with_tombstones_of(base, visits, place_id, (n - 1) as nat);
        let v = visits[n - 1];
        if v.place_id == place_id {
            with_member(before, VisitTombstone { place_id, visit_date: v.visit_date })
        } else {
            before
        }
    }
}

/// The tombstones `base` with one added for each of the first `n` of `visits`.
pub open spec fn with_tombstones_for(
    base: Seq<VisitTombstone>,
    visits: Seq<VisitView>,
    n: nat,
) -> Seq<VisitTombstone>
    decreases n,
{
    if n == 0 || n > visits.len() {
        base
    } else {
        with_member(
            with_tombstones_for(base, visits, (n - 1) as nat),
            VisitTombstone { place_id: visits[n - 1].place_id, visit_date: visits[n - 1].visit_date },
        )
    }
}

/// The predicate that holds where `p` does not.
pub open spec fn negation<T>(p: spec_fn(T) -> bool) -> spec_fn(T) -> bool {
    |x: T| !p(x)
}

/// True for a place that a bookmark or a keyword points at.
pub open spec fn is_referenced() -> spec_fn(PlaceView) -> bool {
    |p: PlaceView| p.foreign_count != 0
}

/// A surviving place after a full wipe: scored flat, with nothing to upload.
pub open spec fn wiped_place(bonus: i32) -> spec_fn(PlaceView) -> PlaceView {
    |p: PlaceView| PlaceView { frecency: bonus, sync_change_counter: 0, ..p }
}

/// True when `f` leaves the row identifier, the URL and the GUID of every
/// place as they are.
pub open spec fn keeps_identity(f: spec_fn(PlaceView) -> PlaceView) -> bool {
    forall|p: PlaceView|
        (#[trigger] f(p)).row_id == p.row_id && f(p).url == p.url && f(p).guid == p.guid
}

/// True for the staging entry of the place.
pub open spec fn staged_at(place_id: i64) -> spec_fn(StagedChange) -> bool {
    |c: StagedChange| c.place_id == place_id
}

/// The change counter that the place was staged at, if it is staged.
pub open spec fn delta_in(staged: Seq<StagedChange>, place_id: i64) -> Option<u32> {
    match position(staged, staged_at(place_id)) {
        Some(i) => Some(staged[i].change_delta),
        None => None,
    }
}

/// The staged places with `place_id` recorded at `change_delta`, in place
/// where it was staged before.
pub open spec fn with_staged(
    staged: Seq<StagedChange>,
    place_id: i64,
    change_delta: u32,
) -> Seq<StagedChange> {
    match position(staged, staged_at(place_id)) {
        Some(i) => staged.update(i, StagedChange { place_id, change_delta }),
        None => staged.push(StagedChange { place_id, change_delta }),
    }
}

impl StoreView {
    /// The empty store.
    pub open spec fn empty() -> StoreView {
        StoreView {
            places: Seq::empty(),
            visits: Seq::empty(),
            place_tombstones: Seq::empty(),
            visit_tombstones: Seq::empty(),
            staged: Seq::empty(),
            deletion_high_water_mark: 0,
            last_sync: 0,
            global_sync_id: None,
            collection_sync_id: None,
            next_place_id: 1,
            next_visit_id: 1,
        }
    }

    /// The store's invariant: row identifiers grow with insertion and stay
    /// below the next one to hand out, no two places share a URL or a GUID,
    /// every visit and visit tombstone belongs to a place that exists, and
    /// no tombstone or staged place is recorded twice.
    pub open spec fn wf(self) -> bool {
        &&& 1 <= self.next_place_id
        &&& 1 <= self.next_visit_id
        &&& increasing_by(self.places, place_key())
        &&& forall|i: int|
            0 <= i < self.places.len() ==> 1 <= (#[trigger] self.places[i]).row_id
                < self.next_place_id
        &&& distinct_by(self.places, place_url())
        &&& distinct_by(self.places, place_guid())
        &&& increasing_by(self.visits, visit_key())
        &&& forall|i: int|
            0 <= i < self.visits.len() ==> 1 <= (#[trigger] self.visits[i]).id < self.next_visit_id
        &&& forall|i: int|
            0 <= i < self.visits.len() ==> has_place(
                self.places,
                (#[trigger] self.visits[i]).place_id,
            )
        &&& forall|i: int|
            0 <= i < self.visit_tombstones.len() ==> has_place(
                self.places,
                (#[trigger] self.visit_tombstones[i]).place_id,
            )
        &&& self.visit_tombstones.no_duplicates()
        &&& self.place_tombstones.no_duplicates()
        &&& distinct_by(self.staged, staged_key())
    }

    /// Position of the place with the given URL.
    pub open spec fn place_by_url(self, url: Seq<char>) -> Option<int> {
        position(self.places, has_url(url))
    }

    /// Position of the place with the given GUID.
    pub open spec fn place_by_guid(self, guid: Seq<char>) -> Option<int> {
        position(self.places, has_guid(guid))
    }

    /// Position of the place with the given row identifier.
    pub open spec fn place_by_id(self, id: i64) -> Option<int> {
        position(self.places, has_row_id(id))
    }

    /// True when the place has a visit left.
    pub open spec fn has_visits(self, place_id: i64) -> bool {
        exists|i: int| 0 <= i < self.visits.len() && (#[trigger] self.visits[i]).place_id == place_id
    }

    /// The store with a fresh place for `url` appended.
    pub open spec fn insert_place(self, guid: Seq<char>, url: Seq<char>) -> StoreView {
        StoreView {
            places: self.places.push(new_place(self.next_place_id, guid, url)),
            next_place_id: (self.next_place_id + 1) as i64,
            ..self
        }
    }

    /// The store with the place at `idx` replaced by `place`.
    pub open spec fn set_place(self, idx: int, place: PlaceView) -> StoreView {
        StoreView { places: self.places.update(idx, place), ..self }
    }

    /// The store with a new visit appended.
    pub open spec fn insert_visit(
        self,
        place_id: i64,
        from_visit: Option<i64>,
        visit_date: u64,
        visit_type: VisitType,
        is_local: bool,
        unknown_fields: Option<Seq<char>>,
    ) -> StoreView {
        StoreView {
            visits: self.visits.push(
                VisitView {
                    id: self.next_visit_id,
                    place_id,
                    from_visit,
                    visit_date,
                    visit_type,
                    is_local,
                    unknown_fields,
                },
            ),
            next_visit_id: (self.next_visit_id + 1) as i64,
            ..self
        }
    }

    /// The store with a new visit recorded: the visit is appended, and a
    /// tombstone of the same place and instant gives way to it.
    pub open spec fn add_visit(
        self,
        place_id: i64,
        from_visit: Option<i64>,
        visit_date: u64,
        visit_type: VisitType,
        is_local: bool,
        unknown_fields: Option<Seq<char>>,
    ) -> StoreView {
        self.insert_visit(
            place_id,
            from_visit,
            visit_date,
            visit_type,
            is_local,
            unknown_fields,
        ).remove_visit_tombstone(place_id, visit_date)
    }

    /// The store without the tombstone of the visit at `visit_date`.
    pub open spec fn remove_visit_tombstone(self, place_id: i64, visit_date: u64) -> StoreView {
        StoreView {
            visit_tombstones: self.visit_tombstones.filter(
                tombstone_is_not(VisitTombstone { place_id, visit_date }),
            ),
            ..self
        }
    }

    /// The store with a tombstone for the visit at `visit_date`.
    pub open spec fn add_visit_tombstone(self, place_id: i64, visit_date: u64) -> StoreView {
        StoreView {
            visit_tombstones: with_member(
                self.visit_tombstones,
                VisitTombstone { place_id, visit_date },
            ),
            ..self
        }
    }

    /// The store with a tombstone for the place that had `guid`.
    pub open spec fn add_place_tombstone(self, guid: Seq<char>) -> StoreView {
        StoreView { place_tombstones: with_member(self.place_tombstones, guid), ..self }
    }

    /// The store with only the visits that `keep` holds of.
    pub open spec fn retain_visits(self, keep: spec_fn(VisitView) -> bool) -> StoreView {
        StoreView { visits: self.visits.filter(keep), ..self }
    }

    /// The store with a tombstone for each visit of the place.
    pub open spec fn insert_tombstones_for_all_page_visits(self, place_id: i64) -> StoreView {
        StoreView {
            visit_tombstones: with_tombstones_of(
                self.visit_tombstones,
                self.visits,
                place_id,
                self.visits.len(),
            ),
            ..self
        }
    }

    /// The store without the visits of the place.
    pub open spec fn delete_all_visits_for_page(self, place_id: i64) -> StoreView {
        self.retain_visits(visit_not_of(place_id))
    }

    /// The store without the visits that `doomed` holds of, and with a
    /// tombstone for each of them.
    pub open spec fn purge_visits(self, doomed: spec_fn(VisitView) -> bool) -> StoreView {
        StoreView {
            visits: self.visits.filter(negation(doomed)),
            visit_tombstones: with_tombstones_for(
                self.visit_tombstones,
                self.visits.filter(doomed),
                self.visits.filter(doomed).len(),
            ),
            ..self
        }
    }

    /// The store with `f` applied to every place.
    pub open spec fn map_places(self, f: spec_fn(PlaceView) -> PlaceView) -> StoreView {
        StoreView { places: self.places.map_values(f), ..self }
    }

    /// The store after a local wipe: only referenced places are left, scored
    /// flat and with nothing to upload; no visit and no tombstone is left.
    pub open spec fn wipe_local(self, bonus: i32) -> StoreView {
        StoreView {
            places: self.places.filter(is_referenced()).map_values(wiped_place(bonus)),
            visits: Seq::empty(),
            place_tombstones: Seq::empty(),
            visit_tombstones: Seq::empty(),
            ..self
        }
    }

    /// The store with the place staged for upload at `change_delta`.
    pub open spec fn stage(self, place_id: i64, change_delta: u32) -> StoreView {
        StoreView { staged: with_staged(self.staged, place_id, change_delta), ..self }
    }

    /// The change counter that the place was staged at, if it is staged.
    pub open spec fn staged_delta(self, place_id: i64) -> Option<u32> {
        delta_in(self.staged, place_id)
    }

    /// The store without the place, its visits and its visit tombstones.
    pub open spec fn delete_page(self, place_id: i64) -> StoreView {
        StoreView {
            places: self.places.filter(place_is_not(place_id)),
            visits: self.visits.filter(visit_not_of(place_id)),
            visit_tombstones: self.visit_tombstones.filter(tombstone_not_of(place_id)),
            ..self
        }
    }
}

/// A fresh store meets the invariant.
pub proof fn lemma_empty_wf()
    ensures
        StoreView::empty().wf(),
{
}

/// Lookups by URL, GUID and row identifier find the one place that has
/// the key, where the invariant holds.
pub proof fn lemma_lookup_unique(s: StoreView, i: int)
    requires
        s.wf(),
        0 <= i < s.places.len(),
    ensures
        s.place_by_url(s.places[i].url) == Some(i),
        s.place_by_guid(s.places[i].guid) == Some(i),
        s.place_by_id(s.places[i].row_id) == Some(i),
{
    let p = s.places[i];
    assert forall|j: int| 0 <= j < i implies !has_url(p.url)(s.places[j]) by {
        assert(place_url()(s.places[j]) != place_url()(s.places[i]));
    }
    lemma_position_first(s.places, has_url(p.url), i);
    assert forall|j: int| 0 <= j < i implies !has_guid(p.guid)(s.places[j]) by {
        assert(place_guid()(s.places[j]) != place_guid()(s.places[i]));
    }
    lemma_position_first(s.places, has_guid(p.guid), i);
    assert forall|j: int| 0 <= j < i implies !has_row_id(p.row_id)(s.places[j]) by {
        assert(place_key()(s.places[j]) < place_key()(s.places[i]));
    }
    lemma_position_first(s.places, has_row_id(p.row_id), i);
}

/// Appending a place with an unused URL and GUID keeps the invariant.
pub proof fn lemma_insert_place_wf(s: StoreView, guid: Seq<char>, url: Seq<char>)
    requires
        s.wf(),
        s.place_by_url(url) is None,
        s.place_by_guid(guid) is None,
        s.next_place_id < i64::MAX,
    ensures
        s.insert_place(guid, url).wf(),
        s.insert_place(guid, url).place_by_url(url) == Some(s.places.len() as int),
{
    let t = s.insert_place(guid, url);
    let n = s.places.len() as int;
    lemma_position(s.places, has_url(url));
    lemma_position(s.places, has_guid(guid));
    assert forall|i: int, j: int| 0 <= i < j < t.places.len() implies place_key()(
        #[trigger] t.places[i],
    ) < place_key()(#[trigger] t.places[j]) by {
        if j < n {
            assert(place_key()(s.places[i]) < place_key()(s.places[j]));
        }
    }
    assert forall|i: int, j: int| 0 <= i < j < t.places.len() implies place_url()(
        #[trigger] t.places[i],
    ) != place_url()(#[trigger] t.places[j]) by {
        if j < n {
            assert(place_url()(s.places[i]) != place_url()(s.places[j]));
        } else {
            assert(!has_url(url)(s.places[i]));
        }
    }
    assert forall|i: int, j: int| 0 <= i < j < t.places.len() implies place_guid()(
        #[trigger] t.places[i],
    ) != place_guid()(#[trigger] t.places[j]) by {
        if j < n {
            assert(place_guid()(s.places[i]) != place_guid()(s.places[j]));
        } else {
            assert(!has_guid(guid)(s.places[i]));
        }
    }
    assert forall|i: int| 0 <= i < t.visits.len() implies has_place(
        t.places,
        (#[trigger] t.visits[i]).place_id,
    ) by {
        lemma_has_place_push(s.places, new_place(s.next_place_id, guid, url), s.visits[i].place_id);
    }
    assert forall|i: int| 0 <= i < t.visit_tombstones.len() implies has_place(
        t.places,
        (#[trigger] t.visit_tombstones[i]).place_id,
    ) by {
        lemma_has_place_push(
            s.places,
            new_place(s.next_place_id, guid, url),
            s.visit_tombstones[i].place_id,
        );
    }
    assert forall|j: int| 0 <= j < n implies !has_url(url)(t.places[j]) by {
        assert(!has_url(url)(s.places[j]));
    }
    lemma_position_first(t.places, has_url(url), n);
}

pub proof fn lemma_has_place_push(places: Seq<PlaceView>, p: PlaceView, id: i64)
    requires
        has_place(places, id),
    ensures
        has_place(places.push(p), id),
{
    let i = choose|i: int| 0 <= i < places.len() && #[trigger] places[i].row_id == id;
    assert(places.push(p)[i].row_id == id);
}

/// Replacing a place by one with the same row identifier, URL and GUID
/// keeps the invariant.
pub proof fn lemma_set_place_wf(s: StoreView, idx: int, place: PlaceView)
    requires
        s.wf(),
        0 <= idx < s.places.len(),
        place.row_id == s.places[idx].row_id,
        place.url == s.places[idx].url,
        place.guid == s.places[idx].guid || s.place_by_guid(place.guid) is None,
    ensures
        s.set_place(idx, place).wf(),
{
    let t = s.set_place(idx, place);
    lemma_position(s.places, has_guid(place.guid));
    assert forall|i: int, j: int| 0 <= i < j < t.places.len() implies place_key()(
        #[trigger] t.places[i],
    ) < place_key()(#[trigger] t.places[j]) by {
        assert(place_key()(s.places[i]) < place_key()(s.places[j]));
    }
    assert forall|i: int, j: int| 0 <= i < j < t.places.len() implies place_url()(
        #[trigger] t.places[i],
    ) != place_url()(#[trigger] t.places[j]) by {
        assert(place_url()(s.places[i]) != place_url()(s.places[j]));
    }
    assert forall|i: int, j: int| 0 <= i < j < t.places.len() implies place_guid()(
        #[trigger] t.places[i],
    ) != place_guid()(#[trigger] t.places[j]) by {
        assert(place_guid()(s.places[i]) != place_guid()(s.places[j]));
        if place.guid != s.places[idx].guid {
            assert(!has_guid(place.guid)(s.places[i]));
            assert(!has_guid(place.guid)(s.places[j]));
        }
    }
    lemma_same_ids_same_places(s.places, t.places);
    assert forall|i: int| 0 <= i < t.visits.len() implies has_place(
        t.places,
        (#[trigger] t.visits[i]).place_id,
    ) by {
        assert(has_place(s.places, s.visits[i].place_id));
    }
    assert forall|i: int| 0 <= i < t.visit_tombstones.len() implies has_place(
        t.places,
        (#[trigger] t.visit_tombstones[i]).place_id,
    ) by {
        assert(has_place(s.places, s.visit_tombstones[i].place_id));
    }
}

/// Two tables with the same row identifiers at the same positions hold the
/// same places.
pub proof fn lemma_same_ids_same_places(a: Seq<PlaceView>, b: Seq<PlaceView>)
    requires
        a.len() == b.len(),
        forall|i: int| 0 <= i < a.len() ==> (#[trigger] a[i]).row_id == b[i].row_id,
    ensures
        forall|id: i64| has_place(a, id) ==> has_place(b, id),
{
    assert forall|id: i64| has_place(a, id) implies has_place(b, id) by {
        let i = choose|i: int| 0 <= i < a.len() && #[trigger] a[i].row_id == id;
        assert(a[i].row_id == b[i].row_id);
        assert(b[i].row_id == id);
    }
}

/// Appending a visit to an existing place keeps the invariant.
pub proof fn lemma_insert_visit_wf(
    s: StoreView,
    place_id: i64,
    from_visit: Option<i64>,
    visit_date: u64,
    visit_type: VisitType,
    is_local: bool,
    unknown_fields: Option<Seq<char>>,
)
    requires
        s.wf(),
        has_place(s.places, place_id),
        s.next_visit_id < i64::MAX,
    ensures
        s.insert_visit(place_id, from_visit, visit_date, visit_type, is_local, unknown_fields).wf(),
{
    let t = s.insert_visit(place_id, from_visit, visit_date, visit_type, is_local, unknown_fields);
    let n = s.visits.len() as int;
    assert forall|i: int, j: int| 0 <= i < j < t.visits.len() implies visit_key()(
        #[trigger] t.visits[i],
    ) < visit_key()(#[trigger] t.visits[j]) by {
        if j < n {
            assert(visit_key()(s.visits[i]) < visit_key()(s.visits[j]));
        }
    }
    assert forall|i: int| 0 <= i < t.visits.len() implies has_place(
        t.places,
        (#[trigger] t.visits[i]).place_id,
    ) by {
        if i < n {
            assert(has_place(s.places, s.visits[i].place_id));
        }
    }
}

/// Keeping some of the visits keeps the invariant.
pub proof fn lemma_retain_visits_wf(s: StoreView, keep: spec_fn(VisitView) -> bool)
    requires
        s.wf(),
    ensures
        s.retain_visits(keep).wf(),
{
    let t = s.retain_visits(keep);
    lemma_filter_increasing(s.visits, visit_key(), keep);
    assert forall|k: int| 0 <= k < t.visits.len() implies 1 <= (#[trigger] t.visits[k]).id
        < t.next_visit_id && has_place(t.places, t.visits[k].place_id) by {
        lemma_filter_member(s.visits, keep, k);
        let i = choose|i: int| 0 <= i < s.visits.len() && s.visits[i] == s.visits.filter(keep)[k];
        assert(has_place(s.places, s.visits[i].place_id));
    }
}

/// Removing or adding one visit tombstone keeps the invariant.
pub proof fn lemma_visit_tombstone_wf(s: StoreView, place_id: i64, visit_date: u64)
    requires
        s.wf(),
    ensures
        s.remove_visit_tombstone(place_id, visit_date).wf(),
        has_place(s.places, place_id) ==> s.add_visit_tombstone(place_id, visit_date).wf(),
{
    let gone = VisitTombstone { place_id, visit_date };
    let t = s.remove_visit_tombstone(place_id, visit_date);
    let keep = tombstone_is_not(gone);
    lemma_filter_no_duplicates(s.visit_tombstones, keep);
    assert forall|k: int| 0 <= k < t.visit_tombstones.len() implies has_place(
        t.places,
        (#[trigger] t.visit_tombstones[k]).place_id,
    ) by {
        lemma_filter_member(s.visit_tombstones, keep, k);
        let i = choose|i: int|
            0 <= i < s.visit_tombstones.len() && s.visit_tombstones[i] == s.visit_tombstones.filter(
                keep,
            )[k];
        assert(has_place(s.places, s.visit_tombstones[i].place_id));
    }
    if has_place(s.places, place_id) {
        let u = s.add_visit_tombstone(place_id, visit_date);
        lemma_with_member_no_duplicates(s.visit_tombstones, gone);
        assert forall|k: int| 0 <= k < u.visit_tombstones.len() implies has_place(
            u.places,
            (#[trigger] u.visit_tombstones[k]).place_id,
        ) by {
            if k < s.visit_tombstones.len() {
                assert(has_place(s.places, s.visit_tombstones[k].place_id));
            }
        }
    }
}

/// A filter of a sequence without duplicates has none.
pub proof fn lemma_filter_no_duplicates<T>(s: Seq<T>, p: spec_fn(T) -> bool)
    requires
        s.no_duplicates(),
    ensures
        s.filter(p).no_duplicates(),
{
    let id = |x: T| x;
    assert(distinct_by(s, id)) by {
        assert forall|i: int, j: int| 0 <= i < j < s.len() implies id(#[trigger] s[i]) != id(
            #[trigger] s[j],
        ) by {}
    }
    lemma_filter_distinct(s, id, p);
    let f = s.filter(p);
    assert forall|i: int, j: int| 0 <= i < f.len() && 0 <= j < f.len() && i != j implies f[i]
        != f[j] by {
        if i < j {
            assert(id(f[i]) != id(f[j]));
        } else {
            assert(id(f[j]) != id(f[i]));
        }
    }
}

/// Adding a member to a sequence without duplicates leaves none.
pub proof fn lemma_with_member_no_duplicates<T>(s: Seq<T>, x: T)
    requires
        s.no_duplicates(),
    ensures
        with_member(s, x).no_duplicates(),
        with_member(s, x).contains(x),
        forall|y: T| s.contains(y) ==> with_member(s, x).contains(y),
        forall|y: T| with_member(s, x).contains(y) ==> y == x || s.contains(y),
{
    let t = with_member(s, x);
    if !s.contains(x) {
        assert(t[s.len() as int] == x);
        assert forall|y: T| s.contains(y) implies t.contains(y) by {
            let i = choose|i: int| 0 <= i < s.len() && s[i] == y;
            assert(t[i] == y);
        }
    }
}

/// Adding a place tombstone keeps the invariant.
pub proof fn lemma_add_place_tombstone_wf(s: StoreView, guid: Seq<char>)
    requires
        s.wf(),
    ensures
        s.add_place_tombstone(guid).wf(),
{
    lemma_with_member_no_duplicates(s.place_tombstones, guid);
}

/// What the tombstones of a place's visits hold: the old ones and one for
/// each visit of the place, each once.
pub proof fn lemma_with_tombstones_of(
    base: Seq<VisitTombstone>,
    visits: Seq<VisitView>,
    place_id: i64,
    n: nat,
)
    requires
        base.no_duplicates(),
        n <= visits.len(),
    ensures
        with_tombstones_of(base, visits, place_id, n).no_duplicates(),
        forall|t: VisitTombstone|
            base.contains(t) ==> with_tombstones_of(base, visits, place_id, n).contains(t),
        forall|i: int|
            0 <= i < n && (#[trigger] visits[i]).place_id == place_id ==> with_tombstones_of(
                base,
                visits,
                place_id,
                n,
            ).contains(VisitTombstone { place_id, visit_date: visits[i].visit_date }),
        forall|t: VisitTombstone| #[trigger]
            with_tombstones_of(base, visits, place_id, n).contains(t) ==> base.contains(t) || (
            t.place_id == place_id && exists|i: int|
                0 <= i < n && (#[trigger] visits[i]).place_id == place_id && visits[i].visit_date
                    == t.visit_date),
    decreases n,
{
    if n > 0 {
        lemma_with_tombstones_of(base, visits, place_id, (n - 1) as nat);
        let before = with_tombstones_of(base, visits, place_id, (n - 1) as nat);
        let v = visits[n - 1];
        if v.place_id == place_id {
            let x = VisitTombstone { place_id, visit_date: v.visit_date };
            lemma_with_member_no_duplicates(before, x);
            let after = with_tombstones_of(base, visits, place_id, n);
            assert forall|t: VisitTombstone| #[trigger] after.contains(t) implies base.contains(t)
                || (t.place_id == place_id && exists|i: int|
                0 <= i < n && (#[trigger] visits[i]).place_id == place_id && visits[i].visit_date
                    == t.visit_date) by {
                if t == x {
                    assert(visits[n - 1].place_id == place_id);
                } else {
                    assert(before.contains(t));
                }
            }
        }
    }
}

/// Writing tombstones for every visit of an existing place keeps the invariant.
pub proof fn lemma_insert_tombstones_wf(s: StoreView, place_id: i64)
    requires
        s.wf(),
    ensures
        s.insert_tombstones_for_all_page_visits(place_id).wf(),
{
    let t = s.insert_tombstones_for_all_page_visits(place_id);
    lemma_with_tombstones_of(s.visit_tombstones, s.visits, place_id, s.visits.len());
    assert forall|k: int| 0 <= k < t.visit_tombstones.len() implies has_place(
        t.places,
        (#[trigger] t.visit_tombstones[k]).place_id,
    ) by {
        let x = t.visit_tombstones[k];
        assert(t.visit_tombstones.contains(x));
        if s.visit_tombstones.contains(x) {
            let i = choose|i: int| 0 <= i < s.visit_tombstones.len() && s.visit_tombstones[i] == x;
            assert(has_place(s.places, s.visit_tombstones[i].place_id));
        } else {
            let i = choose|i: int|
                0 <= i < s.visits.len() && (#[trigger] s.visits[i]).place_id == place_id
                    && s.visits[i].visit_date == x.visit_date;
            assert(has_place(s.places, s.visits[i].place_id));
        }
    }
}

/// Deleting a place with all that hangs on it keeps the invariant.
pub proof fn lemma_delete_page_wf(s: StoreView, place_id: i64)
    requires
        s.wf(),
    ensures
        s.delete_page(place_id).wf(),
        !has_place(s.delete_page(place_id).places, place_id),
{
    let t = s.delete_page(place_id);
    let keep = place_is_not(place_id);
    lemma_filter_increasing(s.places, place_key(), keep);
    lemma_filter_distinct(s.places, place_url(), keep);
    lemma_filter_distinct(s.places, place_guid(), keep);
    lemma_filter_increasing(s.visits, visit_key(), visit_not_of(place_id));
    lemma_filter_no_duplicates(s.visit_tombstones, tombstone_not_of(place_id));
    assert forall|k: int| 0 <= k < t.places.len() implies 1 <= (#[trigger] t.places[k]).row_id
        < t.next_place_id && t.places[k].row_id != place_id by {
        lemma_filter_member(s.places, keep, k);
    }
    assert forall|k: int| 0 <= k < t.visits.len() implies 1 <= (#[trigger] t.visits[k]).id
        < t.next_visit_id && has_place(t.places, t.visits[k].place_id) by {
        lemma_filter_member(s.visits, visit_not_of(place_id), k);
        let i = choose|i: int|
            0 <= i < s.visits.len() && s.visits[i] == s.visits.filter(visit_not_of(place_id))[k];
        assert(has_place(s.places, s.visits[i].place_id));
        lemma_has_place_filter(s.places, keep, s.visits[i].place_id);
    }
    assert forall|k: int| 0 <= k < t.visit_tombstones.len() implies has_place(
        t.places,
        (#[trigger] t.visit_tombstones[k]).place_id,
    ) by {
        lemma_filter_member(s.visit_tombstones, tombstone_not_of(place_id), k);
        let i = choose|i: int|
            0 <= i < s.visit_tombstones.len() && s.visit_tombstones[i] == s.visit_tombstones.filter(
                tombstone_not_of(place_id),
            )[k];
        assert(has_place(s.places, s.visit_tombstones[i].place_id));
        lemma_has_place_filter(s.places, keep, s.visit_tombstones[i].place_id);
    }
}

/// A place that a filter keeps is still there afterwards.
pub proof fn lemma_has_place_filter(places: Seq<PlaceView>, keep: spec_fn(PlaceView) -> bool, id: i64)
    requires
        has_place(places, id),
        forall|i: int| 0 <= i < places.len() && (#[trigger] places[i]).row_id == id ==> keep(places[i]),
    ensures
        has_place(places.filter(keep), id),
{
    let i = choose|i: int| 0 <= i < places.len() && #[trigger] places[i].row_id == id;
    lemma_filter_keeps(places, keep, i);
    let k = choose|k: int| 0 <= k < places.filter(keep).len() && places.filter(keep)[k] == places[i];
    assert(places.filter(keep)[k].row_id == id);
}

/// What the tombstones of a list of visits hold: the old ones and one for
/// each listed visit, each once.
pub proof fn lemma_with_tombstones_for(base: Seq<VisitTombstone>, visits: Seq<VisitView>, n: nat)
    requires
        base.no_duplicates(),
        n <= visits.len(),
    ensures
        with_tombstones_for(base, visits, n).no_duplicates(),
        forall|t: VisitTombstone|
            base.contains(t) ==> with_tombstones_for(base, visits, n).contains(t),
        forall|i: int|
            0 <= i < n ==> with_tombstones_for(base, visits, n).contains(
                VisitTombstone {
                    place_id: (#[trigger] visits[i]).place_id,
                    visit_date: visits[i].visit_date,
                },
            ),
        forall|t: VisitTombstone| #[trigger]
            with_tombstones_for(base, visits, n).contains(t) ==> base.contains(t) || exists|i: int|
                0 <= i < n && (#[trigger] visits[i]).place_id == t.place_id && visits[i].visit_date
                    == t.visit_date,
    decreases n,
{
    if n > 0 {
        lemma_with_tombstones_for(base, visits, (n - 1) as nat);
        let before = with_tombstones_for(base, visits, (n - 1) as nat);
        let v = visits[n - 1];
        let x = VisitTombstone { place_id: v.place_id, visit_date: v.visit_date };
        lemma_with_member_no_duplicates(before, x);
        let after = with_tombstones_for(base, visits, n);
        assert forall|t: VisitTombstone| #[trigger] after.contains(t) implies base.contains(t)
            || exists|i: int|
            0 <= i < n && (#[trigger] visits[i]).place_id == t.place_id && visits[i].visit_date
                == t.visit_date by {
            if t == x {
                assert(visits[n - 1].place_id == t.place_id);
            } else {
                assert(before.contains(t));
            }
        }
    }
}

/// Purging visits, with a tombstone for each, keeps the invariant.
pub proof fn lemma_purge_visits_wf(s: StoreView, doomed: spec_fn(VisitView) -> bool)
    requires
        s.wf(),
    ensures
        s.purge_visits(doomed).wf(),
{
    let t = s.purge_visits(doomed);
    let gone = s.visits.filter(doomed);
    lemma_retain_visits_wf(s, negation(doomed));
    lemma_with_tombstones_for(s.visit_tombstones, gone, gone.len());
    assert forall|k: int| 0 <= k < t.visit_tombstones.len() implies has_place(
        t.places,
        (#[trigger] t.visit_tombstones[k]).place_id,
    ) by {
        let x = t.visit_tombstones[k];
        assert(t.visit_tombstones.contains(x));
        if s.visit_tombstones.contains(x) {
            let i = choose|i: int| 0 <= i < s.visit_tombstones.len() && s.visit_tombstones[i] == x;
            assert(has_place(s.places, s.visit_tombstones[i].place_id));
        } else {
            let i = choose|i: int|
                0 <= i < gone.len() && (#[trigger] gone[i]).place_id == x.place_id
                    && gone[i].visit_date == x.visit_date;
            lemma_filter_member(s.visits, doomed, i);
            let j = choose|j: int| 0 <= j < s.visits.len() && s.visits[j] == gone[i];
            assert(has_place(s.places, s.visits[j].place_id));
        }
    }
}

/// Rewriting places without touching their identity keeps the invariant.
pub proof fn lemma_map_places_wf(s: StoreView, f: spec_fn(PlaceView) -> PlaceView)
    requires
        s.wf(),
        keeps_identity(f),
    ensures
        s.map_places(f).wf(),
{
    let t = s.map_places(f);
    assert forall|i: int| 0 <= i < t.places.len() implies (#[trigger] t.places[i]).row_id
        == s.places[i].row_id && t.places[i].url == s.places[i].url && t.places[i].guid
        == s.places[i].guid by {
        assert(t.places[i] == f(s.places[i]));
    }
    assert forall|i: int, j: int| 0 <= i < j < t.places.len() implies place_key()(
        #[trigger] t.places[i],
    ) < place_key()(#[trigger] t.places[j]) by {
        assert(place_key()(s.places[i]) < place_key()(s.places[j]));
    }
    assert forall|i: int, j: int| 0 <= i < j < t.places.len() implies place_url()(
        #[trigger] t.places[i],
    ) != place_url()(#[trigger] t.places[j]) by {
        assert(place_url()(s.places[i]) != place_url()(s.places[j]));
    }
    assert forall|i: int, j: int| 0 <= i < j < t.places.len() implies place_guid()(
        #[trigger] t.places[i],
    ) != place_guid()(#[trigger] t.places[j]) by {
        assert(place_guid()(s.places[i]) != place_guid()(s.places[j]));
    }
    assert forall|i: int| 0 <= i < s.places.len() implies (#[trigger] s.places[i]).row_id
        == t.places[i].row_id by {}
    lemma_same_ids_same_places(s.places, t.places);
    assert forall|i: int| 0 <= i < t.visits.len() implies has_place(
        t.places,
        (#[trigger] t.visits[i]).place_id,
    ) by {
        assert(has_place(s.places, s.visits[i].place_id));
    }
    assert forall|i: int| 0 <= i < t.visit_tombstones.len() implies has_place(
        t.places,
        (#[trigger] t.visit_tombstones[i]).place_id,
    ) by {
        assert(has_place(s.places, s.visit_tombstones[i].place_id));
    }
}

/// A local wipe keeps the invariant.
pub proof fn lemma_wipe_local_wf(s: StoreView, bonus: i32)
    requires
        s.wf(),
    ensures
        s.wipe_local(bonus).wf(),
{
    let kept = StoreView {
        places: s.places.filter(is_referenced()),
        visits: Seq::empty(),
        place_tombstones: Seq::empty(),
        visit_tombstones: Seq::empty(),
        ..s
    };
    let keep = is_referenced();
    lemma_filter_increasing(s.places, place_key(), keep);
    lemma_filter_distinct(s.places, place_url(), keep);
    lemma_filter_distinct(s.places, place_guid(), keep);
    assert forall|k: int| 0 <= k < kept.places.len() implies 1 <= (#[trigger] kept.places[k]).row_id
        < kept.next_place_id by {
        lemma_filter_member(s.places, keep, k);
    }
    assert(kept.wf());
    lemma_map_places_wf(kept, wiped_place(bonus));
    assert(kept.map_places(wiped_place(bonus)) == s.wipe_local(bonus));
}

/// Staging a place keeps the invariant, and the place is staged afterwards
/// at the given change counter while the others stay as they were.
pub proof fn lemma_stage(s: StoreView, place_id: i64, change_delta: u32)
    requires
        s.wf(),
    ensures
        s.stage(place_id, change_delta).wf(),
        s.stage(place_id, change_delta).staged_delta(place_id) == Some(change_delta),
        forall|other: i64|
            other != place_id ==> s.stage(place_id, change_delta).staged_delta(other)
                == s.staged_delta(other),
{
    let t = s.stage(place_id, change_delta);
    let here = staged_at(place_id);
    lemma_position(s.staged, here);
    let at: int = match position(s.staged, here) {
        Some(i) => i,
        None => s.staged.len() as int,
    };
    assert forall|i: int, j: int| 0 <= i < j < t.staged.len() implies staged_key()(
        #[trigger] t.staged[i],
    ) != staged_key()(#[trigger] t.staged[j]) by {
        if j < s.staged.len() {
            assert(staged_key()(s.staged[i]) != staged_key()(s.staged[j]));
        } else {
            assert(!here(s.staged[i]));
        }
    }
    assert forall|j: int| 0 <= j < at implies !here(t.staged[j]) by {
        if position(s.staged, here) is Some {
            assert(staged_key()(s.staged[j]) != staged_key()(s.staged[at]));
        } else {
            assert(!here(s.staged[j]));
        }
    }
    lemma_position_first(t.staged, here, at);
    assert forall|other: i64| other != place_id implies t.staged_delta(other) == s.staged_delta(
        other,
    ) by {
        let there = staged_at(other);
        lemma_position(s.staged, there);
        match position(s.staged, there) {
            Some(k) => {
                assert forall|j: int| 0 <= j < k implies !there(t.staged[j]) by {
                    assert(!there(s.staged[j]));
                }
                lemma_position_first(t.staged, there, k);
            },
            None => {
                lemma_position(t.staged, there);
                if position(t.staged, there) is Some {
                    let k = position(t.staged, there)->0;
                    if k < s.staged.len() {
                        assert(!there(s.staged[k]));
                    }
                }
            },
        }
    }
}

/// A store holds fewer visits than the next visit's row identifier.
pub proof fn lemma_visits_fit(s: StoreView)
    requires
        s.wf(),
    ensures
        s.visits.len() < s.next_visit_id,
{
    if s.visits.len() > 0 {
        lemma_increasing_from_one(s.visits, s.visits.len() as int - 1);
    }
}

proof fn lemma_increasing_from_one(visits: Seq<VisitView>, i: int)
    requires
        increasing_by(visits, visit_key()),
        forall|k: int| 0 <= k < visits.len() ==> 1 <= (#[trigger] visits[k]).id,
        0 <= i < visits.len(),
    ensures
        visits[i].id >= i + 1,
    decreases i,
{
    if i > 0 {
        lemma_increasing_from_one(visits, i - 1);
        assert(visit_key()(visits[i - 1]) < visit_key()(visits[i]));
    }
}

} // verus!
