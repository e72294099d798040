//! Laws of the history engine: what holds of its operations on every store
//! that meets the invariant.

use crate::history::{
    lemma_new_mark, reset_place, spec_new_mark, observed_place, page_of, spec_apply_observation, spec_delete_everything,
    spec_delete_visits, spec_delete_visits_for, spec_note_observation, spec_observation_error,
    spec_record_visit, spec_remove_orphan, spec_remove_orphans, spec_rescore, spec_rescore_pages,
    spec_resolve_place, PageToClean,
};
use crate::history::history_sync::{
    adopted, after_mark, finished_place, frecency_key, has_time, is_outgoing, local_time,
    merged_place, sent_place, spec_accepted, spec_apply_synced_visits, spec_emit,
    spec_fetch_outgoing, spec_finish_outgoing, spec_insert_synced, spec_outgoing_order,
    spec_outgoing_record, spec_synced_visits_error, tombstone_record, transition_type, OutgoingView,
    RecordVisitView,
};
use crate::history::prune::{
    age_key, is_exotic_candidate, is_normal_candidate, not_among, spec_exotic_keys,
    spec_normal_order, spec_prune_keys,
};
use crate::history::read::{spec_visit_count, visit_by};
use crate::model::{
    delta_in, has_guid, has_place, has_row_id, has_url, has_visit_at, is_referenced,
    lemma_add_place_tombstone_wf, lemma_delete_page_wf, lemma_filter_no_duplicates,
    lemma_insert_place_wf, lemma_insert_visit_wf, lemma_lookup_unique, lemma_map_places_wf,
    lemma_purge_visits_wf, lemma_set_place_wf, lemma_stage, lemma_visit_tombstone_wf,
    lemma_wipe_local_wf, lemma_with_member_no_duplicates, lemma_with_tombstones_for,
    lemma_with_tombstones_of, negation, place_is_not, place_key, staged_at, tombstone_is_not,
    tombstone_not_of, visit_key, visit_not_of, visit_of, with_member, PlaceView, StoreView,
    VisitTombstone, VisitView,
};
use crate::frecency::{default_settings, newer_than, recency_rank, FrecencySettings};
use crate::observation::ObservationView;
use crate::seq_util::{
    at_most, increasing_by, key_leq, lemma_filter_all, lemma_filter_increasing, lemma_filter_keeps,
    lemma_filter_member, lemma_filter_prefix, lemma_filter_take_succ, lemma_key_leq_total,
    lemma_position, Keyed,
};
use crate::text::byte_len;
use crate::types::{SyncStatus, URL_LENGTH_MAX};
use vstd::prelude::*;
use vstd::seq_lib::group_to_multiset_ensures;

verus! {

/// Deleting the history of a place that is referenced and was synced leaves
/// the place and the place tombstones as they are, removes every visit of
/// the place and no other, and leaves a tombstone for each visit removed.
pub proof fn law_delete_referenced_synced(s: StoreView, guid: Seq<char>)
    requires
        s.wf(),
        s.place_by_guid(guid) matches Some(i) && s.places[i].foreign_count != 0
            && s.places[i].sync_status == SyncStatus::Normal,
    ensures
        ({
            let place_id = s.places[s.place_by_guid(guid)->0].row_id;
            let t = spec_delete_visits_for(s, guid);
            &&& t.places == s.places
            &&& t.place_tombstones == s.place_tombstones
            &&& t.visits == s.visits.filter(visit_not_of(place_id))
            &&& !t.has_visits(place_id)
            &&& forall|k: int|
                0 <= k < s.visits.len() && (#[trigger] s.visits[k]).place_id == place_id
                    ==> t.visit_tombstones.contains(
                    VisitTombstone { place_id, visit_date: s.visits[k].visit_date },
                )
            &&& forall|x: VisitTombstone|
                s.visit_tombstones.contains(x) ==> t.visit_tombstones.contains(x)
        }),
{
    let i = s.place_by_guid(guid)->0;
    lemma_position(s.places, has_guid(guid));
    let place_id = s.places[i].row_id;
    let t = spec_delete_visits_for(s, guid);
    lemma_with_tombstones_of(s.visit_tombstones, s.visits, place_id, s.visits.len());
    if t.has_visits(place_id) {
        let k = choose|k: int| 0 <= k < t.visits.len() && (#[trigger] t.visits[k]).place_id == place_id;
        lemma_filter_member(s.visits, visit_not_of(place_id), k);
    }
}

/// Deleting the history of a place that was synced and that nothing refers
/// to removes the place, leaves one tombstone for its GUID, and writes no
/// visit tombstone: those of the place go with it.
pub proof fn law_delete_unreferenced_synced(s: StoreView, guid: Seq<char>)
    requires
        s.wf(),
        s.place_by_guid(guid) matches Some(i) && s.places[i].foreign_count == 0
            && s.places[i].sync_status == SyncStatus::Normal,
    ensures
        ({
            let place_id = s.places[s.place_by_guid(guid)->0].row_id;
            let t = spec_delete_visits_for(s, guid);
            &&& !has_place(t.places, place_id)
            &&& t.place_by_guid(guid) is None
            &&& t.place_tombstones == with_member(s.place_tombstones, guid)
            &&& t.place_tombstones.contains(guid)
            &&& !s.place_tombstones.contains(guid) ==> t.place_tombstones.len()
                == s.place_tombstones.len() + 1
            &&& !t.has_visits(place_id)
            &&& forall|x: VisitTombstone| #[trigger]
                t.visit_tombstones.contains(x) ==> s.visit_tombstones.contains(x) && x.place_id
                    != place_id
        }),
{
    let i = s.place_by_guid(guid)->0;
    lemma_position(s.places, has_guid(guid));
    let place_id = s.places[i].row_id;
    let with_tombstone = s.add_place_tombstone(guid);
    let t = spec_delete_visits_for(s, guid);
    assert(t == with_tombstone.delete_page(place_id));
    lemma_with_member_no_duplicates(s.place_tombstones, guid);
    lemma_add_place_tombstone_wf(s, guid);
    lemma_delete_page_wf(with_tombstone, place_id);
    if t.has_visits(place_id) {
        let k = choose|k: int| 0 <= k < t.visits.len() && (#[trigger] t.visits[k]).place_id == place_id;
        lemma_filter_member(s.visits, visit_not_of(place_id), k);
    }
    assert forall|x: VisitTombstone| #[trigger]
        t.visit_tombstones.contains(x) implies s.visit_tombstones.contains(x) && x.place_id
        != place_id by {
        let k = choose|k: int| 0 <= k < t.visit_tombstones.len() && t.visit_tombstones[k] == x;
        lemma_filter_member(s.visit_tombstones, tombstone_not_of(place_id), k);
    }
    lemma_position(t.places, has_guid(guid));
    if t.place_by_guid(guid) is Some {
        let j = t.place_by_guid(guid)->0;
        lemma_filter_member(s.places, place_is_not(place_id), j);
        let a = choose|a: int|
            0 <= a < s.places.len() && s.places[a] == s.places.filter(
                place_is_not(place_id),
            )[j];
        lemma_lookup_unique(s, a);
    }
}

/// A place as a full wipe leaves it: scored as an unvisited bookmark, never
/// synced, with nothing to upload.
pub open spec fn wiped(p: PlaceView) -> PlaceView {
    PlaceView {
        frecency: default_settings().unvisited_bookmark_bonus as i32,
        sync_change_counter: 0,
        sync_status: SyncStatus::New,
        ..p
    }
}

/// After everything is deleted at `now`: the deletion high-water mark is at
/// or above `now`, the mark before, and the time of every visit the store
/// knew; no visit and no tombstone is left; exactly the places that
/// something refers to are left, each scored as an unvisited bookmark,
/// never synced and with nothing to upload; and sync is disconnected.
pub proof fn law_wipe(s: StoreView, now: u64)
    requires
        s.wf(),
    ensures
        ({
            let t = spec_delete_everything(s, now);
            &&& t.wf()
            &&& t.deletion_high_water_mark >= now
            &&& t.deletion_high_water_mark >= s.deletion_high_water_mark
            &&& forall|i: int|
                0 <= i < s.visits.len() ==> (#[trigger] s.visits[i]).visit_date
                    <= t.deletion_high_water_mark
            &&& t.visits.len() == 0
            &&& t.place_tombstones.len() == 0
            &&& t.visit_tombstones.len() == 0
            &&& t.places == s.places.filter(is_referenced()).map_values(|p: PlaceView| wiped(p))
            &&& forall|j: int|
                0 <= j < t.places.len() ==> (#[trigger] t.places[j]).foreign_count != 0
            &&& forall|i: int|
                0 <= i < s.places.len() && (#[trigger] s.places[i]).foreign_count != 0
                    ==> t.places.contains(wiped(s.places[i]))
            &&& t.last_sync == 0
            &&& t.global_sync_id is None
            &&& t.collection_sync_id is None
        }),
{
    lemma_new_mark(s, now);
    let marked = StoreView { deletion_high_water_mark: spec_new_mark(s, now), ..s };
    let bonus = default_settings().unvisited_bookmark_bonus as i32;
    lemma_wipe_local_wf(marked, bonus);
    let wiped_store = marked.wipe_local(bonus);
    lemma_map_places_wf(wiped_store, reset_place());
    let t = spec_delete_everything(s, now);
    let kept = s.places.filter(is_referenced());
    assert(t.places =~= kept.map_values(|p: PlaceView| wiped(p)));
    assert forall|j: int| 0 <= j < t.places.len() implies (#[trigger] t.places[j]).foreign_count
        != 0 by {
        lemma_filter_member(s.places, is_referenced(), j);
    }
    assert forall|i: int|
        0 <= i < s.places.len() && (#[trigger] s.places[i]).foreign_count
            != 0 implies t.places.contains(wiped(s.places[i])) by {
        lemma_filter_keeps(s.places, is_referenced(), i);
        let k = choose|k: int| 0 <= k < kept.len() && kept[k] == s.places[i];
        assert(t.places[k] == wiped(s.places[i]));
    }
}

/// What was wiped stays deleted: after everything is deleted at `now`,
/// incoming visits from no later than `now` change neither the number of
/// places nor the visits; a URL that the store does not know stays unknown.
pub proof fn law_wiped_history_stays_deleted(
    s: StoreView,
    now: u64,
    guid: Seq<char>,
    url: Seq<char>,
    title: Option<Seq<char>>,
    visits: Seq<RecordVisitView>,
    unknown_fields: Option<Seq<char>>,
    later: u64,
)
    requires
        s.wf(),
        forall|i: int| 0 <= i < visits.len() ==> local_time(#[trigger] visits[i]) <= now,
    ensures
        ({
            let wiped_store = spec_delete_everything(s, now);
            let t = spec_apply_synced_visits(
                wiped_store,
                guid,
                url,
                title,
                visits,
                unknown_fields,
                later,
            );
            &&& t.places.len() == wiped_store.places.len()
            &&& t.visits.len() == 0
            &&& wiped_store.place_by_url(url) is None ==> t == wiped_store
        }),
{
    law_wipe(s, now);
    law_stale_visits_dropped(
        spec_delete_everything(s, now),
        guid,
        url,
        title,
        visits,
        unknown_fields,
        later,
    );
}

/// Incoming visits at or below the deletion high-water mark change neither
/// the number of places nor the visits of the store.
pub proof fn law_stale_visits_dropped(
    s: StoreView,
    guid: Seq<char>,
    url: Seq<char>,
    title: Option<Seq<char>>,
    visits: Seq<RecordVisitView>,
    unknown_fields: Option<Seq<char>>,
    now: u64,
)
    requires
        s.wf(),
        forall|i: int|
            0 <= i < visits.len() ==> local_time(#[trigger] visits[i])
                <= s.deletion_high_water_mark,
    ensures
        ({
            let t = spec_apply_synced_visits(s, guid, url, title, visits, unknown_fields, now);
            &&& t.places.len() == s.places.len()
            &&& t.visits == s.visits
            &&& s.place_by_url(url) is None ==> t == s
        }),
{
    let keep = after_mark(s.deletion_high_water_mark);
    let fresh = visits.filter(keep);
    if fresh.len() > 0 {
        lemma_filter_member(visits, keep, 0);
    }
    assert(fresh.len() == 0);
    match s.place_by_url(url) {
        Some(i) => {
            lemma_position(s.places, has_url(url));
        },
        None => {},
    }
}

/// An incoming visit later than the deletion high-water mark, for a URL
/// that the store does not know, makes a place and a visit.
pub proof fn law_fresh_visit_applied(
    s: StoreView,
    guid: Seq<char>,
    url: Seq<char>,
    title: Option<Seq<char>>,
    visit: RecordVisitView,
    unknown_fields: Option<Seq<char>>,
    now: u64,
)
    requires
        s.wf(),
        s.place_by_url(url) is None,
        local_time(visit) > s.deletion_high_water_mark,
    ensures
        ({
            let t = spec_apply_synced_visits(
                s,
                guid,
                url,
                title,
                seq![visit],
                unknown_fields,
                now,
            );
            &&& t.places.len() == s.places.len() + 1
            &&& t.visits.len() == s.visits.len() + 1
            &&& t.visits.last().visit_date == local_time(visit)
            &&& t.visits.last().place_id == s.next_place_id
            &&& !t.visits.last().is_local
        }),
{
    let keep = after_mark(s.deletion_high_water_mark);
    let visits = seq![visit];
    reveal_with_fuel(Seq::filter, 2);
    assert(visits.drop_last() =~= Seq::<RecordVisitView>::empty());
    assert(visits.filter(keep) =~= visits);
    let s1 = s.insert_place(guid, url);
    let place_id = s1.places[s.places.len() as int].row_id;
    assert(place_id == s.next_place_id);
    let at = local_time(visit);
    assert(!s.visit_tombstones.contains(VisitTombstone { place_id, visit_date: at })) by {
        if s.visit_tombstones.contains(VisitTombstone { place_id, visit_date: at }) {
            let k = choose|k: int|
                0 <= k < s.visit_tombstones.len() && s.visit_tombstones[k] == (VisitTombstone {
                    place_id,
                    visit_date: at,
                });
            assert(has_place(s.places, s.visit_tombstones[k].place_id));
        }
    }
    assert(!has_visit_at(s.visits, place_id, at)) by {
        if has_visit_at(s.visits, place_id, at) {
            let k = choose|k: int|
                0 <= k < s.visits.len() && (#[trigger] s.visits[k]).place_id == place_id
                    && s.visits[k].visit_date == at;
            assert(has_place(s.places, s.visits[k].place_id));
        }
    }
    reveal_with_fuel(spec_accepted, 2);
    let taken = spec_accepted(s1.visit_tombstones, s1.visits, place_id, visits, 1);
    assert(taken =~= visits);
    reveal_with_fuel(spec_insert_synced, 2);
}

/// What staging an upload leaves of the places: each place is where it was,
/// and it is either untouched and not staged, or synced and staged at its
/// change counter.
pub open spec fn staged_or_untouched(s: StoreView, t: StoreView) -> bool {
    &&& t.places.len() == s.places.len()
    &&& forall|j: int|
        0 <= j < s.places.len() ==> {
            let p = #[trigger] t.places[j];
            &&& p.row_id == s.places[j].row_id
            &&& (t.staged_delta(p.row_id) is None && p == s.places[j]) || (t.staged_delta(p.row_id)
                == Some(p.sync_change_counter) && p.sync_status == SyncStatus::Normal)
        }
}

proof fn lemma_emit(
    s: StoreView,
    keys: Seq<Keyed>,
    sent: Seq<Seq<char>>,
    max_visits: nat,
    n: nat,
)
    requires
        s.wf(),
        s.staged.len() == 0,
        n <= keys.len(),
    ensures
        spec_emit(s, keys, sent, max_visits, n).0.wf(),
        staged_or_untouched(s, spec_emit(s, keys, sent, max_visits, n).0),
    decreases n,
{
    if n == 0 {
        assert forall|j: int| 0 <= j < s.places.len() implies s.staged_delta(
            (#[trigger] s.places[j]).row_id,
        ) is None by {
            lemma_position(s.staged, staged_at(s.places[j].row_id));
        }
    } else {
        lemma_emit(s, keys, sent, max_visits, (n - 1) as nat);
        let t = spec_emit(s, keys, sent, max_visits, (n - 1) as nat).0;
        let u = spec_emit(s, keys, sent, max_visits, n).0;
        lemma_position(t.places, has_row_id(keys[n - 1].1));
        if u != t {
            let i = t.place_by_id(keys[n - 1].1)->0;
            let p = t.places[i];
            let staged = t.stage(p.row_id, p.sync_change_counter);
            lemma_stage(t, p.row_id, p.sync_change_counter);
            lemma_set_place_wf(staged, i, sent_place(p));
            assert(u == staged.set_place(i, sent_place(p)));
            assert forall|j: int| 0 <= j < s.places.len() implies {
                let q = #[trigger] u.places[j];
                &&& q.row_id == s.places[j].row_id
                &&& (u.staged_delta(q.row_id) is None && q == s.places[j]) || (u.staged_delta(
                    q.row_id,
                ) == Some(q.sync_change_counter) && q.sync_status == SyncStatus::Normal)
            } by {
                let before = t.places[j];
                if j != i {
                    if j < i {
                        assert(place_key()(t.places[j]) < place_key()(t.places[i]));
                    } else {
                        assert(place_key()(t.places[i]) < place_key()(t.places[j]));
                    }
                    assert(u.places[j] == before);
                    assert(u.staged_delta(before.row_id) == t.staged_delta(before.row_id));
                }
            }
        }
    }
}

/// Sorting nothing gives nothing.
proof fn lemma_sort_empty(keys: Seq<Keyed>)
    requires
        keys.len() == 0,
    ensures
        keys.sort_by(key_leq()).len() == 0,
{
    lemma_key_leq_total();
    keys.lemma_sort_by_ensures(key_leq());
    vstd::seq_lib::to_multiset_len(keys);
    vstd::seq_lib::to_multiset_len(keys.sort_by(key_leq()));
}

/// A round of upload: where no upload is in progress, staging one and
/// finishing it at once leaves every place synced with a change counter of
/// zero, and the next staging hands out nothing and changes nothing.
pub proof fn law_upload_round_trip(
    s: StoreView,
    max_places: nat,
    max_visits: nat,
    next_max_places: nat,
    next_max_visits: nat,
)
    requires
        s.wf(),
        s.staged.len() == 0,
    ensures
        ({
            let done = spec_finish_outgoing(spec_fetch_outgoing(s, max_places, max_visits).0);
            &&& done.places.len() == s.places.len()
            &&& forall|j: int|
                0 <= j < done.places.len() ==> (#[trigger] done.places[j]).sync_change_counter == 0
                    && done.places[j].sync_status == SyncStatus::Normal
            &&& done.staged.len() == 0
            &&& done.place_tombstones.len() == 0
            &&& spec_fetch_outgoing(done, next_max_places, next_max_visits) == (
                done,
                Seq::<OutgoingView>::empty(),
            )
        }),
{
    let sent = at_most(s.place_tombstones, max_places);
    let keys = spec_outgoing_order(s, (max_places - sent.len()) as nat);
    lemma_emit(s, keys, sent, max_visits, keys.len());
    let t = spec_fetch_outgoing(s, max_places, max_visits).0;
    assert(t == spec_emit(s, keys, sent, max_visits, keys.len()).0);
    let done = spec_finish_outgoing(t);
    assert forall|j: int| 0 <= j < done.places.len() implies (#[trigger] done.places[j]).sync_change_counter
        == 0 && done.places[j].sync_status == SyncStatus::Normal by {
        let p = t.places[j];
        assert(done.places[j] == finished_place(t.staged)(p));
        assert(delta_in(t.staged, p.row_id) == t.staged_delta(
            p.row_id,
        ));
    }
    let candidates = done.places.filter(is_outgoing());
    if candidates.len() > 0 {
        lemma_filter_member(done.places, is_outgoing(), 0);
    }
    let next_sent = at_most(done.place_tombstones, next_max_places);
    assert(next_sent.len() == 0);
    let unsorted = candidates.map_values(frecency_key());
    lemma_sort_empty(unsorted);
    let next_keys = spec_outgoing_order(done, (next_max_places - next_sent.len()) as nat);
    assert(next_keys.len() == 0);
    let next = spec_fetch_outgoing(done, next_max_places, next_max_visits);
    assert(next.1 =~= Seq::<OutgoingView>::empty());
}

/// True when `key` stands for a visit of the store that `p` holds of.
pub open spec fn stands_for(visits: Seq<VisitView>, p: spec_fn(VisitView) -> bool, key: Keyed) -> bool {
    exists|i: int| 0 <= i < visits.len() && p(#[trigger] visits[i]) && age_key()(visits[i]) == key
}

/// The sorted keys of the visits that `p` holds of: no key twice, and each
/// the key of such a visit.
proof fn lemma_sorted_keys(visits: Seq<VisitView>, p: spec_fn(VisitView) -> bool)
    requires
        increasing_by(visits, visit_key()),
    ensures
        visits.filter(p).map_values(age_key()).sort_by(key_leq()).no_duplicates(),
        forall|k: int|
            0 <= k < visits.filter(p).map_values(age_key()).sort_by(key_leq()).len()
                ==> stands_for(
                visits,
                p,
                #[trigger] visits.filter(p).map_values(age_key()).sort_by(key_leq())[k],
            ),
{
    broadcast use group_to_multiset_ensures;

    let found = visits.filter(p);
    let keys = found.map_values(age_key());
    let sorted = keys.sort_by(key_leq());
    lemma_filter_increasing(visits, visit_key(), p);
    assert forall|a: int, b: int| 0 <= a < keys.len() && 0 <= b < keys.len() && a != b implies keys[a]
        != keys[b] by {
        if a < b {
            assert(visit_key()(found[a]) < visit_key()(found[b]));
        } else {
            assert(visit_key()(found[b]) < visit_key()(found[a]));
        }
    }
    lemma_key_leq_total();
    keys.lemma_sort_by_ensures(key_leq());
    keys.lemma_multiset_has_no_duplicates();
    sorted.lemma_multiset_has_no_duplicates_conv();
    assert forall|k: int| 0 <= k < sorted.len() implies stands_for(visits, p, #[trigger] sorted[k]) by {
        assert(sorted.contains(sorted[k]));
        assert(sorted.to_multiset().count(sorted[k]) > 0);
        assert(keys.contains(sorted[k]));
        let j = choose|j: int| 0 <= j < keys.len() && keys[j] == sorted[k];
        lemma_filter_member(visits, p, j);
        let i = choose|i: int| 0 <= i < visits.len() && visits[i] == found[j];
        assert(p(visits[i]) && age_key()(visits[i]) == sorted[k]);
    }
}

/// Two visits of a store with the same row identifier are one visit.
proof fn lemma_same_id_same_key(visits: Seq<VisitView>, a: int, b: int)
    requires
        increasing_by(visits, visit_key()),
        0 <= a < visits.len(),
        0 <= b < visits.len(),
        visits[a].id == visits[b].id,
    ensures
        a == b,
{
    if a < b {
        assert(visit_key()(visits[a]) < visit_key()(visits[b]));
    } else if b < a {
        assert(visit_key()(visits[b]) < visit_key()(visits[a]));
    }
}

/// What pruning chooses: never more than the limit; no visit twice, also
/// where it is a candidate of both kinds; only visits of the store that are
/// old enough; and the exotic candidates before the ordinary ones.
pub proof fn law_prune_selection(s: StoreView, limit: nat, now: u64)
    requires
        s.wf(),
    ensures
        ({
            let keys = spec_prune_keys(s, limit, now);
            let exotic = spec_exotic_keys(s, limit, now);
            &&& keys.len() <= limit
            &&& forall|a: int, b: int|
                0 <= a < keys.len() && 0 <= b < keys.len() && a != b ==> (#[trigger] keys[a]).1 != (
                #[trigger] keys[b]).1
            &&& exotic.len() <= keys.len()
            &&& forall|k: int|
                0 <= k < exotic.len() ==> keys[k] == exotic[k] && stands_for(
                    s.visits,
                    is_exotic_candidate(s, now),
                    #[trigger] keys[k],
                )
            &&& forall|k: int|
                exotic.len() <= k < keys.len() ==> stands_for(
                    s.visits,
                    is_normal_candidate(now),
                    #[trigger] keys[k],
                )
        }),
{
    let exotic_all = s.visits.filter(is_exotic_candidate(s, now)).map_values(age_key()).sort_by(
        key_leq(),
    );
    let exotic = spec_exotic_keys(s, limit, now);
    let normal = spec_normal_order(s, now);
    let rest = normal.filter(not_among(exotic));
    let extra = at_most(rest, (limit - exotic.len()) as nat);
    let keys = spec_prune_keys(s, limit, now);
    lemma_sorted_keys(s.visits, is_exotic_candidate(s, now));
    lemma_sorted_keys(s.visits, is_normal_candidate(now));
    lemma_filter_no_duplicates(normal, not_among(exotic));
    assert forall|k: int| 0 <= k < exotic.len() implies keys[k] == exotic[k] && stands_for(
        s.visits,
        is_exotic_candidate(s, now),
        #[trigger] keys[k],
    ) by {
        assert(exotic[k] == exotic_all[k]);
    }
    assert forall|k: int| exotic.len() <= k < keys.len() implies stands_for(
        s.visits,
        is_normal_candidate(now),
        #[trigger] keys[k],
    ) && !exotic.contains(keys[k]) by {
        let e = k - exotic.len();
        assert(keys[k] == extra[e]);
        assert(extra[e] == rest[e]);
        lemma_filter_member(normal, not_among(exotic), e);
        let j = choose|j: int| 0 <= j < normal.len() && normal[j] == rest[e];
        assert(stands_for(s.visits, is_normal_candidate(now), normal[j]));
    }
    assert forall|a: int, b: int|
        0 <= a < keys.len() && 0 <= b < keys.len() && a != b implies (#[trigger] keys[a]).1 != (
    #[trigger] keys[b]).1 by {
        if keys[a].1 == keys[b].1 {
            lemma_key_of(s, limit, now, a);
            lemma_key_of(s, limit, now, b);
            let i = choose|i: int|
                0 <= i < s.visits.len() && age_key()(#[trigger] s.visits[i]) == keys[a];
            let j = choose|j: int|
                0 <= j < s.visits.len() && age_key()(#[trigger] s.visits[j]) == keys[b];
            lemma_same_id_same_key(s.visits, i, j);
            assert(keys[a] == keys[b]);
            if a < exotic.len() && b < exotic.len() {
                assert(exotic_all[a] == exotic_all[b]);
            } else if a >= exotic.len() && b >= exotic.len() {
                assert(rest[a - exotic.len()] == rest[b - exotic.len()]);
            } else if a < exotic.len() {
                assert(exotic.contains(keys[b])) by {
                    assert(exotic[a] == keys[b]);
                }
            } else {
                assert(exotic.contains(keys[a])) by {
                    assert(exotic[b] == keys[a]);
                }
            }
        }
    }
}

/// Each key that pruning chooses is the key of a visit of the store.
proof fn lemma_key_of(s: StoreView, limit: nat, now: u64, k: int)
    requires
        s.wf(),
        0 <= k < spec_prune_keys(s, limit, now).len(),
    ensures
        exists|i: int|
            0 <= i < s.visits.len() && age_key()(#[trigger] s.visits[i]) == spec_prune_keys(
                s,
                limit,
                now,
            )[k],
{
    let exotic_all = s.visits.filter(is_exotic_candidate(s, now)).map_values(age_key()).sort_by(
        key_leq(),
    );
    let exotic = spec_exotic_keys(s, limit, now);
    let normal = spec_normal_order(s, now);
    let rest = normal.filter(not_among(exotic));
    let extra = at_most(rest, (limit - exotic.len()) as nat);
    let keys = spec_prune_keys(s, limit, now);
    lemma_sorted_keys(s.visits, is_exotic_candidate(s, now));
    lemma_sorted_keys(s.visits, is_normal_candidate(now));
    if k < exotic.len() {
        assert(keys[k] == exotic_all[k]);
        assert(stands_for(s.visits, is_exotic_candidate(s, now), exotic_all[k]));
        let i = choose|i: int|
            0 <= i < s.visits.len() && is_exotic_candidate(s, now)(#[trigger] s.visits[i])
                && age_key()(s.visits[i]) == exotic_all[k];
        assert(age_key()(s.visits[i]) == keys[k]);
    } else {
        let e = k - exotic.len();
        assert(keys[k] == rest[e]);
        lemma_filter_member(normal, not_among(exotic), e);
        let j = choose|j: int| 0 <= j < normal.len() && normal[j] == rest[e];
        assert(stands_for(s.visits, is_normal_candidate(now), normal[j]));
        let i = choose|i: int|
            0 <= i < s.visits.len() && is_normal_candidate(now)(#[trigger] s.visits[i])
                && age_key()(s.visits[i]) == normal[j];
        assert(age_key()(s.visits[i]) == keys[k]);
    }
}

/// The store after the first `n` observations are applied in turn, each
/// at its own time and with its own fresh GUID.
pub open spec fn spec_observe_all(
    s: StoreView,
    obs: Seq<ObservationView>,
    nows: Seq<u64>,
    guids: Seq<Seq<char>>,
    n: nat,
) -> StoreView
    decreases n,
{
    if n == 0 || n > obs.len() {
        s
    } else {
        spec_apply_observation(
            spec_observe_all(s, obs, nows, guids, (n - 1) as nat),
            obs[n - 1],
            nows[n - 1],
            guids[n - 1],
        ).0
    }
}

/// True when none of the first `n` observations is refused.
pub open spec fn none_refused(
    s: StoreView,
    obs: Seq<ObservationView>,
    nows: Seq<u64>,
    guids: Seq<Seq<char>>,
    n: nat,
) -> bool {
    forall|k: nat|
        k < n && k < obs.len() ==> spec_observation_error(
            #[trigger] spec_observe_all(s, obs, nows, guids, k),
            obs[k as int],
            guids[k as int],
        ) is None
}

/// True when the observation records a visit that began on this device
/// (`is_local`) or elsewhere.
pub open spec fn records_visit(ob: ObservationView, is_local: bool) -> bool {
    ob.visit_type is Some && (ob.is_remote != Some(true)) == is_local
}

/// How many of the first `n` observations record a visit that began on
/// this device, or elsewhere.
pub open spec fn visits_observed(obs: Seq<ObservationView>, is_local: bool, n: nat) -> nat
    decreases n,
{
    if n == 0 || n > obs.len() {
        0
    } else {
        visits_observed(obs, is_local, (n - 1) as nat) + (if records_visit(obs[n - 1], is_local) {
            1nat
        } else {
            0nat
        })
    }
}

/// The row identifier that the place of `url` has, or gets when it is made next.
pub open spec fn place_id_for(s: StoreView, url: Seq<char>) -> i64 {
    match s.place_by_url(url) {
        Some(i) => s.places[i].row_id,
        None => s.next_place_id,
    }
}

/// One observation that is not refused keeps the invariant, leaves the URL
/// with the place it had or was about to get, and adds exactly the visit
/// that it records.
proof fn lemma_observation_step(
    t: StoreView,
    ob: ObservationView,
    now: u64,
    guid: Seq<char>,
    is_local: bool,
)
    requires
        t.wf(),
        byte_len(ob.url) <= URL_LENGTH_MAX,
        spec_observation_error(t, ob, guid) is None,
    ensures
        ({
            let after = spec_apply_observation(t, ob, now, guid).0;
            let place_id = place_id_for(t, ob.url);
            &&& after.wf()
            &&& after.place_by_url(ob.url) is Some
            &&& place_id_for(after, ob.url) == place_id
            &&& spec_visit_count(after, place_id, is_local) == spec_visit_count(
                t,
                place_id,
                is_local,
            ) + (if records_visit(ob, is_local) {
                1nat
            } else {
                0nat
            })
        }),
{
    let url = ob.url;
    let place_id = place_id_for(t, url);
    let (s1, idx) = spec_resolve_place(t, url, guid);
    lemma_position(t.places, has_url(url));
    if t.place_by_url(url) is None {
        lemma_insert_place_wf(t, guid, url);
    }
    assert(s1.wf());
    assert(0 <= idx < s1.places.len());
    assert(s1.places[idx].row_id == place_id);
    assert(s1.places[idx].url == url);
    assert(has_place(s1.places, place_id));
    let s2 = spec_record_visit(s1, place_id, ob, now);
    let at = match ob.at {
        Some(a) => a,
        None => now,
    };
    if ob.visit_type is Some {
        let t0 = ob.visit_type->0;
        lemma_insert_visit_wf(s1, place_id, None, at, t0, ob.is_remote != Some(true), None);
        lemma_visit_tombstone_wf(
            s1.insert_visit(place_id, None, at, t0, ob.is_remote != Some(true), None),
            place_id,
            at,
        );
        assert(s2 == s1.insert_visit(
            place_id,
            None,
            at,
            t0,
            ob.is_remote != Some(true),
            None,
        ).remove_visit_tombstone(place_id, at));
        let v = s2.visits.last();
        assert(s2.visits == s1.visits.push(v));
        s1.visits.lemma_filter_push(v, visit_by(place_id, is_local));
    }
    assert(s2.wf());
    assert(s2.places == s1.places);
    let s3 = spec_note_observation(s2, idx, ob);
    lemma_set_place_wf(s2, idx, observed_place(s2.places[idx], ob));
    let after = spec_apply_observation(t, ob, now, guid).0;
    if after != s3 {
        let scored = PlaceView { frecency: after.places[idx].frecency, ..s3.places[idx] };
        assert(after == s3.set_place(idx, scored));
        lemma_set_place_wf(s3, idx, scored);
    }
    assert(after.visits == s2.visits);
    assert(after.places[idx].url == url);
    lemma_lookup_unique(after, idx);
}

/// Observations of one URL, applied in turn with none refused: the place of
/// the URL then has as many more local visits as observations recorded a
/// local visit, and as many more remote visits as recorded a remote one.
/// Every observation with a visit type records a visit, also one that
/// reports an error.
pub proof fn law_visit_counts(
    s: StoreView,
    url: Seq<char>,
    obs: Seq<ObservationView>,
    nows: Seq<u64>,
    guids: Seq<Seq<char>>,
    is_local: bool,
)
    requires
        s.wf(),
        byte_len(url) <= URL_LENGTH_MAX,
        obs.len() == nows.len(),
        obs.len() == guids.len(),
        forall|k: int| 0 <= k < obs.len() ==> (#[trigger] obs[k]).url == url,
        none_refused(s, obs, nows, guids, obs.len()),
    ensures
        ({
            let after = spec_observe_all(s, obs, nows, guids, obs.len());
            let place_id = place_id_for(s, url);
            &&& after.wf()
            &&& obs.len() > 0 ==> after.place_by_url(url) is Some
            &&& place_id_for(after, url) == place_id
            &&& spec_visit_count(after, place_id, is_local) == spec_visit_count(
                s,
                place_id,
                is_local,
            ) + visits_observed(obs, is_local, obs.len())
            &&& s.place_by_url(url) is None ==> spec_visit_count(s, place_id, is_local) == 0
        }),
{
    lemma_observe_prefix(s, url, obs, nows, guids, is_local, obs.len());
    if s.place_by_url(url) is None {
        let mine = s.visits.filter(visit_by(s.next_place_id, is_local));
        if mine.len() > 0 {
            lemma_filter_member(s.visits, visit_by(s.next_place_id, is_local), 0);
            let i = choose|i: int| 0 <= i < s.visits.len() && s.visits[i] == mine[0];
            assert(has_place(s.places, s.visits[i].place_id));
        }
    }
}

proof fn lemma_observe_prefix(
    s: StoreView,
    url: Seq<char>,
    obs: Seq<ObservationView>,
    nows: Seq<u64>,
    guids: Seq<Seq<char>>,
    is_local: bool,
    n: nat,
)
    requires
        s.wf(),
        byte_len(url) <= URL_LENGTH_MAX,
        obs.len() == nows.len(),
        obs.len() == guids.len(),
        n <= obs.len(),
        forall|k: int| 0 <= k < obs.len() ==> (#[trigger] obs[k]).url == url,
        none_refused(s, obs, nows, guids, obs.len()),
    ensures
        ({
            let after = spec_observe_all(s, obs, nows, guids, n);
            let place_id = place_id_for(s, url);
            &&& after.wf()
            &&& n > 0 ==> after.place_by_url(url) is Some
            &&& place_id_for(after, url) == place_id
            &&& spec_visit_count(after, place_id, is_local) == spec_visit_count(
                s,
                place_id,
                is_local,
            ) + visits_observed(obs, is_local, n)
        }),
    decreases n,
{
    if n > 0 {
        lemma_observe_prefix(s, url, obs, nows, guids, is_local, (n - 1) as nat);
        let t = spec_observe_all(s, obs, nows, guids, (n - 1) as nat);
        assert(spec_observation_error(t, obs[n - 1], guids[n - 1]) is None) by {
            let k = (n - 1) as nat;
            assert(k < obs.len());
        }
        lemma_observation_step(t, obs[n - 1], nows[n - 1], guids[n - 1], is_local);
    }
}

/// Where no observation that records a visit reports an error, the visits
/// counted are those of the observations that record a visit and report no
/// error.
pub proof fn law_visit_counts_without_errors(
    s: StoreView,
    url: Seq<char>,
    obs: Seq<ObservationView>,
    nows: Seq<u64>,
    guids: Seq<Seq<char>>,
    is_local: bool,
)
    requires
        s.wf(),
        byte_len(url) <= URL_LENGTH_MAX,
        obs.len() == nows.len(),
        obs.len() == guids.len(),
        forall|k: int| 0 <= k < obs.len() ==> (#[trigger] obs[k]).url == url,
        forall|k: int|
            0 <= k < obs.len() && (#[trigger] obs[k]).visit_type is Some ==> obs[k].is_error
                != Some(true),
        none_refused(s, obs, nows, guids, obs.len()),
    ensures
        ({
            let after = spec_observe_all(s, obs, nows, guids, obs.len());
            let place_id = place_id_for(s, url);
            spec_visit_count(after, place_id, is_local) == spec_visit_count(s, place_id, is_local)
                + obs.filter(
                |ob: ObservationView| records_visit(ob, is_local) && ob.is_error != Some(true),
            ).len()
        }),
{
    law_visit_counts(s, url, obs, nows, guids, is_local);
    lemma_observed_as_filter(obs, is_local, obs.len());
    assert(obs.take(obs.len() as int) =~= obs);
}

proof fn lemma_observed_as_filter(obs: Seq<ObservationView>, is_local: bool, n: nat)
    requires
        n <= obs.len(),
        forall|k: int|
            0 <= k < obs.len() && (#[trigger] obs[k]).visit_type is Some ==> obs[k].is_error
                != Some(true),
    ensures
        visits_observed(obs, is_local, n) == obs.take(n as int).filter(
            |ob: ObservationView| records_visit(ob, is_local) && ob.is_error != Some(true),
        ).len(),
    decreases n,
{
    let p = |ob: ObservationView| records_visit(ob, is_local) && ob.is_error != Some(true);
    if n == 0 {
        assert(obs.take(0).filter(p).len() == 0) by {
            obs.take(0).lemma_filter_len(p);
        }
    } else {
        lemma_observed_as_filter(obs, is_local, (n - 1) as nat);
        lemma_filter_take_succ(obs, p, n - 1);
    }
}

/// True when `a` is `b` but for its frecency.
pub open spec fn same_but_frecency(a: PlaceView, b: PlaceView) -> bool {
    a == (PlaceView { frecency: a.frecency, ..b })
}

/// True when `t` has the places of `s` with nothing but the frecency changed.
pub open spec fn rescored(s: StoreView, t: StoreView) -> bool {
    &&& t.places.len() == s.places.len()
    &&& forall|j: int|
        0 <= j < s.places.len() ==> (#[trigger] t.places[j]) == (PlaceView {
            frecency: t.places[j].frecency,
            ..s.places[j]
        })
    &&& t == (StoreView { places: t.places, ..s })
}

proof fn lemma_rescore_pages(s: StoreView, pages: Seq<PageToClean>, now: u64, n: nat)
    requires
        s.wf(),
        n <= pages.len(),
    ensures
        spec_rescore_pages(s, pages, now, n).wf(),
        rescored(s, spec_rescore_pages(s, pages, now, n)),
    decreases n,
{
    if n > 0 {
        lemma_rescore_pages(s, pages, now, (n - 1) as nat);
        let t = spec_rescore_pages(s, pages, now, (n - 1) as nat);
        let u = spec_rescore_pages(s, pages, now, n);
        if u != t {
            let i = t.place_by_id(pages[n - 1].id.0)->0;
            lemma_position(t.places, has_row_id(pages[n - 1].id.0));
            lemma_set_place_wf(t, i, u.places[i]);
        }
    }
}

/// What removing orphans leaves: the visits are untouched, for only places
/// without visits go; each place left was there before, as it was; each
/// place gone had no reference and no visit; and the visit tombstones left
/// are those of the places left.
pub open spec fn orphans_removed(s: StoreView, t: StoreView) -> bool {
    &&& t.visits == s.visits
    &&& forall|j: int| 0 <= j < t.places.len() ==> s.places.contains(#[trigger] t.places[j])
    &&& forall|i: int|
        0 <= i < s.places.len() && !t.places.contains(#[trigger] s.places[i])
            ==> s.places[i].foreign_count == 0 && !s.has_visits(s.places[i].row_id)
    &&& forall|x: VisitTombstone|
        s.visit_tombstones.contains(x) && has_place(t.places, x.place_id)
            ==> t.visit_tombstones.contains(x)
    &&& forall|x: VisitTombstone| #[trigger]
        t.visit_tombstones.contains(x) ==> s.visit_tombstones.contains(x)
}

proof fn lemma_remove_orphan(s: StoreView, id: i64)
    requires
        s.wf(),
    ensures
        spec_remove_orphan(s, id).wf(),
        orphans_removed(s, spec_remove_orphan(s, id)),
{
    let t = spec_remove_orphan(s, id);
    lemma_position(s.places, has_row_id(id));
    if t == s {
        lemma_orphans_removed_none(s);
    } else {
        let at = s.place_by_id(id)->0;
        let p = s.places[at];
        let marked = if p.sync_status == SyncStatus::Normal {
            s.add_place_tombstone(p.guid)
        } else {
            s
        };
        lemma_add_place_tombstone_wf(s, p.guid);
        assert(t == marked.delete_page(id));
        lemma_delete_page_wf(marked, id);
        let keep = place_is_not(id);
        assert forall|k: int| 0 <= k < s.visits.len() implies visit_not_of(id)(
            #[trigger] s.visits[k],
        ) by {
            if s.visits[k].place_id == id {
                assert(s.has_visits(id));
            }
        }
        lemma_filter_all(s.visits, visit_not_of(id));
        assert forall|j: int| 0 <= j < t.places.len() implies s.places.contains(
            #[trigger] t.places[j],
        ) by {
            lemma_filter_member(s.places, keep, j);
        }
        assert forall|i: int|
            0 <= i < s.places.len() && !t.places.contains(
                #[trigger] s.places[i],
            ) implies s.places[i].foreign_count == 0 && !s.has_visits(s.places[i].row_id) by {
            if s.places[i].row_id != id {
                lemma_filter_keeps(s.places, keep, i);
            } else {
                if i < at {
                    assert(place_key()(s.places[i]) < place_key()(s.places[at]));
                } else if at < i {
                    assert(place_key()(s.places[at]) < place_key()(s.places[i]));
                }
            }
        }
        assert forall|x: VisitTombstone|
            s.visit_tombstones.contains(x) && has_place(
                t.places,
                x.place_id,
            ) implies t.visit_tombstones.contains(x) by {
            let k = choose|k: int| 0 <= k < s.visit_tombstones.len() && s.visit_tombstones[k] == x;
            lemma_filter_keeps(s.visit_tombstones, tombstone_not_of(id), k);
        }
        assert forall|x: VisitTombstone| #[trigger]
            t.visit_tombstones.contains(x) implies s.visit_tombstones.contains(x) by {
            let k = choose|k: int| 0 <= k < t.visit_tombstones.len() && t.visit_tombstones[k] == x;
            lemma_filter_member(s.visit_tombstones, tombstone_not_of(id), k);
        }
    }
}

proof fn lemma_orphans_removed_none(s: StoreView)
    ensures
        orphans_removed(s, s),
{
    assert forall|j: int| 0 <= j < s.places.len() implies s.places.contains(
        #[trigger] s.places[j],
    ) by {}
}

proof fn lemma_orphans_removed_twice(a: StoreView, b: StoreView, c: StoreView)
    requires
        a.wf(),
        orphans_removed(a, b),
        orphans_removed(b, c),
    ensures
        orphans_removed(a, c),
{
    assert forall|j: int| 0 <= j < c.places.len() implies a.places.contains(
        #[trigger] c.places[j],
    ) by {
        assert(b.places.contains(c.places[j]));
        let k = choose|k: int| 0 <= k < b.places.len() && b.places[k] == c.places[j];
        assert(a.places.contains(b.places[k]));
    }
    assert forall|i: int|
        0 <= i < a.places.len() && !c.places.contains(
            #[trigger] a.places[i],
        ) implies a.places[i].foreign_count == 0 && !a.has_visits(a.places[i].row_id) by {
        if b.places.contains(a.places[i]) {
            let k = choose|k: int| 0 <= k < b.places.len() && b.places[k] == a.places[i];
            assert(!c.places.contains(b.places[k]));
        }
    }
    assert forall|x: VisitTombstone|
        a.visit_tombstones.contains(x) && has_place(
            c.places,
            x.place_id,
        ) implies c.visit_tombstones.contains(x) by {
        let j = choose|j: int| 0 <= j < c.places.len() && (#[trigger] c.places[j]).row_id == x.place_id;
        assert(b.places.contains(c.places[j]));
        let k = choose|k: int| 0 <= k < b.places.len() && b.places[k] == c.places[j];
        assert(b.places[k].row_id == x.place_id);
    }
}

proof fn lemma_remove_orphans(s: StoreView, pages: Seq<PageToClean>, n: nat)
    requires
        s.wf(),
        n <= pages.len(),
    ensures
        spec_remove_orphans(s, pages, n).wf(),
        orphans_removed(s, spec_remove_orphans(s, pages, n)),
    decreases n,
{
    if n == 0 {
        lemma_orphans_removed_none(s);
    } else {
        lemma_remove_orphans(s, pages, (n - 1) as nat);
        let t = spec_remove_orphans(s, pages, (n - 1) as nat);
        let u = spec_remove_orphans(s, pages, n);
        if u != t {
            lemma_remove_orphan(t, pages[n - 1].id.0);
            lemma_orphans_removed_twice(s, t, u);
        }
    }
}

/// True when something refers to the place with the row identifier `id`.
pub open spec fn is_referenced_place(s: StoreView, id: i64) -> bool {
    exists|i: int|
        0 <= i < s.places.len() && (#[trigger] s.places[i]).row_id == id && s.places[i].foreign_count
            != 0
}

/// No place that was seen without reference and without visit, and that is
/// so, outlasts the removal of orphans.
proof fn lemma_orphans_gone(s: StoreView, pages: Seq<PageToClean>, n: nat, m: int)
    requires
        s.wf(),
        n <= pages.len(),
        0 <= m < n,
        !pages[m].has_foreign,
        !pages[m].has_visits,
        !s.has_visits(pages[m].id.0),
        !is_referenced_place(s, pages[m].id.0),
    ensures
        !has_place(spec_remove_orphans(s, pages, n).places, pages[m].id.0),
    decreases n,
{
    let id = pages[m].id.0;
    lemma_remove_orphans(s, pages, (n - 1) as nat);
    let t = spec_remove_orphans(s, pages, (n - 1) as nat);
    let u = spec_remove_orphans(s, pages, n);
    if m < n - 1 {
        lemma_orphans_gone(s, pages, (n - 1) as nat, m);
        if u != t {
            lemma_remove_orphan(t, pages[n - 1].id.0);
        }
        if has_place(u.places, id) {
            let j = choose|j: int| 0 <= j < u.places.len() && (#[trigger] u.places[j]).row_id == id;
            assert(t.places.contains(u.places[j]));
            let i = choose|i: int| 0 <= i < t.places.len() && t.places[i] == u.places[j];
            assert(t.places[i].row_id == id);
        }
    } else {
        assert(u == spec_remove_orphan(t, id));
        lemma_position(t.places, has_row_id(id));
        match t.place_by_id(id) {
            Some(i) => {
                assert(s.places.contains(t.places[i]));
                let a = choose|a: int| 0 <= a < s.places.len() && s.places[a] == t.places[i];
                assert(s.places[a].row_id == id);
                assert(t.places[i].foreign_count == 0);
                assert(!t.has_visits(id));
                let marked = if t.places[i].sync_status == SyncStatus::Normal {
                    t.add_place_tombstone(t.places[i].guid)
                } else {
                    t
                };
                lemma_add_place_tombstone_wf(t, t.places[i].guid);
                lemma_delete_page_wf(marked, id);
            },
            None => {
                if has_place(t.places, id) {
                    let j = choose|j: int|
                        0 <= j < t.places.len() && (#[trigger] t.places[j]).row_id == id;
                    assert(has_row_id(id)(t.places[j]));
                }
            },
        }
    }
}

/// Deleting visits, whatever chose them: exactly the chosen visits go; a
/// place goes only if nothing refers to it and no visit of it is left, and
/// no place is changed but in its frecency; every visit that went has a
/// tombstone as long as its place is there; and the place of a visit that
/// went stays only if it has a visit left or something refers to it.
pub proof fn law_deleted_visits(s: StoreView, doomed: spec_fn(VisitView) -> bool, now: u64)
    requires
        s.wf(),
    ensures
        ({
            let t = spec_delete_visits(s, doomed, now);
            &&& t.wf()
            &&& t.visits == s.visits.filter(negation(doomed))
            &&& t.place_tombstones.len() >= s.place_tombstones.len()
            &&& forall|j: int|
                0 <= j < t.places.len() ==> exists|i: int|
                    0 <= i < s.places.len() && same_but_frecency(
                        #[trigger] t.places[j],
                        #[trigger] s.places[i],
                    )
            &&& forall|i: int|
                0 <= i < s.places.len() && !has_place(t.places, (#[trigger] s.places[i]).row_id)
                    ==> s.places[i].foreign_count == 0 && !t.has_visits(s.places[i].row_id)
            &&& forall|k: int|
                0 <= k < s.visits.len() && doomed(#[trigger] s.visits[k]) && has_place(
                    t.places,
                    s.visits[k].place_id,
                ) ==> t.visit_tombstones.contains(
                    VisitTombstone {
                        place_id: s.visits[k].place_id,
                        visit_date: s.visits[k].visit_date,
                    },
                )
            &&& forall|k: int|
                0 <= k < s.visits.len() && doomed(#[trigger] s.visits[k]) && has_place(
                    t.places,
                    s.visits[k].place_id,
                ) ==> t.has_visits(s.visits[k].place_id) || is_referenced_place(
                    s,
                    s.visits[k].place_id,
                )
        }),
{
    let purged = s.purge_visits(doomed);
    let gone = s.visits.filter(doomed);
    let pages = gone.map_values(page_of(purged));
    lemma_purge_visits_wf(s, doomed);
    lemma_rescore_pages(purged, pages, now, pages.len());
    let scored = spec_rescore_pages(purged, pages, now, pages.len());
    lemma_remove_orphans(scored, pages, pages.len());
    let t = spec_delete_visits(s, doomed, now);
    assert(t == spec_remove_orphans(scored, pages, pages.len()));
    lemma_place_tombstones_grow(scored, pages, pages.len());
    assert forall|j: int| 0 <= j < t.places.len() implies exists|i: int|
        0 <= i < s.places.len() && same_but_frecency(
            #[trigger] t.places[j],
            #[trigger] s.places[i],
        ) by {
        assert(scored.places.contains(t.places[j]));
        let i = choose|i: int| 0 <= i < scored.places.len() && scored.places[i] == t.places[j];
        assert(scored.places[i] == (PlaceView {
            frecency: scored.places[i].frecency,
            ..purged.places[i]
        }));
        assert(same_but_frecency(t.places[j], s.places[i]));
    }
    assert forall|i: int|
        0 <= i < s.places.len() && !has_place(t.places, (#[trigger] s.places[i]).row_id) implies s.places[i].foreign_count
        == 0 && !t.has_visits(s.places[i].row_id) by {
        assert(scored.places[i].row_id == s.places[i].row_id);
        if t.places.contains(scored.places[i]) {
            let j = choose|j: int| 0 <= j < t.places.len() && t.places[j] == scored.places[i];
            assert(t.places[j].row_id == s.places[i].row_id);
        }
    }
    lemma_with_tombstones_for(s.visit_tombstones, gone, gone.len());
    assert forall|k: int|
        0 <= k < s.visits.len() && doomed(#[trigger] s.visits[k]) && has_place(
            t.places,
            s.visits[k].place_id,
        ) implies t.visit_tombstones.contains(
        VisitTombstone { place_id: s.visits[k].place_id, visit_date: s.visits[k].visit_date },
    ) by {
        lemma_filter_keeps(s.visits, doomed, k);
        let g = choose|g: int| 0 <= g < gone.len() && gone[g] == s.visits[k];
        assert(purged.visit_tombstones.contains(
            VisitTombstone { place_id: gone[g].place_id, visit_date: gone[g].visit_date },
        ));
    }
    assert forall|k: int|
        0 <= k < s.visits.len() && doomed(#[trigger] s.visits[k]) && has_place(
            t.places,
            s.visits[k].place_id,
        ) implies t.has_visits(s.visits[k].place_id) || is_referenced_place(
        s,
        s.visits[k].place_id,
    ) by {
        let id = s.visits[k].place_id;
        if !t.has_visits(id) && !is_referenced_place(s, id) {
            lemma_filter_keeps(s.visits, doomed, k);
            let g = choose|g: int| 0 <= g < gone.len() && gone[g] == s.visits[k];
            assert(pages[g] == page_of(purged)(gone[g]));
            lemma_position(purged.places, has_row_id(id));
            assert(scored.visits == t.visits);
            assert(!scored.has_visits(id));
            assert(!purged.has_visits(id));
            if is_referenced_place(scored, id) {
                let i = choose|i: int|
                    0 <= i < scored.places.len() && (#[trigger] scored.places[i]).row_id == id
                        && scored.places[i].foreign_count != 0;
                assert(s.places[i].row_id == id && s.places[i].foreign_count != 0);
            }
            if pages[g].has_foreign {
                let i = purged.place_by_id(id)->0;
                assert(s.places[i].row_id == id && s.places[i].foreign_count != 0);
            }
            lemma_orphans_gone(scored, pages, pages.len(), g);
        }
    }
}

proof fn lemma_place_tombstones_grow(s: StoreView, pages: Seq<PageToClean>, n: nat)
    requires
        n <= pages.len(),
    ensures
        spec_remove_orphans(s, pages, n).place_tombstones.len() >= s.place_tombstones.len(),
    decreases n,
{
    if n > 0 {
        lemma_place_tombstones_grow(s, pages, (n - 1) as nat);
    }
}

/// Each sorted key of the items that `p` holds of is the key of such an item.
proof fn lemma_sorted_members<T>(
    items: Seq<T>,
    p: spec_fn(T) -> bool,
    key: spec_fn(T) -> Keyed,
    k: int,
)
    requires
        0 <= k < items.filter(p).map_values(key).sort_by(key_leq()).len(),
    ensures
        exists|i: int|
            0 <= i < items.len() && p(#[trigger] items[i]) && key(items[i]) == items.filter(
                p,
            ).map_values(key).sort_by(key_leq())[k],
{
    broadcast use group_to_multiset_ensures;

    let found = items.filter(p);
    let keys = found.map_values(key);
    let sorted = keys.sort_by(key_leq());
    lemma_key_leq_total();
    keys.lemma_sort_by_ensures(key_leq());
    assert(sorted.contains(sorted[k]));
    assert(sorted.to_multiset().count(sorted[k]) > 0);
    assert(keys.contains(sorted[k]));
    let j = choose|j: int| 0 <= j < keys.len() && keys[j] == sorted[k];
    lemma_filter_member(items, p, j);
    let i = choose|i: int| 0 <= i < items.len() && items[i] == found[j];
    assert(p(items[i]) && key(items[i]) == sorted[k]);
}

/// What staging leaves of the places and what it hands out, after the first
/// `n` chosen places: nothing but sync statuses and the staging area has
/// changed, and each record is that of a chosen place, with at least one
/// visit and at most `max_visits`.
pub open spec fn emitted(
    s: StoreView,
    keys: Seq<Keyed>,
    sent: Seq<Seq<char>>,
    max_visits: nat,
    n: nat,
) -> bool {
    let (t, out) = spec_emit(s, keys, sent, max_visits, n);
    &&& t == (StoreView { places: t.places, staged: t.staged, ..s })
    &&& t.places.len() == s.places.len()
    &&& forall|j: int|
        0 <= j < s.places.len() ==> (#[trigger] t.places[j]) == s.places[j] || t.places[j]
            == sent_place(s.places[j])
    &&& out.len() <= n
    &&& forall|k: int|
        0 <= k < out.len() ==> {
            let record = #[trigger] out[k];
            &&& record.payload is Some
            &&& record.payload->0.id == record.id
            &&& 1 <= record.payload->0.visits.len() <= max_visits
            &&& !sent.contains(record.id)
            &&& exists|m: int, j: int|
                0 <= m < n && 0 <= j < s.places.len() && (#[trigger] s.places[j]).row_id == (
                #[trigger] keys[m]).1 && s.places[j].guid == record.id && s.places[j].url
                    == record.payload->0.hist_uri
        }
}

proof fn lemma_emitted(
    s: StoreView,
    keys: Seq<Keyed>,
    sent: Seq<Seq<char>>,
    max_visits: nat,
    n: nat,
)
    requires
        s.wf(),
        n <= keys.len(),
    ensures
        spec_emit(s, keys, sent, max_visits, n).0.wf(),
        emitted(s, keys, sent, max_visits, n),
    decreases n,
{
    if n > 0 {
        lemma_emitted(s, keys, sent, max_visits, (n - 1) as nat);
        let (t, out) = spec_emit(s, keys, sent, max_visits, (n - 1) as nat);
        let (u, next) = spec_emit(s, keys, sent, max_visits, n);
        lemma_position(t.places, has_row_id(keys[n - 1].1));
        assert forall|k: int| 0 <= k < out.len() implies {
            let record = #[trigger] out[k];
            exists|m: int, j: int|
                0 <= m < n && 0 <= j < s.places.len() && (#[trigger] s.places[j]).row_id == (
                #[trigger] keys[m]).1 && s.places[j].guid == record.id && s.places[j].url
                    == record.payload->0.hist_uri
        } by {
            let record = out[k];
            let (m, j) = choose|m: int, j: int|
                0 <= m < n - 1 && 0 <= j < s.places.len() && (#[trigger] s.places[j]).row_id == (
                #[trigger] keys[m]).1 && s.places[j].guid == record.id && s.places[j].url
                    == record.payload->0.hist_uri;
            assert(0 <= m < n && s.places[j].row_id == keys[m].1);
        }
        if t.place_by_id(keys[n - 1].1) is Some && spec_outgoing_record(
            t,
            t.place_by_id(keys[n - 1].1)->0,
            sent,
            max_visits,
        ) is Some {
            let i = t.place_by_id(keys[n - 1].1)->0;
            let p = t.places[i];
            let record = spec_outgoing_record(t, i, sent, max_visits)->0;
            let staged = t.stage(p.row_id, p.sync_change_counter);
            lemma_stage(t, p.row_id, p.sync_change_counter);
            lemma_set_place_wf(staged, i, sent_place(p));
            assert(u == staged.set_place(i, sent_place(p)));
            assert(next == out.push(record));
            assert(s.places[i].row_id == keys[n - 1].1);
            assert forall|j: int| 0 <= j < s.places.len() implies (#[trigger] u.places[j])
                == s.places[j] || u.places[j] == sent_place(s.places[j]) by {
                assert(t.places[j] == s.places[j] || t.places[j] == sent_place(s.places[j]));
            }
            assert forall|k: int| 0 <= k < next.len() implies {
                let r = #[trigger] next[k];
                &&& r.payload is Some
                &&& r.payload->0.id == r.id
                &&& 1 <= r.payload->0.visits.len() <= max_visits
                &&& !sent.contains(r.id)
                &&& exists|m: int, j: int|
                    0 <= m < n && 0 <= j < s.places.len() && (#[trigger] s.places[j]).row_id == (
                    #[trigger] keys[m]).1 && s.places[j].guid == r.id && s.places[j].url
                        == r.payload->0.hist_uri
            } by {
                if k < out.len() {
                    assert(next[k] == out[k]);
                } else {
                    assert(next[k] == record);
                    assert(s.places[i].row_id == keys[n - 1].1 && s.places[i].guid == record.id);
                }
            }
        } else {
            assert(next == out);
        }
    }
}

/// What an upload hands out: never more records than `max_places`; the
/// tombstones first, in the order they were written; then records of places
/// that have something to upload, each with its GUID and URL, at least one
/// visit and at most `max_visits`. Staging changes no visit and no tombstone.
pub proof fn law_outgoing_budget(s: StoreView, max_places: nat, max_visits: nat)
    requires
        s.wf(),
    ensures
        ({
            let (t, records) = spec_fetch_outgoing(s, max_places, max_visits);
            let sent = at_most(s.place_tombstones, max_places);
            &&& t.wf()
            &&& t.visits == s.visits
            &&& t.place_tombstones == s.place_tombstones
            &&& t.visit_tombstones == s.visit_tombstones
            &&& t.places.len() == s.places.len()
            &&& sent.len() <= records.len() <= max_places
            &&& forall|k: int|
                0 <= k < sent.len() ==> (#[trigger] records[k]).payload is None && records[k].id
                    == s.place_tombstones[k]
            &&& forall|k: int|
                sent.len() <= k < records.len() ==> {
                    let record = #[trigger] records[k];
                    &&& record.payload is Some
                    &&& 1 <= record.payload->0.visits.len() <= max_visits
                    &&& exists|j: int|
                        0 <= j < s.places.len() && is_outgoing()(#[trigger] s.places[j])
                            && s.places[j].guid == record.id && s.places[j].url
                            == record.payload->0.hist_uri
                }
        }),
{
    let sent = at_most(s.place_tombstones, max_places);
    let budget = (max_places - sent.len()) as nat;
    let sorted = s.places.filter(is_outgoing()).map_values(frecency_key()).sort_by(key_leq());
    let keys = spec_outgoing_order(s, budget);
    lemma_emitted(s, keys, sent, max_visits, keys.len());
    let (t, out) = spec_emit(s, keys, sent, max_visits, keys.len());
    let (t2, records) = spec_fetch_outgoing(s, max_places, max_visits);
    assert(t2 == t);
    assert(records == sent.map_values(tombstone_record()) + out);
    assert forall|k: int| sent.len() <= k < records.len() implies {
        let record = #[trigger] records[k];
        &&& record.payload is Some
        &&& 1 <= record.payload->0.visits.len() <= max_visits
        &&& exists|j: int|
            0 <= j < s.places.len() && is_outgoing()(#[trigger] s.places[j]) && s.places[j].guid
                == record.id && s.places[j].url == record.payload->0.hist_uri
    } by {
        let record = records[k];
        assert(record == out[k - sent.len()]);
        let (m, j) = choose|m: int, j: int|
            0 <= m < keys.len() && 0 <= j < s.places.len() && (#[trigger] s.places[j]).row_id == (
            #[trigger] keys[m]).1 && s.places[j].guid == record.id && s.places[j].url
                == record.payload->0.hist_uri;
        assert(keys[m] == sorted[m]);
        lemma_sorted_members(s.places, is_outgoing(), frecency_key(), m);
        let i = choose|i: int|
            0 <= i < s.places.len() && is_outgoing()(#[trigger] s.places[i]) && frecency_key()(
                s.places[i],
            ) == sorted[m];
        if i < j {
            assert(place_key()(s.places[i]) < place_key()(s.places[j]));
        } else if j < i {
            assert(place_key()(s.places[j]) < place_key()(s.places[i]));
        }
    }
}

/// What a place takes of incoming visits: none at a time that has a
/// tombstone or a visit of the place, no two of one time, and only visits
/// that came in.
proof fn lemma_accepted(
    tombstones: Seq<VisitTombstone>,
    visits: Seq<VisitView>,
    place_id: i64,
    incoming: Seq<RecordVisitView>,
    n: nat,
)
    requires
        n <= incoming.len(),
    ensures
        ({
            let taken = spec_accepted(tombstones, visits, place_id, incoming, n);
            &&& taken.len() <= n
            &&& forall|k: int|
                0 <= k < taken.len() ==> {
                    let at = local_time(#[trigger] taken[k]);
                    &&& !tombstones.contains(VisitTombstone { place_id, visit_date: at })
                    &&& !has_visit_at(visits, place_id, at)
                    &&& incoming.contains(taken[k])
                }
            &&& forall|a: int, b: int|
                0 <= a < b < taken.len() ==> local_time(#[trigger] taken[a]) != local_time(
                    #[trigger] taken[b],
                )
        }),
    decreases n,
{
    if n > 0 {
        lemma_accepted(tombstones, visits, place_id, incoming, (n - 1) as nat);
        let before = spec_accepted(tombstones, visits, place_id, incoming, (n - 1) as nat);
        let taken = spec_accepted(tombstones, visits, place_id, incoming, n);
        if taken != before {
            let v = incoming[n - 1];
            assert(taken == before.push(v));
            assert(incoming.contains(v));
            assert forall|a: int, b: int| 0 <= a < b < taken.len() implies local_time(
                #[trigger] taken[a],
            ) != local_time(#[trigger] taken[b]) by {
                if b == before.len() {
                    assert(!has_time(before, local_time(v)));
                    assert(local_time(before[a]) != local_time(v));
                }
            }
        }
    }
}

/// The visit that the `k`-th taken visit becomes in the store.
pub open spec fn synced_visit(
    s: StoreView,
    place_id: i64,
    taken: Seq<RecordVisitView>,
    k: int,
) -> VisitView {
    VisitView {
        id: (s.next_visit_id + k) as i64,
        place_id,
        from_visit: None,
        visit_date: local_time(taken[k]),
        visit_type: transition_type(taken[k].transition),
        is_local: false,
        unknown_fields: taken[k].unknown_fields,
    }
}

proof fn lemma_insert_synced(s: StoreView, place_id: i64, taken: Seq<RecordVisitView>, n: nat)
    requires
        s.wf(),
        has_place(s.places, place_id),
        n <= taken.len(),
        s.next_visit_id + n <= i64::MAX,
        forall|k: int|
            0 <= k < taken.len() ==> !s.visit_tombstones.contains(
                VisitTombstone { place_id, visit_date: local_time(#[trigger] taken[k]) },
            ),
    ensures
        ({
            let t = spec_insert_synced(s, place_id, taken, n);
            &&& t.wf()
            &&& t == (StoreView { visits: t.visits, next_visit_id: t.next_visit_id, ..s })
            &&& t.next_visit_id == s.next_visit_id + n
            &&& t.visits.len() == s.visits.len() + n
            &&& forall|i: int| 0 <= i < s.visits.len() ==> (#[trigger] t.visits[i]) == s.visits[i]
            &&& forall|k: int|
                0 <= k < n ==> (#[trigger] t.visits[s.visits.len() + k]) == synced_visit(
                    s,
                    place_id,
                    taken,
                    k,
                )
        }),
    decreases n,
{
    if n > 0 {
        lemma_insert_synced(s, place_id, taken, (n - 1) as nat);
        let before = spec_insert_synced(s, place_id, taken, (n - 1) as nat);
        let v = taken[n - 1];
        let at = local_time(v);
        let pushed = before.insert_visit(
            place_id,
            None,
            at,
            transition_type(v.transition),
            false,
            v.unknown_fields,
        );
        lemma_insert_visit_wf(
            before,
            place_id,
            None,
            at,
            transition_type(v.transition),
            false,
            v.unknown_fields,
        );
        let gone = VisitTombstone { place_id, visit_date: at };
        assert forall|i: int| 0 <= i < pushed.visit_tombstones.len() implies tombstone_is_not(
            gone,
        )(#[trigger] pushed.visit_tombstones[i]) by {
            if pushed.visit_tombstones[i] == gone {
                assert(s.visit_tombstones.contains(gone));
            }
        }
        lemma_filter_all(pushed.visit_tombstones, tombstone_is_not(gone));
        let t = spec_insert_synced(s, place_id, taken, n);
        assert(t == pushed.remove_visit_tombstone(place_id, at));
        assert(t == pushed);
        assert forall|k: int| 0 <= k < n implies (#[trigger] t.visits[s.visits.len() + k])
            == synced_visit(s, place_id, taken, k) by {
            if k < n - 1 {
                assert(t.visits[s.visits.len() + k] == before.visits[s.visits.len() + k]);
            }
        }
    }
}

/// What incoming visits add, where they are not refused: no visit of the
/// store goes and no tombstone changes; each visit added is a remote visit
/// of the URL's place, later than the deletion high-water mark, at the time
/// of a visit that came in; none is added at a time for which the place has
/// a tombstone or had a visit; and no two are added at one time. What was
/// deleted here does not come back.
pub proof fn law_sync_respects_tombstones(
    s: StoreView,
    guid: Seq<char>,
    url: Seq<char>,
    title: Option<Seq<char>>,
    visits: Seq<RecordVisitView>,
    unknown_fields: Option<Seq<char>>,
    now: u64,
)
    requires
        s.wf(),
        spec_synced_visits_error(s, guid, url, visits) is None,
    ensures
        ({
            let t = spec_apply_synced_visits(s, guid, url, title, visits, unknown_fields, now);
            let place_id = place_id_for(s, url);
            &&& t.wf()
            &&& t.visit_tombstones == s.visit_tombstones
            &&& t.place_tombstones == s.place_tombstones
            &&& s.visits.len() <= t.visits.len()
            &&& forall|i: int| 0 <= i < s.visits.len() ==> (#[trigger] t.visits[i]) == s.visits[i]
            &&& forall|i: int|
                s.visits.len() <= i < t.visits.len() ==> {
                    let v = #[trigger] t.visits[i];
                    &&& !v.is_local
                    &&& v.place_id == place_id
                    &&& v.visit_date > s.deletion_high_water_mark
                    &&& has_time(visits, v.visit_date)
                    &&& !s.visit_tombstones.contains(
                        VisitTombstone { place_id, visit_date: v.visit_date },
                    )
                    &&& !has_visit_at(s.visits, place_id, v.visit_date)
                }
            &&& forall|a: int, b: int|
                s.visits.len() <= a < b < t.visits.len() ==> (#[trigger] t.visits[a]).visit_date != (
                #[trigger] t.visits[b]).visit_date
            &&& t.visits.len() > s.visits.len() ==> place_id_for(t, url) == place_id
        }),
{
    let fresh = visits.filter(after_mark(s.deletion_high_water_mark));
    let place_id = place_id_for(s, url);
    lemma_position(s.places, has_url(url));
    lemma_position(s.places, has_guid(guid));
    if s.place_by_url(url) is None && fresh.len() == 0 {
    } else {
        let (s1, idx, incr): (StoreView, int, int) = match s.place_by_url(url) {
            None => (s.insert_place(guid, url), s.places.len() as int, 0),
            Some(i) => {
                let p = s.places[i];
                (
                    if p.guid != guid && p.sync_status == SyncStatus::New {
                        s.set_place(i, adopted(p, guid))
                    } else {
                        s
                    },
                    i,
                    if p.guid != guid {
                        1
                    } else {
                        0
                    },
                )
            },
        };
        if s.place_by_url(url) is None {
            lemma_insert_place_wf(s, guid, url);
        } else if s1 != s {
            lemma_set_place_wf(s, idx, adopted(s.places[idx], guid));
        }
        assert(s1.wf());
        assert(s1.places[idx].row_id == place_id);
        assert(has_place(s1.places, place_id));
        let taken = spec_accepted(s1.visit_tombstones, s1.visits, place_id, fresh, fresh.len());
        lemma_accepted(s1.visit_tombstones, s1.visits, place_id, fresh, fresh.len());
        lemma_insert_synced(s1, place_id, taken, taken.len());
        let s2 = spec_insert_synced(s1, place_id, taken, taken.len());
        let s3 = spec_rescore(s2, idx, now, None);
        lemma_set_place_wf(s2, idx, s3.places[idx]);
        let t = spec_apply_synced_visits(s, guid, url, title, visits, unknown_fields, now);
        assert(t == s3.set_place(idx, merged_place(s3.places[idx], title, unknown_fields, incr)));
        lemma_set_place_wf(s3, idx, merged_place(s3.places[idx], title, unknown_fields, incr));
        assert(t.visits == s2.visits);
        assert forall|i: int| s.visits.len() <= i < t.visits.len() implies {
            let v = #[trigger] t.visits[i];
            &&& !v.is_local
            &&& v.place_id == place_id
            &&& v.visit_date > s.deletion_high_water_mark
            &&& has_time(visits, v.visit_date)
            &&& !s.visit_tombstones.contains(VisitTombstone { place_id, visit_date: v.visit_date })
            &&& !has_visit_at(s.visits, place_id, v.visit_date)
        } by {
            let k = i - s.visits.len();
            assert(t.visits[s.visits.len() + k] == synced_visit(s1, place_id, taken, k));
            assert(fresh.contains(taken[k]));
            let f = choose|f: int| 0 <= f < fresh.len() && fresh[f] == taken[k];
            lemma_filter_member(visits, after_mark(s.deletion_high_water_mark), f);
            let m = choose|m: int| 0 <= m < visits.len() && visits[m] == fresh[f];
            assert(local_time(visits[m]) == t.visits[i].visit_date);
        }
        assert forall|a: int, b: int| s.visits.len() <= a < b < t.visits.len() implies (
        #[trigger] t.visits[a]).visit_date != (#[trigger] t.visits[b]).visit_date by {
            let ka = a - s.visits.len();
            let kb = b - s.visits.len();
            assert(t.visits[s.visits.len() + ka] == synced_visit(s1, place_id, taken, ka));
            assert(t.visits[s.visits.len() + kb] == synced_visit(s1, place_id, taken, kb));
            assert(local_time(taken[ka]) != local_time(taken[kb]));
        }
        assert(t.places[idx].url == url);
        lemma_lookup_unique(t, idx);
    }
}

/// Filtering by a predicate and then by one that implies it is filtering
/// by the second alone.
proof fn lemma_filter_twice<T>(s: Seq<T>, p: spec_fn(T) -> bool, q: spec_fn(T) -> bool)
    requires
        forall|x: T| #[trigger] q(x) ==> p(x),
    ensures
        s.filter(p).filter(q) == s.filter(q),
    decreases s.len(),
{
    if s.len() == 0 {
        assert(s.filter(p) =~= s) by {
            s.lemma_filter_len(p);
        }
    } else {
        let rest = s.drop_last();
        let x = s.last();
        assert(s =~= rest.push(x));
        lemma_filter_twice(rest, p, q);
        rest.lemma_filter_push(x, p);
        rest.lemma_filter_push(x, q);
        if p(x) {
            rest.filter(p).lemma_filter_push(x, q);
        }
    }
}

/// The points and the sample of a place, counted over all visits of the
/// store, are those counted over the visits of the place alone.
proof fn lemma_score_parts(
    settings: FrecencySettings,
    place: PlaceView,
    visits: Seq<VisitView>,
    now: u64,
    redirect: bool,
    n: nat,
)
    requires
        n <= visits.len(),
    ensures
        ({
            let own = visits.filter(visit_of(place.row_id));
            let k = visits.take(n as int).filter(visit_of(place.row_id)).len();
            &&& k <= own.len()
            &&& settings.spec_points(place, visits, now, redirect, n) == settings.spec_points(
                place,
                own,
                now,
                redirect,
                k,
            )
            &&& settings.spec_sample_size(place, visits, redirect, n) == settings.spec_sample_size(
                place,
                own,
                redirect,
                k,
            )
        }),
    decreases n,
{
    let of_place = visit_of(place.row_id);
    let own = visits.filter(of_place);
    lemma_filter_prefix(visits, of_place, n as int);
    if n == 0 {
        assert(visits.take(0).filter(of_place).len() == 0) by {
            visits.take(0).lemma_filter_len(of_place);
        }
    } else {
        lemma_score_parts(settings, place, visits, now, redirect, (n - 1) as nat);
        lemma_filter_take_succ(visits, of_place, n - 1);
        lemma_filter_prefix(visits, of_place, n - 1);
        let v = visits[n - 1];
        let before = visits.take(n - 1).filter(of_place).len();
        if of_place(v) {
            let after = visits.take(n as int).filter(of_place);
            assert(after[before as int] == v);
            assert(own.take(after.len() as int)[before as int] == own[before as int]);
            assert(own[before as int] == v);
            lemma_filter_twice(visits, of_place, newer_than(v));
            assert(recency_rank(own, v) == recency_rank(visits, v));
        }
    }
}

/// The score of a place reads no visit but its own: whatever visits other
/// places have, the score is the one computed from the visits of the place
/// alone.
pub proof fn law_score_reads_own_visits(
    settings: FrecencySettings,
    place: PlaceView,
    visits: Seq<VisitView>,
    now: u64,
    redirect_boost: Option<bool>,
)
    ensures
        settings.spec_score(place, visits, now, redirect_boost) == settings.spec_score(
            place,
            visits.filter(visit_of(place.row_id)),
            now,
            redirect_boost,
        ),
{
    let of_place = visit_of(place.row_id);
    let own = visits.filter(of_place);
    let redirect = redirect_boost == Some(true);
    lemma_score_parts(settings, place, visits, now, redirect, visits.len());
    assert(visits.take(visits.len() as int) =~= visits);
    lemma_filter_twice(visits, of_place, of_place);
}

} // verus!
