//! Pruning: which visits go first when the store must shrink.
//!
//! Exotic visits go first: old visits that are downloads or whose URL is
//! long, which are of little use to the user. Ordinary old visits fill what
//! is left of the limit. Within each kind the oldest go first.

use crate::frecency::MS_PER_DAY;
use crate::history::{delete_visits_masked, spec_delete_visits};
use crate::model::{has_visit_id, StoreView, VisitView};
use crate::seq_util::{
    at_most, key_leq, lemma_filter_prefix, lemma_filter_take_succ, lemma_take_succ, position,
    sort_keys, Keyed,
};
use crate::store::HistoryStore;
use crate::types::{RowId, Timestamp, VisitType};
use vstd::prelude::*;
use vstd::string::*;

verus! {

/// Days after which an exotic visit may be pruned.
pub const EXOTIC_AGE_DAYS: u64 = 60;

/// Days after which any visit may be pruned.
pub const NORMAL_AGE_DAYS: u64 = 7;

/// Characters from which on a URL counts as long.
pub const LONG_URL_CHARS: usize = 255;

/// A visit chosen for deletion, with the place it belongs to.
#[derive(Clone, Copy, Debug, PartialEq, Eq, Structural, Hash)]
pub struct VisitToDelete {
    pub visit_id: RowId,
    pub page_id: RowId,
}

/// The time before which visits are old enough, if `now` is that far from
/// the epoch.
pub open spec fn spec_cutoff(now: u64, days: u64) -> Option<u64> {
    if now >= days * MS_PER_DAY {
        Some((now - days * MS_PER_DAY) as u64)
    } else {
        None
    }
}

/// True when the place of the visit has a long URL.
pub open spec fn has_long_url(s: StoreView, place_id: i64) -> bool {
    match s.place_by_id(place_id) {
        Some(i) => s.places[i].url.len() > LONG_URL_CHARS,
        None => false,
    }
}

/// True for a visit that is old enough to be pruned.
pub open spec fn is_normal_candidate(now: u64) -> spec_fn(VisitView) -> bool {
    |v: VisitView|
        match spec_cutoff(now, NORMAL_AGE_DAYS) {
            Some(c) => v.visit_date < c,
            None => false,
        }
}

/// True for a visit to prune first: very old, and a download or of a long URL.
pub open spec fn is_exotic_candidate(s: StoreView, now: u64) -> spec_fn(VisitView) -> bool {
    |v: VisitView|
        match spec_cutoff(now, EXOTIC_AGE_DAYS) {
            Some(c) => v.visit_date < c && (v.visit_type == VisitType::Download || has_long_url(
                s,
                v.place_id,
            )),
            None => false,
        }
}

/// Orders visits from the oldest.
pub open spec fn age_key() -> spec_fn(VisitView) -> Keyed {
    |v: VisitView| (v.visit_date, v.id)
}

/// The exotic candidates from the oldest, at most `limit`.
pub open spec fn spec_exotic_keys(s: StoreView, limit: nat, now: u64) -> Seq<Keyed> {
    at_most(
        s.visits.filter(is_exotic_candidate(s, now)).map_values(age_key()).sort_by(key_leq()),
        limit,
    )
}

/// The ordinary candidates from the oldest.
pub open spec fn spec_normal_order(s: StoreView, now: u64) -> Seq<Keyed> {
    s.visits.filter(is_normal_candidate(now)).map_values(age_key()).sort_by(key_leq())
}

/// The ordinary candidates from the oldest, at most `limit`.
pub open spec fn spec_normal_keys(s: StoreView, limit: nat, now: u64) -> Seq<Keyed> {
    at_most(spec_normal_order(s, now), limit)
}

/// True for the keys that are not among `chosen`.
pub open spec fn not_among(chosen: Seq<Keyed>) -> spec_fn(Keyed) -> bool {
    |k: Keyed| !chosen.contains(k)
}

/// The visits to prune: the exotic candidates first, then the ordinary
/// ones that are not among them, never more than `limit` in all.
pub open spec fn spec_prune_keys(s: StoreView, limit: nat, now: u64) -> Seq<Keyed> {
    let exotic = spec_exotic_keys(s, limit, now);
    exotic + at_most(
        spec_normal_order(s, now).filter(not_among(exotic)),
        (limit - exotic.len()) as nat,
    )
}

/// The visit that a key stands for, with its place.
pub open spec fn to_delete(s: StoreView) -> spec_fn(Keyed) -> VisitToDelete {
    |k: Keyed|
        VisitToDelete {
            visit_id: RowId(k.1),
            page_id: RowId(
                match position(s.visits, has_visit_id(k.1)) {
                    Some(i) => s.visits[i].place_id,
                    None => 0,
                },
            ),
        }
}

/// True for the visits that the keys stand for.
pub open spec fn chosen_by(keys: Seq<Keyed>) -> spec_fn(VisitView) -> bool {
    |v: VisitView| keys.contains(age_key()(v))
}

/// The time before which visits are old enough.
fn cutoff(now: Timestamp, days: u64) -> (r: Option<u64>)
    requires
        days <= 1000,
    ensures
        r == spec_cutoff(now.0, days),
{
    let span: u64 = days * MS_PER_DAY;
    if now.0 >= span {
        Some(now.0 - span)
    } else {
        None
    }
}

/// Whether the place has a long URL.
fn long_url(store: &HistoryStore, place_id: RowId) -> (r: bool)
    ensures
        r == has_long_url(store@, place_id.0),
{
    match store.find_place_by_id(place_id) {
        Some(i) => store.places()[i].url.as_str().unicode_len() > LONG_URL_CHARS,
        None => false,
    }
}

/// The keys of the masked visits, sorted from the oldest.
fn sorted_age_keys(
    store: &HistoryStore,
    mask: &Vec<bool>,
    Ghost(keep): Ghost<spec_fn(VisitView) -> bool>,
) -> (r: Vec<Keyed>)
    requires
        mask@.len() == store@.visits.len(),
        forall|i: int| 0 <= i < mask@.len() ==> mask@[i] == keep(#[trigger] store@.visits[i]),
    ensures
        r@ == store@.visits.filter(keep).map_values(age_key()).sort_by(key_leq()),
{
    let ghost src = store@.visits;
    let ghost f = age_key();
    let mut keys: Vec<Keyed> = Vec::new();
    let mut i: usize = 0;
    while i < store.visits().len()
        invariant
            i <= src.len(),
            src == store@.visits,
            f == age_key(),
            mask@.len() == src.len(),
            forall|k: int| 0 <= k < mask@.len() ==> mask@[k] == keep(#[trigger] src[k]),
            keys@ == src.take(i as int).filter(keep).map_values(f),
        decreases src.len() - i,
    {
        proof {
            lemma_filter_take_succ(src, keep, i as int);
        }
        if mask[i] {
            let v = &store.visits()[i];
            keys.push((v.visit_date.0, v.id.0));
            proof {
                let prev = src.take(i as int).filter(keep);
                assert(prev.push(src[i as int]).map_values(f) =~= prev.map_values(f).push(
                    f(src[i as int]),
                ));
            }
        }
        i += 1;
    }
    proof {
        assert(src.take(src.len() as int) =~= src);
    }
    sort_keys(&keys)
}

/// The exotic candidates from the oldest, at most `limit`.
fn exotic_keys(store: &HistoryStore, limit: usize, now: Timestamp) -> (r: Vec<Keyed>)
    ensures
        r@ == spec_exotic_keys(store@, limit as nat, now.0),
{
    let ghost keep = is_exotic_candidate(store@, now.0);
    let old_enough = cutoff(now, EXOTIC_AGE_DAYS);
    let mut mask: Vec<bool> = Vec::new();
    let mut i: usize = 0;
    while i < store.visits().len()
        invariant
            i <= store@.visits.len(),
            mask@.len() == i,
            keep == is_exotic_candidate(store@, now.0),
            old_enough == spec_cutoff(now.0, EXOTIC_AGE_DAYS),
            forall|k: int| 0 <= k < i ==> mask@[k] == keep(#[trigger] store@.visits[k]),
        decreases store@.visits.len() - i,
    {
        let v = &store.visits()[i];
        let hit = match old_enough {
            Some(c) => v.visit_date.0 < c && (match v.visit_type {
                VisitType::Download => true,
                _ => false,
            } || long_url(store, v.place_id)),
            None => false,
        };
        mask.push(hit);
        i += 1;
    }
    let mut keys = sorted_age_keys(store, &mask, Ghost(keep));
    keys.truncate(limit);
    keys
}

/// The ordinary candidates from the oldest.
fn normal_order(store: &HistoryStore, now: Timestamp) -> (r: Vec<Keyed>)
    ensures
        r@ == spec_normal_order(store@, now.0),
{
    let ghost keep = is_normal_candidate(now.0);
    let old_enough = cutoff(now, NORMAL_AGE_DAYS);
    let mut mask: Vec<bool> = Vec::new();
    let mut i: usize = 0;
    while i < store.visits().len()
        invariant
            i <= store@.visits.len(),
            mask@.len() == i,
            keep == is_normal_candidate(now.0),
            old_enough == spec_cutoff(now.0, NORMAL_AGE_DAYS),
            forall|k: int| 0 <= k < i ==> mask@[k] == keep(#[trigger] store@.visits[k]),
        decreases store@.visits.len() - i,
    {
        let v = &store.visits()[i];
        let hit = match old_enough {
            Some(c) => v.visit_date.0 < c,
            None => false,
        };
        mask.push(hit);
        i += 1;
    }
    sorted_age_keys(store, &mask, Ghost(keep))
}

/// The visits that the keys stand for, each with its place.
fn visits_to_delete(store: &HistoryStore, keys: &Vec<Keyed>) -> (r: Vec<VisitToDelete>)
    ensures
        r@ == keys@.map_values(to_delete(store@)),
{
    let ghost g = to_delete(store@);
    let mut out: Vec<VisitToDelete> = Vec::new();
    let mut k: usize = 0;
    while k < keys.len()
        invariant
            k <= keys@.len(),
            g == to_delete(store@),
            out@ == keys@.take(k as int).map_values(g),
        decreases keys.len() - k,
    {
        let key = keys[k];
        let page_id = match store.find_visit_by_id(RowId(key.1)) {
            Some(i) => store.visits()[i].place_id,
            None => RowId(0),
        };
        out.push(VisitToDelete { visit_id: RowId(key.1), page_id });
        proof {
            lemma_take_succ(keys@, k as int);
            assert(keys@.take(k + 1).map_values(g) =~= keys@.take(k as int).map_values(g).push(
                g(keys@[k as int]),
            ));
        }
        k += 1;
    }
    proof {
        assert(keys@.take(keys@.len() as int) =~= keys@);
    }
    out
}

/// Whether `key` is among `keys`.
fn holds_key(keys: &Vec<Keyed>, key: Keyed) -> (r: bool)
    ensures
        r == keys@.contains(key),
{
    let mut i: usize = 0;
    while i < keys.len()
        invariant
            i <= keys@.len(),
            forall|j: int| 0 <= j < i ==> keys@[j] != key,
        decreases keys.len() - i,
    {
        if keys[i].0 == key.0 && keys[i].1 == key.1 {
            return true;
        }
        i += 1;
    }
    false
}

/// The keys of the visits to prune.
fn prune_keys(store: &HistoryStore, limit: usize, now: Timestamp) -> (r: Vec<Keyed>)
    ensures
        r@ == spec_prune_keys(store@, limit as nat, now.0),
        r@.len() <= limit,
{
    let exotic = exotic_keys(store, limit, now);
    let normal = normal_order(store, now);
    let ghost keep = not_among(exotic@);
    let ghost src = normal@;
    let room: usize = limit - exotic.len();
    let mut extra: Vec<Keyed> = Vec::new();
    let mut i: usize = 0;
    while i < normal.len() && extra.len() < room
        invariant
            i <= src.len(),
            src == normal@,
            keep == not_among(exotic@),
            extra@ == src.take(i as int).filter(keep),
            extra@.len() <= room,
        decreases src.len() - i,
    {
        proof {
            lemma_filter_take_succ(src, keep, i as int);
        }
        if !holds_key(&exotic, normal[i]) {
            extra.push(normal[i]);
        }
        i += 1;
    }
    proof {
        if i == src.len() {
            assert(src.take(src.len() as int) =~= src);
        } else {
            lemma_filter_prefix(src, keep, i as int);
            assert(extra@ =~= src.filter(keep).take(room as int));
        }
    }
    let mut result = exotic;
    let ghost head = result@;
    result.append(&mut extra);
    proof {
        assert(result@ =~= head + at_most(src.filter(keep), room as nat));
    }
    result
}

/// Finds the ordinary visits to prune: those older than seven days, the
/// oldest first, at most `limit`.
pub fn find_normal_visits_to_prune(store: &HistoryStore, limit: usize, now: Timestamp) -> (r: Vec<
    VisitToDelete,
>)
    ensures
        r@ == spec_normal_keys(store@, limit as nat, now.0).map_values(to_delete(store@)),
        r@.len() <= limit,
{
    let mut keys = normal_order(store, now);
    keys.truncate(limit);
    visits_to_delete(store, &keys)
}

/// Finds the exotic visits to prune: those older than sixty days that are
/// downloads or whose URL is long, the oldest first, at most `limit`.
pub fn find_exotic_visits_to_prune(store: &HistoryStore, limit: usize, now: Timestamp) -> (r: Vec<
    VisitToDelete,
>)
    ensures
        r@ == spec_exotic_keys(store@, limit as nat, now.0).map_values(to_delete(store@)),
        r@.len() <= limit,
{
    let keys = exotic_keys(store, limit, now);
    visits_to_delete(store, &keys)
}

/// Finds the visits to prune: exotic visits first, then ordinary ones until
/// the limit is reached. No visit is chosen twice.
pub fn find_visits_to_prune(store: &HistoryStore, limit: usize, now: Timestamp) -> (r: Vec<
    VisitToDelete,
>)
    ensures
        r@ == spec_prune_keys(store@, limit as nat, now.0).map_values(to_delete(store@)),
        r@.len() <= limit,
{
    let keys = prune_keys(store, limit, now);
    visits_to_delete(store, &keys)
}

/// Prunes at most `limit` visits: deletes them with tombstones and cleans
/// up the places they belonged to.
pub fn prune_older_visits(store: &mut HistoryStore, limit: u32, now: Timestamp)
    requires
        old(store).wf(),
    ensures
        final(store).wf(),
        final(store)@ == spec_delete_visits(
            old(store)@,
            chosen_by(spec_prune_keys(old(store)@, limit as nat, now.0)),
            now.0,
        ),
{
    let keys = prune_keys(store, limit as usize, now);
    let ghost doomed = chosen_by(keys@);
    let mut mask: Vec<bool> = Vec::new();
    let mut i: usize = 0;
    while i < store.visits().len()
        invariant
            i <= store@.visits.len(),
            store@ == old(store)@,
            mask@.len() == i,
            doomed == chosen_by(keys@),
            forall|k: int| 0 <= k < i ==> mask@[k] == doomed(#[trigger] store@.visits[k]),
        decreases store@.visits.len() - i,
    {
        let v = &store.visits()[i];
        mask.push(holds_key(&keys, (v.visit_date.0, v.id.0)));
        i += 1;
    }
    delete_visits_masked(store, &mask, Ghost(doomed), now);
}

} // verus!
