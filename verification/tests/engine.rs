use places::frecency::FrecencySettings;
use places::history::history_sync::{
    apply_synced_visits, fetch_outgoing, finish_outgoing, is_validated, HistoryRecordVisit,
    HISTORY_TTL,
};
use places::history::read::{
    fetch_page_info, get_top_frecent_site_infos, get_visit_count, get_visit_infos, get_visit_page,
    href_to_guid,
};
use places::history::{
    add_visit, apply_observation, classify, cleanup_pages, delete_all_visits_for_page,
    delete_everything, delete_page, delete_place_visit_at_time, delete_visits_between,
    delete_visits_for, find_visits_to_prune, insert_tombstone_for_page,
    insert_tombstones_for_all_page_visits, prune_older_visits, update_frecency, wipe_local_in_tx,
    PageCleanup, PageToClean,
};
use places::model::{StagedChange, VisitTombstone};
use places::observation::VisitObservation;
use places::seq_util::sort_keys;
use places::store::{str_eq, HistoryStore, StoreParts};
use places::text::{slice_up_to, starts_with};
use places::types::{
    HistoryError, RowId, ServerVisitTimestamp, SyncStatus, Timestamp, VisitTransitionSet,
    VisitType, URL_LENGTH_MAX,
};

const T: u64 = 1_700_000_000_000;
const DAY: u64 = 86_400_000;

fn visit(url: &str, at: u64, visit_type: VisitType) -> VisitObservation {
    VisitObservation::new(url.to_string())
        .with_visit_type(Some(visit_type))
        .with_at(Some(Timestamp(at)))
}

fn observe(store: &mut HistoryStore, ob: VisitObservation, guid: &str) -> Option<RowId> {
    apply_observation(store, ob, Timestamp(T), guid.to_string()).unwrap()
}

fn frecency_of(store: &HistoryStore, url: &str) -> i32 {
    fetch_page_info(store, url).unwrap().page.frecency
}

fn record(date: u64, transition: u8) -> HistoryRecordVisit {
    HistoryRecordVisit {
        date: ServerVisitTimestamp::from_timestamp(Timestamp(date)),
        transition,
        unknown_fields: None,
    }
}

#[test]
fn overlong_url_is_ignored() {
    let mut store = HistoryStore::new();
    let mut url = "http://www.example.com/".to_string();
    while url.len() <= URL_LENGTH_MAX {
        url.push('x');
    }
    assert_eq!(url.len(), URL_LENGTH_MAX + 1);
    let r = apply_observation(
        &mut store,
        visit(&url, T, VisitType::Link).with_title(Some("title".into())),
        Timestamp(T),
        "guid00000001".into(),
    );
    assert_eq!(r, Ok(None));
    assert_eq!(store.places().len(), 0);
    assert_eq!(store.visits().len(), 0);

    // One byte less is taken.
    url.pop();
    let r = apply_observation(
        &mut store,
        visit(&url, T, VisitType::Link),
        Timestamp(T),
        "guid00000001".into(),
    );
    assert_eq!(r, Ok(Some(RowId(1))));
    assert_eq!(store.places().len(), 1);
}

#[test]
fn visit_counts_follow_the_observations() {
    let mut store = HistoryStore::new();
    let url = "https://example.com/";
    let obs = vec![
        visit(url, T - 5, VisitType::Link),
        visit(url, T - 4, VisitType::Typed).with_is_remote(Some(true)),
        VisitObservation::new(url.to_string()).with_title(Some("no visit".into())),
        visit(url, T - 3, VisitType::Link).with_is_remote(Some(false)),
        visit(url, T - 2, VisitType::Download).with_is_remote(Some(true)),
        visit(url, T - 1, VisitType::Reload),
    ];
    for ob in obs {
        observe(&mut store, ob, "guid00000001");
    }
    let page = fetch_page_info(&store, url).unwrap().page;
    assert_eq!(page.visit_count_local, 3);
    assert_eq!(page.visit_count_remote, 2);
    assert_eq!(page.last_visit_date_local, Timestamp(T - 1));
    assert_eq!(page.last_visit_date_remote, Timestamp(T - 2));
    assert_eq!(page.typed, 1);

    // A visit that reports an error is recorded too, but does not score.
    let before = page.frecency;
    observe(&mut store, visit(url, T, VisitType::Typed).with_is_error(Some(true)), "unused");
    let page = fetch_page_info(&store, url).unwrap().page;
    assert_eq!(page.visit_count_local, 4);
    assert_eq!(page.frecency, before);
}

#[test]
fn deleting_a_referenced_synced_place_keeps_it() {
    let mut store = HistoryStore::new();
    let url = "https://example.com/a";
    for at in [T - 30, T - 20, T - 10] {
        observe(&mut store, visit(url, at, VisitType::Link), "guidAAAAAAAA");
    }
    observe(&mut store, visit("https://example.com/other", T - 5, VisitType::Link), "guidBBBBBBBB");
    let id = store.add_foreign_reference(url, "unused".into()).unwrap();
    store.set_sync_state(id, SyncStatus::Normal, 3).unwrap();

    delete_visits_for(&mut store, "guidAAAAAAAA");

    let page = fetch_page_info(&store, url).expect("the place stays");
    assert_eq!(page.page.visit_count_local, 0);
    assert!(page.last_visit_id.is_none());
    let mut tombstones: Vec<u64> = store.visit_tombstones().iter().map(|t| t.visit_date).collect();
    tombstones.sort();
    assert_eq!(tombstones, vec![T - 30, T - 20, T - 10]);
    assert!(store.visit_tombstones().iter().all(|t| t.place_id == id.0));
    assert_eq!(store.place_tombstones().len(), 0);
    // The visit of the other place is untouched.
    assert_eq!(store.visits().len(), 1);
}

#[test]
fn deleting_an_unreferenced_synced_place_leaves_one_tombstone() {
    let mut store = HistoryStore::new();
    let url = "https://example.com/b";
    for at in [T - 30, T - 20] {
        observe(&mut store, visit(url, at, VisitType::Link), "guidBBBBBBBB");
    }
    let id = fetch_page_info(&store, url).unwrap().page.row_id;
    store.set_sync_state(id, SyncStatus::Normal, 0).unwrap();
    // A tombstone of an earlier visit of the place goes with the place.
    delete_place_visit_at_time(&mut store, url, Timestamp(T - 30), Timestamp(T));
    assert_eq!(store.visit_tombstones().len(), 1);

    delete_visits_for(&mut store, "guidBBBBBBBB");

    assert!(fetch_page_info(&store, url).is_none());
    assert_eq!(store.place_tombstones(), &vec!["guidBBBBBBBB".to_string()]);
    assert_eq!(store.visit_tombstones().len(), 0);
    assert_eq!(store.visits().len(), 0);

    // Deleting what is gone changes nothing.
    delete_visits_for(&mut store, "guidBBBBBBBB");
    assert_eq!(store.place_tombstones().len(), 1);
}

#[test]
fn wipe_refuses_older_synced_visits() {
    let mut store = HistoryStore::new();
    observe(&mut store, visit("https://example.com/", T - 100, VisitType::Link), "guid00000001");
    // A remote clock ran ahead: the mark must cover its visit.
    observe(
        &mut store,
        visit("https://example.com/ahead", T + 1000, VisitType::Link).with_is_remote(Some(true)),
        "guid00000002",
    );
    delete_everything(&mut store, Timestamp(T));
    assert_eq!(store.deletion_high_water_mark(), Timestamp(T + 1000));
    assert_eq!(store.places().len(), 0);

    // A later wipe with a clock that went back does not lower the mark.
    delete_everything(&mut store, Timestamp(T - 5000));
    assert_eq!(store.deletion_high_water_mark(), Timestamp(T + 1000));

    let url = "https://example.com/synced";
    let stale = vec![record(T + 1000, 1), record(T - 100, 1)];
    assert_eq!(
        apply_synced_visits(&mut store, "guidS0000000", url, &None, &stale, &None, Timestamp(T)),
        Ok(())
    );
    assert_eq!(store.places().len(), 0);
    assert_eq!(store.visits().len(), 0);

    let fresh = vec![record(T + 1001, 1)];
    assert_eq!(
        apply_synced_visits(&mut store, "guidS0000000", url, &None, &fresh, &None, Timestamp(T)),
        Ok(())
    );
    assert_eq!(store.places().len(), 1);
    assert_eq!(store.visits().len(), 1);
    assert_eq!(store.visits()[0].visit_date, Timestamp(T + 1001));
    assert!(!store.visits()[0].is_local);
    let page = fetch_page_info(&store, url).unwrap().page;
    assert_eq!(page.guid, "guidS0000000");
    assert_eq!(page.sync_status, SyncStatus::Normal);
    assert_eq!(page.sync_change_counter, 0);
    assert_eq!(page.visit_count_remote, 1);
}

#[test]
fn pruning_takes_exotic_visits_first_and_counts_none_twice() {
    let mut store = HistoryStore::new();
    let long_url = format!("https://mozilla.com/{}", "x".repeat(255));
    let exotic =
        observe(&mut store, visit(&long_url, T - 90 * DAY, VisitType::Link), "guid00000001")
            .unwrap();
    let normal = observe(
        &mut store,
        visit("https://mozilla.com/", T - 120 * DAY, VisitType::Link),
        "guid00000002",
    )
    .unwrap();
    let recent =
        observe(&mut store, visit("https://mozilla.com/", T - DAY, VisitType::Link), "unused")
            .unwrap();

    let chosen = find_visits_to_prune(&store, 2, Timestamp(T));
    let ids: Vec<RowId> = chosen.iter().map(|v| v.visit_id).collect();
    assert_eq!(ids, vec![exotic, normal]);
    assert_eq!(chosen[0].page_id, RowId(1));
    assert_eq!(chosen[1].page_id, RowId(2));

    // The exotic visit is an ordinary candidate too: it is chosen once.
    let chosen = find_visits_to_prune(&store, 10, Timestamp(T));
    let ids: Vec<RowId> = chosen.iter().map(|v| v.visit_id).collect();
    assert_eq!(ids, vec![exotic, normal]);

    let chosen = find_visits_to_prune(&store, 1, Timestamp(T));
    assert_eq!(chosen.iter().map(|v| v.visit_id).collect::<Vec<_>>(), vec![exotic]);
    assert!(find_visits_to_prune(&store, 0, Timestamp(T)).is_empty());
    // Too close to the epoch for anything to be old.
    assert!(find_visits_to_prune(&store, 10, Timestamp(DAY)).is_empty());

    prune_older_visits(&mut store, 1, Timestamp(T));
    assert!(fetch_page_info(&store, &long_url).is_none());
    let left: Vec<RowId> = store.visits().iter().map(|v| v.id).collect();
    assert_eq!(left, vec![normal, recent]);
}

#[test]
fn upload_round_trip_leaves_nothing_to_upload() {
    let mut store = HistoryStore::new();
    observe(&mut store, visit("https://example.com/1", T - 3, VisitType::Link), "guid00000001");
    observe(&mut store, visit("https://example.com/2", T - 2, VisitType::Typed), "guid00000002");
    // A place without visits: flagged, but never handed out.
    store.add_foreign_reference("https://example.com/bookmark", "guid00000003".into()).unwrap();
    // A tombstone to hand out.
    observe(&mut store, visit("https://example.com/gone", T - 1, VisitType::Link), "guid00000004");
    let gone = fetch_page_info(&store, "https://example.com/gone").unwrap().page.row_id;
    store.set_sync_state(gone, SyncStatus::Normal, 0).unwrap();
    delete_visits_for(&mut store, "guid00000004");

    let outgoing = fetch_outgoing(&mut store, 10, 10);
    let ids: Vec<&str> = outgoing.iter().map(|b| b.envelope.id.as_str()).collect();
    // The tombstone first, then the places by falling frecency.
    assert_eq!(ids, vec!["guid00000004", "guid00000002", "guid00000001"]);
    assert!(outgoing[0].is_tombstone());
    assert_eq!(outgoing[0].envelope.sortindex, None);
    assert_eq!(outgoing[0].envelope.ttl, Some(HISTORY_TTL));
    assert_eq!(outgoing[1].envelope.sortindex, Some(2000));
    assert_eq!(outgoing[2].envelope.sortindex, Some(100));
    let content = outgoing[1].payload.as_ref().unwrap();
    assert_eq!(content.hist_uri, "https://example.com/2");
    assert_eq!(content.visits.len(), 1);
    assert_eq!(content.visits[0].date, ServerVisitTimestamp((T - 2) * 1000));
    assert_eq!(content.visits[0].transition, 2);
    // Handed out means synced at once, and staged.
    assert_eq!(store.staged().len(), 2);
    assert!(store.places().iter().filter(|p| p.foreign_count == 0).all(|p| p.sync_status
        == SyncStatus::Normal));

    finish_outgoing(&mut store);
    assert!(store.places().iter().all(|p| p.sync_change_counter == 0
        && p.sync_status == SyncStatus::Normal));
    assert_eq!(store.staged().len(), 0);
    assert_eq!(store.place_tombstones().len(), 0);
    assert!(fetch_outgoing(&mut store, 10, 10).is_empty());
}

#[test]
fn deleting_a_range_removes_exactly_its_visits() {
    let mut store = HistoryStore::new();
    let url = "https://example.com";
    for at in [T - 3000, T - 2000, T - 1000] {
        observe(&mut store, visit(url, at, VisitType::Link), "guid00000001");
    }
    delete_visits_between(&mut store, Timestamp(T - 2500), Timestamp(T - 1500), Timestamp(T));
    let dates: Vec<u64> = store.visits().iter().map(|v| v.visit_date.0).collect();
    assert_eq!(dates, vec![T - 3000, T - 1000]);
    assert_eq!(
        store.visit_tombstones(),
        &vec![VisitTombstone { place_id: 1, visit_date: T - 2000 }]
    );
    assert!(fetch_page_info(&store, url).is_some());

    // The ends of the range are included.
    delete_visits_between(&mut store, Timestamp(T - 3000), Timestamp(T - 1000), Timestamp(T));
    assert_eq!(store.visits().len(), 0);
    assert!(fetch_page_info(&store, url).is_none());
    // The tombstones of the place went with the place.
    assert_eq!(store.visit_tombstones().len(), 0);
    assert_eq!(store.place_tombstones().len(), 0);
}

#[test]
fn frecency_of_visits() {
    let mut store = HistoryStore::new();
    // One link visit of today: bonus 100 at weight 100.
    observe(&mut store, visit("https://a.example/", T, VisitType::Link), "guid00000001");
    assert_eq!(frecency_of(&store, "https://a.example/"), 100);
    // A second one: two visits, 200 points, two sampled.
    observe(&mut store, visit("https://a.example/", T - 1, VisitType::Link), "unused");
    assert_eq!(frecency_of(&store, "https://a.example/"), 200);
    // A typed visit earns 2000.
    observe(&mut store, visit("https://b.example/", T, VisitType::Typed), "guid00000002");
    assert_eq!(frecency_of(&store, "https://b.example/"), 2000);
    // Ten days old: weight 70. A hundred days old: weight 10.
    observe(&mut store, visit("https://c.example/", T - 10 * DAY, VisitType::Link), "guid00000003");
    assert_eq!(frecency_of(&store, "https://c.example/"), 70);
    observe(&mut store, visit("https://d.example/", T - 100 * DAY, VisitType::Link), "guid00000004");
    assert_eq!(frecency_of(&store, "https://d.example/"), 10);
    // Four days is still the first bucket, five days the second.
    observe(&mut store, visit("https://e.example/", T - 4 * DAY, VisitType::Link), "guid00000005");
    assert_eq!(frecency_of(&store, "https://e.example/"), 100);
    observe(&mut store, visit("https://f.example/", T - 5 * DAY, VisitType::Link), "guid00000006");
    assert_eq!(frecency_of(&store, "https://f.example/"), 70);
    // A redirect source earns the redirect bonus, unless it was typed.
    observe(
        &mut store,
        visit("https://g.example/", T, VisitType::Link).with_is_redirect_source(Some(true)),
        "guid00000007",
    );
    assert_eq!(frecency_of(&store, "https://g.example/"), 25);
    observe(
        &mut store,
        visit("https://h.example/", T, VisitType::Typed).with_is_redirect_source(Some(true)),
        "guid00000008",
    );
    assert_eq!(frecency_of(&store, "https://h.example/"), 2000);
    // A download earns nothing.
    observe(&mut store, visit("https://i.example/", T, VisitType::Download), "guid00000009");
    assert_eq!(frecency_of(&store, "https://i.example/"), 0);
    // A bookmarked place adds the bookmark bonus to each visit: 175.
    store.add_foreign_reference("https://j.example/", "guid00000010".into()).unwrap();
    observe(&mut store, visit("https://j.example/", T, VisitType::Link), "unused");
    assert_eq!(frecency_of(&store, "https://j.example/"), 175);
    // Three visits of 100, 70 and 10 points: 3 * ceil(180) / 3.
    for at in [T, T - 10 * DAY, T - 100 * DAY] {
        observe(&mut store, visit("https://k.example/", at, VisitType::Link), "guid00000011");
    }
    assert_eq!(frecency_of(&store, "https://k.example/"), 180);
}

#[test]
fn frecency_samples_the_ten_most_recent_visits() {
    let mut store = HistoryStore::new();
    let url = "https://many.example/";
    // Ten typed visits long ago, then ten link visits today.
    for i in 0..10 {
        observe(&mut store, visit(url, T - 200 * DAY - i, VisitType::Typed), "guid00000001");
    }
    for i in 0..10 {
        observe(&mut store, visit(url, T - i, VisitType::Link), "unused");
    }
    // Only the link visits are sampled: 20 visits * 1000 points / 10.
    assert_eq!(frecency_of(&store, url), 2000);
    let settings = FrecencySettings::default();
    let place = store.places().iter().find(|p| p.url == url).unwrap();
    assert_eq!(settings.score(place, store.visits(), Timestamp(T), None), 2000);
    // A year later every sampled visit is in the last bucket.
    assert_eq!(settings.score(place, store.visits(), Timestamp(T + 365 * DAY), None), 200);
}

#[test]
fn frecency_of_unvisited_places() {
    let mut store = HistoryStore::new();
    let id = store.add_foreign_reference("https://bookmark.example/", "guid00000001".into()).unwrap();
    assert_eq!(frecency_of(&store, "https://bookmark.example/"), -1);
    assert_eq!(update_frecency(&mut store, id, None, Timestamp(T)), Ok(()));
    assert_eq!(frecency_of(&store, "https://bookmark.example/"), 140);
    // A stored query earns no bookmark bonus.
    let query = store.add_foreign_reference("place:sort=8", "guid00000002".into()).unwrap();
    assert_eq!(update_frecency(&mut store, query, None, Timestamp(T)), Ok(()));
    assert_eq!(frecency_of(&store, "place:sort=8"), 0);
    // Neither visited nor bookmarked nor typed: nothing.
    observe(
        &mut store,
        VisitObservation::new("https://title.example/".into()).with_title(Some("t".into())),
        "guid00000003",
    );
    let titled = fetch_page_info(&store, "https://title.example/").unwrap().page.row_id;
    assert_eq!(update_frecency(&mut store, titled, None, Timestamp(T)), Ok(()));
    assert_eq!(frecency_of(&store, "https://title.example/"), 0);

    assert_eq!(
        update_frecency(&mut store, RowId(99), None, Timestamp(T)),
        Err(HistoryError::NoSuchPlace)
    );
}

#[test]
fn refused_changes_change_nothing() {
    let mut store = HistoryStore::new();
    observe(&mut store, visit("https://example.com/1", T, VisitType::Link), "guid00000001");

    // A new place cannot take the GUID of another.
    let r = apply_observation(
        &mut store,
        visit("https://example.com/2", T, VisitType::Link),
        Timestamp(T),
        "guid00000001".into(),
    );
    assert_eq!(r, Err(HistoryError::GuidInUse));
    assert_eq!(store.places().len(), 1);
    assert_eq!(store.visits().len(), 1);
    assert_eq!(
        store.add_foreign_reference("https://example.com/2", "guid00000001".into()),
        Err(HistoryError::GuidInUse)
    );

    // A change counter at its largest value cannot grow.
    store.set_sync_state(RowId(1), SyncStatus::New, u32::MAX).unwrap();
    let r = apply_observation(
        &mut store,
        VisitObservation::new("https://example.com/1".into()).with_title(Some("t".into())),
        Timestamp(T),
        "unused".into(),
    );
    assert_eq!(r, Err(HistoryError::CounterOverflow));
    assert_eq!(fetch_page_info(&store, "https://example.com/1").unwrap().page.title, "");
    // A preview image alone raises no counter, so it is taken.
    let r = apply_observation(
        &mut store,
        VisitObservation::new("https://example.com/1".into())
            .with_preview_image_url(Some("https://example.com/p.png".into())),
        Timestamp(T),
        "unused".into(),
    );
    assert_eq!(r, Ok(None));

    assert_eq!(store.set_frecency(RowId(7), 1), Err(HistoryError::NoSuchPlace));
    assert_eq!(store.set_hidden(RowId(7), true), Err(HistoryError::NoSuchPlace));
    assert_eq!(
        store.set_sync_state(RowId(7), SyncStatus::Normal, 0),
        Err(HistoryError::NoSuchPlace)
    );
    assert_eq!(
        add_visit(&mut store, RowId(7), None, Timestamp(T), VisitType::Link, true, None),
        Err(HistoryError::NoSuchPlace)
    );
    assert_eq!(HistoryError::GuidInUse.message(), "another place already has this GUID");

    // A referenced place cannot be deleted as a page.
    store.add_foreign_reference("https://example.com/1", "unused".into()).unwrap();
    assert_eq!(delete_page(&mut store, RowId(1)), Err(HistoryError::PlaceReferenced));
    assert_eq!(store.places().len(), 1);
    assert!(store.remove_foreign_reference("https://example.com/1"));
    assert!(!store.remove_foreign_reference("https://example.com/none"));
    assert_eq!(delete_page(&mut store, RowId(1)), Ok(()));
    assert_eq!(store.places().len(), 0);
    assert_eq!(store.visits().len(), 0);
    assert_eq!(delete_page(&mut store, RowId(1)), Ok(()));
}

#[test]
fn a_new_visit_wins_over_a_tombstone() {
    let mut store = HistoryStore::new();
    let url = "https://example.com/";
    observe(&mut store, visit(url, T - 10, VisitType::Link), "guid00000001");
    observe(&mut store, visit(url, T - 20, VisitType::Link), "unused");
    delete_place_visit_at_time(&mut store, url, Timestamp(T - 10), Timestamp(T));
    assert!(store.has_visit_tombstone(RowId(1), Timestamp(T - 10)));
    observe(&mut store, visit(url, T - 10, VisitType::Link), "unused");
    assert!(!store.has_visit_tombstone(RowId(1), Timestamp(T - 10)));
    assert_eq!(store.visits().len(), 2);

    let id = add_visit(&mut store, RowId(1), None, Timestamp(T), VisitType::Typed, false, None);
    assert_eq!(id, Ok(RowId(4)));
    assert_eq!(store.visits().len(), 3);
    assert!(store.has_visit_at(RowId(1), Timestamp(T)));
}

#[test]
fn page_level_deletions() {
    let mut store = HistoryStore::new();
    let url = "https://example.com/";
    observe(&mut store, visit(url, T - 10, VisitType::Link), "guid00000001");
    observe(&mut store, visit(url, T - 20, VisitType::Link), "unused");
    observe(&mut store, visit(url, T - 20, VisitType::Reload), "unused");
    observe(&mut store, visit("https://example.com/2", T - 5, VisitType::Link), "guid00000002");

    insert_tombstones_for_all_page_visits(&mut store, RowId(1));
    // Two visits share an instant: one tombstone stands for both.
    assert_eq!(
        store.visit_tombstones(),
        &vec![
            VisitTombstone { place_id: 1, visit_date: T - 10 },
            VisitTombstone { place_id: 1, visit_date: T - 20 },
        ]
    );
    insert_tombstones_for_all_page_visits(&mut store, RowId(1));
    assert_eq!(store.visit_tombstones().len(), 2);

    delete_all_visits_for_page(&mut store, RowId(1));
    assert_eq!(store.visits().len(), 1);
    assert_eq!(store.visits()[0].place_id, RowId(2));
    assert_eq!(store.places().len(), 2);

    insert_tombstone_for_page(&mut store, "guid00000001");
    insert_tombstone_for_page(&mut store, "guid00000001");
    assert_eq!(store.place_tombstones().len(), 1);
    assert!(store.has_place_tombstone("guid00000001"));
    assert!(!store.has_place_tombstone("guid00000002"));

    wipe_local_in_tx(&mut store);
    assert_eq!(store.places().len(), 0);
    assert_eq!(store.visits().len(), 0);
    assert_eq!(store.visit_tombstones().len(), 0);
    assert_eq!(store.place_tombstones().len(), 0);
}

#[test]
fn the_fate_of_a_place() {
    assert_eq!(classify(true, SyncStatus::Normal), PageCleanup::TombstoneVisits);
    assert_eq!(classify(false, SyncStatus::Normal), PageCleanup::TombstonePlace);
    assert_eq!(classify(true, SyncStatus::New), PageCleanup::PurgeVisits);
    assert_eq!(classify(false, SyncStatus::New), PageCleanup::DeletePlace);
    assert_eq!(classify(false, SyncStatus::Unknown), PageCleanup::DeletePlace);
}

#[test]
fn cleanup_scores_or_removes() {
    let mut store = HistoryStore::new();
    observe(&mut store, visit("https://example.com/1", T, VisitType::Link), "guid00000001");
    observe(&mut store, visit("https://example.com/2", T, VisitType::Link), "guid00000002");
    store.set_frecency(RowId(1), 7).unwrap();
    store.set_sync_state(RowId(2), SyncStatus::Normal, 0).unwrap();
    store.forget_visit(RowId(2));
    let pages = vec![
        PageToClean { id: RowId(1), has_foreign: false, has_visits: true, sync_status: SyncStatus::New },
        PageToClean {
            id: RowId(2),
            has_foreign: false,
            has_visits: false,
            sync_status: SyncStatus::Normal,
        },
        PageToClean { id: RowId(9), has_foreign: false, has_visits: false, sync_status: SyncStatus::New },
    ];
    cleanup_pages(&mut store, &pages, Timestamp(T));
    assert_eq!(frecency_of(&store, "https://example.com/1"), 100);
    assert!(fetch_page_info(&store, "https://example.com/2").is_none());
    assert_eq!(store.place_tombstones(), &vec!["guid00000002".to_string()]);

    // A page that was seen orphaned but has a visit again stays.
    observe(&mut store, visit("https://example.com/3", T, VisitType::Link), "guid00000003");
    let stale = vec![PageToClean {
        id: RowId(3),
        has_foreign: false,
        has_visits: false,
        sync_status: SyncStatus::New,
    }];
    cleanup_pages(&mut store, &stale, Timestamp(T));
    assert!(fetch_page_info(&store, "https://example.com/3").is_some());
}

#[test]
fn synced_visits_reconcile_the_guid() {
    let mut store = HistoryStore::new();
    let url = "https://example.com/";
    observe(&mut store, visit(url, T - 10, VisitType::Link), "localAAAAAAA");

    // Never synced: the incoming GUID is taken, and the place is dirty.
    let incoming = vec![record(T - 10, 1), record(T - 5, 2), record(T - 5, 1), record(T - 1, 9)];
    assert!(is_validated(&incoming));
    apply_synced_visits(
        &mut store,
        "remoteBBBBBB",
        url,
        &Some("remote title".into()),
        &incoming,
        &Some("{\"k\":1}".into()),
        Timestamp(T),
    )
    .unwrap();
    let page = fetch_page_info(&store, url).unwrap().page;
    assert_eq!(page.guid, "remoteBBBBBB");
    assert_eq!(page.title, "remote title");
    assert_eq!(page.unknown_fields, Some("{\"k\":1}".to_string()));
    assert_eq!(page.sync_status, SyncStatus::Normal);
    assert_eq!(page.sync_change_counter, 2);
    // The visit already there and the second of one instant are left out.
    let dates: Vec<(u64, VisitType, bool)> =
        store.visits().iter().map(|v| (v.visit_date.0, v.visit_type, v.is_local)).collect();
    assert_eq!(
        dates,
        vec![
            (T - 10, VisitType::Link, true),
            (T - 5, VisitType::Typed, false),
            (T - 1, VisitType::Reload, false),
        ]
    );
    assert_eq!(href_to_guid(&store, url), Some("remoteBBBBBB".to_string()));

    // Synced before: the local GUID stays, the counter still grows.
    apply_synced_visits(&mut store, "otherCCCCCCC", url, &None, &vec![], &None, Timestamp(T))
        .unwrap();
    let page = fetch_page_info(&store, url).unwrap().page;
    assert_eq!(page.guid, "remoteBBBBBB");
    assert_eq!(page.title, "remote title");
    assert_eq!(page.unknown_fields, None);
    assert_eq!(page.sync_change_counter, 3);

    // The same GUID: nothing to surface.
    apply_synced_visits(&mut store, "remoteBBBBBB", url, &None, &vec![], &None, Timestamp(T))
        .unwrap();
    assert_eq!(fetch_page_info(&store, url).unwrap().page.sync_change_counter, 3);

    // A place never synced cannot take a GUID that another place has.
    observe(&mut store, visit("https://example.com/2", T, VisitType::Link), "localDDDDDDD");
    let before = store.visits().len();
    assert_eq!(
        apply_synced_visits(
            &mut store,
            "remoteBBBBBB",
            "https://example.com/2",
            &None,
            &vec![record(T - 3, 1)],
            &None,
            Timestamp(T)
        ),
        Err(HistoryError::GuidInUse)
    );
    assert_eq!(store.visits().len(), before);
    assert_eq!(
        apply_synced_visits(
            &mut store,
            "remoteBBBBBB",
            "https://example.com/3",
            &None,
            &vec![record(T - 3, 1)],
            &None,
            Timestamp(T)
        ),
        Err(HistoryError::GuidInUse)
    );
    assert_eq!(store.places().len(), 2);

    assert!(!is_validated(&vec![record(T, 1), record(T, 0)]));
    assert!(!is_validated(&vec![record(T, 11)]));
}

#[test]
fn staging_respects_budget_visibility_and_visits() {
    let mut store = HistoryStore::new();
    for (i, frecency) in [(1, 10), (2, 30), (3, 20), (4, 40)] {
        let url = format!("https://example.com/{}", i);
        for at in [T - 30, T - 10, T - 20] {
            observe(&mut store, visit(&url, at, VisitType::Link), &format!("guid0000000{}", i));
        }
        store.set_frecency(RowId(i), frecency).unwrap();
    }
    store.set_hidden(RowId(4), true).unwrap();
    store.set_sync_state(RowId(3), SyncStatus::Normal, 0).unwrap();
    insert_tombstone_for_page(&mut store, "goneAAAAAAAA");
    insert_tombstone_for_page(&mut store, "goneBBBBBBBB");

    // Two tombstones take two of the three: one place is left, the most frecent
    // that is dirty and shown.
    let outgoing = fetch_outgoing(&mut store, 3, 2);
    let ids: Vec<&str> = outgoing.iter().map(|b| b.envelope.id.as_str()).collect();
    assert_eq!(ids, vec!["goneAAAAAAAA", "goneBBBBBBBB", "guid00000002"]);
    let content = outgoing[2].payload.as_ref().unwrap();
    let dates: Vec<u64> = content.visits.iter().map(|v| v.date.to_timestamp().0).collect();
    assert_eq!(dates, vec![T - 10, T - 20]);
    assert_eq!(store.staged_delta(RowId(2)), Some(3));
    assert_eq!(store.staged_delta(RowId(1)), None);

    // A change during the upload stays pending.
    observe(
        &mut store,
        VisitObservation::new("https://example.com/2".into()).with_title(Some("new".into())),
        "unused",
    );
    finish_outgoing(&mut store);
    let page = fetch_page_info(&store, "https://example.com/2").unwrap().page;
    assert_eq!(page.sync_change_counter, 1);
    assert_eq!(page.sync_status, SyncStatus::Normal);
    let page = fetch_page_info(&store, "https://example.com/1").unwrap().page;
    assert_eq!(page.sync_change_counter, 0);
    assert_eq!(page.sync_status, SyncStatus::Normal);

    // Only tombstones where the budget asks for no more.
    insert_tombstone_for_page(&mut store, "goneCCCCCCCC");
    let outgoing = fetch_outgoing(&mut store, 1, 5);
    assert_eq!(outgoing.len(), 1);
    assert!(outgoing[0].is_tombstone());
    assert!(fetch_outgoing(&mut store, 0, 5).is_empty());
}

#[test]
fn listings_of_visits() {
    let mut store = HistoryStore::new();
    observe(
        &mut store,
        visit("https://example.com/1", T - 30, VisitType::Link).with_title(Some("one".into())),
        "guid00000001",
    );
    observe(&mut store, visit("https://example.com/2", T - 20, VisitType::Download), "guid00000002");
    observe(
        &mut store,
        visit("https://example.com/1", T - 10, VisitType::Typed).with_is_remote(Some(true)),
        "unused",
    );
    observe(&mut store, visit("https://example.com/3", T - 10, VisitType::Link), "guid00000003");
    store.set_hidden(RowId(3), true).unwrap();

    let none = VisitTransitionSet::empty();
    let downloads = VisitTransitionSet::for_specific(&[VisitType::Download]);
    assert_eq!(get_visit_count(&store, none), 4);
    assert_eq!(get_visit_count(&store, downloads), 3);
    assert_eq!(get_visit_count(&store, downloads.complement()), 1);

    let infos = get_visit_infos(&store, Timestamp(T - 30), Timestamp(T - 10), none);
    let shown: Vec<(&str, u64, bool)> =
        infos.iter().map(|i| (i.url.as_str(), i.timestamp.0, i.is_remote)).collect();
    assert_eq!(
        shown,
        vec![
            ("https://example.com/1", T - 30, false),
            ("https://example.com/2", T - 20, false),
            ("https://example.com/1", T - 10, true),
        ]
    );
    assert_eq!(infos[0].title, Some("one".to_string()));
    assert_eq!(infos[1].title, None);
    assert_eq!(infos[1].visit_type, VisitType::Download);
    assert_eq!(get_visit_infos(&store, Timestamp(T - 25), Timestamp(T - 15), downloads).len(), 0);

    let page = get_visit_page(&store, 0, 2, none);
    let shown: Vec<u64> = page.iter().map(|i| i.timestamp.0).collect();
    assert_eq!(shown, vec![T - 10, T - 20]);
    let page = get_visit_page(&store, 2, 5, none);
    assert_eq!(page.iter().map(|i| i.timestamp.0).collect::<Vec<_>>(), vec![T - 30]);
    assert_eq!(get_visit_page(&store, 3, 5, none).len(), 0);
    assert_eq!(get_visit_page(&store, -4, -1, none).len(), 3);
    assert_eq!(get_visit_page(&store, 0, 0, none).len(), 0);

    store.set_frecency(RowId(1), 500).unwrap();
    store.set_frecency(RowId(2), 900).unwrap();
    store.set_frecency(RowId(3), 700).unwrap();
    observe(&mut store, visit("ftp://example.com/4", T, VisitType::Link), "guid00000004");
    observe(&mut store, visit("http://example.com/5", T, VisitType::Link), "guid00000005");
    // Downloads do not make a top site, hidden places are not shown, and
    // only web pages count.
    let sites = get_top_frecent_site_infos(&store, 5, 0);
    let urls: Vec<&str> = sites.iter().map(|s| s.url.as_str()).collect();
    assert_eq!(urls, vec!["https://example.com/1", "http://example.com/5"]);
    assert_eq!(sites[0].title, Some("one".to_string()));
    assert_eq!(get_top_frecent_site_infos(&store, 1, 0).len(), 1);
    assert_eq!(get_top_frecent_site_infos(&store, 5, 101).len(), 1);
    assert_eq!(get_top_frecent_site_infos(&store, 5, 501).len(), 0);
}

#[test]
fn text_helpers() {
    assert_eq!(slice_up_to("abc", 5), "abc");
    assert_eq!(slice_up_to("abc", 3), "abc");
    assert_eq!(slice_up_to("abc", 2), "ab");
    assert_eq!(slice_up_to("abc", 0), "");
    // A character is never split.
    assert_eq!(slice_up_to("a\u{e9}b", 2), "a");
    assert_eq!(slice_up_to("a\u{e9}b", 3), "a\u{e9}");
    assert_eq!(slice_up_to("\u{1F600}", 3), "");
    assert_eq!(slice_up_to("\u{1F600}", 4), "\u{1F600}");

    assert!(starts_with("place:sort", "place:"));
    assert!(starts_with("place:", "place:"));
    assert!(!starts_with("place", "place:"));
    assert!(!starts_with("https://place:", "place:"));
    assert!(starts_with("anything", ""));

    assert!(str_eq("abc", "abc"));
    assert!(!str_eq("abc", "abd"));
    assert!(!str_eq("abc", "ab"));
}

#[test]
fn plain_types() {
    for tag in 0..=255u8 {
        match VisitType::from_primitive(tag) {
            Some(t) => {
                assert!((1..=10).contains(&tag));
                assert_eq!(t.as_u8(), tag);
            }
            None => assert!(tag == 0 || tag > 10),
        }
    }
    assert_eq!(VisitType::from_primitive(7), Some(VisitType::Download));
    assert_eq!(VisitType::Link.as_u8(), 1);
    assert_eq!(VisitType::UpdatePlace.as_u8(), 10);

    let mut set = VisitTransitionSet::empty();
    assert!(set.is_empty());
    set.insert(VisitType::Embed);
    assert!(set.contains(VisitType::Embed));
    assert!(!set.contains(VisitType::Link));
    assert!(!set.is_empty());
    let both = VisitTransitionSet::for_specific(&[VisitType::Embed, VisitType::Link]);
    assert!(both.contains(VisitType::Link) && both.contains(VisitType::Embed));
    assert!(!both.contains(VisitType::Typed));
    let rest = both.complement();
    assert!(!rest.contains(VisitType::Link) && rest.contains(VisitType::Typed));

    assert_eq!(Timestamp(10).checked_sub(3), Some(Timestamp(7)));
    assert_eq!(Timestamp(10).checked_sub(10), Some(Timestamp(0)));
    assert_eq!(Timestamp(10).checked_sub(11), None);
    assert_eq!(Timestamp(10).as_millis(), 10);
    assert_eq!(ServerVisitTimestamp::from_timestamp(Timestamp(5)), ServerVisitTimestamp(5000));
    assert_eq!(
        ServerVisitTimestamp::from_timestamp(Timestamp(u64::MAX / 1000 + 1)),
        ServerVisitTimestamp(u64::MAX)
    );
    assert_eq!(ServerVisitTimestamp(5999).to_timestamp(), Timestamp(5));

    let sorted = sort_keys(&vec![(3, 1), (1, 9), (3, 0), (2, 5), (1, 2)]);
    assert_eq!(sorted, vec![(1, 2), (1, 9), (2, 5), (3, 0), (3, 1)]);
}

#[test]
fn row_identifiers_run_out() {
    assert!(HistoryStore::with_first_ids(RowId(0), RowId(1)).is_none());
    assert!(HistoryStore::with_first_ids(RowId(1), RowId(-5)).is_none());

    // The last place.
    let mut store = HistoryStore::with_first_ids(RowId(i64::MAX - 1), RowId(10)).unwrap();
    assert_eq!(
        observe(&mut store, visit("https://example.com/1", T, VisitType::Link), "guid00000001"),
        Some(RowId(10))
    );
    assert_eq!(store.places()[0].row_id, RowId(i64::MAX - 1));
    let r = apply_observation(
        &mut store,
        visit("https://example.com/2", T, VisitType::Link),
        Timestamp(T),
        "guid00000002".into(),
    );
    assert_eq!(r, Err(HistoryError::RowIdsExhausted));
    assert_eq!(
        store.add_foreign_reference("https://example.com/2", "guid00000002".into()),
        Err(HistoryError::RowIdsExhausted)
    );
    assert_eq!(
        apply_synced_visits(
            &mut store,
            "guid00000002",
            "https://example.com/2",
            &None,
            &vec![record(T, 1)],
            &None,
            Timestamp(T)
        ),
        Err(HistoryError::RowIdsExhausted)
    );
    assert_eq!(store.places().len(), 1);
    assert_eq!(store.visits().len(), 1);

    // The last visit.
    let mut store = HistoryStore::with_first_ids(RowId(1), RowId(i64::MAX - 1)).unwrap();
    assert_eq!(
        observe(&mut store, visit("https://example.com/1", T, VisitType::Link), "guid00000001"),
        Some(RowId(i64::MAX - 1))
    );
    let r = apply_observation(
        &mut store,
        visit("https://example.com/1", T + 1, VisitType::Link),
        Timestamp(T),
        "unused".into(),
    );
    assert_eq!(r, Err(HistoryError::RowIdsExhausted));
    // Without a visit the observation is taken.
    let r = apply_observation(
        &mut store,
        VisitObservation::new("https://example.com/1".into()).with_title(Some("t".into())),
        Timestamp(T),
        "unused".into(),
    );
    assert_eq!(r, Ok(None));
    assert_eq!(
        add_visit(&mut store, RowId(1), None, Timestamp(T), VisitType::Link, true, None),
        Err(HistoryError::RowIdsExhausted)
    );
    // Two incoming visits of one time need one row identifier; none is left.
    let before = store.visits().len();
    assert_eq!(
        apply_synced_visits(
            &mut store,
            "guid00000001",
            "https://example.com/1",
            &None,
            &vec![record(T + 2, 1)],
            &None,
            Timestamp(T)
        ),
        Err(HistoryError::RowIdsExhausted)
    );
    // A visit that the place has already needs none.
    assert_eq!(
        apply_synced_visits(
            &mut store,
            "guid00000001",
            "https://example.com/1",
            &None,
            &vec![record(T, 1)],
            &None,
            Timestamp(T)
        ),
        Ok(())
    );
    assert_eq!(store.visits().len(), before);

    for (e, text) in [
        (HistoryError::GuidInUse, "another place already has this GUID"),
        (HistoryError::RowIdsExhausted, "no row identifier is left"),
        (HistoryError::CounterOverflow, "a counter of the place cannot grow"),
        (HistoryError::NoSuchPlace, "no place has this row identifier"),
        (HistoryError::PlaceReferenced, "the place is still referenced"),
    ] {
        assert_eq!(e.message(), text);
    }
}

fn sample_store() -> HistoryStore {
    let mut store = HistoryStore::new();
    for (i, at) in [(1, T - 30), (2, T - 20), (1, T - 10)] {
        let url = format!("https://example.com/{}", i);
        observe(&mut store, visit(&url, at, VisitType::Link), &format!("guid0000000{}", i));
    }
    store.add_foreign_reference("https://example.com/1", "unused".into()).unwrap();
    delete_place_visit_at_time(&mut store, "https://example.com/1", Timestamp(T - 30), Timestamp(T));
    insert_tombstone_for_page(&mut store, "goneAAAAAAAA");
    fetch_outgoing(&mut store, 1, 1);
    store.set_last_sync(77);
    store
}

#[test]
fn a_store_is_made_of_parts_that_fit() {
    let store = sample_store();
    let parts = store.to_parts();
    assert_eq!(parts.places.len(), 2);
    assert_eq!(parts.visits.len(), 2);
    assert_eq!(parts.place_tombstones, vec!["goneAAAAAAAA".to_string()]);
    assert_eq!(parts.visit_tombstones, vec![VisitTombstone { place_id: 1, visit_date: T - 30 }]);
    assert_eq!(parts.staged, Vec::<StagedChange>::new());
    assert_eq!(parts.last_sync, 77);
    assert_eq!(parts.next_place_id, RowId(3));
    assert_eq!(parts.next_visit_id, RowId(4));

    let again = HistoryStore::from_parts(parts).expect("the parts of a store fit together");
    assert_eq!(format!("{:?}", again), format!("{:?}", store));
    assert!(HistoryStore::from_parts(HistoryStore::new().to_parts()).is_some());
}

#[test]
fn parts_that_do_not_fit_are_refused() {
    let broken: Vec<(&str, fn(&mut StoreParts))> = vec![
        ("two places of one URL", |p| p.places[1].url = p.places[0].url.clone()),
        ("two places of one GUID", |p| p.places[1].guid = p.places[0].guid.clone()),
        ("places out of order", |p| p.places.swap(0, 1)),
        ("two places of one row identifier", |p| p.places[1].row_id = p.places[0].row_id),
        ("a place below one", |p| p.places[0].row_id = RowId(0)),
        ("a place at the next row identifier", |p| p.next_place_id = RowId(2)),
        ("next place below one", |p| {
            p.places.clear();
            p.visits.clear();
            p.visit_tombstones.clear();
            p.next_place_id = RowId(0)
        }),
        ("visits out of order", |p| p.visits.swap(0, 1)),
        ("a visit at the next row identifier", |p| p.next_visit_id = RowId(3)),
        ("a visit of no place", |p| p.visits[0].place_id = RowId(9)),
        ("a visit tombstone of no place", |p| p.visit_tombstones[0].place_id = 9),
        ("a visit tombstone twice", |p| {
            let t = p.visit_tombstones[0];
            p.visit_tombstones.push(t)
        }),
        ("a place tombstone twice", |p| p.place_tombstones.push("goneAAAAAAAA".into())),
        ("a place staged twice", |p| {
            p.staged.push(StagedChange { place_id: 1, change_delta: 1 });
            p.staged.push(StagedChange { place_id: 1, change_delta: 2 })
        }),
    ];
    for (what, spoil) in broken {
        let mut parts = sample_store().to_parts();
        spoil(&mut parts);
        assert!(HistoryStore::from_parts(parts).is_none(), "{what}");
    }
    // What does not touch the invariant is taken.
    let mut parts = sample_store().to_parts();
    parts.staged.push(StagedChange { place_id: 42, change_delta: 1 });
    parts.places[0].title = parts.places[1].title.clone();
    parts.visits[0].visit_date = parts.visits[1].visit_date;
    assert!(HistoryStore::from_parts(parts).is_some());
}
