use std::collections::HashSet;

use places::frecency::FrecencySettings;
use places::history::history_sync::{
    apply_synced_deletion, apply_synced_reconciliation, apply_synced_visits, fetch_outgoing,
    fetch_visits, finish_outgoing, reset, FetchedVisit, HistoryRecordVisit,
};
use places::history::read::{
    fetch_page_info, get_visit_count_for_host, get_visit_page_with_bound, get_visited,
    get_visited_into, get_visited_urls, url_to_guid, PageInfo,
};
use places::history::{
    apply_observation, delete_everything, delete_place_visit_at_time, delete_visits_between,
    delete_visits_for, find_exotic_visits_to_prune, find_normal_visits_to_prune,
    find_visits_to_prune, CollSyncIds, EngineSyncAssociation, VisitToDelete,
};
use places::model::VisitTombstone;
use places::observation::VisitObservation;
use places::store::HistoryStore;
use places::types::{
    RowId, ServerVisitTimestamp, SyncStatus, Timestamp, VisitTransitionSet, VisitType,
    TITLE_LENGTH_MAX, URL_LENGTH_MAX,
};
use url::Url;

const NOW: u64 = 1_700_000_000_000;

struct Db {
    store: HistoryStore,
    guids: u64,
}

impl Db {
    fn open() -> Db {
        Db { store: HistoryStore::new(), guids: 0 }
    }

    fn guid(&mut self) -> String {
        self.guids += 1;
        format!("guid{:08}", self.guids)
    }

    fn observe_at(&mut self, ob: VisitObservation, now: Timestamp) -> Option<RowId> {
        let guid = self.guid();
        apply_observation(&mut self.store, ob, now, guid).expect("Should apply visit")
    }

    fn observe(&mut self, ob: VisitObservation) -> Option<RowId> {
        self.observe_at(ob, Timestamp(NOW))
    }

    fn bookmark(&mut self, url: &Url) {
        let guid = self.guid();
        self.store.add_foreign_reference(url.as_str(), guid).expect("should insert bookmark");
    }

    fn page(&self, url: &Url) -> Option<PageInfo> {
        fetch_page_info(&self.store, url.as_str()).map(|info| info.page)
    }

    fn mark_synced(&mut self, url: &Url) {
        let page = self.page(url).expect("page should exist");
        self.store
            .set_sync_state(page.row_id, SyncStatus::Normal, page.sync_change_counter)
            .expect("should work");
    }

    fn mark_all_as_synced(&mut self) {
        let states: Vec<(RowId, u32)> =
            self.store.places().iter().map(|p| (p.row_id, p.sync_change_counter)).collect();
        for (id, counter) in states {
            self.store.set_sync_state(id, SyncStatus::Normal, counter).expect("should work");
        }
    }

    fn tombstone_count(&self) -> usize {
        self.store.place_tombstones().len()
    }

    fn get_custom_observed_page<F>(&mut self, url: &str, custom: F) -> PageInfo
    where
        F: Fn(VisitObservation) -> VisitObservation,
    {
        let u = Url::parse(url).unwrap();
        let obs = VisitObservation::new(u.to_string()).with_visit_type(Some(VisitType::Link));
        self.observe(custom(obs));
        self.page(&u).expect("should have the page")
    }

    fn get_observed_page(&mut self, url: &str) -> PageInfo {
        self.get_custom_observed_page(url, |o| o)
    }
}

fn ob(url: &Url) -> VisitObservation {
    VisitObservation::new(url.to_string())
}

fn link_record(date: Timestamp) -> HistoryRecordVisit {
    HistoryRecordVisit {
        date: ServerVisitTimestamp::from_timestamp(date),
        transition: VisitType::Link.as_u8(),
        unknown_fields: None,
    }
}

#[test]
fn test_get_visited_urls() {
    let mut conn = Db::open();
    let now_u64 = NOW;
    // (url, when, is_remote, (expected_always, expected_only_local)
    let to_add = [
        ("https://www.example.com/1", now_u64 - 200_100, false, (false, false)),
        ("https://www.example.com/12", now_u64 - 200_000, false, (true, true)),
        ("https://www.example.com/123", now_u64 - 10_000, true, (true, false)),
        ("https://www.example.com/1234", now_u64 - 1000, false, (true, true)),
        ("https://www.mozilla.com", now_u64 - 500, false, (false, false)),
    ];

    for &(url, when, remote, _) in &to_add {
        conn.observe(
            ob(&Url::parse(url).unwrap())
                .with_at(Some(Timestamp(when)))
                .with_is_remote(Some(remote))
                .with_visit_type(Some(VisitType::Link)),
        );
    }

    let visited_all = get_visited_urls(
        &conn.store,
        Timestamp(now_u64 - 200_000),
        Timestamp(now_u64 - 1000),
        true,
    )
    .into_iter()
    .collect::<HashSet<_>>();

    let visited_local = get_visited_urls(
        &conn.store,
        Timestamp(now_u64 - 200_000),
        Timestamp(now_u64 - 1000),
        false,
    )
    .into_iter()
    .collect::<HashSet<_>>();

    for &(url, ts, is_remote, (expected_in_all, expected_in_local)) in &to_add {
        // Make sure we format stuff the same way (in practice, just trailing slashes)
        let url = Url::parse(url).unwrap().to_string();
        assert_eq!(
            expected_in_local,
            visited_local.contains(&url),
            "Failed in local for {:?}",
            (&url, ts, is_remote)
        );
        assert_eq!(
            expected_in_all,
            visited_all.contains(&url),
            "Failed in all for {:?}",
            (&url, ts, is_remote)
        );
    }
}

#[test]
fn test_visit_counts() {
    let mut conn = Db::open();
    let url = Url::parse("https://www.example.com").expect("it's a valid url");
    let early_time = Timestamp(NOW - 60_000);
    let late_time = Timestamp(NOW);

    // add 2 local visits - add latest first
    let rid1 = conn
        .observe(ob(&url).with_visit_type(Some(VisitType::Link)).with_at(Some(late_time)))
        .expect("should get a rowid");

    let rid2 = conn
        .observe(ob(&url).with_visit_type(Some(VisitType::Link)).with_at(Some(early_time)))
        .expect("should get a rowid");

    let mut pi = conn.page(&url).expect("should have the page");
    assert_eq!(pi.visit_count_local, 2);
    assert_eq!(pi.last_visit_date_local, late_time);
    assert_eq!(pi.visit_count_remote, 0);
    assert_eq!(pi.last_visit_date_remote.0, 0);

    // 2 remote visits, earliest first.
    let rid3 = conn
        .observe(
            ob(&url)
                .with_visit_type(Some(VisitType::Link))
                .with_at(Some(early_time))
                .with_is_remote(Some(true)),
        )
        .expect("should get a rowid");

    let rid4 = conn
        .observe(
            ob(&url)
                .with_visit_type(Some(VisitType::Link))
                .with_at(Some(late_time))
                .with_is_remote(Some(true)),
        )
        .expect("should get a rowid");

    pi = conn.page(&url).expect("should have the page");
    assert_eq!(pi.visit_count_local, 2);
    assert_eq!(pi.last_visit_date_local, late_time);
    assert_eq!(pi.visit_count_remote, 2);
    assert_eq!(pi.last_visit_date_remote, late_time);

    // Delete some and make sure things update.
    // Delete the latest local visit.
    conn.store.forget_visit(rid1);
    pi = conn.page(&url).expect("should have the page");
    assert_eq!(pi.visit_count_local, 1);
    assert_eq!(pi.last_visit_date_local, early_time);
    assert_eq!(pi.visit_count_remote, 2);
    assert_eq!(pi.last_visit_date_remote, late_time);

    // Delete the earliest remote  visit.
    conn.store.forget_visit(rid3);
    pi = conn.page(&url).expect("should have the page");
    assert_eq!(pi.visit_count_local, 1);
    assert_eq!(pi.last_visit_date_local, early_time);
    assert_eq!(pi.visit_count_remote, 1);
    assert_eq!(pi.last_visit_date_remote, late_time);

    // Delete all visits.
    conn.store.forget_visit(rid2);
    conn.store.forget_visit(rid4);
    // The place stays when its visits are dropped one by one - check the
    // values are sane though.
    pi = conn.page(&url).expect("should have the page");
    assert_eq!(pi.visit_count_local, 0);
    assert_eq!(pi.last_visit_date_local, Timestamp(0));
    assert_eq!(pi.visit_count_remote, 0);
    assert_eq!(pi.last_visit_date_remote, Timestamp(0));
}

#[test]
fn test_get_visited() {
    let mut conn = Db::open();

    let unicode_in_path = "http://www.example.com/tëst😀abc";
    let escaped_unicode_in_path = "http://www.example.com/t%C3%ABst%F0%9F%98%80abc";

    let unicode_in_domain = "http://www.exämple😀123.com";
    let escaped_unicode_in_domain = "http://www.xn--exmple123-w2a24222l.com";

    let to_add = [
        "https://www.example.com/1".to_string(),
        "https://www.example.com/12".to_string(),
        "https://www.example.com/123".to_string(),
        "https://www.example.com/1234".to_string(),
        "https://www.mozilla.com".to_string(),
        "https://www.firefox.com".to_string(),
        unicode_in_path.to_string() + "/1",
        escaped_unicode_in_path.to_string() + "/2",
        unicode_in_domain.to_string() + "/1",
        escaped_unicode_in_domain.to_string() + "/2",
    ];

    for item in &to_add {
        conn.observe(ob(&Url::parse(item).unwrap()).with_visit_type(Some(VisitType::Link)));
    }

    let to_search = [
        ("https://www.example.com".to_string(), false),
        ("https://www.example.com/1".to_string(), true),
        ("https://www.example.com/12".to_string(), true),
        ("https://www.example.com/123".to_string(), true),
        ("https://www.example.com/1234".to_string(), true),
        ("https://www.example.com/12345".to_string(), false),
        ("https://www.mozilla.com".to_string(), true),
        ("https://www.firefox.com".to_string(), true),
        ("https://www.mozilla.org".to_string(), false),
        // dupes should still work!
        ("https://www.example.com/1234".to_string(), true),
        ("https://www.example.com/12345".to_string(), false),
        // The unicode URLs should work when escaped the way we
        // encountered them
        (unicode_in_path.to_string() + "/1", true),
        (escaped_unicode_in_path.to_string() + "/2", true),
        (unicode_in_domain.to_string() + "/1", true),
        (escaped_unicode_in_domain.to_string() + "/2", true),
        // But also the other way.
        (unicode_in_path.to_string() + "/2", true),
        (escaped_unicode_in_path.to_string() + "/1", true),
        (unicode_in_domain.to_string() + "/2", true),
        (escaped_unicode_in_domain.to_string() + "/1", true),
    ];

    let urls = to_search
        .iter()
        .map(|(url, _expect)| Url::parse(url).unwrap().to_string())
        .collect::<Vec<_>>();

    let visited = get_visited(&conn.store, &urls);

    assert_eq!(visited.len(), to_search.len());

    for (i, &did_see) in visited.iter().enumerate() {
        assert_eq!(
            did_see, to_search[i].1,
            "Wrong value in get_visited for '{}' (idx {}), want {}, have {}",
            to_search[i].0,
            i, // idx is logged because some things are repeated
            to_search[i].1,
            did_see
        );
    }
}

#[test]
fn test_get_visited_into() {
    let mut conn = Db::open();

    let u0 = Url::parse("https://www.example.com/1").unwrap();
    let u1 = Url::parse("https://www.example.com/12").unwrap();
    let u2 = Url::parse("https://www.example.com/123").unwrap();
    let u3 = Url::parse("https://www.example.com/1234").unwrap();
    let u4 = Url::parse("https://www.example.com/12345").unwrap();

    let to_add = [(&u0, false), (&u1, false), (&u2, false), (&u3, true)];
    for (item, is_remote) in to_add {
        conn.observe(
            ob(item).with_visit_type(Some(VisitType::Link)).with_is_remote(Some(is_remote)),
        );
    }
    // Bookmarked, so exists in the store;
    // but doesn't have a last visit time, so shouldn't be visited.
    conn.bookmark(&u4);

    let mut results = vec![false; 12];

    let get_visited_request = vec![
        // 0 blank
        (2, u1.to_string()),
        (1, u0.to_string()),
        // 3 blank
        (4, u2.to_string()),
        // 5 blank
        // Note: url for 6 is not visited.
        (6, Url::parse("https://www.example.com/123456").unwrap().to_string()),
        // 7 blank
        // Note: dupe is allowed
        (8, u1.to_string()),
        // 9 is blank
        (10, u3.to_string()),
        (11, u4.to_string()),
    ];

    get_visited_into(&conn.store, &get_visited_request, &mut results);
    let expect = [
        false, // 0
        true,  // 1
        true,  // 2
        false, // 3
        true,  // 4
        false, // 5
        false, // 6
        false, // 7
        true,  // 8
        false, // 9
        true,  // 10
        false, // 11
    ];

    assert_eq!(expect.to_vec(), results);
}

#[test]
fn test_delete_visited() {
    let mut conn = Db::open();
    let late = Timestamp(NOW);
    let early = Timestamp(NOW - 30_000);
    let url1 = Url::parse("https://www.example.com/1").unwrap();
    let url2 = Url::parse("https://www.example.com/2").unwrap();
    let url3 = Url::parse("https://www.example.com/3").unwrap();
    let url4 = Url::parse("https://www.example.com/4").unwrap();
    // (url, when)
    let to_add = [
        // 2 visits to "https://www.example.com/1", one early, one late.
        (&url1, early),
        (&url1, late),
        // One to url2, only late.
        (&url2, late),
        // One to url2, only early.
        (&url3, early),
        // One to url4, only late - this will have SyncStatus::Normal
        (&url4, late),
    ];

    for &(url, when) in &to_add {
        conn.observe(ob(url).with_at(Some(when)).with_visit_type(Some(VisitType::Link)));
    }
    // Check we added what we think we did.
    let pi = conn.page(&url1).expect("should get the page");
    assert_eq!(pi.visit_count_local, 2);

    let pi2 = conn.page(&url2).expect("should get the page");
    assert_eq!(pi2.visit_count_local, 1);

    let pi3 = conn.page(&url3).expect("should get the page");
    assert_eq!(pi3.visit_count_local, 1);

    let pi4 = conn.page(&url4).expect("should get the page");
    assert_eq!(pi4.visit_count_local, 1);

    conn.mark_synced(&url4);

    // Delete some.
    delete_visits_between(&mut conn.store, late, Timestamp(NOW + 1), Timestamp(NOW + 1));
    // should have removed one of the visits to /1
    let pi = conn.page(&url1).expect("should get the page");
    assert_eq!(pi.visit_count_local, 1);

    // should have removed all the visits to /2
    assert!(conn.page(&url2).is_none());

    // Should still have the 1 visit to /3
    let pi3 = conn.page(&url3).expect("should get the page");
    assert_eq!(pi3.visit_count_local, 1);

    // should have removed all the visits to /4
    assert!(conn.page(&url4).is_none());
    // should be a tombstone for url4 and no others.
    assert_eq!(conn.tombstone_count(), 1);
}

#[test]
fn test_change_counter() {
    let mut conn = Db::open();
    let mut pi = conn.get_observed_page("http://example.com");
    let url = Url::parse(&pi.url).unwrap();
    // A new observation with just a title (ie, no visit) should update it.
    conn.observe(ob(&url).with_title(Some("new title".into())));
    pi = conn.page(&url).expect("page should exist");
    assert_eq!(pi.title, "new title");
    assert_eq!(pi.preview_image_url, None);
    assert_eq!(pi.sync_change_counter, 2);
    // An observation with just a preview_image_url should not update it.
    conn.observe(ob(&url).with_preview_image_url(Some(
        Url::parse("https://www.example.com/preview.png").unwrap().to_string(),
    )));
    pi = conn.page(&url).expect("page should exist");
    assert_eq!(pi.title, "new title");
    assert_eq!(
        pi.preview_image_url,
        Some(Url::parse("https://www.example.com/preview.png").expect("parsed").to_string())
    );
    assert_eq!(pi.sync_change_counter, 2);
}

#[test]
fn test_status_columns() {
    let mut conn = Db::open();
    // A page with "normal" and a change counter.
    let mut pi = conn.get_observed_page("http://example.com/1");
    assert_eq!(pi.sync_change_counter, 1);
    conn.store.set_frecency(pi.row_id, 100).unwrap();
    // A page with "new" and no change counter.
    let mut pi2 = conn.get_observed_page("http://example.com/2");
    conn.store.set_sync_state(pi2.row_id, SyncStatus::New, 0).unwrap();
    conn.store.set_frecency(pi2.row_id, 50).unwrap();

    // A second page with "new", a change counter (which will be ignored
    // as we will limit such that this isn't sent) and a low frecency.
    let mut pi3 = conn.get_observed_page("http://example.com/3");
    conn.store.set_sync_state(pi3.row_id, SyncStatus::New, 1).unwrap();
    conn.store.set_frecency(pi3.row_id, 10).unwrap();

    let outgoing = fetch_outgoing(&mut conn.store, 2, 3);
    assert_eq!(outgoing.len(), 2, "should have restricted to the limit");
    // want pi or pi2
    assert!(outgoing[0].envelope.id != outgoing[1].envelope.id);
    assert!(outgoing[0].envelope.id == pi.guid || outgoing[0].envelope.id == pi2.guid);
    assert!(outgoing[1].envelope.id == pi.guid || outgoing[1].envelope.id == pi2.guid);
    finish_outgoing(&mut conn.store);

    pi = conn.page(&Url::parse(&pi.url).unwrap()).expect("page should exist");
    assert_eq!(pi.sync_change_counter, 0);
    pi2 = conn.page(&Url::parse(&pi2.url).unwrap()).expect("page should exist");
    assert_eq!(pi2.sync_change_counter, 0);
    assert_eq!(pi2.sync_status, SyncStatus::Normal);

    // pi3 wasn't uploaded, but it should still have been changed to
    // Normal and had the change counter reset.
    pi3 = conn.page(&Url::parse(&pi3.url).unwrap()).expect("page should exist");
    assert_eq!(pi3.sync_change_counter, 0);
    assert_eq!(pi3.sync_status, SyncStatus::Normal);
}

#[test]
fn test_delete_visits_for() {
    let mut db = Db::open();

    struct TestPage {
        href: &'static str,
        synced: bool,
        bookmark_title: Option<&'static str>,
        keyword: Option<&'static str>,
    }

    fn page_has_tombstone(conn: &Db, guid: &str) -> bool {
        conn.store.has_place_tombstone(guid)
    }

    fn page_has_visit_tombstones(conn: &Db, page_id: RowId) -> bool {
        conn.store.visit_tombstones().iter().any(|t| t.place_id == page_id.0)
    }

    let pages = &[
        // A is synced and has a bookmark, so we should insert tombstones
        // for all its visits.
        TestPage {
            href: "http://example.com/a",
            synced: true,
            bookmark_title: Some("A"),
            keyword: None,
        },
        // B is synced but only has visits, so we should insert a tombstone
        // for the page.
        TestPage {
            href: "http://example.com/b",
            synced: true,
            bookmark_title: None,
            keyword: None,
        },
        // C isn't synced but has a keyword, so we should delete all its
        // visits, but not the page.
        TestPage {
            href: "http://example.com/c",
            synced: false,
            bookmark_title: None,
            keyword: Some("one"),
        },
        // D isn't synced and only has visits, so we should delete it
        // entirely.
        TestPage {
            href: "http://example.com/d",
            synced: false,
            bookmark_title: None,
            keyword: None,
        },
    ];
    for page in pages {
        let url = Url::parse(page.href).unwrap();
        let obs = ob(&url).with_visit_type(Some(VisitType::Link)).with_at(Some(Timestamp(NOW)));
        db.observe(obs);

        if page.synced {
            db.mark_synced(&url);
        }

        if page.bookmark_title.is_some() {
            db.bookmark(&url);
        }

        if page.keyword.is_some() {
            // A keyword points at the place as a bookmark does.
            db.bookmark(&url);
        }

        // Now delete all visits.
        let (info, _) = fetch_visits(&db.store, url.as_str(), 0)
            .expect("Should return visits for test page");
        delete_visits_for(&mut db.store, &info.guid);

        match (page.synced, page.bookmark_title.is_some() || page.keyword.is_some()) {
            (true, true) => {
                let (_, visits) = fetch_visits(&db.store, url.as_str(), 0)
                    .expect("Shouldn't delete synced page with foreign count");
                assert!(
                    visits.is_empty(),
                    "Should delete all visits from synced page with foreign count"
                );
                assert!(
                    !page_has_tombstone(&db, &info.guid),
                    "Shouldn't insert tombstone for synced page with foreign count"
                );
                assert!(
                    page_has_visit_tombstones(&db, info.row_id),
                    "Should insert visit tombstones for synced page with foreign count"
                );
            }
            (true, false) => {
                assert!(
                    fetch_visits(&db.store, url.as_str(), 0).is_none(),
                    "Should delete synced page"
                );
                assert!(
                    page_has_tombstone(&db, &info.guid),
                    "Should insert tombstone for synced page"
                );
                assert!(
                    !page_has_visit_tombstones(&db, info.row_id),
                    "Shouldn't insert visit tombstones for synced page"
                );
            }
            (false, true) => {
                let (_, visits) = fetch_visits(&db.store, url.as_str(), 0)
                    .expect("Shouldn't delete page with foreign count");
                assert!(
                    visits.is_empty(),
                    "Should delete all visits from page with foreign count"
                );
                assert!(
                    !page_has_tombstone(&db, &info.guid),
                    "Shouldn't insert tombstone for page with foreign count"
                );
                assert!(
                    !page_has_visit_tombstones(&db, info.row_id),
                    "Shouldn't insert visit tombstones for page with foreign count"
                );
            }
            (false, false) => {
                assert!(fetch_visits(&db.store, url.as_str(), 0).is_none(), "Should delete page");
                assert!(
                    !page_has_tombstone(&db, &info.guid),
                    "Shouldn't insert tombstone for page"
                );
                assert!(
                    !page_has_visit_tombstones(&db, info.row_id),
                    "Shouldn't insert visit tombstones for page"
                );
            }
        }
    }
}

#[test]
fn test_tombstones() {
    let mut db = Db::open();
    let url = Url::parse("https://example.com").unwrap();
    let obs = ob(&url).with_visit_type(Some(VisitType::Link)).with_at(Some(Timestamp(NOW)));
    db.observe(obs);
    let guid = url_to_guid(&db.store, url.as_str()).expect("should exist");

    delete_visits_for(&mut db.store, &guid);

    // status was "New", so expect no tombstone.
    assert_eq!(db.tombstone_count(), 0);

    let obs = ob(&url).with_visit_type(Some(VisitType::Link)).with_at(Some(Timestamp(NOW)));
    db.observe(obs);
    let new_guid = url_to_guid(&db.store, url.as_str()).expect("should exist");

    // Set the status to normal
    db.mark_synced(&url);
    delete_visits_for(&mut db.store, &new_guid);
    assert_eq!(db.tombstone_count(), 1);
}

#[test]
fn test_reset() {
    let mut conn = Db::open();

    // Add Sync metadata keys, to ensure they're reset.
    reset(
        &mut conn.store,
        &EngineSyncAssociation::Connected(CollSyncIds {
            global: "syncAAAAAAAA".into(),
            coll: "syncBBBBBBBB".into(),
        }),
    );
    conn.store.set_last_sync(12345);

    // Delete everything first, to ensure we keep the high-water mark.
    delete_everything(&mut conn.store, Timestamp(NOW));

    let mut pi = conn.get_observed_page("http://example.com");
    let url = Url::parse(&pi.url).unwrap();
    conn.mark_all_as_synced();
    pi = conn.page(&url).expect("page should exist");
    assert_eq!(pi.sync_change_counter, 1);
    assert_eq!(pi.sync_status, SyncStatus::Normal);

    let sync_ids = CollSyncIds { global: "globalAAAAAA".into(), coll: "collBBBBBBBB".into() };
    reset(
        &mut conn.store,
        &EngineSyncAssociation::Connected(CollSyncIds {
            global: sync_ids.global.clone(),
            coll: sync_ids.coll.clone(),
        }),
    );

    assert_eq!(conn.store.global_sync_id(), &Some(sync_ids.global));
    assert_eq!(conn.store.collection_sync_id(), &Some(sync_ids.coll));
    assert_eq!(conn.store.last_sync(), 0);
    assert!(conn.store.deletion_high_water_mark().0 > 0);

    pi = conn.page(&url).expect("page should exist");
    assert_eq!(pi.sync_change_counter, 0);
    assert_eq!(pi.sync_status, SyncStatus::New);
    // Ensure we are going to do a full re-upload after a reset.
    let outgoing = fetch_outgoing(&mut conn.store, 100, 100);
    assert_eq!(outgoing.len(), 1);

    conn.mark_all_as_synced();
    assert!(fetch_outgoing(&mut conn.store, 100, 100).is_empty());
    // ...

    // Now simulate a reset on disconnect, and verify we've removed all Sync
    // metadata again.
    reset(&mut conn.store, &EngineSyncAssociation::Disconnected);

    assert_eq!(conn.store.global_sync_id(), &None);
    assert_eq!(conn.store.collection_sync_id(), &None);
    assert_eq!(conn.store.last_sync(), 0);
    assert!(conn.store.deletion_high_water_mark().0 > 0);
}

#[test]
fn test_fetch_visits() {
    let mut conn = Db::open();
    let pi = conn.get_observed_page("http://example.com/1");
    assert_eq!(fetch_visits(&conn.store, &pi.url, 0).unwrap().1.len(), 0);
    assert_eq!(fetch_visits(&conn.store, &pi.url, 1).unwrap().1.len(), 1);
}

#[test]
fn test_apply_synced_reconciliation() {
    let mut conn = Db::open();
    let mut pi = conn.get_observed_page("http://example.com/1");
    assert_eq!(pi.sync_status, SyncStatus::New);
    assert_eq!(pi.sync_change_counter, 1);
    apply_synced_reconciliation(&mut conn.store, &pi.guid);
    pi = conn.page(&Url::parse(&pi.url).unwrap()).expect("page should exist");
    assert_eq!(pi.sync_status, SyncStatus::Normal);
    assert_eq!(pi.sync_change_counter, 0);
}

#[test]
fn test_apply_synced_deletion_new() {
    let mut conn = Db::open();
    let pi = conn.get_observed_page("http://example.com/1");
    assert_eq!(pi.sync_status, SyncStatus::New);
    apply_synced_deletion(&mut conn.store, &pi.guid);
    assert!(conn.page(&Url::parse(&pi.url).unwrap()).is_none(), "should have been deleted");
    assert_eq!(conn.tombstone_count(), 0, "should be no tombstones");
}

#[test]
fn test_apply_synced_deletion_normal() {
    let mut conn = Db::open();
    let pi = conn.get_observed_page("http://example.com/1");
    assert_eq!(pi.sync_status, SyncStatus::New);
    conn.mark_all_as_synced();

    apply_synced_deletion(&mut conn.store, &pi.guid);
    assert!(conn.page(&Url::parse(&pi.url).unwrap()).is_none(), "should have been deleted");
    assert_eq!(conn.tombstone_count(), 0, "should be no tombstones");
}

#[test]
fn test_apply_synced_deletions_deletes_visits_but_not_page_if_bookmark_exists() {
    let mut conn = Db::open();
    let pi = conn.get_observed_page("http://example.com/1");
    let url = Url::parse(&pi.url).unwrap();
    conn.bookmark(&url);
    apply_synced_deletion(&mut conn.store, &pi.guid);
    let page_info = fetch_page_info(&conn.store, url.as_str())
        .expect("The places entry should have remained");
    assert!(page_info.last_visit_id.is_none(), "Should have no more visits");
}

fn assert_tombstones(c: &Db, expected: &[(RowId, Timestamp)]) {
    let mut expected: Vec<(RowId, Timestamp)> = expected.into();
    expected.sort();
    let mut tombstones: Vec<(RowId, Timestamp)> = c
        .store
        .visit_tombstones()
        .iter()
        .map(|t: &VisitTombstone| (RowId(t.place_id), Timestamp(t.visit_date)))
        .collect();
    tombstones.sort();
    assert_eq!(expected, tombstones);
}

#[test]
fn test_visit_tombstones() {
    let mut conn = Db::open();
    let now = Timestamp(NOW);

    let urls = &[
        Url::parse("http://example.com/1").unwrap(),
        Url::parse("http://example.com/2").unwrap(),
    ];

    let dates = &[Timestamp(now.0 - 10000), Timestamp(now.0 - 5000), Timestamp(now.0)];
    for url in urls {
        for &date in dates {
            conn.get_custom_observed_page(url.as_str(), |o| o.with_at(Some(date)));
        }
    }
    delete_place_visit_at_time(&mut conn.store, urls[0].as_str(), dates[1], now);
    // Delete the most recent visit.
    delete_visits_between(&mut conn.store, Timestamp(now.0 - 4000), Timestamp(NOW + 1), now);

    let (info0, visits0) = fetch_visits(&conn.store, urls[0].as_str(), 100).unwrap();
    assert_eq!(
        visits0,
        &[FetchedVisit {
            is_local: true,
            visit_date: dates[0],
            visit_type: Some(VisitType::Link)
        },]
    );

    assert!(!visits0.iter().any(|v| v.visit_date == dates[1]), "Shouldn't have deleted visit");

    let (info1, mut visits1) = fetch_visits(&conn.store, urls[1].as_str(), 100).unwrap();
    visits1.sort_by_key(|v| v.visit_date);
    // Shouldn't have most recent visit, but should still have the dates[1]
    // visit, which should be uneffected.
    assert_eq!(
        visits1,
        &[
            FetchedVisit {
                is_local: true,
                visit_date: dates[0],
                visit_type: Some(VisitType::Link)
            },
            FetchedVisit {
                is_local: true,
                visit_date: dates[1],
                visit_type: Some(VisitType::Link)
            },
        ]
    );

    // Make sure syncing doesn't resurrect them.
    apply_synced_visits(
        &mut conn.store,
        &info0.guid,
        &info0.url,
        &Some(info0.title.clone()),
        // Ignore dates[0] since we know it's present.
        &dates.iter().map(|&d| link_record(d)).collect::<Vec<_>>(),
        &None,
        now,
    )
    .unwrap();

    let (info0, visits0) = fetch_visits(&conn.store, urls[0].as_str(), 100).unwrap();
    assert_eq!(
        visits0,
        &[FetchedVisit {
            is_local: true,
            visit_date: dates[0],
            visit_type: Some(VisitType::Link)
        }]
    );

    assert_tombstones(
        &conn,
        &[(info0.row_id, dates[1]), (info0.row_id, dates[2]), (info1.row_id, dates[2])],
    );

    // Delete the last visit from info0. This should delete the page entirely,
    // as well as it's tomebstones.
    delete_place_visit_at_time(&mut conn.store, urls[0].as_str(), dates[0], now);

    assert!(fetch_visits(&conn.store, urls[0].as_str(), 100).is_none());

    assert_tombstones(&conn, &[(info1.row_id, dates[2])]);
}

#[test]
fn test_delete_local() {
    let mut conn = Db::open();
    let ts = NOW - 5_000_000;
    // Add a number of visits across a handful of origins.
    for o in 0..10 {
        for i in 0..11 {
            for t in 0..3 {
                conn.get_custom_observed_page(
                    &format!("http://www.example{}.com/{}", o, i),
                    |obs| obs.with_at(Some(Timestamp(ts + t * 1000 + i * 10_000 + o * 100_000))),
                );
            }
        }
    }
    // Add some bookmarks.
    let b0 = Url::parse("http://www.example3.com/5").unwrap();
    let b1 = Url::parse("http://www.example6.com/10").unwrap();
    let b2 = Url::parse("http://www.example9.com/4").unwrap();
    for url in &[&b0, &b1, &b2] {
        conn.bookmark(url);
    }

    // Make sure tombstone insertions stick.
    conn.mark_all_as_synced();

    // Ensure some various tombstones exist
    let guid = url_to_guid(
        &conn.store,
        Url::parse("http://www.example8.com/5").unwrap().as_str(),
    )
    .unwrap();
    delete_visits_for(&mut conn.store, &guid);

    delete_place_visit_at_time(
        &mut conn.store,
        Url::parse("http://www.example10.com/5").unwrap().as_str(),
        Timestamp(ts + 5 * 10_000 + 10 * 100_000),
        Timestamp(NOW),
    );

    assert!(conn.store.remove_foreign_reference(b0.as_str()));

    delete_everything(&mut conn.store, Timestamp(NOW));

    let mut places: Vec<PageInfo> = conn
        .store
        .places()
        .iter()
        .map(|p| fetch_page_info(&conn.store, &p.url).unwrap().page)
        .collect();
    places.sort_by(|a, b| a.url.cmp(&b.url));
    assert_eq!(places.len(), 2);
    assert_eq!(places[0].url, b1.to_string());
    assert_eq!(places[1].url, b2.to_string());
    for p in &places {
        assert_eq!(p.frecency, FrecencySettings::default().unvisited_bookmark_bonus as i32);
        assert_eq!(p.visit_count_local, 0);
        assert_eq!(p.visit_count_remote, 0);
        assert_eq!(p.last_visit_date_local, Timestamp(0));
        assert_eq!(p.last_visit_date_remote, Timestamp(0));
    }

    let origins: HashSet<String> = conn
        .store
        .places()
        .iter()
        .map(|p| Url::parse(&p.url).unwrap().host_str().unwrap().to_string())
        .collect();
    assert_eq!(0, conn.store.visits().len());
    assert_eq!(2, origins.len());
    assert_eq!(0, conn.store.visit_tombstones().len());
    assert_eq!(0, conn.store.place_tombstones().len());
}

#[test]
fn test_delete_everything() {
    let mut conn = Db::open();
    let start = Timestamp(NOW);

    let urls = &[
        Url::parse("http://example.com/1").unwrap(),
        Url::parse("http://example.com/2").unwrap(),
        Url::parse("http://example.com/3").unwrap(),
    ];

    let dates = &[Timestamp(start.0 - 10000), Timestamp(start.0 - 5000), Timestamp(start.0)];

    for url in urls {
        for &date in dates {
            conn.get_custom_observed_page(url.as_str(), |o| o.with_at(Some(date)));
        }
    }

    conn.bookmark(&urls[2]);

    delete_everything(&mut conn.store, start);

    // Should leave bookmarked URLs alone.
    let remaining_urls: Vec<String> =
        conn.store.places().iter().map(|p| p.url.clone()).collect();
    assert_eq!(remaining_urls, &["http://example.com/3"]);

    assert!(conn.store.remove_foreign_reference(urls[2].as_str()));

    delete_everything(&mut conn.store, Timestamp(start.0 + 50));

    assert_eq!(0, conn.store.visits().len());

    let guid = conn.guid();
    apply_synced_visits(
        &mut conn.store,
        &guid,
        Url::parse("http://www.example.com/123").unwrap().as_str(),
        &None,
        &vec![
            // This should make it in
            link_record(Timestamp(start.0 + 100)),
            // This should not.
            link_record(start),
        ],
        &None,
        Timestamp(start.0 + 100),
    )
    .unwrap();
    assert_eq!(1, conn.store.places().len());
    // Only one visit should be applied.
    assert_eq!(1, conn.store.visits().len());

    // Check that we don't insert a place if all visits are too old.
    let guid = conn.guid();
    apply_synced_visits(
        &mut conn.store,
        &guid,
        Url::parse("http://www.example.com/1234").unwrap().as_str(),
        &None,
        &vec![link_record(start)],
        &None,
        Timestamp(start.0 + 100),
    )
    .unwrap();
    // unchanged.
    assert_eq!(1, conn.store.places().len());
    assert_eq!(1, conn.store.visits().len());
}

#[test]
fn test_delete_everything_deletes_origins() {
    let mut conn = Db::open();

    let u = Url::parse("https://www.reddit.com/r/climbing").expect("Should parse URL");
    let ts = NOW - 5_000_000;
    let obs = ob(&u).with_visit_type(Some(VisitType::Link)).with_at(Some(Timestamp(ts)));
    conn.observe(obs);

    delete_everything(&mut conn.store, Timestamp(NOW));

    // No place is left, so no origin is.
    let origin_count = conn
        .store
        .places()
        .iter()
        .map(|p| Url::parse(&p.url).unwrap().host_str().unwrap().to_string())
        .collect::<HashSet<String>>()
        .len();
    assert_eq!(0, origin_count);
}

#[test]
fn test_apply_observation_updates_origins() {
    let mut conn = Db::open();

    let obs_for_a = ob(&Url::parse("https://example1.com/a").expect("Should parse URL A"))
        .with_visit_type(Some(VisitType::Link))
        .with_at(Some(Timestamp(NOW - 5_000_000)));
    conn.observe(obs_for_a);

    let obs_for_b = ob(&Url::parse("https://example2.com/b").expect("Should parse URL B"))
        .with_visit_type(Some(VisitType::Link))
        .with_at(Some(Timestamp(NOW - 2_500_000)));
    conn.observe(obs_for_b);

    let mut origins = conn
        .store
        .places()
        .iter()
        .map(|p| Url::parse(&p.url).unwrap().host_str().unwrap().to_string())
        .collect::<Vec<_>>();
    origins.sort();
    assert_eq!(origins, &["example1.com", "example2.com",]);
    let none = VisitTransitionSet::empty();
    assert_eq!(get_visit_count_for_host(&conn.store, "example1.com", Timestamp(NOW), none), 1);
    assert_eq!(get_visit_count_for_host(&conn.store, "example2.com", Timestamp(NOW), none), 1);
}

#[test]
fn test_preview_url() {
    let mut conn = Db::open();

    let url1 = Url::parse("https://www.example.com/").unwrap();
    // Can observe preview url without an associated visit.
    assert!(conn
        .observe(ob(&url1).with_preview_image_url(Some(
            Url::parse("https://www.example.com/image.png").unwrap().to_string()
        )))
        .is_none());

    // We don't get a visit id back above, so just assume an id of the corresponding place.
    let mut db_preview_url = conn
        .store
        .places()
        .iter()
        .find(|p| p.row_id == RowId(1))
        .unwrap()
        .preview_image_url
        .clone();
    assert_eq!(Some("https://www.example.com/image.png".to_string()), db_preview_url);

    // Observing a visit afterwards doesn't erase a preview url.
    let visit_id = conn.observe(ob(&url1).with_visit_type(Some(VisitType::Link)));
    assert!(visit_id.is_some());

    let preview_of_visit = |conn: &Db, id: RowId| -> Option<String> {
        let visit = conn.store.visits().iter().find(|v| v.id == id).unwrap();
        conn.store
            .places()
            .iter()
            .find(|p| p.row_id == visit.place_id)
            .unwrap()
            .preview_image_url
            .clone()
    };
    db_preview_url = preview_of_visit(&conn, visit_id.unwrap());
    assert_eq!(Some("https://www.example.com/image.png".to_string()), db_preview_url);

    // Can observe a preview image url as part of a visit observation.
    let another_visit_id = conn.observe(
        ob(&Url::parse("https://www.example.com/another/").unwrap())
            .with_preview_image_url(Some(
                Url::parse("https://www.example.com/funky/image.png").unwrap().to_string(),
            ))
            .with_visit_type(Some(VisitType::Link)),
    );
    assert!(another_visit_id.is_some());

    db_preview_url = preview_of_visit(&conn, another_visit_id.unwrap());
    assert_eq!(Some("https://www.example.com/funky/image.png".to_string()), db_preview_url);
}

#[test]
fn test_long_strings() {
    let mut conn = Db::open();
    let mut url = "http://www.example.com".to_string();
    while url.len() < URL_LENGTH_MAX {
        url += "/garbage";
    }
    let maybe_row = conn.observe(
        ob(&Url::parse(&url).unwrap())
            .with_visit_type(Some(VisitType::Link))
            .with_at(Some(Timestamp(NOW))),
    );
    assert!(maybe_row.is_none(), "Shouldn't insert overlong URL");

    let maybe_row_preview = conn.observe(
        ob(&Url::parse("https://www.example.com/").unwrap())
            .with_visit_type(Some(VisitType::Link))
            .with_preview_image_url(Some(Url::parse(&url).unwrap().to_string())),
    );
    assert!(
        maybe_row_preview.is_some(),
        "Shouldn't avoid a visit observation due to an overly long preview url"
    );

    let mut title = "example 1 2 3".to_string();
    // Make sure whatever we use here surpasses the length.
    while title.len() < TITLE_LENGTH_MAX + 10 {
        title += " test test";
    }
    let maybe_visit_row = conn.observe(
        ob(&Url::parse("http://www.example.com/123").unwrap())
            .with_title(Some(title.clone()))
            .with_visit_type(Some(VisitType::Link))
            .with_at(Some(Timestamp(NOW))),
    );

    assert!(maybe_visit_row.is_some());
    let visit =
        conn.store.visits().iter().find(|v| Some(v.id) == maybe_visit_row).unwrap();
    let db_title: String =
        conn.store.places().iter().find(|p| p.row_id == visit.place_id).unwrap().title.clone();
    // Ensure what we get back the trimmed title.
    assert_eq!(db_title.len(), TITLE_LENGTH_MAX);
    assert!(title.starts_with(&db_title));
}

#[test]
fn test_get_visit_page_with_bound() {
    let mut conn = Db::open();
    let now_u64 = NOW;
    let now_i64 = NOW as i64;
    // (url, title, when, is_remote, (expected_always, expected_only_local)
    let to_add = [
        ("https://www.example.com/0", "older 2", now_u64 - 200_200, false, (true, false)),
        ("https://www.example.com/1", "older 1", now_u64 - 200_100, true, (true, false)),
        ("https://www.example.com/2", "same time", now_u64 - 200_000, false, (true, false)),
        ("https://www.example.com/3", "same time", now_u64 - 200_000, false, (true, false)),
        ("https://www.example.com/4", "same time", now_u64 - 200_000, false, (true, false)),
        ("https://www.example.com/5", "same time", now_u64 - 200_000, false, (true, false)),
        ("https://www.example.com/6", "same time", now_u64 - 200_000, false, (true, false)),
        ("https://www.example.com/7", "same time", now_u64 - 200_000, false, (true, false)),
        ("https://www.example.com/8", "same time", now_u64 - 200_000, false, (true, false)),
        ("https://www.example.com/9", "same time", now_u64 - 200_000, false, (true, false)),
        ("https://www.example.com/10", "more recent 2", now_u64 - 199_000, false, (true, false)),
        ("https://www.example.com/11", "more recent 1", now_u64 - 198_000, false, (true, false)),
    ];

    for &(url, title, when, remote, _) in &to_add {
        conn.observe(
            ob(&Url::parse(url).unwrap())
                .with_title(Some(title.to_owned()))
                .with_at(Some(Timestamp(when)))
                .with_is_remote(Some(remote))
                .with_visit_type(Some(VisitType::Link)),
        );
    }

    // test when offset fall on a point where visited_date changes
    let infos_with_bound = get_visit_page_with_bound(
        &conn.store,
        now_i64 - 200_000,
        8,
        2,
        VisitTransitionSet::empty(),
    );
    let infos = infos_with_bound.infos;
    assert_eq!(infos[0].title.as_ref().unwrap().as_str(), "older 1",);
    assert!(infos[0].is_remote); // "older 1" is remote
    assert_eq!(infos[1].title.as_ref().unwrap().as_str(), "older 2",);
    assert!(!infos[1].is_remote); // "older 2" is local
    assert_eq!(infos_with_bound.bound, now_i64 - 200_200,);
    assert_eq!(infos_with_bound.offset, 1,);

    // test when offset fall on one item before visited_date changes
    let infos_with_bound = get_visit_page_with_bound(
        &conn.store,
        now_i64 - 200_000,
        7,
        1,
        VisitTransitionSet::empty(),
    );
    assert_eq!(
        infos_with_bound.infos[0].url,
        Url::parse("https://www.example.com/9").unwrap().to_string(),
    );

    // test when offset fall on one item after visited_date changes
    let infos_with_bound = get_visit_page_with_bound(
        &conn.store,
        now_i64 - 200_000,
        9,
        1,
        VisitTransitionSet::empty(),
    );
    assert_eq!(infos_with_bound.infos[0].title.as_ref().unwrap().as_str(), "older 2",);

    // with a small page length, loop through items that have the same visited date
    let count = 2;
    let mut bound = now_i64 - 199_000;
    let mut offset = 1;
    for _i in 0..4 {
        let infos_with_bound = get_visit_page_with_bound(
            &conn.store,
            bound,
            offset,
            count,
            VisitTransitionSet::empty(),
        );
        assert_eq!(infos_with_bound.infos[0].title.as_ref().unwrap().as_str(), "same time",);
        assert_eq!(infos_with_bound.infos[1].title.as_ref().unwrap().as_str(), "same time",);
        bound = infos_with_bound.bound;
        offset = infos_with_bound.offset;
    }
    // bound and offset should have skipped the 8 items that have the same visited date
    assert_eq!(bound, now_i64 - 200_000,);
    assert_eq!(offset, 8,);

    // when bound is now and offset is zero
    let infos_with_bound =
        get_visit_page_with_bound(&conn.store, now_i64, 0, 2, VisitTransitionSet::empty());
    assert_eq!(infos_with_bound.infos[0].title.as_ref().unwrap().as_str(), "more recent 1",);
    assert_eq!(infos_with_bound.infos[1].title.as_ref().unwrap().as_str(), "more recent 2",);
    assert_eq!(infos_with_bound.bound, now_i64 - 199_000);
    assert_eq!(infos_with_bound.offset, 1);
}

const ONE_DAY: u64 = 60 * 60 * 24 * 1000;
const ONE_MONTH: u64 = 60 * 60 * 24 * 31 * 1000;

/// Test find_normal_visits_to_prune
#[test]
fn test_normal_visit_pruning() {
    let mut conn = Db::open();
    let now = Timestamp(NOW);
    let url = Url::parse("https://mozilla.com/").unwrap();

    // Create 1 visit per day for the last 30 days
    let mut visits: Vec<_> = (0..30)
        .map(|i| {
            conn.observe(
                ob(&url).with_at(now.checked_sub(ONE_DAY * i)).with_visit_type(Some(VisitType::Link)),
            )
            .unwrap()
        })
        .collect();
    // Reverse visits so that they're oldest first
    visits.reverse();

    check_visits_to_prune(
        &conn,
        find_normal_visits_to_prune(&conn.store, 4, now),
        &visits[..4],
    );

    // Only visits older than 7 days should be pruned
    check_visits_to_prune(
        &conn,
        find_normal_visits_to_prune(&conn.store, 30, now),
        &visits[..22],
    );
}

/// Test find_exotic_visits_to_prune
#[test]
fn test_exotic_visit_pruning() {
    let mut conn = Db::open();
    let now = Timestamp(NOW);
    let short_url = Url::parse("https://mozilla.com/").unwrap();
    let long_url = Url::parse(&format!(
        "https://mozilla.com/{}",
        (0..255).map(|_| "x").collect::<String>()
    ))
    .unwrap();

    let visit_with_long_url = conn
        .observe(
            ob(&long_url)
                .with_at(now.checked_sub(ONE_MONTH * 2))
                .with_visit_type(Some(VisitType::Link)),
        )
        .unwrap();

    let visit_for_download = conn
        .observe(
            ob(&short_url)
                .with_at(now.checked_sub(ONE_MONTH * 3))
                .with_visit_type(Some(VisitType::Download)),
        )
        .unwrap();

    // This visit should not be pruned, since it's too recent
    conn.observe(
        ob(&long_url).with_at(now.checked_sub(ONE_MONTH)).with_visit_type(Some(VisitType::Download)),
    )
    .unwrap();

    check_visits_to_prune(
        &conn,
        find_exotic_visits_to_prune(&conn.store, 2, now),
        &[visit_for_download, visit_with_long_url],
    );

    // With limit = 1, it should pick the oldest visit
    check_visits_to_prune(
        &conn,
        find_exotic_visits_to_prune(&conn.store, 1, now),
        &[visit_for_download],
    );

    // If the limit exceeds the number of candidates, it should return as many as it can find
    check_visits_to_prune(
        &conn,
        find_exotic_visits_to_prune(&conn.store, 3, now),
        &[visit_for_download, visit_with_long_url],
    );
}

/// Test that find_visits_to_prune correctly combines find_exotic_visits_to_prune and
/// find_normal_visits_to_prune
#[test]
fn test_visit_pruning() {
    let mut conn = Db::open();
    let now = Timestamp(NOW);
    let short_url = Url::parse("https://mozilla.com/").unwrap();
    let long_url = Url::parse(&format!(
        "https://mozilla.com/{}",
        (0..255).map(|_| "x").collect::<String>()
    ))
    .unwrap();

    // An exotic visit that should be pruned first, even if it's not the oldest
    let excotic_visit = conn
        .observe(
            ob(&long_url)
                .with_at(now.checked_sub(ONE_MONTH * 3))
                .with_visit_type(Some(VisitType::Link)),
        )
        .unwrap();

    // Normal visits that should be pruned after excotic visits
    let old_visit = conn
        .observe(
            ob(&short_url)
                .with_at(now.checked_sub(ONE_MONTH * 4))
                .with_visit_type(Some(VisitType::Link)),
        )
        .unwrap();
    let really_old_visit = conn
        .observe(
            ob(&short_url)
                .with_at(now.checked_sub(ONE_MONTH * 12))
                .with_visit_type(Some(VisitType::Link)),
        )
        .unwrap();

    // Newer visit that's too new to be pruned
    conn.observe(
        ob(&short_url).with_at(now.checked_sub(100_000)).with_visit_type(Some(VisitType::Link)),
    )
    .unwrap();

    check_visits_to_prune(
        &conn,
        find_visits_to_prune(&conn.store, 2, now),
        &[excotic_visit, really_old_visit],
    );

    check_visits_to_prune(
        &conn,
        find_visits_to_prune(&conn.store, 10, now),
        &[excotic_visit, really_old_visit, old_visit],
    );
}

fn check_visits_to_prune(db: &Db, visits_to_delete: Vec<VisitToDelete>, correct_visits: &[RowId]) {
    assert_eq!(
        correct_visits.iter().collect::<HashSet<_>>(),
        visits_to_delete.iter().map(|v| &v.visit_id).collect::<HashSet<_>>()
    );

    let correct_place_ids: HashSet<RowId> = correct_visits
        .iter()
        .map(|vid| db.store.visits().iter().find(|v| v.id == *vid).unwrap().place_id)
        .collect();
    assert_eq!(
        correct_place_ids,
        visits_to_delete.iter().map(|v| v.page_id).collect::<HashSet<_>>()
    );
}

#[test]
fn test_get_visit_count_for_host() {
    let mut conn = Db::open();
    let start_timestamp = Timestamp(NOW);
    let to_add = [
        ("http://example.com/0", start_timestamp.0 - 200_200, VisitType::Link),
        ("http://example.com/1", start_timestamp.0 - 200_100, VisitType::Link),
        ("https://example.com/0", start_timestamp.0 - 200_000, VisitType::Link),
        ("https://example1.com/0", start_timestamp.0 - 100_600, VisitType::Link),
        ("https://example1.com/0", start_timestamp.0 - 100_500, VisitType::Reload),
        ("https://example1.com/1", start_timestamp.0 - 100_400, VisitType::Link),
        ("https://example.com/2", start_timestamp.0 - 100_300, VisitType::Link),
        ("https://example.com/1", start_timestamp.0 - 100_200, VisitType::Link),
        ("https://example.com/0", start_timestamp.0 - 100_100, VisitType::Link),
    ];

    for &(url, when, visit_type) in &to_add {
        conn.observe(
            ob(&Url::parse(url).unwrap())
                .with_at(Some(Timestamp(when)))
                .with_visit_type(Some(visit_type)),
        )
        .unwrap();
    }

    assert_eq!(
        get_visit_count_for_host(
            &conn.store,
            "example.com",
            Timestamp(start_timestamp.0 - 100_000),
            VisitTransitionSet::for_specific(&[])
        ),
        6
    );
    assert_eq!(
        get_visit_count_for_host(
            &conn.store,
            "example1.com",
            Timestamp(start_timestamp.0 - 100_000),
            VisitTransitionSet::for_specific(&[])
        ),
        3
    );
    assert_eq!(
        get_visit_count_for_host(
            &conn.store,
            "example.com",
            Timestamp(start_timestamp.0 - 200_000),
            VisitTransitionSet::for_specific(&[])
        ),
        2
    );
    assert_eq!(
        get_visit_count_for_host(
            &conn.store,
            "example1.com",
            Timestamp(start_timestamp.0 - 100_500),
            VisitTransitionSet::for_specific(&[])
        ),
        1
    );
    assert_eq!(
        get_visit_count_for_host(
            &conn.store,
            "example1.com",
            Timestamp(start_timestamp.0 - 100_000),
            VisitTransitionSet::for_specific(&[VisitType::Reload])
        ),
        2
    );
}
