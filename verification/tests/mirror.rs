use diana::error::SyncError;
use diana::mirror::{reconcile, reconcile_and_read, ListedRecord};
use diana::models::{MatchDto, MatchInfo, ParticipantDto, TimelineFrame};
use diana::persist::ingest;
use diana::reconcile::ReconcileReport;
use diana::store::CacheStore;

fn participant(puuid: &str) -> ParticipantDto {
    ParticipantDto {
        puuid: puuid.to_string(),
        championName: "Ahri".to_string(),
        kills: 1,
        deaths: 1,
        assists: 1,
        win: true,
        totalMinionsKilled: None,
        neutralMinionsKilled: None,
        goldEarned: 0,
        item0: 0,
        item1: 0,
        item2: 0,
        item3: 0,
        item4: 0,
        item5: 0,
        item6: 0,
        totalDamageDealtToChampions: 0,
        totalDamageTaken: 0,
        visionScore: 0,
        teamPosition: String::new(),
        teamId: 100,
        challenges: None,
        turretTakedowns: 0,
        dragonKills: 0,
        baronKills: 0,
    }
}

fn game(creation: i64) -> MatchDto {
    MatchDto {
        info: MatchInfo {
            gameCreation: creation,
            gameDuration: 1800,
            queueId: 420,
            participants: vec![participant("p-1")],
        },
    }
}

fn frames(n: usize) -> Vec<TimelineFrame> {
    (0..n)
        .map(|i| TimelineFrame {
            timestamp: Some(i as i64),
            participant_frames: "{}".to_string(),
            events: "[]".to_string(),
        })
        .collect()
}

/// A list of `n` records, each with two detail frames, the most recent first.
fn listing(n: usize) -> Vec<ListedRecord> {
    (0..n)
        .map(|i| ListedRecord {
            id: format!("m{}", i),
            body: Some(game(1_000_000 - i as i64)),
            detail: Some(frames(2)),
        })
        .collect()
}

fn held(store: &CacheStore, n: usize) -> Vec<bool> {
    (0..n).map(|i| store.match_exists(&format!("m{}", i))).collect()
}

#[test]
fn a_first_reconciliation_stores_three_of_ten() {
    let mut store = CacheStore::new();
    let report = reconcile(&mut store, "p-1", &listing(10));
    assert_eq!(report, Ok(ReconcileReport { listed: 10, fetched: 3, left_for_later: 7 }));
    assert_eq!(held(&store, 10), vec![true, true, true, false, false, false, false, false, false, false]);
    for mid in 1..=3 {
        assert!(!store.timeline_frame_exists_tx(mid, 0));
    }
}

#[test]
fn later_reconciliations_store_the_rest_with_detail() {
    let mut store = CacheStore::new();
    reconcile(&mut store, "p-1", &listing(10)).unwrap();
    let report = reconcile(&mut store, "p-1", &listing(10));
    assert_eq!(report, Ok(ReconcileReport { listed: 10, fetched: 7, left_for_later: 0 }));
    assert_eq!(held(&store, 10), vec![true; 10]);
    assert!(store.timeline_frame_exists_tx(4, 0));
    assert!(store.timeline_frame_exists_tx(4, 1));
    assert!(store.timeline_frame_exists_tx(10, 1));
    assert!(!store.timeline_frame_exists_tx(3, 0));
    // A third run finds nothing to do.
    let recent = store.get_recent_matches("p-1", 100).unwrap().len();
    let report = reconcile(&mut store, "p-1", &listing(10));
    assert_eq!(report, Ok(ReconcileReport { listed: 10, fetched: 0, left_for_later: 0 }));
    assert_eq!(store.get_recent_matches("p-1", 100).unwrap().len(), recent);
    assert_eq!(ingest(&mut store, "next", "p-1", &game(5), None), Ok(11));
}

#[test]
fn only_the_ten_most_recent_records_are_looked_at() {
    let mut store = CacheStore::new();
    ingest(&mut store, "old", "p-1", &game(1), None).unwrap();
    let report = reconcile(&mut store, "p-1", &listing(14));
    assert_eq!(report, Ok(ReconcileReport { listed: 10, fetched: 10, left_for_later: 0 }));
    assert_eq!(
        held(&store, 14),
        vec![true, true, true, true, true, true, true, true, true, true, false, false, false, false]
    );
}

#[test]
fn an_empty_list_changes_nothing() {
    let mut store = CacheStore::new();
    assert_eq!(
        reconcile(&mut store, "p-1", &Vec::new()),
        Ok(ReconcileReport { listed: 0, fetched: 0, left_for_later: 0 })
    );
    assert_eq!(ingest(&mut store, "first", "p-1", &game(5), None), Ok(1));
}

#[test]
fn a_record_listed_twice_is_fetched_once() {
    let mut store = CacheStore::new();
    ingest(&mut store, "old", "p-1", &game(1), None).unwrap();
    let mut list = listing(3);
    list[2].id = "m0".to_string();
    let report = reconcile(&mut store, "p-1", &list);
    assert_eq!(report, Ok(ReconcileReport { listed: 3, fetched: 2, left_for_later: 0 }));
    assert_eq!(held(&store, 3), vec![true, true, false]);
}

#[test]
fn a_record_that_fails_to_come_ends_the_run_and_keeps_what_was_stored() {
    let mut store = CacheStore::new();
    ingest(&mut store, "old", "p-1", &game(1), None).unwrap();
    let mut list = listing(6);
    list[3].body = None;
    assert_eq!(reconcile(&mut store, "p-1", &list), Err(SyncError::ProviderRequestFailed(Some(3))));
    assert_eq!(held(&store, 6), vec![true, true, true, false, false, false]);
    // Once the provider delivers it, the next run goes on from there.
    assert_eq!(
        reconcile(&mut store, "p-1", &listing(6)),
        Ok(ReconcileReport { listed: 6, fetched: 3, left_for_later: 0 })
    );
    assert_eq!(held(&store, 6), vec![true; 6]);
}

#[test]
fn a_record_without_detail_is_stored_without_frames() {
    let mut store = CacheStore::new();
    ingest(&mut store, "old", "p-1", &game(1), None).unwrap();
    let mut list = listing(2);
    list[0].detail = None;
    list[1].detail = Some(Vec::new());
    assert_eq!(
        reconcile(&mut store, "p-1", &list),
        Ok(ReconcileReport { listed: 2, fetched: 2, left_for_later: 0 })
    );
    assert!(!store.timeline_frame_exists_tx(2, 0));
    assert!(!store.timeline_frame_exists_tx(3, 0));
}

#[test]
fn a_store_in_a_transaction_cannot_be_reconciled() {
    let mut store = CacheStore::new();
    assert!(store.begin());
    assert_eq!(reconcile(&mut store, "p-1", &listing(2)), Err(SyncError::StoreFailure));
    assert_eq!(held(&store, 2), vec![false, false]);
    store.rollback();
    assert!(reconcile(&mut store, "p-1", &listing(2)).is_ok());
}

#[test]
fn reconciling_returns_the_most_recent_records_latest_first() {
    let mut store = CacheStore::new();
    for i in 0..4 {
        ingest(&mut store, &format!("old{}", i), "p-1", &game(10 + i), None).unwrap();
    }
    ingest(&mut store, "other", "p-2", &game(2_000_000), None).unwrap();
    let rows = reconcile_and_read(&mut store, "p-1", &listing(8)).unwrap();
    let ids: Vec<&str> = rows.iter().map(|r| r.matchId.as_str()).collect();
    assert_eq!(ids, vec!["m0", "m1", "m2", "m3", "m4", "m5", "m6", "m7", "old3", "old2"]);
    let mut list = listing(2);
    list[1].body = None;
    let mut fresh = CacheStore::new();
    ingest(&mut fresh, "old", "p-1", &game(1), None).unwrap();
    assert_eq!(
        reconcile_and_read(&mut fresh, "p-1", &list).unwrap_err(),
        SyncError::ProviderRequestFailed(Some(1))
    );
}
