use diana::error::SyncError;
use diana::ingest::{IngestAction, IngestEvent};
use diana::models::{MatchDto, MatchInfo, ParticipantDto, TimelineFrame};
use diana::persist::{answer, ingest};
use diana::store::CacheStore;
use diana::reconcile::{ReconcileAction, ReconcileEvent};
use diana::sync::{SyncAction, SyncEvent, SyncMachine, SyncPhase, SyncReport};

fn participant(puuid: &str, win: bool) -> ParticipantDto {
    ParticipantDto {
        puuid: puuid.to_string(),
        championName: "Ahri".to_string(),
        kills: 1,
        deaths: 1,
        assists: 1,
        win,
        totalMinionsKilled: None,
        neutralMinionsKilled: None,
        goldEarned: 0,
        item0: 0,
        item1: 0,
        item2: 0,
        item3: 0,
        item4: 0,
        item5: 0,
        item6: 0,
        totalDamageDealtToChampions: 0,
        totalDamageTaken: 0,
        visionScore: 0,
        teamPosition: String::new(),
        teamId: 100,
        challenges: None,
        turretTakedowns: 0,
        dragonKills: 0,
        baronKills: 0,
    }
}

fn game(creation: i64) -> MatchDto {
    MatchDto {
        info: MatchInfo {
            gameCreation: creation,
            gameDuration: 1800,
            queueId: 420,
            participants: vec![participant("p-1", true)],
        },
    }
}

/// What a run asked of the provider, and how it ended.
struct Run {
    bodies: Vec<usize>,
    details: Vec<usize>,
    checks: usize,
    outcome: Result<SyncReport, SyncError>,
}

/// A provider that lists `ids` and can deliver every record but those in
/// `broken`, in front of the store given.
fn synchronize(store: &mut CacheStore, ids: &[&str], broken: &[usize], frames_per_record: usize) -> Run {
    let puuid = "p-1";
    let mut run = Run { bodies: Vec::new(), details: Vec::new(), checks: 0, outcome: Err(SyncError::StoreFailure) };
    let (mut machine, mut action) = SyncMachine::begin("euw");
    loop {
        let event = match action {
            SyncAction::Finish(outcome) => {
                run.outcome = outcome;
                return run;
            }
            SyncAction::CheckHealth => SyncEvent::Health(true),
            SyncAction::ResolveAccount => SyncEvent::AccountResolved,
            SyncAction::FetchSummoner => SyncEvent::SummonerFetched,
            SyncAction::FetchRank => SyncEvent::RankFetched(true),
            SyncAction::StoreSnapshot => {
                store.upsert_summoner(puuid, "Name", "TAG", "EUW", Some("GOLD"), Some("II"), Some(50), 1);
                SyncEvent::SnapshotStored
            }
            SyncAction::Reconcile(ask) => SyncEvent::Reconcile(match ask {
                ReconcileAction::QueryLatest => match store.latest_match_for_puuid(puuid) {
                    Ok(latest) => ReconcileEvent::LatestKnown(latest.is_some()),
                    Err(_) => ReconcileEvent::Failed,
                },
                ReconcileAction::ListRecentIds { start, count } => {
                    assert_eq!((start, count), (0, 10));
                    ReconcileEvent::RecentIds(ids.len())
                }
                ReconcileAction::CheckRecord(position) => {
                    run.checks += 1;
                    ReconcileEvent::RecordPresence(store.match_exists(ids[position]))
                }
                ReconcileAction::FetchRecord(position) => {
                    if broken.contains(&position) {
                        ReconcileEvent::Failed
                    } else {
                        run.bodies.push(position);
                        ReconcileEvent::RecordFetched
                    }
                }
                ReconcileAction::FetchDetail(position) => {
                    run.details.push(position);
                    ReconcileEvent::DetailFetched(Some(frames_per_record))
                }
                ReconcileAction::Store(position, step) => {
                    let body = game(1_700_000_000_000 - position as i64);
                    let detail: Vec<TimelineFrame> = (0..frames_per_record)
                        .map(|_| TimelineFrame {
                            timestamp: None,
                            participant_frames: "{}".to_string(),
                            events: "[]".to_string(),
                        })
                        .collect();
                    ReconcileEvent::Store(answer(store, step, ids[position], puuid, &body, Some(&detail)))
                }
                ReconcileAction::Done(_) => unreachable!(),
            }),
            SyncAction::FetchVersion => SyncEvent::VersionFetched,
            SyncAction::QueryRecent { limit } => match store.get_recent_matches(puuid, limit) {
                Ok(rows) => SyncEvent::RecentRecords(rows.len()),
                Err(_) => SyncEvent::Failed,
            },
            SyncAction::Summarize(position) => SyncEvent::Summarized(position % 4 != 3),
            SyncAction::CompileSummary => SyncEvent::SummaryCompiled(true),
            SyncAction::ReconstructProgress => SyncEvent::ProgressReconstructed(true),
        };
        let (next, asked) = machine.step(event);
        machine = next;
        action = asked;
    }
}

const TEN: [&str; 10] = ["m0", "m1", "m2", "m3", "m4", "m5", "m6", "m7", "m8", "m9"];

#[test]
fn a_first_synchronization_fetches_three_bodies_and_no_detail() {
    let mut store = CacheStore::new();
    let run = synchronize(&mut store, &TEN, &[], 2);
    assert_eq!(run.bodies, vec![0, 1, 2]);
    assert!(run.details.is_empty());
    let report = run.outcome.unwrap();
    assert_eq!(report.listed, 10);
    assert_eq!(report.fetched, 3);
    assert_eq!(report.left_for_later, 7);
    assert_eq!(report.summarized, 3);
    assert_eq!(report.not_summarized, 0);
    assert!(report.has_stats);
    assert!(report.has_progress);
    for (position, id) in TEN.iter().enumerate() {
        assert_eq!(store.match_exists(id), position < 3);
    }
    // No frame was stored for any of the three.
    for mid in 1..=3 {
        assert!(!store.timeline_frame_exists_tx(mid, 0));
    }
}

#[test]
fn the_next_synchronization_picks_up_what_the_first_left() {
    let mut store = CacheStore::new();
    synchronize(&mut store, &TEN, &[], 2);
    let run = synchronize(&mut store, &TEN, &[], 2);
    assert_eq!(run.bodies, vec![3, 4, 5, 6, 7, 8, 9]);
    assert_eq!(run.details, vec![3, 4, 5, 6, 7, 8, 9]);
    let report = run.outcome.unwrap();
    assert_eq!(report.fetched, 7);
    assert_eq!(report.left_for_later, 0);
    assert_eq!(report.summarized, 8);
    assert_eq!(report.not_summarized, 2);
    for id in TEN.iter() {
        assert!(store.match_exists(id));
    }
    assert!(store.timeline_frame_exists_tx(4, 0));
    assert!(store.timeline_frame_exists_tx(4, 1));
    assert!(!store.timeline_frame_exists_tx(4, 2));
    assert!(!store.timeline_frame_exists_tx(1, 0));
}

#[test]
fn nothing_is_fetched_when_the_store_holds_every_recent_record() {
    let mut store = CacheStore::new();
    for (position, id) in TEN.iter().enumerate() {
        assert_eq!(ingest(&mut store, id, "p-1", &game(position as i64), None), Ok(position as i64 + 1));
    }
    let run = synchronize(&mut store, &TEN, &[], 2);
    assert!(run.bodies.is_empty());
    assert!(run.details.is_empty());
    assert_eq!(run.checks, 10);
    let report = run.outcome.unwrap();
    assert_eq!(report.fetched, 0);
    assert_eq!(report.left_for_later, 0);
    assert_eq!(report.listed, 10);
}

#[test]
fn records_of_other_players_count_as_held_but_not_as_history() {
    let mut store = CacheStore::new();
    // Another player's synchronization brought in eight of the ten.
    for id in TEN.iter().take(8) {
        ingest(&mut store, id, "p-2", &game(5), None).unwrap();
    }
    let run = synchronize(&mut store, &TEN, &[], 1);
    // The player has no record of his own: a cold start, without detail.
    assert_eq!(run.bodies, vec![8, 9]);
    assert!(run.details.is_empty());
    assert_eq!(run.outcome.unwrap().left_for_later, 0);
}

#[test]
fn a_record_that_fails_to_come_fails_the_synchronization() {
    let mut store = CacheStore::new();
    ingest(&mut store, "old", "p-1", &game(1), None).unwrap();
    let run = synchronize(&mut store, &TEN, &[4], 1);
    assert_eq!(run.bodies, vec![0, 1, 2, 3]);
    assert_eq!(run.outcome, Err(SyncError::ProviderRequestFailed(Some(4))));
    // What was stored before the failure stays and is found by the next run.
    assert!(store.match_exists("m3"));
    assert!(!store.match_exists("m4"));
    let run = synchronize(&mut store, &TEN, &[], 1);
    assert_eq!(run.bodies, vec![4, 5, 6, 7, 8, 9]);
    assert!(run.outcome.is_ok());
}

#[test]
fn an_unsupported_region_fails_before_anything_is_asked() {
    let (machine, action) = SyncMachine::begin("moon");
    assert_eq!(action, SyncAction::Finish(Err(SyncError::RegionUnsupported)));
    assert_eq!(machine.phase, SyncPhase::Finished);
    let (_, action) = machine.step(SyncEvent::Health(true));
    assert_eq!(action, SyncAction::Finish(Err(SyncError::RegionUnsupported)));
    let (_, action) = SyncMachine::begin("EuW1");
    assert_eq!(action, SyncAction::CheckHealth);
}

fn told(events: &[SyncEvent]) -> Vec<SyncAction> {
    let (mut machine, first) = SyncMachine::begin("kr");
    let mut actions = vec![first];
    for e in events {
        let (next, action) = machine.step(*e);
        machine = next;
        actions.push(action);
    }
    actions
}

#[test]
fn a_gateway_that_is_down_is_reported_as_unavailable() {
    assert_eq!(
        told(&[SyncEvent::Health(false)]),
        vec![SyncAction::CheckHealth, SyncAction::Finish(Err(SyncError::ProviderUnavailable))]
    );
    assert_eq!(told(&[SyncEvent::Failed])[1], SyncAction::Finish(Err(SyncError::ProviderUnavailable)));
}

#[test]
fn an_unknown_player_is_reported_as_not_resolvable() {
    let actions = told(&[SyncEvent::Health(true), SyncEvent::AccountUnknown]);
    assert_eq!(actions[1], SyncAction::ResolveAccount);
    assert_eq!(actions[2], SyncAction::Finish(Err(SyncError::IdentityNotResolvable)));
    let actions = told(&[SyncEvent::Health(true), SyncEvent::Failed]);
    assert_eq!(actions[2], SyncAction::Finish(Err(SyncError::ProviderRequestFailed(None))));
}

#[test]
fn a_store_that_fails_is_reported_as_a_store_failure() {
    let actions = told(&[
        SyncEvent::Health(true),
        SyncEvent::AccountResolved,
        SyncEvent::SummonerFetched,
        SyncEvent::RankFetched(false),
        SyncEvent::Failed,
    ]);
    assert_eq!(actions[4], SyncAction::StoreSnapshot);
    assert_eq!(actions[5], SyncAction::Finish(Err(SyncError::StoreFailure)));
}

#[test]
fn a_player_without_matches_goes_straight_to_the_overview() {
    let actions = told(&[
        SyncEvent::Health(true),
        SyncEvent::AccountResolved,
        SyncEvent::SummonerFetched,
        SyncEvent::RankFetched(false),
        SyncEvent::SnapshotStored,
        SyncEvent::Reconcile(ReconcileEvent::LatestKnown(false)),
        SyncEvent::Reconcile(ReconcileEvent::RecentIds(0)),
        SyncEvent::VersionFetched,
        SyncEvent::RecentRecords(0),
        SyncEvent::SummaryCompiled(false),
    ]);
    assert_eq!(
        actions,
        vec![
            SyncAction::CheckHealth,
            SyncAction::ResolveAccount,
            SyncAction::FetchSummoner,
            SyncAction::FetchRank,
            SyncAction::StoreSnapshot,
            SyncAction::Reconcile(ReconcileAction::QueryLatest),
            SyncAction::Reconcile(ReconcileAction::ListRecentIds { start: 0, count: 10 }),
            SyncAction::FetchVersion,
            SyncAction::QueryRecent { limit: 10 },
            SyncAction::CompileSummary,
            SyncAction::Finish(Ok(SyncReport {
                listed: 0,
                fetched: 0,
                left_for_later: 0,
                summarized: 0,
                not_summarized: 0,
                has_stats: false,
                has_progress: false,
            })),
        ]
    );
}

#[test]
fn a_failed_summary_does_not_keep_the_timeline_back() {
    let actions = told(&[
        SyncEvent::Health(true),
        SyncEvent::AccountResolved,
        SyncEvent::SummonerFetched,
        SyncEvent::RankFetched(true),
        SyncEvent::SnapshotStored,
        SyncEvent::Reconcile(ReconcileEvent::LatestKnown(true)),
        SyncEvent::Reconcile(ReconcileEvent::RecentIds(25)),
        SyncEvent::Reconcile(ReconcileEvent::RecordPresence(true)),
    ]);
    // Only the first ten of the ids listed are looked at.
    assert_eq!(actions[7], SyncAction::Reconcile(ReconcileAction::CheckRecord(0)));
    assert_eq!(actions[8], SyncAction::Reconcile(ReconcileAction::CheckRecord(1)));
    let mut events = vec![
        SyncEvent::Health(true),
        SyncEvent::AccountResolved,
        SyncEvent::SummonerFetched,
        SyncEvent::RankFetched(true),
        SyncEvent::SnapshotStored,
        SyncEvent::Reconcile(ReconcileEvent::LatestKnown(true)),
        SyncEvent::Reconcile(ReconcileEvent::RecentIds(2)),
        SyncEvent::Reconcile(ReconcileEvent::RecordPresence(true)),
        SyncEvent::Reconcile(ReconcileEvent::RecordPresence(true)),
        SyncEvent::VersionFetched,
        SyncEvent::RecentRecords(2),
        SyncEvent::Failed,
        SyncEvent::Summarized(true),
        SyncEvent::Failed,
        SyncEvent::Failed,
    ];
    let actions = told(&events);
    assert_eq!(actions[12], SyncAction::Summarize(1));
    assert_eq!(actions[13], SyncAction::CompileSummary);
    assert_eq!(actions[14], SyncAction::ReconstructProgress);
    assert_eq!(
        actions[15],
        SyncAction::Finish(Ok(SyncReport {
            listed: 2,
            fetched: 0,
            left_for_later: 0,
            summarized: 1,
            not_summarized: 1,
            has_stats: false,
            has_progress: false,
        }))
    );
    events.truncate(13);
    events.push(SyncEvent::SummaryCompiled(true));
    events.push(SyncEvent::ProgressReconstructed(true));
    match told(&events)[15] {
        SyncAction::Finish(Ok(report)) => {
            assert!(report.has_stats);
            assert!(report.has_progress);
        }
        other => panic!("unexpected: {:?}", other),
    }
}

#[test]
fn a_record_that_turned_up_in_the_meantime_is_not_fetched() {
    let actions = told(&[
        SyncEvent::Health(true),
        SyncEvent::AccountResolved,
        SyncEvent::SummonerFetched,
        SyncEvent::RankFetched(true),
        SyncEvent::SnapshotStored,
        SyncEvent::Reconcile(ReconcileEvent::LatestKnown(true)),
        SyncEvent::Reconcile(ReconcileEvent::RecentIds(2)),
        SyncEvent::Reconcile(ReconcileEvent::RecordPresence(false)),
        SyncEvent::Reconcile(ReconcileEvent::RecordPresence(false)),
        // Asked once more, the store now holds the first.
        SyncEvent::Reconcile(ReconcileEvent::RecordPresence(true)),
        SyncEvent::Reconcile(ReconcileEvent::RecordPresence(false)),
        SyncEvent::Reconcile(ReconcileEvent::RecordFetched),
        SyncEvent::Reconcile(ReconcileEvent::DetailFetched(None)),
        SyncEvent::Reconcile(ReconcileEvent::Store(IngestEvent::TxOpened)),
        SyncEvent::Reconcile(ReconcileEvent::Store(IngestEvent::RecordInserted(None))),
        SyncEvent::Reconcile(ReconcileEvent::Store(IngestEvent::SurrogateId(Some(3)))),
        SyncEvent::Reconcile(ReconcileEvent::Store(IngestEvent::Committed)),
    ]);
    assert_eq!(actions[9], SyncAction::Reconcile(ReconcileAction::CheckRecord(0)));
    assert_eq!(actions[10], SyncAction::Reconcile(ReconcileAction::CheckRecord(1)));
    assert_eq!(actions[11], SyncAction::Reconcile(ReconcileAction::FetchRecord(1)));
    assert_eq!(actions[12], SyncAction::Reconcile(ReconcileAction::FetchDetail(1)));
    assert_eq!(actions[13], SyncAction::Reconcile(ReconcileAction::Store(1, IngestAction::BeginTx)));
    assert_eq!(actions[14], SyncAction::Reconcile(ReconcileAction::Store(1, IngestAction::InsertRecord)));
    assert_eq!(actions[15], SyncAction::Reconcile(ReconcileAction::Store(1, IngestAction::LookupSurrogateId)));
    assert_eq!(actions[16], SyncAction::Reconcile(ReconcileAction::Store(1, IngestAction::Commit)));
    assert_eq!(actions[17], SyncAction::FetchVersion);
}
