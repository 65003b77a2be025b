use diana::error::SyncError;
use diana::ingest::{IngestAction, IngestEvent, IngestMachine, IngestPhase, MAX_FRAMES};
use diana::models::{MatchDto, MatchInfo, ParticipantDto, TeamsTag, TimelineFrame};
use diana::persist::{answer, ingest, new_match_row};
use diana::store::CacheStore;

fn participant(puuid: &str, champion: &str, kills: i32, deaths: i32, assists: i32, win: bool) -> ParticipantDto {
    ParticipantDto {
        puuid: puuid.to_string(),
        championName: champion.to_string(),
        kills,
        deaths,
        assists,
        win,
        totalMinionsKilled: None,
        neutralMinionsKilled: None,
        goldEarned: 0,
        item0: 0,
        item1: 0,
        item2: 0,
        item3: 0,
        item4: 0,
        item5: 0,
        item6: 0,
        totalDamageDealtToChampions: 0,
        totalDamageTaken: 0,
        visionScore: 0,
        teamPosition: String::new(),
        teamId: 100,
        challenges: None,
        turretTakedowns: 0,
        dragonKills: 0,
        baronKills: 0,
    }
}

fn game(creation: i64, duration: i64, queue: i32, people: Vec<ParticipantDto>) -> MatchDto {
    MatchDto { info: MatchInfo { gameCreation: creation, gameDuration: duration, queueId: queue, participants: people } }
}

fn frames(n: usize) -> Vec<TimelineFrame> {
    (0..n)
        .map(|i| TimelineFrame {
            timestamp: Some(60_000 * i as i64),
            participant_frames: format!("{{\"frame\":{}}}", i),
            events: "[]".to_string(),
        })
        .collect()
}

fn a_game() -> MatchDto {
    game(1_700_000_000_000, 1800, 420, vec![participant("p-1", "Ahri", 5, 2, 7, true)])
}

#[test]
fn a_match_is_stored_under_a_new_surrogate_id() {
    let mut store = CacheStore::new();
    assert!(!store.match_exists("EUW1_1"));
    assert_eq!(store.surrogate_id("EUW1_1"), None);
    let mid = ingest(&mut store, "EUW1_1", "p-1", &a_game(), Some(&frames(3)));
    assert_eq!(mid, Ok(1));
    assert!(store.match_exists("EUW1_1"));
    assert_eq!(store.surrogate_id("EUW1_1"), Some(1));
    assert!(store.timeline_frame_exists_tx(1, 0));
    assert!(store.timeline_frame_exists_tx(1, 1));
    assert!(store.timeline_frame_exists_tx(1, 2));
    assert!(!store.timeline_frame_exists_tx(1, 3));
    assert!(!store.timeline_frame_exists_tx(2, 0));
    let other = ingest(&mut store, "EUW1_2", "p-1", &a_game(), None);
    assert_eq!(other, Ok(2));
    assert!(!store.timeline_frame_exists_tx(2, 0));
}

#[test]
fn ingesting_the_same_match_twice_changes_nothing() {
    let mut store = CacheStore::new();
    let first = ingest(&mut store, "EUW1_1", "p-1", &a_game(), Some(&frames(4)));
    let rows_after_first = store.get_recent_matches("p-1", 100).unwrap();
    let second = ingest(&mut store, "EUW1_1", "p-1", &a_game(), Some(&frames(4)));
    assert_eq!(first, Ok(1));
    assert_eq!(second, first);
    let rows_after_second = store.get_recent_matches("p-1", 100).unwrap();
    assert_eq!(rows_after_first.len(), 1);
    assert_eq!(rows_after_second.len(), 1);
    assert_eq!(rows_after_second[0].mid, 1);
    assert_eq!(rows_after_second[0].matchId, "EUW1_1");
    // No second row was made for any frame: a fresh insert of each index is refused.
    for index in 0..4 {
        assert_eq!(store.insert_timeline_frame_tx(1, "p-1", Some(index), None, "{}", "[]"), Ok(None));
    }
    // The next match gets the next id: the second ingestion used none up.
    assert_eq!(ingest(&mut store, "EUW1_2", "p-1", &a_game(), None), Ok(2));
    // And the next frame the next frame id.
    assert_eq!(store.insert_timeline_frame_tx(2, "p-1", Some(0), None, "{}", "[]"), Ok(Some(5)));
}

#[test]
fn the_first_writer_wins() {
    let mut store = CacheStore::new();
    assert_eq!(ingest(&mut store, "EUW1_1", "p-1", &a_game(), None), Ok(1));
    let later = game(1_800_000_000_000, 60, 450, vec![participant("p-2", "Zed", 0, 9, 0, false)]);
    assert_eq!(ingest(&mut store, "EUW1_1", "p-2", &later, None), Ok(1));
    let rows = store.get_recent_matches("p-1", 10).unwrap();
    assert_eq!(rows.len(), 1);
    assert_eq!(rows[0].gameCreation, 1_700_000_000_000);
    assert_eq!(rows[0].entryPlayerPuuid, "p-1");
    assert!(store.get_recent_matches("p-2", 10).unwrap().is_empty());
}

#[test]
fn ingestion_resumes_at_the_first_missing_frame() {
    let mut store = CacheStore::new();
    // A first run stored the match and its first two frames, and no more.
    assert_eq!(ingest(&mut store, "EUW1_1", "p-1", &a_game(), Some(&frames(2))), Ok(1));
    // The run that follows brings all five frames.
    assert_eq!(ingest(&mut store, "EUW1_1", "p-1", &a_game(), Some(&frames(5))), Ok(1));
    for index in 0..5 {
        assert!(store.timeline_frame_exists_tx(1, index));
    }
    // Frames 0 and 1 kept the ids of the first run; 2, 3 and 4 got the next three.
    assert_eq!(store.insert_timeline_frame_tx(1, "p-1", Some(5), None, "{}", "[]"), Ok(Some(6)));
}

#[test]
fn a_transaction_that_is_rolled_back_leaves_no_trace() {
    let mut store = CacheStore::new();
    assert_eq!(ingest(&mut store, "EUW1_1", "p-1", &a_game(), Some(&frames(1))), Ok(1));
    assert!(store.begin());
    assert!(!store.begin());
    let inserted = store.insert_match_details_tx(
        "EUW1_2",
        "p-1",
        None,
        Some(5),
        None,
        None,
        Some(1800),
        None,
        None,
        Some(420),
        None,
        Vec::new(),
        TeamsTag { queueId: 420 },
    );
    assert_eq!(inserted, Ok(Some(2)));
    assert_eq!(store.insert_timeline_frame_tx(2, "p-1", Some(0), None, "{}", "[]"), Ok(Some(2)));
    assert_eq!(store.insert_timeline_frame_tx(1, "p-1", Some(1), None, "{}", "[]"), Ok(Some(3)));
    store.rollback();
    assert!(store.match_exists("EUW1_1"));
    assert!(!store.match_exists("EUW1_2"));
    assert!(store.timeline_frame_exists_tx(1, 0));
    assert!(!store.timeline_frame_exists_tx(1, 1));
    assert!(!store.timeline_frame_exists_tx(2, 0));
    // The ids that the transaction used are free again.
    assert_eq!(ingest(&mut store, "EUW1_3", "p-1", &a_game(), Some(&frames(1))), Ok(2));
    assert!(store.timeline_frame_exists_tx(2, 0));
    assert!(!store.commit());
    assert!(store.begin());
    assert!(store.commit());
}

#[test]
fn ingestion_fails_inside_an_open_transaction_and_changes_nothing() {
    let mut store = CacheStore::new();
    assert!(store.begin());
    assert_eq!(ingest(&mut store, "EUW1_1", "p-1", &a_game(), None), Err(SyncError::StoreFailure));
    assert!(!store.match_exists("EUW1_1"));
    assert!(store.commit());
    assert_eq!(ingest(&mut store, "EUW1_1", "p-1", &a_game(), None), Ok(1));
}

#[test]
fn frames_without_an_index_are_never_taken() {
    let mut store = CacheStore::new();
    assert_eq!(store.insert_timeline_frame_tx(1, "p-1", None, Some(1), "{}", "[]"), Ok(Some(1)));
    assert_eq!(store.insert_timeline_frame_tx(1, "p-1", None, Some(1), "{}", "[]"), Ok(Some(2)));
    assert_eq!(store.insert_timeline_frame_tx(1, "p-1", Some(0), Some(1), "{}", "[]"), Ok(Some(3)));
    assert_eq!(store.insert_timeline_frame_tx(1, "p-1", Some(0), Some(1), "{}", "[]"), Ok(None));
    assert!(!store.timeline_frame_exists_tx(1, 1));
}

#[test]
fn the_duration_is_cut_to_thirty_two_bits() {
    let mut store = CacheStore::new();
    let long = game(1, 4_294_967_296 + 1800, 420, vec![participant("p-1", "Ahri", 1, 1, 1, true)]);
    assert_eq!(ingest(&mut store, "EUW1_1", "p-1", &long, None), Ok(1));
    // The game counts as a ranked game of 1800 seconds.
    let summary = store.compute_player_summary("p-1", 0);
    assert_eq!(summary.games, 1);
}

fn answers(machine: IngestMachine, events: &[IngestEvent]) -> (IngestMachine, Vec<IngestAction>) {
    let mut m = machine;
    let mut actions = Vec::new();
    for e in events {
        let (next, action) = m.step(*e);
        m = next;
        actions.push(action);
    }
    (m, actions)
}

#[test]
fn the_protocol_inserts_checks_each_frame_and_commits() {
    let (m, first) = IngestMachine::start(Some(2));
    assert_eq!(first, IngestAction::BeginTx);
    let (m, actions) = answers(
        m,
        &[
            IngestEvent::TxOpened,
            IngestEvent::RecordInserted(Some(7)),
            IngestEvent::FramePresence(true),
            IngestEvent::FramePresence(false),
            IngestEvent::FrameInserted,
            IngestEvent::Committed,
            IngestEvent::Committed,
        ],
    );
    assert_eq!(
        actions,
        vec![
            IngestAction::InsertRecord,
            IngestAction::CheckFrame { mid: 7, index: 0 },
            IngestAction::CheckFrame { mid: 7, index: 1 },
            IngestAction::InsertFrame { mid: 7, index: 1 },
            IngestAction::Commit,
            IngestAction::Done(Ok(7)),
            IngestAction::Done(Ok(7)),
        ]
    );
    assert_eq!(m.phase, IngestPhase::Finished);
}

#[test]
fn a_record_that_is_there_already_is_looked_up() {
    let (m, _) = IngestMachine::start(None);
    let (_, actions) = answers(
        m,
        &[
            IngestEvent::TxOpened,
            IngestEvent::RecordInserted(None),
            IngestEvent::SurrogateId(Some(12)),
            IngestEvent::Committed,
        ],
    );
    assert_eq!(
        actions,
        vec![
            IngestAction::InsertRecord,
            IngestAction::LookupSurrogateId,
            IngestAction::Commit,
            IngestAction::Done(Ok(12)),
        ]
    );
}

#[test]
fn a_surrogate_id_of_zero_is_a_store_failure() {
    let (m, _) = IngestMachine::start(None);
    let (_, actions) = answers(m, &[IngestEvent::TxOpened, IngestEvent::RecordInserted(Some(0)), IngestEvent::RolledBack]);
    assert_eq!(
        actions,
        vec![IngestAction::InsertRecord, IngestAction::Rollback, IngestAction::Done(Err(SyncError::StoreFailure))]
    );
    let (m, _) = IngestMachine::start(None);
    let (_, actions) = answers(
        m,
        &[IngestEvent::TxOpened, IngestEvent::RecordInserted(None), IngestEvent::SurrogateId(Some(0)), IngestEvent::RolledBack],
    );
    assert_eq!(actions[2], IngestAction::Rollback);
    assert_eq!(actions[3], IngestAction::Done(Err(SyncError::StoreFailure)));
    let (m, _) = IngestMachine::start(None);
    let (_, actions) = answers(
        m,
        &[IngestEvent::TxOpened, IngestEvent::RecordInserted(None), IngestEvent::SurrogateId(None), IngestEvent::Failed],
    );
    assert_eq!(actions[2], IngestAction::Rollback);
    assert_eq!(actions[3], IngestAction::Done(Err(SyncError::StoreFailure)));
}

#[test]
fn a_failure_of_the_store_rolls_the_transaction_back() {
    let (m, _) = IngestMachine::start(Some(3));
    let (_, actions) = answers(
        m,
        &[
            IngestEvent::TxOpened,
            IngestEvent::RecordInserted(Some(3)),
            IngestEvent::FramePresence(false),
            IngestEvent::Failed,
            IngestEvent::RolledBack,
        ],
    );
    assert_eq!(actions[3], IngestAction::Rollback);
    assert_eq!(actions[4], IngestAction::Done(Err(SyncError::StoreFailure)));
    // A transaction that cannot be opened needs no rolling back.
    let (m, _) = IngestMachine::start(Some(3));
    let (_, actions) = answers(m, &[IngestEvent::Failed]);
    assert_eq!(actions, vec![IngestAction::Done(Err(SyncError::StoreFailure))]);
    // An answer that does not fit the question is a failure too.
    let (m, _) = IngestMachine::start(Some(3));
    let (_, actions) = answers(m, &[IngestEvent::TxOpened, IngestEvent::Committed]);
    assert_eq!(actions[1], IngestAction::Rollback);
}

#[test]
fn more_frames_than_the_store_can_number_are_refused() {
    let (m, first) = IngestMachine::start(Some(MAX_FRAMES + 1));
    assert_eq!(first, IngestAction::Done(Err(SyncError::StoreFailure)));
    assert_eq!(m.phase, IngestPhase::Finished);
    let (_, first) = IngestMachine::start(Some(MAX_FRAMES));
    assert_eq!(first, IngestAction::BeginTx);
}

#[test]
fn a_fetched_match_is_laid_out_as_a_row() {
    let row = new_match_row("EUW1_9", "p-1", &a_game());
    assert_eq!(row.mid, 0);
    assert_eq!(row.match_id, "EUW1_9");
    assert_eq!(row.entry_puuid, "p-1");
    assert_eq!(row.game_creation, Some(1_700_000_000_000));
    assert_eq!(row.game_duration, Some(1800));
    assert_eq!(row.queue_type, Some(420));
    assert_eq!(row.teams.queueId, 420);
    assert_eq!(row.participants.len(), 1);
    assert_eq!(row.participants[0].championName, "Ahri");
    assert_eq!(row.participants[0].kills, 5);
    assert_eq!(row.game_version, None);
    assert_eq!(row.game_start, None);
    assert_eq!(row.map_name, None);
    let mut store = CacheStore::new();
    assert_eq!(store.insert_match_row(row), Ok(Some(1)));
    assert_eq!(store.insert_match_row(new_match_row("EUW1_9", "p-2", &a_game())), Ok(None));
    assert_eq!(store.surrogate_id("EUW1_9"), Some(1));
}

#[test]
fn the_store_answers_each_step_of_the_protocol() {
    let mut store = CacheStore::new();
    let body = a_game();
    let detail = frames(1);
    let mut ask = |store: &mut CacheStore, step| answer(store, step, "EUW1_1", "p-1", &body, Some(&detail));
    assert_eq!(ask(&mut store, IngestAction::Commit), IngestEvent::Failed);
    assert_eq!(ask(&mut store, IngestAction::BeginTx), IngestEvent::TxOpened);
    assert_eq!(ask(&mut store, IngestAction::BeginTx), IngestEvent::Failed);
    assert_eq!(ask(&mut store, IngestAction::LookupSurrogateId), IngestEvent::SurrogateId(None));
    assert_eq!(ask(&mut store, IngestAction::InsertRecord), IngestEvent::RecordInserted(Some(1)));
    assert_eq!(ask(&mut store, IngestAction::InsertRecord), IngestEvent::RecordInserted(None));
    assert_eq!(ask(&mut store, IngestAction::LookupSurrogateId), IngestEvent::SurrogateId(Some(1)));
    assert_eq!(ask(&mut store, IngestAction::CheckFrame { mid: 1, index: 0 }), IngestEvent::FramePresence(false));
    assert_eq!(ask(&mut store, IngestAction::InsertFrame { mid: 1, index: 0 }), IngestEvent::FrameInserted);
    assert_eq!(ask(&mut store, IngestAction::CheckFrame { mid: 1, index: 0 }), IngestEvent::FramePresence(true));
    // There is no frame to insert under an index that the detail does not have.
    assert_eq!(ask(&mut store, IngestAction::InsertFrame { mid: 1, index: 1 }), IngestEvent::Failed);
    assert_eq!(ask(&mut store, IngestAction::InsertFrame { mid: 1, index: -1 }), IngestEvent::Failed);
    assert_eq!(ask(&mut store, IngestAction::Done(Ok(1))), IngestEvent::Failed);
    assert_eq!(ask(&mut store, IngestAction::Rollback), IngestEvent::RolledBack);
    assert!(!store.match_exists("EUW1_1"));
    assert!(!store.timeline_frame_exists_tx(1, 0));
    assert_eq!(ask(&mut store, IngestAction::BeginTx), IngestEvent::TxOpened);
    assert_eq!(ask(&mut store, IngestAction::Commit), IngestEvent::Committed);
}
