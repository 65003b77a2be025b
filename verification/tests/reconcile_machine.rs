use diana::error::SyncError;
use diana::ingest::{IngestAction, IngestEvent};
use diana::reconcile::{ReconcileAction, ReconcileEvent, ReconcileMachine, ReconcilePhase, ReconcileReport};

fn told(events: &[ReconcileEvent]) -> (ReconcileMachine, Vec<ReconcileAction>) {
    let (mut machine, first) = ReconcileMachine::begin();
    let mut actions = vec![first];
    for e in events {
        let (next, action) = machine.step(*e);
        machine = next;
        actions.push(action);
    }
    (machine, actions)
}

#[test]
fn a_run_asks_the_store_before_it_asks_the_provider() {
    let (machine, actions) = told(&[ReconcileEvent::LatestKnown(true)]);
    assert_eq!(
        actions,
        vec![ReconcileAction::QueryLatest, ReconcileAction::ListRecentIds { start: 0, count: 10 }]
    );
    assert_eq!(machine.phase, ReconcilePhase::AwaitIds);
    assert!(!machine.cold_start);
    let (machine, _) = told(&[ReconcileEvent::LatestKnown(false)]);
    assert!(machine.cold_start);
}

#[test]
fn a_store_that_cannot_say_what_it_holds_fails_the_run() {
    let (_, actions) = told(&[ReconcileEvent::Failed]);
    assert_eq!(actions[1], ReconcileAction::Done(Err(SyncError::StoreFailure)));
    let (_, actions) = told(&[ReconcileEvent::LatestKnown(true), ReconcileEvent::Failed]);
    assert_eq!(actions[2], ReconcileAction::Done(Err(SyncError::ProviderRequestFailed(None))));
    let (_, actions) =
        told(&[ReconcileEvent::LatestKnown(true), ReconcileEvent::RecentIds(2), ReconcileEvent::Failed]);
    assert_eq!(actions[3], ReconcileAction::Done(Err(SyncError::StoreFailure)));
}

#[test]
fn a_warm_run_fetches_each_missing_record_with_its_detail() {
    let (machine, actions) = told(&[
        ReconcileEvent::LatestKnown(true),
        ReconcileEvent::RecentIds(3),
        ReconcileEvent::RecordPresence(false),
        ReconcileEvent::RecordPresence(true),
        ReconcileEvent::RecordPresence(false),
        ReconcileEvent::RecordPresence(false),
        ReconcileEvent::RecordFetched,
        ReconcileEvent::DetailFetched(Some(1)),
        ReconcileEvent::Store(IngestEvent::TxOpened),
        ReconcileEvent::Store(IngestEvent::RecordInserted(Some(5))),
        ReconcileEvent::Store(IngestEvent::FramePresence(false)),
        ReconcileEvent::Store(IngestEvent::FrameInserted),
        ReconcileEvent::Store(IngestEvent::Committed),
        ReconcileEvent::RecordPresence(true),
    ]);
    assert_eq!(
        actions,
        vec![
            ReconcileAction::QueryLatest,
            ReconcileAction::ListRecentIds { start: 0, count: 10 },
            ReconcileAction::CheckRecord(0),
            ReconcileAction::CheckRecord(1),
            ReconcileAction::CheckRecord(2),
            ReconcileAction::CheckRecord(0),
            ReconcileAction::FetchRecord(0),
            ReconcileAction::FetchDetail(0),
            ReconcileAction::Store(0, IngestAction::BeginTx),
            ReconcileAction::Store(0, IngestAction::InsertRecord),
            ReconcileAction::Store(0, IngestAction::CheckFrame { mid: 5, index: 0 }),
            ReconcileAction::Store(0, IngestAction::InsertFrame { mid: 5, index: 0 }),
            ReconcileAction::Store(0, IngestAction::Commit),
            ReconcileAction::CheckRecord(2),
            ReconcileAction::Done(Ok(ReconcileReport { listed: 3, fetched: 1, left_for_later: 0 })),
        ]
    );
    assert_eq!(machine.phase, ReconcilePhase::Finished);
    assert_eq!(machine.plan, vec![0, 2]);
    assert_eq!(machine.present, vec![false, true, false]);
}

#[test]
fn a_cold_run_skips_the_detail() {
    let (_, actions) = told(&[
        ReconcileEvent::LatestKnown(false),
        ReconcileEvent::RecentIds(1),
        ReconcileEvent::RecordPresence(false),
        ReconcileEvent::RecordPresence(false),
        ReconcileEvent::RecordFetched,
        ReconcileEvent::Store(IngestEvent::TxOpened),
        ReconcileEvent::Store(IngestEvent::RecordInserted(Some(1))),
        ReconcileEvent::Store(IngestEvent::Committed),
    ]);
    assert_eq!(actions[5], ReconcileAction::Store(0, IngestAction::BeginTx));
    assert_eq!(actions[7], ReconcileAction::Store(0, IngestAction::Commit));
    assert_eq!(
        actions[8],
        ReconcileAction::Done(Ok(ReconcileReport { listed: 1, fetched: 1, left_for_later: 0 }))
    );
}

#[test]
fn a_failure_while_a_record_is_stored_fails_the_run() {
    let (_, actions) = told(&[
        ReconcileEvent::LatestKnown(false),
        ReconcileEvent::RecentIds(1),
        ReconcileEvent::RecordPresence(false),
        ReconcileEvent::RecordPresence(false),
        ReconcileEvent::RecordFetched,
        ReconcileEvent::Store(IngestEvent::TxOpened),
        ReconcileEvent::Store(IngestEvent::RecordInserted(Some(0))),
        ReconcileEvent::Store(IngestEvent::RolledBack),
        ReconcileEvent::RecordPresence(true),
    ]);
    assert_eq!(actions[7], ReconcileAction::Store(0, IngestAction::Rollback));
    assert_eq!(actions[8], ReconcileAction::Done(Err(SyncError::StoreFailure)));
    assert_eq!(actions[9], ReconcileAction::Done(Err(SyncError::StoreFailure)));
    // An answer that is not the store's counts as a failure of the store.
    let (_, actions) = told(&[
        ReconcileEvent::LatestKnown(false),
        ReconcileEvent::RecentIds(1),
        ReconcileEvent::RecordPresence(false),
        ReconcileEvent::RecordPresence(false),
        ReconcileEvent::RecordFetched,
        ReconcileEvent::RecordFetched,
    ]);
    assert_eq!(actions[6], ReconcileAction::Done(Err(SyncError::StoreFailure)));
    // Detail that fails to come fails the run, and the failure names the record.
    let (_, actions) = told(&[
        ReconcileEvent::LatestKnown(true),
        ReconcileEvent::RecentIds(2),
        ReconcileEvent::RecordPresence(true),
        ReconcileEvent::RecordPresence(false),
        ReconcileEvent::RecordPresence(false),
        ReconcileEvent::RecordFetched,
        ReconcileEvent::Failed,
    ]);
    assert_eq!(actions[6], ReconcileAction::FetchDetail(1));
    assert_eq!(actions[7], ReconcileAction::Done(Err(SyncError::ProviderRequestFailed(Some(1)))));
}
