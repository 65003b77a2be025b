//! Reconciling the in-memory store with a provider's list.
//!
//! [`reconcile`] runs the machine of [`crate::reconcile`] against a
//! [`CacheStore`] and a list of what the provider can deliver: it does what
//! the machine asks, tells it what came back, and stops when the machine is
//! done. [`reconcile_spec`] says what that comes to, and the lemmas below say
//! what follows.

use vstd::prelude::*;
use crate::error::{result_view, SyncError};
use crate::ingest::{ingest_next, IngestAction, MAX_FRAMES};
use crate::models::{
    DbMatchRow, DbMatchRowView, MatchDto, MatchDtoView, TimelineFrame, TimelineFrameView,
};
use crate::persist::{
    answer, frames_of, in_step, ingest_spec, lemma_ingest_whole_or_not_at_all,
    lemma_protocol_start, lemma_protocol_step, match_row, steps_left, store_answer,
};
use crate::plan::{
    lemma_missing_upto, missing_positions, planned_positions, COLD_START_LIMIT, RECENT_WINDOW,
};
use crate::reconcile::{
    reconcile_next, reconcile_start, window, ReconcileAction, ReconcileEvent, ReconcileMachine,
    ReconcilePhase, ReconcileReport, ReconcileState,
};
use crate::store::{CacheStore, StoreView};

verus! {

/// What the provider can deliver of one record it lists.
#[derive(Debug)]
pub struct ListedRecord {
    /// The id the provider knows the record by.
    pub id: String,
    /// The record's body; nothing where the provider fails to deliver it.
    pub body: Option<MatchDto>,
    /// The record's detail frames; nothing where its detail holds none.
    pub detail: Option<Vec<TimelineFrame>>,
}

/// What a [`ListedRecord`] holds, as plain values.
pub struct ListedRecordView {
    pub id: Seq<char>,
    pub body: Option<MatchDtoView>,
    pub detail: Option<Seq<TimelineFrameView>>,
}

impl DeepView for ListedRecord {
    type V = ListedRecordView;

    open spec fn deep_view(&self) -> ListedRecordView {
        ListedRecordView {
            id: self.id@,
            body: self.body.deep_view(),
            detail: self.detail.deep_view(),
        }
    }
}
/// How many ids the provider lists when asked for `count` from the first.
pub open spec fn listed_count(listing: Seq<ListedRecordView>, count: u32) -> usize {
    if listing.len() > count {
        count as usize
    } else {
        listing.len() as usize
    }
}

/// The detail that a record is persisted with: its own where detail is
/// fetched, and none otherwise.
pub open spec fn detail_used(record: ListedRecordView, with_details: bool) -> Option<
    Seq<TimelineFrameView>,
> {
    if with_details {
        record.detail
    } else {
        None
    }
}

/// What comes back for what the machine asks, and what the store holds
/// afterwards. The provider serves the head of its list and delivers what
/// the list holds; the store answers as [`store_answer`] says.
pub open spec fn world_answer(
    v: StoreView,
    puuid: Seq<char>,
    listing: Seq<ListedRecordView>,
    with_details: bool,
    ask: ReconcileAction,
) -> (StoreView, ReconcileEvent) {
    match ask {
        ReconcileAction::QueryLatest => (
            v,
            match v.latest_match(puuid) {
                Ok(latest) => ReconcileEvent::LatestKnown(latest is Some),
                Err(_) => ReconcileEvent::Failed,
            },
        ),
        ReconcileAction::ListRecentIds { start, count } => (
            v,
            if start == 0 {
                ReconcileEvent::RecentIds(listed_count(listing, count))
            } else {
                ReconcileEvent::Failed
            },
        ),
        ReconcileAction::CheckRecord(p) => (
            v,
            if p < listing.len() {
                ReconcileEvent::RecordPresence(v.has_match(listing[p as int].id))
            } else {
                ReconcileEvent::Failed
            },
        ),
        ReconcileAction::FetchRecord(p) => (
            v,
            if p < listing.len() && listing[p as int].body is Some {
                ReconcileEvent::RecordFetched
            } else {
                ReconcileEvent::Failed
            },
        ),
        ReconcileAction::FetchDetail(p) => (
            v,
            if p < listing.len() {
                ReconcileEvent::DetailFetched(
                    match listing[p as int].detail {
                        Some(frames) => Some(frames.len() as usize),
                        None => None,
                    },
                )
            } else {
                ReconcileEvent::Failed
            },
        ),
        ReconcileAction::Store(p, step) => if p < listing.len() && listing[p as int].body
            is Some {
            let (after, e) = store_answer(
                v,
                step,
                match_row(listing[p as int].id, puuid, listing[p as int].body->0),
                frames_of(detail_used(listing[p as int], with_details)),
            );
            (after, ReconcileEvent::Store(e))
        } else {
            (v, ReconcileEvent::Failed)
        },
        ReconcileAction::Done(_) => (v, ReconcileEvent::Failed),
    }
}

/// Does what the machine asks for and returns what came back.
pub fn respond(
    store: &mut CacheStore,
    puuid: &str,
    listing: &Vec<ListedRecord>,
    with_details: bool,
    ask: ReconcileAction,
) -> (e: ReconcileEvent)
    requires
        old(store)@.wf(),
    ensures
        final(store)@.wf(),
        (final(store)@, e) == world_answer(
            old(store)@,
            puuid@,
            listing.deep_view(),
            with_details,
            ask,
        ),
{
    match ask {
        ReconcileAction::QueryLatest => match store.latest_match_for_puuid(puuid) {
            Ok(latest) => ReconcileEvent::LatestKnown(latest.is_some()),
            Err(_) => ReconcileEvent::Failed,
        },
        ReconcileAction::ListRecentIds { start, count } => {
            if start == 0 {
                let n: usize = listing.len();
                ReconcileEvent::RecentIds(
                    if n > count as usize {
                        count as usize
                    } else {
                        n
                    },
                )
            } else {
                ReconcileEvent::Failed
            }
        },
        ReconcileAction::CheckRecord(p) => {
            if p < listing.len() {
                assert(listing.deep_view()[p as int] == listing[p as int].deep_view());
                ReconcileEvent::RecordPresence(store.match_exists(listing[p].id.as_str()))
            } else {
                ReconcileEvent::Failed
            }
        },
        ReconcileAction::FetchRecord(p) => {
            if p < listing.len() {
                assert(listing.deep_view()[p as int] == listing[p as int].deep_view());
                if listing[p].body.is_some() {
                    ReconcileEvent::RecordFetched
                } else {
                    ReconcileEvent::Failed
                }
            } else {
                ReconcileEvent::Failed
            }
        },
        ReconcileAction::FetchDetail(p) => {
            if p < listing.len() {
                assert(listing.deep_view()[p as int] == listing[p as int].deep_view());
                ReconcileEvent::DetailFetched(
                    match &listing[p].detail {
                        Some(frames) => Some(frames.len()),
                        None => None,
                    },
                )
            } else {
                ReconcileEvent::Failed
            }
        },
        ReconcileAction::Store(p, step) => {
            if p < listing.len() {
                assert(listing.deep_view()[p as int] == listing[p as int].deep_view());
                let record = &listing[p];
                match &record.body {
                    Some(body) => {
                        let detail: Option<&Vec<TimelineFrame>> = if with_details {
                            record.detail.as_ref()
                        } else {
                            None
                        };
                        ReconcileEvent::Store(
                            answer(store, step, record.id.as_str(), puuid, body, detail),
                        )
                    },
                    None => ReconcileEvent::Failed,
                }
            } else {
                ReconcileEvent::Failed
            }
        },
        ReconcileAction::Done(_) => ReconcileEvent::Failed,
    }
}

/// Whether a list is one that fits in memory, as every list does that the
/// provider sends.
pub open spec fn fits_in_memory(listing: Seq<ListedRecordView>) -> bool {
    &&& listing.len() <= usize::MAX
    &&& forall|i: int|
        0 <= i < listing.len() ==> ((#[trigger] listing[i]).detail matches Some(frames)
            ==> frames.len() <= usize::MAX)
}

/// What the store says of each of the first `upto` listed records.
pub open spec fn scanned(v: StoreView, listing: Seq<ListedRecordView>, upto: nat) -> Seq<bool> {
    Seq::new(upto, |i: int| v.has_match(listing[i].id))
}

/// The store after the first `upto` planned records were handled, and how
/// many bodies were fetched for them, or the failure that ended the run. A
/// planned record that the store holds by now is passed over; one that the
/// provider fails to deliver, or the store to ingest, ends the run.
pub open spec fn backfilled(
    v: StoreView,
    puuid: Seq<char>,
    listing: Seq<ListedRecordView>,
    plan: Seq<usize>,
    with_details: bool,
    upto: nat,
) -> (StoreView, Result<nat, SyncError>)
    decreases upto,
{
    if upto == 0 {
        (v, Ok(0))
    } else {
        let (before, so_far) = backfilled(
            v,
            puuid,
            listing,
            plan,
            with_details,
            (upto - 1) as nat,
        );
        let p = plan[upto - 1];
        let record = listing[p as int];
        match so_far {
            Err(e) => (before, Err(e)),
            Ok(fetched) => if before.has_match(record.id) {
                (before, Ok(fetched))
            } else {
                match record.body {
                    None => (before, Err(SyncError::ProviderRequestFailed(Some(p)))),
                    Some(body) => {
                        let (after, r) = ingest_spec(
                            before,
                            match_row(record.id, puuid, body),
                            detail_used(record, with_details),
                        );
                        match r {
                            Ok(_) => (after, Ok(fetched + 1)),
                            Err(e) => (after, Err(e)),
                        }
                    },
                }
            },
        }
    }
}

/// What reconciling comes to: the store afterwards, and what the run did or
/// why it failed.
pub open spec fn reconcile_spec(v: StoreView, puuid: Seq<char>, listing: Seq<ListedRecordView>)
    -> (StoreView, Result<ReconcileReport, SyncError>) {
    match v.latest_match(puuid) {
        Err(_) => (v, Err(SyncError::StoreFailure)),
        Ok(latest) => {
            let cold = latest is None;
            let listed = window(listing.len() as usize);
            let present = scanned(v, listing, listed as nat);
            let plan = planned_positions(cold, present);
            let (after, r) = backfilled(v, puuid, listing, plan, !cold, plan.len());
            (
                after,
                match r {
                    Ok(fetched) => Ok(
                        ReconcileReport {
                            listed: listed,
                            fetched: fetched as usize,
                            left_for_later: (missing_positions(present).len()
                                - plan.len()) as usize,
                        },
                    ),
                    Err(e) => Err(e),
                },
            )
        },
    }
}

/// A failure ends the run: the records planned after it are not handled.
pub proof fn lemma_backfill_stops_at_failure(
    v: StoreView,
    puuid: Seq<char>,
    listing: Seq<ListedRecordView>,
    plan: Seq<usize>,
    with_details: bool,
    failed_at: nat,
    upto: nat,
)
    requires
        failed_at <= upto,
        backfilled(v, puuid, listing, plan, with_details, failed_at).1 is Err,
    ensures
        backfilled(v, puuid, listing, plan, with_details, upto) == backfilled(
            v,
            puuid,
            listing,
            plan,
            with_details,
            failed_at,
        ),
    decreases upto,
{
    if upto > failed_at {
        lemma_backfill_stops_at_failure(
            v,
            puuid,
            listing,
            plan,
            with_details,
            failed_at,
            (upto - 1) as nat,
        );
    }
}

/// The records handled leave the store well-formed, and no more bodies are
/// fetched than records were handled.
pub proof fn lemma_backfill_keeps_wf(
    v: StoreView,
    puuid: Seq<char>,
    listing: Seq<ListedRecordView>,
    plan: Seq<usize>,
    with_details: bool,
    upto: nat,
)
    requires
        v.wf(),
    ensures
        backfilled(v, puuid, listing, plan, with_details, upto).0.wf(),
        backfilled(v, puuid, listing, plan, with_details, upto).1 matches Ok(fetched) ==> fetched
            <= upto,
    decreases upto,
{
    if upto > 0 {
        lemma_backfill_keeps_wf(v, puuid, listing, plan, with_details, (upto - 1) as nat);
        let (before, so_far) = backfilled(
            v,
            puuid,
            listing,
            plan,
            with_details,
            (upto - 1) as nat,
        );
        let record = listing[plan[upto - 1] as int];
        if so_far is Ok && !before.has_match(record.id) && record.body is Some {
            lemma_ingest_whole_or_not_at_all(
                before,
                match_row(record.id, puuid, record.body->0),
                detail_used(record, with_details),
            );
        }
    }
}

/// The steps that are left before the machine is done, to be read as a
/// number of three digits.
pub open spec fn run_left(s: ReconcileState, ask: ReconcileAction) -> (int, int, int) {
    let planned = 3 * (s.plan.len() - s.cursor);
    match ask {
        ReconcileAction::Done(_) => (0, 0, 0),
        ReconcileAction::QueryLatest => (4, 0, 0),
        ReconcileAction::ListRecentIds { .. } => (3, 0, 0),
        ReconcileAction::CheckRecord(_) => if s.phase == ReconcilePhase::Scanning {
            (2, s.listed - s.present.len(), 0)
        } else {
            (1, planned, 0)
        },
        ReconcileAction::FetchRecord(_) => (1, planned - 1, 0),
        ReconcileAction::FetchDetail(_) => (1, planned - 2, 0),
        ReconcileAction::Store(_, step) => (1, planned - 3, steps_left(s.ingest, step)),
    }
}

/// Whether one triple of [`run_left`] stands for fewer steps than another.
pub open spec fn fewer(a: (int, int, int), b: (int, int, int)) -> bool {
    a.0 < b.0 || (a.0 == b.0 && (a.1 < b.1 || (a.1 == b.1 && a.2 < b.2)))
}

/// What holds between the machine and the store while the store is
/// reconciled: `then` is the store before, `now` the store as it is, and
/// `ask` what the machine has asked for last.
pub open spec fn in_run(
    then: StoreView,
    puuid: Seq<char>,
    listing: Seq<ListedRecordView>,
    now: StoreView,
    s: ReconcileState,
    ask: ReconcileAction,
) -> bool {
    let latest = then.latest_match(puuid);
    let cold = latest == Ok::<Option<Seq<char>>, SyncError>(None);
    let listed = window(listing.len() as usize);
    let present = scanned(then, listing, listed as nat);
    let plan = planned_positions(cold, present);
    let on_plan = {
        &&& s.plan == plan
        &&& s.with_details == !cold
        &&& s.left_for_later == missing_positions(present).len() - plan.len()
        &&& s.cursor < plan.len()
    };
    let so_far = backfilled(then, puuid, listing, plan, !cold, s.cursor as nat);
    &&& s.wf()
    &&& now.wf()
    &&& then.wf()
    &&& fits_in_memory(listing)
    &&& match ask {
        ReconcileAction::Done(r) => (now, r) == reconcile_spec(then, puuid, listing),
        ReconcileAction::QueryLatest => s == reconcile_start().0 && now == then,
        ReconcileAction::ListRecentIds { start, count } => {
            &&& s.phase == ReconcilePhase::AwaitIds
            &&& start == 0
            &&& count == RECENT_WINDOW
            &&& latest is Ok
            &&& s.cold_start == cold
            &&& s.cursor == 0
            &&& s.fetched == 0
            &&& now == then
        },
        ReconcileAction::CheckRecord(p) => {
            &&& latest is Ok
            &&& s.cold_start == cold
            &&& s.listed == listed
            &&& if s.phase == ReconcilePhase::Scanning {
                &&& p == s.present.len()
                &&& s.present == scanned(then, listing, p as nat)
                &&& s.cursor == 0
                &&& s.fetched == 0
                &&& now == then
            } else {
                &&& s.phase == ReconcilePhase::Rechecking
                &&& on_plan
                &&& p == plan[s.cursor as int]
                &&& so_far == (now, Ok::<nat, SyncError>(s.fetched as nat))
            }
        },
        ReconcileAction::FetchRecord(p) => {
            &&& s.phase == ReconcilePhase::AwaitBody
            &&& latest is Ok
            &&& s.cold_start == cold
            &&& s.listed == listed
            &&& on_plan
            &&& p == plan[s.cursor as int]
            &&& so_far == (now, Ok::<nat, SyncError>(s.fetched as nat))
            &&& !now.has_match(listing[p as int].id)
        },
        ReconcileAction::FetchDetail(p) => {
            &&& s.phase == ReconcilePhase::AwaitDetail
            &&& latest is Ok
            &&& s.cold_start == cold
            &&& s.listed == listed
            &&& on_plan
            &&& p == plan[s.cursor as int]
            &&& so_far == (now, Ok::<nat, SyncError>((s.fetched - 1) as nat))
            &&& s.fetched >= 1
            &&& !now.has_match(listing[p as int].id)
            &&& listing[p as int].body is Some
            &&& s.with_details
        },
        ReconcileAction::Store(p, step) => {
            &&& s.phase == ReconcilePhase::Ingesting
            &&& latest is Ok
            &&& s.cold_start == cold
            &&& s.listed == listed
            &&& on_plan
            &&& p == plan[s.cursor as int]
            &&& so_far.1 == Ok::<nat, SyncError>((s.fetched - 1) as nat)
            &&& s.fetched >= 1
            &&& !so_far.0.has_match(listing[p as int].id)
            &&& listing[p as int].body is Some
            &&& !(step is Done)
            &&& in_step(
                so_far.0,
                match_row(listing[p as int].id, puuid, listing[p as int].body->0),
                detail_used(listing[p as int], s.with_details),
                now,
                s.ingest,
                step,
            )
        },
    }
}

/// Whether the machine stands between two planned records: the first
/// `s.cursor` of them are handled, and `now` is what that left.
spec fn between_records(
    then: StoreView,
    puuid: Seq<char>,
    listing: Seq<ListedRecordView>,
    now: StoreView,
    s: ReconcileState,
) -> bool {
    let latest = then.latest_match(puuid);
    let cold = latest == Ok::<Option<Seq<char>>, SyncError>(None);
    let listed = window(listing.len() as usize);
    let present = scanned(then, listing, listed as nat);
    let plan = planned_positions(cold, present);
    &&& now.wf()
    &&& then.wf()
    &&& fits_in_memory(listing)
    &&& latest is Ok
    &&& s.cold_start == cold
    &&& s.listed == listed
    &&& s.plan == plan
    &&& s.cursor < plan.len() ==> s.with_details == !cold
    &&& s.left_for_later == missing_positions(present).len() - plan.len()
    &&& s.cursor <= plan.len()
    &&& backfilled(then, puuid, listing, plan, !cold, s.cursor as nat) == (
        now,
        Ok::<nat, SyncError>(s.fetched as nat),
    )
}

/// Between two planned records the machine turns to the next, or ends the
/// run with what reconciling comes to.
proof fn lemma_turn_to_next(
    then: StoreView,
    puuid: Seq<char>,
    listing: Seq<ListedRecordView>,
    now: StoreView,
    s: ReconcileState,
)
    requires
        between_records(then, puuid, listing, now, s),
        crate::reconcile::next_planned(s).0.wf(),
    ensures
        in_run(
            then,
            puuid,
            listing,
            now,
            crate::reconcile::next_planned(s).0,
            crate::reconcile::next_planned(s).1,
        ),
{
}

/// A failure while a planned record is handled ends the run with what
/// reconciling comes to.
proof fn lemma_failure_ends_the_run(
    then: StoreView,
    puuid: Seq<char>,
    listing: Seq<ListedRecordView>,
    now: StoreView,
    s: ReconcileState,
    e: SyncError,
)
    requires
        then.wf(),
        now.wf(),
        fits_in_memory(listing),
        crate::reconcile::fail(s, e).0.wf(),
        then.latest_match(puuid) is Ok,
        ({
            let cold = then.latest_match(puuid) == Ok::<Option<Seq<char>>, SyncError>(None);
            let listed = window(listing.len() as usize);
            let plan = planned_positions(cold, scanned(then, listing, listed as nat));
            &&& s.cursor < plan.len()
            &&& backfilled(then, puuid, listing, plan, !cold, (s.cursor + 1) as nat) == (
                now,
                Err::<nat, SyncError>(e),
            )
        }),
    ensures
        in_run(
            then,
            puuid,
            listing,
            now,
            crate::reconcile::fail(s, e).0,
            crate::reconcile::fail(s, e).1,
        ),
{
    let cold = then.latest_match(puuid) == Ok::<Option<Seq<char>>, SyncError>(None);
    let listed = window(listing.len() as usize);
    let plan = planned_positions(cold, scanned(then, listing, listed as nat));
    lemma_backfill_stops_at_failure(
        then,
        puuid,
        listing,
        plan,
        !cold,
        (s.cursor + 1) as nat,
        plan.len(),
    );
}

/// Whether a step of the machine, answered by the provider and the store,
/// leaves them in step and brings the machine closer to its end.
pub open spec fn stays_in_run(
    then: StoreView,
    puuid: Seq<char>,
    listing: Seq<ListedRecordView>,
    now: StoreView,
    s: ReconcileState,
    ask: ReconcileAction,
) -> bool {
    let (after, e) = world_answer(now, puuid, listing, s.with_details, ask);
    let (next, asked) = reconcile_next(s, e);
    &&& in_run(then, puuid, listing, after, next, asked)
    &&& fewer(run_left(next, asked), run_left(s, ask))
    &&& run_left(next, asked).0 >= 0
    &&& run_left(next, asked).1 >= 0
    &&& run_left(next, asked).2 >= 0
}

proof fn lemma_step_before_scan(
    then: StoreView,
    puuid: Seq<char>,
    listing: Seq<ListedRecordView>,
    now: StoreView,
    s: ReconcileState,
    ask: ReconcileAction,
)
    requires
        in_run(then, puuid, listing, now, s, ask),
        ask is QueryLatest || ask is ListRecentIds,
    ensures
        stays_in_run(then, puuid, listing, now, s, ask),
{
    let (after, e) = world_answer(now, puuid, listing, s.with_details, ask);
    let latest = then.latest_match(puuid);
    let cold = latest == Ok::<Option<Seq<char>>, SyncError>(None);
    let listed = window(listing.len() as usize);
    let present = scanned(then, listing, listed as nat);
    crate::reconcile::lemma_wf_is_kept(s, e);
    if ask is ListRecentIds {
        assert(e == ReconcileEvent::RecentIds(listed_count(listing, RECENT_WINDOW as u32)));
        assert(window(listed_count(listing, RECENT_WINDOW as u32)) == listed);
        assert(scanned(then, listing, 0) =~= Seq::<bool>::empty());
        if listed == 0 {
            assert(present =~= Seq::<bool>::empty());
            lemma_missing_upto(present, 0);
            assert(missing_positions(present) =~= Seq::<usize>::empty());
            assert(planned_positions(cold, present) =~= Seq::<usize>::empty());
            assert(s.plan =~= Seq::<usize>::empty());
            let turned = ReconcileState { listed: listed, present: Seq::empty(), ..s };
            assert(between_records(then, puuid, listing, now, turned));
            lemma_turn_to_next(then, puuid, listing, now, turned);
        }
    }
}

proof fn lemma_step_scan(
    then: StoreView,
    puuid: Seq<char>,
    listing: Seq<ListedRecordView>,
    now: StoreView,
    s: ReconcileState,
    p: usize,
)
    requires
        in_run(then, puuid, listing, now, s, ReconcileAction::CheckRecord(p)),
        s.phase == ReconcilePhase::Scanning,
    ensures
        stays_in_run(then, puuid, listing, now, s, ReconcileAction::CheckRecord(p)),
{
    let ask = ReconcileAction::CheckRecord(p);
    let (after, e) = world_answer(now, puuid, listing, s.with_details, ask);
    let latest = then.latest_match(puuid);
    let cold = latest == Ok::<Option<Seq<char>>, SyncError>(None);
    let listed = window(listing.len() as usize);
    let present = scanned(then, listing, listed as nat);
    let plan = planned_positions(cold, present);
    crate::reconcile::lemma_wf_is_kept(s, e);
    let held = then.has_match(listing[p as int].id);
    let grown = s.present.push(held);
    assert(grown =~= scanned(then, listing, (p + 1) as nat));
    if grown.len() >= s.listed {
        lemma_missing_upto(present, present.len() as int);
        let turned = ReconcileState {
            present: grown,
            plan: plan,
            with_details: !s.cold_start,
            left_for_later: (missing_positions(grown).len() - plan.len()) as usize,
            cursor: 0,
            ..s
        };
        assert(between_records(then, puuid, listing, now, turned));
        lemma_turn_to_next(then, puuid, listing, now, turned);
    }
}

proof fn lemma_step_recheck(
    then: StoreView,
    puuid: Seq<char>,
    listing: Seq<ListedRecordView>,
    now: StoreView,
    s: ReconcileState,
    p: usize,
)
    requires
        in_run(then, puuid, listing, now, s, ReconcileAction::CheckRecord(p)),
        s.phase == ReconcilePhase::Rechecking,
    ensures
        stays_in_run(then, puuid, listing, now, s, ReconcileAction::CheckRecord(p)),
{
    let ask = ReconcileAction::CheckRecord(p);
    let (after, e) = world_answer(now, puuid, listing, s.with_details, ask);
    crate::reconcile::lemma_wf_is_kept(s, e);
    if now.has_match(listing[p as int].id) {
        let turned = ReconcileState { cursor: (s.cursor + 1) as usize, ..s };
        assert(between_records(then, puuid, listing, now, turned));
        lemma_turn_to_next(then, puuid, listing, now, turned);
    }
}

proof fn lemma_step_fetch(
    then: StoreView,
    puuid: Seq<char>,
    listing: Seq<ListedRecordView>,
    now: StoreView,
    s: ReconcileState,
    ask: ReconcileAction,
)
    requires
        in_run(then, puuid, listing, now, s, ask),
        ask is FetchRecord || ask is FetchDetail,
    ensures
        stays_in_run(then, puuid, listing, now, s, ask),
{
    let (after, e) = world_answer(now, puuid, listing, s.with_details, ask);
    crate::reconcile::lemma_wf_is_kept(s, e);
    let p = s.plan[s.cursor as int];
    let record = listing[p as int];
    if ask is FetchRecord {
        if record.body is Some {
            if !s.with_details {
                lemma_protocol_start(now, match_row(record.id, puuid, record.body->0), None, None);
            }
        } else {
            lemma_failure_ends_the_run(
                then,
                puuid,
                listing,
                now,
                s,
                SyncError::ProviderRequestFailed(Some(p)),
            );
        }
    } else {
        let row = match_row(record.id, puuid, record.body->0);
        let count = match record.detail {
            Some(frames) => Some(frames.len() as usize),
            None => None,
        };
        if frames_of(record.detail).len() > MAX_FRAMES {
            lemma_failure_ends_the_run(then, puuid, listing, now, s, SyncError::StoreFailure);
        } else {
            lemma_protocol_start(now, row, record.detail, count);
        }
    }
}

proof fn lemma_step_store(
    then: StoreView,
    puuid: Seq<char>,
    listing: Seq<ListedRecordView>,
    now: StoreView,
    s: ReconcileState,
    p: usize,
    step: IngestAction,
)
    requires
        in_run(then, puuid, listing, now, s, ReconcileAction::Store(p, step)),
    ensures
        stays_in_run(then, puuid, listing, now, s, ReconcileAction::Store(p, step)),
{
    let ask = ReconcileAction::Store(p, step);
    let (after, e) = world_answer(now, puuid, listing, s.with_details, ask);
    let latest = then.latest_match(puuid);
    let cold = latest == Ok::<Option<Seq<char>>, SyncError>(None);
    let listed = window(listing.len() as usize);
    let present = scanned(then, listing, listed as nat);
    let plan = planned_positions(cold, present);
    crate::reconcile::lemma_wf_is_kept(s, e);
    let record = listing[p as int];
    let row = match_row(record.id, puuid, record.body->0);
    let detail = detail_used(record, s.with_details);
    let before = backfilled(then, puuid, listing, plan, !cold, s.cursor as nat).0;
    lemma_protocol_step(before, row, detail, now, s.ingest, step);
    let run = ingest_next(s.ingest, e->Store_0);
    match run.1 {
        IngestAction::Done(Ok(_)) => {
            let turned = ReconcileState { ingest: run.0, cursor: (s.cursor + 1) as usize, ..s };
            assert(between_records(then, puuid, listing, after, turned));
            lemma_turn_to_next(then, puuid, listing, after, turned);
        },
        IngestAction::Done(Err(failure)) => {
            lemma_failure_ends_the_run(
                then,
                puuid,
                listing,
                after,
                ReconcileState { ingest: run.0, ..s },
                failure,
            );
        },
        _ => {},
    }
}

/// A step of the machine, answered by the provider and the store, leaves
/// them in step and brings the machine closer to its end.
pub proof fn lemma_run_step(
    then: StoreView,
    puuid: Seq<char>,
    listing: Seq<ListedRecordView>,
    now: StoreView,
    s: ReconcileState,
    ask: ReconcileAction,
)
    requires
        in_run(then, puuid, listing, now, s, ask),
        !(ask is Done),
    ensures
        stays_in_run(then, puuid, listing, now, s, ask),
{
    match ask {
        ReconcileAction::QueryLatest | ReconcileAction::ListRecentIds { .. } => {
            lemma_step_before_scan(then, puuid, listing, now, s, ask);
        },
        ReconcileAction::CheckRecord(p) => {
            if s.phase == ReconcilePhase::Scanning {
                lemma_step_scan(then, puuid, listing, now, s, p);
            } else {
                lemma_step_recheck(then, puuid, listing, now, s, p);
            }
        },
        ReconcileAction::FetchRecord(_) | ReconcileAction::FetchDetail(_) => {
            lemma_step_fetch(then, puuid, listing, now, s, ask);
        },
        ReconcileAction::Store(p, step) => {
            lemma_step_store(then, puuid, listing, now, s, p, step);
        },
        ReconcileAction::Done(_) => {},
    }
}

/// Brings the store up to the provider's most recent records: asks the store
/// about each of the first [`RECENT_WINDOW`] records listed, and fetches and
/// ingests those that are planned.
pub fn reconcile(store: &mut CacheStore, puuid: &str, listing: &Vec<ListedRecord>) -> (r: Result<
    ReconcileReport,
    SyncError,
>)
    requires
        old(store)@.wf(),
    ensures
        final(store)@.wf(),
        (final(store)@, r) == reconcile_spec(old(store)@, puuid@, listing.deep_view()),
{
    let ghost then = store@;
    let started = ReconcileMachine::begin();
    let mut m: ReconcileMachine = started.0;
    let mut action: ReconcileAction = started.1;
    proof {
        assert(listing.deep_view().len() == listing.len());
        assert forall|i: int| 0 <= i < listing.deep_view().len() implies ((
        #[trigger] listing.deep_view()[i]).detail matches Some(frames) ==> frames.len()
            <= usize::MAX) by {
            assert(listing.deep_view()[i] == listing[i].deep_view());
            if listing[i].detail is Some {
                assert(listing[i].detail->0.deep_view().len() == listing[i].detail->0.len());
            }
        }
    }
    loop
        invariant
            in_run(then, puuid@, listing.deep_view(), store@, m@, action),
            then == old(store)@,
        decreases run_left(m@, action).0, run_left(m@, action).1, run_left(m@, action).2,
    {
        if let ReconcileAction::Done(r) = action {
            return r;
        }
        proof {
            lemma_run_step(then, puuid@, listing.deep_view(), store@, m@, action);
        }
        let with_details: bool = m.with_details;
        let event = respond(store, puuid, listing, with_details, action);
        let next = m.step(event);
        m = next.0;
        action = next.1;
    }
}

/// What reconciling and reading back comes to: the store afterwards, and the
/// key columns of the player's most recent stored matches, latest first and
/// [`RECENT_WINDOW`] at most, or the failure.
pub open spec fn reconcile_and_read_spec(
    v: StoreView,
    puuid: Seq<char>,
    listing: Seq<ListedRecordView>,
) -> (StoreView, Result<Seq<DbMatchRowView>, SyncError>) {
    let (after, r) = reconcile_spec(v, puuid, listing);
    match r {
        Ok(_) => (after, after.recent_matches(puuid, RECENT_WINDOW as int)),
        Err(e) => (after, Err(e)),
    }
}

/// Brings the store up to the provider's most recent records and returns the
/// player's most recent stored matches, latest first.
pub fn reconcile_and_read(store: &mut CacheStore, puuid: &str, listing: &Vec<ListedRecord>) -> (r:
    Result<Vec<DbMatchRow>, SyncError>)
    requires
        old(store)@.wf(),
    ensures
        final(store)@.wf(),
        (final(store)@, result_view(r)) == reconcile_and_read_spec(
            old(store)@,
            puuid@,
            listing.deep_view(),
        ),
{
    match reconcile(store, puuid, listing) {
        Ok(_) => store.get_recent_matches(puuid, RECENT_WINDOW as i64),
        Err(e) => Err(e),
    }
}

/// Whether the store holds each of the first `upto` planned records.
pub open spec fn holds_planned(
    v: StoreView,
    listing: Seq<ListedRecordView>,
    plan: Seq<usize>,
    upto: nat,
) -> bool {
    forall|k: int| 0 <= k < upto ==> v.has_match(listing[(#[trigger] plan[k]) as int].id)
}

/// Whether a remote id is that of one of the first `upto` planned records.
pub open spec fn is_planned(
    id: Seq<char>,
    listing: Seq<ListedRecordView>,
    plan: Seq<usize>,
    upto: nat,
) -> bool {
    exists|k: int| 0 <= k < upto && listing[(#[trigger] plan[k]) as int].id == id
}

/// Handling planned records only adds to the store, and adds nothing but
/// the planned records; where no failure ended the run, the store holds
/// every record handled.
pub proof fn lemma_backfill_adds_the_planned(
    v: StoreView,
    puuid: Seq<char>,
    listing: Seq<ListedRecordView>,
    plan: Seq<usize>,
    with_details: bool,
    upto: nat,
)
    requires
        v.wf(),
        upto <= plan.len(),
    ensures
        ({
            let (after, r) = backfilled(v, puuid, listing, plan, with_details, upto);
            &&& after.wf()
            &&& after.mark == v.mark
            &&& after.summoners == v.summoners
            &&& after.summaries == v.summaries
            &&& after.progress == v.progress
            &&& forall|id: Seq<char>| v.has_match(id) ==> #[trigger] after.has_match(id)
            &&& forall|id: Seq<char>| #[trigger]
                after.has_match(id) ==> v.has_match(id) || is_planned(id, listing, plan, upto)
            &&& r is Ok ==> holds_planned(after, listing, plan, upto)
        }),
    decreases upto,
{
    if upto > 0 {
        lemma_backfill_adds_the_planned(v, puuid, listing, plan, with_details, (upto - 1) as nat);
        let (before, so_far) = backfilled(
            v,
            puuid,
            listing,
            plan,
            with_details,
            (upto - 1) as nat,
        );
        let (after, r) = backfilled(v, puuid, listing, plan, with_details, upto);
        let p = plan[upto - 1];
        let record = listing[p as int];
        if so_far is Ok && !before.has_match(record.id) && record.body is Some {
            lemma_ingest_whole_or_not_at_all(
                before,
                match_row(record.id, puuid, record.body->0),
                detail_used(record, with_details),
            );
        }
        assert forall|id: Seq<char>| #[trigger] after.has_match(id) implies v.has_match(id)
            || is_planned(id, listing, plan, upto) by {
            if before.has_match(id) {
                if !v.has_match(id) {
                    let k = choose|k: int|
                        0 <= k < upto - 1 && listing[(#[trigger] plan[k]) as int].id == id;
                    assert(listing[plan[k] as int].id == id);
                }
            } else {
                assert(listing[plan[upto - 1] as int].id == id);
            }
        }
        if r is Ok {
            assert forall|k: int| 0 <= k < upto implies after.has_match(
                listing[(#[trigger] plan[k]) as int].id,
            ) by {
                if k < upto - 1 {
                    assert(before.has_match(listing[plan[k] as int].id));
                }
            }
        }
    }
}

/// Where the store holds every record that the provider lists, reconciling
/// fetches nothing and leaves the store as it is.
pub proof fn lemma_nothing_to_fetch(
    v: StoreView,
    puuid: Seq<char>,
    listing: Seq<ListedRecordView>,
)
    requires
        v.latest_match(puuid) is Ok,
        forall|i: int|
            0 <= i < window(listing.len() as usize) ==> v.has_match((#[trigger] listing[i]).id),
    ensures
        reconcile_spec(v, puuid, listing) == (
            v,
            Ok::<ReconcileReport, SyncError>(
                ReconcileReport {
                    listed: window(listing.len() as usize),
                    fetched: 0,
                    left_for_later: 0,
                },
            ),
        ),
{
    let listed = window(listing.len() as usize);
    let present = scanned(v, listing, listed as nat);
    lemma_missing_upto(present, present.len() as int);
    crate::plan::lemma_nothing_missing_nothing_planned(
        v.latest_match(puuid)->Ok_0 is None,
        present,
    );
}

/// Where reconciling ends well for a player with history, the store holds
/// every record that the provider listed, and what it held before.
pub proof fn lemma_warm_reconcile_is_complete(
    v: StoreView,
    puuid: Seq<char>,
    listing: Seq<ListedRecordView>,
)
    requires
        v.wf(),
        fits_in_memory(listing),
        v.latest_match(puuid) matches Ok(Some(_)),
        reconcile_spec(v, puuid, listing).1 is Ok,
    ensures
        ({
            let (after, r) = reconcile_spec(v, puuid, listing);
            &&& forall|i: int|
                0 <= i < window(listing.len() as usize) ==> after.has_match(
                    (#[trigger] listing[i]).id,
                )
            &&& forall|id: Seq<char>| v.has_match(id) ==> #[trigger] after.has_match(id)
            &&& r->Ok_0.left_for_later == 0
            &&& r->Ok_0.listed == window(listing.len() as usize)
        }),
{
    let listed = window(listing.len() as usize);
    let present = scanned(v, listing, listed as nat);
    let plan = planned_positions(false, present);
    let (after, r) = reconcile_spec(v, puuid, listing);
    lemma_missing_upto(present, present.len() as int);
    crate::plan::lemma_warm_plan_is_complete(present);
    lemma_backfill_adds_the_planned(v, puuid, listing, plan, true, plan.len());
    assert forall|i: int| 0 <= i < listed implies after.has_match((#[trigger] listing[i]).id) by {
        if present[i] {
            assert(v.has_match(listing[i].id));
        } else {
            assert(plan.contains(i as usize));
            let k = choose|k: int| 0 <= k < plan.len() && plan[k] == i as usize;
            assert(after.has_match(listing[plan[k] as int].id));
        }
    }
}

/// Where the first records planned are missing and are different records,
/// a body is fetched for each of them.
pub proof fn lemma_each_missing_record_is_fetched(
    v: StoreView,
    puuid: Seq<char>,
    listing: Seq<ListedRecordView>,
    plan: Seq<usize>,
    with_details: bool,
    upto: nat,
)
    requires
        v.wf(),
        upto <= plan.len(),
        forall|k: int| 0 <= k < upto ==> !v.has_match(listing[(#[trigger] plan[k]) as int].id),
        forall|j: int, k: int|
            0 <= j < k < upto ==> listing[(#[trigger] plan[j]) as int].id != listing[(
            #[trigger] plan[k]) as int].id,
        backfilled(v, puuid, listing, plan, with_details, upto).1 is Ok,
    ensures
        backfilled(v, puuid, listing, plan, with_details, upto).1 == Ok::<nat, SyncError>(upto),
    decreases upto,
{
    if upto > 0 {
        let (before, so_far) = backfilled(
            v,
            puuid,
            listing,
            plan,
            with_details,
            (upto - 1) as nat,
        );
        lemma_each_missing_record_is_fetched(
            v,
            puuid,
            listing,
            plan,
            with_details,
            (upto - 1) as nat,
        );
        lemma_backfill_adds_the_planned(v, puuid, listing, plan, with_details, (upto - 1) as nat);
        let id = listing[plan[upto - 1] as int].id;
        if before.has_match(id) {
            assert(is_planned(id, listing, plan, (upto - 1) as nat));
            let k = choose|k: int|
                0 <= k < upto - 1 && listing[(#[trigger] plan[k]) as int].id == id;
            assert(listing[plan[k] as int].id != listing[plan[upto - 1] as int].id);
        }
    }
}

/// A first reconciliation that finds ten different records missing, and
/// ends well, fetches the first three of them and leaves seven for later:
/// afterwards the store holds those three and none of the seven.
pub proof fn lemma_cold_start_fetches_three(
    v: StoreView,
    puuid: Seq<char>,
    listing: Seq<ListedRecordView>,
)
    requires
        v.wf(),
        fits_in_memory(listing),
        v.latest_match(puuid) == Ok::<Option<Seq<char>>, SyncError>(None),
        listing.len() >= RECENT_WINDOW,
        forall|i: int| 0 <= i < RECENT_WINDOW ==> !v.has_match((#[trigger] listing[i]).id),
        forall|i: int, j: int|
            0 <= i < j < RECENT_WINDOW ==> (#[trigger] listing[i]).id != (#[trigger] listing[j]).id,
        reconcile_spec(v, puuid, listing).1 is Ok,
    ensures
        ({
            let (after, r) = reconcile_spec(v, puuid, listing);
            &&& r == Ok::<ReconcileReport, SyncError>(
                ReconcileReport { listed: 10, fetched: 3, left_for_later: 7 },
            )
            &&& forall|i: int|
                0 <= i < RECENT_WINDOW ==> (after.has_match((#[trigger] listing[i]).id) <==> i
                    < COLD_START_LIMIT)
        }),
{
    let present = scanned(v, listing, RECENT_WINDOW as nat);
    let missing = missing_positions(present);
    let plan = planned_positions(true, present);
    let (after, r) = reconcile_spec(v, puuid, listing);
    lemma_missing_upto(present, present.len() as int);
    assert(missing.len() == RECENT_WINDOW);
    assert forall|k: int| 0 <= k < missing.len() implies #[trigger] missing[k] == k by {
        lemma_positions_are_their_own(missing, k);
    }
    assert(plan =~= missing.take(COLD_START_LIMIT as int));
    assert(plan[0] == 0 && plan[1] == 1 && plan[2] == 2);
    lemma_each_missing_record_is_fetched(v, puuid, listing, plan, false, plan.len());
    lemma_backfill_adds_the_planned(v, puuid, listing, plan, false, plan.len());
    assert forall|i: int| 0 <= i < RECENT_WINDOW implies (after.has_match(
        (#[trigger] listing[i]).id,
    ) <==> i < COLD_START_LIMIT) by {
        if i < COLD_START_LIMIT {
            assert(after.has_match(listing[plan[i] as int].id));
        } else if after.has_match(listing[i].id) {
            assert(is_planned(listing[i].id, listing, plan, plan.len()));
            let k = choose|k: int|
                0 <= k < plan.len() && listing[(#[trigger] plan[k]) as int].id == listing[i].id;
            assert(listing[k].id != listing[i].id);
        }
    }
}

/// As many ascending positions as there are positions at all are each its
/// own.
proof fn lemma_positions_are_their_own(positions: Seq<usize>, k: int)
    requires
        0 <= k < positions.len(),
        forall|i: int| 0 <= i < positions.len() ==> (#[trigger] positions[i]) < positions.len(),
        forall|i: int, j: int|
            0 <= i < j < positions.len() ==> (#[trigger] positions[i]) < (#[trigger] positions[j]),
    ensures
        positions[k] == k,
    decreases positions.len() - k,
{
    // Below `k` there are `k` smaller positions, and above it as many larger ones as are left.
    lemma_position_at_least(positions, k);
    lemma_position_at_most(positions, k);
}

proof fn lemma_position_at_least(positions: Seq<usize>, k: int)
    requires
        0 <= k < positions.len(),
        forall|i: int, j: int|
            0 <= i < j < positions.len() ==> (#[trigger] positions[i]) < (#[trigger] positions[j]),
    ensures
        positions[k] >= k,
    decreases k,
{
    if k > 0 {
        lemma_position_at_least(positions, k - 1);
    }
}

proof fn lemma_position_at_most(positions: Seq<usize>, k: int)
    requires
        0 <= k < positions.len(),
        forall|i: int| 0 <= i < positions.len() ==> (#[trigger] positions[i]) < positions.len(),
        forall|i: int, j: int|
            0 <= i < j < positions.len() ==> (#[trigger] positions[i]) < (#[trigger] positions[j]),
    ensures
        positions[k] <= k,
    decreases positions.len() - k,
{
    if k < positions.len() - 1 {
        lemma_position_at_most(positions, k + 1);
    }
}

} // verus!
