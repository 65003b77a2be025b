//! Bringing the store up to the provider's most recent records, as a
//! machine.
//!
//! The provider lists a player's most recent record ids. The machine asks
//! the store about each of the first [`RECENT_WINDOW`] of them, plans what to
//! fetch as [`crate::plan`] lays down, and has each planned record fetched
//! and persisted by the protocol of [`crate::ingest`]. Before a record is
//! fetched the store is asked about it once more: a record that another
//! synchronization stored in the meantime is not fetched again. A record that
//! fails to come, or to be stored, ends the run in failure; what was stored
//! before it stays stored.
//!
//! The machine does not fetch or store. It is told what came back and says
//! what to ask next. Records are named by their position in the provider's
//! list.

use vstd::prelude::*;
use crate::error::SyncError;
use crate::ingest::{
    ingest_next, ingest_start, lemma_zero_id_is_never_success, IngestAction, IngestEvent,
    IngestMachine,
};
use crate::plan::{
    lemma_missing_upto, missing_positions, plan_backfill, planned_positions, COLD_START_LIMIT,
    RECENT_WINDOW,
};

verus! {

/// Where a run stands: what it has asked for last.
#[derive(Clone, Copy, Debug, PartialEq, Eq)]
pub enum ReconcilePhase {
    /// Asked the store whether it holds any record of the player.
    AwaitLatest,
    /// Asked the provider for the player's most recent ids.
    AwaitIds,
    /// Asking the store about each listed id in turn.
    Scanning,
    /// Asking the store once more about a planned id, before fetching it.
    Rechecking,
    /// Asked for the body of a planned record.
    AwaitBody,
    /// Asked for the detail of a planned record.
    AwaitDetail,
    /// Persisting a fetched record.
    Ingesting,
    /// Done; the outcome is final.
    Finished,
}

/// What came back.
#[derive(Clone, Copy, Debug, PartialEq, Eq)]
pub enum ReconcileEvent {
    /// Whether the store holds any record of the player.
    LatestKnown(bool),
    /// The provider listed this many ids.
    RecentIds(usize),
    /// Whether the store holds the record asked about.
    RecordPresence(bool),
    /// The record's body came.
    RecordFetched,
    /// The record's detail came, with this many frames, or without any.
    DetailFetched(Option<usize>),
    /// The store answered a step of persisting the record.
    Store(IngestEvent),
    /// What was asked for failed.
    Failed,
}

/// What to ask for next.
#[derive(Clone, Copy, Debug, PartialEq, Eq)]
pub enum ReconcileAction {
    /// Ask the store whether it holds any record of the player.
    QueryLatest,
    /// Ask the provider for `count` of the player's most recent ids, from
    /// position `start`.
    ListRecentIds { start: u32, count: u32 },
    /// Ask the store whether it holds the record.
    CheckRecord(usize),
    /// Fetch the record's body.
    FetchRecord(usize),
    /// Fetch the record's detail.
    FetchDetail(usize),
    /// Do a step of persisting the record.
    Store(usize, IngestAction),
    /// Nothing more: what the run did, or why it failed.
    Done(Result<ReconcileReport, SyncError>),
}

/// What a run did.
#[derive(Clone, Copy, Debug, PartialEq, Eq)]
pub struct ReconcileReport {
    /// How many of the provider's recent ids were looked at.
    pub listed: usize,
    /// How many record bodies were fetched.
    pub fetched: usize,
    /// How many missing records were left for a later run.
    pub left_for_later: usize,
}

/// A run under way.
#[derive(Debug)]
pub struct ReconcileMachine {
    pub phase: ReconcilePhase,
    /// Whether the store held no record of the player at the start.
    pub cold_start: bool,
    /// How many of the provider's recent ids are looked at.
    pub listed: usize,
    /// What the store said of the ids asked about so far.
    pub present: Vec<bool>,
    /// The positions to fetch.
    pub plan: Vec<usize>,
    /// Whether each record's detail is fetched with it.
    pub with_details: bool,
    /// How many missing records the plan leaves for a later run.
    pub left_for_later: usize,
    /// The position in the plan of the record that is handled now.
    pub cursor: usize,
    /// How many record bodies were fetched so far.
    pub fetched: usize,
    /// The run that persists the record handled now.
    pub ingest: IngestMachine,
    /// The outcome, once the run is finished.
    pub outcome: Result<ReconcileReport, SyncError>,
}

/// A run under way, as plain values.
pub struct ReconcileState {
    pub phase: ReconcilePhase,
    pub cold_start: bool,
    pub listed: usize,
    pub present: Seq<bool>,
    pub plan: Seq<usize>,
    pub with_details: bool,
    pub left_for_later: usize,
    pub cursor: usize,
    pub fetched: usize,
    pub ingest: IngestMachine,
    pub outcome: Result<ReconcileReport, SyncError>,
}

impl View for ReconcileMachine {
    type V = ReconcileState;

    open spec fn view(&self) -> ReconcileState {
        ReconcileState {
            phase: self.phase,
            cold_start: self.cold_start,
            listed: self.listed,
            present: self.present@,
            plan: self.plan@,
            with_details: self.with_details,
            left_for_later: self.left_for_later,
            cursor: self.cursor,
            fetched: self.fetched,
            ingest: self.ingest,
            outcome: self.outcome,
        }
    }
}

/// How a run begins: by asking the store whether it holds any record of the
/// player.
pub open spec fn reconcile_start() -> (ReconcileState, ReconcileAction) {
    (
        ReconcileState {
            phase: ReconcilePhase::AwaitLatest,
            cold_start: false,
            listed: 0,
            present: Seq::empty(),
            plan: Seq::empty(),
            with_details: false,
            left_for_later: 0,
            cursor: 0,
            fetched: 0,
            ingest: ingest_start(None).0,
            outcome: Err(SyncError::StoreFailure),
        },
        ReconcileAction::QueryLatest,
    )
}

/// Fail with the error given.
pub open spec fn fail(s: ReconcileState, e: SyncError) -> (ReconcileState, ReconcileAction) {
    (
        ReconcileState { phase: ReconcilePhase::Finished, outcome: Err(e), ..s },
        ReconcileAction::Done(Err(e)),
    )
}

/// Move on with no more than the phase changed.
pub open spec fn go(s: ReconcileState, phase: ReconcilePhase, action: ReconcileAction) -> (
    ReconcileState,
    ReconcileAction,
) {
    (ReconcileState { phase: phase, ..s }, action)
}

/// What the run reports at its end.
pub open spec fn report_of(s: ReconcileState) -> ReconcileReport {
    ReconcileReport { listed: s.listed, fetched: s.fetched, left_for_later: s.left_for_later }
}

/// Turn to the planned record under the cursor, or, when the plan is
/// through, end the run.
pub open spec fn next_planned(s: ReconcileState) -> (ReconcileState, ReconcileAction) {
    if s.cursor < s.plan.len() {
        go(s, ReconcilePhase::Rechecking, ReconcileAction::CheckRecord(s.plan[s.cursor as int]))
    } else {
        (
            ReconcileState { phase: ReconcilePhase::Finished, outcome: Ok(report_of(s)), ..s },
            ReconcileAction::Done(Ok(report_of(s))),
        )
    }
}

/// Take up what the run that persists the record under the cursor asks for.
pub open spec fn persist(s: ReconcileState, run: (IngestMachine, IngestAction)) -> (
    ReconcileState,
    ReconcileAction,
) {
    let s = ReconcileState { ingest: run.0, ..s };
    match run.1 {
        IngestAction::Done(Ok(_)) => next_planned(
            ReconcileState { cursor: (s.cursor + 1) as usize, ..s },
        ),
        IngestAction::Done(Err(e)) => fail(s, e),
        ask => go(
            s,
            ReconcilePhase::Ingesting,
            ReconcileAction::Store(s.plan[s.cursor as int], ask),
        ),
    }
}

/// The number of ids looked at when the provider lists `n`.
pub open spec fn window(n: usize) -> usize {
    if n > RECENT_WINDOW {
        RECENT_WINDOW
    } else {
        n
    }
}

/// The transition: the state after what came back, and what to ask next.
pub open spec fn reconcile_next(s: ReconcileState, e: ReconcileEvent) -> (
    ReconcileState,
    ReconcileAction,
) {
    match s.phase {
        ReconcilePhase::AwaitLatest => match e {
            ReconcileEvent::LatestKnown(any) => go(
                ReconcileState { cold_start: !any, ..s },
                ReconcilePhase::AwaitIds,
                ReconcileAction::ListRecentIds { start: 0, count: RECENT_WINDOW as u32 },
            ),
            _ => fail(s, SyncError::StoreFailure),
        },
        ReconcilePhase::AwaitIds => match e {
            ReconcileEvent::RecentIds(n) => {
                let s = ReconcileState { listed: window(n), present: Seq::empty(), ..s };
                if s.listed == 0 {
                    next_planned(s)
                } else {
                    go(s, ReconcilePhase::Scanning, ReconcileAction::CheckRecord(0))
                }
            },
            _ => fail(s, SyncError::ProviderRequestFailed(None)),
        },
        ReconcilePhase::Scanning => match e {
            ReconcileEvent::RecordPresence(held) if s.present.len() < s.listed => {
                let present = s.present.push(held);
                if present.len() < s.listed {
                    go(
                        ReconcileState { present: present, ..s },
                        ReconcilePhase::Scanning,
                        ReconcileAction::CheckRecord(present.len() as usize),
                    )
                } else {
                    let plan = planned_positions(s.cold_start, present);
                    next_planned(
                        ReconcileState {
                            present: present,
                            plan: plan,
                            with_details: !s.cold_start,
                            left_for_later: (missing_positions(present).len()
                                - plan.len()) as usize,
                            cursor: 0,
                            ..s
                        },
                    )
                }
            },
            _ => fail(s, SyncError::StoreFailure),
        },
        ReconcilePhase::Rechecking => match e {
            ReconcileEvent::RecordPresence(true) if s.cursor < s.plan.len() => next_planned(
                ReconcileState { cursor: (s.cursor + 1) as usize, ..s },
            ),
            ReconcileEvent::RecordPresence(false) if s.cursor < s.plan.len() => go(
                s,
                ReconcilePhase::AwaitBody,
                ReconcileAction::FetchRecord(s.plan[s.cursor as int]),
            ),
            _ => fail(s, SyncError::StoreFailure),
        },
        ReconcilePhase::AwaitBody => if s.cursor < s.plan.len() && s.fetched < s.plan.len() {
            match e {
                ReconcileEvent::RecordFetched => {
                    let s = ReconcileState { fetched: (s.fetched + 1) as usize, ..s };
                    if s.with_details {
                        go(
                            s,
                            ReconcilePhase::AwaitDetail,
                            ReconcileAction::FetchDetail(s.plan[s.cursor as int]),
                        )
                    } else {
                        persist(s, ingest_start(None))
                    }
                },
                _ => fail(s, SyncError::ProviderRequestFailed(Some(s.plan[s.cursor as int]))),
            }
        } else {
            fail(s, SyncError::ProviderRequestFailed(None))
        },
        ReconcilePhase::AwaitDetail => if s.cursor < s.plan.len() {
            match e {
                ReconcileEvent::DetailFetched(frames) => persist(s, ingest_start(frames)),
                _ => fail(s, SyncError::ProviderRequestFailed(Some(s.plan[s.cursor as int]))),
            }
        } else {
            fail(s, SyncError::ProviderRequestFailed(None))
        },
        ReconcilePhase::Ingesting => if s.cursor < s.plan.len() {
            match e {
                ReconcileEvent::Store(answer) => persist(s, ingest_next(s.ingest, answer)),
                _ => persist(s, ingest_next(s.ingest, IngestEvent::Failed)),
            }
        } else {
            fail(s, SyncError::StoreFailure)
        },
        ReconcilePhase::Finished => (s, ReconcileAction::Done(s.outcome)),
    }
}

impl ReconcileState {
    /// What holds of every state that [`ReconcileMachine::begin`] and
    /// [`ReconcileMachine::step`] produce.
    pub open spec fn wf(self) -> bool {
        &&& self.listed <= RECENT_WINDOW
        &&& self.present.len() <= self.listed
        &&& self.plan.len() <= self.listed
        &&& self.cursor <= self.plan.len()
        &&& self.fetched <= self.plan.len()
        &&& self.fetched <= self.cursor + 1
        &&& self.ingest.wf()
        &&& self.cold_start ==> self.plan.len() <= COLD_START_LIMIT && !self.with_details
        &&& self.phase == ReconcilePhase::Scanning ==> self.present.len() < self.listed
        &&& self.before_plan() ==> {
            &&& self.plan.len() == 0
            &&& !self.with_details
            &&& self.left_for_later == 0
            &&& self.cursor == 0
            &&& self.fetched == 0
        }
        &&& self.in_backfill() ==> self.cursor < self.plan.len()
        &&& (self.phase == ReconcilePhase::Rechecking || self.phase == ReconcilePhase::AwaitBody)
            ==> self.fetched <= self.cursor
        &&& forall|k: int| 0 <= k < self.plan.len() ==> (#[trigger] self.plan[k]) < self.listed
    }

    /// Whether the plan is still to be made.
    pub open spec fn before_plan(self) -> bool {
        ||| self.phase == ReconcilePhase::AwaitLatest
        ||| self.phase == ReconcilePhase::AwaitIds
        ||| self.phase == ReconcilePhase::Scanning
    }

    /// Whether a planned record is being handled.
    pub open spec fn in_backfill(self) -> bool {
        ||| self.phase == ReconcilePhase::Rechecking
        ||| self.phase == ReconcilePhase::AwaitBody
        ||| self.phase == ReconcilePhase::AwaitDetail
        ||| self.phase == ReconcilePhase::Ingesting
    }
}

impl ReconcileMachine {
    /// Begins a run.
    pub fn begin() -> (r: (ReconcileMachine, ReconcileAction))
        ensures
            (r.0@, r.1) == reconcile_start(),
            r.0@.wf(),
    {
        (
            ReconcileMachine {
                phase: ReconcilePhase::AwaitLatest,
                cold_start: false,
                listed: 0,
                present: Vec::new(),
                plan: Vec::new(),
                with_details: false,
                left_for_later: 0,
                cursor: 0,
                fetched: 0,
                ingest: IngestMachine::start(None).0,
                outcome: Err(SyncError::StoreFailure),
            },
            ReconcileAction::QueryLatest,
        )
    }

    fn fail(self, e: SyncError) -> (r: (ReconcileMachine, ReconcileAction))
        ensures
            (r.0@, r.1) == fail(self@, e),
    {
        (
            ReconcileMachine { phase: ReconcilePhase::Finished, outcome: Err(e), ..self },
            ReconcileAction::Done(Err(e)),
        )
    }

    fn go(self, phase: ReconcilePhase, action: ReconcileAction) -> (r: (
        ReconcileMachine,
        ReconcileAction,
    ))
        ensures
            (r.0@, r.1) == go(self@, phase, action),
    {
        (ReconcileMachine { phase, ..self }, action)
    }

    fn next_planned(self) -> (r: (ReconcileMachine, ReconcileAction))
        ensures
            (r.0@, r.1) == next_planned(self@),
    {
        if self.cursor < self.plan.len() {
            let position: usize = self.plan[self.cursor];
            self.go(ReconcilePhase::Rechecking, ReconcileAction::CheckRecord(position))
        } else {
            let report = ReconcileReport {
                listed: self.listed,
                fetched: self.fetched,
                left_for_later: self.left_for_later,
            };
            (
                ReconcileMachine { phase: ReconcilePhase::Finished, outcome: Ok(report), ..self },
                ReconcileAction::Done(Ok(report)),
            )
        }
    }

    fn persist(self, run: (IngestMachine, IngestAction)) -> (r: (
        ReconcileMachine,
        ReconcileAction,
    ))
        requires
            self.cursor < self.plan.len(),
        ensures
            (r.0@, r.1) == persist(self@, run),
    {
        let m = ReconcileMachine { ingest: run.0, ..self };
        match run.1 {
            IngestAction::Done(Ok(_)) => {
                let cursor: usize = m.cursor + 1;
                ReconcileMachine { cursor, ..m }.next_planned()
            },
            IngestAction::Done(Err(e)) => m.fail(e),
            ask => {
                let position: usize = m.plan[m.cursor];
                m.go(ReconcilePhase::Ingesting, ReconcileAction::Store(position, ask))
            },
        }
    }

    fn on_ids(self, e: ReconcileEvent) -> (r: (ReconcileMachine, ReconcileAction))
        requires
            self@.wf(),
            self.phase == ReconcilePhase::AwaitIds,
        ensures
            (r.0@, r.1) == reconcile_next(self@, e),
    {
        match e {
            ReconcileEvent::RecentIds(n) => {
                let listed: usize = if n > RECENT_WINDOW {
                    RECENT_WINDOW
                } else {
                    n
                };
                let m = ReconcileMachine { listed, present: Vec::new(), ..self };
                if listed == 0 {
                    m.next_planned()
                } else {
                    m.go(ReconcilePhase::Scanning, ReconcileAction::CheckRecord(0))
                }
            },
            _ => self.fail(SyncError::ProviderRequestFailed(None)),
        }
    }

    fn on_scan(self, e: ReconcileEvent) -> (r: (ReconcileMachine, ReconcileAction))
        requires
            self@.wf(),
            self.phase == ReconcilePhase::Scanning,
        ensures
            (r.0@, r.1) == reconcile_next(self@, e),
    {
        match e {
            ReconcileEvent::RecordPresence(held) => {
                let mut present = self.present;
                present.push(held);
                if present.len() < self.listed {
                    let at: usize = present.len();
                    ReconcileMachine { present, ..self }.go(
                        ReconcilePhase::Scanning,
                        ReconcileAction::CheckRecord(at),
                    )
                } else {
                    let plan = plan_backfill(self.cold_start, &present);
                    ReconcileMachine {
                        present,
                        plan: plan.positions,
                        with_details: plan.with_details,
                        left_for_later: plan.left_for_later,
                        cursor: 0,
                        ..self
                    }.next_planned()
                }
            },
            _ => self.fail(SyncError::StoreFailure),
        }
    }

    fn on_recheck(self, e: ReconcileEvent) -> (r: (ReconcileMachine, ReconcileAction))
        requires
            self@.wf(),
            self.phase == ReconcilePhase::Rechecking,
        ensures
            (r.0@, r.1) == reconcile_next(self@, e),
    {
        match e {
            ReconcileEvent::RecordPresence(true) => {
                let cursor: usize = self.cursor + 1;
                ReconcileMachine { cursor, ..self }.next_planned()
            },
            ReconcileEvent::RecordPresence(false) => {
                let position: usize = self.plan[self.cursor];
                self.go(ReconcilePhase::AwaitBody, ReconcileAction::FetchRecord(position))
            },
            _ => self.fail(SyncError::StoreFailure),
        }
    }

    fn on_body(self, e: ReconcileEvent) -> (r: (ReconcileMachine, ReconcileAction))
        requires
            self@.wf(),
            self.phase == ReconcilePhase::AwaitBody,
        ensures
            (r.0@, r.1) == reconcile_next(self@, e),
    {
        let position: usize = self.plan[self.cursor];
        match e {
            ReconcileEvent::RecordFetched => {
                let fetched: usize = self.fetched + 1;
                let m = ReconcileMachine { fetched, ..self };
                if m.with_details {
                    m.go(ReconcilePhase::AwaitDetail, ReconcileAction::FetchDetail(position))
                } else {
                    m.persist(IngestMachine::start(None))
                }
            },
            _ => self.fail(SyncError::ProviderRequestFailed(Some(position))),
        }
    }

    fn on_detail(self, e: ReconcileEvent) -> (r: (ReconcileMachine, ReconcileAction))
        requires
            self@.wf(),
            self.phase == ReconcilePhase::AwaitDetail,
        ensures
            (r.0@, r.1) == reconcile_next(self@, e),
    {
        let position: usize = self.plan[self.cursor];
        match e {
            ReconcileEvent::DetailFetched(frames) => self.persist(IngestMachine::start(frames)),
            _ => self.fail(SyncError::ProviderRequestFailed(Some(position))),
        }
    }

    fn on_store(self, e: ReconcileEvent) -> (r: (ReconcileMachine, ReconcileAction))
        requires
            self@.wf(),
            self.phase == ReconcilePhase::Ingesting,
        ensures
            (r.0@, r.1) == reconcile_next(self@, e),
    {
        let answer = match e {
            ReconcileEvent::Store(answer) => answer,
            _ => IngestEvent::Failed,
        };
        let run = self.ingest.step(answer);
        self.persist(run)
    }

    /// Takes what came back and says what to ask next.
    pub fn step(self, e: ReconcileEvent) -> (r: (ReconcileMachine, ReconcileAction))
        requires
            self@.wf(),
        ensures
            (r.0@, r.1) == reconcile_next(self@, e),
            r.0@.wf(),
    {
        proof {
            lemma_wf_is_kept(self@, e);
        }
        match self.phase {
            ReconcilePhase::AwaitLatest => match e {
                ReconcileEvent::LatestKnown(any) => ReconcileMachine {
                    cold_start: !any,
                    ..self
                }.go(
                    ReconcilePhase::AwaitIds,
                    ReconcileAction::ListRecentIds { start: 0, count: RECENT_WINDOW as u32 },
                ),
                _ => self.fail(SyncError::StoreFailure),
            },
            ReconcilePhase::AwaitIds => self.on_ids(e),
            ReconcilePhase::Scanning => self.on_scan(e),
            ReconcilePhase::Rechecking => self.on_recheck(e),
            ReconcilePhase::AwaitBody => self.on_body(e),
            ReconcilePhase::AwaitDetail => self.on_detail(e),
            ReconcilePhase::Ingesting => self.on_store(e),
            ReconcilePhase::Finished => {
                let outcome = self.outcome;
                (self, ReconcileAction::Done(outcome))
            },
        }
    }
}

/// The transition keeps what holds of every state.
pub proof fn lemma_wf_is_kept(s: ReconcileState, e: ReconcileEvent)
    requires
        s.wf(),
    ensures
        reconcile_next(s, e).0.wf(),
{
    match s.phase {
        ReconcilePhase::Scanning => {
            if let ReconcileEvent::RecordPresence(held) = e {
                let present = s.present.push(held);
                lemma_missing_upto(present, present.len() as int);
                let missing = missing_positions(present);
                let plan = planned_positions(s.cold_start, present);
                assert(plan.len() <= missing.len());
                assert forall|k: int| 0 <= k < plan.len() implies (#[trigger] plan[k])
                    < s.listed by {
                    assert(plan[k] == missing[k]);
                }
            }
        },
        ReconcilePhase::Ingesting => {
            lemma_zero_id_is_never_success(s.ingest, IngestEvent::Failed);
            if let ReconcileEvent::Store(answer) = e {
                lemma_zero_id_is_never_success(s.ingest, answer);
            }
        },
        _ => {},
    }
}

/// What the machine asks for, one after the other, when it is told `events`
/// one after the other.
pub open spec fn reconcile_trace(s: ReconcileState, events: Seq<ReconcileEvent>) -> Seq<
    ReconcileAction,
>
    decreases events.len(),
{
    if events.len() == 0 {
        Seq::empty()
    } else {
        let (next, action) = reconcile_next(s, events[0]);
        seq![action] + reconcile_trace(next, events.drop_first())
    }
}

/// How many record bodies a sequence of actions fetches.
pub open spec fn bodies_fetched(actions: Seq<ReconcileAction>) -> nat
    decreases actions.len(),
{
    if actions.len() == 0 {
        0
    } else {
        bodies_fetched(actions.drop_first()) + if actions[0] is FetchRecord {
            1nat
        } else {
            0nat
        }
    }
}

/// Whether an action fetches from the provider's records or writes a record
/// to the store.
pub open spec fn touches_a_record(a: ReconcileAction) -> bool {
    a is FetchRecord || a is FetchDetail || a is Store
}

/// Records are fetched and stored as the plan says and in its order: a body
/// is fetched only after the store said once more that it does not hold the
/// record, and detail only where the plan asks for it. A record that fails to
/// come ends the run, and the failure names the record.
pub proof fn lemma_fetches_follow_the_plan(s: ReconcileState, e: ReconcileEvent)
    requires
        s.wf(),
    ensures
        reconcile_next(s, e).1 matches ReconcileAction::FetchRecord(p) ==> {
            &&& s.phase == ReconcilePhase::Rechecking
            &&& e == ReconcileEvent::RecordPresence(false)
            &&& p == s.plan[s.cursor as int]
        },
        reconcile_next(s, e).1 matches ReconcileAction::FetchDetail(p) ==> {
            &&& s.phase == ReconcilePhase::AwaitBody
            &&& s.with_details
            &&& p == s.plan[s.cursor as int]
        },
        reconcile_next(s, e).1 matches ReconcileAction::Store(p, _) ==> {
            &&& s.phase == ReconcilePhase::AwaitBody || s.phase == ReconcilePhase::AwaitDetail
                || s.phase == ReconcilePhase::Ingesting
            &&& p == s.plan[s.cursor as int]
        },
        reconcile_next(s, e).1 matches ReconcileAction::CheckRecord(p) ==> p < reconcile_next(
            s,
            e,
        ).0.listed,
        (s.phase == ReconcilePhase::AwaitBody && e != ReconcileEvent::RecordFetched)
            ==> reconcile_next(s, e).1 == ReconcileAction::Done(
            Err(SyncError::ProviderRequestFailed(Some(s.plan[s.cursor as int]))),
        ),
{
    lemma_wf_is_kept(s, e);
}

/// Where the store says of every record asked about that it holds it, the
/// machine fetches no record and writes none, whatever else comes back.
pub proof fn lemma_no_over_fetch(s: ReconcileState, events: Seq<ReconcileEvent>)
    requires
        s.wf(),
        !(s.phase == ReconcilePhase::AwaitBody || s.phase == ReconcilePhase::AwaitDetail || s.phase
            == ReconcilePhase::Ingesting),
        forall|k: int| 0 <= k < events.len() ==> events[k] != ReconcileEvent::RecordPresence(false),
    ensures
        forall|k: int|
            0 <= k < reconcile_trace(s, events).len() ==> !touches_a_record(
                #[trigger] reconcile_trace(s, events)[k],
            ),
        reconcile_trace(s, events).len() == events.len(),
    decreases events.len(),
{
    if events.len() > 0 {
        let (next, action) = reconcile_next(s, events[0]);
        lemma_wf_is_kept(s, events[0]);
        lemma_fetches_follow_the_plan(s, events[0]);
        let rest = events.drop_first();
        assert forall|k: int| 0 <= k < rest.len() implies rest[k]
            != ReconcileEvent::RecordPresence(false) by {
            assert(rest[k] == events[k + 1]);
        }
        lemma_no_over_fetch(next, rest);
        let tail = reconcile_trace(next, rest);
        assert forall|k: int| 0 <= k < reconcile_trace(s, events).len() implies !touches_a_record(
            #[trigger] reconcile_trace(s, events)[k],
        ) by {
            if k > 0 {
                assert(reconcile_trace(s, events)[k] == tail[k - 1]);
            }
        }
    }
}

/// How many record bodies the machine may still fetch on a cold start.
pub open spec fn cold_budget(s: ReconcileState) -> int {
    if s.before_plan() {
        COLD_START_LIMIT as int
    } else if s.phase == ReconcilePhase::Rechecking {
        s.plan.len() - s.cursor
    } else if s.in_backfill() {
        s.plan.len() - s.cursor - 1
    } else {
        0
    }
}

/// A first synchronization fetches at most [`COLD_START_LIMIT`] record
/// bodies and no detail, whatever comes back.
pub proof fn lemma_cold_start_fetches_little(s: ReconcileState, events: Seq<ReconcileEvent>)
    requires
        s.wf(),
        s.cold_start,
        s.phase != ReconcilePhase::AwaitLatest,
    ensures
        bodies_fetched(reconcile_trace(s, events)) <= cold_budget(s) <= COLD_START_LIMIT,
        forall|k: int|
            0 <= k < reconcile_trace(s, events).len() ==> !(#[trigger] reconcile_trace(
                s,
                events,
            )[k] is FetchDetail),
    decreases events.len(),
{
    if events.len() > 0 {
        let (next, action) = reconcile_next(s, events[0]);
        lemma_wf_is_kept(s, events[0]);
        lemma_fetches_follow_the_plan(s, events[0]);
        let rest = events.drop_first();
        lemma_cold_start_fetches_little(next, rest);
        let tail = reconcile_trace(next, rest);
        let trace = reconcile_trace(s, events);
        assert(trace.drop_first() =~= tail);
        assert(cold_budget(next) + (if action is FetchRecord { 1int } else { 0int })
            <= cold_budget(s));
        assert forall|k: int| 0 <= k < trace.len() implies !(#[trigger] trace[k]
            is FetchDetail) by {
            if k > 0 {
                assert(trace[k] == tail[k - 1]);
            }
        }
    }
}

} // verus!
