//! One synchronization of a player, as a machine.
//!
//! Everything a synchronization needs from outside is reached over a
//! network: the provider's gateway, the accounts, the records, the store. The
//! machine does none of it. It is told what came back and says what to ask
//! next; whoever runs it does the asking. The machine decides the order and
//! what a failure means:
//!
//! - a region that is not routed fails before anything is asked;
//! - a gateway that is down, a player that is not found, and a snapshot that
//!   cannot be stored fail the synchronization;
//! - the store is brought up to the provider's recent records as
//!   [`crate::reconcile`] lays down, and a failure there fails the
//!   synchronization;
//! - what is derived afterwards is allowed to fail: a record that cannot be
//!   summarized is left out, and a summary or a timeline that cannot be had
//!   is reported as missing.

use vstd::prelude::*;
use crate::error::SyncError;
use crate::plan::RECENT_WINDOW;
use crate::reconcile::{
    lemma_wf_is_kept, reconcile_next, reconcile_start, ReconcileAction, ReconcileEvent,
    ReconcileMachine, ReconcileReport, ReconcileState,
};
use crate::riot::{map_region, region_routes};
use crate::text::to_ascii_upper;

verus! {

/// Where a synchronization stands: what it has asked for last.
#[derive(Clone, Copy, Debug, PartialEq, Eq)]
pub enum SyncPhase {
    AwaitHealth,
    AwaitAccount,
    AwaitSummoner,
    AwaitRank,
    AwaitSnapshot,
    /// Bringing the store up to the provider's recent records.
    Reconciling,
    AwaitVersion,
    AwaitRecent,
    Summarizing,
    AwaitSummary,
    AwaitProgress,
    Finished,
}

/// What came back.
#[derive(Clone, Copy, Debug, PartialEq, Eq)]
pub enum SyncEvent {
    /// Whether the gateway answered its health check.
    Health(bool),
    /// The account was found.
    AccountResolved,
    /// No account goes by the name and tag.
    AccountUnknown,
    /// The summoner came.
    SummonerFetched,
    /// The rank came; whether tier, division and score are all known.
    RankFetched(bool),
    /// The snapshot was stored.
    SnapshotStored,
    /// What came back for the reconciliation.
    Reconcile(ReconcileEvent),
    /// The data version came.
    VersionFetched,
    /// The store returned this many recent records.
    RecentRecords(usize),
    /// Whether the record asked about could be summarized.
    Summarized(bool),
    /// Whether the summary could be compiled.
    SummaryCompiled(bool),
    /// Whether the timeline could be reconstructed.
    ProgressReconstructed(bool),
    /// What was asked for failed.
    Failed,
}

/// What to ask for next.
#[derive(Clone, Copy, Debug, PartialEq, Eq)]
pub enum SyncAction {
    CheckHealth,
    ResolveAccount,
    FetchSummoner,
    FetchRank,
    StoreSnapshot,
    /// Do what the reconciliation asks for.
    Reconcile(ReconcileAction),
    FetchVersion,
    /// Ask the store for the player's most recent records.
    QueryRecent { limit: i64 },
    /// Summarize the recent record at this position.
    Summarize(usize),
    CompileSummary,
    ReconstructProgress,
    /// Nothing more: what the synchronization did, or why it failed.
    Finish(Result<SyncReport, SyncError>),
}

/// What a synchronization did.
#[derive(Clone, Copy, Debug, PartialEq, Eq)]
pub struct SyncReport {
    /// How many of the provider's recent ids were looked at.
    pub listed: usize,
    /// How many record bodies were fetched.
    pub fetched: usize,
    /// How many missing records were left for a later synchronization.
    pub left_for_later: usize,
    /// How many recent records were summarized.
    pub summarized: usize,
    /// How many recent records could not be summarized and were left out.
    pub not_summarized: usize,
    /// Whether the summary could be compiled.
    pub has_stats: bool,
    /// Whether the ranked timeline could be reconstructed.
    pub has_progress: bool,
}

/// A synchronization under way.
#[derive(Debug)]
pub struct SyncMachine {
    pub phase: SyncPhase,
    /// Whether the player's tier, division and score are all known.
    pub rank_known: bool,
    /// The reconciliation.
    pub reconcile: ReconcileMachine,
    /// What the reconciliation did, once it is through.
    pub reconciled: ReconcileReport,
    /// How many recent records the store returned.
    pub recent: usize,
    /// How many of them were handled, and how many of those failed.
    pub handled: usize,
    pub not_summarized: usize,
    pub has_stats: bool,
    pub outcome: Result<SyncReport, SyncError>,
}

/// A synchronization under way, as plain values.
pub struct SyncState {
    pub phase: SyncPhase,
    pub rank_known: bool,
    pub reconcile: ReconcileState,
    pub reconciled: ReconcileReport,
    pub recent: usize,
    pub handled: usize,
    pub not_summarized: usize,
    pub has_stats: bool,
    pub outcome: Result<SyncReport, SyncError>,
}

impl View for SyncMachine {
    type V = SyncState;

    open spec fn view(&self) -> SyncState {
        SyncState {
            phase: self.phase,
            rank_known: self.rank_known,
            reconcile: self.reconcile@,
            reconciled: self.reconciled,
            recent: self.recent,
            handled: self.handled,
            not_summarized: self.not_summarized,
            has_stats: self.has_stats,
            outcome: self.outcome,
        }
    }
}

/// The state before anything was asked, in the phase given.
pub open spec fn fresh_state(phase: SyncPhase, outcome: Result<SyncReport, SyncError>)
    -> SyncState {
    SyncState {
        phase: phase,
        rank_known: false,
        reconcile: reconcile_start().0,
        reconciled: ReconcileReport { listed: 0, fetched: 0, left_for_later: 0 },
        recent: 0,
        handled: 0,
        not_summarized: 0,
        has_stats: false,
        outcome: outcome,
    }
}

/// How a synchronization begins: with a region that is routed, by checking
/// the gateway; with any other, by failing.
pub open spec fn sync_start(region: Seq<char>) -> (SyncState, SyncAction) {
    if region_routes(to_ascii_upper(region)) is Some {
        (
            fresh_state(SyncPhase::AwaitHealth, Err(SyncError::ProviderUnavailable)),
            SyncAction::CheckHealth,
        )
    } else {
        (
            fresh_state(SyncPhase::Finished, Err(SyncError::RegionUnsupported)),
            SyncAction::Finish(Err(SyncError::RegionUnsupported)),
        )
    }
}

/// Fail with the error given.
pub open spec fn fail(s: SyncState, e: SyncError) -> (SyncState, SyncAction) {
    (SyncState { phase: SyncPhase::Finished, outcome: Err(e), ..s }, SyncAction::Finish(Err(e)))
}

/// Move on with no more than the phase changed.
pub open spec fn go(s: SyncState, phase: SyncPhase, action: SyncAction) -> (SyncState, SyncAction) {
    (SyncState { phase: phase, ..s }, action)
}

/// Take up what the reconciliation asks for: pass it on, or, when the
/// reconciliation is through, turn to the overview.
pub open spec fn reconciling(s: SyncState, run: (ReconcileState, ReconcileAction)) -> (
    SyncState,
    SyncAction,
) {
    let s = SyncState { reconcile: run.0, ..s };
    match run.1 {
        ReconcileAction::Done(Ok(report)) => go(
            SyncState { reconciled: report, ..s },
            SyncPhase::AwaitVersion,
            SyncAction::FetchVersion,
        ),
        ReconcileAction::Done(Err(e)) => fail(s, e),
        ask => go(s, SyncPhase::Reconciling, SyncAction::Reconcile(ask)),
    }
}

/// Turn to the next recent record, or, when all were handled, to the
/// summary.
pub open spec fn summarize_or_compile(s: SyncState) -> (SyncState, SyncAction) {
    if s.handled < s.recent {
        go(s, SyncPhase::Summarizing, SyncAction::Summarize(s.handled))
    } else {
        go(s, SyncPhase::AwaitSummary, SyncAction::CompileSummary)
    }
}

/// What the synchronization reports at its end.
pub open spec fn report_of(s: SyncState, has_progress: bool) -> SyncReport {
    SyncReport {
        listed: s.reconciled.listed,
        fetched: s.reconciled.fetched,
        left_for_later: s.reconciled.left_for_later,
        summarized: (s.handled - s.not_summarized) as usize,
        not_summarized: s.not_summarized,
        has_stats: s.has_stats,
        has_progress: has_progress,
    }
}

/// End the synchronization with its report.
pub open spec fn finish(s: SyncState, has_progress: bool) -> (SyncState, SyncAction) {
    let report = report_of(s, has_progress);
    (
        SyncState { phase: SyncPhase::Finished, outcome: Ok(report), ..s },
        SyncAction::Finish(Ok(report)),
    )
}

/// What an event says to the reconciliation: what came back for it, or that
/// what it asked for failed.
pub open spec fn for_reconcile(e: SyncEvent) -> ReconcileEvent {
    match e {
        SyncEvent::Reconcile(answer) => answer,
        _ => ReconcileEvent::Failed,
    }
}

/// The transition: the state after what came back, and what to ask next.
pub open spec fn sync_next(s: SyncState, e: SyncEvent) -> (SyncState, SyncAction) {
    match s.phase {
        SyncPhase::AwaitHealth => match e {
            SyncEvent::Health(true) => go(s, SyncPhase::AwaitAccount, SyncAction::ResolveAccount),
            _ => fail(s, SyncError::ProviderUnavailable),
        },
        SyncPhase::AwaitAccount => match e {
            SyncEvent::AccountResolved => go(
                s,
                SyncPhase::AwaitSummoner,
                SyncAction::FetchSummoner,
            ),
            SyncEvent::AccountUnknown => fail(s, SyncError::IdentityNotResolvable),
            _ => fail(s, SyncError::ProviderRequestFailed(None)),
        },
        SyncPhase::AwaitSummoner => match e {
            SyncEvent::SummonerFetched => go(s, SyncPhase::AwaitRank, SyncAction::FetchRank),
            _ => fail(s, SyncError::ProviderRequestFailed(None)),
        },
        SyncPhase::AwaitRank => match e {
            SyncEvent::RankFetched(known) => go(
                SyncState { rank_known: known, ..s },
                SyncPhase::AwaitSnapshot,
                SyncAction::StoreSnapshot,
            ),
            _ => fail(s, SyncError::ProviderRequestFailed(None)),
        },
        SyncPhase::AwaitSnapshot => match e {
            SyncEvent::SnapshotStored => reconciling(s, reconcile_start()),
            _ => fail(s, SyncError::StoreFailure),
        },
        SyncPhase::Reconciling => reconciling(s, reconcile_next(s.reconcile, for_reconcile(e))),
        SyncPhase::AwaitVersion => match e {
            SyncEvent::VersionFetched => go(
                s,
                SyncPhase::AwaitRecent,
                SyncAction::QueryRecent { limit: RECENT_WINDOW as i64 },
            ),
            _ => fail(s, SyncError::ProviderRequestFailed(None)),
        },
        SyncPhase::AwaitRecent => match e {
            SyncEvent::RecentRecords(n) => summarize_or_compile(
                SyncState { recent: n, handled: 0, not_summarized: 0, ..s },
            ),
            _ => fail(s, SyncError::StoreFailure),
        },
        SyncPhase::Summarizing => if s.handled < s.recent && s.not_summarized <= s.handled {
            let missed: usize = if e == SyncEvent::Summarized(true) {
                0
            } else {
                1
            };
            summarize_or_compile(
                SyncState {
                    handled: (s.handled + 1) as usize,
                    not_summarized: (s.not_summarized + missed) as usize,
                    ..s
                },
            )
        } else {
            go(s, SyncPhase::AwaitSummary, SyncAction::CompileSummary)
        },
        SyncPhase::AwaitSummary => {
            let s = SyncState { has_stats: e == SyncEvent::SummaryCompiled(true), ..s };
            if s.rank_known {
                go(s, SyncPhase::AwaitProgress, SyncAction::ReconstructProgress)
            } else {
                finish(s, false)
            }
        },
        SyncPhase::AwaitProgress => finish(s, e == SyncEvent::ProgressReconstructed(true)),
        SyncPhase::Finished => (s, SyncAction::Finish(s.outcome)),
    }
}

impl SyncState {
    /// What holds of every state that [`SyncMachine::begin`] and
    /// [`SyncMachine::step`] produce.
    pub open spec fn wf(self) -> bool {
        &&& self.reconcile.wf()
        &&& self.not_summarized <= self.handled <= self.recent
        &&& self.phase == SyncPhase::Summarizing ==> self.handled < self.recent
    }
}

impl SyncMachine {
    fn fresh(phase: SyncPhase, outcome: Result<SyncReport, SyncError>) -> (m: SyncMachine)
        requires
            phase == SyncPhase::AwaitHealth || phase == SyncPhase::Finished,
        ensures
            m@ == fresh_state(phase, outcome),
            m@.wf(),
    {
        SyncMachine {
            phase,
            rank_known: false,
            reconcile: ReconcileMachine::begin().0,
            reconciled: ReconcileReport { listed: 0, fetched: 0, left_for_later: 0 },
            recent: 0,
            handled: 0,
            not_summarized: 0,
            has_stats: false,
            outcome,
        }
    }

    /// Begins a synchronization for a player of the region given.
    pub fn begin(region: &str) -> (r: (SyncMachine, SyncAction))
        ensures
            (r.0@, r.1) == sync_start(region@),
            r.0@.wf(),
    {
        if map_region(region).is_some() {
            (
                SyncMachine::fresh(SyncPhase::AwaitHealth, Err(SyncError::ProviderUnavailable)),
                SyncAction::CheckHealth,
            )
        } else {
            (
                SyncMachine::fresh(SyncPhase::Finished, Err(SyncError::RegionUnsupported)),
                SyncAction::Finish(Err(SyncError::RegionUnsupported)),
            )
        }
    }

    fn fail(self, e: SyncError) -> (r: (SyncMachine, SyncAction))
        ensures
            (r.0@, r.1) == fail(self@, e),
    {
        (
            SyncMachine { phase: SyncPhase::Finished, outcome: Err(e), ..self },
            SyncAction::Finish(Err(e)),
        )
    }

    fn go(self, phase: SyncPhase, action: SyncAction) -> (r: (SyncMachine, SyncAction))
        ensures
            (r.0@, r.1) == go(self@, phase, action),
    {
        (SyncMachine { phase, ..self }, action)
    }

    fn summarize_or_compile(self) -> (r: (SyncMachine, SyncAction))
        ensures
            (r.0@, r.1) == summarize_or_compile(self@),
    {
        if self.handled < self.recent {
            let at: usize = self.handled;
            self.go(SyncPhase::Summarizing, SyncAction::Summarize(at))
        } else {
            self.go(SyncPhase::AwaitSummary, SyncAction::CompileSummary)
        }
    }

    fn finish(self, has_progress: bool) -> (r: (SyncMachine, SyncAction))
        requires
            self.not_summarized <= self.handled,
        ensures
            (r.0@, r.1) == finish(self@, has_progress),
    {
        let report = SyncReport {
            listed: self.reconciled.listed,
            fetched: self.reconciled.fetched,
            left_for_later: self.reconciled.left_for_later,
            summarized: self.handled - self.not_summarized,
            not_summarized: self.not_summarized,
            has_stats: self.has_stats,
            has_progress,
        };
        (
            SyncMachine { phase: SyncPhase::Finished, outcome: Ok(report), ..self },
            SyncAction::Finish(Ok(report)),
        )
    }

    /// The steps before the reconciliation.
    fn on_setup(self, e: SyncEvent) -> (r: (SyncMachine, SyncAction))
        requires
            self@.wf(),
            self.phase == SyncPhase::AwaitHealth || self.phase == SyncPhase::AwaitAccount
                || self.phase == SyncPhase::AwaitSummoner || self.phase == SyncPhase::AwaitRank,
        ensures
            (r.0@, r.1) == sync_next(self@, e),
    {
        match self.phase {
            SyncPhase::AwaitHealth => match e {
                SyncEvent::Health(true) => self.go(
                    SyncPhase::AwaitAccount,
                    SyncAction::ResolveAccount,
                ),
                _ => self.fail(SyncError::ProviderUnavailable),
            },
            SyncPhase::AwaitAccount => match e {
                SyncEvent::AccountResolved => self.go(
                    SyncPhase::AwaitSummoner,
                    SyncAction::FetchSummoner,
                ),
                SyncEvent::AccountUnknown => self.fail(SyncError::IdentityNotResolvable),
                _ => self.fail(SyncError::ProviderRequestFailed(None)),
            },
            SyncPhase::AwaitSummoner => match e {
                SyncEvent::SummonerFetched => self.go(SyncPhase::AwaitRank, SyncAction::FetchRank),
                _ => self.fail(SyncError::ProviderRequestFailed(None)),
            },
            _ => match e {
                SyncEvent::RankFetched(known) => SyncMachine { rank_known: known, ..self }.go(
                    SyncPhase::AwaitSnapshot,
                    SyncAction::StoreSnapshot,
                ),
                _ => self.fail(SyncError::ProviderRequestFailed(None)),
            },
        }
    }

    /// The steps of the reconciliation.
    fn on_reconcile(self, e: SyncEvent) -> (r: (SyncMachine, SyncAction))
        requires
            self@.wf(),
            self.phase == SyncPhase::AwaitSnapshot || self.phase == SyncPhase::Reconciling,
        ensures
            (r.0@, r.1) == sync_next(self@, e),
    {
        let run = match self.phase {
            SyncPhase::AwaitSnapshot => match e {
                SyncEvent::SnapshotStored => ReconcileMachine::begin(),
                _ => {
                    return self.fail(SyncError::StoreFailure);
                },
            },
            _ => {
                let answer = match e {
                    SyncEvent::Reconcile(answer) => answer,
                    _ => ReconcileEvent::Failed,
                };
                self.reconcile.step(answer)
            },
        };
        let m = SyncMachine { reconcile: run.0, ..self };
        match run.1 {
            ReconcileAction::Done(Ok(report)) => SyncMachine { reconciled: report, ..m }.go(
                SyncPhase::AwaitVersion,
                SyncAction::FetchVersion,
            ),
            ReconcileAction::Done(Err(e)) => m.fail(e),
            ask => m.go(SyncPhase::Reconciling, SyncAction::Reconcile(ask)),
        }
    }

    /// The steps after the reconciliation.
    fn on_overview(self, e: SyncEvent) -> (r: (SyncMachine, SyncAction))
        requires
            self@.wf(),
            self.phase == SyncPhase::AwaitVersion || self.phase == SyncPhase::AwaitRecent
                || self.phase == SyncPhase::Summarizing || self.phase == SyncPhase::AwaitSummary
                || self.phase == SyncPhase::AwaitProgress || self.phase == SyncPhase::Finished,
        ensures
            (r.0@, r.1) == sync_next(self@, e),
    {
        match self.phase {
            SyncPhase::AwaitVersion => match e {
                SyncEvent::VersionFetched => self.go(
                    SyncPhase::AwaitRecent,
                    SyncAction::QueryRecent { limit: RECENT_WINDOW as i64 },
                ),
                _ => self.fail(SyncError::ProviderRequestFailed(None)),
            },
            SyncPhase::AwaitRecent => match e {
                SyncEvent::RecentRecords(n) => SyncMachine {
                    recent: n,
                    handled: 0,
                    not_summarized: 0,
                    ..self
                }.summarize_or_compile(),
                _ => self.fail(SyncError::StoreFailure),
            },
            SyncPhase::Summarizing => {
                let missed: usize = match e {
                    SyncEvent::Summarized(true) => 0,
                    _ => 1,
                };
                let handled: usize = self.handled + 1;
                let not_summarized: usize = self.not_summarized + missed;
                SyncMachine { handled, not_summarized, ..self }.summarize_or_compile()
            },
            SyncPhase::AwaitSummary => {
                let has_stats: bool = match e {
                    SyncEvent::SummaryCompiled(true) => true,
                    _ => false,
                };
                let m = SyncMachine { has_stats, ..self };
                if m.rank_known {
                    m.go(SyncPhase::AwaitProgress, SyncAction::ReconstructProgress)
                } else {
                    m.finish(false)
                }
            },
            SyncPhase::AwaitProgress => {
                let has_progress: bool = match e {
                    SyncEvent::ProgressReconstructed(true) => true,
                    _ => false,
                };
                self.finish(has_progress)
            },
            _ => {
                let outcome = self.outcome;
                (self, SyncAction::Finish(outcome))
            },
        }
    }

    /// Takes what came back and says what to ask next.
    pub fn step(self, e: SyncEvent) -> (r: (SyncMachine, SyncAction))
        requires
            self@.wf(),
        ensures
            (r.0@, r.1) == sync_next(self@, e),
            r.0@.wf(),
    {
        proof {
            lemma_sync_wf_is_kept(self@, e);
        }
        match self.phase {
            SyncPhase::AwaitHealth
            | SyncPhase::AwaitAccount
            | SyncPhase::AwaitSummoner
            | SyncPhase::AwaitRank => self.on_setup(e),
            SyncPhase::AwaitSnapshot | SyncPhase::Reconciling => self.on_reconcile(e),
            SyncPhase::AwaitVersion
            | SyncPhase::AwaitRecent
            | SyncPhase::Summarizing
            | SyncPhase::AwaitSummary
            | SyncPhase::AwaitProgress
            | SyncPhase::Finished => self.on_overview(e),
        }
    }
}

/// The transition keeps what holds of every state.
pub proof fn lemma_sync_wf_is_kept(s: SyncState, e: SyncEvent)
    requires
        s.wf(),
    ensures
        sync_next(s, e).0.wf(),
{
    if s.phase == SyncPhase::Reconciling {
        lemma_wf_is_kept(s.reconcile, for_reconcile(e));
    }
}

/// A synchronization asks of the provider's records and of the store's only
/// what its reconciliation asks, and goes on to the overview only when the
/// reconciliation has ended well.
pub proof fn lemma_sync_follows_its_reconciliation(s: SyncState, e: SyncEvent)
    requires
        s.wf(),
    ensures
        sync_next(s, e).1 matches SyncAction::Reconcile(ask) ==> {
            ||| s.phase == SyncPhase::AwaitSnapshot && ask == reconcile_start().1
            ||| s.phase == SyncPhase::Reconciling && ask == reconcile_next(
                s.reconcile,
                for_reconcile(e),
            ).1
        },
        (s.phase == SyncPhase::Reconciling && sync_next(s, e).1 == SyncAction::FetchVersion)
            ==> reconcile_next(s.reconcile, for_reconcile(e)).1 is Done && reconcile_next(
            s.reconcile,
            for_reconcile(e),
        ).1->Done_0 is Ok,
        s.phase == SyncPhase::Reconciling ==> (reconcile_next(s.reconcile, for_reconcile(e)).1
            matches ReconcileAction::Done(Err(failure)) ==> sync_next(s, e).1
            == SyncAction::Finish(Err(failure))),
{
}

/// What is derived after the reconciliation does not fail the
/// synchronization: once the recent records are known, it ends with a
/// report, whatever comes back.
pub proof fn lemma_overview_tolerates_failures(s: SyncState, e: SyncEvent)
    requires
        s.wf(),
        s.phase == SyncPhase::Summarizing || s.phase == SyncPhase::AwaitSummary || s.phase
            == SyncPhase::AwaitProgress,
    ensures
        !(sync_next(s, e).1 matches SyncAction::Finish(Err(_))),
        sync_next(s, e).0.phase == SyncPhase::Finished ==> sync_next(s, e).0.outcome is Ok,
{
}

} // verus!
