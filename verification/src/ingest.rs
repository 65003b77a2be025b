//! The protocol that persists one fetched record with its detail frames.
//!
//! The store is reached over a network, so the protocol is written as a
//! machine: it is told what the store answered and says what to ask next. One
//! run opens a transaction, inserts the record unless the store already has
//! it, learns the record's surrogate id, inserts each detail frame that the
//! store does not have yet, and commits. A failure on the way rolls the
//! transaction back. A surrogate id of zero is a fault of the store and never
//! a success.

use vstd::prelude::*;
use crate::error::SyncError;

verus! {

/// The highest number of detail frames one record can have: frames are
/// numbered in the store by a 32-bit column.
pub const MAX_FRAMES: usize = 2147483647;

/// Where a run of the protocol stands.
#[derive(Clone, Copy, Debug, PartialEq, Eq)]
pub enum IngestPhase {
    /// Asked for a transaction.
    Opening,
    /// Asked to insert the record.
    Inserting,
    /// The record was there already; asked for its surrogate id.
    Resolving,
    /// Asked whether the next frame is stored.
    CheckingFrame,
    /// Asked to insert the next frame.
    InsertingFrame,
    /// Asked to commit.
    Committing,
    /// Asked to roll back.
    RollingBack,
    /// Done; the outcome is final.
    Finished,
}

/// What the store answered.
#[derive(Clone, Copy, Debug, PartialEq, Eq)]
pub enum IngestEvent {
    /// A transaction is open.
    TxOpened,
    /// The insert ran: the new surrogate id, or nothing where the record was
    /// there already.
    RecordInserted(Option<i64>),
    /// The surrogate id found for the record, if any.
    SurrogateId(Option<i64>),
    /// Whether the frame asked about is stored.
    FramePresence(bool),
    /// The frame was inserted.
    FrameInserted,
    /// The transaction was committed.
    Committed,
    /// The transaction was rolled back.
    RolledBack,
    /// The store failed to do what was asked.
    Failed,
}

/// What to ask of the store next.
#[derive(Clone, Copy, Debug, PartialEq, Eq)]
pub enum IngestAction {
    /// Open a transaction.
    BeginTx,
    /// Insert the record, doing nothing where its remote id is taken.
    InsertRecord,
    /// Read the surrogate id stored for the record's remote id.
    LookupSurrogateId,
    /// Ask whether the frame with this index is stored for this record.
    CheckFrame { mid: i64, index: i32 },
    /// Insert the frame with this index for this record.
    InsertFrame { mid: i64, index: i32 },
    /// Commit the transaction.
    Commit,
    /// Roll the transaction back.
    Rollback,
    /// Nothing more: the record's surrogate id, or why the run failed.
    Done(Result<i64, SyncError>),
}

/// One run of the protocol.
#[derive(Clone, Copy, Debug)]
pub struct IngestMachine {
    pub phase: IngestPhase,
    /// How many detail frames the record came with.
    pub frame_count: i32,
    /// The index of the frame that is handled next.
    pub next_frame: i32,
    /// The record's surrogate id, once the store has told it.
    pub mid: i64,
    /// The outcome, once the run is rolling back or finished.
    pub outcome: Result<i64, SyncError>,
}

/// The machine and the first action for a record with `frames` detail frames
/// (`None` where the record came without detail).
pub open spec fn ingest_start(frames: Option<usize>) -> (IngestMachine, IngestAction) {
    let count = match frames {
        Some(n) => n,
        None => 0,
    };
    if count > MAX_FRAMES {
        (
            IngestMachine {
                phase: IngestPhase::Finished,
                frame_count: 0,
                next_frame: 0,
                mid: 0,
                outcome: Err(SyncError::StoreFailure),
            },
            IngestAction::Done(Err(SyncError::StoreFailure)),
        )
    } else {
        (
            IngestMachine {
                phase: IngestPhase::Opening,
                frame_count: count as i32,
                next_frame: 0,
                mid: 0,
                outcome: Err(SyncError::StoreFailure),
            },
            IngestAction::BeginTx,
        )
    }
}

/// With the surrogate id known: turn to the next frame, or commit when no
/// frame is left.
pub open spec fn frames_or_commit(m: IngestMachine) -> (IngestMachine, IngestAction) {
    if m.next_frame < m.frame_count {
        (
            IngestMachine { phase: IngestPhase::CheckingFrame, ..m },
            IngestAction::CheckFrame { mid: m.mid, index: m.next_frame },
        )
    } else {
        (IngestMachine { phase: IngestPhase::Committing, ..m }, IngestAction::Commit)
    }
}

/// Give the run up inside its transaction: roll back, then fail.
pub open spec fn roll_back(m: IngestMachine) -> (IngestMachine, IngestAction) {
    (
        IngestMachine {
            phase: IngestPhase::RollingBack,
            outcome: Err(SyncError::StoreFailure),
            ..m
        },
        IngestAction::Rollback,
    )
}

/// The transition of the protocol: the machine after the store's answer, and
/// what to ask next.
pub open spec fn ingest_next(m: IngestMachine, e: IngestEvent) -> (IngestMachine, IngestAction) {
    match m.phase {
        IngestPhase::Opening => match e {
            IngestEvent::TxOpened => (
                IngestMachine { phase: IngestPhase::Inserting, ..m },
                IngestAction::InsertRecord,
            ),
            _ => (
                IngestMachine {
                    phase: IngestPhase::Finished,
                    outcome: Err(SyncError::StoreFailure),
                    ..m
                },
                IngestAction::Done(Err(SyncError::StoreFailure)),
            ),
        },
        IngestPhase::Inserting => match e {
            IngestEvent::RecordInserted(Some(mid)) if mid != 0 => frames_or_commit(
                IngestMachine { mid: mid, next_frame: 0, ..m },
            ),
            IngestEvent::RecordInserted(None) => (
                IngestMachine { phase: IngestPhase::Resolving, ..m },
                IngestAction::LookupSurrogateId,
            ),
            _ => roll_back(m),
        },
        IngestPhase::Resolving => match e {
            IngestEvent::SurrogateId(Some(mid)) if mid != 0 => frames_or_commit(
                IngestMachine { mid: mid, next_frame: 0, ..m },
            ),
            _ => roll_back(m),
        },
        IngestPhase::CheckingFrame => match e {
            IngestEvent::FramePresence(true) if m.next_frame < m.frame_count => frames_or_commit(
                IngestMachine { next_frame: (m.next_frame + 1) as i32, ..m },
            ),
            IngestEvent::FramePresence(false) if m.next_frame < m.frame_count => (
                IngestMachine { phase: IngestPhase::InsertingFrame, ..m },
                IngestAction::InsertFrame { mid: m.mid, index: m.next_frame },
            ),
            _ => roll_back(m),
        },
        IngestPhase::InsertingFrame => match e {
            IngestEvent::FrameInserted if m.next_frame < m.frame_count => frames_or_commit(
                IngestMachine { next_frame: (m.next_frame + 1) as i32, ..m },
            ),
            _ => roll_back(m),
        },
        IngestPhase::Committing => match e {
            IngestEvent::Committed if m.mid != 0 => (
                IngestMachine { phase: IngestPhase::Finished, outcome: Ok(m.mid), ..m },
                IngestAction::Done(Ok(m.mid)),
            ),
            _ => roll_back(m),
        },
        IngestPhase::RollingBack => (
            IngestMachine { phase: IngestPhase::Finished, ..m },
            IngestAction::Done(m.outcome),
        ),
        IngestPhase::Finished => (m, IngestAction::Done(m.outcome)),
    }
}

impl IngestMachine {
    /// What holds of every machine that [`IngestMachine::start`] and
    /// [`IngestMachine::step`] produce.
    pub open spec fn wf(self) -> bool {
        &&& 0 <= self.next_frame <= self.frame_count
        &&& (self.phase == IngestPhase::CheckingFrame || self.phase == IngestPhase::InsertingFrame)
            ==> self.next_frame < self.frame_count
        &&& (self.phase == IngestPhase::CheckingFrame || self.phase == IngestPhase::InsertingFrame
            || self.phase == IngestPhase::Committing) ==> self.mid != 0
        &&& self.phase == IngestPhase::RollingBack ==> self.outcome is Err
        &&& self.outcome matches Ok(id) ==> id != 0 && id == self.mid && self.phase
            == IngestPhase::Finished
    }

    /// Begins a run for a record that came with `frames` detail frames, or
    /// without detail.
    pub fn start(frames: Option<usize>) -> (r: (IngestMachine, IngestAction))
        ensures
            r == ingest_start(frames),
            r.0.wf(),
    {
        let count: usize = match frames {
            Some(n) => n,
            None => 0,
        };
        let failed: Result<i64, SyncError> = Err(SyncError::StoreFailure);
        if count > MAX_FRAMES {
            (
                IngestMachine {
                    phase: IngestPhase::Finished,
                    frame_count: 0,
                    next_frame: 0,
                    mid: 0,
                    outcome: failed,
                },
                IngestAction::Done(failed),
            )
        } else {
            (
                IngestMachine {
                    phase: IngestPhase::Opening,
                    frame_count: count as i32,
                    next_frame: 0,
                    mid: 0,
                    outcome: failed,
                },
                IngestAction::BeginTx,
            )
        }
    }

    fn frames_or_commit(self) -> (r: (IngestMachine, IngestAction))
        ensures
            r == frames_or_commit(self),
    {
        if self.next_frame < self.frame_count {
            (
                IngestMachine { phase: IngestPhase::CheckingFrame, ..self },
                IngestAction::CheckFrame { mid: self.mid, index: self.next_frame },
            )
        } else {
            (IngestMachine { phase: IngestPhase::Committing, ..self }, IngestAction::Commit)
        }
    }

    fn roll_back(self) -> (r: (IngestMachine, IngestAction))
        ensures
            r == roll_back(self),
    {
        (
            IngestMachine {
                phase: IngestPhase::RollingBack,
                outcome: Err(SyncError::StoreFailure),
                ..self
            },
            IngestAction::Rollback,
        )
    }

    /// Takes the store's answer and says what to ask next.
    pub fn step(self, e: IngestEvent) -> (r: (IngestMachine, IngestAction))
        ensures
            r == ingest_next(self, e),
            self.wf() ==> r.0.wf(),
    {
        match self.phase {
            IngestPhase::Opening => match e {
                IngestEvent::TxOpened => (
                    IngestMachine { phase: IngestPhase::Inserting, ..self },
                    IngestAction::InsertRecord,
                ),
                _ => (
                    IngestMachine {
                        phase: IngestPhase::Finished,
                        outcome: Err(SyncError::StoreFailure),
                        ..self
                    },
                    IngestAction::Done(Err(SyncError::StoreFailure)),
                ),
            },
            IngestPhase::Inserting => match e {
                IngestEvent::RecordInserted(Some(mid)) => {
                    if mid != 0 {
                        IngestMachine { mid: mid, next_frame: 0, ..self }.frames_or_commit()
                    } else {
                        self.roll_back()
                    }
                },
                IngestEvent::RecordInserted(None) => (
                    IngestMachine { phase: IngestPhase::Resolving, ..self },
                    IngestAction::LookupSurrogateId,
                ),
                _ => self.roll_back(),
            },
            IngestPhase::Resolving => match e {
                IngestEvent::SurrogateId(Some(mid)) => {
                    if mid != 0 {
                        IngestMachine { mid: mid, next_frame: 0, ..self }.frames_or_commit()
                    } else {
                        self.roll_back()
                    }
                },
                _ => self.roll_back(),
            },
            IngestPhase::CheckingFrame => match e {
                IngestEvent::FramePresence(stored) => {
                    if self.next_frame < self.frame_count {
                        if stored {
                            IngestMachine {
                                next_frame: self.next_frame + 1,
                                ..self
                            }.frames_or_commit()
                        } else {
                            (
                                IngestMachine { phase: IngestPhase::InsertingFrame, ..self },
                                IngestAction::InsertFrame {
                                    mid: self.mid,
                                    index: self.next_frame,
                                },
                            )
                        }
                    } else {
                        self.roll_back()
                    }
                },
                _ => self.roll_back(),
            },
            IngestPhase::InsertingFrame => match e {
                IngestEvent::FrameInserted => {
                    if self.next_frame < self.frame_count {
                        IngestMachine { next_frame: self.next_frame + 1, ..self }.frames_or_commit()
                    } else {
                        self.roll_back()
                    }
                },
                _ => self.roll_back(),
            },
            IngestPhase::Committing => match e {
                IngestEvent::Committed => {
                    if self.mid != 0 {
                        (
                            IngestMachine {
                                phase: IngestPhase::Finished,
                                outcome: Ok(self.mid),
                                ..self
                            },
                            IngestAction::Done(Ok(self.mid)),
                        )
                    } else {
                        self.roll_back()
                    }
                },
                _ => self.roll_back(),
            },
            IngestPhase::RollingBack => (
                IngestMachine { phase: IngestPhase::Finished, ..self },
                IngestAction::Done(self.outcome),
            ),
            IngestPhase::Finished => (self, IngestAction::Done(self.outcome)),
        }
    }
}

/// A run never reports success with a surrogate id of zero, whatever the
/// store answers.
pub proof fn lemma_zero_id_is_never_success(m: IngestMachine, e: IngestEvent)
    requires
        m.wf(),
    ensures
        ingest_next(m, e).1 matches IngestAction::Done(Ok(id)) ==> id != 0,
        ingest_next(m, e).0.wf(),
{
}

/// A run reports success only after the store has confirmed the commit, and
/// once it has asked to roll back it ends in failure.
pub proof fn lemma_outcome_follows_transaction(m: IngestMachine, e: IngestEvent)
    requires
        m.wf(),
        m.phase != IngestPhase::Finished,
    ensures
        ingest_next(m, e).1 is Done && ingest_next(m, e).1->Done_0 is Ok ==> m.phase
            == IngestPhase::Committing && e == IngestEvent::Committed,
        m.phase == IngestPhase::RollingBack ==> ingest_next(m, e).1 is Done && ingest_next(
            m,
            e,
        ).1->Done_0 is Err,
{
}

} // verus!
