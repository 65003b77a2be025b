//! Ingesting one fetched match into the in-memory store.
//!
//! [`ingest`] runs the protocol of [`crate::ingest`] against a
//! [`CacheStore`]: it does what the protocol asks, tells it what the store
//! answered, and stops when the protocol is done. [`ingest_spec`] says what
//! that comes to, and the lemmas below say what follows: a match is ingested
//! whole or not at all, and ingesting it again changes nothing.

use vstd::prelude::*;
use crate::error::SyncError;
use crate::ingest::{
    ingest_next, ingest_start, IngestAction, IngestEvent, IngestMachine, IngestPhase, MAX_FRAMES,
};
use crate::models::{
    copy_participants, MatchDto, MatchDtoView, TeamsTag, TeamsTagView, TimelineFrame,
    TimelineFrameView,
};
use crate::store::{
    lemma_insert_frame_wf, lemma_insert_match_wf, CacheStore, MatchDetailsRow,
    MatchDetailsRowView, StoreView, TimelineFrameRowView,
};

verus! {

/// The row under which a fetched match is stored: its creation time, its
/// duration cut to 32 bits, its queue, its participants, and its queue once
/// more as the team tag. The other columns stay empty.
pub open spec fn match_row(match_id: Seq<char>, entry_puuid: Seq<char>, m: MatchDtoView)
    -> MatchDetailsRowView {
    MatchDetailsRowView {
        mid: 0,
        match_id: match_id,
        entry_puuid: entry_puuid,
        game_version: None,
        game_creation: Some(m.info.gameCreation),
        game_start: None,
        game_end: None,
        game_duration: Some(m.info.gameDuration as i32),
        game_mode: None,
        game_type: None,
        queue_type: Some(m.info.queueId),
        map_name: None,
        participants: m.info.participants,
        teams: TeamsTagView { queueId: m.info.queueId },
    }
}

/// Lays out a fetched match as the row it is stored under. The surrogate id
/// is left at zero: the store gives it.
pub fn new_match_row(match_id: &str, entry_puuid: &str, record: &MatchDto) -> (row: MatchDetailsRow)
    ensures
        row.deep_view() == match_row(match_id@, entry_puuid@, record.deep_view()),
{
    let duration: i32 = #[verifier::truncate]
    (record.info.gameDuration as i32);
    let queue: i32 = record.info.queueId;
    MatchDetailsRow {
        mid: 0,
        match_id: match_id.to_owned(),
        entry_puuid: entry_puuid.to_owned(),
        game_version: None,
        game_creation: Some(record.info.gameCreation),
        game_start: None,
        game_end: None,
        game_duration: Some(duration),
        game_mode: None,
        game_type: None,
        queue_type: Some(queue),
        map_name: None,
        participants: copy_participants(&record.info.participants),
        teams: TeamsTag { queueId: queue },
    }
}

/// The row under which a detail frame is stored.
pub open spec fn frame_row(mid: i64, entry_puuid: Seq<char>, index: i32, f: TimelineFrameView)
    -> TimelineFrameRowView {
    TimelineFrameRowView {
        tid: 0,
        mid: mid,
        entry_participant_id: entry_puuid,
        frame_index: Some(index),
        timestamp: f.timestamp,
        participant_frames: f.participant_frames,
        events: f.events,
    }
}

/// The store after the first `upto` frames were handled, each inserted unless
/// the store had it; and whether the store managed every insert.
pub open spec fn frames_added(
    v: StoreView,
    mid: i64,
    entry_puuid: Seq<char>,
    frames: Seq<TimelineFrameView>,
    upto: nat,
) -> (StoreView, bool)
    decreases upto,
{
    if upto == 0 {
        (v, true)
    } else {
        let index = (upto - 1) as i32;
        let (before, ok) = frames_added(v, mid, entry_puuid, frames, (upto - 1) as nat);
        if !ok {
            (before, false)
        } else if before.has_frame(mid, index) {
            (before, true)
        } else {
            let (after, r) = before.insert_frame(
                frame_row(mid, entry_puuid, index, frames[upto - 1]),
            );
            (after, r is Ok)
        }
    }
}

/// The frames that a match came with; none where it came without detail.
pub open spec fn frames_of(detail: Option<Seq<TimelineFrameView>>) -> Seq<TimelineFrameView> {
    match detail {
        Some(frames) => frames,
        None => Seq::empty(),
    }
}

/// What ingesting a match comes to: the store afterwards, and the match's
/// surrogate id or the failure. On failure the store is as it was.
pub open spec fn ingest_spec(
    v: StoreView,
    row: MatchDetailsRowView,
    detail: Option<Seq<TimelineFrameView>>,
) -> (StoreView, Result<i64, SyncError>) {
    let frames = frames_of(detail);
    if frames.len() > MAX_FRAMES || v.mark is Some {
        (v, Err(SyncError::StoreFailure))
    } else {
        let (v1, inserted) = v.begun().insert_match(row);
        let found = match inserted {
            Ok(Some(mid)) => Some(mid),
            Ok(None) => v1.surrogate_id(row.match_id),
            Err(_) => None,
        };
        match found {
            Some(mid) if mid != 0 => {
                let (v2, ok) = frames_added(v1, mid, row.entry_puuid, frames, frames.len());
                if ok {
                    (v2.committed(), Ok(mid))
                } else {
                    (v, Err(SyncError::StoreFailure))
                }
            },
            _ => (v, Err(SyncError::StoreFailure)),
        }
    }
}

/// Whether `now` is `then` with a transaction opened and rows added since.
pub open spec fn grown_from(now: StoreView, then: StoreView) -> bool {
    &&& then.mark is None
    &&& now.mark == then.begun().mark
    &&& now.summoners == then.summoners
    &&& now.summaries == then.summaries
    &&& now.progress == then.progress
    &&& then.matches.len() <= now.matches.len()
    &&& then.frames.len() <= now.frames.len()
    &&& now.matches.take(then.matches.len() as int) == then.matches
    &&& now.frames.take(then.frames.len() as int) == then.frames
}

/// Handling one more frame continues from where the frames before it left
/// the store; a failure stays a failure.
pub proof fn lemma_failure_sticks(
    v: StoreView,
    mid: i64,
    entry_puuid: Seq<char>,
    frames: Seq<TimelineFrameView>,
    failed_at: nat,
    upto: nat,
)
    requires
        failed_at <= upto,
        !frames_added(v, mid, entry_puuid, frames, failed_at).1,
    ensures
        !frames_added(v, mid, entry_puuid, frames, upto).1,
    decreases upto,
{
    if upto > failed_at {
        lemma_failure_sticks(v, mid, entry_puuid, frames, failed_at, (upto - 1) as nat);
    }
}

/// The steps that are left before the protocol is done.
pub open spec fn steps_left(m: IngestMachine, action: IngestAction) -> int {
    let pending = 2 * (m.frame_count - m.next_frame);
    match action {
        IngestAction::Done(_) => 0,
        IngestAction::Rollback => 1,
        IngestAction::Commit => 2,
        IngestAction::InsertFrame { .. } => pending + 1,
        IngestAction::CheckFrame { .. } => pending + 2,
        IngestAction::LookupSurrogateId => pending + 3,
        IngestAction::InsertRecord => pending + 4,
        IngestAction::BeginTx => pending + 5,
    }
}

/// What the store answers to a step of the protocol, and what it holds
/// afterwards. `row` is the match that is ingested and `frames` are its
/// detail frames.
pub open spec fn store_answer(
    v: StoreView,
    ask: IngestAction,
    row: MatchDetailsRowView,
    frames: Seq<TimelineFrameView>,
) -> (StoreView, IngestEvent) {
    match ask {
        IngestAction::BeginTx => if v.mark is None {
            (v.begun(), IngestEvent::TxOpened)
        } else {
            (v, IngestEvent::Failed)
        },
        IngestAction::InsertRecord => {
            let (after, r) = v.insert_match(row);
            match r {
                Ok(inserted) => (after, IngestEvent::RecordInserted(inserted)),
                Err(_) => (after, IngestEvent::Failed),
            }
        },
        IngestAction::LookupSurrogateId => (
            v,
            IngestEvent::SurrogateId(v.surrogate_id(row.match_id)),
        ),
        IngestAction::CheckFrame { mid, index } => (
            v,
            IngestEvent::FramePresence(v.has_frame(mid, index)),
        ),
        IngestAction::InsertFrame { mid, index } => if 0 <= index < frames.len() {
            let (after, r) = v.insert_frame(
                frame_row(mid, row.entry_puuid, index, frames[index as int]),
            );
            (
                after,
                if r is Ok {
                    IngestEvent::FrameInserted
                } else {
                    IngestEvent::Failed
                },
            )
        } else {
            (v, IngestEvent::Failed)
        },
        IngestAction::Commit => (
            v.committed(),
            if v.mark is Some {
                IngestEvent::Committed
            } else {
                IngestEvent::Failed
            },
        ),
        IngestAction::Rollback => (v.rolled_back(), IngestEvent::RolledBack),
        IngestAction::Done(_) => (v, IngestEvent::Failed),
    }
}

/// Does one step of the protocol on the store and returns the store's
/// answer.
pub fn answer(
    store: &mut CacheStore,
    ask: IngestAction,
    match_id: &str,
    entry_puuid: &str,
    record: &MatchDto,
    detail: Option<&Vec<TimelineFrame>>,
) -> (e: IngestEvent)
    requires
        old(store)@.wf(),
    ensures
        final(store)@.wf(),
        (final(store)@, e) == store_answer(
            old(store)@,
            ask,
            match_row(match_id@, entry_puuid@, record.deep_view()),
            frames_of(detail.deep_view()),
        ),
{
    match ask {
        IngestAction::BeginTx => {
            if store.begin() {
                IngestEvent::TxOpened
            } else {
                IngestEvent::Failed
            }
        },
        IngestAction::InsertRecord => {
            match store.insert_match_row(new_match_row(match_id, entry_puuid, record)) {
                Ok(inserted) => IngestEvent::RecordInserted(inserted),
                Err(_) => IngestEvent::Failed,
            }
        },
        IngestAction::LookupSurrogateId => IngestEvent::SurrogateId(store.surrogate_id(match_id)),
        IngestAction::CheckFrame { mid, index } => IngestEvent::FramePresence(
            store.timeline_frame_exists_tx(mid, index),
        ),
        IngestAction::InsertFrame { mid, index } => {
            match detail {
                Some(f) => {
                    if 0 <= index && (index as usize) < f.len() {
                        let frame = &f[index as usize];
                        assert(f.deep_view()[index as int] == frame.deep_view());
                        match store.insert_timeline_frame_tx(
                            mid,
                            entry_puuid,
                            Some(index),
                            frame.timestamp,
                            frame.participant_frames.as_str(),
                            frame.events.as_str(),
                        ) {
                            Ok(_) => IngestEvent::FrameInserted,
                            Err(_) => IngestEvent::Failed,
                        }
                    } else {
                        IngestEvent::Failed
                    }
                },
                None => IngestEvent::Failed,
            }
        },
        IngestAction::Commit => {
            if store.commit() {
                IngestEvent::Committed
            } else {
                IngestEvent::Failed
            }
        },
        IngestAction::Rollback => {
            store.rollback();
            IngestEvent::RolledBack
        },
        IngestAction::Done(_) => IngestEvent::Failed,
    }
}

/// What holds between the protocol and the store while a match is ingested:
/// `then` is the store before, `now` the store as it is, and `action` what
/// the protocol has asked for last.
pub open spec fn in_step(
    then: StoreView,
    row: MatchDetailsRowView,
    detail: Option<Seq<TimelineFrameView>>,
    now: StoreView,
    m: IngestMachine,
    action: IngestAction,
) -> bool {
    let frames = frames_of(detail);
    let (v1, inserted) = then.begun().insert_match(row);
    let found = match inserted {
        Ok(Some(mid)) => Some(mid),
        Ok(None) => v1.surrogate_id(row.match_id),
        Err(_) => None,
    };
    &&& m.wf()
    &&& now.wf()
    &&& then.wf()
    &&& match action {
        IngestAction::Done(r) => (now, r) == ingest_spec(then, row, detail),
        IngestAction::BeginTx => {
            &&& m.phase == IngestPhase::Opening
            &&& frames.len() <= MAX_FRAMES
            &&& m.frame_count == frames.len()
            &&& m.next_frame == 0
            &&& now == then
        },
        IngestAction::InsertRecord => {
            &&& m.phase == IngestPhase::Inserting
            &&& frames.len() <= MAX_FRAMES
            &&& m.frame_count == frames.len()
            &&& m.next_frame == 0
            &&& then.mark is None
            &&& now == then.begun()
        },
        IngestAction::LookupSurrogateId => {
            &&& m.phase == IngestPhase::Resolving
            &&& frames.len() <= MAX_FRAMES
            &&& m.frame_count == frames.len()
            &&& m.next_frame == 0
            &&& then.mark is None
            &&& now == v1
            &&& inserted == Ok::<Option<i64>, SyncError>(None)
        },
        IngestAction::CheckFrame { mid, index } => {
            &&& m.phase == IngestPhase::CheckingFrame
            &&& frames.len() <= MAX_FRAMES
            &&& m.frame_count == frames.len()
            &&& m.next_frame == index
            &&& m.mid == mid
            &&& found == Some(mid)
            &&& grown_from(now, then)
            &&& (now, true) == frames_added(v1, mid, row.entry_puuid, frames, index as nat)
        },
        IngestAction::InsertFrame { mid, index } => {
            &&& m.phase == IngestPhase::InsertingFrame
            &&& frames.len() <= MAX_FRAMES
            &&& m.frame_count == frames.len()
            &&& m.next_frame == index
            &&& m.mid == mid
            &&& found == Some(mid)
            &&& grown_from(now, then)
            &&& (now, true) == frames_added(v1, mid, row.entry_puuid, frames, index as nat)
            &&& !now.has_frame(mid, index)
        },
        IngestAction::Commit => {
            &&& m.phase == IngestPhase::Committing
            &&& frames.len() <= MAX_FRAMES
            &&& m.frame_count == frames.len()
            &&& found == Some(m.mid)
            &&& grown_from(now, then)
            &&& (now, true) == frames_added(v1, m.mid, row.entry_puuid, frames, frames.len())
        },
        IngestAction::Rollback => {
            &&& m.phase == IngestPhase::RollingBack
            &&& m.outcome == Err::<i64, SyncError>(SyncError::StoreFailure)
            &&& grown_from(now, then)
            &&& ingest_spec(then, row, detail) == (
                then,
                Err::<i64, SyncError>(SyncError::StoreFailure),
            )
        },
    }
}

/// The protocol begins in step with the store.
pub proof fn lemma_protocol_start(
    then: StoreView,
    row: MatchDetailsRowView,
    detail: Option<Seq<TimelineFrameView>>,
    count: Option<usize>,
)
    requires
        then.wf(),
        match detail {
            Some(frames) => count == Some(frames.len() as usize) && frames.len() <= usize::MAX,
            None => count is None,
        },
    ensures
        in_step(then, row, detail, then, ingest_start(count).0, ingest_start(count).1),
{
}

/// A step of the protocol, answered by the store, leaves the two in step
/// and brings the protocol closer to its end.
pub proof fn lemma_protocol_step(
    then: StoreView,
    row: MatchDetailsRowView,
    detail: Option<Seq<TimelineFrameView>>,
    now: StoreView,
    m: IngestMachine,
    ask: IngestAction,
)
    requires
        in_step(then, row, detail, now, m, ask),
        !(ask is Done),
    ensures
        ({
            let (after, e) = store_answer(now, ask, row, frames_of(detail));
            let (next, asked) = ingest_next(m, e);
            &&& in_step(then, row, detail, after, next, asked)
            &&& 0 <= steps_left(next, asked) < steps_left(m, ask)
        }),
{
    let frames = frames_of(detail);
    let (after, e) = store_answer(now, ask, row, frames);
    let (next, asked) = ingest_next(m, e);
    let v1 = then.begun().insert_match(row).0;
    match ask {
        IngestAction::BeginTx => {},
        IngestAction::InsertRecord | IngestAction::LookupSurrogateId => {
            lemma_insert_match_wf(now, row);
            assert(after.matches.take(then.matches.len() as int) =~= then.matches);
            assert(after.frames.take(then.frames.len() as int) =~= then.frames);
        },
        IngestAction::CheckFrame { mid, index } => {},
        IngestAction::InsertFrame { mid, index } => {
            let upto = (index + 1) as nat;
            lemma_insert_frame_wf(
                now,
                frame_row(mid, row.entry_puuid, index, frames[index as int]),
            );
            assert(after.matches.take(then.matches.len() as int) =~= then.matches);
            assert(after.frames.take(then.frames.len() as int) =~= then.frames);
            if e == IngestEvent::Failed {
                assert(!frames_added(v1, mid, row.entry_puuid, frames, upto).1);
                lemma_failure_sticks(v1, mid, row.entry_puuid, frames, upto, frames.len());
            } else {
                assert(frames_added(v1, mid, row.entry_puuid, frames, upto) == (after, true));
            }
        },
        IngestAction::Commit => {},
        IngestAction::Rollback => {
            assert(after.matches =~= then.matches);
            assert(after.frames =~= then.frames);
            assert(after == then);
        },
        IngestAction::Done(_) => {},
    }
}

/// Persists one fetched match and, where it came with detail, its frames, in
/// one transaction. Returns the match's surrogate id: the new one, or the one
/// it had where the store held the match already.
pub fn ingest(
    store: &mut CacheStore,
    match_id: &str,
    entry_puuid: &str,
    record: &MatchDto,
    detail: Option<&Vec<TimelineFrame>>,
) -> (r: Result<i64, SyncError>)
    requires
        old(store)@.wf(),
    ensures
        final(store)@.wf(),
        (final(store)@, r) == ingest_spec(
            old(store)@,
            match_row(match_id@, entry_puuid@, record.deep_view()),
            detail.deep_view(),
        ),
{
    let ghost then = store@;
    let ghost row = match_row(match_id@, entry_puuid@, record.deep_view());
    let ghost seen = detail.deep_view();
    let frame_total: Option<usize> = match detail {
        Some(f) => Some(f.len()),
        None => None,
    };
    proof {
        lemma_protocol_start(then, row, seen, frame_total);
    }
    let started = IngestMachine::start(frame_total);
    let mut m: IngestMachine = started.0;
    let mut action: IngestAction = started.1;
    loop
        invariant
            in_step(then, row, seen, store@, m, action),
            then == old(store)@,
            row == match_row(match_id@, entry_puuid@, record.deep_view()),
            seen == detail.deep_view(),
        decreases steps_left(m, action),
    {
        if let IngestAction::Done(r) = action {
            return r;
        }
        proof {
            lemma_protocol_step(then, row, seen, store@, m, action);
        }
        let event = answer(store, action, match_id, entry_puuid, record, detail);
        let next = m.step(event);
        m = next.0;
        action = next.1;
    }
}

/// Whether the store holds exactly one match with this remote id.
pub open spec fn holds_match_once(v: StoreView, match_id: Seq<char>) -> bool {
    exists|i: int|
        0 <= i < v.matches.len() && (#[trigger] v.matches[i]).match_id == match_id && forall|j: int|
            0 <= j < v.matches.len() && (#[trigger] v.matches[j]).match_id == match_id ==> j == i
}

/// Whether the store holds exactly one frame with this index for this match.
pub open spec fn holds_frame_once(v: StoreView, mid: i64, index: i32) -> bool {
    exists|i: int|
        0 <= i < v.frames.len() && (#[trigger] v.frames[i]).mid == mid && v.frames[i].frame_index
            == Some(index) && forall|j: int|
            0 <= j < v.frames.len() && (#[trigger] v.frames[j]).mid == mid
                && v.frames[j].frame_index == Some(index) ==> j == i
}

/// In a well-formed store a remote id leads to one row, and so to one
/// surrogate id.
pub proof fn lemma_surrogate_id_is(v: StoreView, match_id: Seq<char>, i: int)
    requires
        v.wf(),
        0 <= i < v.matches.len(),
        v.matches[i].match_id == match_id,
    ensures
        v.has_match(match_id),
        v.surrogate_id(match_id) == Some(v.matches[i].mid),
        v.matches[i].mid != 0,
        holds_match_once(v, match_id),
{
    let c = choose|c: int|
        0 <= c < v.matches.len() && (#[trigger] v.matches[c]).match_id == match_id;
    assert(c == i) by {
        if c < i {
            assert(v.matches[c].match_id != v.matches[i].match_id);
        } else if i < c {
            assert(v.matches[i].match_id != v.matches[c].match_id);
        }
    }
    assert forall|j: int|
        0 <= j < v.matches.len() && (#[trigger] v.matches[j]).match_id == match_id implies j
        == i by {
        if j < i {
            assert(v.matches[j].match_id != v.matches[i].match_id);
        } else if i < j {
            assert(v.matches[i].match_id != v.matches[j].match_id);
        }
    }
}

/// After a match was inserted, or found to be there already, the store
/// holds it under one surrogate id, which is not zero.
pub proof fn lemma_insert_match(v: StoreView, row: MatchDetailsRowView)
    requires
        v.wf(),
    ensures
        v.insert_match(row).0.wf(),
        v.insert_match(row).1 is Ok ==> {
            let after = v.insert_match(row).0;
            &&& after.has_match(row.match_id)
            &&& after.surrogate_id(row.match_id) is Some
            &&& after.surrogate_id(row.match_id)->0 != 0
            &&& v.insert_match(row).1 matches Ok(Some(mid)) ==> after.surrogate_id(row.match_id)
                == Some(mid)
        },
        v.insert_match(row).1 is Err ==> v.insert_match(row).0 == v,
{
    let (after, r) = v.insert_match(row);
    lemma_insert_match_wf(v, row);
    if v.has_match(row.match_id) {
        let i = choose|i: int|
            0 <= i < v.matches.len() && (#[trigger] v.matches[i]).match_id == row.match_id;
        lemma_surrogate_id_is(v, row.match_id, i);
    } else if v.last_mid < i64::MAX {
        let last = v.matches.len() as int;
        assert(after.matches[last].match_id == row.match_id);
        lemma_surrogate_id_is(after, row.match_id, last);
    }
}

/// Handling frames keeps the store well-formed and touches nothing but the
/// frame table; where every insert was managed, each frame handled is in the
/// store afterwards.
pub proof fn lemma_frames_added(
    v: StoreView,
    mid: i64,
    entry_puuid: Seq<char>,
    frames: Seq<TimelineFrameView>,
    upto: nat,
)
    requires
        v.wf(),
        upto <= frames.len() <= MAX_FRAMES,
    ensures
        ({
            let (after, ok) = frames_added(v, mid, entry_puuid, frames, upto);
            &&& after.wf()
            &&& after.matches == v.matches
            &&& after.summoners == v.summoners
            &&& after.summaries == v.summaries
            &&& after.progress == v.progress
            &&& after.mark == v.mark
            &&& after.last_mid == v.last_mid
            &&& v.frames.len() <= after.frames.len()
            &&& after.frames.take(v.frames.len() as int) == v.frames
            &&& ok ==> forall|k: int| 0 <= k < upto ==> #[trigger] after.has_frame(mid, k as i32)
            &&& (forall|k: int| 0 <= k < upto ==> #[trigger] v.has_frame(mid, k as i32)) ==> ok
                && after == v
        }),
    decreases upto,
{
    if upto == 0 {
        assert(v.frames.take(v.frames.len() as int) =~= v.frames);
    } else {
        let index = (upto - 1) as i32;
        lemma_frames_added(v, mid, entry_puuid, frames, (upto - 1) as nat);
        let (before, ok_before) = frames_added(v, mid, entry_puuid, frames, (upto - 1) as nat);
        let (after, ok) = frames_added(v, mid, entry_puuid, frames, upto);
        if ok_before && !before.has_frame(mid, index) {
            let row = frame_row(mid, entry_puuid, index, frames[upto - 1]);
            if before.last_tid < i64::MAX {
                let last = before.frames.len() as int;
                assert(after.frames == before.frames.push(
                    TimelineFrameRowView { tid: (before.last_tid + 1) as i64, ..row },
                ));
                lemma_insert_frame_wf(before, row);
                assert(after.frames.take(v.frames.len() as int) =~= before.frames.take(
                    v.frames.len() as int,
                ));
                assert forall|k: int| 0 <= k < upto implies #[trigger] after.has_frame(
                    mid,
                    k as i32,
                ) by {
                    if k == upto - 1 {
                        assert(after.frames[last].mid == mid && after.frames[last].frame_index
                            == Some(index));
                    } else {
                        assert(before.has_frame(mid, k as i32));
                        let w = choose|w: int|
                            0 <= w < before.frames.len() && (#[trigger] before.frames[w]).mid == mid
                                && before.frames[w].frame_index == Some(k as i32);
                        assert(after.frames[w] == before.frames[w]);
                    }
                }
            }
        }
        if forall|k: int| 0 <= k < upto ==> #[trigger] v.has_frame(mid, k as i32) {
            assert(v.has_frame(mid, index as i32));
        }
    }
}

/// A match is ingested whole or not at all: on failure the store is as it
/// was; on success it is well-formed again, holds the match once under the
/// surrogate id returned, which is not zero, and holds each of its frames
/// once.
pub proof fn lemma_ingest_whole_or_not_at_all(
    v: StoreView,
    row: MatchDetailsRowView,
    detail: Option<Seq<TimelineFrameView>>,
)
    requires
        v.wf(),
    ensures
        ({
            let (after, r) = ingest_spec(v, row, detail);
            &&& after.wf()
            &&& after.mark == v.mark
            &&& after.summoners == v.summoners
            &&& after.summaries == v.summaries
            &&& after.progress == v.progress
            &&& r is Err ==> after == v
            &&& r matches Ok(mid) ==> {
                &&& mid != 0
                &&& after.surrogate_id(row.match_id) == Some(mid)
                &&& holds_match_once(after, row.match_id)
                &&& forall|k: int|
                    0 <= k < frames_of(detail).len() ==> #[trigger] holds_frame_once(
                        after,
                        mid,
                        k as i32,
                    )
                &&& v.matches.len() <= after.matches.len()
                &&& after.matches.take(v.matches.len() as int) == v.matches
                &&& v.frames.len() <= after.frames.len()
                &&& after.frames.take(v.frames.len() as int) == v.frames
                &&& forall|id: Seq<char>|
                    #[trigger] after.has_match(id) <==> v.has_match(id) || id == row.match_id
            }
        }),
{
    let frames = frames_of(detail);
    let (after, r) = ingest_spec(v, row, detail);
    if r is Ok {
        let mid = r->Ok_0;
        let v0 = v.begun();
        assert(v0.wf());
        lemma_insert_match(v0, row);
        let (v1, inserted) = v0.insert_match(row);
        lemma_frames_added(v1, mid, row.entry_puuid, frames, frames.len());
        let v2 = frames_added(v1, mid, row.entry_puuid, frames, frames.len()).0;
        assert(after == v2.committed());
        assert(after.wf());
        assert(v1.has_match(row.match_id));
        let i = choose|i: int|
            0 <= i < v1.matches.len() && (#[trigger] v1.matches[i]).match_id == row.match_id;
        lemma_surrogate_id_is(v1, row.match_id, i);
        lemma_surrogate_id_is(after, row.match_id, i);
        assert(after.matches.take(v.matches.len() as int) =~= v.matches);
        assert(after.matches == v1.matches);
        assert forall|id: Seq<char>| #[trigger]
            after.has_match(id) <==> v.has_match(id) || id == row.match_id by {
            if v.has_match(id) {
                let w = choose|w: int|
                    0 <= w < v.matches.len() && (#[trigger] v.matches[w]).match_id == id;
                assert(after.matches[w] == v.matches[w]);
            }
            if after.has_match(id) && id != row.match_id {
                let w = choose|w: int|
                    0 <= w < after.matches.len() && (#[trigger] after.matches[w]).match_id == id;
                if w >= v.matches.len() {
                    assert(!v0.has_match(row.match_id));
                    assert(after.matches[w].match_id == row.match_id);
                }
                assert(after.matches[w] == v.matches[w]);
            }
        }
        assert(after.frames.take(v.frames.len() as int) =~= v.frames) by {
            assert(v2.frames.take(v1.frames.len() as int) == v1.frames);
            assert(v1.frames == v.frames);
        }
        assert forall|k: int| 0 <= k < frames.len() implies #[trigger] holds_frame_once(
            after,
            mid,
            k as i32,
        ) by {
            assert(v2.has_frame(mid, k as i32));
            let w = choose|w: int|
                0 <= w < after.frames.len() && (#[trigger] after.frames[w]).mid == mid
                    && after.frames[w].frame_index == Some(k as i32);
            assert forall|j: int|
                0 <= j < after.frames.len() && (#[trigger] after.frames[j]).mid == mid
                    && after.frames[j].frame_index == Some(k as i32) implies j == w by {
                if j < w {
                    assert(after.frames[j].tid < after.frames[w].tid);
                } else if w < j {
                    assert(after.frames[w].tid < after.frames[j].tid);
                }
            }
        }
    }
}

/// Ingesting the same match with the same frames a second time changes
/// nothing and returns the same surrogate id.
pub proof fn lemma_ingest_twice(
    v: StoreView,
    row: MatchDetailsRowView,
    detail: Option<Seq<TimelineFrameView>>,
)
    requires
        v.wf(),
    ensures
        ingest_spec(ingest_spec(v, row, detail).0, row, detail) == ingest_spec(v, row, detail),
{
    let frames = frames_of(detail);
    let (after, r) = ingest_spec(v, row, detail);
    lemma_ingest_whole_or_not_at_all(v, row, detail);
    if r is Ok {
        let mid = r->Ok_0;
        let v0 = v.begun();
        lemma_insert_match(v0, row);
        let v1 = v0.insert_match(row).0;
        lemma_frames_added(v1, mid, row.entry_puuid, frames, frames.len());
        let again = after.begun();
        assert(again.wf());
        assert(again.has_match(row.match_id)) by {
            let i = choose|i: int|
                0 <= i < after.matches.len() && (#[trigger] after.matches[i]).match_id
                    == row.match_id;
            assert(again.matches[i].match_id == row.match_id);
            lemma_surrogate_id_is(again, row.match_id, i);
            lemma_surrogate_id_is(after, row.match_id, i);
        }
        assert(again.insert_match(row) == (again, Ok::<Option<i64>, SyncError>(None)));
        assert(again.surrogate_id(row.match_id) == Some(mid));
        assert forall|k: int| 0 <= k < frames.len() implies #[trigger] again.has_frame(
            mid,
            k as i32,
        ) by {
            assert(holds_frame_once(after, mid, k as i32));
            let w = choose|w: int|
                0 <= w < after.frames.len() && (#[trigger] after.frames[w]).mid == mid
                    && after.frames[w].frame_index == Some(k as i32);
            assert(again.frames[w] == after.frames[w]);
        }
        lemma_frames_added(again, mid, row.entry_puuid, frames, frames.len());
        assert(again.committed() == after);
    }
}

} // verus!
