//! The cache store, held in memory.
//!
//! The store keeps one snapshot per player, the matches that synchronizations
//! brought in, and their detail frames. Matches and frames are only ever
//! added: a match is keyed by the id the provider knows it by, a frame by its
//! match and its index, and inserting a key that is taken does nothing. A
//! transaction remembers how long the two tables were when it began; rolling
//! back cuts them to that length again.
//!
//! Beside these the store keeps what was last derived for each player: the
//! summary, which every compilation replaces, and the steps of the ranked
//! timeline, each of which is kept as it was first inferred.

use vstd::prelude::*;
use crate::error::{result_view, SyncError};
use crate::activity::{activity_window, daily_activity};
use crate::models::{
    DailyActivityEntry, DbMatchRow, DbMatchRowView, DbSummoner, DbSummonerView, ParticipantDto,
    ParticipantDtoView, RankStep, RankStepView, TeamsTag, TeamsTagView,
};
use crate::progress::{
    collect_outcomes, latest_outcomes, newest_first, outcomes, reconstruct, reconstructed,
    RankedOutcomeView, MAX_WALKABLE_LP, MIN_WALKABLE_LP, PROGRESS_WINDOW,
};
use crate::select::{select_top, top_selection, SortKey};
use crate::summary::{
    compile_summary, performances, summarizes, PlayerSummary, PlayerSummaryView, RANKED_QUEUE,
};
use crate::text::same_text;

verus! {

/// One stored match.
#[derive(Debug)]
pub struct MatchDetailsRow {
    /// The surrogate id the store gave the row.
    pub mid: i64,
    /// The id the provider knows the match by.
    pub match_id: String,
    /// The player whose synchronization brought the match in.
    pub entry_puuid: String,
    pub game_version: Option<String>,
    pub game_creation: Option<i64>,
    pub game_start: Option<i64>,
    pub game_end: Option<i64>,
    pub game_duration: Option<i32>,
    pub game_mode: Option<String>,
    pub game_type: Option<String>,
    pub queue_type: Option<i32>,
    pub map_name: Option<i32>,
    pub participants: Vec<ParticipantDto>,
    pub teams: TeamsTag,
}

/// What a [`MatchDetailsRow`] holds, as plain values.
pub struct MatchDetailsRowView {
    pub mid: i64,
    pub match_id: Seq<char>,
    pub entry_puuid: Seq<char>,
    pub game_version: Option<Seq<char>>,
    pub game_creation: Option<i64>,
    pub game_start: Option<i64>,
    pub game_end: Option<i64>,
    pub game_duration: Option<i32>,
    pub game_mode: Option<Seq<char>>,
    pub game_type: Option<Seq<char>>,
    pub queue_type: Option<i32>,
    pub map_name: Option<i32>,
    pub participants: Seq<ParticipantDtoView>,
    pub teams: TeamsTagView,
}

impl DeepView for MatchDetailsRow {
    type V = MatchDetailsRowView;

    open spec fn deep_view(&self) -> MatchDetailsRowView {
        MatchDetailsRowView {
            mid: self.mid,
            match_id: self.match_id@,
            entry_puuid: self.entry_puuid@,
            game_version: self.game_version.deep_view(),
            game_creation: self.game_creation,
            game_start: self.game_start,
            game_end: self.game_end,
            game_duration: self.game_duration,
            game_mode: self.game_mode.deep_view(),
            game_type: self.game_type.deep_view(),
            queue_type: self.queue_type,
            map_name: self.map_name,
            participants: self.participants.deep_view(),
            teams: self.teams.deep_view(),
        }
    }
}

/// One stored detail frame.
#[derive(Debug)]
pub struct TimelineFrameRow {
    /// The surrogate id the store gave the row.
    pub tid: i64,
    /// The surrogate id of the match the frame belongs to.
    pub mid: i64,
    pub entry_participant_id: String,
    pub frame_index: Option<i32>,
    pub timestamp: Option<i64>,
    pub participant_frames: String,
    pub events: String,
}

/// What a [`TimelineFrameRow`] holds, as plain values.
pub struct TimelineFrameRowView {
    pub tid: i64,
    pub mid: i64,
    pub entry_participant_id: Seq<char>,
    pub frame_index: Option<i32>,
    pub timestamp: Option<i64>,
    pub participant_frames: Seq<char>,
    pub events: Seq<char>,
}

impl DeepView for TimelineFrameRow {
    type V = TimelineFrameRowView;

    open spec fn deep_view(&self) -> TimelineFrameRowView {
        TimelineFrameRowView {
            tid: self.tid,
            mid: self.mid,
            entry_participant_id: self.entry_participant_id@,
            frame_index: self.frame_index,
            timestamp: self.timestamp,
            participant_frames: self.participant_frames@,
            events: self.events@,
        }
    }
}
/// The cached summary of one player.
#[derive(Debug)]
pub struct PlayerSummaryRow {
    pub puuid: String,
    pub queue_id: i32,
    pub summary: PlayerSummary,
    /// When the summary was compiled, in milliseconds since the epoch.
    pub computed_at: i64,
}

/// What a [`PlayerSummaryRow`] holds, as plain values.
pub struct PlayerSummaryRowView {
    pub puuid: Seq<char>,
    pub queue_id: i32,
    pub summary: PlayerSummaryView,
    pub computed_at: i64,
}

impl DeepView for PlayerSummaryRow {
    type V = PlayerSummaryRowView;

    open spec fn deep_view(&self) -> PlayerSummaryRowView {
        PlayerSummaryRowView {
            puuid: self.puuid@,
            queue_id: self.queue_id,
            summary: self.summary.deep_view(),
            computed_at: self.computed_at,
        }
    }
}

/// One cached step of a player's reconstructed ranked timeline.
#[derive(Debug)]
pub struct RankProgressRow {
    pub puuid: String,
    pub match_id: String,
    pub game_creation: Option<i64>,
    pub lp_before: i32,
    pub lp_after: i32,
    pub lp_delta: i32,
    pub tier_before: String,
    pub division_before: String,
    pub tier_after: String,
    pub division_after: String,
    pub exact: bool,
}

/// What a [`RankProgressRow`] holds, as plain values.
pub struct RankProgressRowView {
    pub puuid: Seq<char>,
    pub match_id: Seq<char>,
    pub game_creation: Option<i64>,
    pub lp_before: i32,
    pub lp_after: i32,
    pub lp_delta: i32,
    pub tier_before: Seq<char>,
    pub division_before: Seq<char>,
    pub tier_after: Seq<char>,
    pub division_after: Seq<char>,
    pub exact: bool,
}

impl DeepView for RankProgressRow {
    type V = RankProgressRowView;

    open spec fn deep_view(&self) -> RankProgressRowView {
        RankProgressRowView {
            puuid: self.puuid@,
            match_id: self.match_id@,
            game_creation: self.game_creation,
            lp_before: self.lp_before,
            lp_after: self.lp_after,
            lp_delta: self.lp_delta,
            tier_before: self.tier_before@,
            division_before: self.division_before@,
            tier_after: self.tier_after@,
            division_after: self.division_after@,
            exact: self.exact,
        }
    }
}
/// What a transaction remembers of the store at its beginning.
#[derive(Clone, Copy, Debug)]
struct TxMark {
    matches_len: usize,
    frames_len: usize,
    last_mid: i64,
    last_tid: i64,
}

/// What a transaction remembers of the store at its beginning: how long the
/// two tables were, and the last surrogate ids given.
pub struct TxMarkView {
    pub matches_len: nat,
    pub frames_len: nat,
    pub last_mid: i64,
    pub last_tid: i64,
}

/// The store.
#[derive(Debug)]
pub struct CacheStore {
    summoners: Vec<DbSummoner>,
    matches: Vec<MatchDetailsRow>,
    frames: Vec<TimelineFrameRow>,
    summaries: Vec<PlayerSummaryRow>,
    progress: Vec<RankProgressRow>,
    last_mid: i64,
    last_tid: i64,
    mark: Option<TxMark>,
}

/// What the store holds, as plain values.
pub struct StoreView {
    /// The player snapshots, one per player.
    pub summoners: Seq<DbSummonerView>,
    /// The matches, in the order they were inserted.
    pub matches: Seq<MatchDetailsRowView>,
    /// The detail frames, in the order they were inserted.
    pub frames: Seq<TimelineFrameRowView>,
    /// The cached summaries, one per player.
    pub summaries: Seq<PlayerSummaryRowView>,
    /// The cached steps of ranked timelines, one per player and match.
    pub progress: Seq<RankProgressRowView>,
    /// The highest surrogate id given to a match so far.
    pub last_mid: i64,
    /// The highest surrogate id given to a frame so far.
    pub last_tid: i64,
    /// The open transaction, if there is one.
    pub mark: Option<TxMarkView>,
}

/// The text of an optional string slice.
pub open spec fn opt_text(o: Option<&str>) -> Option<Seq<char>> {
    match o {
        Some(s) => Some(s@),
        None => None,
    }
}

impl StoreView {
    /// The store with nothing in it.
    pub open spec fn empty() -> StoreView {
        StoreView {
            summoners: Seq::empty(),
            matches: Seq::empty(),
            frames: Seq::empty(),
            summaries: Seq::empty(),
            progress: Seq::empty(),
            last_mid: 0,
            last_tid: 0,
            mark: None,
        }
    }

    /// Whether a match with this remote id is stored.
    pub open spec fn has_match(self, match_id: Seq<char>) -> bool {
        exists|i: int|
            0 <= i < self.matches.len() && (#[trigger] self.matches[i]).match_id == match_id
    }

    /// The surrogate id of the match with this remote id, if it is stored.
    pub open spec fn surrogate_id(self, match_id: Seq<char>) -> Option<i64> {
        if self.has_match(match_id) {
            let i = choose|i: int|
                0 <= i < self.matches.len() && (#[trigger] self.matches[i]).match_id == match_id;
            Some(self.matches[i].mid)
        } else {
            None
        }
    }

    /// Whether a frame with this index is stored for this match.
    pub open spec fn has_frame(self, mid: i64, index: i32) -> bool {
        exists|i: int|
            0 <= i < self.frames.len() && (#[trigger] self.frames[i]).mid == mid
                && self.frames[i].frame_index == Some(index)
    }

    /// Whether a snapshot of this player is stored.
    pub open spec fn has_summoner(self, puuid: Seq<char>) -> bool {
        exists|i: int|
            0 <= i < self.summoners.len() && (#[trigger] self.summoners[i]).puuid == puuid
    }

    /// The invariant of the store: keys are not taken twice, surrogate ids
    /// are positive and ascend in the order of insertion, and an open
    /// transaction marks a point that the tables have not shrunk below.
    pub open spec fn wf(self) -> bool {
        &&& 0 <= self.last_mid
        &&& 0 <= self.last_tid
        &&& forall|i: int|
            0 <= i < self.matches.len() ==> 1 <= (#[trigger] self.matches[i]).mid <= self.last_mid
        &&& forall|i: int, j: int|
            0 <= i < j < self.matches.len() ==> (#[trigger] self.matches[i]).mid
                < (#[trigger] self.matches[j]).mid && self.matches[i].match_id
                != self.matches[j].match_id
        &&& forall|i: int|
            0 <= i < self.frames.len() ==> 1 <= (#[trigger] self.frames[i]).tid <= self.last_tid
        &&& forall|i: int, j: int|
            0 <= i < j < self.frames.len() ==> (#[trigger] self.frames[i]).tid
                < (#[trigger] self.frames[j]).tid && !(self.frames[i].mid == self.frames[j].mid
                && self.frames[i].frame_index is Some && self.frames[i].frame_index
                == self.frames[j].frame_index)
        &&& forall|i: int, j: int|
            0 <= i < j < self.summoners.len() ==> (#[trigger] self.summoners[i]).puuid
                != (#[trigger] self.summoners[j]).puuid
        &&& forall|i: int, j: int|
            0 <= i < j < self.summaries.len() ==> (#[trigger] self.summaries[i]).puuid
                != (#[trigger] self.summaries[j]).puuid
        &&& forall|i: int, j: int|
            0 <= i < j < self.progress.len() ==> !((#[trigger] self.progress[i]).puuid == (
            #[trigger] self.progress[j]).puuid && self.progress[i].match_id
                == self.progress[j].match_id)
        &&& self.mark matches Some(m) ==> {
            &&& m.matches_len <= self.matches.len()
            &&& m.frames_len <= self.frames.len()
            &&& 0 <= m.last_mid <= self.last_mid
            &&& 0 <= m.last_tid <= self.last_tid
            &&& forall|i: int|
                0 <= i < m.matches_len ==> (#[trigger] self.matches[i]).mid <= m.last_mid
            &&& forall|i: int|
                0 <= i < m.frames_len ==> (#[trigger] self.frames[i]).tid <= m.last_tid
        }
    }

    /// Inserting a match: nothing happens where its remote id is taken, the
    /// store fails where no surrogate id is left, and otherwise the match is
    /// added under the next surrogate id. `row.mid` is not read.
    pub open spec fn insert_match(self, row: MatchDetailsRowView) -> (
        StoreView,
        Result<Option<i64>, SyncError>,
    ) {
        if self.has_match(row.match_id) {
            (self, Ok(None))
        } else if self.last_mid >= i64::MAX {
            (self, Err(SyncError::StoreFailure))
        } else {
            let mid = (self.last_mid + 1) as i64;
            (
                StoreView {
                    matches: self.matches.push(MatchDetailsRowView { mid: mid, ..row }),
                    last_mid: mid,
                    ..self
                },
                Ok(Some(mid)),
            )
        }
    }

    /// Inserting a frame: nothing happens where its match already has a frame
    /// with its index, the store fails where no surrogate id is left, and
    /// otherwise the frame is added under the next surrogate id. `row.tid` is
    /// not read.
    pub open spec fn insert_frame(self, row: TimelineFrameRowView) -> (
        StoreView,
        Result<Option<i64>, SyncError>,
    ) {
        if row.frame_index matches Some(index) && self.has_frame(row.mid, index) {
            (self, Ok(None))
        } else if self.last_tid >= i64::MAX {
            (self, Err(SyncError::StoreFailure))
        } else {
            let tid = (self.last_tid + 1) as i64;
            (
                StoreView {
                    frames: self.frames.push(TimelineFrameRowView { tid: tid, ..row }),
                    last_tid: tid,
                    ..self
                },
                Ok(Some(tid)),
            )
        }
    }

    /// The store with a transaction opened at its present state.
    pub open spec fn begun(self) -> StoreView {
        StoreView {
            mark: Some(
                TxMarkView {
                    matches_len: self.matches.len(),
                    frames_len: self.frames.len(),
                    last_mid: self.last_mid,
                    last_tid: self.last_tid,
                },
            ),
            ..self
        }
    }

    /// The store with its transaction closed and everything kept.
    pub open spec fn committed(self) -> StoreView {
        StoreView { mark: None, ..self }
    }

    /// The store with its transaction closed and everything undone that was
    /// inserted since it began.
    pub open spec fn rolled_back(self) -> StoreView {
        match self.mark {
            Some(m) => StoreView {
                matches: self.matches.take(m.matches_len as int),
                frames: self.frames.take(m.frames_len as int),
                last_mid: m.last_mid,
                last_tid: m.last_tid,
                mark: None,
                ..self
            },
            None => self,
        }
    }
}

/// Adding a match under the next surrogate id, where its remote id is free,
/// keeps the store well-formed.
pub proof fn lemma_insert_match_wf(v: StoreView, row: MatchDetailsRowView)
    requires
        v.wf(),
    ensures
        v.insert_match(row).0.wf(),
{
    let after = v.insert_match(row).0;
    if !v.has_match(row.match_id) && v.last_mid < i64::MAX {
        let n = v.matches.len() as int;
        assert forall|i: int| 0 <= i < after.matches.len() implies 1 <= (
        #[trigger] after.matches[i]).mid <= after.last_mid by {
            if i < n {
                assert(after.matches[i] == v.matches[i]);
            }
        }
        assert forall|i: int, j: int| 0 <= i < j < after.matches.len() implies (
        #[trigger] after.matches[i]).mid < (#[trigger] after.matches[j]).mid
            && after.matches[i].match_id != after.matches[j].match_id by {
            assert(after.matches[i] == v.matches[i]);
            if j < n {
                assert(after.matches[j] == v.matches[j]);
            }
        }
        if v.mark is Some {
            let m = v.mark->0;
            assert forall|i: int| 0 <= i < m.matches_len implies (#[trigger] after.matches[i]).mid
                <= m.last_mid by {
                assert(after.matches[i] == v.matches[i]);
            }
        }
    }
}

/// Adding a frame under the next surrogate id, where its match has no frame
/// with its index yet, keeps the store well-formed.
pub proof fn lemma_insert_frame_wf(v: StoreView, row: TimelineFrameRowView)
    requires
        v.wf(),
    ensures
        v.insert_frame(row).0.wf(),
{
    let after = v.insert_frame(row).0;
    let taken = row.frame_index matches Some(index) && v.has_frame(row.mid, index);
    if !taken && v.last_tid < i64::MAX {
        let n = v.frames.len() as int;
        assert forall|i: int| 0 <= i < after.frames.len() implies 1 <= (
        #[trigger] after.frames[i]).tid <= after.last_tid by {
            if i < n {
                assert(after.frames[i] == v.frames[i]);
            }
        }
        assert forall|i: int, j: int| 0 <= i < j < after.frames.len() implies (
        #[trigger] after.frames[i]).tid < (#[trigger] after.frames[j]).tid && !(
        after.frames[i].mid == after.frames[j].mid && after.frames[i].frame_index is Some
            && after.frames[i].frame_index == after.frames[j].frame_index) by {
            assert(after.frames[i] == v.frames[i]);
            if j < n {
                assert(after.frames[j] == v.frames[j]);
            }
        }
        if v.mark is Some {
            let m = v.mark->0;
            assert forall|i: int| 0 <= i < m.frames_len implies (#[trigger] after.frames[i]).tid
                <= m.last_tid by {
                assert(after.frames[i] == v.frames[i]);
            }
        }
    }
}

impl View for CacheStore {
    type V = StoreView;

    closed spec fn view(&self) -> StoreView {
        StoreView {
            summoners: self.summoners.deep_view(),
            matches: self.matches.deep_view(),
            frames: self.frames.deep_view(),
            summaries: self.summaries.deep_view(),
            progress: self.progress.deep_view(),
            last_mid: self.last_mid,
            last_tid: self.last_tid,
            mark: match self.mark {
                Some(m) => Some(
                    TxMarkView {
                        matches_len: m.matches_len as nat,
                        frames_len: m.frames_len as nat,
                        last_mid: m.last_mid,
                        last_tid: m.last_tid,
                    },
                ),
                None => None,
            },
        }
    }
}

/// Copies an optional string slice.
fn owned_opt(o: Option<&str>) -> (r: Option<String>)
    ensures
        r.deep_view() == opt_text(o),
{
    match o {
        Some(s) => Some(s.to_owned()),
        None => None,
    }
}

impl CacheStore {
    /// A store with nothing in it.
    pub fn new() -> (r: CacheStore)
        ensures
            r@ == StoreView::empty(),
            r@.wf(),
    {
        let r = CacheStore {
            summoners: Vec::new(),
            matches: Vec::new(),
            frames: Vec::new(),
            summaries: Vec::new(),
            progress: Vec::new(),
            last_mid: 0,
            last_tid: 0,
            mark: None,
        };
        assert(r@.summoners =~= Seq::empty());
        assert(r@.matches =~= Seq::empty());
        assert(r@.frames =~= Seq::empty());
        assert(r@.summaries =~= Seq::empty());
        assert(r@.progress =~= Seq::empty());
        r
    }

    fn position_of_match(&self, match_id: &str) -> (r: Option<usize>)
        ensures
            match r {
                Some(i) => i < self@.matches.len() && self@.matches[i as int].match_id == match_id@,
                None => !self@.has_match(match_id@),
            },
    {
        let n: usize = self.matches.len();
        let mut i: usize = 0;
        while i < n
            invariant
                i <= n,
                n == self.matches.len(),
                forall|j: int| 0 <= j < i ==> (#[trigger] self@.matches[j]).match_id != match_id@,
            decreases n - i,
        {
            if crate::text::same_text(self.matches[i].match_id.as_str(), match_id) {
                return Some(i);
            }
            i += 1;
        }
        None
    }

    /// Whether a match with this remote id is stored.
    pub fn match_exists(&self, match_id: &str) -> (r: bool)
        ensures
            r == self@.has_match(match_id@),
    {
        self.position_of_match(match_id).is_some()
    }

    /// The surrogate id of the match with this remote id, if it is stored.
    pub fn surrogate_id(&self, match_id: &str) -> (r: Option<i64>)
        requires
            self@.wf(),
        ensures
            r == self@.surrogate_id(match_id@),
    {
        match self.position_of_match(match_id) {
            Some(i) => Some(self.matches[i].mid),
            None => None,
        }
    }

    /// Inserts a match unless its remote id is taken. Returns the surrogate
    /// id of the new row, or nothing where the id was taken.
    pub fn insert_match_details_tx(
        &mut self,
        match_id: &str,
        entry_puuid: &str,
        game_version: Option<&str>,
        game_creation: Option<i64>,
        game_start: Option<i64>,
        game_end: Option<i64>,
        game_duration: Option<i32>,
        game_mode: Option<&str>,
        game_type: Option<&str>,
        queue_type: Option<i32>,
        map_name: Option<i32>,
        participants: Vec<ParticipantDto>,
        teams: TeamsTag,
    ) -> (r: Result<Option<i64>, SyncError>)
        requires
            old(self)@.wf(),
        ensures
            final(self)@.wf(),
            (final(self)@, r) == old(self)@.insert_match(
                (MatchDetailsRowView {
                    mid: 0,
                    match_id: match_id@,
                    entry_puuid: entry_puuid@,
                    game_version: opt_text(game_version),
                    game_creation: game_creation,
                    game_start: game_start,
                    game_end: game_end,
                    game_duration: game_duration,
                    game_mode: opt_text(game_mode),
                    game_type: opt_text(game_type),
                    queue_type: queue_type,
                    map_name: map_name,
                    participants: participants.deep_view(),
                    teams: teams.deep_view(),
                }),
            ),
    {
        self.insert_match_row(
            MatchDetailsRow {
                mid: 0,
                match_id: match_id.to_owned(),
                entry_puuid: entry_puuid.to_owned(),
                game_version: owned_opt(game_version),
                game_creation,
                game_start,
                game_end,
                game_duration,
                game_mode: owned_opt(game_mode),
                game_type: owned_opt(game_type),
                queue_type,
                map_name,
                participants,
                teams,
            },
        )
    }

    /// Inserts a match, laid out as a row, unless its remote id is taken.
    /// Returns the surrogate id of the new row, or nothing where the id was
    /// taken. The surrogate id that the row comes with is not read.
    pub fn insert_match_row(&mut self, row: MatchDetailsRow) -> (r: Result<Option<i64>, SyncError>)
        requires
            old(self)@.wf(),
        ensures
            final(self)@.wf(),
            (final(self)@, r) == old(self)@.insert_match(row.deep_view()),
    {
        if self.position_of_match(row.match_id.as_str()).is_some() {
            return Ok(None);
        }
        if self.last_mid >= i64::MAX {
            return Err(SyncError::StoreFailure);
        }
        let mid: i64 = self.last_mid + 1;
        let ghost given = row.deep_view();
        let row = MatchDetailsRow { mid, ..row };
        let ghost row_view = row.deep_view();
        self.matches.push(row);
        self.last_mid = mid;
        proof {
            assert(row_view == MatchDetailsRowView { mid: mid, ..given });
            assert(self@.matches =~= old(self)@.matches.push(row_view));
            lemma_insert_match_wf(old(self)@, given);
        }
        Ok(Some(mid))
    }

    fn position_of_frame(&self, mid: i64, index: i32) -> (r: Option<usize>)
        ensures
            match r {
                Some(i) => i < self@.frames.len() && self@.frames[i as int].mid == mid
                    && self@.frames[i as int].frame_index == Some(index),
                None => !self@.has_frame(mid, index),
            },
    {
        let n: usize = self.frames.len();
        let mut i: usize = 0;
        while i < n
            invariant
                i <= n,
                n == self.frames.len(),
                forall|j: int|
                    0 <= j < i ==> !((#[trigger] self@.frames[j]).mid == mid
                        && self@.frames[j].frame_index == Some(index)),
            decreases n - i,
        {
            let hit = match self.frames[i].frame_index {
                Some(k) => k == index && self.frames[i].mid == mid,
                None => false,
            };
            if hit {
                return Some(i);
            }
            i += 1;
        }
        None
    }

    /// Whether a frame with this index is stored for this match.
    pub fn timeline_frame_exists_tx(&self, mid: i64, frame_index: i32) -> (r: bool)
        ensures
            r == self@.has_frame(mid, frame_index),
    {
        self.position_of_frame(mid, frame_index).is_some()
    }

    /// Inserts a detail frame unless its match already has a frame with its
    /// index. Returns the surrogate id of the new row, or nothing where the
    /// index was taken.
    pub fn insert_timeline_frame_tx(
        &mut self,
        mid: i64,
        entry_participant_id: &str,
        frame_index: Option<i32>,
        timestamp: Option<i64>,
        participant_frames: &str,
        events: &str,
    ) -> (r: Result<Option<i64>, SyncError>)
        requires
            old(self)@.wf(),
        ensures
            final(self)@.wf(),
            (final(self)@, r) == old(self)@.insert_frame(
                (TimelineFrameRowView {
                    tid: 0,
                    mid: mid,
                    entry_participant_id: entry_participant_id@,
                    frame_index: frame_index,
                    timestamp: timestamp,
                    participant_frames: participant_frames@,
                    events: events@,
                }),
            ),
    {
        let taken = match frame_index {
            Some(index) => self.position_of_frame(mid, index).is_some(),
            None => false,
        };
        if taken {
            return Ok(None);
        }
        if self.last_tid >= i64::MAX {
            return Err(SyncError::StoreFailure);
        }
        let tid: i64 = self.last_tid + 1;
        let row = TimelineFrameRow {
            tid,
            mid,
            entry_participant_id: entry_participant_id.to_owned(),
            frame_index,
            timestamp,
            participant_frames: participant_frames.to_owned(),
            events: events.to_owned(),
        };
        let ghost row_view = row.deep_view();
        self.frames.push(row);
        self.last_tid = tid;
        proof {
            assert(self@.frames =~= old(self)@.frames.push(row_view));
            lemma_insert_frame_wf(old(self)@, TimelineFrameRowView { tid: 0, ..row_view });
        }
        Ok(Some(tid))
    }

    /// Opens a transaction. Returns `false`, and changes nothing, where one
    /// is open already.
    pub fn begin(&mut self) -> (opened: bool)
        requires
            old(self)@.wf(),
        ensures
            final(self)@.wf(),
            opened == (old(self)@.mark is None),
            final(self)@ == if opened { old(self)@.begun() } else { old(self)@ },
    {
        if self.mark.is_some() {
            return false;
        }
        self.mark = Some(
            TxMark {
                matches_len: self.matches.len(),
                frames_len: self.frames.len(),
                last_mid: self.last_mid,
                last_tid: self.last_tid,
            },
        );
        true
    }

    /// Closes the transaction and keeps what was inserted since it began.
    /// Returns `false` where none was open.
    pub fn commit(&mut self) -> (closed: bool)
        requires
            old(self)@.wf(),
        ensures
            final(self)@.wf(),
            closed == (old(self)@.mark is Some),
            final(self)@ == old(self)@.committed(),
    {
        let closed = self.mark.is_some();
        self.mark = None;
        closed
    }

    /// Closes the transaction and undoes what was inserted since it began.
    pub fn rollback(&mut self)
        requires
            old(self)@.wf(),
        ensures
            final(self)@.wf(),
            final(self)@ == old(self)@.rolled_back(),
    {
        match self.mark {
            Some(m) => {
                self.matches.truncate(m.matches_len);
                self.frames.truncate(m.frames_len);
                self.last_mid = m.last_mid;
                self.last_tid = m.last_tid;
                self.mark = None;
                proof {
                    assert(self@.matches =~= old(self)@.matches.take(m.matches_len as int));
                    assert(self@.frames =~= old(self)@.frames.take(m.frames_len as int));
                }
            },
            None => {},
        }
    }
}

/// The key that orders matches by the time of their game, latest first. A
/// match without a time stands before any with one.
pub open spec fn creation_key(m: MatchDetailsRowView) -> SortKey {
    (
        match m.game_creation {
            Some(t) => t as i128,
            None => 0x8000_0000_0000_0000i128,
        },
        0i128,
    )
}

/// The key columns of a stored match that has a creation time.
pub open spec fn key_columns(m: MatchDetailsRowView) -> DbMatchRowView {
    DbMatchRowView {
        mid: m.mid,
        matchId: m.match_id,
        entryPlayerPuuid: m.entry_puuid,
        gameCreation: m.game_creation->0,
    }
}

/// A limit as the store applies it: no row count is above what fits in
/// memory.
pub open spec fn applied_limit(limit: int) -> nat {
    if limit < 0 {
        0
    } else if limit > usize::MAX {
        usize::MAX as nat
    } else {
        limit as nat
    }
}

/// The snapshot that a first synchronization stores for a player.
pub open spec fn first_snapshot(
    puuid: Seq<char>,
    game_name: Seq<char>,
    tag_line: Seq<char>,
    region: Seq<char>,
    tier: Option<Seq<char>>,
    rank: Option<Seq<char>>,
    lp: Option<i32>,
    now: i64,
) -> DbSummonerView {
    DbSummonerView {
        puuid: puuid,
        gameName: game_name,
        tagLine: tag_line,
        region: region,
        matchRegionPrefix: None,
        deepLolLink: None,
        tier: match tier {
            Some(t) => t,
            None => "UNRANKED"@,
        },
        rank: rank,
        lp: match lp {
            Some(points) => points,
            None => 0,
        },
        currentMatchId: None,
        discordChannelId: None,
        regionGroup: None,
        lastUpdated: now,
        lastMissingDataNotification: now,
    }
}

/// The row under which a step of a ranked timeline is cached.
pub open spec fn progress_row(puuid: Seq<char>, game_creation: Option<i64>, step: RankStepView)
    -> RankProgressRowView {
    RankProgressRowView {
        puuid: puuid,
        match_id: step.match_id,
        game_creation: game_creation,
        lp_before: step.lp_before,
        lp_after: step.lp_after,
        lp_delta: step.lp_delta,
        tier_before: step.tier_before,
        division_before: step.division_before,
        tier_after: step.tier_after,
        division_after: step.division_after,
        exact: false,
    }
}

impl StoreView {
    /// The stored snapshot of a player, if there is one.
    pub open spec fn summoner(self, puuid: Seq<char>) -> Option<DbSummonerView> {
        if self.has_summoner(puuid) {
            let i = choose|i: int|
                0 <= i < self.summoners.len() && (#[trigger] self.summoners[i]).puuid == puuid;
            Some(self.summoners[i])
        } else {
            None
        }
    }

    /// Storing a player's snapshot: a first snapshot is added; a later one
    /// overwrites name, tag, region, tier, division and score, and leaves the
    /// other columns. The time of the update moves on to `now`; it does not
    /// move back.
    pub open spec fn upsert_summoner(
        self,
        puuid: Seq<char>,
        game_name: Seq<char>,
        tag_line: Seq<char>,
        region: Seq<char>,
        tier: Option<Seq<char>>,
        rank: Option<Seq<char>>,
        lp: Option<i32>,
        now: i64,
    ) -> StoreView {
        let fresh = first_snapshot(puuid, game_name, tag_line, region, tier, rank, lp, now);
        if self.has_summoner(puuid) {
            let i = choose|i: int|
                0 <= i < self.summoners.len() && (#[trigger] self.summoners[i]).puuid == puuid;
            let kept = self.summoners[i];
            StoreView {
                summoners: self.summoners.update(
                    i,
                    DbSummonerView {
                        matchRegionPrefix: kept.matchRegionPrefix,
                        deepLolLink: kept.deepLolLink,
                        currentMatchId: kept.currentMatchId,
                        discordChannelId: kept.discordChannelId,
                        regionGroup: kept.regionGroup,
                        lastUpdated: if kept.lastUpdated > now {
                            kept.lastUpdated
                        } else {
                            now
                        },
                        lastMissingDataNotification: kept.lastMissingDataNotification,
                        ..fresh
                    },
                ),
                ..self
            }
        } else {
            StoreView { summoners: self.summoners.push(fresh), ..self }
        }
    }

    /// The positions of the `limit` latest matches that the player's
    /// synchronizations brought in, latest first.
    pub open spec fn recent_positions(self, puuid: Seq<char>, limit: nat) -> Seq<usize> {
        top_selection(
            Seq::new(self.matches.len(), |i: int| creation_key(self.matches[i])),
            Seq::new(self.matches.len(), |i: int| self.matches[i].entry_puuid == puuid),
            limit,
        )
    }

    /// The key columns of the `limit` latest matches of a player, latest
    /// first. The query fails on a negative limit and where one of the
    /// matches has no creation time.
    pub open spec fn recent_matches(self, puuid: Seq<char>, limit: int) -> Result<
        Seq<DbMatchRowView>,
        SyncError,
    > {
        let picked = self.recent_positions(puuid, applied_limit(limit));
        if limit < 0 || exists|k: int|
            0 <= k < picked.len() && (#[trigger] self.matches[picked[k] as int]).game_creation
                is None {
            Err(SyncError::StoreFailure)
        } else {
            Ok(Seq::new(picked.len(), |k: int| key_columns(self.matches[picked[k] as int])))
        }
    }

    /// The remote id of the player's latest match, if the player has any. The
    /// query fails where that match has no creation time.
    pub open spec fn latest_match(self, puuid: Seq<char>) -> Result<Option<Seq<char>>, SyncError> {
        let picked = self.recent_positions(puuid, 1);
        if picked.len() == 0 {
            Ok(None)
        } else if self.matches[picked[0] as int].game_creation is None {
            Err(SyncError::StoreFailure)
        } else {
            Ok(Some(self.matches[picked[0] as int].match_id))
        }
    }

    /// Whether a summary is cached for the player.
    pub open spec fn has_summary(self, puuid: Seq<char>) -> bool {
        exists|i: int|
            0 <= i < self.summaries.len() && (#[trigger] self.summaries[i]).puuid == puuid
    }

    /// Caching a summary: it takes the place of the player's earlier one.
    pub open spec fn with_summary(self, row: PlayerSummaryRowView) -> StoreView {
        if self.has_summary(row.puuid) {
            let i = choose|i: int|
                0 <= i < self.summaries.len() && (#[trigger] self.summaries[i]).puuid == row.puuid;
            StoreView { summaries: self.summaries.update(i, row), ..self }
        } else {
            StoreView { summaries: self.summaries.push(row), ..self }
        }
    }

    /// Whether a step is cached for the player and the match.
    pub open spec fn has_step(self, puuid: Seq<char>, match_id: Seq<char>) -> bool {
        exists|i: int|
            0 <= i < self.progress.len() && (#[trigger] self.progress[i]).puuid == puuid
                && self.progress[i].match_id == match_id
    }

    /// Caching the first `upto` steps of a timeline: each is added unless a
    /// step is cached for its match already. `history` is what the steps were
    /// inferred from, latest game first.
    pub open spec fn with_steps(
        self,
        puuid: Seq<char>,
        history: Seq<RankedOutcomeView>,
        steps: Seq<RankStepView>,
        upto: nat,
    ) -> StoreView
        decreases upto,
    {
        if upto == 0 {
            self
        } else {
            let before = self.with_steps(puuid, history, steps, (upto - 1) as nat);
            let step = steps[upto - 1];
            if before.has_step(puuid, step.match_id) {
                before
            } else {
                StoreView {
                    progress: before.progress.push(
                        progress_row(puuid, history[steps.len() - upto].game_creation, step),
                    ),
                    ..before
                }
            }
        }
    }
}

fn copy_opt(o: &Option<String>) -> (r: Option<String>)
    ensures
        r.deep_view() == o.deep_view(),
{
    match o {
        Some(s) => Some(s.clone()),
        None => None,
    }
}

fn copy_summoner(row: &DbSummoner) -> (r: DbSummoner)
    ensures
        r.deep_view() == row.deep_view(),
{
    DbSummoner {
        puuid: row.puuid.clone(),
        gameName: row.gameName.clone(),
        tagLine: row.tagLine.clone(),
        region: row.region.clone(),
        matchRegionPrefix: copy_opt(&row.matchRegionPrefix),
        deepLolLink: copy_opt(&row.deepLolLink),
        tier: row.tier.clone(),
        rank: copy_opt(&row.rank),
        lp: row.lp,
        currentMatchId: copy_opt(&row.currentMatchId),
        discordChannelId: copy_opt(&row.discordChannelId),
        regionGroup: copy_opt(&row.regionGroup),
        lastUpdated: row.lastUpdated,
        lastMissingDataNotification: row.lastMissingDataNotification,
    }
}

impl CacheStore {
    fn position_of_summoner(&self, puuid: &str) -> (r: Option<usize>)
        ensures
            match r {
                Some(i) => i < self@.summoners.len() && self@.summoners[i as int].puuid == puuid@,
                None => !self@.has_summoner(puuid@),
            },
    {
        let n: usize = self.summoners.len();
        let mut i: usize = 0;
        while i < n
            invariant
                i <= n,
                n == self.summoners.len(),
                forall|j: int| 0 <= j < i ==> (#[trigger] self@.summoners[j]).puuid != puuid@,
            decreases n - i,
        {
            if same_text(self.summoners[i].puuid.as_str(), puuid) {
                return Some(i);
            }
            i += 1;
        }
        None
    }

    /// Stores a player's snapshot as of `now`, over the earlier one if there
    /// is one. A tier that is not known is stored as `UNRANKED` and a score
    /// that is not known as zero.
    pub fn upsert_summoner(
        &mut self,
        puuid: &str,
        game_name: &str,
        tag_line: &str,
        region: &str,
        tier: Option<&str>,
        rank: Option<&str>,
        lp: Option<i32>,
        now: i64,
    )
        requires
            old(self)@.wf(),
        ensures
            final(self)@.wf(),
            final(self)@ == old(self)@.upsert_summoner(
                puuid@,
                game_name@,
                tag_line@,
                region@,
                opt_text(tier),
                opt_text(rank),
                lp,
                now,
            ),
    {
        let tier_text: String = match tier {
            Some(t) => t.to_owned(),
            None => "UNRANKED".to_owned(),
        };
        let points: i32 = match lp {
            Some(p) => p,
            None => 0,
        };
        match self.position_of_summoner(puuid) {
            Some(i) => {
                let kept = &self.summoners[i];
                let row = DbSummoner {
                    puuid: puuid.to_owned(),
                    gameName: game_name.to_owned(),
                    tagLine: tag_line.to_owned(),
                    region: region.to_owned(),
                    matchRegionPrefix: copy_opt(&kept.matchRegionPrefix),
                    deepLolLink: copy_opt(&kept.deepLolLink),
                    tier: tier_text,
                    rank: owned_opt(rank),
                    lp: points,
                    currentMatchId: copy_opt(&kept.currentMatchId),
                    discordChannelId: copy_opt(&kept.discordChannelId),
                    regionGroup: copy_opt(&kept.regionGroup),
                    lastUpdated: if kept.lastUpdated > now {
                        kept.lastUpdated
                    } else {
                        now
                    },
                    lastMissingDataNotification: kept.lastMissingDataNotification,
                };
                let ghost row_view = row.deep_view();
                proof {
                    let c = choose|c: int|
                        0 <= c < self@.summoners.len() && (#[trigger] self@.summoners[c]).puuid
                            == puuid@;
                    if c < i {
                        assert(self@.summoners[c].puuid != self@.summoners[i as int].puuid);
                    } else if i < c {
                        assert(self@.summoners[i as int].puuid != self@.summoners[c].puuid);
                    }
                    assert(self@.summoners[i as int] == kept.deep_view());
                }
                self.summoners.set(i, row);
                proof {
                    assert(self@.summoners =~= old(self)@.summoners.update(i as int, row_view));
                    assert forall|a: int, b: int|
                        0 <= a < b < self@.summoners.len() implies (
                    #[trigger] self@.summoners[a]).puuid != (
                    #[trigger] self@.summoners[b]).puuid by {
                        assert(old(self)@.summoners[a].puuid != old(self)@.summoners[b].puuid);
                    }
                }
            },
            None => {
                let row = DbSummoner {
                    puuid: puuid.to_owned(),
                    gameName: game_name.to_owned(),
                    tagLine: tag_line.to_owned(),
                    region: region.to_owned(),
                    matchRegionPrefix: None,
                    deepLolLink: None,
                    tier: tier_text,
                    rank: owned_opt(rank),
                    lp: points,
                    currentMatchId: None,
                    discordChannelId: None,
                    regionGroup: None,
                    lastUpdated: now,
                    lastMissingDataNotification: now,
                };
                let ghost row_view = row.deep_view();
                self.summoners.push(row);
                proof {
                    assert(self@.summoners =~= old(self)@.summoners.push(row_view));
                    assert forall|a: int, b: int|
                        0 <= a < b < self@.summoners.len() implies (
                    #[trigger] self@.summoners[a]).puuid != (
                    #[trigger] self@.summoners[b]).puuid by {
                        if b < old(self)@.summoners.len() {
                            assert(old(self)@.summoners[a].puuid != old(self)@.summoners[b].puuid);
                        } else {
                            assert(old(self)@.summoners[a].puuid != puuid@);
                        }
                    }
                }
            },
        }
    }

    /// The stored snapshot of a player, if there is one.
    pub fn get_summoner(&self, puuid: &str) -> (r: Option<DbSummoner>)
        requires
            self@.wf(),
        ensures
            r.deep_view() == self@.summoner(puuid@),
    {
        match self.position_of_summoner(puuid) {
            Some(i) => {
                proof {
                    let c = choose|c: int|
                        0 <= c < self@.summoners.len() && (#[trigger] self@.summoners[c]).puuid
                            == puuid@;
                    if c < i {
                        assert(self@.summoners[c].puuid != self@.summoners[i as int].puuid);
                    } else if i < c {
                        assert(self@.summoners[i as int].puuid != self@.summoners[c].puuid);
                    }
                    assert(self@.summoners[i as int] == self.summoners[i as int].deep_view());
                }
                Some(copy_summoner(&self.summoners[i]))
            },
            None => None,
        }
    }

    /// Picks the positions of the `limit` latest matches of a player.
    fn recent_positions(&self, puuid: &str, limit: usize) -> (picked: Vec<usize>)
        ensures
            picked@ == self@.recent_positions(puuid@, limit as nat),
            forall|k: int| 0 <= k < picked.len() ==> (#[trigger] picked[k]) < self.matches.len(),
            picked.len() <= limit,
    {
        let n: usize = self.matches.len();
        let mut keys: Vec<SortKey> = Vec::new();
        let mut eligible: Vec<bool> = Vec::new();
        let mut i: usize = 0;
        while i < n
            invariant
                i <= n,
                n == self.matches.len(),
                keys.len() == i,
                eligible.len() == i,
                forall|h: int|
                    0 <= h < i ==> (#[trigger] keys[h]) == creation_key(self@.matches[h]),
                forall|h: int|
                    0 <= h < i ==> (#[trigger] eligible[h]) == (self@.matches[h].entry_puuid
                        == puuid@),
            decreases n - i,
        {
            let m = &self.matches[i];
            assert(self@.matches[i as int] == m.deep_view());
            let first: i128 = match m.game_creation {
                Some(t) => t as i128,
                None => 0x8000_0000_0000_0000i128,
            };
            keys.push((first, 0i128));
            eligible.push(same_text(m.entry_puuid.as_str(), puuid));
            i += 1;
        }
        assert(keys@ =~= Seq::new(self@.matches.len(), |i: int| creation_key(self@.matches[i])));
        assert(eligible@ =~= Seq::new(
            self@.matches.len(),
            |i: int| self@.matches[i].entry_puuid == puuid@,
        ));
        select_top(&keys, &eligible, limit)
    }

    /// The remote id of the player's latest match, if the player has any.
    pub fn latest_match_for_puuid(&self, puuid: &str) -> (r: Result<Option<String>, SyncError>)
        ensures
            result_view(r) == self@.latest_match(puuid@),
    {
        let picked = self.recent_positions(puuid, 1);
        if picked.len() == 0 {
            return Ok(None);
        }
        let m = &self.matches[picked[0]];
        assert(self@.matches[picked[0] as int] == m.deep_view());
        match m.game_creation {
            Some(_) => Ok(Some(m.match_id.clone())),
            None => Err(SyncError::StoreFailure),
        }
    }

    /// The key columns of the `limit` latest matches of a player, latest
    /// first.
    pub fn get_recent_matches(&self, puuid: &str, limit: i64) -> (r: Result<
        Vec<DbMatchRow>,
        SyncError,
    >)
        ensures
            result_view(r) == self@.recent_matches(puuid@, limit as int),
    {
        if limit < 0 {
            return Err(SyncError::StoreFailure);
        }
        let most: usize = if limit as u64 > usize::MAX as u64 {
            usize::MAX
        } else {
            limit as usize
        };
        let picked = self.recent_positions(puuid, most);
        let mut rows: Vec<DbMatchRow> = Vec::new();
        let mut k: usize = 0;
        while k < picked.len()
            invariant
                k <= picked.len(),
                rows.len() == k,
                picked@ == self@.recent_positions(puuid@, applied_limit(limit as int)),
                forall|h: int|
                    0 <= h < picked.len() ==> (#[trigger] picked[h]) < self.matches.len(),
                forall|h: int|
                    0 <= h < k ==> (#[trigger] self@.matches[picked[h] as int]).game_creation
                        is Some,
                forall|h: int|
                    0 <= h < k ==> (#[trigger] rows.deep_view()[h]) == key_columns(
                        self@.matches[picked[h] as int],
                    ),
            decreases picked.len() - k,
        {
            let m = &self.matches[picked[k]];
            assert(self@.matches[picked[k as int] as int] == m.deep_view());
            match m.game_creation {
                Some(t) => {
                    let row = DbMatchRow {
                        mid: m.mid,
                        matchId: m.match_id.clone(),
                        entryPlayerPuuid: m.entry_puuid.clone(),
                        gameCreation: t,
                    };
                    let ghost before = rows.deep_view();
                    let ghost row_view = row.deep_view();
                    rows.push(row);
                    assert(rows.deep_view() =~= before.push(row_view));
                },
                None => {
                    return Err(SyncError::StoreFailure);
                },
            }
            k += 1;
        }
        assert(rows.deep_view() =~= Seq::new(
            picked@.len(),
            |k: int| key_columns(self@.matches[picked@[k] as int]),
        ));
        Ok(rows)
    }

    /// Counts the player's ranked games on each of the last thirty days
    /// before `now_ms`.
    pub fn get_daily_activity(&self, puuid: &str, now_ms: i64) -> (entries: Vec<DailyActivityEntry>)
        ensures
            entries.deep_view() == activity_window(self@.matches, puuid@, now_ms as int),
    {
        daily_activity(&self.matches, puuid, now_ms)
    }
}

impl CacheStore {
    fn position_of_summary(&self, puuid: &str) -> (r: Option<usize>)
        ensures
            match r {
                Some(i) => i < self@.summaries.len() && self@.summaries[i as int].puuid == puuid@,
                None => !self@.has_summary(puuid@),
            },
    {
        let n: usize = self.summaries.len();
        let mut i: usize = 0;
        while i < n
            invariant
                i <= n,
                n == self.summaries.len(),
                forall|j: int| 0 <= j < i ==> (#[trigger] self@.summaries[j]).puuid != puuid@,
            decreases n - i,
        {
            if same_text(self.summaries[i].puuid.as_str(), puuid) {
                return Some(i);
            }
            i += 1;
        }
        None
    }

    /// Compiles the player's summary from the stored matches and caches it
    /// as of `now`, in place of the summary cached for the player before.
    pub fn compute_player_summary(&mut self, puuid: &str, now: i64) -> (s: PlayerSummary)
        requires
            old(self)@.wf(),
        ensures
            final(self)@.wf(),
            summarizes(
                performances(old(self)@.matches, puuid@, old(self)@.matches.len()),
                s.deep_view(),
            ),
            final(self)@ == old(self)@.with_summary(
                (PlayerSummaryRowView {
                    puuid: puuid@,
                    queue_id: RANKED_QUEUE,
                    summary: s.deep_view(),
                    computed_at: now,
                }),
            ),
    {
        let s = compile_summary(&self.matches, puuid);
        let row = PlayerSummaryRow {
            puuid: puuid.to_owned(),
            queue_id: RANKED_QUEUE,
            summary: s.duplicate(),
            computed_at: now,
        };
        let ghost row_view = row.deep_view();
        match self.position_of_summary(puuid) {
            Some(i) => {
                proof {
                    let c = choose|c: int|
                        0 <= c < self@.summaries.len() && (#[trigger] self@.summaries[c]).puuid
                            == puuid@;
                    if c < i {
                        assert(self@.summaries[c].puuid != self@.summaries[i as int].puuid);
                    } else if i < c {
                        assert(self@.summaries[i as int].puuid != self@.summaries[c].puuid);
                    }
                }
                self.summaries.set(i, row);
                proof {
                    assert(self@.summaries =~= old(self)@.summaries.update(i as int, row_view));
                    assert forall|a: int, b: int|
                        0 <= a < b < self@.summaries.len() implies (
                    #[trigger] self@.summaries[a]).puuid != (
                    #[trigger] self@.summaries[b]).puuid by {
                        assert(old(self)@.summaries[a].puuid != old(self)@.summaries[b].puuid);
                    }
                }
            },
            None => {
                self.summaries.push(row);
                proof {
                    assert(self@.summaries =~= old(self)@.summaries.push(row_view));
                    assert forall|a: int, b: int|
                        0 <= a < b < self@.summaries.len() implies (
                    #[trigger] self@.summaries[a]).puuid != (
                    #[trigger] self@.summaries[b]).puuid by {
                        if b < old(self)@.summaries.len() {
                            assert(old(self)@.summaries[a].puuid != old(self)@.summaries[b].puuid);
                        } else {
                            assert(old(self)@.summaries[a].puuid != puuid@);
                        }
                    }
                }
            },
        }
        s
    }

    /// The summary cached for a player, if there is one.
    pub fn cached_summary(&self, puuid: &str) -> (r: Option<PlayerSummary>)
        ensures
            match r {
                Some(s) => exists|i: int|
                    0 <= i < self@.summaries.len() && (#[trigger] self@.summaries[i]).puuid
                        == puuid@ && self@.summaries[i].summary == s.deep_view(),
                None => !self@.has_summary(puuid@),
            },
    {
        match self.position_of_summary(puuid) {
            Some(i) => {
                assert(self@.summaries[i as int] == self.summaries[i as int].deep_view());
                Some(self.summaries[i].summary.duplicate())
            },
            None => None,
        }
    }

    fn step_is_cached(&self, puuid: &str, match_id: &str) -> (r: bool)
        ensures
            r == self@.has_step(puuid@, match_id@),
    {
        let n: usize = self.progress.len();
        let mut i: usize = 0;
        while i < n
            invariant
                i <= n,
                n == self.progress.len(),
                forall|j: int|
                    0 <= j < i ==> !((#[trigger] self@.progress[j]).puuid == puuid@
                        && self@.progress[j].match_id == match_id@),
            decreases n - i,
        {
            if same_text(self.progress[i].puuid.as_str(), puuid) && same_text(
                self.progress[i].match_id.as_str(),
                match_id,
            ) {
                assert(self@.progress[i as int].puuid == puuid@ && self@.progress[i as int].match_id
                    == match_id@);
                return true;
            }
            i += 1;
        }
        false
    }

    /// Reconstructs the player's ranked timeline from the stored matches and
    /// caches each step that is not cached yet. Fails, and changes nothing,
    /// where the present score is not one the timeline can be walked back
    /// from.
    pub fn compute_rank_progress_and_cache(
        &mut self,
        puuid: &str,
        current_tier: &str,
        current_division: &str,
        current_lp: i32,
    ) -> (r: Result<Vec<RankStep>, SyncError>)
        requires
            old(self)@.wf(),
        ensures
            final(self)@.wf(),
            ({
                let history = newest_first(
                    outcomes(old(self)@.matches, puuid@, old(self)@.matches.len()),
                    PROGRESS_WINDOW as nat,
                );
                let steps = reconstructed(
                    history,
                    current_tier@,
                    current_division@,
                    current_lp as int,
                );
                if MIN_WALKABLE_LP <= current_lp <= MAX_WALKABLE_LP {
                    &&& result_view(r) == Ok::<Seq<RankStepView>, SyncError>(steps)
                    &&& final(self)@ == old(self)@.with_steps(puuid@, history, steps, steps.len())
                } else {
                    &&& r == Err::<Vec<RankStep>, SyncError>(SyncError::StoreFailure)
                    &&& final(self)@ == old(self)@
                }
            }),
    {
        if current_lp < MIN_WALKABLE_LP || current_lp > MAX_WALKABLE_LP {
            return Err(SyncError::StoreFailure);
        }
        let all = collect_outcomes(&self.matches, puuid);
        let history = latest_outcomes(&all, PROGRESS_WINDOW);
        let steps = reconstruct(&history, current_tier, current_division, current_lp);
        let ghost past = history.deep_view();
        let ghost inferred = steps.deep_view();
        let n: usize = steps.len();
        assert(n == inferred.len());
        assert(n <= history.len());
        let mut k: usize = 0;
        while k < n
            invariant
                k <= n,
                n == steps.len(),
                n <= history.len(),
                past == history.deep_view(),
                inferred == steps.deep_view(),
                self@.wf(),
                self@ == old(self)@.with_steps(puuid@, past, inferred, k as nat),
            decreases n - k,
        {
            let step = &steps[k];
            let game = &history[n - 1 - k];
            assert(inferred[k as int] == step.deep_view());
            assert(past[n - 1 - k] == game.deep_view());
            if !self.step_is_cached(puuid, step.match_id.as_str()) {
                let row = RankProgressRow {
                    puuid: puuid.to_owned(),
                    match_id: step.match_id.clone(),
                    game_creation: game.game_creation,
                    lp_before: step.lp_before,
                    lp_after: step.lp_after,
                    lp_delta: step.lp_delta,
                    tier_before: step.tier_before.clone(),
                    division_before: step.division_before.clone(),
                    tier_after: step.tier_after.clone(),
                    division_after: step.division_after.clone(),
                    exact: false,
                };
                let ghost before = self@;
                let ghost row_view = row.deep_view();
                self.progress.push(row);
                proof {
                    assert(self@.progress =~= before.progress.push(row_view));
                    assert forall|a: int, b: int|
                        0 <= a < b < self@.progress.len() implies !((
                    #[trigger] self@.progress[a]).puuid == (#[trigger] self@.progress[b]).puuid
                        && self@.progress[a].match_id == self@.progress[b].match_id) by {
                        if b < before.progress.len() {
                            assert(!(before.progress[a].puuid == before.progress[b].puuid
                                && before.progress[a].match_id == before.progress[b].match_id));
                        } else {
                            assert(!(before.progress[a].puuid == puuid@
                                && before.progress[a].match_id == step.match_id@));
                        }
                    }
                }
            }
            k += 1;
        }
        Ok(steps)
    }
}

/// Storing a snapshot leaves one snapshot of the player, and its time of
/// update is no earlier than it was and no earlier than `now`.
pub proof fn lemma_snapshot_time_moves_on(
    v: StoreView,
    puuid: Seq<char>,
    game_name: Seq<char>,
    tag_line: Seq<char>,
    region: Seq<char>,
    tier: Option<Seq<char>>,
    rank: Option<Seq<char>>,
    lp: Option<i32>,
    now: i64,
)
    requires
        v.wf(),
    ensures
        ({
            let after = v.upsert_summoner(puuid, game_name, tag_line, region, tier, rank, lp, now);
            &&& after.summoner(puuid) is Some
            &&& after.summoner(puuid)->0.lastUpdated >= now
            &&& v.summoner(puuid) matches Some(before) ==> after.summoner(puuid)->0.lastUpdated
                >= before.lastUpdated
            &&& after.summoners.len() == v.summoners.len() + if v.has_summoner(puuid) {
                0int
            } else {
                1int
            }
        }),
{
    let after = v.upsert_summoner(puuid, game_name, tag_line, region, tier, rank, lp, now);
    if v.has_summoner(puuid) {
        let i = choose|i: int|
            0 <= i < v.summoners.len() && (#[trigger] v.summoners[i]).puuid == puuid;
        assert(after.summoners[i].puuid == puuid);
        let c = choose|c: int|
            0 <= c < after.summoners.len() && (#[trigger] after.summoners[c]).puuid == puuid;
        if c != i {
            assert(after.summoners[c] == v.summoners[c]);
            if c < i {
                assert(v.summoners[c].puuid != v.summoners[i].puuid);
            } else {
                assert(v.summoners[i].puuid != v.summoners[c].puuid);
            }
        }
    } else {
        let last = v.summoners.len() as int;
        assert(after.summoners[last].puuid == puuid);
        let c = choose|c: int|
            0 <= c < after.summoners.len() && (#[trigger] after.summoners[c]).puuid == puuid;
        if c != last {
            assert(after.summoners[c] == v.summoners[c]);
        }
    }
}

/// A timeline cached a second time adds no step: each of its matches has its
/// step already.
pub proof fn lemma_steps_are_cached_once(
    v: StoreView,
    puuid: Seq<char>,
    history: Seq<RankedOutcomeView>,
    steps: Seq<RankStepView>,
    upto: nat,
)
    requires
        upto <= steps.len(),
        forall|k: int| 0 <= k < upto ==> #[trigger] v.has_step(puuid, steps[k].match_id),
    ensures
        v.with_steps(puuid, history, steps, upto) == v,
    decreases upto,
{
    if upto > 0 {
        lemma_steps_are_cached_once(v, puuid, history, steps, (upto - 1) as nat);
        assert(v.has_step(puuid, steps[upto - 1].match_id));
    }
}

/// After a timeline was cached, each of its matches has a step, and what was
/// cached before is still there.
pub proof fn lemma_steps_are_cached(
    v: StoreView,
    puuid: Seq<char>,
    history: Seq<RankedOutcomeView>,
    steps: Seq<RankStepView>,
    upto: nat,
)
    requires
        upto <= steps.len(),
    ensures
        ({
            let after = v.with_steps(puuid, history, steps, upto);
            &&& forall|k: int| 0 <= k < upto ==> #[trigger] after.has_step(puuid, steps[k].match_id)
            &&& v.progress.len() <= after.progress.len()
            &&& after.progress.take(v.progress.len() as int) == v.progress
            &&& after.matches == v.matches
        }),
    decreases upto,
{
    if upto == 0 {
        assert(v.progress.take(v.progress.len() as int) =~= v.progress);
    } else {
        lemma_steps_are_cached(v, puuid, history, steps, (upto - 1) as nat);
        let before = v.with_steps(puuid, history, steps, (upto - 1) as nat);
        let after = v.with_steps(puuid, history, steps, upto);
        let step = steps[upto - 1];
        assert(after.progress.take(v.progress.len() as int) =~= v.progress) by {
            assert(before.progress.take(v.progress.len() as int) == v.progress);
        }
        assert forall|k: int| 0 <= k < upto implies #[trigger] after.has_step(
            puuid,
            steps[k].match_id,
        ) by {
            if before.has_step(puuid, steps[k].match_id) {
                let w = choose|w: int|
                    0 <= w < before.progress.len() && (#[trigger] before.progress[w]).puuid == puuid
                        && before.progress[w].match_id == steps[k].match_id;
                assert(after.progress[w] == before.progress[w]);
            } else {
                let last = before.progress.len() as int;
                assert(after.progress[last].puuid == puuid && after.progress[last].match_id
                    == step.match_id);
            }
        }
    }
}

/// Reconstructing the same timeline again leaves the cache as it is.
pub proof fn lemma_progress_is_cached_once(
    v: StoreView,
    puuid: Seq<char>,
    history: Seq<RankedOutcomeView>,
    steps: Seq<RankStepView>,
)
    ensures
        ({
            let after = v.with_steps(puuid, history, steps, steps.len());
            after.with_steps(puuid, history, steps, steps.len()) == after
        }),
{
    lemma_steps_are_cached(v, puuid, history, steps, steps.len());
    let after = v.with_steps(puuid, history, steps, steps.len());
    lemma_steps_are_cached_once(after, puuid, history, steps, steps.len());
}

} // verus!
