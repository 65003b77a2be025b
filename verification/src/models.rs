//! The values that pass between the provider, the cache and the display.
//!
//! Each type that holds text or a list comes with a view type of plain values
//! (`Seq<char>` for text, `Seq` for lists), reached through `deep_view`.
//! Contracts speak of those views.

use vstd::prelude::*;

verus! {

/// A request for a player's overview.
#[derive(Debug)]
pub struct PlayerQuery {
    pub name: String,
    pub tag: String,
    pub region: String,
}

/// What a [`PlayerQuery`] holds, as plain values.
pub struct PlayerQueryView {
    pub name: Seq<char>,
    pub tag: Seq<char>,
    pub region: Seq<char>,
}

impl DeepView for PlayerQuery {
    type V = PlayerQueryView;

    open spec fn deep_view(&self) -> PlayerQueryView {
        PlayerQueryView {
            name: self.name@,
            tag: self.tag@,
            region: self.region@,
        }
    }
}

/// A request for the details of one match.
#[derive(Debug)]
pub struct MatchQuery {
    pub match_id: String,
    pub user_puuid: String,
}

/// What a [`MatchQuery`] holds, as plain values.
pub struct MatchQueryView {
    pub match_id: Seq<char>,
    pub user_puuid: Seq<char>,
}

impl DeepView for MatchQuery {
    type V = MatchQueryView;

    open spec fn deep_view(&self) -> MatchQueryView {
        MatchQueryView {
            match_id: self.match_id@,
            user_puuid: self.user_puuid@,
        }
    }
}

/// A request for a player's daily activity.
#[derive(Debug)]
pub struct ActivityQuery {
    pub user_puuid: String,
}

/// What a [`ActivityQuery`] holds, as plain values.
pub struct ActivityQueryView {
    pub user_puuid: Seq<char>,
}

impl DeepView for ActivityQuery {
    type V = ActivityQueryView;

    open spec fn deep_view(&self) -> ActivityQueryView {
        ActivityQueryView {
            user_puuid: self.user_puuid@,
        }
    }
}

/// The identity part of an overview.
#[derive(Debug)]
pub struct PlayerProfile {
    pub puuid: String,
    pub name: String,
    pub tagline: String,
    pub region: String,
    pub summoner_level: u32,
    pub profile_icon_url: String,
    pub tier: Option<String>,
    pub division: Option<String>,
    pub lp: Option<i32>,
}

/// What a [`PlayerProfile`] holds, as plain values.
pub struct PlayerProfileView {
    pub puuid: Seq<char>,
    pub name: Seq<char>,
    pub tagline: Seq<char>,
    pub region: Seq<char>,
    pub summoner_level: u32,
    pub profile_icon_url: Seq<char>,
    pub tier: Option<Seq<char>>,
    pub division: Option<Seq<char>>,
    pub lp: Option<i32>,
}

impl DeepView for PlayerProfile {
    type V = PlayerProfileView;

    open spec fn deep_view(&self) -> PlayerProfileView {
        PlayerProfileView {
            puuid: self.puuid@,
            name: self.name@,
            tagline: self.tagline@,
            region: self.region@,
            summoner_level: self.summoner_level,
            profile_icon_url: self.profile_icon_url@,
            tier: self.tier.deep_view(),
            division: self.division.deep_view(),
            lp: self.lp,
        }
    }
}

/// An account as the account provider reports it.
#[allow(non_snake_case)]
#[derive(Debug)]
pub struct AccountDto {
    pub puuid: String,
    pub gameName: String,
    pub tagLine: String,
}

/// What a [`AccountDto`] holds, as plain values.
#[allow(non_snake_case)]
pub struct AccountDtoView {
    pub puuid: Seq<char>,
    pub gameName: Seq<char>,
    pub tagLine: Seq<char>,
}

impl DeepView for AccountDto {
    type V = AccountDtoView;

    open spec fn deep_view(&self) -> AccountDtoView {
        AccountDtoView {
            puuid: self.puuid@,
            gameName: self.gameName@,
            tagLine: self.tagLine@,
        }
    }
}

/// A summoner as the profile provider reports it.
#[allow(non_snake_case)]
#[derive(Debug)]
pub struct SummonerDto {
    pub id: String,
    pub puuid: String,
    pub name: String,
    pub profileIconId: i32,
    pub summonerLevel: i64,
}

/// What a [`SummonerDto`] holds, as plain values.
#[allow(non_snake_case)]
pub struct SummonerDtoView {
    pub id: Seq<char>,
    pub puuid: Seq<char>,
    pub name: Seq<char>,
    pub profileIconId: i32,
    pub summonerLevel: i64,
}

impl DeepView for SummonerDto {
    type V = SummonerDtoView;

    open spec fn deep_view(&self) -> SummonerDtoView {
        SummonerDtoView {
            id: self.id@,
            puuid: self.puuid@,
            name: self.name@,
            profileIconId: self.profileIconId,
            summonerLevel: self.summonerLevel,
        }
    }
}

/// One ranked-queue entry of a player.
#[allow(non_snake_case)]
#[derive(Debug)]
pub struct LeagueEntryDto {
    pub queueType: String,
    pub tier: String,
    pub rank: String,
    pub leaguePoints: i32,
}

/// What a [`LeagueEntryDto`] holds, as plain values.
#[allow(non_snake_case)]
pub struct LeagueEntryDtoView {
    pub queueType: Seq<char>,
    pub tier: Seq<char>,
    pub rank: Seq<char>,
    pub leaguePoints: i32,
}

impl DeepView for LeagueEntryDto {
    type V = LeagueEntryDtoView;

    open spec fn deep_view(&self) -> LeagueEntryDtoView {
        LeagueEntryDtoView {
            queueType: self.queueType@,
            tier: self.tier@,
            rank: self.rank@,
            leaguePoints: self.leaguePoints,
        }
    }
}

/// Derived figures of one participant.
#[allow(non_snake_case)]
#[derive(Debug, Clone, Copy)]
pub struct ChallengesDto {
    /// The share of the team's kills the participant took part in, as the bits
    /// of a single-precision number.
    pub killParticipationBits: u32,
}

/// What a [`ChallengesDto`] holds, as plain values.
#[allow(non_snake_case)]
pub struct ChallengesDtoView {
    pub killParticipationBits: u32,
}

impl DeepView for ChallengesDto {
    type V = ChallengesDtoView;

    open spec fn deep_view(&self) -> ChallengesDtoView {
        ChallengesDtoView {
            killParticipationBits: self.killParticipationBits,
        }
    }
}

/// One participant of a match.
#[allow(non_snake_case)]
#[derive(Debug)]
pub struct ParticipantDto {
    pub puuid: String,
    pub championName: String,
    pub kills: i32,
    pub deaths: i32,
    pub assists: i32,
    pub win: bool,
    pub totalMinionsKilled: Option<i32>,
    pub neutralMinionsKilled: Option<i32>,
    pub goldEarned: i32,
    pub item0: i32,
    pub item1: i32,
    pub item2: i32,
    pub item3: i32,
    pub item4: i32,
    pub item5: i32,
    pub item6: i32,
    pub totalDamageDealtToChampions: i32,
    pub totalDamageTaken: i32,
    pub visionScore: i32,
    pub teamPosition: String,
    pub teamId: i32,
    pub challenges: Option<ChallengesDto>,
    pub turretTakedowns: i32,
    pub dragonKills: i32,
    pub baronKills: i32,
}

/// What a [`ParticipantDto`] holds, as plain values.
#[allow(non_snake_case)]
pub struct ParticipantDtoView {
    pub puuid: Seq<char>,
    pub championName: Seq<char>,
    pub kills: i32,
    pub deaths: i32,
    pub assists: i32,
    pub win: bool,
    pub totalMinionsKilled: Option<i32>,
    pub neutralMinionsKilled: Option<i32>,
    pub goldEarned: i32,
    pub item0: i32,
    pub item1: i32,
    pub item2: i32,
    pub item3: i32,
    pub item4: i32,
    pub item5: i32,
    pub item6: i32,
    pub totalDamageDealtToChampions: i32,
    pub totalDamageTaken: i32,
    pub visionScore: i32,
    pub teamPosition: Seq<char>,
    pub teamId: i32,
    pub challenges: Option<ChallengesDtoView>,
    pub turretTakedowns: i32,
    pub dragonKills: i32,
    pub baronKills: i32,
}

impl DeepView for ParticipantDto {
    type V = ParticipantDtoView;

    open spec fn deep_view(&self) -> ParticipantDtoView {
        ParticipantDtoView {
            puuid: self.puuid@,
            championName: self.championName@,
            kills: self.kills,
            deaths: self.deaths,
            assists: self.assists,
            win: self.win,
            totalMinionsKilled: self.totalMinionsKilled,
            neutralMinionsKilled: self.neutralMinionsKilled,
            goldEarned: self.goldEarned,
            item0: self.item0,
            item1: self.item1,
            item2: self.item2,
            item3: self.item3,
            item4: self.item4,
            item5: self.item5,
            item6: self.item6,
            totalDamageDealtToChampions: self.totalDamageDealtToChampions,
            totalDamageTaken: self.totalDamageTaken,
            visionScore: self.visionScore,
            teamPosition: self.teamPosition@,
            teamId: self.teamId,
            challenges: self.challenges.deep_view(),
            turretTakedowns: self.turretTakedowns,
            dragonKills: self.dragonKills,
            baronKills: self.baronKills,
        }
    }
}

impl ParticipantDto {
    /// A copy of the participant.
    pub fn duplicate(&self) -> (r: ParticipantDto)
        ensures
            r.deep_view() == self.deep_view(),
    {
        ParticipantDto {
            puuid: self.puuid.clone(),
            championName: self.championName.clone(),
            kills: self.kills,
            deaths: self.deaths,
            assists: self.assists,
            win: self.win,
            totalMinionsKilled: self.totalMinionsKilled,
            neutralMinionsKilled: self.neutralMinionsKilled,
            goldEarned: self.goldEarned,
            item0: self.item0,
            item1: self.item1,
            item2: self.item2,
            item3: self.item3,
            item4: self.item4,
            item5: self.item5,
            item6: self.item6,
            totalDamageDealtToChampions: self.totalDamageDealtToChampions,
            totalDamageTaken: self.totalDamageTaken,
            visionScore: self.visionScore,
            teamPosition: self.teamPosition.clone(),
            teamId: self.teamId,
            challenges: self.challenges,
            turretTakedowns: self.turretTakedowns,
            dragonKills: self.dragonKills,
            baronKills: self.baronKills,
        }
    }
}

/// A copy of a list of participants.
pub fn copy_participants(people: &Vec<ParticipantDto>) -> (r: Vec<ParticipantDto>)
    ensures
        r.deep_view() == people.deep_view(),
{
    let mut r: Vec<ParticipantDto> = Vec::new();
    let n: usize = people.len();
    let mut i: usize = 0;
    while i < n
        invariant
            i <= n,
            n == people.len(),
            r.len() == i,
            forall|k: int| 0 <= k < i ==> (#[trigger] r.deep_view()[k]) == people.deep_view()[k],
        decreases n - i,
    {
        let copy = people[i].duplicate();
        let ghost before = r.deep_view();
        let ghost copy_view = copy.deep_view();
        r.push(copy);
        assert(r.deep_view() =~= before.push(copy_view));
        assert(people.deep_view()[i as int] == people[i as int].deep_view());
        i += 1;
    }
    assert(r.deep_view() =~= people.deep_view());
    r
}

/// The body of a match.
#[allow(non_snake_case)]
#[derive(Debug)]
pub struct MatchInfo {
    /// When the game was created, in milliseconds since the epoch.
    pub gameCreation: i64,
    /// How long the game lasted, in seconds.
    pub gameDuration: i64,
    pub queueId: i32,
    pub participants: Vec<ParticipantDto>,
}

/// What a [`MatchInfo`] holds, as plain values.
#[allow(non_snake_case)]
pub struct MatchInfoView {
    pub gameCreation: i64,
    pub gameDuration: i64,
    pub queueId: i32,
    pub participants: Seq<ParticipantDtoView>,
}

impl DeepView for MatchInfo {
    type V = MatchInfoView;

    open spec fn deep_view(&self) -> MatchInfoView {
        MatchInfoView {
            gameCreation: self.gameCreation,
            gameDuration: self.gameDuration,
            queueId: self.queueId,
            participants: self.participants.deep_view(),
        }
    }
}

/// A match as the record provider reports it.
#[derive(Debug)]
pub struct MatchDto {
    pub info: MatchInfo,
}

/// What a [`MatchDto`] holds, as plain values.
pub struct MatchDtoView {
    pub info: MatchInfoView,
}

impl DeepView for MatchDto {
    type V = MatchDtoView;

    open spec fn deep_view(&self) -> MatchDtoView {
        MatchDtoView {
            info: self.info.deep_view(),
        }
    }
}

/// The queue tag stored beside a match.
#[allow(non_snake_case)]
#[derive(Debug, Clone, Copy)]
pub struct TeamsTag {
    pub queueId: i32,
}

/// What a [`TeamsTag`] holds, as plain values.
#[allow(non_snake_case)]
pub struct TeamsTagView {
    pub queueId: i32,
}

impl DeepView for TeamsTag {
    type V = TeamsTagView;

    open spec fn deep_view(&self) -> TeamsTagView {
        TeamsTagView {
            queueId: self.queueId,
        }
    }
}

/// One frame of a match's timeline. The two payloads are carried as the text
/// the provider sent; nothing in the library reads into them.
#[derive(Debug)]
pub struct TimelineFrame {
    pub timestamp: Option<i64>,
    pub participant_frames: String,
    pub events: String,
}

/// What a [`TimelineFrame`] holds, as plain values.
pub struct TimelineFrameView {
    pub timestamp: Option<i64>,
    pub participant_frames: Seq<char>,
    pub events: Seq<char>,
}

impl DeepView for TimelineFrame {
    type V = TimelineFrameView;

    open spec fn deep_view(&self) -> TimelineFrameView {
        TimelineFrameView {
            timestamp: self.timestamp,
            participant_frames: self.participant_frames@,
            events: self.events@,
        }
    }
}

/// The stored snapshot of a player.
#[allow(non_snake_case)]
#[derive(Debug)]
pub struct DbSummoner {
    pub puuid: String,
    pub gameName: String,
    pub tagLine: String,
    pub region: String,
    pub matchRegionPrefix: Option<String>,
    pub deepLolLink: Option<String>,
    pub tier: String,
    pub rank: Option<String>,
    pub lp: i32,
    pub currentMatchId: Option<String>,
    pub discordChannelId: Option<String>,
    pub regionGroup: Option<String>,
    /// When the snapshot was last written, in milliseconds since the epoch.
    pub lastUpdated: i64,
    pub lastMissingDataNotification: i64,
}

/// What a [`DbSummoner`] holds, as plain values.
#[allow(non_snake_case)]
pub struct DbSummonerView {
    pub puuid: Seq<char>,
    pub gameName: Seq<char>,
    pub tagLine: Seq<char>,
    pub region: Seq<char>,
    pub matchRegionPrefix: Option<Seq<char>>,
    pub deepLolLink: Option<Seq<char>>,
    pub tier: Seq<char>,
    pub rank: Option<Seq<char>>,
    pub lp: i32,
    pub currentMatchId: Option<Seq<char>>,
    pub discordChannelId: Option<Seq<char>>,
    pub regionGroup: Option<Seq<char>>,
    pub lastUpdated: i64,
    pub lastMissingDataNotification: i64,
}

impl DeepView for DbSummoner {
    type V = DbSummonerView;

    open spec fn deep_view(&self) -> DbSummonerView {
        DbSummonerView {
            puuid: self.puuid@,
            gameName: self.gameName@,
            tagLine: self.tagLine@,
            region: self.region@,
            matchRegionPrefix: self.matchRegionPrefix.deep_view(),
            deepLolLink: self.deepLolLink.deep_view(),
            tier: self.tier@,
            rank: self.rank.deep_view(),
            lp: self.lp,
            currentMatchId: self.currentMatchId.deep_view(),
            discordChannelId: self.discordChannelId.deep_view(),
            regionGroup: self.regionGroup.deep_view(),
            lastUpdated: self.lastUpdated,
            lastMissingDataNotification: self.lastMissingDataNotification,
        }
    }
}

/// The key columns of a stored match.
#[allow(non_snake_case)]
#[derive(Debug)]
pub struct DbMatchRow {
    pub mid: i64,
    pub matchId: String,
    pub entryPlayerPuuid: String,
    pub gameCreation: i64,
}

/// What a [`DbMatchRow`] holds, as plain values.
#[allow(non_snake_case)]
pub struct DbMatchRowView {
    pub mid: i64,
    pub matchId: Seq<char>,
    pub entryPlayerPuuid: Seq<char>,
    pub gameCreation: i64,
}

impl DeepView for DbMatchRow {
    type V = DbMatchRowView;

    open spec fn deep_view(&self) -> DbMatchRowView {
        DbMatchRowView {
            mid: self.mid,
            matchId: self.matchId@,
            entryPlayerPuuid: self.entryPlayerPuuid@,
            gameCreation: self.gameCreation,
        }
    }
}

/// The number of games on one calendar day.
#[derive(Debug)]
pub struct DailyActivityEntry {
    /// The day, written `YYYY-MM-DD`.
    pub date: String,
    pub games: u64,
}

/// What a [`DailyActivityEntry`] holds, as plain values.
pub struct DailyActivityEntryView {
    pub date: Seq<char>,
    pub games: u64,
}

impl DeepView for DailyActivityEntry {
    type V = DailyActivityEntryView;

    open spec fn deep_view(&self) -> DailyActivityEntryView {
        DailyActivityEntryView {
            date: self.date@,
            games: self.games,
        }
    }
}

/// One inferred step of a reconstructed ranked timeline.
#[derive(Debug)]
pub struct RankStep {
    pub match_id: String,
    pub label_index: i32,
    pub lp_before: i32,
    pub lp_after: i32,
    pub lp_delta: i32,
    pub result: String,
    pub tier_before: String,
    pub division_before: String,
    pub tier_after: String,
    pub division_after: String,
    pub exact: bool,
}

/// What a [`RankStep`] holds, as plain values.
pub struct RankStepView {
    pub match_id: Seq<char>,
    pub label_index: i32,
    pub lp_before: i32,
    pub lp_after: i32,
    pub lp_delta: i32,
    pub result: Seq<char>,
    pub tier_before: Seq<char>,
    pub division_before: Seq<char>,
    pub tier_after: Seq<char>,
    pub division_after: Seq<char>,
    pub exact: bool,
}

impl DeepView for RankStep {
    type V = RankStepView;

    open spec fn deep_view(&self) -> RankStepView {
        RankStepView {
            match_id: self.match_id@,
            label_index: self.label_index,
            lp_before: self.lp_before,
            lp_after: self.lp_after,
            lp_delta: self.lp_delta,
            result: self.result@,
            tier_before: self.tier_before@,
            division_before: self.division_before@,
            tier_after: self.tier_after@,
            division_after: self.division_after@,
            exact: self.exact,
        }
    }
}

} // verus!
