//! The identity part of an overview.

use vstd::prelude::*;
use vstd::string::*;
use crate::models::{AccountDto, PlayerProfile, SummonerDto};
use crate::text::{append_decimal, decimal_text, unicode_upper, uppercase};

verus! {

/// The address that [`profile_icon_url`] builds.
pub open spec fn profile_icon_url_text(ddragon_version: Seq<char>, icon_id: int) -> Seq<char> {
    "https://ddragon.leagueoflegends.com/cdn/"@
        + ddragon_version
        + "/img/profileicon/"@
        + decimal_text(icon_id)
        + ".png"@
}

/// Where the icon of a profile is found.
pub fn profile_icon_url(ddragon_version: &str, icon_id: i32) -> (url: String)
    ensures
        url@ == profile_icon_url_text(ddragon_version@, icon_id as int),
{
    let mut url = "https://ddragon.leagueoflegends.com/cdn/".to_owned();
    url.append(ddragon_version);
    url.append("/img/profileicon/");
    append_decimal(&mut url, icon_id as i128);
    url.append(".png");
    url
}

/// The name a player is shown under: the summoner's name, or the account's
/// where the summoner has none.
pub open spec fn shown_name(summoner_name: Seq<char>, game_name: Seq<char>) -> Seq<char> {
    if summoner_name.len() == 0 {
        game_name
    } else {
        summoner_name
    }
}

/// The name a player is shown under.
pub fn display_name(summoner_name: &str, game_name: &str) -> (name: String)
    ensures
        name@ == shown_name(summoner_name@, game_name@),
{
    if summoner_name.unicode_len() == 0 {
        game_name.to_owned()
    } else {
        summoner_name.to_owned()
    }
}

/// The code a region is stored and shown under: the code asked for, in upper
/// case.
pub fn region_code(query_region: &str) -> (code: String)
    ensures
        code@ == unicode_upper(query_region@),
{
    uppercase(query_region)
}

/// Whether a player's tier, division and score are all known.
pub fn rank_is_known(tier: &Option<String>, division: &Option<String>, lp: Option<i32>) -> (known:
    bool)
    ensures
        known == (tier is Some && division is Some && lp is Some),
{
    tier.is_some() && division.is_some() && lp.is_some()
}

fn copy_text(o: &Option<String>) -> (r: Option<String>)
    ensures
        r.deep_view() == o.deep_view(),
{
    match o {
        Some(s) => Some(s.clone()),
        None => None,
    }
}

/// Puts a player's profile together from what the providers reported: the
/// region in upper case, the level cut to 32 bits, and the icon's address
/// under the data version in use.
pub fn build_profile(
    account: &AccountDto,
    summoner: &SummonerDto,
    query_region: &str,
    ddragon_version: &str,
    tier: &Option<String>,
    division: &Option<String>,
    lp: Option<i32>,
) -> (profile: PlayerProfile)
    ensures
        profile.puuid@ == account.puuid@,
        profile.name@ == shown_name(summoner.name@, account.gameName@),
        profile.tagline@ == account.tagLine@,
        profile.region@ == unicode_upper(query_region@),
        profile.summoner_level == summoner.summonerLevel as u32,
        profile.profile_icon_url@ == profile_icon_url_text(
            ddragon_version@,
            summoner.profileIconId as int,
        ),
        profile.tier.deep_view() == tier.deep_view(),
        profile.division.deep_view() == division.deep_view(),
        profile.lp == lp,
{
    PlayerProfile {
        puuid: account.puuid.clone(),
        name: display_name(summoner.name.as_str(), account.gameName.as_str()),
        tagline: account.tagLine.clone(),
        region: region_code(query_region),
        summoner_level: #[verifier::truncate]
        (summoner.summonerLevel as u32),
        profile_icon_url: profile_icon_url(ddragon_version, summoner.profileIconId),
        tier: copy_text(tier),
        division: copy_text(division),
        lp,
    }
}

} // verus!
