//! What the library knows of the provider: how regions are routed, where
//! each kind of record is asked for, and how answers are read.

use vstd::prelude::*;
use vstd::string::*;
use vstd::utf8::encode_utf8;
use crate::error::SyncError;
use crate::models::LeagueEntryDto;
use crate::text::{
    append_decimal, ascii_upper_is, decimal_text, percent_encode, percent_encoded, same_text,
    to_ascii_upper,
};

verus! {

/// The platform and the regional route of a region, by the region's code in
/// upper case.
pub open spec fn region_routes(upper: Seq<char>) -> Option<(Seq<char>, Seq<char>)> {
    if upper == "EUW"@ || upper == "EUW1"@ {
        Some(("euw1"@, "europe"@))
    } else if upper == "EUNE"@ || upper == "EUN1"@ {
        Some(("eun1"@, "europe"@))
    } else if upper == "NA"@ || upper == "NA1"@ {
        Some(("na1"@, "americas"@))
    } else if upper == "KR"@ {
        Some(("kr"@, "asia"@))
    } else if upper == "JP"@ || upper == "JP1"@ {
        Some(("jp1"@, "asia"@))
    } else if upper == "BR"@ || upper == "BR1"@ {
        Some(("br1"@, "americas"@))
    } else if upper == "LAN"@ || upper == "LA1"@ {
        Some(("la1"@, "americas"@))
    } else if upper == "LAS"@ || upper == "LA2"@ {
        Some(("la2"@, "americas"@))
    } else if upper == "OCE"@ || upper == "OC1"@ {
        Some(("oc1"@, "sea"@))
    } else if upper == "TR"@ || upper == "TR1"@ {
        Some(("tr1"@, "europe"@))
    } else if upper == "RU"@ || upper == "RU1"@ {
        Some(("ru"@, "europe"@))
    } else {
        None
    }
}

/// The platform and the regional route of a region, whatever the case of its
/// code; nothing for a code that is not routed.
pub fn map_region(region: &str) -> (r: Option<(&'static str, &'static str)>)
    ensures
        match region_routes(to_ascii_upper(region@)) {
            Some(routes) => r matches Some(found) && found.0@ == routes.0 && found.1@ == routes.1,
            None => r is None,
        },
{
    if ascii_upper_is(region, "EUW") || ascii_upper_is(region, "EUW1") {
        Some(("euw1", "europe"))
    } else if ascii_upper_is(region, "EUNE") || ascii_upper_is(region, "EUN1") {
        Some(("eun1", "europe"))
    } else if ascii_upper_is(region, "NA") || ascii_upper_is(region, "NA1") {
        Some(("na1", "americas"))
    } else if ascii_upper_is(region, "KR") {
        Some(("kr", "asia"))
    } else if ascii_upper_is(region, "JP") || ascii_upper_is(region, "JP1") {
        Some(("jp1", "asia"))
    } else if ascii_upper_is(region, "BR") || ascii_upper_is(region, "BR1") {
        Some(("br1", "americas"))
    } else if ascii_upper_is(region, "LAN") || ascii_upper_is(region, "LA1") {
        Some(("la1", "americas"))
    } else if ascii_upper_is(region, "LAS") || ascii_upper_is(region, "LA2") {
        Some(("la2", "americas"))
    } else if ascii_upper_is(region, "OCE") || ascii_upper_is(region, "OC1") {
        Some(("oc1", "sea"))
    } else if ascii_upper_is(region, "TR") || ascii_upper_is(region, "TR1") {
        Some(("tr1", "europe"))
    } else if ascii_upper_is(region, "RU") || ascii_upper_is(region, "RU1") {
        Some(("ru", "europe"))
    } else {
        None
    }
}

/// The address that [`get_account_by_riot_id_url`] builds.
pub open spec fn get_account_by_riot_id_url_text(
    base: Seq<char>,
    regional: Seq<char>,
    name: Seq<char>,
    tag: Seq<char>,
) -> Seq<char> {
    base
        + "/riot/account/v1/accounts/by-riot-id/"@
        + percent_encoded(encode_utf8(name))
        + "/"@
        + percent_encoded(encode_utf8(tag))
        + "?region="@
        + regional
}

/// Where an account is asked for by name and tag. Name and tag are
/// percent-encoded.
pub fn get_account_by_riot_id_url(
    base: &str,
    regional: &str,
    name: &str,
    tag: &str,
) -> (url: String)
    ensures
        url@ == get_account_by_riot_id_url_text(base@, regional@, name@, tag@),
{
    let mut url = base.to_owned();
    url.append("/riot/account/v1/accounts/by-riot-id/");
    let encoded = percent_encode(name);
    url.append(encoded.as_str());
    url.append("/");
    let encoded = percent_encode(tag);
    url.append(encoded.as_str());
    url.append("?region=");
    url.append(regional);
    url
}

/// The address that [`get_account_by_puuid_url`] builds.
pub open spec fn get_account_by_puuid_url_text(
    base: Seq<char>,
    regional: Seq<char>,
    puuid: Seq<char>,
) -> Seq<char> {
    base + "/riot/account/v1/accounts/by-puuid/"@ + puuid + "?region="@ + regional
}

/// Where an account is asked for by its player id.
pub fn get_account_by_puuid_url(base: &str, regional: &str, puuid: &str) -> (url: String)
    ensures
        url@ == get_account_by_puuid_url_text(base@, regional@, puuid@),
{
    let mut url = base.to_owned();
    url.append("/riot/account/v1/accounts/by-puuid/");
    url.append(puuid);
    url.append("?region=");
    url.append(regional);
    url
}

/// The address that [`get_summoner_by_puuid_url`] builds.
pub open spec fn get_summoner_by_puuid_url_text(
    base: Seq<char>,
    platform: Seq<char>,
    puuid: Seq<char>,
) -> Seq<char> {
    base + "/lol/summoner/v4/summoners/by-puuid/"@ + puuid + "?platform="@ + platform
}

/// Where a summoner is asked for.
pub fn get_summoner_by_puuid_url(base: &str, platform: &str, puuid: &str) -> (url: String)
    ensures
        url@ == get_summoner_by_puuid_url_text(base@, platform@, puuid@),
{
    let mut url = base.to_owned();
    url.append("/lol/summoner/v4/summoners/by-puuid/");
    url.append(puuid);
    url.append("?platform=");
    url.append(platform);
    url
}

/// The address that [`get_rank_solo_url`] builds.
pub open spec fn get_rank_solo_url_text(
    base: Seq<char>,
    platform: Seq<char>,
    puuid: Seq<char>,
) -> Seq<char> {
    base + "/lol/league/v4/entries/by-puuid/"@ + puuid + "?platform="@ + platform
}

/// Where a player's ranked entries are asked for.
pub fn get_rank_solo_url(base: &str, platform: &str, puuid: &str) -> (url: String)
    ensures
        url@ == get_rank_solo_url_text(base@, platform@, puuid@),
{
    let mut url = base.to_owned();
    url.append("/lol/league/v4/entries/by-puuid/");
    url.append(puuid);
    url.append("?platform=");
    url.append(platform);
    url
}

/// The address that [`get_match_ids_url`] builds.
pub open spec fn get_match_ids_url_text(
    base: Seq<char>,
    regional: Seq<char>,
    puuid: Seq<char>,
    start: int,
    count: int,
) -> Seq<char> {
    base
        + "/lol/match/v5/matches/by-puuid/"@
        + puuid
        + "/ids?region="@
        + regional
        + "&start="@
        + decimal_text(start)
        + "&count="@
        + decimal_text(count)
}

/// Where a player's most recent match ids are asked for: `count` ids from
/// position `start`.
pub fn get_match_ids_url(
    base: &str,
    regional: &str,
    puuid: &str,
    start: u32,
    count: u32,
) -> (url: String)
    ensures
        url@ == get_match_ids_url_text(base@, regional@, puuid@, start as int, count as int),
{
    let mut url = base.to_owned();
    url.append("/lol/match/v5/matches/by-puuid/");
    url.append(puuid);
    url.append("/ids?region=");
    url.append(regional);
    url.append("&start=");
    append_decimal(&mut url, start as i128);
    url.append("&count=");
    append_decimal(&mut url, count as i128);
    url
}

/// The address that [`get_match_by_id_url`] builds.
pub open spec fn get_match_by_id_url_text(
    base: Seq<char>,
    regional: Seq<char>,
    match_id: Seq<char>,
) -> Seq<char> {
    base + "/lol/match/v5/matches/"@ + match_id + "?region="@ + regional
}

/// Where a match is asked for.
pub fn get_match_by_id_url(base: &str, regional: &str, match_id: &str) -> (url: String)
    ensures
        url@ == get_match_by_id_url_text(base@, regional@, match_id@),
{
    let mut url = base.to_owned();
    url.append("/lol/match/v5/matches/");
    url.append(match_id);
    url.append("?region=");
    url.append(regional);
    url
}

/// The address that [`get_timeline_by_id_url`] builds.
pub open spec fn get_timeline_by_id_url_text(
    base: Seq<char>,
    regional: Seq<char>,
    match_id: Seq<char>,
) -> Seq<char> {
    base + "/lol/match/v5/matches/"@ + match_id + "/timeline?region="@ + regional
}

/// Where the timeline of a match is asked for.
pub fn get_timeline_by_id_url(base: &str, regional: &str, match_id: &str) -> (url: String)
    ensures
        url@ == get_timeline_by_id_url_text(base@, regional@, match_id@),
{
    let mut url = base.to_owned();
    url.append("/lol/match/v5/matches/");
    url.append(match_id);
    url.append("/timeline?region=");
    url.append(regional);
    url
}

/// The address that [`get_latest_ddragon_version_url`] builds.
pub open spec fn get_latest_ddragon_version_url_text(base: Seq<char>) -> Seq<char> {
    base + "/ddragon/versions"@
}

/// Where the list of data versions is asked for.
pub fn get_latest_ddragon_version_url(base: &str) -> (url: String)
    ensures
        url@ == get_latest_ddragon_version_url_text(base@),
{
    let mut url = base.to_owned();
    url.append("/ddragon/versions");
    url
}

/// The address that [`get_summoner_names_by_puuids_url`] builds.
pub open spec fn get_summoner_names_by_puuids_url_text(
    base: Seq<char>,
    regional: Seq<char>,
) -> Seq<char> {
    base + "/riot/account/v1/accounts/batch?region="@ + regional
}

/// Where the names of several players are asked for at once.
pub fn get_summoner_names_by_puuids_url(base: &str, regional: &str) -> (url: String)
    ensures
        url@ == get_summoner_names_by_puuids_url_text(base@, regional@),
{
    let mut url = base.to_owned();
    url.append("/riot/account/v1/accounts/batch?region=");
    url.append(regional);
    url
}

/// The queue whose entry gives a player's rank.
pub open spec fn solo_queue() -> Seq<char> {
    "RANKED_SOLO_5x5"@
}

/// The position of the first entry of the solo queue among the first `upto`
/// entries, if there is one.
pub open spec fn first_solo_entry(entries: Seq<crate::models::LeagueEntryDtoView>, upto: nat)
    -> Option<int>
    decreases upto,
{
    if upto == 0 {
        None
    } else {
        match first_solo_entry(entries, (upto - 1) as nat) {
            Some(i) => Some(i),
            None => if entries[upto - 1].queueType == solo_queue() {
                Some(upto - 1)
            } else {
                None
            },
        }
    }
}

/// A player's tier, division and score: those of the player's first entry
/// for the solo queue, or nothing where the player has no such entry.
pub fn pick_solo_rank(entries: &Vec<LeagueEntryDto>) -> (r: (
    Option<String>,
    Option<String>,
    Option<i32>,
))
    ensures
        match first_solo_entry(entries.deep_view(), entries.len() as nat) {
            Some(i) => {
                &&& r.0.deep_view() == Some(entries.deep_view()[i].tier)
                &&& r.1.deep_view() == Some(entries.deep_view()[i].rank)
                &&& r.2 == Some(entries.deep_view()[i].leaguePoints)
            },
            None => r.0 is None && r.1 is None && r.2 is None,
        },
{
    let n: usize = entries.len();
    let mut i: usize = 0;
    while i < n
        invariant
            i <= n,
            n == entries.len(),
            first_solo_entry(entries.deep_view(), i as nat) is None,
        decreases n - i,
    {
        let entry = &entries[i];
        assert(entries.deep_view()[i as int] == entry.deep_view());
        if same_text(entry.queueType.as_str(), "RANKED_SOLO_5x5") {
            proof {
                lemma_first_solo_entry_stays(entries.deep_view(), (i + 1) as nat, n as nat);
            }
            return (Some(entry.tier.clone()), Some(entry.rank.clone()), Some(entry.leaguePoints));
        }
        i += 1;
    }
    (None, None, None)
}

proof fn lemma_first_solo_entry_stays(
    entries: Seq<crate::models::LeagueEntryDtoView>,
    found: nat,
    upto: nat,
)
    requires
        found <= upto,
        first_solo_entry(entries, found) is Some,
    ensures
        first_solo_entry(entries, upto) == first_solo_entry(entries, found),
    decreases upto,
{
    if upto > found {
        lemma_first_solo_entry_stays(entries, found, (upto - 1) as nat);
    }
}

/// The data version in use: the first that the provider lists. A list
/// without versions is a failed request.
pub fn latest_version(versions: &Vec<String>) -> (r: Result<String, SyncError>)
    ensures
        match r {
            Ok(version) => versions.len() > 0 && version@ == versions[0]@,
            Err(e) => versions.len() == 0 && e == SyncError::ProviderRequestFailed(None),
        },
{
    if versions.len() > 0 {
        Ok(versions[0].clone())
    } else {
        Err(SyncError::ProviderRequestFailed(None))
    }
}

/// Whether a status code of the gateway reports success.
pub open spec fn is_success_status(status: u16) -> bool {
    200 <= status < 300
}

/// Whether a status code of the gateway reports success.
pub fn is_success(status: u16) -> (r: bool)
    ensures
        r == is_success_status(status),
{
    200 <= status && status < 300
}

/// Whether the gateway is there: it answered its health check, and with
/// success. `reply` is the status of its answer, or nothing where it did not
/// answer in time.
pub fn check_proxy_connectivity(reply: Option<u16>) -> (available: bool)
    ensures
        available == (reply matches Some(status) && is_success_status(status)),
{
    match reply {
        Some(status) => is_success(status),
        None => false,
    }
}

/// Reads the status of the answer to a request for an account: whether the
/// account was found. The status 404 says that no account goes by the name
/// and tag; any other status but success is a failed request.
pub fn account_reply(status: u16) -> (r: Result<bool, SyncError>)
    ensures
        r == if status == 404 {
            Ok::<bool, SyncError>(false)
        } else if is_success_status(status) {
            Ok::<bool, SyncError>(true)
        } else {
            Err::<bool, SyncError>(SyncError::ProviderRequestFailed(None))
        },
{
    if status == 404 {
        Ok(false)
    } else if is_success(status) {
        Ok(true)
    } else {
        Err(SyncError::ProviderRequestFailed(None))
    }
}

/// Reads the status of an answer of the provider: anything but success is a
/// failed request.
pub fn provider_reply(status: u16) -> (r: Result<(), SyncError>)
    ensures
        r is Ok == is_success_status(status),
        r is Err ==> r == Err::<(), SyncError>(SyncError::ProviderRequestFailed(None)),
{
    if is_success(status) {
        Ok(())
    } else {
        Err(SyncError::ProviderRequestFailed(None))
    }
}

} // verus!
