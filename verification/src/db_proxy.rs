//! What the library knows of the gateway in front of the store: where it is,
//! where each request goes, and how answers are read.

use vstd::prelude::*;
use vstd::string::*;
use crate::error::SyncError;
use crate::riot::{is_success, is_success_status};
use crate::text::{append_decimal, decimal_text, same_text};

verus! {

/// The address of the gateway where none is configured.
pub open spec fn default_proxy_url() -> Seq<char> {
    "http://localhost:4000/api"@
}

/// The address of the gateway: the one configured, or the default.
pub fn proxy_base_url(configured: Option<&str>) -> (url: String)
    ensures
        url@ == match configured {
            Some(address) => address@,
            None => default_proxy_url(),
        },
{
    match configured {
        Some(address) => address.to_owned(),
        None => "http://localhost:4000/api".to_owned(),
    }
}

/// The ending that the health check leaves off.
pub open spec fn api_suffix() -> Seq<char> {
    seq!['/', 'a', 'p', 'i']
}

/// Whether a text ends with [`api_suffix`].
pub open spec fn ends_with_api(s: Seq<char>) -> bool {
    s.len() >= 4 && s.subrange(s.len() - 4, s.len() as int) == api_suffix()
}

/// A text without the [`api_suffix`] at its end, however often it is
/// repeated there.
pub open spec fn without_api_suffix(s: Seq<char>) -> Seq<char>
    decreases s.len(),
{
    if ends_with_api(s) {
        without_api_suffix(s.take(s.len() - 4))
    } else {
        s
    }
}

/// The address of the gateway's health check.
pub open spec fn health_url_text(base: Seq<char>) -> Seq<char> {
    without_api_suffix(base) + "/health"@
}

/// The address of the health check of the gateway at `base`.
pub fn proxy_health_url(base: &str) -> (url: String)
    ensures
        url@ == health_url_text(base@),
{
    let total: usize = base.unicode_len();
    let mut n: usize = total;
    assert(base@.take(n as int) =~= base@);
    loop
        invariant
            n <= total,
            total == base@.len(),
            without_api_suffix(base@) == without_api_suffix(base@.take(n as int)),
        ensures
            !ends_with_api(base@.take(n as int)),
        decreases n,
    {
        let ghost head = base@.take(n as int);
        if n < 4 {
            break ;
        }
        let ends = base.get_char(n - 4) == '/' && base.get_char(n - 3) == 'a' && base.get_char(
            n - 2,
        ) == 'p' && base.get_char(n - 1) == 'i';
        if !ends {
            assert(!ends_with_api(head)) by {
                let tail = head.subrange(head.len() - 4, head.len() as int);
                if tail == api_suffix() {
                    assert(tail[0] == '/' && tail[1] == 'a' && tail[2] == 'p' && tail[3] == 'i');
                }
            }
            break ;
        }
        assert(ends_with_api(head)) by {
            assert(head.subrange(head.len() - 4, head.len() as int) =~= api_suffix());
        }
        assert(head.take(head.len() - 4) =~= base@.take(n - 4));
        n -= 4;
    }
    let mut url = base.substring_char(0, n).to_owned();
    assert(base@.subrange(0, n as int) =~= base@.take(n as int));
    url.append("/health");
    url
}

/// The address that [`upsert_summoner_url`] builds.
pub open spec fn upsert_summoner_url_text(base: Seq<char>) -> Seq<char> {
    base + "/db/summoners"@
}

/// Where a player's snapshot is stored.
pub fn upsert_summoner_url(base: &str) -> (url: String)
    ensures
        url@ == upsert_summoner_url_text(base@),
{
    let mut url = base.to_owned();
    url.append("/db/summoners");
    url
}

/// The address that [`get_summoner_url`] builds.
pub open spec fn get_summoner_url_text(base: Seq<char>, puuid: Seq<char>) -> Seq<char> {
    base + "/db/summoners/"@ + puuid
}

/// Where a player's snapshot is read.
pub fn get_summoner_url(base: &str, puuid: &str) -> (url: String)
    ensures
        url@ == get_summoner_url_text(base@, puuid@),
{
    let mut url = base.to_owned();
    url.append("/db/summoners/");
    url.append(puuid);
    url
}

/// The address that [`match_exists_url`] builds.
pub open spec fn match_exists_url_text(base: Seq<char>, match_id: Seq<char>) -> Seq<char> {
    base + "/db/matches/"@ + match_id + "/exists"@
}

/// Where the store is asked whether it holds a match.
pub fn match_exists_url(base: &str, match_id: &str) -> (url: String)
    ensures
        url@ == match_exists_url_text(base@, match_id@),
{
    let mut url = base.to_owned();
    url.append("/db/matches/");
    url.append(match_id);
    url.append("/exists");
    url
}

/// The address that [`latest_match_for_puuid_url`] builds.
pub open spec fn latest_match_for_puuid_url_text(base: Seq<char>, puuid: Seq<char>) -> Seq<char> {
    base + "/db/matches/"@ + puuid + "/latest"@
}

/// Where a player's latest stored match is read.
pub fn latest_match_for_puuid_url(base: &str, puuid: &str) -> (url: String)
    ensures
        url@ == latest_match_for_puuid_url_text(base@, puuid@),
{
    let mut url = base.to_owned();
    url.append("/db/matches/");
    url.append(puuid);
    url.append("/latest");
    url
}

/// The address that [`get_recent_matches_url`] builds.
pub open spec fn get_recent_matches_url_text(
    base: Seq<char>,
    puuid: Seq<char>,
    limit: int,
) -> Seq<char> {
    base + "/db/matches/"@ + puuid + "/recent?limit="@ + decimal_text(limit)
}

/// Where a player's most recent stored matches are read.
pub fn get_recent_matches_url(base: &str, puuid: &str, limit: i64) -> (url: String)
    ensures
        url@ == get_recent_matches_url_text(base@, puuid@, limit as int),
{
    let mut url = base.to_owned();
    url.append("/db/matches/");
    url.append(puuid);
    url.append("/recent?limit=");
    append_decimal(&mut url, limit as i128);
    url
}

/// The address that [`insert_match_details_url`] builds.
pub open spec fn insert_match_details_url_text(base: Seq<char>) -> Seq<char> {
    base + "/db/matches"@
}

/// Where a match is stored.
pub fn insert_match_details_url(base: &str) -> (url: String)
    ensures
        url@ == insert_match_details_url_text(base@),
{
    let mut url = base.to_owned();
    url.append("/db/matches");
    url
}

/// The address that [`insert_timeline_frame_url`] builds.
pub open spec fn insert_timeline_frame_url_text(base: Seq<char>) -> Seq<char> {
    base + "/db/timeline-frames"@
}

/// Where a detail frame is stored.
pub fn insert_timeline_frame_url(base: &str) -> (url: String)
    ensures
        url@ == insert_timeline_frame_url_text(base@),
{
    let mut url = base.to_owned();
    url.append("/db/timeline-frames");
    url
}

/// The address that [`timeline_frame_exists_url`] builds.
pub open spec fn timeline_frame_exists_url_text(
    base: Seq<char>,
    mid: int,
    frame_index: int,
) -> Seq<char> {
    base
        + "/db/timeline-frames/"@
        + decimal_text(mid)
        + "/"@
        + decimal_text(frame_index)
        + "/exists"@
}

/// Where the store is asked whether it holds a detail frame.
pub fn timeline_frame_exists_url(base: &str, mid: i64, frame_index: i32) -> (url: String)
    ensures
        url@ == timeline_frame_exists_url_text(base@, mid as int, frame_index as int),
{
    let mut url = base.to_owned();
    url.append("/db/timeline-frames/");
    append_decimal(&mut url, mid as i128);
    url.append("/");
    append_decimal(&mut url, frame_index as i128);
    url.append("/exists");
    url
}

/// The address that [`compute_player_summary_url`] builds.
pub open spec fn compute_player_summary_url_text(base: Seq<char>, puuid: Seq<char>) -> Seq<char> {
    base + "/db/summaries/"@ + puuid
}

/// Where a player's summary is compiled.
pub fn compute_player_summary_url(base: &str, puuid: &str) -> (url: String)
    ensures
        url@ == compute_player_summary_url_text(base@, puuid@),
{
    let mut url = base.to_owned();
    url.append("/db/summaries/");
    url.append(puuid);
    url
}

/// The address that [`get_daily_activity_url`] builds.
pub open spec fn get_daily_activity_url_text(base: Seq<char>, puuid: Seq<char>) -> Seq<char> {
    base + "/db/activity/"@ + puuid
}

/// Where a player's daily activity is read.
pub fn get_daily_activity_url(base: &str, puuid: &str) -> (url: String)
    ensures
        url@ == get_daily_activity_url_text(base@, puuid@),
{
    let mut url = base.to_owned();
    url.append("/db/activity/");
    url.append(puuid);
    url
}

/// The address that [`compute_rank_progress_url`] builds.
pub open spec fn compute_rank_progress_url_text(
    base: Seq<char>,
    puuid: Seq<char>,
    current_tier: Seq<char>,
    current_division: Seq<char>,
    current_lp: int,
) -> Seq<char> {
    base
        + "/db/rank-progress/"@
        + puuid
        + "?currentTier="@
        + current_tier
        + "&currentDivision="@
        + current_division
        + "&currentLp="@
        + decimal_text(current_lp)
}

/// Where a player's ranked timeline is reconstructed.
pub fn compute_rank_progress_url(
    base: &str,
    puuid: &str,
    current_tier: &str,
    current_division: &str,
    current_lp: i32,
) -> (url: String)
    ensures
        url@ == compute_rank_progress_url_text(
            base@,
            puuid@,
            current_tier@,
            current_division@,
            current_lp as int,
        ),
{
    let mut url = base.to_owned();
    url.append("/db/rank-progress/");
    url.append(puuid);
    url.append("?currentTier=");
    url.append(current_tier);
    url.append("&currentDivision=");
    url.append(current_division);
    url.append("&currentLp=");
    append_decimal(&mut url, current_lp as i128);
    url
}

/// The address that [`summarize_match_url`] builds.
pub open spec fn summarize_match_url_text(
    base: Seq<char>,
    match_id: Seq<char>,
    puuid: Seq<char>,
    ddragon_version: Seq<char>,
) -> Seq<char> {
    base + "/db/match-summary/"@ + match_id + "/"@ + puuid + "/"@ + ddragon_version
}

/// Where the summary of one match is read.
pub fn summarize_match_url(
    base: &str,
    match_id: &str,
    puuid: &str,
    ddragon_version: &str,
) -> (url: String)
    ensures
        url@ == summarize_match_url_text(base@, match_id@, puuid@, ddragon_version@),
{
    let mut url = base.to_owned();
    url.append("/db/match-summary/");
    url.append(match_id);
    url.append("/");
    url.append(puuid);
    url.append("/");
    url.append(ddragon_version);
    url
}

/// The address that [`get_match_details_url`] builds.
pub open spec fn get_match_details_url_text(
    base: Seq<char>,
    match_id: Seq<char>,
    user_puuid: Seq<char>,
    ddragon_version: Seq<char>,
) -> Seq<char> {
    base + "/db/match-details/"@ + match_id + "/"@ + user_puuid + "/"@ + ddragon_version
}

/// Where the details of one match are read.
pub fn get_match_details_url(
    base: &str,
    match_id: &str,
    user_puuid: &str,
    ddragon_version: &str,
) -> (url: String)
    ensures
        url@ == get_match_details_url_text(base@, match_id@, user_puuid@, ddragon_version@),
{
    let mut url = base.to_owned();
    url.append("/db/match-details/");
    url.append(match_id);
    url.append("/");
    url.append(user_puuid);
    url.append("/");
    url.append(ddragon_version);
    url
}

/// Reads the status of an answer of the store: anything but success is a
/// failure of the store.
pub fn store_reply(status: u16) -> (r: Result<(), SyncError>)
    ensures
        r is Ok == is_success_status(status),
        r is Err ==> r == Err::<(), SyncError>(SyncError::StoreFailure),
{
    if is_success(status) {
        Ok(())
    } else {
        Err(SyncError::StoreFailure)
    }
}

/// Reads the answer of the gateway's health check when the store is opened:
/// without an answer of success the gateway is not available.
pub fn init_pool(reply: Option<u16>) -> (r: Result<(), SyncError>)
    ensures
        r is Ok == (reply matches Some(status) && is_success_status(status)),
        r is Err ==> r == Err::<(), SyncError>(SyncError::ProviderUnavailable),
{
    match reply {
        Some(status) => if is_success(status) {
            Ok(())
        } else {
            Err(SyncError::ProviderUnavailable)
        },
        None => Err(SyncError::ProviderUnavailable),
    }
}

/// What an answer that may hold a row says.
pub open spec fn row_reply(status: u16, body: Seq<char>, not_found_is_empty: bool) -> Result<
    bool,
    SyncError,
> {
    if not_found_is_empty && status == 404 {
        Ok(false)
    } else if !is_success_status(status) {
        Err(SyncError::StoreFailure)
    } else {
        Ok(body != "null"@)
    }
}

/// Reads an answer of the store that may hold a row: whether it holds one.
/// The text `null` stands for no row; where `not_found_is_empty` is set, so
/// does the status 404. Any other status but success is a failure of the
/// store.
pub fn reply_has_row(status: u16, body: &str, not_found_is_empty: bool) -> (r: Result<
    bool,
    SyncError,
>)
    ensures
        r == row_reply(status, body@, not_found_is_empty),
{
    if not_found_is_empty && status == 404 {
        Ok(false)
    } else if !is_success(status) {
        Err(SyncError::StoreFailure)
    } else {
        Ok(!same_text(body, "null"))
    }
}

/// Reads the surrogate id in the store's answer to the insert of a match. An
/// answer without an id, or with the id zero, is a failure of the store.
pub fn inserted_match_id(reply: Option<i64>) -> (r: Result<i64, SyncError>)
    ensures
        r == match reply {
            Some(mid) if mid != 0 => Ok::<i64, SyncError>(mid),
            _ => Err::<i64, SyncError>(SyncError::StoreFailure),
        },
{
    match reply {
        Some(mid) => if mid != 0 {
            Ok(mid)
        } else {
            Err(SyncError::StoreFailure)
        },
        None => Err(SyncError::StoreFailure),
    }
}

/// Reads the surrogate id in the store's answer to the insert of a frame;
/// zero where the answer holds none.
pub fn inserted_frame_id(reply: Option<i64>) -> (r: i64)
    ensures
        r == match reply {
            Some(tid) => tid,
            None => 0,
        },
{
    match reply {
        Some(tid) => tid,
        None => 0,
    }
}

} // verus!
