//! Request URLs of the game-stats service.

use vstd::prelude::*;
use crate::date::{iso_text, PuzzleDate};
use crate::text::{append_decimal, decimal};

verus! {

/// Origin and base path of every request.
pub const API_BASE: &'static str = "https://nyt-games-prd.appspot.com/svc/crosswords";

/// Path and fixed query of the puzzle-id lookup, up to the start date.
pub const PUZZLE_INFO_PATH: &'static str = "/v3/36569100/puzzles.json?publish_type=daily&date_start=";

/// Query parameter that introduces the end date of the puzzle-id lookup.
pub const END_DATE_PARAM: &'static str = "&date_end=";

/// Path of the statistics of one puzzle, up to its id.
pub const PUZZLE_STATS_PATH: &'static str = "/v6/game/";

/// Suffix of the statistics path, after the id.
pub const PUZZLE_STATS_SUFFIX: &'static str = ".json";

/// The full URL of an endpoint path.
pub open spec fn api_url_text(endpoint: Seq<char>) -> Seq<char> {
    API_BASE@ + endpoint
}

/// The puzzle-id lookup URL for the inclusive range `start` to `end`.
pub open spec fn puzzle_info_url_text(start: PuzzleDate, end: PuzzleDate) -> Seq<char> {
    api_url_text(PUZZLE_INFO_PATH@ + iso_text(start) + END_DATE_PARAM@ + iso_text(end))
}

/// The statistics URL of the puzzle `id`.
pub open spec fn puzzle_stats_url_text(id: u32) -> Seq<char> {
    api_url_text(PUZZLE_STATS_PATH@ + decimal(id as nat) + PUZZLE_STATS_SUFFIX@)
}

/// Prefixes an endpoint path with the service's base URL.
pub fn api_url(endpoint: &str) -> (r: String)
    ensures
        r@ == api_url_text(endpoint@),
{
    let mut url = String::from_str(API_BASE);
    url.append(endpoint);
    url
}

/// The URL that looks up the ids of the daily puzzles from `start` to `end`,
/// both inclusive.
pub fn puzzle_info_url(start: &PuzzleDate, end: &PuzzleDate) -> (r: String)
    ensures
        r@ == puzzle_info_url_text(*start, *end),
{
    let mut endpoint = String::from_str(PUZZLE_INFO_PATH);
    let start_text = start.to_iso_string();
    endpoint.append(start_text.as_str());
    endpoint.append(END_DATE_PARAM);
    let end_text = end.to_iso_string();
    endpoint.append(end_text.as_str());
    let r = api_url(endpoint.as_str());
    assert(r@ =~= puzzle_info_url_text(*start, *end));
    r
}

/// The URL of the solve statistics of the puzzle `id`.
pub fn puzzle_stats_url(id: u32) -> (r: String)
    ensures
        r@ == puzzle_stats_url_text(id),
{
    let mut endpoint = String::from_str(PUZZLE_STATS_PATH);
    append_decimal(&mut endpoint, id);
    endpoint.append(PUZZLE_STATS_SUFFIX);
    let r = api_url(endpoint.as_str());
    assert(r@ =~= puzzle_stats_url_text(id));
    r
}

/// The lookup URL holds the start date's `YYYY-MM-DD` text right after the
/// fixed path, and the end date's text right after the end-date parameter,
/// where it ends the URL.
pub proof fn puzzle_info_url_holds_dates(start: PuzzleDate, end: PuzzleDate)
    requires
        start.wf(),
        end.wf(),
    ensures
        ({
            let url = puzzle_info_url_text(start, end);
            let a: int = (API_BASE@.len() + PUZZLE_INFO_PATH@.len()) as int;
            let b: int = a + 10 + END_DATE_PARAM@.len();
            &&& url.subrange(a, a + 10) == iso_text(start)
            &&& url.subrange(b - END_DATE_PARAM@.len(), b) == END_DATE_PARAM@
            &&& url.subrange(b, b + 10) == iso_text(end)
            &&& url.len() == b + 10
        }),
{
    crate::date::iso_text_is_zero_padded(start);
    crate::date::iso_text_is_zero_padded(end);
    let url = puzzle_info_url_text(start, end);
    let a: int = (API_BASE@.len() + PUZZLE_INFO_PATH@.len()) as int;
    let b: int = a + 10 + END_DATE_PARAM@.len();
    assert(url.subrange(a, a + 10) =~= iso_text(start));
    assert(url.subrange(b - END_DATE_PARAM@.len(), b) =~= END_DATE_PARAM@);
    assert(url.subrange(b, b + 10) =~= iso_text(end));
}

} // verus!
