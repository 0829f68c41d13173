use xword_stats::date::PuzzleDate;
use xword_stats::endpoint::{api_url, puzzle_info_url, puzzle_stats_url};
use xword_stats::index::{PuzzleIds, PuzzleMetadata};

fn date(y: u32, m: u32, d: u32) -> PuzzleDate {
    PuzzleDate::new(y, m, d).unwrap()
}

#[test]
fn calendar_dates_are_checked() {
    assert_eq!(PuzzleDate::new(2021, 3, 7), Some(PuzzleDate { year: 2021, month: 3, day: 7 }));
    assert!(PuzzleDate::new(2020, 2, 29).is_some());
    assert!(PuzzleDate::new(2000, 2, 29).is_some());
    assert!(PuzzleDate::new(2021, 2, 29).is_none());
    assert!(PuzzleDate::new(1900, 2, 29).is_none());
    assert!(PuzzleDate::new(2021, 4, 31).is_none());
    assert!(PuzzleDate::new(2021, 12, 31).is_some());
    assert!(PuzzleDate::new(2021, 13, 1).is_none());
    assert!(PuzzleDate::new(2021, 0, 1).is_none());
    assert!(PuzzleDate::new(2021, 1, 0).is_none());
    assert!(PuzzleDate::new(9999, 12, 31).is_some());
    assert!(PuzzleDate::new(10000, 1, 1).is_none());
}

#[test]
fn dates_are_zero_padded() {
    assert_eq!(date(2021, 3, 7).to_iso_string(), "2021-03-07");
    assert_eq!(date(1999, 12, 31).to_iso_string(), "1999-12-31");
    assert_eq!(date(987, 1, 2).to_iso_string(), "0987-01-02");
    assert_eq!(date(0, 1, 1).to_iso_string(), "0000-01-01");
}

#[test]
fn api_url_prefixes_the_base() {
    assert_eq!(api_url("/x"), "https://nyt-games-prd.appspot.com/svc/crosswords/x");
}

#[test]
fn puzzle_info_url_holds_both_dates() {
    let url = puzzle_info_url(&date(2021, 1, 5), &date(2021, 11, 20));
    assert_eq!(
        url,
        "https://nyt-games-prd.appspot.com/svc/crosswords/v3/36569100/puzzles.json?publish_type=daily&date_start=2021-01-05&date_end=2021-11-20"
    );
}

#[test]
fn puzzle_stats_url_holds_the_id() {
    assert_eq!(
        puzzle_stats_url(18456),
        "https://nyt-games-prd.appspot.com/svc/crosswords/v6/game/18456.json"
    );
    assert_eq!(puzzle_stats_url(0), "https://nyt-games-prd.appspot.com/svc/crosswords/v6/game/0.json");
    assert_eq!(
        puzzle_stats_url(u32::MAX),
        "https://nyt-games-prd.appspot.com/svc/crosswords/v6/game/4294967295.json"
    );
}

fn meta(d: PuzzleDate, id: u32) -> PuzzleMetadata {
    PuzzleMetadata { print_date: d, puzzle_id: id }
}

#[test]
fn index_has_one_entry_per_result() {
    let results = vec![
        meta(date(2021, 1, 1), 10),
        meta(date(2021, 1, 2), 11),
        meta(date(2021, 1, 3), 12),
    ];
    let ids = PuzzleIds::from_results(&results);
    assert_eq!(ids.len(), 3);
    assert_eq!(ids.get(&date(2021, 1, 1)), Some(10));
    assert_eq!(ids.get(&date(2021, 1, 2)), Some(11));
    assert_eq!(ids.get(&date(2021, 1, 3)), Some(12));
    assert_eq!(ids.get(&date(2021, 1, 4)), None);
    assert_eq!(ids.entries(), &results);
}

#[test]
fn later_result_of_a_date_wins() {
    let results = vec![
        meta(date(2021, 1, 1), 10),
        meta(date(2021, 1, 2), 11),
        meta(date(2021, 1, 1), 20),
    ];
    let ids = PuzzleIds::from_results(&results);
    assert_eq!(ids.len(), 2);
    assert_eq!(ids.get(&date(2021, 1, 1)), Some(20));
    assert_eq!(ids.get(&date(2021, 1, 2)), Some(11));
}

#[test]
fn empty_response_gives_empty_index() {
    let ids = PuzzleIds::from_results(&Vec::new());
    assert_eq!(ids.len(), 0);
    assert_eq!(ids.get(&date(2021, 1, 1)), None);
}
