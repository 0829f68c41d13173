use xword_stats::stats::{
    PuzzleStatsResponse, RawFirsts, RawStats, Rejection, SolvedPuzzleStats, StatsVerdict,
};

fn payload(
    solved: Option<bool>,
    seconds: Option<u32>,
    firsts: Option<RawFirsts>,
) -> PuzzleStatsResponse {
    PuzzleStatsResponse {
        calcs: RawStats { solved, seconds_spent_solving: seconds },
        firsts,
    }
}

fn firsts(
    opened: Option<u32>,
    checked: Option<u32>,
    revealed: Option<u32>,
    solved: Option<u32>,
) -> RawFirsts {
    RawFirsts { opened, checked, revealed, solved }
}

#[test]
fn unaided_solve_with_firsts_is_accepted() {
    let p = payload(Some(true), Some(742), Some(firsts(Some(100), None, None, Some(950))));
    assert_eq!(
        p.collect_stats(),
        Some(SolvedPuzzleStats { solve_time: 742, opened: Some(100), solved: Some(950) })
    );
}

#[test]
fn unaided_solve_without_firsts_is_accepted() {
    let p = payload(Some(true), Some(742), None);
    assert_eq!(
        p.collect_stats(),
        Some(SolvedPuzzleStats { solve_time: 742, opened: None, solved: None })
    );
}

#[test]
fn firsts_with_unknown_timestamps_are_carried_as_unknown() {
    let p = payload(Some(true), Some(5), Some(firsts(None, None, None, Some(7))));
    assert_eq!(
        p.collect_stats(),
        Some(SolvedPuzzleStats { solve_time: 5, opened: None, solved: Some(7) })
    );
}

#[test]
fn checked_puzzle_is_rejected() {
    let p = payload(Some(true), Some(742), Some(firsts(Some(100), Some(200), None, Some(950))));
    assert_eq!(p.collect_stats(), None);
    assert_eq!(p.classify(), StatsVerdict::Rejected(Rejection::Assisted));
}

#[test]
fn revealed_puzzle_is_rejected() {
    let p = payload(Some(true), Some(742), Some(firsts(Some(100), None, Some(300), Some(950))));
    assert_eq!(p.collect_stats(), None);
    assert_eq!(p.classify(), StatsVerdict::Rejected(Rejection::Assisted));
}

#[test]
fn assisted_puzzle_is_rejected_whatever_the_calcs() {
    let p = payload(None, None, Some(firsts(None, Some(0), Some(0), None)));
    assert_eq!(p.classify(), StatsVerdict::Rejected(Rejection::Assisted));
    let p = payload(Some(true), None, Some(firsts(None, Some(1), None, None)));
    assert_eq!(p.classify(), StatsVerdict::Rejected(Rejection::Assisted));
}

#[test]
fn unsolved_puzzle_is_rejected() {
    let p = payload(Some(false), Some(742), None);
    assert_eq!(p.collect_stats(), None);
    assert_eq!(p.classify(), StatsVerdict::Rejected(Rejection::Unsolved));
}

#[test]
fn puzzle_of_unknown_solve_state_is_rejected() {
    let p = payload(None, Some(742), Some(firsts(Some(100), None, None, Some(950))));
    assert_eq!(p.collect_stats(), None);
    assert_eq!(p.classify(), StatsVerdict::Rejected(Rejection::Unsolved));
}

#[test]
fn solved_puzzle_without_solve_time_is_an_anomaly() {
    let p = payload(Some(true), None, Some(firsts(Some(100), None, None, Some(950))));
    assert_eq!(p.collect_stats(), None);
    assert_eq!(p.classify(), StatsVerdict::Rejected(Rejection::MissingSolveTime));
    let p = payload(Some(true), None, None);
    assert_eq!(p.classify(), StatsVerdict::Rejected(Rejection::MissingSolveTime));
}

#[test]
fn zero_and_largest_solve_times_are_kept() {
    let p = payload(Some(true), Some(0), None);
    assert_eq!(p.collect_stats(), Some(SolvedPuzzleStats { solve_time: 0, opened: None, solved: None }));
    let p = payload(Some(true), Some(u32::MAX), None);
    assert_eq!(
        p.classify(),
        StatsVerdict::Accepted(SolvedPuzzleStats { solve_time: u32::MAX, opened: None, solved: None })
    );
}
