//! Classification of raw per-puzzle statistics into trusted solve records.

use vstd::prelude::*;

verus! {

/// The "calcs" block of a statistics payload, as received.
#[derive(Debug, Clone, Copy, PartialEq, Eq, Hash)]
pub struct RawStats {
    pub solved: Option<bool>,
    pub seconds_spent_solving: Option<u32>,
}

/// The "firsts" block of a statistics payload: timestamps of the first
/// open, check, reveal and solve events.
#[derive(Debug, Clone, Copy, PartialEq, Eq, Hash)]
pub struct RawFirsts {
    pub opened: Option<u32>,
    pub checked: Option<u32>,
    pub revealed: Option<u32>,
    pub solved: Option<u32>,
}

/// A statistics payload for one puzzle, as received.
#[derive(Debug, Clone, Copy, PartialEq, Eq, Hash)]
pub struct PuzzleStatsResponse {
    pub calcs: RawStats,
    pub firsts: Option<RawFirsts>,
}

/// A validated record of an unaided solve with a known solve time.
#[derive(Debug, Clone, Copy, PartialEq, Eq, Hash)]
pub struct SolvedPuzzleStats {
    pub solve_time: u32,
    pub opened: Option<u32>,
    pub solved: Option<u32>,
}

/// Why a payload yields no solve record.
#[derive(Debug, Clone, Copy, PartialEq, Eq, Hash)]
pub enum Rejection {
    /// The check or reveal assist was used at some point.
    Assisted,
    /// The payload does not mark the puzzle as solved.
    Unsolved,
    /// The puzzle is marked solved but carries no solve time: an anomaly
    /// in the upstream data, worth reporting.
    MissingSolveTime,
}

/// The outcome of classifying a payload.
#[derive(Debug, Clone, Copy, PartialEq, Eq, Hash)]
pub enum StatsVerdict {
    Accepted(SolvedPuzzleStats),
    Rejected(Rejection),
}

impl RawFirsts {
    /// An assist (check or reveal) was recorded.
    pub open spec fn assisted(self) -> bool {
        self.checked is Some || self.revealed is Some
    }
}

impl PuzzleStatsResponse {
    /// The gates, in order: assists, then the explicit solved flag, then the
    /// presence of a solve time.
    pub open spec fn verdict(self) -> StatsVerdict {
        if self.firsts is Some && self.firsts->0.assisted() {
            StatsVerdict::Rejected(Rejection::Assisted)
        } else if self.calcs.solved != Some(true) {
            StatsVerdict::Rejected(Rejection::Unsolved)
        } else if self.calcs.seconds_spent_solving is None {
            StatsVerdict::Rejected(Rejection::MissingSolveTime)
        } else {
            StatsVerdict::Accepted(
                SolvedPuzzleStats {
                    solve_time: self.calcs.seconds_spent_solving->0,
                    opened: match self.firsts {
                        Some(f) => f.opened,
                        None => None,
                    },
                    solved: match self.firsts {
                        Some(f) => f.solved,
                        None => None,
                    },
                },
            )
        }
    }

    /// The accepted record, if any.
    pub open spec fn solve_record(self) -> Option<SolvedPuzzleStats> {
        match self.verdict() {
            StatsVerdict::Accepted(s) => Some(s),
            StatsVerdict::Rejected(_) => None,
        }
    }

    /// Classifies the payload, naming the reason when it is rejected.
    pub fn classify(&self) -> (r: StatsVerdict)
        ensures
            r == self.verdict(),
    {
        let mut opened: Option<u32> = None;
        let mut solved: Option<u32> = None;
        if let Some(firsts) = self.firsts {
            if firsts.checked.is_some() || firsts.revealed.is_some() {
                return StatsVerdict::Rejected(Rejection::Assisted);
            }
            opened = firsts.opened;
            solved = firsts.solved;
        }
        match self.calcs.solved {
            Some(true) => {},
            _ => {
                return StatsVerdict::Rejected(Rejection::Unsolved);
            },
        }
        match self.calcs.seconds_spent_solving {
            Some(solve_time) => StatsVerdict::Accepted(SolvedPuzzleStats { solve_time, opened, solved }),
            None => StatsVerdict::Rejected(Rejection::MissingSolveTime),
        }
    }

    /// The solve record of an unaided, explicitly solved puzzle with a known
    /// solve time; `None` for every other payload.
    pub fn collect_stats(&self) -> (r: Option<SolvedPuzzleStats>)
        ensures
            r == self.solve_record(),
    {
        match self.classify() {
            StatsVerdict::Accepted(s) => Some(s),
            StatsVerdict::Rejected(_) => None,
        }
    }
}

/// A payload that records a check or a reveal yields no solve record,
/// whatever its "calcs" block holds.
pub proof fn assisted_payload_is_rejected(p: PuzzleStatsResponse)
    requires
        p.firsts is Some,
        p.firsts->0.checked is Some || p.firsts->0.revealed is Some,
    ensures
        p.verdict() == StatsVerdict::Rejected(Rejection::Assisted),
        p.solve_record() is None,
{
}

/// A payload whose solved flag is not explicitly `true` (absent or `false`)
/// yields no solve record.
pub proof fn unsolved_payload_is_rejected(p: PuzzleStatsResponse)
    requires
        p.calcs.solved != Some(true),
    ensures
        p.solve_record() is None,
        p.verdict() is Rejected,
{
}

/// An unaided payload marked solved but without a solve time yields no
/// solve record, and its rejection is the distinct data anomaly.
pub proof fn missing_solve_time_is_an_anomaly(p: PuzzleStatsResponse)
    requires
        p.calcs.solved == Some(true),
        p.calcs.seconds_spent_solving is None,
        !(p.firsts is Some && p.firsts->0.assisted()),
    ensures
        p.verdict() == StatsVerdict::Rejected(Rejection::MissingSolveTime),
        p.solve_record() is None,
{
}

/// A solve record is produced only for an unaided payload explicitly marked
/// solved with a solve time; it carries that time and the first-open and
/// first-solve timestamps of the "firsts" block, when there is one.
pub proof fn accepted_records_are_unaided_solves(p: PuzzleStatsResponse)
    requires
        p.solve_record() is Some,
    ensures
        !(p.firsts is Some && p.firsts->0.assisted()),
        p.calcs.solved == Some(true),
        p.calcs.seconds_spent_solving == Some(p.solve_record()->0.solve_time),
        p.firsts is Some ==> p.solve_record()->0.opened == p.firsts->0.opened
            && p.solve_record()->0.solved == p.firsts->0.solved,
        p.firsts is None ==> p.solve_record()->0.opened is None
            && p.solve_record()->0.solved is None,
{
}

} // verus!
