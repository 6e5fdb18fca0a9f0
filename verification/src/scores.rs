//! The score clock: a repeating timer over accumulated real time, and the
//! integer score it drives.
//!
//! The score is held as a native integer at all times and only formatted
//! for display by callers; nothing in the hot path parses text.

use vstd::prelude::*;

verus! {

/// A repeating alarm over microseconds of real time: `elapsed_us`
/// accumulates frame times and resets to zero each time it reaches
/// `interval_us`.
#[derive(Clone, Copy, Debug, PartialEq, Eq, Structural)]
pub struct ScoreTimer {
    pub elapsed_us: u64,
    pub interval_us: u64,
}

/// The current score.
#[derive(Clone, Copy, Debug, PartialEq, Eq, Structural)]
pub struct ScoreBoard {
    pub score: i64,
}

impl ScoreTimer {
    /// The interval is positive and the accumulator is strictly inside it
    /// (it resets on reaching the interval, so it never stores a full one).
    pub open spec fn wf(self) -> bool {
        0 < self.interval_us && self.elapsed_us < self.interval_us
    }

    /// The timer fires on a frame when the accumulated time reaches or
    /// passes the interval.
    pub open spec fn fires(self, dt: int) -> bool {
        self.elapsed_us + dt >= self.interval_us
    }

    /// A fresh repeating timer with the given interval.
    pub fn new(interval_us: u64) -> (timer: ScoreTimer)
        requires
            0 < interval_us,
        ensures
            timer.interval_us == interval_us,
            timer.elapsed_us == 0,
            timer.wf(),
    {
        ScoreTimer { elapsed_us: 0, interval_us }
    }
}

/// Advances the score clock by one frame's elapsed real time. When the
/// accumulated time reaches the interval the accumulator resets to zero —
/// it is not merely decremented — and the score increases by `step`;
/// otherwise both the score and the interval are left alone and the time
/// is accumulated.
pub fn handle_scores(
    timer: &mut ScoreTimer,
    board: &mut ScoreBoard,
    dt_us: u64,
    step: i64,
) -> (fired: bool)
    requires
        old(timer).wf(),
        old(timer).elapsed_us + dt_us <= u64::MAX,
        0 <= step,
        old(board).score + step <= i64::MAX,
    ensures
        fired == old(timer).fires(dt_us as int),
        final(timer).interval_us == old(timer).interval_us,
        final(timer).wf(),
        fired ==> final(timer).elapsed_us == 0 && final(board).score == old(board).score + step,
        !fired ==> final(timer).elapsed_us == old(timer).elapsed_us + dt_us && final(board).score
            == old(board).score,
{
    let total = timer.elapsed_us + dt_us;
    if total >= timer.interval_us {
        timer.elapsed_us = 0;
        board.score = board.score + step;
        true
    } else {
        timer.elapsed_us = total;
        false
    }
}

} // verus!
