use vstd::prelude::*;

verus! {

/// Clock state handed over by the front-end, in milliseconds.
#[derive(Copy, Clone, Default)]
pub struct TimeControl {
    pub wtime: i64,
    pub btime: i64,
    pub winc: i64,
    pub binc: i64,
    pub movestogo: i32,
    pub move_overhead_ms: i64,
}

/// Largest clock value, in milliseconds, that the budget arithmetic accepts.
pub const MAX_CLOCK_MS: i64 = 1_000_000_000_000;

pub open spec fn clock_ok(t: i64) -> bool {
    0 <= t <= MAX_CLOCK_MS
}

pub open spec fn min_int(a: int, b: int) -> int {
    if a < b {
        a
    } else {
        b
    }
}

pub open spec fn max_int(a: int, b: int) -> int {
    if a > b {
        a
    } else {
        b
    }
}

impl TimeControl {
    pub open spec fn wf(&self) -> bool {
        &&& clock_ok(self.wtime)
        &&& clock_ok(self.btime)
        &&& clock_ok(self.winc)
        &&& clock_ok(self.binc)
        &&& clock_ok(self.move_overhead_ms)
    }

    /// (soft, hard) budget for the side to move.
    pub open spec fn allocation_spec(&self, side_white: bool) -> (int, int) {
        let time = if side_white {
            self.wtime as int
        } else {
            self.btime as int
        };
        let inc = if side_white {
            self.winc as int
        } else {
            self.binc as int
        };
        let hard = time - max_int(self.move_overhead_ms as int, 50);
        if self.movestogo > 0 {
            let ideal = time / min_int(self.movestogo as int, 30) + inc * 3 / 4;
            (min_int(ideal, hard), hard)
        } else {
            let ideal = time / 30 + inc * 3 / 4;
            let soft = max_int(min_int(min_int(ideal, time / 5), hard), 5);
            (soft, hard)
        }
    }

    /// Soft target and hard limit, in milliseconds, for the side to move:
    /// about time / min(movestogo, 30) + 3/4 of the increment, or
    /// time / 30 + 3/4 of the increment capped at time / 5 when the number of
    /// moves to go is unknown; the hard limit keeps the move overhead
    /// (at least 50 ms) in reserve.
    pub fn allocation_ms(&self, side_white: bool) -> (r: (i64, i64))
        requires
            self.wf(),
        ensures
            (r.0 as int, r.1 as int) == self.allocation_spec(side_white),
    {
        let (time, inc) = if side_white {
            (self.wtime, self.winc)
        } else {
            (self.btime, self.binc)
        };
        let overhead = if self.move_overhead_ms > 50 {
            self.move_overhead_ms
        } else {
            50
        };
        let hard = time - overhead;
        if self.movestogo > 0 {
            let divisor: i64 = if self.movestogo < 30 {
                self.movestogo as i64
            } else {
                30
            };
            let ideal = time / divisor + inc * 3 / 4;
            let soft = if ideal < hard {
                ideal
            } else {
                hard
            };
            return (soft, hard);
        }
        let ideal = time / 30 + inc * 3 / 4;
        let cap = time / 5;
        let mut soft = if ideal < cap {
            ideal
        } else {
            cap
        };
        if hard < soft {
            soft = hard;
        }
        if soft < 5 {
            soft = 5;
        }
        (soft, hard)
    }
}

} // verus!
