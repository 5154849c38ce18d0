//! Time controls. All times are whole milliseconds.

use vstd::prelude::*;
use crate::rules::Color;

verus! {

/// The clock of a game.
#[derive(Debug, Clone, Copy, PartialEq, Eq, Structural)]
pub enum TimeControl {
    /// Main time for each side and a grace period for every move, which
    /// does not accumulate.
    Byoyomi { black_time: u64, white_time: u64, byoyomi: u64 },
    /// Main time for each side and an increment added after each of a
    /// side's moves.
    FischerClock { black_time: u64, white_time: u64, black_inc: u64, white_inc: u64 },
}

impl TimeControl {
    /// The main time left to `c`.
    pub open spec fn remaining(self, c: Color) -> u64 {
        match (self, c) {
            (TimeControl::Byoyomi { black_time, .. }, Color::Black) => black_time,
            (TimeControl::Byoyomi { white_time, .. }, Color::White) => white_time,
            (TimeControl::FischerClock { black_time, .. }, Color::Black) => black_time,
            (TimeControl::FischerClock { white_time, .. }, Color::White) => white_time,
        }
    }

    /// The time added to the clock of `c` after each of its moves.
    pub open spec fn increment(self, c: Color) -> u64 {
        match (self, c) {
            (TimeControl::Byoyomi { .. }, _) => 0,
            (TimeControl::FischerClock { black_inc, .. }, Color::Black) => black_inc,
            (TimeControl::FischerClock { white_inc, .. }, Color::White) => white_inc,
        }
    }

    /// The grace period of each move.
    pub open spec fn grace(self) -> u64 {
        match self {
            TimeControl::Byoyomi { byoyomi, .. } => byoyomi,
            TimeControl::FischerClock { .. } => 0,
        }
    }

    /// The same clock with the main time of `c` set to `t`.
    pub open spec fn with_remaining(self, c: Color, t: u64) -> TimeControl {
        match (self, c) {
            (TimeControl::Byoyomi { white_time, byoyomi, .. }, Color::Black) => {
                TimeControl::Byoyomi { black_time: t, white_time, byoyomi }
            },
            (TimeControl::Byoyomi { black_time, byoyomi, .. }, Color::White) => {
                TimeControl::Byoyomi { black_time, white_time: t, byoyomi }
            },
            (TimeControl::FischerClock { white_time, black_inc, white_inc, .. }, Color::Black) => {
                TimeControl::FischerClock { black_time: t, white_time, black_inc, white_inc }
            },
            (TimeControl::FischerClock { black_time, black_inc, white_inc, .. }, Color::White) => {
                TimeControl::FischerClock { black_time, white_time: t, black_inc, white_inc }
            },
        }
    }

    /// Whether `c` is still in time after thinking for `elapsed`: the main
    /// time covers it, or what exceeds the main time fits in the grace
    /// period.
    pub open spec fn in_time(self, c: Color, elapsed: u64) -> bool {
        elapsed <= self.remaining(c) || elapsed - self.remaining(c) <= self.grace()
    }

    /// The main time of `c` after a move that took `elapsed` and was in
    /// time.
    pub open spec fn time_after(self, c: Color, elapsed: u64) -> int {
        if elapsed <= self.remaining(c) {
            self.remaining(c) - elapsed + self.increment(c)
        } else {
            0
        }
    }

    /// Whether the clock can hold the main time of `c` after a move that
    /// took `elapsed`.
    pub open spec fn fits(self, c: Color, elapsed: u64) -> bool {
        self.in_time(c, elapsed) ==> self.time_after(c, elapsed) <= u64::MAX
    }

    /// Whether the clock can hold the main time of either side after any
    /// move.
    pub open spec fn has_headroom(self) -> bool {
        &&& self.remaining(Color::Black) + self.increment(Color::Black) <= u64::MAX
        &&& self.remaining(Color::White) + self.increment(Color::White) <= u64::MAX
    }

    /// The clock after `c` has thought for `elapsed`. A side that has run
    /// out of time keeps its clock as it was.
    pub open spec fn after(self, c: Color, elapsed: u64) -> TimeControl {
        if self.in_time(c, elapsed) {
            self.with_remaining(c, self.time_after(c, elapsed) as u64)
        } else {
            self
        }
    }

    /// The main time left to Black.
    pub fn black_time(&self) -> (t: u64)
        ensures
            t == self.remaining(Color::Black),
    {
        match *self {
            TimeControl::Byoyomi { black_time, .. } => black_time,
            TimeControl::FischerClock { black_time, .. } => black_time,
        }
    }

    /// The main time left to White.
    pub fn white_time(&self) -> (t: u64)
        ensures
            t == self.remaining(Color::White),
    {
        match *self {
            TimeControl::Byoyomi { white_time, .. } => white_time,
            TimeControl::FischerClock { white_time, .. } => white_time,
        }
    }

    /// Whether `has_headroom` holds.
    pub fn check_headroom(&self) -> (r: bool)
        ensures
            r == self.has_headroom(),
    {
        match *self {
            TimeControl::Byoyomi { .. } => true,
            TimeControl::FischerClock { black_time, white_time, black_inc, white_inc } => {
                black_time <= u64::MAX - black_inc && white_time <= u64::MAX - white_inc
            },
        }
    }

    /// Charges `elapsed` to the clock of `c`. Returns `false` if and only if
    /// `c` has run out of time.
    ///
    /// With byoyomi the main time goes down by `elapsed`, to zero at the
    /// least, and the side is in time as long as what exceeds the main time
    /// fits in the grace period. With a Fischer clock the side is in time as
    /// long as the main time covers `elapsed`, and the increment is then
    /// added to what is left.
    pub fn consume(&mut self, c: Color, elapsed: u64) -> (ok: bool)
        requires
            old(self).fits(c, elapsed),
        ensures
            ok == old(self).in_time(c, elapsed),
            *final(self) == old(self).after(c, elapsed),
            final(self).remaining(c.opponent()) == old(self).remaining(c.opponent()),
            final(self).increment(c) == old(self).increment(c),
            final(self).grace() == old(self).grace(),
            ok ==> final(self).remaining(c) == old(self).time_after(c, elapsed),
            !ok ==> final(self).remaining(c) == old(self).remaining(c),
    {
        match self {
            TimeControl::Byoyomi { black_time, white_time, byoyomi } => {
                let left = match c {
                    Color::Black => *black_time,
                    Color::White => *white_time,
                };
                if elapsed <= left {
                    match c {
                        Color::Black => *black_time = left - elapsed,
                        Color::White => *white_time = left - elapsed,
                    }
                    true
                } else if elapsed - left <= *byoyomi {
                    match c {
                        Color::Black => *black_time = 0,
                        Color::White => *white_time = 0,
                    }
                    true
                } else {
                    false
                }
            },
            TimeControl::FischerClock { black_time, white_time, black_inc, white_inc } => {
                match c {
                    Color::Black => {
                        if elapsed <= *black_time {
                            *black_time = *black_time - elapsed + *black_inc;
                            true
                        } else {
                            false
                        }
                    },
                    Color::White => {
                        if elapsed <= *white_time {
                            *white_time = *white_time - elapsed + *white_inc;
                            true
                        } else {
                            false
                        }
                    },
                }
            },
        }
    }
}

/// With byoyomi no clock ever goes up. With a Fischer clock a move in time
/// changes the mover's clock by exactly the increment less the time taken.
/// In either case the other side's clock stays as it was, and a side out of
/// time keeps its clock.
pub proof fn lemma_clock_change(clock: TimeControl, c: Color, elapsed: u64)
    requires
        clock.fits(c, elapsed),
    ensures
        clock.after(c, elapsed).remaining(c.opponent()) == clock.remaining(c.opponent()),
        clock is Byoyomi ==> clock.after(c, elapsed).remaining(c) <= clock.remaining(c),
        clock is FischerClock && clock.in_time(c, elapsed) ==> clock.after(c, elapsed).remaining(c)
            == clock.remaining(c) - elapsed + clock.increment(c),
        !clock.in_time(c, elapsed) ==> clock.after(c, elapsed) == clock,
        clock.after(c, elapsed).remaining(c) >= 0,
{
}

} // verus!
