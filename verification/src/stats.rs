//! The running score of a match.

use vstd::prelude::*;
use crate::rules::Color;

verus! {

/// How many games of a match each side has won, how many were drawn, and
/// how many the match is to have.
#[derive(Debug, Clone, Copy)]
pub struct MatchStatistics {
    black_wins: u32,
    white_wins: u32,
    draw_games: u32,
    finished_games: u32,
    total_games: u32,
}

/// The counters of a `MatchStatistics`.
pub struct Tally {
    pub black_wins: nat,
    pub white_wins: nat,
    pub draw_games: nat,
    pub finished_games: nat,
    pub total_games: nat,
}

impl Tally {
    /// The tally at the start of a match of `total` games.
    pub open spec fn start(total: nat) -> Tally {
        Tally { black_wins: 0, white_wins: 0, draw_games: 0, finished_games: 0, total_games: total }
    }

    /// The tally after one more game that `winner` has won, or nobody.
    pub open spec fn record(self, winner: Option<Color>) -> Tally {
        Tally {
            black_wins: self.black_wins + if winner == Some(Color::Black) {
                1nat
            } else {
                0nat
            },
            white_wins: self.white_wins + if winner == Some(Color::White) {
                1nat
            } else {
                0nat
            },
            draw_games: self.draw_games + if winner.is_none() {
                1nat
            } else {
                0nat
            },
            finished_games: self.finished_games + 1,
            total_games: self.total_games,
        }
    }

    /// The tally after the games whose winners are `winners`, in turn.
    pub open spec fn record_all(self, winners: Seq<Option<Color>>) -> Tally
        decreases winners.len(),
    {
        if winners.len() == 0 {
            self
        } else {
            self.record_all(winners.drop_last()).record(winners.last())
        }
    }

    /// Every finished game is a win of one side or a draw.
    pub open spec fn balanced(self) -> bool {
        self.black_wins + self.white_wins + self.draw_games == self.finished_games
    }
}

impl View for MatchStatistics {
    type V = Tally;

    closed spec fn view(&self) -> Tally {
        Tally {
            black_wins: self.black_wins as nat,
            white_wins: self.white_wins as nat,
            draw_games: self.draw_games as nat,
            finished_games: self.finished_games as nat,
            total_games: self.total_games as nat,
        }
    }
}

impl MatchStatistics {
    /// Every finished game is a win of one side or a draw.
    #[verifier::type_invariant]
    closed spec fn well_formed(&self) -> bool {
        self.black_wins + self.white_wins + self.draw_games == self.finished_games
    }

    /// The statistics of a match of `num_games` games, none played yet.
    pub fn new(num_games: u32) -> (stats: MatchStatistics)
        ensures
            stats@ == Tally::start(num_games as nat),
    {
        MatchStatistics {
            black_wins: 0,
            white_wins: 0,
            draw_games: 0,
            finished_games: 0,
            total_games: num_games,
        }
    }

    /// The games that Black has won.
    pub fn black_wins(&self) -> (n: u32)
        ensures
            n == self@.black_wins,
    {
        self.black_wins
    }

    /// The games that White has won.
    pub fn white_wins(&self) -> (n: u32)
        ensures
            n == self@.white_wins,
    {
        self.white_wins
    }

    /// The games that nobody has won.
    pub fn draw_games(&self) -> (n: u32)
        ensures
            n == self@.draw_games,
    {
        self.draw_games
    }

    /// The number of games recorded. It is the sum of the three counters.
    pub fn finished_games(&self) -> (n: u32)
        ensures
            n == self@.finished_games,
            self@.balanced(),
    {
        proof {
            use_type_invariant(self);
        }
        self.finished_games
    }

    /// The number of games that the match is to have.
    pub fn total_games(&self) -> (n: u32)
        ensures
            n == self@.total_games,
    {
        self.total_games
    }

    /// Records the result of one more game.
    pub fn record_game(&mut self, winner: Option<Color>)
        requires
            old(self)@.finished_games < u32::MAX,
        ensures
            final(self)@ == old(self)@.record(winner),
            final(self)@.balanced(),
    {
        proof {
            use_type_invariant(&*self);
        }
        let black: u32 = if let Some(Color::Black) = winner {
            1
        } else {
            0
        };
        let white: u32 = if let Some(Color::White) = winner {
            1
        } else {
            0
        };
        let draw: u32 = if winner.is_none() {
            1
        } else {
            0
        };
        *self = MatchStatistics {
            black_wins: self.black_wins + black,
            white_wins: self.white_wins + white,
            draw_games: self.draw_games + draw,
            finished_games: self.finished_games + 1,
            total_games: self.total_games,
        };
    }
}

impl Default for MatchStatistics {
    /// The statistics of a match of no games.
    fn default() -> (stats: MatchStatistics)
        ensures
            stats@ == Tally::start(0),
    {
        MatchStatistics::new(0)
    }
}

/// After any number of games from the start of a match, the wins of both
/// sides and the draws add up to the number of games played, which is also
/// the number of finished games.
pub proof fn lemma_tally_counts_games(total: nat, winners: Seq<Option<Color>>)
    ensures
        Tally::start(total).record_all(winners).finished_games == winners.len(),
        Tally::start(total).record_all(winners).balanced(),
        Tally::start(total).record_all(winners).total_games == total,
    decreases winners.len(),
{
    if winners.len() > 0 {
        lemma_tally_counts_games(total, winners.drop_last());
        let before = Tally::start(total).record_all(winners.drop_last());
        assert(Tally::start(total).record_all(winners) == before.record(winners.last()));
        match winners.last() {
            Some(Color::Black) => {},
            Some(Color::White) => {},
            None => {},
        }
    }
}

} // verus!
