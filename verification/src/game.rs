//! A game and its outcome.

use vstd::prelude::*;
use crate::clock::TimeControl;
use crate::rules::{Board, Color};

verus! {

/// Why a game is over.
#[derive(Debug, Clone, Copy, PartialEq, Eq, Structural)]
pub enum GameOverReason {
    Resign,
    IllegalMove,
    OutOfTime,
    MaxPly,
    DeclareWinning,
}

/// The outcome of a game: the winner, or nobody, and the reason.
#[derive(Debug, Clone, Copy, PartialEq, Eq, Structural)]
pub struct GameResult {
    pub winner: Option<Color>,
    pub reason: GameOverReason,
}

impl GameResult {
    /// The outcome with this winner and this reason.
    pub fn new(winner: Option<Color>, reason: GameOverReason) -> (r: GameResult)
        ensures
            r.winner == winner,
            r.reason == reason,
    {
        GameResult { winner, reason }
    }
}

/// A game in progress: the players, the position, the clock and the moment
/// at which the side to move was told that it is its turn (in milliseconds
/// on the clock of the match runner).
#[derive(Debug)]
pub struct Game {
    pub black_player: Vec<u8>,
    pub white_player: Vec<u8>,
    pub pos: Board,
    pub time: TimeControl,
    pub turn_start_time: u64,
}

impl Game {
    /// A game on an empty board, with players without names.
    pub fn new(initial_time: TimeControl) -> (g: Game)
        ensures
            g.time == initial_time,
            g.black_player@.len() == 0,
            g.white_player@.len() == 0,
            g.turn_start_time == 0,
            g.pos.side_to_move() == Color::Black,
            g.pos.ply() == 1,
            g.pos.last_move_text().is_none(),
    {
        Game {
            black_player: Vec::new(),
            white_player: Vec::new(),
            pos: Board::new(),
            time: initial_time,
            turn_start_time: 0,
        }
    }
}

} // verus!
