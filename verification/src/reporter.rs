//! What reporters show: the lines of the protocol trace, the outcome of a
//! game and the score of a match, as texts.

use vstd::prelude::*;
use crate::game::GameOverReason;
use crate::number::{decimal, write_unsigned};
use crate::player::reader::EngineOutput;
use crate::rules::Color;
use crate::stats::MatchStatistics;
use crate::text::{append, bytes_of};
use crate::usi::gui::GuiCommand;

verus! {

/// The letter that stands for a side in the protocol trace.
pub open spec fn side_letter(color: Color) -> Seq<u8> {
    match color {
        Color::Black => bytes_of("B"),
        Color::White => bytes_of("W"),
    }
}

/// The name of a side.
pub open spec fn side_name(color: Color) -> Seq<u8> {
    match color {
        Color::Black => bytes_of("Black"),
        Color::White => bytes_of("White"),
    }
}

/// The name of a reason.
pub open spec fn reason_name(reason: GameOverReason) -> Seq<u8> {
    match reason {
        GameOverReason::Resign => bytes_of("Resign"),
        GameOverReason::IllegalMove => bytes_of("IllegalMove"),
        GameOverReason::OutOfTime => bytes_of("OutOfTime"),
        GameOverReason::MaxPly => bytes_of("MaxPly"),
        GameOverReason::DeclareWinning => bytes_of("DeclareWinning"),
    }
}

/// The sentence that tells the outcome of a game.
pub open spec fn outcome_text(winner: Option<Color>, reason: GameOverReason) -> Seq<u8> {
    match winner {
        Some(c) => side_name(c) + bytes_of(" won the game. (") + reason_name(reason) + bytes_of(
            ")",
        ),
        None => bytes_of("Draw(") + reason_name(reason) + bytes_of(")"),
    }
}

/// The mark of the game that is played: its number among the games of the
/// match.
pub open spec fn progress_text(finished: nat, total: nat) -> Seq<u8> {
    bytes_of("[") + decimal(finished + 1) + bytes_of("/") + decimal(total) + bytes_of("]")
}

/// The table of the score of a match.
pub open spec fn summary_text(finished: nat, black: nat, white: nat, draw: nat) -> Seq<u8> {
    bytes_of("Total\tBlack\tWhite\tDraw\n") + decimal(finished) + bytes_of("\t") + decimal(black)
        + bytes_of("\t") + decimal(white) + bytes_of("\t") + decimal(draw) + bytes_of("\n")
}

/// Appends the bytes of `s`.
fn push_str(out: &mut Vec<u8>, s: &str)
    ensures
        final(out)@ == old(out)@ + bytes_of(s),
{
    append(out, s.as_bytes());
}

/// Appends `n` in decimal.
fn push_number(out: &mut Vec<u8>, n: u64)
    ensures
        final(out)@ == old(out)@ + decimal(n as nat),
{
    let digits = write_unsigned(n);
    append(out, digits.as_slice());
}

/// Writes the name of a reason.
pub fn reason_to_text(reason: GameOverReason) -> (text: &'static str)
    ensures
        bytes_of(text) == reason_name(reason),
{
    match reason {
        GameOverReason::Resign => "Resign",
        GameOverReason::IllegalMove => "IllegalMove",
        GameOverReason::OutOfTime => "OutOfTime",
        GameOverReason::MaxPly => "MaxPly",
        GameOverReason::DeclareWinning => "DeclareWinning",
    }
}

/// Writes the sentence that tells the outcome of a game.
pub fn outcome(winner: Option<Color>, reason: GameOverReason) -> (text: Vec<u8>)
    ensures
        text@ == outcome_text(winner, reason),
{
    let mut out: Vec<u8> = Vec::new();
    match winner {
        Some(c) => {
            match c {
                Color::Black => push_str(&mut out, "Black"),
                Color::White => push_str(&mut out, "White"),
            }
            push_str(&mut out, " won the game. (");
        },
        None => {
            push_str(&mut out, "Draw(");
        },
    }
    push_str(&mut out, reason_to_text(reason));
    push_str(&mut out, ")");
    proof {
        assert(out@ =~= outcome_text(winner, reason));
    }
    out
}

/// Writes the mark of the game that is played.
pub fn progress(stats: &MatchStatistics) -> (text: Vec<u8>)
    ensures
        text@ == progress_text(stats@.finished_games, stats@.total_games),
{
    let mut out: Vec<u8> = Vec::new();
    push_str(&mut out, "[");
    push_number(&mut out, stats.finished_games() as u64 + 1);
    push_str(&mut out, "/");
    push_number(&mut out, stats.total_games() as u64);
    push_str(&mut out, "]");
    proof {
        assert(out@ =~= progress_text(stats@.finished_games, stats@.total_games));
    }
    out
}

/// Writes the table of the score of a match.
pub fn summary(stats: &MatchStatistics) -> (text: Vec<u8>)
    ensures
        text@ == summary_text(
            stats@.finished_games,
            stats@.black_wins,
            stats@.white_wins,
            stats@.draw_games,
        ),
{
    let mut out: Vec<u8> = Vec::new();
    push_str(&mut out, "Total\tBlack\tWhite\tDraw\n");
    push_number(&mut out, stats.finished_games() as u64);
    push_str(&mut out, "\t");
    push_number(&mut out, stats.black_wins() as u64);
    push_str(&mut out, "\t");
    push_number(&mut out, stats.white_wins() as u64);
    push_str(&mut out, "\t");
    push_number(&mut out, stats.draw_games() as u64);
    push_str(&mut out, "\n");
    proof {
        assert(out@ =~= summary_text(
            stats@.finished_games,
            stats@.black_wins,
            stats@.white_wins,
            stats@.draw_games,
        ));
    }
    out
}

/// The reporter that traces the protocol: every line that goes to an engine
/// and every line that comes from one, marked with the side of the engine.
#[derive(Debug, Clone, Copy, PartialEq, Eq)]
pub struct UsiReporter {}

impl Default for UsiReporter {
    /// A reporter of the protocol trace.
    fn default() -> UsiReporter {
        UsiReporter {  }
    }
}

impl UsiReporter {
    /// The trace of a command sent to the engine of `color`: the side, `<`
    /// and the line as it was sent.
    pub fn on_send_command(&mut self, color: Color, command: &GuiCommand, raw_str: &[u8]) -> (text:
        Vec<u8>)
        ensures
            text@ == side_letter(color) + bytes_of("< ") + raw_str@,
    {
        let mut out: Vec<u8> = Vec::new();
        match color {
            Color::Black => push_str(&mut out, "B"),
            Color::White => push_str(&mut out, "W"),
        }
        push_str(&mut out, "< ");
        append(&mut out, raw_str);
        proof {
            assert(out@ =~= side_letter(color) + bytes_of("< ") + raw_str@);
        }
        out
    }

    /// The trace of a line read from the engine of `color`: the side, `>`
    /// and the line as it was read.
    pub fn on_receive_command(&mut self, color: Color, output: &EngineOutput) -> (text: Vec<u8>)
        ensures
            text@ == side_letter(color) + bytes_of("> ") + output@.raw_str,
    {
        let mut out: Vec<u8> = Vec::new();
        match color {
            Color::Black => push_str(&mut out, "B"),
            Color::White => push_str(&mut out, "W"),
        }
        push_str(&mut out, "> ");
        append(&mut out, output.raw_str());
        proof {
            assert(out@ =~= side_letter(color) + bytes_of("> ") + output@.raw_str);
        }
        out
    }
}

} // verus!
