//! What can go wrong while a match runs.

use vstd::prelude::*;
use crate::rules::SfenError;
use crate::usi::UsiError;

verus! {

/// The errors of the match runner.
#[derive(Debug, Clone, Copy, PartialEq, Eq, Structural)]
pub enum Error {
    /// A line of an engine is no response of the protocol.
    Usi(UsiError),
    /// A position or a move is not written in SFEN.
    Sfen(SfenError),
    /// The transport to an engine has failed.
    Io,
    /// A channel between the arbiter and an engine is closed.
    Channel,
    /// An engine has gone before it said that it is ready.
    EngineNotResponded,
}

impl Error {
    /// Whether the reader of an engine's output goes on after this error:
    /// it does after a line that it cannot decode, and after nothing else.
    pub open spec fn is_recoverable(self) -> bool {
        self is Usi
    }

    /// Whether the reader of an engine's output goes on after this error.
    pub fn recoverable(&self) -> (r: bool)
        ensures
            r == self.is_recoverable(),
    {
        match self {
            Error::Usi(_) => true,
            _ => false,
        }
    }

    /// A sentence that says what went wrong.
    pub fn describe(&self) -> (text: &'static str)
        ensures
            text@ == (match *self {
                Error::Usi(UsiError::Blank) => "the line is blank"@,
                Error::Usi(UsiError::UnknownCommand) => "the line names no known command"@,
                Error::Usi(UsiError::IllegalSyntax) => "the line does not have the form of its command"@,
                Error::Sfen(SfenError::MissingDataFields) => "data fields are missing"@,
                Error::Sfen(SfenError::IllegalPieceType) => "an illegal piece notation is found"@,
                Error::Sfen(SfenError::IllegalSideToMove) => "the side to move needs to be black or white"@,
                Error::Sfen(SfenError::IllegalMoveCount) => "an illegal move count notation is found"@,
                Error::Sfen(SfenError::IllegalMove) => "an illegal move notation is found"@,
                Error::Sfen(SfenError::IllegalBoardState) => "an illegal board state notation is found"@,
                Error::Sfen(SfenError::OutOfRange) => "the position holds more than a game can hold"@,
                Error::Io => "the transport to the engine failed"@,
                Error::Channel => "the channel is closed"@,
                Error::EngineNotResponded => "the engine did not return 'readyok' command"@,
            }),
    {
        match self {
            Error::Usi(UsiError::Blank) => "the line is blank",
            Error::Usi(UsiError::UnknownCommand) => "the line names no known command",
            Error::Usi(UsiError::IllegalSyntax) => "the line does not have the form of its command",
            Error::Sfen(SfenError::MissingDataFields) => "data fields are missing",
            Error::Sfen(SfenError::IllegalPieceType) => "an illegal piece notation is found",
            Error::Sfen(SfenError::IllegalSideToMove) => "the side to move needs to be black or white",
            Error::Sfen(SfenError::IllegalMoveCount) => "an illegal move count notation is found",
            Error::Sfen(SfenError::IllegalMove) => "an illegal move notation is found",
            Error::Sfen(SfenError::IllegalBoardState) => "an illegal board state notation is found",
            Error::Sfen(SfenError::OutOfRange) => "the position holds more than a game can hold",
            Error::Io => "the transport to the engine failed",
            Error::Channel => "the channel is closed",
            Error::EngineNotResponded => "the engine did not return 'readyok' command",
        }
    }
}

} // verus!
