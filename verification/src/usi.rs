//! The USI line protocol: the commands that the match runner sends to an
//! engine and the responses that it reads back. One command per line.

use vstd::prelude::*;

pub mod engine;
pub mod gui;

verus! {

/// Why a line is not a command.
#[derive(Debug, Clone, Copy, PartialEq, Eq, Structural)]
pub enum UsiError {
    /// The line holds no word at all.
    Blank,
    /// The first word of the line names no command.
    UnknownCommand,
    /// The line names a command and does not have its form.
    IllegalSyntax,
}

/// The model of an optional byte string.
pub open spec fn opt_view(o: Option<Vec<u8>>) -> Option<Seq<u8>> {
    match o {
        Some(v) => Some(v@),
        None => None,
    }
}

} // verus!
