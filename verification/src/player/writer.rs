//! Writing commands to an engine, one per line.

use vstd::prelude::*;
use crate::error::Error;
use crate::text::append;
use crate::usi::gui::{command_line, GuiCommand};

verus! {

/// The lines written to an engine that have not been handed on yet.
pub struct GuiCommandWriter {
    writer: Vec<u8>,
}

impl View for GuiCommandWriter {
    type V = Seq<u8>;

    closed spec fn view(&self) -> Seq<u8> {
        self.writer@
    }
}

impl GuiCommandWriter {
    /// A writer that appends to `writer`.
    pub fn new(writer: Vec<u8>) -> (w: GuiCommandWriter)
        ensures
            w@ == writer@,
    {
        GuiCommandWriter { writer }
    }

    /// Writes `command` as one line and returns the line.
    pub fn send(&mut self, command: &GuiCommand) -> (r: Result<Vec<u8>, Error>)
        ensures
            r matches Ok(line) && line@ == command_line(command@),
            final(self)@ == old(self)@ + command_line(command@),
    {
        let mut line = command.to_bytes();
        line.push(10u8);
        append(&mut self.writer, line.as_slice());
        Ok(line)
    }

    /// What has been written and not taken yet.
    pub fn written(&self) -> (r: &[u8])
        ensures
            r@ == self@,
    {
        self.writer.as_slice()
    }

    /// Takes what has been written, to hand it on.
    pub fn take(&mut self) -> (r: Vec<u8>)
        ensures
            r@ == old(self)@,
            final(self)@.len() == 0,
    {
        let mut out: Vec<u8> = Vec::new();
        std::mem::swap(&mut self.writer, &mut out);
        out
    }
}

} // verus!
