//! Sending a command to a player's shell and collecting what it prints.
//!
//! The application writes the framed command to the shell, flushes it, then
//! reads until the shell falls silent or closes; each read is handed to an
//! [`OutputCollector`], which decides whether to read on.
use vstd::prelude::*;
use crate::text::{decode_lossy, trim_leading_whitespace, utf8_lossy, without_leading_whitespace};

verus! {

/// The line sent to the shell for a command: the command and a line break.
pub fn frame_command(command: &str) -> (r: String)
    ensures
        r@ == command@ + "\n"@,
{
    let mut line = command.to_owned();
    line.append("\n");
    line
}

/// Why an exchange with a shell failed.
pub enum ExchangeError {
    /// The command could not be written.
    WriteFailed,
    /// The command could not be flushed.
    FlushFailed,
    /// Reading the output failed, for the reason given.
    ReadFailed(String),
}

impl ExchangeError {
    /// The text shown for the error.
    pub fn message(&self) -> (r: String)
        ensures
            r@ == match self {
                ExchangeError::WriteFailed => "Could not write to session"@,
                ExchangeError::FlushFailed => "Could not flush stdin"@,
                ExchangeError::ReadFailed(e) => e@,
            },
    {
        match self {
            ExchangeError::WriteFailed => "Could not write to session".to_owned(),
            ExchangeError::FlushFailed => "Could not flush stdin".to_owned(),
            ExchangeError::ReadFailed(e) => e.clone(),
        }
    }
}

/// What one read from the shell gave.
pub enum ReadOutcome {
    /// These bytes were read; none means the shell closed its output.
    Data(Vec<u8>),
    /// The read failed, for the reason given.
    Failed(String),
    /// Nothing came within the waiting time.
    TimedOut,
}

/// What to do after a read.
pub enum ReadStep {
    Continue,
    Done,
    Failed(String),
}

/// The bytes printed so far by the shell.
pub struct OutputCollector {
    buffer: Vec<u8>,
}

impl View for OutputCollector {
    type V = Seq<u8>;

    closed spec fn view(&self) -> Seq<u8> {
        self.buffer@
    }
}

impl OutputCollector {
    pub fn new() -> (c: OutputCollector)
        ensures
            c@ == Seq::<u8>::empty(),
    {
        OutputCollector { buffer: Vec::new() }
    }

    /// Takes in one read: bytes are kept and reading goes on; an empty read
    /// (the shell closed) or a silent one ends the exchange; a failed read
    /// ends it with the failure.
    pub fn on_read(&mut self, outcome: ReadOutcome) -> (step: ReadStep)
        ensures
            match outcome {
                ReadOutcome::Data(d) => if d@.len() > 0 {
                    final(self)@ == old(self)@ + d@ && step is Continue
                } else {
                    final(self)@ == old(self)@ && step is Done
                },
                ReadOutcome::Failed(e) => final(self)@ == old(self)@ && step == ReadStep::Failed(e),
                ReadOutcome::TimedOut => final(self)@ == old(self)@ && step is Done,
            },
    {
        match outcome {
            ReadOutcome::Data(d) => {
                if d.len() > 0 {
                    let mut d = d;
                    self.buffer.append(&mut d);
                    ReadStep::Continue
                } else {
                    ReadStep::Done
                }
            },
            ReadOutcome::Failed(e) => ReadStep::Failed(e),
            ReadOutcome::TimedOut => ReadStep::Done,
        }
    }

    /// The output as text: decoded as UTF-8 (invalid sequences replaced),
    /// without its leading white space.
    pub fn finish(&self) -> (r: String)
        ensures
            r@ == without_leading_whitespace(utf8_lossy(self@)),
    {
        let text = decode_lossy(self.buffer.as_slice());
        trim_leading_whitespace(text.as_str())
    }
}

} // verus!
