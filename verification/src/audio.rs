//! Results of the output-callback probe.
use vstd::prelude::*;
use vstd::string::StringExecFns;

use crate::text::{bool_text, decimal, push_bool, push_decimal};

verus! {

/// The render command queue had no room for another command.
#[derive(Debug, Clone, Copy, PartialEq, Eq, Structural)]
pub struct CommandQueueFull;

impl CommandQueueFull {
    pub fn message(&self) -> (text: &'static str)
        ensures
            text@ == "audio command queue is full"@,
    {
        "audio command queue is full"
    }
}

/// Health counters of one probe run.
#[derive(Debug, Clone, Copy, PartialEq, Eq, Structural)]
pub struct ProbeReport {
    pub callbacks: u64,
    pub samples: u64,
    pub commands: u64,
    pub stream_errors: u64,
    pub stopped: bool,
}

pub open spec fn probe_summary(r: ProbeReport) -> Seq<char> {
    "Callback report: callbacks="@ + decimal(r.callbacks as nat) + ", samples="@ + decimal(
        r.samples as nat,
    ) + ", commands="@ + decimal(r.commands as nat) + ", stream_errors="@ + decimal(
        r.stream_errors as nat,
    ) + ", stopped="@ + bool_text(r.stopped)
}

impl ProbeReport {
    /// One line with every counter.
    pub fn summary(&self) -> (text: String)
        ensures
            text@ == probe_summary(*self),
    {
        let mut text = String::from_str("Callback report: callbacks=");
        push_decimal(&mut text, self.callbacks);
        text.append(", samples=");
        push_decimal(&mut text, self.samples);
        text.append(", commands=");
        push_decimal(&mut text, self.commands);
        text.append(", stream_errors=");
        push_decimal(&mut text, self.stream_errors);
        text.append(", stopped=");
        push_bool(&mut text, self.stopped);
        text
    }
}

} // verus!
