//! The two-deck mixer's identifiers, errors and report.
use vstd::prelude::*;
use vstd::string::StringExecFns;

use crate::deck::{deck_summary, DeckSnapshot};
use crate::text::{decimal, push_decimal};

verus! {

#[derive(Clone, Copy, Debug, PartialEq, Eq, Structural)]
pub enum DeckId {
    A,
    B,
}

#[derive(Clone, Debug, PartialEq)]
pub struct MixerSnapshot {
    pub deck_a: DeckSnapshot,
    pub deck_b: DeckSnapshot,
    pub callbacks: u64,
    pub clipped_samples: u64,
    pub stream_errors: u64,
}

pub open spec fn mixer_summary(m: &MixerSnapshot) -> Seq<char> {
    "Mixer report: callbacks="@ + decimal(m.callbacks as nat) + ", clipped_samples="@ + decimal(
        m.clipped_samples as nat,
    ) + ", stream_errors="@ + decimal(m.stream_errors as nat) + ", deck_a=["@ + deck_summary(
        &m.deck_a,
    ) + "], deck_b=["@ + deck_summary(&m.deck_b) + "]"@
}

impl MixerSnapshot {
    /// One line with the mixer counters and both deck reports.
    pub fn summary(&self) -> (text: String)
        ensures
            text@ == mixer_summary(self),
    {
        let mut text = String::from_str("Mixer report: callbacks=");
        push_decimal(&mut text, self.callbacks);
        text.append(", clipped_samples=");
        push_decimal(&mut text, self.clipped_samples);
        text.append(", stream_errors=");
        push_decimal(&mut text, self.stream_errors);
        text.append(", deck_a=[");
        let a = self.deck_a.summary();
        text.append(a.as_str());
        text.append("], deck_b=[");
        let b = self.deck_b.summary();
        text.append(b.as_str());
        text.append("]");
        text
    }
}

#[derive(Clone, Copy, Debug, PartialEq, Eq, Structural)]
pub enum MixerControlError {
    DeckUnloaded,
    CueUnavailable,
    QueueFull,
    WorkerStopped,
    InvalidValue,
}

impl MixerControlError {
    pub fn message(&self) -> (text: &'static str)
        ensures
            text@ == match self {
                MixerControlError::DeckUnloaded => "no track is loaded in this deck"@,
                MixerControlError::CueUnavailable =>
                    "stereo headphone cue requires one output device with at least four channels"@,
                MixerControlError::QueueFull => "mixer control queue is full"@,
                MixerControlError::WorkerStopped => "decoder worker has stopped"@,
                MixerControlError::InvalidValue => "mixer control value is invalid"@,
            },
    {
        match self {
            MixerControlError::DeckUnloaded => "no track is loaded in this deck",
            MixerControlError::CueUnavailable =>
                "stereo headphone cue requires one output device with at least four channels",
            MixerControlError::QueueFull => "mixer control queue is full",
            MixerControlError::WorkerStopped => "decoder worker has stopped",
            MixerControlError::InvalidValue => "mixer control value is invalid",
        }
    }
}

/// Headphone cue needs one output device with four channels: two for the
/// master and two for the cue.
pub fn cue_supported_for_channels(channels: u16) -> (supported: bool)
    ensures
        supported == (channels >= 4),
{
    channels >= 4
}

} // verus!
