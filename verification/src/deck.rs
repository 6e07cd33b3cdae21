//! The transport state of one deck and its report.
use vstd::prelude::*;
use vstd::string::StringExecFns;

use crate::text::{decimal, push_decimal};

verus! {

#[derive(Clone, Copy, Debug, PartialEq, Eq, Structural)]
pub enum DeckState {
    Paused,
    Playing,
    Ended,
}

/// The name of a state, as `{:?}` prints it.
pub open spec fn deck_state_text(state: DeckState) -> Seq<char> {
    match state {
        DeckState::Paused => "Paused"@,
        DeckState::Playing => "Playing"@,
        DeckState::Ended => "Ended"@,
    }
}

impl DeckState {
    /// The state a deck reports: ended when the render callback marked the
    /// active generation as ended, else playing or paused.
    pub fn from_metrics(active_generation: u64, ended_generation: u64, playing: bool) -> (state:
        DeckState)
        ensures
            state == (if ended_generation == active_generation {
                DeckState::Ended
            } else if playing {
                DeckState::Playing
            } else {
                DeckState::Paused
            }),
    {
        if ended_generation == active_generation {
            DeckState::Ended
        } else if playing {
            DeckState::Playing
        } else {
            DeckState::Paused
        }
    }

    pub fn name(&self) -> (text: &'static str)
        ensures
            text@ == deck_state_text(*self),
    {
        match self {
            DeckState::Paused => "Paused",
            DeckState::Playing => "Playing",
            DeckState::Ended => "Ended",
        }
    }
}

#[derive(Clone, Debug, PartialEq)]
pub struct DeckSnapshot {
    pub state: DeckState,
    pub position_frames: u64,
    pub rendered_frames: u64,
    pub callbacks: u64,
    pub underflow_callbacks: u64,
    pub stale_blocks: u64,
    pub recycle_failures: u64,
    pub stream_errors: u64,
    pub generation: u64,
    pub worker_error: Option<String>,
}

pub open spec fn deck_summary(d: &DeckSnapshot) -> Seq<char> {
    "Deck report: state="@ + deck_state_text(d.state) + ", generation="@ + decimal(
        d.generation as nat,
    ) + ", position_frames="@ + decimal(d.position_frames as nat) + ", rendered_frames="@
        + decimal(d.rendered_frames as nat) + ", callbacks="@ + decimal(d.callbacks as nat)
        + ", underflow_callbacks="@ + decimal(d.underflow_callbacks as nat) + ", stale_blocks="@
        + decimal(d.stale_blocks as nat) + ", recycle_failures="@ + decimal(
        d.recycle_failures as nat,
    ) + ", stream_errors="@ + decimal(d.stream_errors as nat) + ", worker_error="@ + match &d.worker_error {
        Some(e) => e@,
        None => "none"@,
    }
}

impl DeckSnapshot {
    /// One line with the state and every counter.
    pub fn summary(&self) -> (text: String)
        ensures
            text@ == deck_summary(self),
    {
        let mut text = String::from_str("Deck report: state=");
        text.append(self.state.name());
        text.append(", generation=");
        push_decimal(&mut text, self.generation);
        text.append(", position_frames=");
        push_decimal(&mut text, self.position_frames);
        text.append(", rendered_frames=");
        push_decimal(&mut text, self.rendered_frames);
        text.append(", callbacks=");
        push_decimal(&mut text, self.callbacks);
        text.append(", underflow_callbacks=");
        push_decimal(&mut text, self.underflow_callbacks);
        text.append(", stale_blocks=");
        push_decimal(&mut text, self.stale_blocks);
        text.append(", recycle_failures=");
        push_decimal(&mut text, self.recycle_failures);
        text.append(", stream_errors=");
        push_decimal(&mut text, self.stream_errors);
        text.append(", worker_error=");
        match &self.worker_error {
            Some(error) => text.append(error.as_str()),
            None => text.append("none"),
        }
        text
    }
}

#[derive(Clone, Copy, Debug, PartialEq, Eq, Structural)]
pub enum DeckControlError {
    QueueFull,
    WorkerStopped,
    InvalidSeek,
}

impl DeckControlError {
    pub fn message(&self) -> (text: &'static str)
        ensures
            text@ == match self {
                DeckControlError::QueueFull => "deck control queue is full"@,
                DeckControlError::WorkerStopped => "decoder worker has stopped"@,
                DeckControlError::InvalidSeek => "seek must be finite and non-negative"@,
            },
    {
        match self {
            DeckControlError::QueueFull => "deck control queue is full",
            DeckControlError::WorkerStopped => "decoder worker has stopped",
            DeckControlError::InvalidSeek => "seek must be finite and non-negative",
        }
    }
}

} // verus!
