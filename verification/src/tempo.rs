//! Errors of the tempo and pitch processor.
use vstd::prelude::*;

verus! {

/// Why the tempo processor refused a setting or a chunk of audio.
#[derive(Clone, Copy, Debug, PartialEq, Eq, Structural)]
pub enum TempoError {
    InvalidSetting,
    InvalidFormat,
    FormatChanged,
}

impl TempoError {
    /// The message the error is shown with.
    pub fn message(&self) -> (text: &'static str)
        ensures
            text@ == match self {
                TempoError::InvalidSetting => "tempo or pitch setting is out of range"@,
                TempoError::InvalidFormat => "tempo processor audio format is invalid"@,
                TempoError::FormatChanged => "audio format changed during tempo processing"@,
            },
    {
        match self {
            TempoError::InvalidSetting => "tempo or pitch setting is out of range",
            TempoError::InvalidFormat => "tempo processor audio format is invalid",
            TempoError::FormatChanged => "audio format changed during tempo processing",
        }
    }
}

} // verus!
