//! The command line of the audio probe: which flags it knows, how a whole
//! number of seconds is read, and which modes may be combined.
use vstd::prelude::*;
use vstd::string::StrSliceExecFns;
use vstd::string::StringExecFns;

use crate::text::str_eq;

verus! {

/// A flag of the command line.
#[derive(Clone, Copy, Debug, PartialEq, Eq, Structural)]
pub enum CliFlag {
    RunSeconds,
    ToneHz,
    Gain,
    InspectMedia,
    PlayMedia,
    MixMediaA,
    MixMediaB,
    Crossfader,
    MasterGain,
    DualOutputMaster,
    DualOutputCue,
    SeekSeconds,
    Help,
}

/// The flag an argument names, if any.
pub open spec fn flag_of(arg: Seq<char>) -> Option<CliFlag> {
    if arg == "--run-seconds"@ {
        Some(CliFlag::RunSeconds)
    } else if arg == "--tone-hz"@ {
        Some(CliFlag::ToneHz)
    } else if arg == "--gain"@ {
        Some(CliFlag::Gain)
    } else if arg == "--inspect-media"@ {
        Some(CliFlag::InspectMedia)
    } else if arg == "--play-media"@ {
        Some(CliFlag::PlayMedia)
    } else if arg == "--mix-media-a"@ {
        Some(CliFlag::MixMediaA)
    } else if arg == "--mix-media-b"@ {
        Some(CliFlag::MixMediaB)
    } else if arg == "--crossfader"@ {
        Some(CliFlag::Crossfader)
    } else if arg == "--master-gain"@ {
        Some(CliFlag::MasterGain)
    } else if arg == "--dual-output-master"@ {
        Some(CliFlag::DualOutputMaster)
    } else if arg == "--dual-output-cue"@ {
        Some(CliFlag::DualOutputCue)
    } else if arg == "--seek-seconds"@ {
        Some(CliFlag::SeekSeconds)
    } else if arg == "--help"@ || arg == "-h"@ {
        Some(CliFlag::Help)
    } else {
        None
    }
}

/// Reads one argument as a flag; `None` for an unknown argument.
pub fn parse_flag(arg: &str) -> (flag: Option<CliFlag>)
    ensures
        flag == flag_of(arg@),
{
    if str_eq(arg, "--run-seconds") {
        Some(CliFlag::RunSeconds)
    } else if str_eq(arg, "--tone-hz") {
        Some(CliFlag::ToneHz)
    } else if str_eq(arg, "--gain") {
        Some(CliFlag::Gain)
    } else if str_eq(arg, "--inspect-media") {
        Some(CliFlag::InspectMedia)
    } else if str_eq(arg, "--play-media") {
        Some(CliFlag::PlayMedia)
    } else if str_eq(arg, "--mix-media-a") {
        Some(CliFlag::MixMediaA)
    } else if str_eq(arg, "--mix-media-b") {
        Some(CliFlag::MixMediaB)
    } else if str_eq(arg, "--crossfader") {
        Some(CliFlag::Crossfader)
    } else if str_eq(arg, "--master-gain") {
        Some(CliFlag::MasterGain)
    } else if str_eq(arg, "--dual-output-master") {
        Some(CliFlag::DualOutputMaster)
    } else if str_eq(arg, "--dual-output-cue") {
        Some(CliFlag::DualOutputCue)
    } else if str_eq(arg, "--seek-seconds") {
        Some(CliFlag::SeekSeconds)
    } else if str_eq(arg, "--help") || str_eq(arg, "-h") {
        Some(CliFlag::Help)
    } else {
        None
    }
}

impl CliFlag {
    /// The spelling of the flag (the long one for help).
    pub fn name(&self) -> (text: &'static str)
        ensures
            text@ == match self {
                CliFlag::RunSeconds => "--run-seconds"@,
                CliFlag::ToneHz => "--tone-hz"@,
                CliFlag::Gain => "--gain"@,
                CliFlag::InspectMedia => "--inspect-media"@,
                CliFlag::PlayMedia => "--play-media"@,
                CliFlag::MixMediaA => "--mix-media-a"@,
                CliFlag::MixMediaB => "--mix-media-b"@,
                CliFlag::Crossfader => "--crossfader"@,
                CliFlag::MasterGain => "--master-gain"@,
                CliFlag::DualOutputMaster => "--dual-output-master"@,
                CliFlag::DualOutputCue => "--dual-output-cue"@,
                CliFlag::SeekSeconds => "--seek-seconds"@,
                CliFlag::Help => "--help"@,
            },
    {
        match self {
            CliFlag::RunSeconds => "--run-seconds",
            CliFlag::ToneHz => "--tone-hz",
            CliFlag::Gain => "--gain",
            CliFlag::InspectMedia => "--inspect-media",
            CliFlag::PlayMedia => "--play-media",
            CliFlag::MixMediaA => "--mix-media-a",
            CliFlag::MixMediaB => "--mix-media-b",
            CliFlag::Crossfader => "--crossfader",
            CliFlag::MasterGain => "--master-gain",
            CliFlag::DualOutputMaster => "--dual-output-master",
            CliFlag::DualOutputCue => "--dual-output-cue",
            CliFlag::SeekSeconds => "--seek-seconds",
            CliFlag::Help => "--help",
        }
    }

    /// Whether the flag takes a value from the next argument.
    pub fn takes_value(&self) -> (takes: bool)
        ensures
            takes == !(self == CliFlag::Help),
    {
        match self {
            CliFlag::Help => false,
            _ => true,
        }
    }
}

/// The message for a flag given as the last argument, without its value.
pub fn missing_value_message(flag: &str) -> (text: String)
    ensures
        text@ == flag@ + " requires a value"@,
{
    let mut text = String::from_str(flag);
    text.append(" requires a value");
    text
}

// ---------------------------------------------------------------------------
// Whole numbers
// ---------------------------------------------------------------------------
/// An ASCII decimal digit.
pub open spec fn is_digit(c: char) -> bool {
    '0' <= c && c <= '9'
}

/// The value of a string of decimal digits.
pub open spec fn digits_value(d: Seq<char>) -> int
    decreases d.len(),
{
    if d.len() == 0 {
        0
    } else {
        10 * digits_value(d.drop_last()) + ((d.last() as int) - 48)
    }
}

/// The digits after an optional leading `+`.
pub open spec fn unsigned_digits(text: Seq<char>) -> Seq<char> {
    if text.len() > 0 && text[0] == '+' {
        text.drop_first()
    } else {
        text
    }
}

/// The value of an unsigned whole number as the standard library reads it:
/// an optional `+`, then one or more ASCII digits and nothing else, and a
/// value that fits in 64 bits.
pub open spec fn whole_number_of(text: Seq<char>) -> Option<u64> {
    let d = unsigned_digits(text);
    if d.len() > 0 && (forall|i: int| 0 <= i < d.len() ==> is_digit(#[trigger] d[i]))
        && digits_value(d) <= u64::MAX {
        Some(digits_value(d) as u64)
    } else {
        None
    }
}

proof fn lemma_digits_value_grows(d: Seq<char>, c: char)
    requires
        forall|i: int| 0 <= i < d.len() ==> is_digit(#[trigger] d[i]),
        is_digit(c),
    ensures
        digits_value(d.push(c)) == 10 * digits_value(d) + ((c as int) - 48),
        digits_value(d) >= 0,
    decreases d.len(),
{
    assert(d.push(c).drop_last() =~= d);
    if d.len() > 0 {
        lemma_digits_value_grows(d.drop_last(), d.last());
        assert(d.drop_last().push(d.last()) =~= d);
    }
}

/// Reads an unsigned whole number (see [`whole_number_of`]).
pub fn parse_whole_number(text: &str) -> (value: Option<u64>)
    ensures
        value == whole_number_of(text@),
{
    let n = text.unicode_len();
    let mut start: usize = 0;
    if n > 0 && text.get_char(0) == '+' {
        start = 1;
    }
    let ghost d = unsigned_digits(text@);
    assert(d =~= text@.subrange(start as int, n as int));
    if start == n {
        return None;
    }
    let mut acc: u64 = 0;
    let mut i: usize = start;
    while i < n
        invariant
            n == text@.len(),
            d == text@.subrange(start as int, n as int),
            d == unsigned_digits(text@),
            start < n,
            start <= i <= n,
            forall|k: int| 0 <= k < i - start ==> is_digit(#[trigger] d[k]),
            acc == digits_value(d.take(i - start)),
        decreases n - i,
    {
        let c = text.get_char(i);
        if !('0' <= c && c <= '9') {
            assert(!is_digit(d[i - start]));
            return None;
        }
        let digit: u64 = (c as u32 - 48) as u64;
        proof {
            assert(d.take(i - start + 1) =~= d.take(i - start).push(c));
            lemma_digits_value_grows(d.take(i - start), c);
        }
        if acc > (u64::MAX - digit) / 10 {
            proof {
                lemma_value_monotone(d, (i - start + 1) as int);
            }
            return None;
        }
        acc = acc * 10 + digit;
        i = i + 1;
    }
    assert(d.take(i - start) =~= d);
    Some(acc)
}

proof fn lemma_value_monotone(d: Seq<char>, k: int)
    requires
        0 <= k <= d.len(),
        forall|i: int| 0 <= i < k ==> is_digit(#[trigger] d[i]),
    ensures
        (forall|i: int| 0 <= i < d.len() ==> is_digit(#[trigger] d[i])) ==> digits_value(d)
            >= digits_value(d.take(k)),
    decreases d.len() - k,
{
    if k < d.len() {
        if forall|i: int| 0 <= i < d.len() ==> is_digit(#[trigger] d[i]) {
            lemma_value_monotone(d, k + 1);
            assert(d.take(k + 1) =~= d.take(k).push(d[k]));
            lemma_digits_value_grows(d.take(k), d[k]);
        }
    } else {
        assert(d.take(k) =~= d);
    }
}

/// Why `--run-seconds` was refused.
#[derive(Clone, Copy, Debug, PartialEq, Eq, Structural)]
pub enum RunSecondsError {
    NotAWholeNumber,
    Zero,
}

impl RunSecondsError {
    /// The message the command line fails with.
    pub fn message(&self) -> (text: &'static str)
        ensures
            text@ == match self {
                RunSecondsError::NotAWholeNumber => "--run-seconds must be a positive integer"@,
                RunSecondsError::Zero => "--run-seconds must be greater than zero"@,
            },
    {
        match self {
            RunSecondsError::NotAWholeNumber => "--run-seconds must be a positive integer",
            RunSecondsError::Zero => "--run-seconds must be greater than zero",
        }
    }
}

/// Reads the value of `--run-seconds`: a whole number of seconds above zero.
pub fn parse_run_seconds(text: &str) -> (seconds: Result<u64, RunSecondsError>)
    ensures
        seconds == match whole_number_of(text@) {
            None => Err(RunSecondsError::NotAWholeNumber),
            Some(0) => Err(RunSecondsError::Zero),
            Some(v) => Ok(v),
        },
{
    match parse_whole_number(text) {
        None => Err(RunSecondsError::NotAWholeNumber),
        Some(v) => if v == 0 {
            Err(RunSecondsError::Zero)
        } else {
            Ok(v)
        },
    }
}

// ---------------------------------------------------------------------------
// Modes
// ---------------------------------------------------------------------------
/// Which options the command line supplied.
#[derive(Clone, Copy, Debug, PartialEq, Eq, Structural)]
pub struct CliModes {
    pub run_seconds: bool,
    pub tone_hz: bool,
    pub seek_seconds: bool,
    pub inspect_media: bool,
    pub play_media: bool,
    pub mix_media_a: bool,
    pub mix_media_b: bool,
    pub dual_output_master: bool,
    pub dual_output_cue: bool,
}

/// Options that cannot be used together, or one used without what it needs.
#[derive(Clone, Copy, Debug, PartialEq, Eq, Structural)]
pub enum CliModeError {
    ToneWithoutDuration,
    SeekWithoutMedia,
    InspectWithDuration,
    InspectWithPlay,
    MixIncomplete,
    DualOutputIncomplete,
    DualOutputWithOtherModes,
    MixWithOneDeckModes,
}

impl CliModeError {
    /// The message the command line fails with.
    pub fn message(&self) -> (text: &'static str)
        ensures
            text@ == match self {
                CliModeError::ToneWithoutDuration => "--tone-hz requires --run-seconds"@,
                CliModeError::SeekWithoutMedia =>
                    "--seek-seconds requires --inspect-media or --play-media"@,
                CliModeError::InspectWithDuration =>
                    "--inspect-media cannot be combined with --run-seconds"@,
                CliModeError::InspectWithPlay =>
                    "--inspect-media cannot be combined with --play-media"@,
                CliModeError::MixIncomplete =>
                    "--mix-media-a and --mix-media-b must be supplied together"@,
                CliModeError::DualOutputIncomplete =>
                    "--dual-output-master and --dual-output-cue must be supplied together"@,
                CliModeError::DualOutputWithOtherModes =>
                    "dual-output measurement cannot be combined with other modes"@,
                CliModeError::MixWithOneDeckModes =>
                    "two-deck mixing cannot be combined with media inspection or one-deck playback"@,
            },
    {
        match self {
            CliModeError::ToneWithoutDuration => "--tone-hz requires --run-seconds",
            CliModeError::SeekWithoutMedia => "--seek-seconds requires --inspect-media or --play-media",
            CliModeError::InspectWithDuration => "--inspect-media cannot be combined with --run-seconds",
            CliModeError::InspectWithPlay => "--inspect-media cannot be combined with --play-media",
            CliModeError::MixIncomplete => "--mix-media-a and --mix-media-b must be supplied together",
            CliModeError::DualOutputIncomplete =>
                "--dual-output-master and --dual-output-cue must be supplied together",
            CliModeError::DualOutputWithOtherModes =>
                "dual-output measurement cannot be combined with other modes",
            CliModeError::MixWithOneDeckModes =>
                "two-deck mixing cannot be combined with media inspection or one-deck playback",
        }
    }
}

/// The first rule the supplied options break, in the order they are checked.
pub open spec fn cli_mode_error(m: CliModes) -> Option<CliModeError> {
    if m.tone_hz && !m.run_seconds {
        Some(CliModeError::ToneWithoutDuration)
    } else if m.seek_seconds && !m.inspect_media && !m.play_media {
        Some(CliModeError::SeekWithoutMedia)
    } else if m.inspect_media && m.run_seconds {
        Some(CliModeError::InspectWithDuration)
    } else if m.inspect_media && m.play_media {
        Some(CliModeError::InspectWithPlay)
    } else if m.mix_media_a != m.mix_media_b {
        Some(CliModeError::MixIncomplete)
    } else if m.dual_output_master != m.dual_output_cue {
        Some(CliModeError::DualOutputIncomplete)
    } else if m.dual_output_master && (m.inspect_media || m.play_media || m.mix_media_a
        || m.tone_hz) {
        Some(CliModeError::DualOutputWithOtherModes)
    } else if m.mix_media_a && (m.inspect_media || m.play_media) {
        Some(CliModeError::MixWithOneDeckModes)
    } else {
        None
    }
}

/// Checks that the supplied options can run together.
pub fn check_cli_modes(m: &CliModes) -> (checked: Result<(), CliModeError>)
    ensures
        checked == match cli_mode_error(*m) {
            Some(e) => Err(e),
            None => Ok(()),
        },
{
    if m.tone_hz && !m.run_seconds {
        return Err(CliModeError::ToneWithoutDuration);
    }
    if m.seek_seconds && !m.inspect_media && !m.play_media {
        return Err(CliModeError::SeekWithoutMedia);
    }
    if m.inspect_media && m.run_seconds {
        return Err(CliModeError::InspectWithDuration);
    }
    if m.inspect_media && m.play_media {
        return Err(CliModeError::InspectWithPlay);
    }
    if m.mix_media_a != m.mix_media_b {
        return Err(CliModeError::MixIncomplete);
    }
    if m.dual_output_master != m.dual_output_cue {
        return Err(CliModeError::DualOutputIncomplete);
    }
    if m.dual_output_master && (m.inspect_media || m.play_media || m.mix_media_a || m.tone_hz) {
        return Err(CliModeError::DualOutputWithOtherModes);
    }
    if m.mix_media_a && (m.inspect_media || m.play_media) {
        return Err(CliModeError::MixWithOneDeckModes);
    }
    Ok(())
}

} // verus!
