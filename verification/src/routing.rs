//! Audio routing preferences and the decisions the mixer service takes on
//! them: which routing a request may select, when the engine has to be
//! reopened, and when a failing headphone cue is stopped.
use vstd::prelude::*;
use vstd::string::StringExecFns;

use crate::render::f32_less;
use crate::render::f32_lt;
use crate::text::str_eq;

verus! {

#[derive(Clone, Copy, Debug, PartialEq, Eq, Structural)]
pub enum RoutingMode {
    Automatic,
    MasterOnly,
    DualDeviceCue,
}

/// The name under which a routing mode is stored and exchanged.
pub open spec fn routing_mode_text(mode: RoutingMode) -> Seq<char> {
    match mode {
        RoutingMode::Automatic => "automatic"@,
        RoutingMode::MasterOnly => "master-only"@,
        RoutingMode::DualDeviceCue => "dual-device-cue"@,
    }
}

/// Different modes have different names, so a stored name reads back as the
/// mode it was stored from.
pub proof fn lemma_routing_mode_names_distinct(a: RoutingMode, b: RoutingMode)
    ensures
        (routing_mode_text(a) == routing_mode_text(b)) == (a == b),
{
    reveal_strlit("automatic");
    reveal_strlit("master-only");
    reveal_strlit("dual-device-cue");
    if a != b {
        assert(routing_mode_text(a).len() != routing_mode_text(b).len() || routing_mode_text(a)[0]
            != routing_mode_text(b)[0]);
    }
}

impl RoutingMode {
    pub fn parse(value: &str) -> (mode: Result<RoutingMode, String>)
        ensures
            match mode {
                Ok(m) => value@ == routing_mode_text(m),
                Err(e) => {
                    &&& forall|m: RoutingMode| value@ != #[trigger] routing_mode_text(m)
                    &&& e@ == "unknown audio routing mode"@
                },
            },
    {
        if str_eq(value, "automatic") {
            Ok(RoutingMode::Automatic)
        } else if str_eq(value, "master-only") {
            Ok(RoutingMode::MasterOnly)
        } else if str_eq(value, "dual-device-cue") {
            Ok(RoutingMode::DualDeviceCue)
        } else {
            assert forall|m: RoutingMode| value@ != #[trigger] routing_mode_text(m) by {
                match m {
                    RoutingMode::Automatic => {},
                    RoutingMode::MasterOnly => {},
                    RoutingMode::DualDeviceCue => {},
                }
            }
            Err(String::from_str("unknown audio routing mode"))
        }
    }

    pub fn as_str(self) -> (text: &'static str)
        ensures
            text@ == routing_mode_text(self),
    {
        match self {
            RoutingMode::Automatic => "automatic",
            RoutingMode::MasterOnly => "master-only",
            RoutingMode::DualDeviceCue => "dual-device-cue",
        }
    }
}

/// The longest delay, in milliseconds, that can be put on the cue device.
pub const MAX_CUE_DELAY_MS: u32 = 250;

#[derive(Clone, Debug)]
pub struct RoutingPreferences {
    pub mode: RoutingMode,
    pub cue_output_device_id: Option<String>,
    pub cue_delay_ms: u32,
}

/// Automatic routing, no cue device, no cue delay.
impl Default for RoutingPreferences {
    fn default() -> (preferences: RoutingPreferences)
        ensures
            preferences.mode == RoutingMode::Automatic,
            preferences.cue_output_device_id is None,
            preferences.cue_delay_ms == 0,
    {
        RoutingPreferences {
            mode: RoutingMode::Automatic,
            cue_output_device_id: None,
            cue_delay_ms: 0,
        }
    }
}

/// A requested cue delay, capped at `MAX_CUE_DELAY_MS`.
pub fn clamp_cue_delay(delay_ms: u32) -> (clamped: u32)
    ensures
        clamped == if delay_ms > MAX_CUE_DELAY_MS {
            MAX_CUE_DELAY_MS
        } else {
            delay_ms
        },
{
    if delay_ms > MAX_CUE_DELAY_MS {
        MAX_CUE_DELAY_MS
    } else {
        delay_ms
    }
}

pub open spec fn missing_cue_output_text() -> Seq<char> {
    "select a cue output before enabling dual-device cue"@
}

pub open spec fn missing_master_output_text() -> Seq<char> {
    "select a master output before enabling dual-device cue"@
}

/// Whether a routing mode may be selected while no engine is open: dual-device
/// cue needs a cue device to have been chosen first.
pub fn check_mode_without_engine(mode: RoutingMode, cue_output_device_id: &Option<String>) -> (checked:
    Result<(), String>)
    ensures
        match checked {
            Ok(_) => !(mode == RoutingMode::DualDeviceCue && cue_output_device_id.is_none()),
            Err(e) => mode == RoutingMode::DualDeviceCue && cue_output_device_id.is_none()
                && e@ == missing_cue_output_text(),
        },
{
    if mode == RoutingMode::DualDeviceCue && cue_output_device_id.is_none() {
        Err(String::from_str("select a cue output before enabling dual-device cue"))
    } else {
        Ok(())
    }
}

/// A change of the cue device or of the cue delay takes a reopened engine
/// only while dual-device cue is the selected routing.
pub fn cue_change_needs_restart(engine_open: bool, mode: RoutingMode) -> (restart: bool)
    ensures
        restart == (engine_open && mode == RoutingMode::DualDeviceCue),
{
    engine_open && mode == RoutingMode::DualDeviceCue
}

/// The master and cue device ids to open a dual-device engine with.
pub fn dual_cue_devices(master: &Option<String>, cue: &Option<String>) -> (devices: Result<
    (String, String),
    String,
>)
    ensures
        match devices {
            Ok((m, c)) => master == Some(m) && cue == Some(c),
            Err(e) => {
                ||| master.is_none() && e@ == missing_master_output_text()
                ||| master.is_some() && cue.is_none() && e@ == missing_cue_output_text()
            },
        },
{
    match master {
        None => Err(String::from_str("select a master output before enabling dual-device cue")),
        Some(m) => match cue {
            None => Err(String::from_str("select a cue output before enabling dual-device cue")),
            Some(c) => Ok((m.clone(), c.clone())),
        },
    }
}

/// Why a running headphone cue has to stop, if it has to: a stream error, or
/// three or more underflowing or overflowing callbacks.
pub fn cue_health_stop_reason(stream_errors: u64, underflow_callbacks: u64, overflow_callbacks: u64) -> (reason:
    Option<&'static str>)
    ensures
        match reason {
            None => stream_errors == 0 && underflow_callbacks < 3 && overflow_callbacks < 3,
            Some(text) => if stream_errors > 0 {
                text@ == "Headphone cue stopped after a cue-device error; master playback continues."@
            } else {
                (underflow_callbacks >= 3 || overflow_callbacks >= 3) && text@
                    == "Headphone cue stopped after repeated buffer instability; master playback continues."@
            },
        },
{
    if stream_errors > 0 {
        Some("Headphone cue stopped after a cue-device error; master playback continues.")
    } else if underflow_callbacks >= 3 || overflow_callbacks >= 3 {
        Some("Headphone cue stopped after repeated buffer instability; master playback continues.")
    } else {
        None
    }
}

/// The routing the open engine actually provides.
pub fn active_routing_mode(dual_cue_active: bool, cue_supported: bool) -> (text: &'static str)
    ensures
        text@ == if dual_cue_active {
            "dual-device-cue"@
        } else if cue_supported {
            "single-device-cue"@
        } else {
            "master-only"@
        },
{
    if dual_cue_active {
        "dual-device-cue"
    } else if cue_supported {
        "single-device-cue"
    } else {
        "master-only"
    }
}

/// What the user is told about headphone cue on the open engine.
pub fn routing_limitation(dual_cue_active: bool, cue_supported: bool) -> (text: Option<&'static str>)
    ensures
        match text {
            None => cue_supported,
            Some(t) => !cue_supported && t@ == if dual_cue_active {
                "Dual-device cue stopped; master playback remains active."@
            } else {
                "Stereo headphone cue requires a four-channel output or an approved dual-device pair."@
            },
        },
{
    if cue_supported {
        None
    } else if dual_cue_active {
        Some("Dual-device cue stopped; master playback remains active.")
    } else {
        Some("Stereo headphone cue requires a four-channel output or an approved dual-device pair.")
    }
}

/// The crossfader position, as a binary32 pattern, beyond which a deck
/// counts as faded out: 0.05.
pub const CUE_FADE_THRESHOLD: u32 = 0x3d4c_cccd;

/// The pattern of -0.05.
pub const NEGATIVE_CUE_FADE_THRESHOLD: u32 = 0xbd4c_cccd;

/// Which decks the headphones follow automatically: the one the crossfader
/// fades out, once it is past 0.05 to either side (the crossfader as a
/// binary32 pattern; the result is cue A, cue B).
pub fn automatic_cue_selection(crossfader: u32) -> (cue: (bool, bool))
    ensures
        cue == if f32_lt(crossfader, NEGATIVE_CUE_FADE_THRESHOLD) {
            (false, true)
        } else if f32_lt(CUE_FADE_THRESHOLD, crossfader) {
            (true, false)
        } else {
            (false, false)
        },
{
    if f32_less(crossfader, NEGATIVE_CUE_FADE_THRESHOLD) {
        (false, true)
    } else if f32_less(CUE_FADE_THRESHOLD, crossfader) {
        (true, false)
    } else {
        (false, false)
    }
}

} // verus!
