//! The mixer service's bookkeeping between requests: the routing
//! preferences, which output device is in use, how often the service fell
//! back to another device, and the message shown about it. The service
//! loop opens and restarts engines; what it records about each outcome is
//! decided here.
use vstd::prelude::*;
use vstd::string::StringExecFns;

use crate::routing::{
    check_mode_without_engine, clamp_cue_delay, missing_cue_output_text, routing_mode_text,
    RoutingMode, RoutingPreferences, MAX_CUE_DELAY_MS,
};

verus! {

/// A device as the service names it: its id and its display name.
pub struct NamedDevice {
    pub id: String,
    pub name: String,
}

/// What the service remembers between requests.
pub struct ServiceState {
    pub routing: RoutingPreferences,
    pub output_device_id: Option<String>,
    pub output_device_name: Option<String>,
    pub device_recoveries: u64,
    pub device_message: Option<String>,
    pub observed_stream_errors: u64,
}

/// The text of an optional string.
pub open spec fn text_of(value: Option<String>) -> Option<Seq<char>> {
    match value {
        Some(s) => Some(s@),
        None => None,
    }
}

/// A name, or the words used in its place.
pub open spec fn name_or(name: Option<String>, fallback: Seq<char>) -> Seq<char> {
    match name {
        Some(n) => n@,
        None => fallback,
    }
}

/// How a routing request is carried out.
#[derive(Clone, Copy, Debug, PartialEq, Eq, Structural)]
pub enum RoutingPlan {
    /// The open engine is rebuilt with the new preferences; they are kept
    /// only if that succeeds.
    RestartEngine,
    /// The preferences are kept without touching any engine.
    Keep,
}

fn append_name_or(text: &mut String, name: &Option<String>, fallback: &str)
    ensures
        final(text)@ == old(text)@ + name_or(*name, fallback@),
{
    match name {
        Some(n) => text.append(n.as_str()),
        None => text.append(fallback),
    }
}

fn copy_text(value: &Option<String>) -> (copy: Option<String>)
    ensures
        text_of(copy) == text_of(*value),
{
    match value {
        Some(s) => Some(s.clone()),
        None => None,
    }
}

impl ServiceState {
    /// The state of a service that starts on the saved output device with
    /// the saved routing.
    pub fn new(output_device_id: Option<String>, output_device_name: Option<String>, routing: RoutingPreferences) -> (state: ServiceState)
        ensures
            state.routing == routing,
            state.output_device_id == output_device_id,
            state.output_device_name == output_device_name,
            state.device_recoveries == 0,
            state.device_message is None,
            state.observed_stream_errors == 0,
    {
        ServiceState {
            routing,
            output_device_id,
            output_device_name,
            device_recoveries: 0,
            device_message: None,
            observed_stream_errors: 0,
        }
    }

    // -----------------------------------------------------------------------
    // Routing requests
    // -----------------------------------------------------------------------
    /// The preferences a routing-mode request asks for.
    pub fn with_mode(&self, mode: RoutingMode) -> (candidate: RoutingPreferences)
        ensures
            candidate.mode == mode,
            text_of(candidate.cue_output_device_id) == text_of(self.routing.cue_output_device_id),
            candidate.cue_delay_ms == self.routing.cue_delay_ms,
    {
        RoutingPreferences {
            mode,
            cue_output_device_id: copy_text(&self.routing.cue_output_device_id),
            cue_delay_ms: self.routing.cue_delay_ms,
        }
    }

    /// The preferences a cue-device request asks for.
    pub fn with_cue_device(&self, device_id: String) -> (candidate: RoutingPreferences)
        ensures
            candidate.mode == self.routing.mode,
            candidate.cue_output_device_id == Some(device_id),
            candidate.cue_delay_ms == self.routing.cue_delay_ms,
    {
        RoutingPreferences {
            mode: self.routing.mode,
            cue_output_device_id: Some(device_id),
            cue_delay_ms: self.routing.cue_delay_ms,
        }
    }

    /// The preferences a cue-delay request asks for; the delay is capped.
    pub fn with_cue_delay(&self, delay_ms: u32) -> (candidate: RoutingPreferences)
        ensures
            candidate.mode == self.routing.mode,
            text_of(candidate.cue_output_device_id) == text_of(self.routing.cue_output_device_id),
            candidate.cue_delay_ms == if delay_ms > MAX_CUE_DELAY_MS {
                MAX_CUE_DELAY_MS
            } else {
                delay_ms
            },
    {
        RoutingPreferences {
            mode: self.routing.mode,
            cue_output_device_id: copy_text(&self.routing.cue_output_device_id),
            cue_delay_ms: clamp_cue_delay(delay_ms),
        }
    }

    /// How a new routing mode is applied: an open engine is rebuilt; without
    /// one, dual-device cue is refused until a cue device is chosen.
    pub fn plan_mode_change(engine_open: bool, candidate: &RoutingPreferences) -> (plan: Result<RoutingPlan, String>)
        ensures
            match plan {
                Ok(RoutingPlan::RestartEngine) => engine_open,
                Ok(RoutingPlan::Keep) => !engine_open && !(candidate.mode == RoutingMode::DualDeviceCue
                    && candidate.cue_output_device_id is None),
                Err(e) => !engine_open && candidate.mode == RoutingMode::DualDeviceCue
                    && candidate.cue_output_device_id is None && e@ == missing_cue_output_text(),
            },
    {
        if engine_open {
            return Ok(RoutingPlan::RestartEngine);
        }
        match check_mode_without_engine(candidate.mode, &candidate.cue_output_device_id) {
            Ok(()) => Ok(RoutingPlan::Keep),
            Err(e) => Err(e),
        }
    }

    /// How a new cue device or cue delay is applied: it takes a rebuilt
    /// engine only while one is open with dual-device cue selected.
    pub fn plan_cue_change(engine_open: bool, candidate: &RoutingPreferences) -> (plan: RoutingPlan)
        ensures
            plan == if engine_open && candidate.mode == RoutingMode::DualDeviceCue {
                RoutingPlan::RestartEngine
            } else {
                RoutingPlan::Keep
            },
    {
        if engine_open && candidate.mode == RoutingMode::DualDeviceCue {
            RoutingPlan::RestartEngine
        } else {
            RoutingPlan::Keep
        }
    }

    /// A new routing mode took effect.
    pub fn mode_changed(&mut self, candidate: RoutingPreferences)
        ensures
            final(self).routing == candidate,
            text_of(final(self).device_message) == Some(
                "Audio routing changed to "@ + routing_mode_text(candidate.mode) + "."@,
            ),
            final(self).output_device_id == old(self).output_device_id,
            final(self).output_device_name == old(self).output_device_name,
            final(self).device_recoveries == old(self).device_recoveries,
            final(self).observed_stream_errors == old(self).observed_stream_errors,
    {
        let mut message = String::from_str("Audio routing changed to ");
        message.append(candidate.mode.as_str());
        message.append(".");
        self.routing = candidate;
        self.device_message = Some(message);
    }

    /// A new cue device took effect; `name` is its display name, if the
    /// device is known.
    pub fn cue_device_changed(&mut self, candidate: RoutingPreferences, name: Option<String>)
        ensures
            final(self).routing == candidate,
            text_of(final(self).device_message) == Some(
                "Cue output selected: "@ + name_or(name, "selected device"@) + "."@,
            ),
            final(self).output_device_id == old(self).output_device_id,
            final(self).output_device_name == old(self).output_device_name,
            final(self).device_recoveries == old(self).device_recoveries,
            final(self).observed_stream_errors == old(self).observed_stream_errors,
    {
        let mut message = String::from_str("Cue output selected: ");
        append_name_or(&mut message, &name, "selected device");
        message.append(".");
        self.routing = candidate;
        self.device_message = Some(message);
    }

    /// A new cue delay took effect; the message stays as it was.
    pub fn cue_delay_changed(&mut self, candidate: RoutingPreferences)
        ensures
            final(self).routing == candidate,
            final(self).device_message == old(self).device_message,
            final(self).output_device_id == old(self).output_device_id,
            final(self).output_device_name == old(self).output_device_name,
            final(self).device_recoveries == old(self).device_recoveries,
            final(self).observed_stream_errors == old(self).observed_stream_errors,
    {
        self.routing = candidate;
    }

    // -----------------------------------------------------------------------
    // Output devices
    // -----------------------------------------------------------------------
    /// The requested output device is in use; error counting starts over.
    pub fn output_selected(&mut self, device_id: String, name: Option<String>)
        ensures
            final(self).output_device_id == Some(device_id),
            text_of(final(self).output_device_name) == text_of(name),
            text_of(final(self).device_message) == Some(
                "Output changed to "@ + name_or(name, "selected device"@) + "."@,
            ),
            final(self).observed_stream_errors == 0,
            final(self).device_recoveries == old(self).device_recoveries,
            final(self).routing == old(self).routing,
    {
        let mut message = String::from_str("Output changed to ");
        append_name_or(&mut message, &name, "selected device");
        message.append(".");
        self.output_device_id = Some(device_id);
        self.output_device_name = copy_text(&name);
        self.device_message = Some(message);
        self.observed_stream_errors = 0;
    }

    fn use_device(&mut self, device: Option<NamedDevice>)
        ensures
            text_of(final(self).output_device_id) == match device {
                Some(d) => Some(d.id@),
                None => None,
            },
            text_of(final(self).output_device_name) == match device {
                Some(d) => Some(d.name@),
                None => None,
            },
            final(self).routing == old(self).routing,
            final(self).device_recoveries == old(self).device_recoveries,
            final(self).device_message == old(self).device_message,
            final(self).observed_stream_errors == old(self).observed_stream_errors,
    {
        match device {
            Some(d) => {
                self.output_device_id = Some(d.id);
                self.output_device_name = Some(d.name);
            },
            None => {
                self.output_device_id = None;
                self.output_device_name = None;
            },
        }
    }

    /// The requested output device could not be opened. Where an engine is
    /// still open it now plays on the system default device (`fallback`,
    /// if one is known): that counts as a recovery. Without an engine
    /// nothing changes.
    pub fn output_selection_failed(&mut self, engine_open: bool, fallback: Option<NamedDevice>)
        requires
            old(self).device_recoveries < u64::MAX,
        ensures
            final(self).routing == old(self).routing,
            final(self).observed_stream_errors == old(self).observed_stream_errors,
            engine_open ==> {
                &&& text_of(final(self).output_device_id) == match fallback {
                    Some(d) => Some(d.id@),
                    None => None,
                }
                &&& text_of(final(self).output_device_name) == match fallback {
                    Some(d) => Some(d.name@),
                    None => None,
                }
                &&& final(self).device_recoveries == old(self).device_recoveries + 1
                &&& text_of(final(self).device_message) == Some(
                    "Selected output could not be opened; playback was restored on the macOS default output."@,
                )
            },
            !engine_open ==> {
                &&& final(self).output_device_id == old(self).output_device_id
                &&& final(self).output_device_name == old(self).output_device_name
                &&& final(self).device_recoveries == old(self).device_recoveries
                &&& final(self).device_message == old(self).device_message
            },
    {
        if engine_open {
            self.use_device(fallback);
            self.device_recoveries = self.device_recoveries + 1;
            self.device_message = Some(
                String::from_str(
                    "Selected output could not be opened; playback was restored on the macOS default output.",
                ),
            );
        }
    }

    /// The saved output device could not be opened when the first track was
    /// loaded, and the default device (`fallback`, if known) was opened
    /// instead.
    pub fn saved_output_unavailable(&mut self, fallback: Option<NamedDevice>)
        requires
            old(self).device_recoveries < u64::MAX,
        ensures
            text_of(final(self).output_device_id) == match fallback {
                Some(d) => Some(d.id@),
                None => None,
            },
            text_of(final(self).output_device_name) == match fallback {
                Some(d) => Some(d.name@),
                None => None,
            },
            final(self).device_recoveries == old(self).device_recoveries + 1,
            text_of(final(self).device_message) == Some(
                "Saved output was unavailable. Using "@ + match fallback {
                    Some(d) => d.name@,
                    None => "the default output"@,
                } + "."@,
            ),
            final(self).routing == old(self).routing,
            final(self).observed_stream_errors == old(self).observed_stream_errors,
    {
        let mut message = String::from_str("Saved output was unavailable. Using ");
        match &fallback {
            Some(d) => message.append(d.name.as_str()),
            None => message.append("the default output"),
        }
        message.append(".");
        self.use_device(fallback);
        self.device_recoveries = self.device_recoveries + 1;
        self.device_message = Some(message);
    }

    // -----------------------------------------------------------------------
    // Health
    // -----------------------------------------------------------------------
    /// The headphone cue was stopped for `reason`.
    pub fn cue_stopped(&mut self, reason: &str)
        ensures
            text_of(final(self).device_message) == Some(reason@),
            final(self).routing == old(self).routing,
            final(self).output_device_id == old(self).output_device_id,
            final(self).output_device_name == old(self).output_device_name,
            final(self).device_recoveries == old(self).device_recoveries,
            final(self).observed_stream_errors == old(self).observed_stream_errors,
    {
        self.device_message = Some(String::from_str(reason));
    }

    /// The output stream reports `current` errors in all. New errors since
    /// the last look call for a rebuilt engine (`true`); otherwise the count
    /// is remembered.
    pub fn stream_errors_seen(&mut self, current: u64) -> (restart: bool)
        ensures
            restart == (current > old(self).observed_stream_errors),
            final(self).observed_stream_errors == if restart {
                old(self).observed_stream_errors
            } else {
                current
            },
            final(self).routing == old(self).routing,
            final(self).output_device_id == old(self).output_device_id,
            final(self).output_device_name == old(self).output_device_name,
            final(self).device_recoveries == old(self).device_recoveries,
            final(self).device_message == old(self).device_message,
    {
        if current > self.observed_stream_errors {
            true
        } else {
            self.observed_stream_errors = current;
            false
        }
    }

    /// The engine was rebuilt after a stream error; it plays on `active`
    /// (the preferred device when it still exists, else the default one).
    pub fn recovered(&mut self, active: Option<NamedDevice>)
        requires
            old(self).device_recoveries < u64::MAX,
        ensures
            text_of(final(self).output_device_id) == match active {
                Some(d) => Some(d.id@),
                None => None,
            },
            text_of(final(self).output_device_name) == match active {
                Some(d) => Some(d.name@),
                None => None,
            },
            final(self).device_recoveries == old(self).device_recoveries + 1,
            text_of(final(self).device_message) == Some(
                "Audio output recovered after a device error."@,
            ),
            final(self).observed_stream_errors == 0,
            final(self).routing == old(self).routing,
    {
        self.use_device(active);
        self.device_recoveries = self.device_recoveries + 1;
        self.device_message = Some(String::from_str("Audio output recovered after a device error."));
        self.observed_stream_errors = 0;
    }

    /// Rebuilding the engine after a stream error failed with `error`. Where
    /// an engine is open again it plays on the default device (`fallback`,
    /// if known), which counts as a recovery; otherwise only the message
    /// changes.
    pub fn recovery_failed(&mut self, error: String, engine_open: bool, fallback: Option<NamedDevice>)
        requires
            old(self).device_recoveries < u64::MAX,
        ensures
            final(self).device_message == Some(error),
            final(self).routing == old(self).routing,
            engine_open ==> {
                &&& text_of(final(self).output_device_id) == match fallback {
                    Some(d) => Some(d.id@),
                    None => None,
                }
                &&& text_of(final(self).output_device_name) == match fallback {
                    Some(d) => Some(d.name@),
                    None => None,
                }
                &&& final(self).device_recoveries == old(self).device_recoveries + 1
                &&& final(self).observed_stream_errors == 0
            },
            !engine_open ==> {
                &&& final(self).output_device_id == old(self).output_device_id
                &&& final(self).output_device_name == old(self).output_device_name
                &&& final(self).device_recoveries == old(self).device_recoveries
                &&& final(self).observed_stream_errors == old(self).observed_stream_errors
            },
    {
        if engine_open {
            self.use_device(fallback);
            self.device_recoveries = self.device_recoveries + 1;
            self.observed_stream_errors = 0;
        }
        self.device_message = Some(error);
    }
}

} // verus!
