use djapp_audio_spike::mixer_service::{NamedDevice, RoutingPlan, ServiceState};
use djapp_audio_spike::routing::{RoutingMode, RoutingPreferences};

fn device(id: &str, name: &str) -> NamedDevice {
    NamedDevice {
        id: id.to_string(),
        name: name.to_string(),
    }
}

#[test]
fn unloaded_service_keeps_routing_requests() {
    let mut state = ServiceState::new(None, None, RoutingPreferences::default());
    let candidate = state.with_mode(RoutingMode::DualDeviceCue);
    assert_eq!(
        ServiceState::plan_mode_change(false, &candidate),
        Err("select a cue output before enabling dual-device cue".to_string())
    );

    let candidate = state.with_cue_device("cue-device".to_string());
    assert_eq!(ServiceState::plan_cue_change(false, &candidate), RoutingPlan::Keep);
    state.cue_device_changed(candidate, None);
    assert_eq!(state.device_message.as_deref(), Some("Cue output selected: selected device."));

    let candidate = state.with_mode(RoutingMode::DualDeviceCue);
    assert_eq!(ServiceState::plan_mode_change(false, &candidate), Ok(RoutingPlan::Keep));
    state.mode_changed(candidate);
    assert_eq!(state.routing.mode.as_str(), "dual-device-cue");
    assert_eq!(state.routing.cue_output_device_id.as_deref(), Some("cue-device"));
    assert_eq!(
        state.device_message.as_deref(),
        Some("Audio routing changed to dual-device-cue.")
    );

    let candidate = state.with_cue_delay(300);
    assert_eq!(candidate.cue_delay_ms, 250);
    assert_eq!(ServiceState::plan_cue_change(false, &candidate), RoutingPlan::Keep);
    state.cue_delay_changed(candidate);
    assert_eq!(state.routing.cue_delay_ms, 250);
}

#[test]
fn open_engines_are_rebuilt_for_routing_changes() {
    let state = ServiceState::new(
        Some("main".to_string()),
        Some("Speakers".to_string()),
        RoutingPreferences::default(),
    );
    let candidate = state.with_mode(RoutingMode::MasterOnly);
    assert_eq!(
        ServiceState::plan_mode_change(true, &candidate),
        Ok(RoutingPlan::RestartEngine)
    );
    let candidate = state.with_cue_delay(40);
    assert_eq!(ServiceState::plan_cue_change(true, &candidate), RoutingPlan::Keep);
    let dual = RoutingPreferences {
        mode: RoutingMode::DualDeviceCue,
        cue_output_device_id: Some("cue".to_string()),
        cue_delay_ms: 0,
    };
    assert_eq!(ServiceState::plan_cue_change(true, &dual), RoutingPlan::RestartEngine);
}

#[test]
fn device_changes_and_recoveries_are_recorded() {
    let mut state = ServiceState::new(Some("saved".to_string()), None, RoutingPreferences::default());
    state.saved_output_unavailable(Some(device("default", "Speakers")));
    assert_eq!(state.output_device_id.as_deref(), Some("default"));
    assert_eq!(state.output_device_name.as_deref(), Some("Speakers"));
    assert_eq!(state.device_recoveries, 1);
    assert_eq!(
        state.device_message.as_deref(),
        Some("Saved output was unavailable. Using Speakers.")
    );

    state.output_selected("usb".to_string(), Some("Interface".to_string()));
    assert_eq!(state.device_message.as_deref(), Some("Output changed to Interface."));
    assert_eq!(state.observed_stream_errors, 0);

    assert!(!state.stream_errors_seen(0));
    assert!(state.stream_errors_seen(2));
    state.recovered(None);
    assert_eq!(state.device_recoveries, 2);
    assert_eq!(state.output_device_id, None);
    assert_eq!(
        state.device_message.as_deref(),
        Some("Audio output recovered after a device error.")
    );

    state.output_selection_failed(true, Some(device("default", "Speakers")));
    assert_eq!(state.device_recoveries, 3);
    assert_eq!(
        state.device_message.as_deref(),
        Some("Selected output could not be opened; playback was restored on the macOS default output.")
    );
    state.output_selection_failed(false, None);
    assert_eq!(state.device_recoveries, 3);
    assert_eq!(state.output_device_id.as_deref(), Some("default"));

    state.recovery_failed("no device".to_string(), false, None);
    assert_eq!(state.device_recoveries, 3);
    assert_eq!(state.device_message.as_deref(), Some("no device"));
    state.recovery_failed("fell back".to_string(), true, Some(device("d", "Default")));
    assert_eq!(state.device_recoveries, 4);
    assert_eq!(state.output_device_name.as_deref(), Some("Default"));

    state.cue_stopped("Headphone cue stopped");
    assert_eq!(state.device_message.as_deref(), Some("Headphone cue stopped"));
}

#[test]
fn stream_error_counts_are_remembered_until_they_grow() {
    let mut state = ServiceState::new(None, None, RoutingPreferences::default());
    assert!(!state.stream_errors_seen(0));
    assert!(state.stream_errors_seen(1));
    assert_eq!(state.observed_stream_errors, 0);
}
