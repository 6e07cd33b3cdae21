use djapp_audio_spike::device::{
    choose_output_config, max_channel_count, ConfigCandidate, OutputDeviceInfo,
};
use djapp_audio_spike::routing::{
    active_routing_mode, automatic_cue_selection, check_mode_without_engine, clamp_cue_delay, cue_change_needs_restart,
    cue_health_stop_reason, dual_cue_devices, routing_limitation, RoutingMode,
    RoutingPreferences, MAX_CUE_DELAY_MS,
};

#[test]
fn routing_capability_thresholds_are_explicit() {
    for (channels, master, cue) in [
        (1, false, false),
        (2, true, false),
        (4, true, true),
        (8, true, true),
    ] {
        let info = OutputDeviceInfo::describe(
            "id".to_string(),
            "Device".to_string(),
            false,
            "USB".to_string(),
            2,
            channels,
            48_000,
        );
        assert_eq!(channels >= 2, master);
        assert_eq!(channels >= 4, cue);
        assert_eq!(info.stereo_master_supported, master);
        assert_eq!(info.stereo_cue_supported, cue);
    }
}

#[test]
fn device_description_states_its_routing() {
    let stereo = OutputDeviceInfo::describe(
        "a".to_string(),
        "Speakers".to_string(),
        true,
        "Built-in".to_string(),
        2,
        2,
        44_100,
    );
    assert_eq!(stereo.routing_mode, "master-only");
    assert_eq!(
        stereo.limitation.as_deref(),
        Some("Stereo headphone cue requires one output device with at least four channels.")
    );
    let quad = OutputDeviceInfo::describe(
        "b".to_string(),
        "Interface".to_string(),
        false,
        "USB".to_string(),
        4,
        4,
        48_000,
    );
    assert_eq!(quad.routing_mode, "master-and-cue");
    assert_eq!(quad.limitation, None);
}

#[test]
fn widest_configuration_is_found() {
    assert_eq!(max_channel_count(&[2, 6, 4], 2), 6);
    assert_eq!(max_channel_count(&[], 2), 2);
}

fn candidate(channels: u16, float_samples: bool, min: u32, max: u32) -> ConfigCandidate {
    ConfigCandidate {
        channels,
        float_samples,
        min_sample_rate: min,
        max_sample_rate: max,
    }
}

#[test]
fn output_configuration_prefers_channels_then_float_samples() {
    let candidates = [
        candidate(2, true, 44_100, 48_000),
        candidate(4, false, 44_100, 96_000),
        candidate(4, true, 44_100, 96_000),
        candidate(4, true, 8_000, 32_000),
    ];
    // The last of the equally preferred four-channel float configurations.
    assert_eq!(choose_output_config(&candidates, 44_100), Some((3, 32_000)));
    assert_eq!(choose_output_config(&candidates[..3], 44_100), Some((2, 44_100)));
    assert_eq!(
        choose_output_config(&[candidate(8, false, 96_000, 192_000)], 44_100),
        Some((0, 48_000))
    );
    assert_eq!(choose_output_config(&candidates[..1], 44_100), None);
}

#[test]
fn routing_mode_names_round_trip() {
    for mode in [
        RoutingMode::Automatic,
        RoutingMode::MasterOnly,
        RoutingMode::DualDeviceCue,
    ] {
        assert_eq!(RoutingMode::parse(mode.as_str()), Ok(mode));
    }
    assert_eq!(
        RoutingMode::parse("stereo"),
        Err("unknown audio routing mode".to_string())
    );
}

#[test]
fn routing_preferences_default_to_automatic() {
    let preferences = RoutingPreferences::default();
    assert_eq!(preferences.mode, RoutingMode::Automatic);
    assert_eq!(preferences.cue_output_device_id, None);
    assert_eq!(preferences.cue_delay_ms, 0);
}

#[test]
fn cue_delay_is_capped() {
    assert_eq!(clamp_cue_delay(30), 30);
    assert_eq!(clamp_cue_delay(MAX_CUE_DELAY_MS), MAX_CUE_DELAY_MS);
    assert_eq!(clamp_cue_delay(10_000), 250);
}

#[test]
fn dual_device_cue_needs_both_devices() {
    assert_eq!(
        check_mode_without_engine(RoutingMode::DualDeviceCue, &None),
        Err("select a cue output before enabling dual-device cue".to_string())
    );
    assert_eq!(
        check_mode_without_engine(RoutingMode::DualDeviceCue, &Some("cue".to_string())),
        Ok(())
    );
    assert_eq!(check_mode_without_engine(RoutingMode::MasterOnly, &None), Ok(()));
    assert_eq!(
        dual_cue_devices(&None, &Some("cue".to_string())),
        Err("select a master output before enabling dual-device cue".to_string())
    );
    assert_eq!(
        dual_cue_devices(&Some("main".to_string()), &None),
        Err("select a cue output before enabling dual-device cue".to_string())
    );
    assert_eq!(
        dual_cue_devices(&Some("main".to_string()), &Some("cue".to_string())),
        Ok(("main".to_string(), "cue".to_string()))
    );
    assert!(cue_change_needs_restart(true, RoutingMode::DualDeviceCue));
    assert!(!cue_change_needs_restart(false, RoutingMode::DualDeviceCue));
    assert!(!cue_change_needs_restart(true, RoutingMode::Automatic));
}

#[test]
fn unhealthy_cue_is_stopped_with_a_reason() {
    assert_eq!(cue_health_stop_reason(0, 2, 2), None);
    assert_eq!(
        cue_health_stop_reason(1, 0, 0),
        Some("Headphone cue stopped after a cue-device error; master playback continues.")
    );
    assert_eq!(
        cue_health_stop_reason(0, 3, 0),
        Some("Headphone cue stopped after repeated buffer instability; master playback continues.")
    );
    assert_eq!(
        cue_health_stop_reason(0, 0, 3),
        Some("Headphone cue stopped after repeated buffer instability; master playback continues.")
    );
}

#[test]
fn snapshot_routing_reports_what_the_engine_provides() {
    assert_eq!(active_routing_mode(true, true), "dual-device-cue");
    assert_eq!(active_routing_mode(false, true), "single-device-cue");
    assert_eq!(active_routing_mode(false, false), "master-only");
    assert_eq!(routing_limitation(false, true), None);
    assert_eq!(
        routing_limitation(true, false),
        Some("Dual-device cue stopped; master playback remains active.")
    );
    assert_eq!(
        routing_limitation(false, false),
        Some("Stereo headphone cue requires a four-channel output or an approved dual-device pair.")
    );
}

fn cue_for(crossfader: f32) -> (bool, bool) {
    automatic_cue_selection(crossfader.to_bits())
}

#[test]
fn crossfader_automatically_cues_the_deck_outside_the_master() {
    assert_eq!(cue_for(-1.0), (false, true));
    assert_eq!(cue_for(-0.06), (false, true));
    assert_eq!(cue_for(0.0), (false, false));
    assert_eq!(cue_for(0.05), (false, false));
    assert_eq!(cue_for(0.06), (true, false));
    assert_eq!(cue_for(1.0), (true, false));
    assert_eq!(cue_for(-0.05), (false, false));
    assert_eq!(cue_for(f32::NAN), (false, false));
}
