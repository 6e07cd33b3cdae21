use djapp_audio_spike::cli::{
    check_cli_modes, missing_value_message, parse_flag, parse_run_seconds, parse_whole_number,
    CliFlag, CliModeError, CliModes, RunSecondsError,
};

fn modes() -> CliModes {
    CliModes {
        run_seconds: false,
        tone_hz: false,
        seek_seconds: false,
        inspect_media: false,
        play_media: false,
        mix_media_a: false,
        mix_media_b: false,
        dual_output_master: false,
        dual_output_cue: false,
    }
}

#[test]
fn flags_are_recognised() {
    assert_eq!(parse_flag("--run-seconds"), Some(CliFlag::RunSeconds));
    assert_eq!(parse_flag("--tone-hz"), Some(CliFlag::ToneHz));
    assert_eq!(parse_flag("--dual-output-cue"), Some(CliFlag::DualOutputCue));
    assert_eq!(parse_flag("-h"), Some(CliFlag::Help));
    assert_eq!(parse_flag("--help"), Some(CliFlag::Help));
    assert_eq!(parse_flag("--run-second"), None);
    assert_eq!(parse_flag(""), None);
    assert_eq!(CliFlag::MixMediaB.name(), "--mix-media-b");
    assert!(CliFlag::Gain.takes_value());
    assert!(!CliFlag::Help.takes_value());
    assert_eq!(
        missing_value_message(CliFlag::SeekSeconds.name()),
        "--seek-seconds requires a value"
    );
}

#[test]
fn whole_numbers_read_as_the_standard_library_does() {
    assert_eq!(parse_whole_number("4"), Some(4));
    assert_eq!(parse_whole_number("+30"), Some(30));
    assert_eq!(parse_whole_number("007"), Some(7));
    assert_eq!(parse_whole_number("18446744073709551615"), Some(u64::MAX));
    for text in ["", "+", "-1", " 4", "4 ", "4.0", "18446744073709551616", "99999999999999999999x"] {
        assert_eq!(parse_whole_number(text), text.parse::<u64>().ok(), "{text:?}");
    }
}

#[test]
fn run_seconds_must_be_a_positive_whole_number() {
    assert_eq!(parse_run_seconds("4"), Ok(4));
    assert_eq!(parse_run_seconds("0"), Err(RunSecondsError::Zero));
    assert_eq!(parse_run_seconds("four"), Err(RunSecondsError::NotAWholeNumber));
    assert_eq!(
        RunSecondsError::NotAWholeNumber.message(),
        "--run-seconds must be a positive integer"
    );
    assert_eq!(
        RunSecondsError::Zero.message(),
        "--run-seconds must be greater than zero"
    );
}

#[test]
fn parses_run_options() {
    let mut m = modes();
    m.run_seconds = true;
    m.tone_hz = true;
    assert_eq!(parse_run_seconds("4"), Ok(4));
    assert_eq!(check_cli_modes(&m), Ok(()));
}

#[test]
fn rejects_tone_without_duration() {
    let mut m = modes();
    m.tone_hz = true;
    let error = check_cli_modes(&m).unwrap_err();
    assert_eq!(error.message(), "--tone-hz requires --run-seconds");
}

#[test]
fn parses_media_inspection_options() {
    let mut m = modes();
    m.inspect_media = true;
    m.seek_seconds = true;
    assert_eq!(check_cli_modes(&m), Ok(()));
}

#[test]
fn parses_deck_playback_options() {
    let mut m = modes();
    m.play_media = true;
    m.run_seconds = true;
    assert_eq!(parse_run_seconds("5"), Ok(5));
    assert_eq!(check_cli_modes(&m), Ok(()));
}

#[test]
fn parses_two_deck_options() {
    let mut m = modes();
    m.mix_media_a = true;
    m.mix_media_b = true;
    assert_eq!(check_cli_modes(&m), Ok(()));
}

#[test]
fn parses_dual_output_measurement_options() {
    let mut m = modes();
    m.dual_output_master = true;
    m.dual_output_cue = true;
    m.run_seconds = true;
    assert_eq!(parse_run_seconds("30"), Ok(30));
    assert_eq!(check_cli_modes(&m), Ok(()));
}

#[test]
fn incompatible_modes_are_refused_in_order() {
    let mut m = modes();
    m.seek_seconds = true;
    assert_eq!(check_cli_modes(&m), Err(CliModeError::SeekWithoutMedia));
    let mut m = modes();
    m.inspect_media = true;
    m.run_seconds = true;
    assert_eq!(check_cli_modes(&m), Err(CliModeError::InspectWithDuration));
    let mut m = modes();
    m.inspect_media = true;
    m.play_media = true;
    assert_eq!(check_cli_modes(&m), Err(CliModeError::InspectWithPlay));
    let mut m = modes();
    m.mix_media_a = true;
    assert_eq!(check_cli_modes(&m), Err(CliModeError::MixIncomplete));
    let mut m = modes();
    m.dual_output_cue = true;
    assert_eq!(check_cli_modes(&m), Err(CliModeError::DualOutputIncomplete));
    let mut m = modes();
    m.dual_output_master = true;
    m.dual_output_cue = true;
    m.play_media = true;
    assert_eq!(check_cli_modes(&m), Err(CliModeError::DualOutputWithOtherModes));
    let mut m = modes();
    m.mix_media_a = true;
    m.mix_media_b = true;
    m.play_media = true;
    assert_eq!(check_cli_modes(&m), Err(CliModeError::MixWithOneDeckModes));
    assert_eq!(
        CliModeError::MixWithOneDeckModes.message(),
        "two-deck mixing cannot be combined with media inspection or one-deck playback"
    );
    // The first broken rule is the one reported.
    let mut m = modes();
    m.tone_hz = true;
    m.seek_seconds = true;
    assert_eq!(check_cli_modes(&m), Err(CliModeError::ToneWithoutDuration));
}
