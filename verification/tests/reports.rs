use djapp_audio_spike::audio::{CommandQueueFull, ProbeReport};
use djapp_audio_spike::deck::{DeckControlError, DeckSnapshot, DeckState};
use djapp_audio_spike::dual_output::{
    sample_is_printed, signed_difference, DriftTracker, DualOutputReport,
};
use djapp_audio_spike::mixer::{cue_supported_for_channels, MixerControlError, MixerSnapshot};
use djapp_audio_spike::tempo::TempoError;

#[test]
fn report_summary_contains_health_counters() {
    let report = ProbeReport {
        callbacks: 10,
        samples: 5_120,
        commands: 2,
        stream_errors: 0,
        stopped: true,
    };

    assert_eq!(
        report.summary(),
        "Callback report: callbacks=10, samples=5120, commands=2, stream_errors=0, stopped=true"
    );
}

#[test]
fn signed_frame_difference_handles_both_directions() {
    assert_eq!(signed_difference(10, 4), 6);
    assert_eq!(signed_difference(4, 10), -6);
}

#[test]
fn report_summary_contains_drift_and_health() {
    let report = DualOutputReport {
        master_name: "Speakers".to_string(),
        cue_name: "Headphones".to_string(),
        sample_rate: 44_100,
        duration_seconds: 30,
        master_callbacks: 100,
        cue_callbacks: 110,
        master_frames: 1_323_000,
        cue_frames: 1_323_010,
        master_stream_errors: 0,
        cue_stream_errors: 0,
        final_drift_frames: -10,
        maximum_absolute_drift_frames: 512,
        samples: Vec::new(),
    };
    assert!(report.summary().contains("final_drift_frames=-10"));
    assert!(report.summary().contains("max_abs_drift_frames=512"));
}

#[test]
fn signed_difference_saturates_at_the_i64_range() {
    assert_eq!(signed_difference(u64::MAX, 0), i64::MAX);
    assert_eq!(signed_difference(0, u64::MAX), i64::MIN);
    assert_eq!(signed_difference(7, 7), 0);
}

#[test]
fn drift_tracker_measures_against_the_baseline() {
    let mut tracker = DriftTracker::new(5);
    tracker.record(1, 1_000, 990);
    tracker.record(2, 2_000, 2_010);
    tracker.record(3, 3_000, 2_996);
    assert_eq!(tracker.samples.len(), 3);
    assert_eq!(tracker.samples[0].relative_frames, 10);
    assert_eq!(tracker.samples[0].drift_from_baseline_frames, 5);
    assert_eq!(tracker.samples[1].relative_frames, -10);
    assert_eq!(tracker.samples[1].drift_from_baseline_frames, -15);
    assert_eq!(tracker.samples[2].drift_from_baseline_frames, -1);
    assert_eq!(tracker.maximum_absolute_drift_frames, 15);
    let report = tracker.finish(
        "Speakers".to_string(),
        "Headphones".to_string(),
        48_000,
        3,
        300,
        301,
        0,
        1,
    );
    assert_eq!(report.final_drift_frames, -1);
    assert_eq!(report.master_frames, 3_000);
    assert_eq!(report.cue_frames, 2_996);
    assert_eq!(report.maximum_absolute_drift_frames, 15);
    assert_eq!(report.samples.len(), 3);
}

#[test]
fn empty_drift_tracker_reports_zero_frames() {
    let report = DriftTracker::new(0).finish(
        "a".to_string(),
        "b".to_string(),
        44_100,
        0,
        0,
        0,
        0,
        0,
    );
    assert_eq!(report.final_drift_frames, 0);
    assert_eq!(report.master_frames, 0);
    assert_eq!(report.cue_frames, 0);
    assert!(report.samples.is_empty());
}

#[test]
fn dual_output_summary_lists_every_counter() {
    let report = DualOutputReport {
        master_name: "Speakers".to_string(),
        cue_name: "Headphones".to_string(),
        sample_rate: 44_100,
        duration_seconds: 30,
        master_callbacks: 100,
        cue_callbacks: 110,
        master_frames: 1_323_000,
        cue_frames: 1_323_010,
        master_stream_errors: 0,
        cue_stream_errors: 2,
        final_drift_frames: -10,
        maximum_absolute_drift_frames: 512,
        samples: Vec::new(),
    };
    let summary = report.summary();
    assert!(summary.contains("Speakers"));
    assert!(summary.contains("Headphones"));
    assert!(summary.contains("1323010"));
    assert!(summary.contains("cue_errors=2"));
}

#[test]
fn long_runs_print_only_landmark_samples() {
    assert!(sample_is_printed(120, 77));
    assert!(sample_is_printed(600, 1));
    assert!(sample_is_printed(600, 120));
    assert!(sample_is_printed(600, 600));
    assert!(!sample_is_printed(600, 2));
    assert!(!sample_is_printed(600, 599));
}

fn deck(state: DeckState, generation: u64, worker_error: Option<&str>) -> DeckSnapshot {
    DeckSnapshot {
        state,
        position_frames: 480,
        rendered_frames: 512,
        callbacks: 4,
        underflow_callbacks: 1,
        stale_blocks: 0,
        recycle_failures: 0,
        stream_errors: 0,
        generation,
        worker_error: worker_error.map(str::to_string),
    }
}

#[test]
fn deck_summary_lists_state_counters_and_worker_error() {
    assert_eq!(
        deck(DeckState::Playing, 2, None).summary(),
        "Deck report: state=Playing, generation=2, position_frames=480, rendered_frames=512, callbacks=4, underflow_callbacks=1, stale_blocks=0, recycle_failures=0, stream_errors=0, worker_error=none"
    );
    assert!(deck(DeckState::Ended, 1, Some("decode failed"))
        .summary()
        .ends_with("worker_error=decode failed"));
}

#[test]
fn deck_state_follows_generations_and_playing_flag() {
    assert_eq!(DeckState::from_metrics(3, 3, false), DeckState::Ended);
    assert_eq!(DeckState::from_metrics(3, 2, true), DeckState::Playing);
    assert_eq!(DeckState::from_metrics(3, 2, false), DeckState::Paused);
    assert_eq!(DeckState::Paused.name(), "Paused");
}

#[test]
fn mixer_summary_nests_both_deck_reports() {
    let snapshot = MixerSnapshot {
        deck_a: deck(DeckState::Playing, 1, None),
        deck_b: deck(DeckState::Paused, 1, None),
        callbacks: 9,
        clipped_samples: 3,
        stream_errors: 0,
    };
    let summary = snapshot.summary();
    assert!(summary.starts_with("Mixer report: callbacks=9, clipped_samples=3, stream_errors=0, deck_a=[Deck report: state=Playing"));
    assert!(summary.contains("], deck_b=[Deck report: state=Paused"));
    assert!(summary.ends_with("]"));
}

#[test]
fn error_messages_match_their_variants() {
    assert_eq!(CommandQueueFull.message(), "audio command queue is full");
    assert_eq!(DeckControlError::QueueFull.message(), "deck control queue is full");
    assert_eq!(
        DeckControlError::InvalidSeek.message(),
        "seek must be finite and non-negative"
    );
    assert_eq!(DeckControlError::WorkerStopped.message(), "decoder worker has stopped");
    assert!(!MixerControlError::DeckUnloaded.message().is_empty());
    assert_eq!(
        TempoError::InvalidSetting.message(),
        "tempo or pitch setting is out of range"
    );
    assert_eq!(
        TempoError::FormatChanged.message(),
        "audio format changed during tempo processing"
    );
}

#[test]
fn cue_needs_four_output_channels() {
    assert!(!cue_supported_for_channels(2));
    assert!(cue_supported_for_channels(4));
    assert!(cue_supported_for_channels(6));
}
