use djapp_audio_spike::resample::{
    expected_output_frames, ConvertStep, FlushStep, KeptFrames, OutputAccounting,
};

#[test]
fn expected_length_rounds_up() {
    assert_eq!(expected_output_frames(1_000, 48_000, 44_100), 919);
    assert_eq!(expected_output_frames(48_000, 48_000, 44_100), 44_100);
    assert_eq!(expected_output_frames(96_000, 96_000, 48_000), 48_000);
    assert_eq!(expected_output_frames(1, 96_000, 48_000), 1);
    assert_eq!(expected_output_frames(0, 44_100, 48_000), 0);
}

#[test]
fn start_up_delay_is_cut_and_the_stream_ends_at_its_length() {
    let mut accounting = OutputAccounting::new(10);
    assert_eq!(accounting.next_step(false), ConvertStep::ReadSource);
    accounting.source_pushed(1_000);
    assert_eq!(accounting.keep(6), KeptFrames { trimmed: 6, useful: 0 });
    assert_eq!(accounting.keep(500), KeptFrames { trimmed: 4, useful: 496 });
    assert_eq!(accounting.emitted_frames, 496);
    accounting.source_ended(48_000, 44_100);
    assert_eq!(accounting.expected_output_frames, Some(919));
    assert_eq!(accounting.next_step(false), ConvertStep::Flush);
    assert_eq!(accounting.next_step(true), ConvertStep::TakePending);
    assert_eq!(accounting.begin_flush(), FlushStep::Partial);
    assert_eq!(accounting.keep(400), KeptFrames { trimmed: 0, useful: 400 });
    accounting.end_flush(true);
    assert!(!accounting.finished);
    assert_eq!(accounting.begin_flush(), FlushStep::Drain);
    assert_eq!(accounting.keep(400), KeptFrames { trimmed: 0, useful: 23 });
    accounting.end_flush(false);
    assert!(accounting.finished);
    assert_eq!(accounting.emitted_frames, 919);
    assert_eq!(accounting.next_step(false), ConvertStep::Finished);
}

#[test]
fn output_past_the_length_is_dropped() {
    let mut accounting = OutputAccounting::new(0);
    accounting.source_pushed(10);
    assert_eq!(accounting.keep(30), KeptFrames { trimmed: 0, useful: 30 });
    accounting.source_ended(44_100, 44_100);
    assert_eq!(accounting.keep(5), KeptFrames { trimmed: 0, useful: 0 });
    assert_eq!(accounting.begin_flush(), FlushStep::Finished);
    assert!(accounting.finished);
}
