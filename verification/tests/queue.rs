use djapp_audio_spike::analysis::service::{
    check_result, validate_identity, AnalysisQueue, AnalysisServiceError, CancellationToken,
    ResultFigures,
};
use djapp_audio_spike::analysis::types::{MusicalKey, MusicalMode, TrackIdentity};

fn track(track_id: i64, path: &str, file_size: u64) -> TrackIdentity {
    TrackIdentity {
        track_id,
        path: path.to_string(),
        file_size,
        modified_at_ms: 10,
        content_fingerprint: None,
    }
}

fn enqueue(queue: &mut AnalysisQueue, track: TrackIdentity) -> Result<bool, AnalysisServiceError> {
    queue.check_enqueue(&track)?;
    Ok(queue.commit_enqueue(track))
}

#[test]
fn queue_capacity_must_be_positive() {
    assert!(matches!(
        AnalysisQueue::new(0),
        Err(AnalysisServiceError::InvalidCapacity)
    ));
    assert!(AnalysisQueue::new(1).is_ok());
}

#[test]
fn invalid_identities_are_refused() {
    let queue = AnalysisQueue::new(4).unwrap();
    assert_eq!(validate_identity(&track(0, "/a.wav", 1)), Err(AnalysisServiceError::InvalidTrack));
    assert_eq!(validate_identity(&track(1, "", 1)), Err(AnalysisServiceError::InvalidTrack));
    assert_eq!(validate_identity(&track(1, "/a.wav", 0)), Err(AnalysisServiceError::InvalidTrack));
    assert_eq!(validate_identity(&track(1, "/a.wav", 1)), Ok(()));
    assert_eq!(
        queue.check_enqueue(&track(-1, "/a.wav", 1)),
        Err(AnalysisServiceError::InvalidTrack)
    );
}

#[test]
fn queued_duplicate_identity_is_rejected() {
    let mut queue = AnalysisQueue::new(4).unwrap();
    let first = track(1, "/music/duplicate.wav", 100);
    assert_eq!(enqueue(&mut queue, first.clone()), Ok(false));
    assert_eq!(
        queue.check_enqueue(&first),
        Err(AnalysisServiceError::AlreadyQueued)
    );
    let (running, _token) = queue.start_next().unwrap();
    assert_eq!(running, first);
    assert_eq!(
        queue.check_enqueue(&first),
        Err(AnalysisServiceError::AlreadyQueued)
    );
}

#[test]
fn changed_queued_identity_replaces_stale_version() {
    let mut queue = AnalysisQueue::new(2).unwrap();
    let blocking = track(1, "/music/blocking.wav", 100);
    let stale = track(2, "/music/replaced.wav", 101);
    let mut current = stale.clone();
    current.file_size = 202;
    current.modified_at_ms = 20;
    enqueue(&mut queue, blocking.clone()).unwrap();
    let (running, _) = queue.start_next().unwrap();
    assert_eq!(running.file_size, 100);
    enqueue(&mut queue, stale).unwrap();
    assert!(queue.replacement_pending(2));
    assert_eq!(queue.check_enqueue(&current), Ok(true));
    assert_eq!(queue.commit_enqueue(current.clone()), false);
    assert_eq!(queue.queue_position(2), Some(1));
    queue.finish_active();
    let (next, _) = queue.start_next().unwrap();
    assert_eq!(next.file_size, 202);
    assert!(queue.start_next().is_none());
}

#[test]
fn newer_version_cancels_running_analysis_of_the_track() {
    let mut queue = AnalysisQueue::new(2).unwrap();
    let old = track(7, "/music/a.wav", 100);
    enqueue(&mut queue, old.clone()).unwrap();
    let (_, token) = queue.start_next().unwrap();
    assert!(!token.is_cancelled());
    let mut newer = old;
    newer.file_size = 150;
    assert_eq!(enqueue(&mut queue, newer), Ok(true));
    assert!(token.is_cancelled());
}

#[test]
fn bounded_queue_rejects_excess_work_and_shutdown_cancels_pending() {
    let mut queue = AnalysisQueue::new(1).unwrap();
    let first = track(1, "/music/first.wav", 100);
    let second = track(2, "/music/second.wav", 101);
    let third = track(3, "/music/third.wav", 102);
    enqueue(&mut queue, first).unwrap();
    let (_, running) = queue.start_next().unwrap();
    enqueue(&mut queue, second.clone()).unwrap();
    assert_eq!(
        queue.check_enqueue(&third),
        Err(AnalysisServiceError::QueueFull)
    );
    queue.begin_shutdown();
    assert!(running.is_cancelled());
    assert_eq!(
        queue.check_enqueue(&third),
        Err(AnalysisServiceError::ShuttingDown)
    );
    let drained = queue.drain();
    assert_eq!(drained, vec![second]);
    assert_eq!(queue.queue_position(2), None);
}

#[test]
fn cancel_removes_queued_jobs_and_flags_the_running_one() {
    let mut queue = AnalysisQueue::new(4).unwrap();
    enqueue(&mut queue, track(1, "/a.wav", 1)).unwrap();
    enqueue(&mut queue, track(2, "/b.wav", 1)).unwrap();
    enqueue(&mut queue, track(3, "/c.wav", 1)).unwrap();
    let (_, running) = queue.start_next().unwrap();
    let outcome = queue.cancel(2);
    assert!(outcome.removed_queued);
    assert!(!outcome.cancelled_active);
    assert_eq!(queue.queue_position(2), None);
    assert!(!queue.replacement_pending(2));
    assert_eq!(queue.queue_position(3), Some(1));
    let outcome = queue.cancel(1);
    assert!(!outcome.removed_queued);
    assert!(outcome.cancelled_active);
    assert!(running.is_cancelled());
    let outcome = queue.cancel(9);
    assert!(!outcome.removed_queued && !outcome.cancelled_active);
}

#[test]
fn cancellation_tokens_share_one_flag() {
    let token = CancellationToken::new();
    let shared = token.share();
    assert!(!shared.is_cancelled());
    token.cancel();
    assert!(shared.is_cancelled());
}

#[test]
fn service_error_messages() {
    assert_eq!(AnalysisServiceError::QueueFull.message(), "analysis queue is full");
    assert_eq!(
        AnalysisServiceError::Persistence("disk".to_string()).message(),
        "analysis persistence failed: disk"
    );
    assert_eq!(
        AnalysisServiceError::Processing("boom".to_string()).message(),
        "analysis failed: boom"
    );
}

fn figures() -> ResultFigures {
    ResultFigures {
        analysis_version: 1,
        bpm: Some((120.0_f64.to_bits(), 0.8_f32.to_bits())),
        musical_key: Some((MusicalKey::new(9, MusicalMode::Minor).unwrap(), 0.7_f32.to_bits())),
        integrated_lufs: Some((-9.5_f64).to_bits()),
        true_peak_dbtp: Some((-0.3_f64).to_bits()),
    }
}

#[test]
fn finished_results_are_checked_before_they_are_stored() {
    assert_eq!(check_result(&figures()), Ok(()));
    let mut r = figures();
    r.analysis_version = 2;
    assert_eq!(check_result(&r), Err(AnalysisServiceError::InvalidResult));
    let mut r = figures();
    r.bpm = Some((0.0_f64.to_bits(), 0.5_f32.to_bits()));
    assert_eq!(check_result(&r), Err(AnalysisServiceError::InvalidResult));
    let mut r = figures();
    r.bpm = Some(((-120.0_f64).to_bits(), 0.5_f32.to_bits()));
    assert_eq!(check_result(&r), Err(AnalysisServiceError::InvalidResult));
    let mut r = figures();
    r.bpm = Some((120.0_f64.to_bits(), 1.01_f32.to_bits()));
    assert_eq!(check_result(&r), Err(AnalysisServiceError::InvalidResult));
    let mut r = figures();
    r.bpm = Some((120.0_f64.to_bits(), (-0.0_f32).to_bits()));
    assert_eq!(check_result(&r), Ok(()));
    let mut r = figures();
    r.musical_key = Some((MusicalKey { pitch_class: 12, mode: MusicalMode::Major }, 0.5_f32.to_bits()));
    assert_eq!(check_result(&r), Err(AnalysisServiceError::InvalidResult));
    let mut r = figures();
    r.integrated_lufs = Some(f64::INFINITY.to_bits());
    assert_eq!(check_result(&r), Err(AnalysisServiceError::InvalidResult));
    let mut r = figures();
    r.true_peak_dbtp = Some(f64::NAN.to_bits());
    assert_eq!(check_result(&r), Err(AnalysisServiceError::InvalidResult));
    let r = ResultFigures {
        analysis_version: 1,
        bpm: None,
        musical_key: None,
        integrated_lufs: None,
        true_peak_dbtp: None,
    };
    assert_eq!(check_result(&r), Ok(()));
}
