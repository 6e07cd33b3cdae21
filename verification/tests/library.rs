use djapp_audio_spike::library::{is_supported_extension, ScanSummary};
use djapp_audio_spike::persistence::{
    classify_track_change, migration_step, MigrationStep, NewTrack, StoredTrackState,
    TrackChange, SCHEMA_VERSION,
};

#[test]
fn supported_extensions_ignore_ascii_case() {
    for extension in ["mp3", "WAV", "Flac", "aac", "m4a", "aif", "AIFF"] {
        assert!(is_supported_extension(extension), "{extension}");
    }
    for extension in ["txt", "mp4", "", "wavx", "ogg"] {
        assert!(!is_supported_extension(extension), "{extension}");
    }
}

fn track(path: &str, size: i64) -> NewTrack {
    NewTrack {
        library_root_id: Some(1),
        path: path.to_string(),
        file_size: size,
        modified_at_ms: 10,
        content_fingerprint: None,
        title: None,
        artist: None,
        album: None,
        genre: None,
        duration_frames: None,
        sample_rate: None,
        channels: None,
        codec: None,
        missing: false,
        updated_at_ms: 1,
    }
}

fn stored(track: &NewTrack, missing: bool) -> StoredTrackState {
    StoredTrackState {
        id: 1,
        file_size: track.file_size,
        modified_at_ms: track.modified_at_ms,
        content_fingerprint: track.content_fingerprint.clone(),
        missing,
    }
}

#[test]
fn track_upsert_reports_file_state_changes() {
    let initial = track("/music/a.wav", 100);
    assert_eq!(classify_track_change(None, &initial), TrackChange::Inserted);
    let row = stored(&initial, false);
    assert_eq!(classify_track_change(Some(&row), &initial), TrackChange::Unchanged);

    let mut modified = initial.clone();
    modified.file_size = 101;
    assert_eq!(classify_track_change(Some(&row), &modified), TrackChange::Modified);
    let missing_row = stored(&modified, true);
    assert_eq!(
        classify_track_change(Some(&missing_row), &modified),
        TrackChange::Restored
    );
    let mut fingerprinted = initial.clone();
    fingerprinted.content_fingerprint = Some("abc".to_string());
    assert_eq!(
        classify_track_change(Some(&row), &fingerprinted),
        TrackChange::Modified
    );
}

#[test]
fn schema_versions_are_migrated_or_refused() {
    assert_eq!(migration_step(0), Ok(MigrationStep::CreateSchema));
    assert_eq!(migration_step(SCHEMA_VERSION), Ok(MigrationStep::UpToDate));
    assert_eq!(migration_step(SCHEMA_VERSION + 1), Err(SCHEMA_VERSION + 1));
}

#[test]
fn scan_summary_counts_each_kind_of_change() {
    let mut summary = ScanSummary::new(3, "/music".to_string(), 4, Vec::new());
    for change in [
        TrackChange::Inserted,
        TrackChange::Inserted,
        TrackChange::Unchanged,
        TrackChange::Restored,
    ] {
        summary.record(change);
    }
    assert_eq!(summary.inserted, 2);
    assert_eq!(summary.unchanged, 1);
    assert_eq!(summary.restored, 1);
    assert_eq!(summary.modified, 0);
    assert_eq!(summary.discovered, 4);
    assert!(summary.may_mark_missing());
    let interrupted = ScanSummary::new(3, "/music".to_string(), 0, vec!["denied".to_string()]);
    assert!(!interrupted.may_mark_missing());
}
