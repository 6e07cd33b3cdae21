use djapp_audio_spike::analysis::pipeline::{
    beat_grid_for, cache_dir_name, cache_file_name, identity_digest, saturating_millis,
    source_beats, validate_file_identity, AnalysisBeat, SourceChange, WaveformLoudnessProcessor,
    MIN_GRID_BEATS,
};
use djapp_audio_spike::analysis::types::TrackIdentity;

fn identity(track_id: i64, path: &str, fingerprint: Option<&str>) -> TrackIdentity {
    TrackIdentity {
        track_id,
        path: path.to_string(),
        file_size: 1_234,
        modified_at_ms: 99,
        content_fingerprint: fingerprint.map(str::to_string),
    }
}

fn hex(bytes: &[u8]) -> String {
    bytes.iter().map(|byte| format!("{byte:02x}")).collect()
}

#[test]
fn identity_digest_matches_reference_values() {
    assert_eq!(
        hex(&identity_digest(&identity(42, "/music/a.wav", None))),
        "63ecc459beedf404232c364150c0ee096bcc9e179b5ca9fe8cbc305357e2d063"
    );
    assert_eq!(
        hex(&identity_digest(&identity(42, "/music/a.wav", Some("abc")))),
        "a843a477ffe4a8b2f555a24b3082e48ff2201013c34f58008cbc305357e2d063"
    );
    let other = TrackIdentity {
        track_id: -7,
        path: "/m/é.flac".to_string(),
        file_size: 0,
        modified_at_ms: -1,
        content_fingerprint: None,
    };
    assert_eq!(
        hex(&identity_digest(&other)),
        "e987c3877b943e7048a8d0e457ff542e4920ff1b5ac8d17c0b7ce470ce1676bd"
    );
}

#[test]
fn identity_digest_changes_with_every_field() {
    let base = identity(1, "/music/a.wav", None);
    let digest = identity_digest(&base);
    assert_eq!(identity_digest(&base.clone()), digest);
    let mut changed = base.clone();
    changed.file_size += 1;
    assert_ne!(identity_digest(&changed), digest);
    let mut changed = base.clone();
    changed.modified_at_ms += 1;
    assert_ne!(identity_digest(&changed), digest);
    let mut changed = base.clone();
    changed.path.push('x');
    assert_ne!(identity_digest(&changed), digest);
    let mut changed = base.clone();
    changed.track_id = 2;
    assert_ne!(identity_digest(&changed), digest);
    let mut changed = base;
    changed.content_fingerprint = Some("f".to_string());
    assert_ne!(identity_digest(&changed), digest);
}

#[test]
fn cache_names_carry_version_track_and_digest() {
    assert_eq!(cache_dir_name(), "analysis-v1");
    let mut digest = [0u8; 32];
    digest[0] = 0xab;
    digest[31] = 0x07;
    assert_eq!(
        cache_file_name(17, &digest, "waveform"),
        "track-17-ab00000000000000000000000000000000000000000000000000000000000007.waveform"
    );
    assert_eq!(
        cache_file_name(-3, &[0xff; 32], "beat-grid"),
        format!("track--3-{}.beat-grid", "ff".repeat(32))
    );
}

#[test]
fn changed_identity_is_detected_before_cache_write() {
    let track = identity(5, "/music/b.wav", None);
    assert_eq!(validate_file_identity(&track, 1_234, Some(99)), Ok(()));
    assert_eq!(
        validate_file_identity(&track, 1_235, Some(99)),
        Err(SourceChange::Size)
    );
    assert_eq!(
        validate_file_identity(&track, 1_234, Some(100)),
        Err(SourceChange::ModificationTime)
    );
    assert_eq!(
        validate_file_identity(&track, 1_234, None),
        Err(SourceChange::ModificationTime)
    );
    let mut untimed = track.clone();
    untimed.modified_at_ms = 0;
    assert_eq!(validate_file_identity(&untimed, 1_234, Some(5)), Ok(()));
    assert_eq!(SourceChange::Size.message(), "analysis source changed size");
    assert_eq!(
        SourceChange::ModificationTime.message(),
        "analysis source modification time changed"
    );
}

#[test]
fn modification_times_saturate() {
    assert_eq!(saturating_millis(12), 12);
    assert_eq!(saturating_millis(u128::MAX), i64::MAX);
    assert_eq!(saturating_millis(i64::MAX as u128), i64::MAX);
}

fn beat(analysis_frame: u64, downbeat: bool) -> AnalysisBeat {
    AnalysisBeat {
        analysis_frame,
        strength: 0.5_f32.to_bits(),
        downbeat,
    }
}

#[test]
fn source_beats_are_in_range_and_strictly_increasing() {
    let beats = [
        beat(0, true),
        beat(11_025, false),
        beat(11_025, false),
        beat(5, false),
        beat(22_050, false),
        beat(44_100, true),
    ];
    let kept = source_beats(&beats, 44_100, 80_000);
    let frames: Vec<u64> = kept.iter().map(|beat| beat.source_frame).collect();
    assert_eq!(frames, vec![0, 22_050, 44_100]);
    assert!(kept[0].downbeat);
    assert!(!kept[1].downbeat);
}

#[test]
fn beat_grid_needs_four_kept_beats() {
    let beats: Vec<AnalysisBeat> = (0..4).map(|i| beat(i * 11_025, i == 0)).collect();
    let grid = beat_grid_for([3; 32], 48_000, 2, 1_000_000, 120.0_f64.to_bits(), 0.7_f32.to_bits(), &beats)
        .unwrap();
    assert_eq!(grid.beats.len(), MIN_GRID_BEATS);
    assert_eq!(grid.beats[1].source_frame, 24_000);
    assert_eq!(grid.bpm, 120.0_f64.to_bits());
    assert_eq!(grid.source_sample_rate, 48_000);
    assert!(grid.encode().is_ok());
    // The last beat falls past the end of the source.
    assert!(beat_grid_for([3; 32], 48_000, 2, 72_000, 0, 0, &beats).is_none());
}

#[test]
fn processor_keeps_its_cache_root() {
    let processor = WaveformLoudnessProcessor::new("/tmp/cache".to_string());
    assert_eq!(processor.cache_root, "/tmp/cache");
}
