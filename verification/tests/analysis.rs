use djapp_audio_spike::analysis::cache::{
    BeatGridCache, BeatRecord, CacheError, WaveformCache, WaveformLevel,
};
use djapp_audio_spike::analysis::keys::{camelot_distance, camelot_number, classify, is_relative, label};
use djapp_audio_spike::analysis::signal::analysis_frame_to_source_frame;
use djapp_audio_spike::analysis::types::{MusicalKey, MusicalMode};

#[test]
fn analysis_positions_convert_without_accumulated_drift() {
    assert_eq!(analysis_frame_to_source_frame(0, 44_100), 0);
    assert_eq!(analysis_frame_to_source_frame(22_050, 44_100), 44_100);
    assert_eq!(analysis_frame_to_source_frame(11_025, 48_000), 24_000);
    let beat = analysis_frame_to_source_frame(551_250, 44_100);
    assert_eq!(beat, 1_102_500);
}

#[test]
fn analysis_positions_round_half_up_and_saturate() {
    // 1 * 44_100 / 22_050 = 2 exactly; 1 * 48_000 / 22_050 = 2.18 -> 2.
    assert_eq!(analysis_frame_to_source_frame(1, 48_000), 2);
    // 3 * 11_025 / 22_050 = 1.5 -> 2.
    assert_eq!(analysis_frame_to_source_frame(3, 11_025), 2);
    assert_eq!(analysis_frame_to_source_frame(u64::MAX, u32::MAX), u64::MAX);
}

#[test]
fn musical_keys_reject_invalid_pitch_classes() {
    assert!(MusicalKey::new(11, MusicalMode::Minor).is_some());
    assert!(MusicalKey::new(12, MusicalMode::Major).is_none());
}

fn key(pitch_class: u8, mode: MusicalMode) -> MusicalKey {
    MusicalKey::new(pitch_class, mode).unwrap()
}

#[test]
fn camelot_wheel_positions_and_distances() {
    // C major is 8B, A minor is 8A.
    assert_eq!(camelot_number(key(0, MusicalMode::Major)), 8);
    assert_eq!(camelot_number(key(9, MusicalMode::Minor)), 8);
    assert!(is_relative(key(0, MusicalMode::Major), key(9, MusicalMode::Minor)));
    assert!(is_relative(key(9, MusicalMode::Minor), key(0, MusicalMode::Major)));
    assert!(!is_relative(key(0, MusicalMode::Major), key(0, MusicalMode::Minor)));
    let c = key(0, MusicalMode::Major);
    let g = key(7, MusicalMode::Major);
    assert_eq!(camelot_distance(c, g), camelot_distance(g, c));
    assert_eq!(camelot_distance(c, g), 1);
    assert_eq!(camelot_distance(c, c), 0);
}

#[test]
fn key_labels_and_classes() {
    assert_eq!(label(key(9, MusicalMode::Minor)), "9:minor");
    assert_eq!(label(key(0, MusicalMode::Major)), "0:major");
    assert_eq!(classify(key(2, MusicalMode::Major), Some(key(2, MusicalMode::Major))), "exact");
    assert_eq!(classify(key(2, MusicalMode::Major), None), "incorrect");
    assert_eq!(
        classify(key(0, MusicalMode::Major), Some(key(9, MusicalMode::Minor))),
        "relative-or-parallel"
    );
    assert_eq!(
        classify(key(0, MusicalMode::Major), Some(key(7, MusicalMode::Major))),
        "neighboring-camelot"
    );
}

fn bits32(values: &[f32]) -> Vec<u32> {
    values.iter().map(|value| value.to_bits()).collect()
}

#[test]
fn waveform_cache_round_trips_and_rejects_truncation() {
    let cache = WaveformCache {
        identity_digest: [7; 32],
        source_sample_rate: 48_000,
        source_channels: 2,
        source_frames: 2_048,
        levels: vec![WaveformLevel {
            bucket_frames: 256,
            values: bits32(&[-0.8, 0.9, 0.3, -0.7, 0.75, 0.25]),
        }],
    };
    let encoded = cache.encode().unwrap();
    assert_eq!(WaveformCache::decode(&encoded).unwrap(), cache);
    assert_eq!(
        WaveformCache::decode(&encoded[..encoded.len() - 1]),
        Err(CacheError::InvalidLength)
    );
}

#[test]
fn beat_grid_round_trips_and_rejects_non_monotonic_beats() {
    let mut cache = BeatGridCache {
        identity_digest: [9; 32],
        source_sample_rate: 44_100,
        source_channels: 2,
        source_frames: 100_000,
        bpm: 120.0_f64.to_bits(),
        confidence: 0.91_f32.to_bits(),
        beats: vec![
            BeatRecord {
                source_frame: 0,
                strength: 1.0_f32.to_bits(),
                downbeat: true,
            },
            BeatRecord {
                source_frame: 22_050,
                strength: 0.8_f32.to_bits(),
                downbeat: false,
            },
        ],
    };
    let encoded = cache.encode().unwrap();
    assert_eq!(BeatGridCache::decode(&encoded).unwrap(), cache);
    cache.beats[1].source_frame = 0;
    assert_eq!(cache.encode(), Err(CacheError::InvalidData));
}

#[test]
fn cache_versions_are_enforced() {
    let cache = BeatGridCache {
        identity_digest: [0; 32],
        source_sample_rate: 48_000,
        source_channels: 1,
        source_frames: 48_000,
        bpm: 100.0_f64.to_bits(),
        confidence: 0.5_f32.to_bits(),
        beats: Vec::new(),
    };
    let mut encoded = cache.encode().unwrap();
    encoded[8] = 2;
    assert_eq!(
        BeatGridCache::decode(&encoded),
        Err(CacheError::UnsupportedVersion)
    );
}

#[test]
fn cache_magic_is_checked() {
    let cache = BeatGridCache {
        identity_digest: [1; 32],
        source_sample_rate: 48_000,
        source_channels: 2,
        source_frames: 48_000,
        bpm: 128.0_f64.to_bits(),
        confidence: 0.5_f32.to_bits(),
        beats: Vec::new(),
    };
    let mut encoded = cache.encode().unwrap();
    encoded[0] ^= 0xff;
    assert_eq!(BeatGridCache::decode(&encoded), Err(CacheError::InvalidMagic));
    assert_eq!(WaveformCache::decode(&encoded), Err(CacheError::InvalidMagic));
    assert_eq!(BeatGridCache::decode(&[]), Err(CacheError::InvalidLength));
}

#[test]
fn beat_grid_rejects_invalid_tempo_and_beats_outside_the_source() {
    let mut cache = BeatGridCache {
        identity_digest: [2; 32],
        source_sample_rate: 48_000,
        source_channels: 2,
        source_frames: 1_000,
        bpm: f64::NAN.to_bits(),
        confidence: 0.5_f32.to_bits(),
        beats: Vec::new(),
    };
    assert_eq!(cache.encode(), Err(CacheError::InvalidData));
    cache.bpm = 0.0_f64.to_bits();
    assert_eq!(cache.encode(), Err(CacheError::InvalidData));
    cache.bpm = 120.0_f64.to_bits();
    cache.confidence = 1.5_f32.to_bits();
    assert_eq!(cache.encode(), Err(CacheError::InvalidData));
    cache.confidence = 1.0_f32.to_bits();
    cache.beats.push(BeatRecord {
        source_frame: 1_000,
        strength: 0.5_f32.to_bits(),
        downbeat: false,
    });
    assert_eq!(cache.encode(), Err(CacheError::InvalidData));
    cache.beats[0].source_frame = 999;
    assert!(cache.encode().is_ok());
}

#[test]
fn waveform_rejects_levels_that_do_not_match_the_channels() {
    let cache = WaveformCache {
        identity_digest: [3; 32],
        source_sample_rate: 44_100,
        source_channels: 2,
        source_frames: 1_024,
        levels: vec![WaveformLevel {
            bucket_frames: 256,
            values: bits32(&[0.1, 0.2, 0.3]),
        }],
    };
    assert_eq!(cache.encode(), Err(CacheError::InvalidData));
}

#[test]
fn cache_error_messages_are_distinct() {
    let messages = [
        CacheError::InvalidMagic.message(),
        CacheError::UnsupportedVersion.message(),
        CacheError::InvalidLength.message(),
        CacheError::InvalidData.message(),
        CacheError::TooLarge.message(),
    ];
    for (i, a) in messages.iter().enumerate() {
        for b in messages.iter().skip(i + 1) {
            assert_ne!(a, b);
        }
    }
}

#[test]
fn decoded_waveform_encodes_to_the_same_bytes() {
    let cache = WaveformCache {
        identity_digest: [5; 32],
        source_sample_rate: 44_100,
        source_channels: 1,
        source_frames: 1_000,
        levels: vec![
            WaveformLevel {
                bucket_frames: 256,
                values: bits32(&[-0.5, 0.5, 0.25, -0.1, 0.2, 0.1]),
            },
            WaveformLevel {
                bucket_frames: 1_024,
                values: bits32(&[-0.5, 0.5, 0.2]),
            },
        ],
    };
    let encoded = cache.encode().unwrap();
    assert_eq!(WaveformCache::decode(&encoded).unwrap().encode().unwrap(), encoded);
}
