//! Library database records and the decisions taken on them: how a rescanned
//! file relates to its stored row, and whether the schema can be used.
use vstd::prelude::*;

verus! {

/// The schema version this library writes and understands.
pub const SCHEMA_VERSION: i64 = 1;

#[derive(Debug, Clone, PartialEq, Eq)]
pub struct NewTrack {
    pub library_root_id: Option<i64>,
    pub path: String,
    pub file_size: i64,
    pub modified_at_ms: i64,
    pub content_fingerprint: Option<String>,
    pub title: Option<String>,
    pub artist: Option<String>,
    pub album: Option<String>,
    pub genre: Option<String>,
    pub duration_frames: Option<i64>,
    pub sample_rate: Option<i64>,
    pub channels: Option<i64>,
    pub codec: Option<String>,
    pub missing: bool,
    pub updated_at_ms: i64,
}

#[derive(Debug, Clone, Copy, PartialEq, Eq, Structural)]
pub enum TrackChange {
    Inserted,
    Unchanged,
    Modified,
    Restored,
}

#[derive(Debug, Clone, Copy, PartialEq, Eq, Structural)]
pub struct TrackUpsert {
    pub id: i64,
    pub change: TrackChange,
}

#[derive(Debug, Clone, PartialEq, Eq)]
pub struct LibraryRootRecord {
    pub id: i64,
    pub path: String,
    pub display_name: Option<String>,
    pub last_scan_at_ms: Option<i64>,
}

#[derive(Debug, Clone, PartialEq)]
pub struct TrackRecord {
    pub id: i64,
    pub library_root_id: Option<i64>,
    pub path: String,
    pub title: Option<String>,
    pub artist: Option<String>,
    pub duration_frames: Option<i64>,
    pub sample_rate: Option<i64>,
    pub channels: Option<i64>,
    pub codec: Option<String>,
    pub missing: bool,
}

/// The file attributes stored for a path before it is rescanned.
#[derive(Debug, Clone, PartialEq, Eq)]
pub struct StoredTrackState {
    pub id: i64,
    pub file_size: i64,
    pub modified_at_ms: i64,
    pub content_fingerprint: Option<String>,
    pub missing: bool,
}

pub open spec fn optional_text(value: &Option<String>) -> Option<Seq<char>> {
    match value {
        Some(s) => Some(s@),
        None => None,
    }
}

/// What an upsert did to the row of a path: a new row; a row that was marked
/// missing and is back; a row whose attributes are as they were; or a row
/// whose size, time, fingerprint or missing flag changed.
pub open spec fn track_change(stored: Option<&StoredTrackState>, track: &NewTrack) -> TrackChange {
    match stored {
        None => TrackChange::Inserted,
        Some(s) => if s.missing && !track.missing {
            TrackChange::Restored
        } else if s.file_size == track.file_size && s.modified_at_ms == track.modified_at_ms
            && optional_text(&s.content_fingerprint) == optional_text(&track.content_fingerprint)
            && s.missing == track.missing {
            TrackChange::Unchanged
        } else {
            TrackChange::Modified
        },
    }
}

fn same_optional_text(a: &Option<String>, b: &Option<String>) -> (same: bool)
    ensures
        same == (optional_text(a) == optional_text(b)),
{
    match (a, b) {
        (None, None) => true,
        (Some(x), Some(y)) => *x == *y,
        _ => false,
    }
}

pub fn classify_track_change(stored: Option<&StoredTrackState>, track: &NewTrack) -> (change:
    TrackChange)
    ensures
        change == track_change(stored, track),
{
    match stored {
        None => TrackChange::Inserted,
        Some(s) => {
            if s.missing && !track.missing {
                TrackChange::Restored
            } else if s.file_size == track.file_size && s.modified_at_ms == track.modified_at_ms
                && same_optional_text(&s.content_fingerprint, &track.content_fingerprint)
                && s.missing == track.missing {
                TrackChange::Unchanged
            } else {
                TrackChange::Modified
            }
        },
    }
}

/// Storing the same attributes again changes nothing.
pub proof fn lemma_upsert_same_attributes_unchanged(stored: &StoredTrackState, track: &NewTrack)
    requires
        stored.file_size == track.file_size,
        stored.modified_at_ms == track.modified_at_ms,
        optional_text(&stored.content_fingerprint) == optional_text(&track.content_fingerprint),
        stored.missing == track.missing,
    ensures
        track_change(Some(stored), track) == TrackChange::Unchanged,
{
}

/// How a rescan is classified: a path with no row is inserted; a row marked
/// missing whose file is back is restored; otherwise the row is unchanged
/// exactly when its size, modification time, fingerprint and missing flag
/// all stay as stored, and modified when any one of them differs.
pub proof fn lemma_track_change_classes(stored: Option<&StoredTrackState>, track: &NewTrack)
    ensures
        stored is None ==> track_change(stored, track) == TrackChange::Inserted,
        stored matches Some(s) ==> (s.missing && !track.missing <==> track_change(stored, track)
            == TrackChange::Restored),
        stored matches Some(s) ==> (!(s.missing && !track.missing) && (s.file_size != track.file_size
            || s.modified_at_ms != track.modified_at_ms || optional_text(&s.content_fingerprint)
            != optional_text(&track.content_fingerprint) || s.missing != track.missing)
            <==> track_change(stored, track) == TrackChange::Modified),
        stored matches Some(s) ==> (s.file_size == track.file_size && s.modified_at_ms
            == track.modified_at_ms && optional_text(&s.content_fingerprint) == optional_text(
            &track.content_fingerprint) && s.missing == track.missing <==> track_change(stored, track)
            == TrackChange::Unchanged),
{
}

#[derive(Debug, Clone, Copy, PartialEq, Eq, Structural)]
pub enum MigrationStep {
    /// A fresh database: create the schema.
    CreateSchema,
    /// The schema is current.
    UpToDate,
}

/// What opening a database with this `user_version` has to do; a version
/// newer than this library's is refused with that version.
pub fn migration_step(version: i64) -> (step: Result<MigrationStep, i64>)
    ensures
        match step {
            Err(v) => version > SCHEMA_VERSION && v == version,
            Ok(MigrationStep::CreateSchema) => version == 0,
            Ok(MigrationStep::UpToDate) => version <= SCHEMA_VERSION && version != 0,
        },
{
    if version > SCHEMA_VERSION {
        Err(version)
    } else if version == 0 {
        Ok(MigrationStep::CreateSchema)
    } else {
        Ok(MigrationStep::UpToDate)
    }
}

} // verus!
