use vstd::prelude::*;

verus! {

/// What identifies one version of one track's audio file: the database row,
/// the path, and the file attributes that change when the file is rewritten.
#[derive(Clone, Debug, PartialEq, Eq)]
pub struct TrackIdentity {
    pub track_id: i64,
    pub path: String,
    pub file_size: u64,
    pub modified_at_ms: i64,
    pub content_fingerprint: Option<String>,
}

/// The identity as plain values, strings taken as character sequences.
pub struct TrackIdentityView {
    pub track_id: i64,
    pub path: Seq<char>,
    pub file_size: u64,
    pub modified_at_ms: i64,
    pub content_fingerprint: Option<Seq<char>>,
}

impl View for TrackIdentity {
    type V = TrackIdentityView;

    open spec fn view(&self) -> TrackIdentityView {
        TrackIdentityView {
            track_id: self.track_id,
            path: self.path@,
            file_size: self.file_size,
            modified_at_ms: self.modified_at_ms,
            content_fingerprint: match &self.content_fingerprint {
                Some(f) => Some(f@),
                None => None,
            },
        }
    }
}

impl TrackIdentity {
    /// An identity with the same values.
    pub fn duplicate(&self) -> (copy: TrackIdentity)
        ensures
            copy@ == self@,
    {
        TrackIdentity {
            track_id: self.track_id,
            path: self.path.clone(),
            file_size: self.file_size,
            modified_at_ms: self.modified_at_ms,
            content_fingerprint: match &self.content_fingerprint {
                Some(f) => Some(f.clone()),
                None => None,
            },
        }
    }

    /// Field-by-field equality of two identities.
    pub fn same_as(&self, other: &TrackIdentity) -> (same: bool)
        ensures
            same == (self@ == other@),
    {
        if self.track_id != other.track_id || self.file_size != other.file_size
            || self.modified_at_ms != other.modified_at_ms {
            return false;
        }
        if self.path != other.path {
            return false;
        }
        match (&self.content_fingerprint, &other.content_fingerprint) {
            (None, None) => true,
            (Some(a), Some(b)) => *a == *b,
            _ => false,
        }
    }
}

/// Where a track's analysis job stands.
#[derive(Clone, Copy, Debug, PartialEq, Eq, Structural)]
pub enum AnalysisStage {
    Queued,
    Decoding,
    Waveform,
    Rhythm,
    Key,
    Loudness,
    Writing,
    Complete,
    Failed,
    Cancelled,
}

#[derive(Clone, Copy, Debug, PartialEq, Eq, Structural)]
pub enum MusicalMode {
    Major,
    Minor,
}

/// A key: a pitch class (0 = C, 1 = C sharp, ..., 11 = B) and a mode.
#[derive(Clone, Copy, Debug, PartialEq, Eq, Structural)]
pub struct MusicalKey {
    pub pitch_class: u8,
    pub mode: MusicalMode,
}

impl MusicalKey {
    /// A key exists only for the twelve pitch classes.
    pub fn new(pitch_class: u8, mode: MusicalMode) -> (key: Option<MusicalKey>)
        ensures
            key == (if pitch_class < 12 {
                Some(MusicalKey { pitch_class, mode })
            } else {
                None
            }),
    {
        if pitch_class < 12 {
            Some(MusicalKey { pitch_class, mode })
        } else {
            None
        }
    }
}

} // verus!
