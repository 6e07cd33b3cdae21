//! The integer side of the analysis pipeline: the digest that ties a cache
//! file to one version of its source, the cache file names, the check that
//! the source did not change under the analysis, and the conversion of the
//! tracked beats back onto the source's frame grid.
use vstd::bytes::spec_u64_to_le_bytes;
use vstd::bytes::u64_to_le_bytes;
use vstd::prelude::*;
use vstd::string::StringExecFns;
use vstd::string::StringSliceAdditionalSpecFns;
use vstd::utf8::encode_utf8;

use super::cache::BeatGridCache;
use super::cache::BeatRecord;
use super::signal::analysis_frame_to_source_frame;
use super::signal::source_frame_of;
use super::types::TrackIdentity;
use super::types::TrackIdentityView;
use super::ANALYSIS_VERSION;
use crate::text::decimal;
use crate::text::hex_text;
use crate::text::push_decimal;
use crate::text::push_hex;
use crate::text::push_signed_decimal;
use crate::text::signed_decimal;

verus! {

/// The multiplier of one lane step.
pub const LANE_PRIME: u64 = 0x0000_0100_0000_01b3;

/// The four lanes the digest starts from.
pub open spec fn initial_lanes() -> Seq<u64> {
    seq![0xcbf2_9ce4_8422_2325u64, 0x8422_2325_cbf2_9ce4u64, 0x9e37_79b9_7f4a_7c15u64, 0x517c_c1b7_2722_0a95u64]
}

/// One byte folded into one lane: xor, wrapping multiply, then xor with the
/// lane rotated right by seventeen bits.
pub open spec fn lane_step(lane: u64, byte: u8) -> u64 {
    let m = (lane ^ (byte as u64)).wrapping_mul(LANE_PRIME);
    m ^ ((m >> 17u64) | (m << 47u64))
}

/// The lanes after folding `bytes` in, byte `i` of the run going to lane
/// `i % 4`.
pub open spec fn hash_lanes(lanes: Seq<u64>, bytes: Seq<u8>) -> Seq<u64>
    decreases bytes.len(),
{
    if bytes.len() == 0 {
        lanes
    } else {
        let before = hash_lanes(lanes, bytes.drop_last());
        let k = (bytes.len() - 1) % 4;
        before.update(k, lane_step(before[k], bytes.last()))
    }
}

fn hash_bytes(lanes: &mut [u64; 4], bytes: &[u8])
    ensures
        final(lanes)@ == hash_lanes(old(lanes)@, bytes@),
{
    let ghost start = lanes@;
    let mut i: usize = 0;
    while i < bytes.len()
        invariant
            0 <= i <= bytes@.len(),
            lanes@.len() == 4,
            lanes@ == hash_lanes(start, bytes@.take(i as int)),
        decreases bytes@.len() - i,
    {
        let k: usize = i % 4;
        let m: u64 = (lanes[k] ^ (bytes[i] as u64)).wrapping_mul(LANE_PRIME);
        let next: u64 = m ^ ((m >> 17u64) | (m << 47u64));
        proof {
            assert(bytes@.take(i + 1).drop_last() =~= bytes@.take(i as int));
            assert(next == lane_step(lanes@[k as int], bytes@[i as int]));
        }
        lanes[k] = next;
        proof {
            assert(lanes@ =~= hash_lanes(start, bytes@.take(i + 1)));
        }
        i = i + 1;
    }
    assert(bytes@.take(i as int) =~= bytes@);
}

/// The lanes after folding in, in order: the track id and the path, the
/// file size and the modification time (integers as eight little-endian
/// bytes, text as UTF-8), and the content fingerprint where there is one.
pub open spec fn identity_lanes(id: TrackIdentityView) -> Seq<u64> {
    let a = hash_lanes(initial_lanes(), spec_u64_to_le_bytes(id.track_id as u64));
    let b = hash_lanes(a, encode_utf8(id.path));
    let c = hash_lanes(b, spec_u64_to_le_bytes(id.file_size));
    let d = hash_lanes(c, spec_u64_to_le_bytes(id.modified_at_ms as u64));
    match id.content_fingerprint {
        Some(f) => hash_lanes(d, encode_utf8(f)),
        None => d,
    }
}

/// Four lanes as thirty-two bytes, each lane little-endian, in lane order.
pub open spec fn lanes_bytes(lanes: Seq<u64>) -> Seq<u8> {
    spec_u64_to_le_bytes(lanes[0]) + spec_u64_to_le_bytes(lanes[1]) + spec_u64_to_le_bytes(
        lanes[2],
    ) + spec_u64_to_le_bytes(lanes[3])
}

/// The identity digest of a track, as stated by [`identity_lanes`] and
/// [`lanes_bytes`].
pub open spec fn identity_digest_of(id: TrackIdentityView) -> Seq<u8> {
    lanes_bytes(identity_lanes(id))
}

/// A 32-byte digest of everything that identifies one version of a track's
/// audio file; a cache file carries it, and a cache whose digest differs
/// belongs to another version of the file.
pub fn identity_digest(track: &TrackIdentity) -> (digest: [u8; 32])
    ensures
        digest@ == identity_digest_of(track@),
{
    let mut lanes: [u64; 4] = [
        0xcbf2_9ce4_8422_2325u64,
        0x8422_2325_cbf2_9ce4u64,
        0x9e37_79b9_7f4a_7c15u64,
        0x517c_c1b7_2722_0a95u64,
    ];
    assert(lanes@ =~= initial_lanes());
    let id_bytes = u64_to_le_bytes(track.track_id as u64);
    hash_bytes(&mut lanes, id_bytes.as_slice());
    hash_bytes(&mut lanes, track.path.as_str().as_bytes());
    let size_bytes = u64_to_le_bytes(track.file_size);
    hash_bytes(&mut lanes, size_bytes.as_slice());
    let modified_bytes = u64_to_le_bytes(track.modified_at_ms as u64);
    hash_bytes(&mut lanes, modified_bytes.as_slice());
    match &track.content_fingerprint {
        Some(fingerprint) => {
            hash_bytes(&mut lanes, fingerprint.as_str().as_bytes());
        },
        None => {},
    }
    assert(lanes@ == identity_lanes(track@));
    let mut digest: [u8; 32] = [0u8; 32];
    let mut lane: usize = 0;
    while lane < 4
        invariant
            0 <= lane <= 4,
            lanes@ == identity_lanes(track@),
            digest@.len() == 32,
            digest@.subrange(0, 8 * lane as int) == lanes_bytes(lanes@).subrange(
                0,
                8 * lane as int,
            ),
        decreases 4 - lane,
    {
        let bytes = u64_to_le_bytes(lanes[lane]);
        let ghost before = digest@;
        let mut j: usize = 0;
        while j < 8
            invariant
                0 <= lane < 4,
                0 <= j <= 8,
                bytes@ == spec_u64_to_le_bytes(lanes@[lane as int]),
                bytes@.len() == 8,
                digest@.len() == 32,
                forall|t: int| 0 <= t < 8 * lane ==> digest@[t] == before[t],
                forall|t: int| 0 <= t < j ==> digest@[8 * lane + t] == bytes@[t],
            decreases 8 - j,
        {
            digest[lane * 8 + j] = bytes[j];
            j = j + 1;
        }
        proof {
            let whole = lanes_bytes(lanes@);
            vstd::bytes::lemma_auto_spec_u64_to_from_le_bytes();
            assert(whole.len() == 32);
            assert forall|t: int| 0 <= t < 8 * lane + 8 implies digest@[t] == whole[t] by {
                if t < 8 * lane {
                    assert(digest@.subrange(0, 8 * lane as int)[t] == whole.subrange(
                        0,
                        8 * lane as int,
                    )[t]);
                } else {
                    assert(digest@[8 * lane + (t - 8 * lane)] == bytes@[t - 8 * lane]);
                }
            }
            assert(digest@.subrange(0, 8 * lane + 8) =~= whole.subrange(0, 8 * lane + 8));
        }
        lane = lane + 1;
    }
    proof {
        vstd::bytes::lemma_auto_spec_u64_to_from_le_bytes();
        let whole = lanes_bytes(lanes@);
        assert(whole.len() == 32);
        assert(digest@.subrange(0, 32) =~= digest@);
        assert(whole.subrange(0, 32) =~= whole);
        assert(digest@ =~= lanes_bytes(lanes@));
    }
    digest
}

// ---------------------------------------------------------------------------
// Cache file names
// ---------------------------------------------------------------------------
/// The directory, under the cache root, that holds the caches of the current
/// analysis version: `analysis-v` and the version number.
pub fn cache_dir_name() -> (name: String)
    ensures
        name@ == "analysis-v"@ + decimal(ANALYSIS_VERSION as nat),
{
    let mut name = String::from_str("analysis-v");
    push_decimal(&mut name, ANALYSIS_VERSION as u64);
    name
}

/// The file name of one cache of one track version:
/// `track-{id}-{digest as lower-case hex}.{extension}`.
pub fn cache_file_name(track_id: i64, digest: &[u8; 32], extension: &str) -> (name: String)
    ensures
        name@ == "track-"@ + signed_decimal(track_id as int) + "-"@ + hex_text(digest@) + "."@
            + extension@,
{
    let mut name = String::from_str("track-");
    push_signed_decimal(&mut name, track_id);
    name.append("-");
    push_hex(&mut name, digest.as_slice());
    name.append(".");
    name.append(extension);
    name
}

// ---------------------------------------------------------------------------
// The source did not change
// ---------------------------------------------------------------------------
/// How the source file differs from the identity the analysis was asked for.
#[derive(Clone, Copy, Debug, PartialEq, Eq, Structural)]
pub enum SourceChange {
    Size,
    ModificationTime,
}

impl SourceChange {
    /// The message the analysis fails with.
    pub fn message(&self) -> (text: &'static str)
        ensures
            text@ == match self {
                SourceChange::Size => "analysis source changed size"@,
                SourceChange::ModificationTime => "analysis source modification time changed"@,
            },
    {
        match self {
            SourceChange::Size => "analysis source changed size",
            SourceChange::ModificationTime => "analysis source modification time changed",
        }
    }
}

/// Milliseconds since the epoch as stored: saturated at `i64::MAX`.
pub fn saturating_millis(ms: u128) -> (stored: i64)
    ensures
        stored == if ms > i64::MAX as u128 {
            i64::MAX as int
        } else {
            ms as int
        },
{
    if ms > i64::MAX as u128 {
        i64::MAX
    } else {
        ms as i64
    }
}

/// A modification time in milliseconds since the epoch as stored: saturated
/// at `i64::MAX`, and 0 where the file system gives none.
pub open spec fn stored_millis(modified_millis: Option<u128>) -> i64 {
    match modified_millis {
        Some(ms) => if ms > i64::MAX as u128 {
            i64::MAX
        } else {
            ms as i64
        },
        None => 0,
    }
}

/// Compares the file's current length and modification time (milliseconds
/// since the epoch, `None` where unknown) with the identity: the length must
/// match, and so must the modification time where the identity records one
/// (a positive value).
pub fn validate_file_identity(track: &TrackIdentity, file_len: u64, modified_millis: Option<u128>) -> (checked: Result<(), SourceChange>)
    ensures
        checked == if file_len != track.file_size {
            Err(SourceChange::Size)
        } else if track.modified_at_ms > 0 && stored_millis(modified_millis) != track.modified_at_ms {
            Err(SourceChange::ModificationTime)
        } else {
            Ok(())
        },
{
    if file_len != track.file_size {
        return Err(SourceChange::Size);
    }
    if track.modified_at_ms > 0 {
        let current: i64 = match modified_millis {
            Some(ms) => saturating_millis(ms),
            None => 0,
        };
        if current != track.modified_at_ms {
            return Err(SourceChange::ModificationTime);
        }
    }
    Ok(())
}

// ---------------------------------------------------------------------------
// Beats on the source grid
// ---------------------------------------------------------------------------
/// A beat as the tracker reports it: a frame of the analysis signal, its
/// strength (binary32 bits) and whether it starts a bar.
#[derive(Clone, Copy, Debug, PartialEq, Eq, Structural)]
pub struct AnalysisBeat {
    pub analysis_frame: u64,
    pub strength: u32,
    pub downbeat: bool,
}

/// The beats moved onto the source's frame grid, in order, dropping each one
/// that falls at or past the end of the source or does not come strictly
/// after the last beat kept.
pub open spec fn kept_beats(beats: Seq<AnalysisBeat>, source_rate: u32, source_frames: u64) -> Seq<
    BeatRecord,
>
    decreases beats.len(),
{
    if beats.len() == 0 {
        Seq::empty()
    } else {
        let before = kept_beats(beats.drop_last(), source_rate, source_frames);
        let beat = beats.last();
        let frame = source_frame_of(beat.analysis_frame, source_rate);
        if frame >= source_frames || (before.len() > 0 && before.last().source_frame >= frame) {
            before
        } else {
            before.push(
                BeatRecord { source_frame: frame as u64, strength: beat.strength, downbeat: beat.downbeat },
            )
        }
    }
}

/// What every list of kept beats satisfies: each lies inside the source, and
/// the frames strictly increase.
pub open spec fn beats_in_order(beats: Seq<BeatRecord>, source_frames: u64) -> bool {
    &&& forall|k: int| 0 <= k < beats.len() ==> #[trigger] beats[k].source_frame < source_frames
    &&& forall|k: int, l: int|
        0 <= k < l < beats.len() ==> #[trigger] beats[k].source_frame < #[trigger] beats[l].source_frame
}

/// Whatever the tracker reports, the kept beats lie inside the source in
/// strictly increasing order.
pub proof fn lemma_kept_beats_in_order(beats: Seq<AnalysisBeat>, source_rate: u32, source_frames: u64)
    ensures
        beats_in_order(kept_beats(beats, source_rate, source_frames), source_frames),
    decreases beats.len(),
{
    if beats.len() > 0 {
        lemma_kept_beats_in_order(beats.drop_last(), source_rate, source_frames);
    }
}

/// Every kept beat comes from a tracked beat: its frame is that beat's frame
/// converted to the source rate, and it carries that beat's strength and
/// downbeat flag. The first tracked beat that falls inside the source is
/// always kept, as the first beat.
pub proof fn lemma_kept_beats_come_from_tracked(
    beats: Seq<AnalysisBeat>,
    source_rate: u32,
    source_frames: u64,
)
    ensures
        forall|k: int|
            0 <= k < kept_beats(beats, source_rate, source_frames).len() ==> exists|i: int|
                0 <= i < beats.len() && source_frame_of(beats[i].analysis_frame, source_rate)
                    == (#[trigger] kept_beats(beats, source_rate, source_frames)[k]).source_frame
                    && beats[i].strength == kept_beats(beats, source_rate, source_frames)[k].strength
                    && beats[i].downbeat == kept_beats(beats, source_rate, source_frames)[k].downbeat,
        beats.len() > 0 && source_frame_of(beats[0].analysis_frame, source_rate) < source_frames
            ==> kept_beats(beats, source_rate, source_frames).len() > 0 && kept_beats(
            beats,
            source_rate,
            source_frames,
        )[0] == (BeatRecord {
            source_frame: source_frame_of(beats[0].analysis_frame, source_rate) as u64,
            strength: beats[0].strength,
            downbeat: beats[0].downbeat,
        }),
    decreases beats.len(),
{
    if beats.len() > 0 {
        let front = beats.drop_last();
        lemma_kept_beats_come_from_tracked(front, source_rate, source_frames);
        let kept = kept_beats(beats, source_rate, source_frames);
        let before = kept_beats(front, source_rate, source_frames);
        assert forall|k: int| 0 <= k < kept.len() implies exists|i: int|
            0 <= i < beats.len() && source_frame_of(beats[i].analysis_frame, source_rate)
                == (#[trigger] kept[k]).source_frame && beats[i].strength == kept[k].strength
                && beats[i].downbeat == kept[k].downbeat by {
            if k < before.len() {
                assert(kept[k] == before[k]);
                let i = choose|i: int|
                    0 <= i < front.len() && source_frame_of(front[i].analysis_frame, source_rate)
                        == (#[trigger] before[k]).source_frame && front[i].strength == before[k].strength
                        && front[i].downbeat == before[k].downbeat;
                assert(beats[i] == front[i]);
            } else {
                let last = beats.len() - 1;
                assert(beats[last] == beats.last());
                assert(0 <= source_frame_of(beats[last].analysis_frame, source_rate) <= u64::MAX);
            }
        }
        if beats.len() > 1 {
            assert(front[0] == beats[0]);
        } else {
            assert(front.len() == 0);
            assert(beats.last() == beats[0]);
        }
    }
}

/// Moves the tracked beats onto the source's frame grid (see [`kept_beats`]).
pub fn source_beats(beats: &[AnalysisBeat], source_rate: u32, source_frames: u64) -> (kept: Vec<
    BeatRecord,
>)
    ensures
        kept@ == kept_beats(beats@, source_rate, source_frames),
        beats_in_order(kept@, source_frames),
{
    let mut kept: Vec<BeatRecord> = Vec::new();
    let mut i: usize = 0;
    while i < beats.len()
        invariant
            0 <= i <= beats@.len(),
            kept@ == kept_beats(beats@.take(i as int), source_rate, source_frames),
        decreases beats@.len() - i,
    {
        let beat = beats[i];
        let frame = analysis_frame_to_source_frame(beat.analysis_frame, source_rate);
        proof {
            assert(beats@.take(i + 1).drop_last() =~= beats@.take(i as int));
            assert(beats@.take(i + 1).last() == beat);
        }
        let n = kept.len();
        let skip = frame >= source_frames || (n > 0 && kept[n - 1].source_frame >= frame);
        if !skip {
            kept.push(BeatRecord { source_frame: frame, strength: beat.strength, downbeat: beat.downbeat });
        }
        i = i + 1;
    }
    proof {
        assert(beats@.take(i as int) =~= beats@);
        lemma_kept_beats_in_order(beats@, source_rate, source_frames);
    }
    kept
}

/// The fewest beats a grid is kept with.
pub const MIN_GRID_BEATS: usize = 4;

/// The beat grid cache of a finished analysis, from the tempo (binary64
/// bits), the grid's confidence (binary32 bits) and the tracked beats: there
/// is one only where at least [`MIN_GRID_BEATS`] beats are kept.
pub fn beat_grid_for(
    identity_digest: [u8; 32],
    source_sample_rate: u32,
    source_channels: u16,
    source_frames: u64,
    bpm: u64,
    confidence: u32,
    grid_beats: &[AnalysisBeat],
) -> (grid: Option<BeatGridCache>)
    ensures
        grid is Some <==> kept_beats(grid_beats@, source_sample_rate, source_frames).len()
            >= MIN_GRID_BEATS,
        grid matches Some(g) ==> {
            &&& g.identity_digest == identity_digest
            &&& g.source_sample_rate == source_sample_rate
            &&& g.source_channels == source_channels
            &&& g.source_frames == source_frames
            &&& g.bpm == bpm
            &&& g.confidence == confidence
            &&& g.beats@ == kept_beats(grid_beats@, source_sample_rate, source_frames)
        },
{
    let beats = source_beats(grid_beats, source_sample_rate, source_frames);
    if beats.len() >= MIN_GRID_BEATS {
        Some(
            BeatGridCache {
                identity_digest,
                source_sample_rate,
                source_channels,
                source_frames,
                bpm,
                confidence,
                beats,
            },
        )
    } else {
        None
    }
}

// ---------------------------------------------------------------------------
// The processor
// ---------------------------------------------------------------------------
/// The production analysis processor: it writes its caches under
/// `cache_root`.
pub struct WaveformLoudnessProcessor {
    pub cache_root: String,
}

impl WaveformLoudnessProcessor {
    /// A processor that writes its caches under `cache_root`.
    pub fn new(cache_root: String) -> (processor: Self)
        ensures
            processor.cache_root@ == cache_root@,
    {
        WaveformLoudnessProcessor { cache_root }
    }
}

} // verus!
