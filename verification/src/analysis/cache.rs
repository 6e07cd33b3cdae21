//! Binary cache files for waveform pyramids and beat grids.
//!
//! Both formats start with a 68-byte little-endian header:
//! magic (8), format version (u16), reserved (u16, 0), analysis version (u32),
//! identity digest (32), source sample rate (u32), source channels (u16),
//! reserved (u16, 0), source frames (u64), reserved (u32, 0).
//!
//! Sample values, strengths, confidences and tempos are IEEE-754 numbers; the
//! cache holds them as their bit patterns (`u32` for binary32, `u64` for
//! binary64), exactly as they are written to disk.
use vstd::bytes::*;
use vstd::prelude::*;
use vstd::slice::slice_subrange;

use super::ANALYSIS_VERSION;

verus! {

broadcast use vstd::seq_lib::group_seq_properties;

pub const WAVEFORM_FORMAT_VERSION: u16 = 1;

pub const BEAT_GRID_FORMAT_VERSION: u16 = 1;

pub const COMMON_HEADER_BYTES: usize = 68;

pub const BEAT_RECORD_BYTES: usize = 16;

// ---------------------------------------------------------------------------
// IEEE-754 predicates on bit patterns
// ---------------------------------------------------------------------------
/// A binary32 value is finite when its exponent field is not all ones.
pub open spec fn binary32_is_finite(bits: u32) -> bool {
    bits & 0x7f80_0000u32 != 0x7f80_0000u32
}

/// A binary64 value is finite when its exponent field is not all ones.
pub open spec fn binary64_is_finite(bits: u64) -> bool {
    bits & 0x7ff0_0000_0000_0000u64 != 0x7ff0_0000_0000_0000u64
}

/// For a finite binary64 value: it compares greater than zero exactly when
/// the sign bit is clear and the value is not +0.0.
pub open spec fn binary64_is_positive(bits: u64) -> bool {
    bits >> 63u64 == 0 && bits != 0
}

/// For a finite binary32 value: it lies in `0.0..=1.0` exactly when it is a
/// non-negative number whose pattern is at most that of 1.0 (0x3f80_0000), or
/// it is -0.0, which compares equal to 0.0.
pub open spec fn binary32_in_unit_interval(bits: u32) -> bool {
    (bits >> 31u32 == 0 && bits <= 0x3f80_0000u32) || bits == 0x8000_0000u32
}

/// For a finite binary32 value: it compares less than zero exactly when the
/// sign bit is set and the value is not -0.0.
pub open spec fn binary32_is_negative(bits: u32) -> bool {
    bits >> 31u32 == 1 && bits != 0x8000_0000u32
}

fn binary32_finite(bits: u32) -> (r: bool)
    ensures
        r == binary32_is_finite(bits),
{
    bits & 0x7f80_0000u32 != 0x7f80_0000u32
}

// ---------------------------------------------------------------------------
// Errors
// ---------------------------------------------------------------------------
#[derive(Clone, Copy, Debug, PartialEq, Eq, Structural)]
pub enum CacheError {
    InvalidMagic,
    UnsupportedVersion,
    InvalidLength,
    InvalidData,
    TooLarge,
}

impl CacheError {
    /// The human-readable description of the error.
    pub fn message(&self) -> (text: &'static str)
        ensures
            text@ == match self {
                CacheError::InvalidMagic => "invalid analysis cache magic"@,
                CacheError::UnsupportedVersion => "unsupported analysis cache version"@,
                CacheError::InvalidLength => "invalid analysis cache length"@,
                CacheError::InvalidData => "invalid analysis cache data"@,
                CacheError::TooLarge => "analysis cache is too large"@,
            },
    {
        match self {
            CacheError::InvalidMagic => "invalid analysis cache magic",
            CacheError::UnsupportedVersion => "unsupported analysis cache version",
            CacheError::InvalidLength => "invalid analysis cache length",
            CacheError::InvalidData => "invalid analysis cache data",
            CacheError::TooLarge => "analysis cache is too large",
        }
    }
}

// ---------------------------------------------------------------------------
// Byte-level model of the common header
// ---------------------------------------------------------------------------
/// "DJWAVE01"
pub open spec fn waveform_magic() -> Seq<u8> {
    seq![0x44u8, 0x4au8, 0x57u8, 0x41u8, 0x56u8, 0x45u8, 0x30u8, 0x31u8]
}

/// "DJBEAT01"
pub open spec fn beat_grid_magic() -> Seq<u8> {
    seq![0x44u8, 0x4au8, 0x42u8, 0x45u8, 0x41u8, 0x54u8, 0x30u8, 0x31u8]
}

pub open spec fn u16_at(b: Seq<u8>, i: int) -> u16 {
    spec_u16_from_le_bytes(b.subrange(i, i + 2))
}

pub open spec fn u32_at(b: Seq<u8>, i: int) -> u32 {
    spec_u32_from_le_bytes(b.subrange(i, i + 4))
}

pub open spec fn u64_at(b: Seq<u8>, i: int) -> u64 {
    spec_u64_from_le_bytes(b.subrange(i, i + 8))
}

/// The source attributes every cache must have: a rate, channels and frames.
pub open spec fn common_ok(sample_rate: u32, channels: u16, frames: u64) -> bool {
    sample_rate != 0 && channels != 0 && frames != 0
}

pub open spec fn header_bytes(
    magic: Seq<u8>,
    format_version: u16,
    digest: Seq<u8>,
    sample_rate: u32,
    channels: u16,
    frames: u64,
) -> Seq<u8> {
    magic + spec_u16_to_le_bytes(format_version) + spec_u16_to_le_bytes(0) + spec_u32_to_le_bytes(
        ANALYSIS_VERSION,
    ) + digest + spec_u32_to_le_bytes(sample_rate) + spec_u16_to_le_bytes(channels)
        + spec_u16_to_le_bytes(0) + spec_u64_to_le_bytes(frames) + spec_u32_to_le_bytes(0)
}

pub struct HeaderModel {
    pub digest: Seq<u8>,
    pub sample_rate: u32,
    pub channels: u16,
    pub frames: u64,
}

/// How a reader judges the first 68 bytes: too short, wrong magic, a
/// version or reserved field it does not know, or source attributes that
/// are zero.
pub open spec fn parse_header(b: Seq<u8>, magic: Seq<u8>, format_version: u16) -> Result<
    HeaderModel,
    CacheError,
> {
    if b.len() < 68 {
        Err(CacheError::InvalidLength)
    } else if b.subrange(0, 8) != magic {
        Err(CacheError::InvalidMagic)
    } else if u16_at(b, 8) != format_version || u16_at(b, 10) != 0 || u32_at(b, 12)
        != ANALYSIS_VERSION {
        Err(CacheError::UnsupportedVersion)
    } else if u16_at(b, 54) != 0 || u32_at(b, 64) != 0 {
        Err(CacheError::UnsupportedVersion)
    } else if !common_ok(u32_at(b, 48), u16_at(b, 52), u64_at(b, 56)) {
        Err(CacheError::InvalidData)
    } else {
        Ok(
            HeaderModel {
                digest: b.subrange(16, 48),
                sample_rate: u32_at(b, 48),
                channels: u16_at(b, 52),
                frames: u64_at(b, 56),
            },
        )
    }
}

// ---------------------------------------------------------------------------
// Writing
// ---------------------------------------------------------------------------
fn write_u16(output: &mut Vec<u8>, value: u16)
    ensures
        final(output)@ == old(output)@ + spec_u16_to_le_bytes(value),
{
    let mut bytes = u16_to_le_bytes(value);
    output.append(&mut bytes);
}

fn write_u32(output: &mut Vec<u8>, value: u32)
    ensures
        final(output)@ == old(output)@ + spec_u32_to_le_bytes(value),
{
    let mut bytes = u32_to_le_bytes(value);
    output.append(&mut bytes);
}

fn write_u64(output: &mut Vec<u8>, value: u64)
    ensures
        final(output)@ == old(output)@ + spec_u64_to_le_bytes(value),
{
    let mut bytes = u64_to_le_bytes(value);
    output.append(&mut bytes);
}

fn write_magic(output: &mut Vec<u8>, waveform: bool)
    ensures
        final(output)@ == old(output)@ + (if waveform {
            waveform_magic()
        } else {
            beat_grid_magic()
        }),
{
    let ghost start = output@;
    output.push(0x44u8);
    output.push(0x4au8);
    if waveform {
        output.push(0x57u8);
        output.push(0x41u8);
        output.push(0x56u8);
        output.push(0x45u8);
    } else {
        output.push(0x42u8);
        output.push(0x45u8);
        output.push(0x41u8);
        output.push(0x54u8);
    }
    output.push(0x30u8);
    output.push(0x31u8);
    assert(output@ =~= start + (if waveform {
        waveform_magic()
    } else {
        beat_grid_magic()
    }));
}

fn write_common_header(
    output: &mut Vec<u8>,
    waveform: bool,
    format_version: u16,
    identity_digest: &[u8; 32],
    sample_rate: u32,
    channels: u16,
    frames: u64,
)
    ensures
        final(output)@ == old(output)@ + header_bytes(
            if waveform {
                waveform_magic()
            } else {
                beat_grid_magic()
            },
            format_version,
            identity_digest@,
            sample_rate,
            channels,
            frames,
        ),
{
    let ghost start = output@;
    write_magic(output, waveform);
    write_u16(output, format_version);
    write_u16(output, 0);
    write_u32(output, ANALYSIS_VERSION);
    let ghost before_digest = output@;
    let mut i: usize = 0;
    while i < 32
        invariant
            0 <= i <= 32,
            output@ == before_digest + identity_digest@.subrange(0, i as int),
        decreases 32 - i,
    {
        output.push(identity_digest[i]);
        assert(identity_digest@.subrange(0, i + 1) =~= identity_digest@.subrange(0, i as int).push(
            identity_digest@[i as int],
        ));
        i = i + 1;
    }
    assert(identity_digest@.subrange(0, 32) =~= identity_digest@);
    write_u32(output, sample_rate);
    write_u16(output, channels);
    write_u16(output, 0);
    write_u64(output, frames);
    write_u32(output, 0);
    assert(output@ =~= start + header_bytes(
        if waveform {
            waveform_magic()
        } else {
            beat_grid_magic()
        },
        format_version,
        identity_digest@,
        sample_rate,
        channels,
        frames,
    ));
}

// ---------------------------------------------------------------------------
// Reading
// ---------------------------------------------------------------------------
struct Reader<'a> {
    bytes: &'a [u8],
    offset: usize,
}

impl<'a> Reader<'a> {
    spec fn wf(&self) -> bool {
        self.offset <= self.bytes@.len()
    }

    fn new(bytes: &'a [u8]) -> (reader: Self)
        ensures
            reader.wf(),
            reader.bytes@ == bytes@,
            reader.offset == 0,
    {
        Reader { bytes, offset: 0 }
    }

    fn remaining(&self) -> (count: usize)
        requires
            self.wf(),
        ensures
            count == self.bytes@.len() - self.offset,
    {
        self.bytes.len() - self.offset
    }

    /// Takes `length` bytes, or fails without moving when fewer remain.
    fn take(&mut self, length: usize) -> (taken: Result<&'a [u8], CacheError>)
        requires
            old(self).wf(),
        ensures
            final(self).wf(),
            final(self).bytes@ == old(self).bytes@,
            match taken {
                Ok(s) => {
                    &&& old(self).offset + length <= old(self).bytes@.len()
                    &&& s@ == old(self).bytes@.subrange(
                        old(self).offset as int,
                        old(self).offset + length,
                    )
                    &&& final(self).offset == old(self).offset + length
                },
                Err(e) => {
                    &&& e == CacheError::InvalidLength
                    &&& old(self).offset + length > old(self).bytes@.len()
                    &&& final(self).offset == old(self).offset
                },
            },
    {
        if length > self.bytes.len() - self.offset {
            return Err(CacheError::InvalidLength);
        }
        let end = self.offset + length;
        let value = slice_subrange(self.bytes, self.offset, end);
        self.offset = end;
        Ok(value)
    }

    fn read_u8(&mut self) -> (value: Result<u8, CacheError>)
        requires
            old(self).wf(),
        ensures
            final(self).wf(),
            final(self).bytes@ == old(self).bytes@,
            match value {
                Ok(v) => {
                    &&& old(self).offset + 1 <= old(self).bytes@.len()
                    &&& v == old(self).bytes@[old(self).offset as int]
                    &&& final(self).offset == old(self).offset + 1
                },
                Err(e) => e == CacheError::InvalidLength && old(self).offset + 1 > old(
                    self,
                ).bytes@.len(),
            },
    {
        let s = self.take(1)?;
        Ok(s[0])
    }

    fn read_u16(&mut self) -> (value: Result<u16, CacheError>)
        requires
            old(self).wf(),
        ensures
            final(self).wf(),
            final(self).bytes@ == old(self).bytes@,
            match value {
                Ok(v) => {
                    &&& old(self).offset + 2 <= old(self).bytes@.len()
                    &&& v == u16_at(old(self).bytes@, old(self).offset as int)
                    &&& final(self).offset == old(self).offset + 2
                },
                Err(e) => e == CacheError::InvalidLength && old(self).offset + 2 > old(
                    self,
                ).bytes@.len(),
            },
    {
        let s = self.take(2)?;
        Ok(u16_from_le_bytes(s))
    }

    fn read_u32(&mut self) -> (value: Result<u32, CacheError>)
        requires
            old(self).wf(),
        ensures
            final(self).wf(),
            final(self).bytes@ == old(self).bytes@,
            match value {
                Ok(v) => {
                    &&& old(self).offset + 4 <= old(self).bytes@.len()
                    &&& v == u32_at(old(self).bytes@, old(self).offset as int)
                    &&& final(self).offset == old(self).offset + 4
                },
                Err(e) => e == CacheError::InvalidLength && old(self).offset + 4 > old(
                    self,
                ).bytes@.len(),
            },
    {
        let s = self.take(4)?;
        Ok(u32_from_le_bytes(s))
    }

    fn read_u64(&mut self) -> (value: Result<u64, CacheError>)
        requires
            old(self).wf(),
        ensures
            final(self).wf(),
            final(self).bytes@ == old(self).bytes@,
            match value {
                Ok(v) => {
                    &&& old(self).offset + 8 <= old(self).bytes@.len()
                    &&& v == u64_at(old(self).bytes@, old(self).offset as int)
                    &&& final(self).offset == old(self).offset + 8
                },
                Err(e) => e == CacheError::InvalidLength && old(self).offset + 8 > old(
                    self,
                ).bytes@.len(),
            },
    {
        let s = self.take(8)?;
        Ok(u64_from_le_bytes(s))
    }

    fn skip(&mut self, length: usize) -> (skipped: Result<(), CacheError>)
        requires
            old(self).wf(),
        ensures
            final(self).wf(),
            final(self).bytes@ == old(self).bytes@,
            match skipped {
                Ok(_) => old(self).offset + length <= old(self).bytes@.len() && final(self).offset
                    == old(self).offset + length,
                Err(e) => e == CacheError::InvalidLength && old(self).offset + length > old(
                    self,
                ).bytes@.len(),
            },
    {
        let _ = self.take(length)?;
        Ok(())
    }

    fn finish(self) -> (done: Result<(), CacheError>)
        requires
            self.wf(),
        ensures
            done is Ok <==> self.offset == self.bytes@.len(),
            done matches Err(e) ==> e == CacheError::InvalidLength,
    {
        if self.offset == self.bytes.len() {
            Ok(())
        } else {
            Err(CacheError::InvalidLength)
        }
    }

    fn read_magic(&mut self, waveform: bool) -> (matches: bool)
        requires
            old(self).wf(),
            old(self).offset == 0,
            old(self).bytes@.len() >= 68,
        ensures
            final(self).wf(),
            final(self).bytes@ == old(self).bytes@,
            final(self).offset == 8,
            matches == (old(self).bytes@.subrange(0, 8) == if waveform {
                waveform_magic()
            } else {
                beat_grid_magic()
            }),
    {
        let s = match self.take(8) {
            Ok(s) => s,
            Err(_) => {
                assert(false);
                return false;
            },
        };
        let ghost expected = if waveform {
            waveform_magic()
        } else {
            beat_grid_magic()
        };
        let third: u8 = if waveform { 0x57 } else { 0x42 };
        let fourth: u8 = if waveform { 0x41 } else { 0x45 };
        let fifth: u8 = if waveform { 0x56 } else { 0x41 };
        let sixth: u8 = if waveform { 0x45 } else { 0x54 };
        let same = s[0] == 0x44 && s[1] == 0x4a && s[2] == third && s[3] == fourth && s[4]
            == fifth && s[5] == sixth && s[6] == 0x30 && s[7] == 0x31;
        proof {
            if same {
                assert(s@ =~= expected);
            } else {
                assert(s@ != expected) by {
                    if s@ == expected {
                        assert(s@[0] == expected[0]);
                        assert(s@[1] == expected[1]);
                        assert(s@[2] == expected[2]);
                        assert(s@[3] == expected[3]);
                        assert(s@[4] == expected[4]);
                        assert(s@[5] == expected[5]);
                        assert(s@[6] == expected[6]);
                        assert(s@[7] == expected[7]);
                    }
                }
            }
        }
        same
    }

    fn read_common_header(&mut self, waveform: bool, expected_format: u16) -> (header: Result<
        CommonHeader,
        CacheError,
    >)
        requires
            old(self).wf(),
            old(self).offset == 0,
        ensures
            final(self).wf(),
            final(self).bytes@ == old(self).bytes@,
            match header {
                Ok(h) => {
                    &&& parse_header(
                        old(self).bytes@,
                        if waveform {
                            waveform_magic()
                        } else {
                            beat_grid_magic()
                        },
                        expected_format,
                    ) == Ok::<HeaderModel, CacheError>(h.model())
                    &&& final(self).offset == 68
                },
                Err(e) => parse_header(
                    old(self).bytes@,
                    if waveform {
                        waveform_magic()
                    } else {
                        beat_grid_magic()
                    },
                    expected_format,
                ) == Err::<HeaderModel, CacheError>(e),
            },
    {
        let ghost b = self.bytes@;
        if self.bytes.len() < COMMON_HEADER_BYTES {
            return Err(CacheError::InvalidLength);
        }
        if !self.read_magic(waveform) {
            return Err(CacheError::InvalidMagic);
        }
        let format = match self.read_u16() {
            Ok(v) => v,
            Err(e) => return Err(e),
        };
        if format != expected_format {
            return Err(CacheError::UnsupportedVersion);
        }
        let reserved = match self.read_u16() {
            Ok(v) => v,
            Err(e) => return Err(e),
        };
        if reserved != 0 {
            return Err(CacheError::UnsupportedVersion);
        }
        let version = match self.read_u32() {
            Ok(v) => v,
            Err(e) => return Err(e),
        };
        if version != ANALYSIS_VERSION {
            return Err(CacheError::UnsupportedVersion);
        }
        let digest_bytes = match self.take(32) {
            Ok(s) => s,
            Err(e) => return Err(e),
        };
        let mut identity_digest = [0u8; 32];
        let mut i: usize = 0;
        while i < 32
            invariant
                0 <= i <= 32,
                digest_bytes@.len() == 32,
                forall|k: int| 0 <= k < i ==> identity_digest@[k] == digest_bytes@[k],
            decreases 32 - i,
        {
            identity_digest[i] = digest_bytes[i];
            i = i + 1;
        }
        assert(identity_digest@ =~= digest_bytes@);
        let source_sample_rate = match self.read_u32() {
            Ok(v) => v,
            Err(e) => return Err(e),
        };
        let source_channels = match self.read_u16() {
            Ok(v) => v,
            Err(e) => return Err(e),
        };
        let reserved_channels = match self.read_u16() {
            Ok(v) => v,
            Err(e) => return Err(e),
        };
        if reserved_channels != 0 {
            return Err(CacheError::UnsupportedVersion);
        }
        let source_frames = match self.read_u64() {
            Ok(v) => v,
            Err(e) => return Err(e),
        };
        let reserved_tail = match self.read_u32() {
            Ok(v) => v,
            Err(e) => return Err(e),
        };
        if reserved_tail != 0 {
            return Err(CacheError::UnsupportedVersion);
        }
        if source_sample_rate == 0 || source_channels == 0 || source_frames == 0 {
            return Err(CacheError::InvalidData);
        }
        Ok(CommonHeader { identity_digest, source_sample_rate, source_channels, source_frames })
    }
}

struct CommonHeader {
    identity_digest: [u8; 32],
    source_sample_rate: u32,
    source_channels: u16,
    source_frames: u64,
}

impl CommonHeader {
    spec fn model(&self) -> HeaderModel {
        HeaderModel {
            digest: self.identity_digest@,
            sample_rate: self.source_sample_rate,
            channels: self.source_channels,
            frames: self.source_frames,
        }
    }
}

fn usize_to_u32(value: usize) -> (converted: Result<u32, CacheError>)
    ensures
        match converted {
            Ok(v) => value <= u32::MAX && v == value,
            Err(e) => value > u32::MAX && e == CacheError::TooLarge,
        },
{
    if value > (u32::MAX as usize) {
        Err(CacheError::TooLarge)
    } else {
        Ok(value as u32)
    }
}


// ---------------------------------------------------------------------------
// Beat grids
// ---------------------------------------------------------------------------
/// One tracked beat: its frame in the source, its onset strength (binary32
/// bits) and whether it starts a bar.
#[derive(Clone, Copy, Debug, PartialEq, Eq, Structural)]
pub struct BeatRecord {
    pub source_frame: u64,
    pub strength: u32,
    pub downbeat: bool,
}

/// A beat grid: tempo (binary64 bits), confidence (binary32 bits) and the
/// beats in source frames.
#[derive(Clone, Debug, PartialEq, Eq)]
pub struct BeatGridCache {
    pub identity_digest: [u8; 32],
    pub source_sample_rate: u32,
    pub source_channels: u16,
    pub source_frames: u64,
    pub bpm: u64,
    pub confidence: u32,
    pub beats: Vec<BeatRecord>,
}

#[verifier::ext_equal]
pub struct BeatGridModel {
    pub digest: Seq<u8>,
    pub sample_rate: u32,
    pub channels: u16,
    pub frames: u64,
    pub bpm: u64,
    pub confidence: u32,
    pub beats: Seq<BeatRecord>,
}

impl View for BeatGridCache {
    type V = BeatGridModel;

    open spec fn view(&self) -> BeatGridModel {
        BeatGridModel {
            digest: self.identity_digest@,
            sample_rate: self.source_sample_rate,
            channels: self.source_channels,
            frames: self.source_frames,
            bpm: self.bpm,
            confidence: self.confidence,
            beats: self.beats@,
        }
    }
}

/// A beat lies inside the source and has a finite, non-negative strength.
pub open spec fn beat_ok(beat: BeatRecord, source_frames: u64) -> bool {
    &&& beat.source_frame < source_frames
    &&& binary32_is_finite(beat.strength)
    &&& !binary32_is_negative(beat.strength)
}

/// A grid has a finite positive tempo, a finite confidence in `0.0..=1.0`,
/// valid beats, and strictly increasing beat frames.
pub open spec fn grid_ok(bpm: u64, confidence: u32, source_frames: u64, beats: Seq<BeatRecord>) -> bool {
    &&& binary64_is_finite(bpm)
    &&& binary64_is_positive(bpm)
    &&& binary32_is_finite(confidence)
    &&& binary32_in_unit_interval(confidence)
    &&& forall|i: int| 0 <= i < beats.len() ==> beat_ok(#[trigger] beats[i], source_frames)
    &&& forall|i: int, j: int|
        0 <= i < j < beats.len() ==> #[trigger] beats[i].source_frame
            < #[trigger] beats[j].source_frame
}

pub open spec fn record_bytes(beat: BeatRecord) -> Seq<u8> {
    spec_u64_to_le_bytes(beat.source_frame) + spec_u32_to_le_bytes(beat.strength) + seq![
        if beat.downbeat {
            1u8
        } else {
            0u8
        },
        0u8,
        0u8,
        0u8,
    ]
}

pub open spec fn beats_bytes(beats: Seq<BeatRecord>) -> Seq<u8>
    decreases beats.len(),
{
    if beats.len() == 0 {
        Seq::empty()
    } else {
        beats_bytes(beats.drop_last()) + record_bytes(beats.last())
    }
}

/// The bytes of a beat-grid file.
pub open spec fn beat_grid_bytes(m: BeatGridModel) -> Seq<u8> {
    header_bytes(beat_grid_magic(), BEAT_GRID_FORMAT_VERSION, m.digest, m.sample_rate, m.channels, m.frames)
        + spec_u64_to_le_bytes(m.bpm) + spec_u32_to_le_bytes(m.confidence)
        + spec_u32_to_le_bytes(m.beats.len() as u32) + beats_bytes(m.beats)
}

/// Why a grid cannot be written, if it cannot.
pub open spec fn beat_grid_encode_error(m: BeatGridModel) -> Option<CacheError> {
    if !common_ok(m.sample_rate, m.channels, m.frames) || !grid_ok(m.bpm, m.confidence, m.frames, m.beats) {
        Some(CacheError::InvalidData)
    } else if m.beats.len() > u32::MAX {
        Some(CacheError::TooLarge)
    } else {
        None
    }
}

/// The beats that a file of `count` records holds after the 84 bytes of
/// header, tempo, confidence and count.
pub open spec fn beats_at(b: Seq<u8>, count: nat) -> Seq<BeatRecord> {
    Seq::new(
        count,
        |k: int|
            BeatRecord {
                source_frame: u64_at(b, 84 + 16 * k),
                strength: u32_at(b, 92 + 16 * k),
                downbeat: b[96 + 16 * k] == 1,
            },
    )
}

/// Every downbeat flag byte is 0 or 1.
pub open spec fn flags_ok(b: Seq<u8>, count: nat) -> bool {
    forall|k: int| 0 <= k < count ==> #[trigger] b[96 + 16 * k] <= 1
}

/// How a reader judges a beat-grid file.
pub open spec fn parse_beat_grid(b: Seq<u8>) -> Result<BeatGridModel, CacheError> {
    match parse_header(b, beat_grid_magic(), BEAT_GRID_FORMAT_VERSION) {
        Err(e) => Err(e),
        Ok(h) => {
            if b.len() < 84 {
                Err(CacheError::InvalidLength)
            } else {
                let count = u32_at(b, 80);
                if count * 16 > usize::MAX {
                    Err(CacheError::TooLarge)
                } else if b.len() - 84 != count * 16 {
                    Err(CacheError::InvalidLength)
                } else if !flags_ok(b, count as nat) || !grid_ok(
                    u64_at(b, 68),
                    u32_at(b, 76),
                    h.frames,
                    beats_at(b, count as nat),
                ) {
                    Err(CacheError::InvalidData)
                } else {
                    Ok(
                        BeatGridModel {
                            digest: h.digest,
                            sample_rate: h.sample_rate,
                            channels: h.channels,
                            frames: h.frames,
                            bpm: u64_at(b, 68),
                            confidence: u32_at(b, 76),
                            beats: beats_at(b, count as nat),
                        },
                    )
                }
            }
        },
    }
}

fn validate_grid(bpm: u64, confidence: u32, source_frames: u64, beats: &[BeatRecord]) -> (checked:
    Result<(), CacheError>)
    ensures
        checked is Ok <==> grid_ok(bpm, confidence, source_frames, beats@),
        checked matches Err(e) ==> e == CacheError::InvalidData,
{
    if bpm & 0x7ff0_0000_0000_0000u64 == 0x7ff0_0000_0000_0000u64 || bpm >> 63u64 != 0 || bpm
        == 0 || !binary32_finite(confidence) || !((confidence >> 31u32 == 0 && confidence
        <= 0x3f80_0000u32) || confidence == 0x8000_0000u32) {
        return Err(CacheError::InvalidData);
    }
    let mut i: usize = 0;
    while i < beats.len()
        invariant
            0 <= i <= beats@.len(),
            forall|k: int| 0 <= k < i ==> beat_ok(#[trigger] beats@[k], source_frames),
            forall|k: int, l: int|
                0 <= k < l < i ==> #[trigger] beats@[k].source_frame
                    < #[trigger] beats@[l].source_frame,
        decreases beats@.len() - i,
    {
        let beat = beats[i];
        if beat.source_frame >= source_frames || !binary32_finite(beat.strength) || (
        beat.strength >> 31u32 == 1 && beat.strength != 0x8000_0000u32) {
            assert(!beat_ok(beats@[i as int], source_frames));
            return Err(CacheError::InvalidData);
        }
        if i > 0 && beat.source_frame <= beats[i - 1].source_frame {
            assert(!(beats@[i - 1].source_frame < beats@[i as int].source_frame));
            return Err(CacheError::InvalidData);
        }
        proof {
            if i > 0 {
                assert forall|k: int| 0 <= k < i implies #[trigger] beats@[k].source_frame
                    < beats@[i as int].source_frame by {
                    if k < i - 1 {
                        assert(beats@[k].source_frame < beats@[i - 1].source_frame);
                    }
                }
            }
        }
        i = i + 1;
    }
    Ok(())
}

impl BeatGridCache {
    /// Writes the grid in its file format, after checking it.
    pub fn encode(&self) -> (encoded: Result<Vec<u8>, CacheError>)
        ensures
            match encoded {
                Ok(out) => beat_grid_encode_error(self@) is None && out@ == beat_grid_bytes(self@),
                Err(e) => beat_grid_encode_error(self@) == Some(e),
            },
    {
        if self.source_sample_rate == 0 || self.source_channels == 0 || self.source_frames == 0 {
            return Err(CacheError::InvalidData);
        }
        validate_grid(self.bpm, self.confidence, self.source_frames, self.beats.as_slice())?;
        let count = usize_to_u32(self.beats.len())?;
        let mut output: Vec<u8> = Vec::new();
        write_common_header(
            &mut output,
            false,
            BEAT_GRID_FORMAT_VERSION,
            &self.identity_digest,
            self.source_sample_rate,
            self.source_channels,
            self.source_frames,
        );
        write_u64(&mut output, self.bpm);
        write_u32(&mut output, self.confidence);
        write_u32(&mut output, count);
        let ghost prefix = output@;
        let mut i: usize = 0;
        while i < self.beats.len()
            invariant
                0 <= i <= self.beats@.len(),
                output@ == prefix + beats_bytes(self.beats@.take(i as int)),
            decreases self.beats@.len() - i,
        {
            let beat = self.beats[i];
            write_u64(&mut output, beat.source_frame);
            write_u32(&mut output, beat.strength);
            output.push(if beat.downbeat { 1u8 } else { 0u8 });
            output.push(0u8);
            output.push(0u8);
            output.push(0u8);
            proof {
                assert(self.beats@.take(i + 1).drop_last() =~= self.beats@.take(i as int));
                assert(self.beats@.take(i + 1).last() == beat);
                assert(output@ =~= prefix + beats_bytes(self.beats@.take(i + 1)));
            }
            i = i + 1;
        }
        assert(self.beats@.take(self.beats@.len() as int) =~= self.beats@);
        Ok(output)
    }

    /// Reads a beat-grid file: the grid it holds, or why it holds none.
    pub fn decode(bytes: &[u8]) -> (decoded: Result<BeatGridCache, CacheError>)
        ensures
            match decoded {
                Ok(c) => parse_beat_grid(bytes@) == Ok::<BeatGridModel, CacheError>(c@),
                Err(e) => parse_beat_grid(bytes@) == Err::<BeatGridModel, CacheError>(e),
            },
    {
        let ghost b = bytes@;
        let mut reader = Reader::new(bytes);
        let header = reader.read_common_header(false, BEAT_GRID_FORMAT_VERSION)?;
        let bpm = reader.read_u64()?;
        let confidence = reader.read_u32()?;
        let beat_count = reader.read_u32()? as usize;
        let expected = match beat_count.checked_mul(BEAT_RECORD_BYTES) {
            Some(v) => v,
            None => return Err(CacheError::TooLarge),
        };
        if reader.remaining() != expected {
            return Err(CacheError::InvalidLength);
        }
        let ghost count = beat_count as nat;
        let mut beats: Vec<BeatRecord> = Vec::new();
        let mut k: usize = 0;
        while k < beat_count
            invariant
                reader.wf(),
                reader.bytes@ == b,
                b == bytes@,
                b.len() == 84 + 16 * count,
                count == beat_count,
                count * 16 <= usize::MAX,
                parse_header(b, beat_grid_magic(), BEAT_GRID_FORMAT_VERSION) == Ok::<
                    HeaderModel,
                    CacheError,
                >(header.model()),
                u32_at(b, 80) == count,
                u64_at(b, 68) == bpm,
                u32_at(b, 76) == confidence,
                0 <= k <= beat_count,
                reader.offset == 84 + 16 * k,
                beats@ =~= beats_at(b, count).take(k as int),
                forall|j: int| 0 <= j < k ==> #[trigger] b[96 + 16 * j] <= 1,
            decreases beat_count - k,
        {
            let source_frame = reader.read_u64()?;
            let strength = reader.read_u32()?;
            let flag = reader.read_u8()?;
            if flag > 1 {
                assert(flag == b[96 + 16 * (k as int)]);
                assert(!flags_ok(b, count)) by {
                    assert(!(b[96 + 16 * (k as int)] <= 1));
                }
                return Err(CacheError::InvalidData);
            }
            let downbeat = flag == 1;
            reader.skip(3)?;
            beats.push(BeatRecord { source_frame, strength, downbeat });
            k = k + 1;
        }
        assert(beats@ =~= beats_at(b, count));
        validate_grid(bpm, confidence, header.source_frames, beats.as_slice())?;
        reader.finish()?;
        Ok(
            BeatGridCache {
                identity_digest: header.identity_digest,
                source_sample_rate: header.source_sample_rate,
                source_channels: header.source_channels,
                source_frames: header.source_frames,
                bpm,
                confidence,
                beats,
            },
        )
    }
}


// ---------------------------------------------------------------------------
// Waveform pyramids
// ---------------------------------------------------------------------------
/// One level of the pyramid: buckets of `bucket_frames` source frames, each
/// bucket holding minimum, maximum and RMS (binary32 bits) per channel.
#[derive(Clone, Debug, PartialEq, Eq)]
pub struct WaveformLevel {
    pub bucket_frames: u32,
    pub values: Vec<u32>,
}

#[derive(Clone, Debug, PartialEq, Eq)]
pub struct WaveformCache {
    pub identity_digest: [u8; 32],
    pub source_sample_rate: u32,
    pub source_channels: u16,
    pub source_frames: u64,
    pub levels: Vec<WaveformLevel>,
}

#[verifier::ext_equal]
pub struct LevelModel {
    pub bucket_frames: u32,
    pub values: Seq<u32>,
}

#[verifier::ext_equal]
pub struct WaveformModel {
    pub digest: Seq<u8>,
    pub sample_rate: u32,
    pub channels: u16,
    pub frames: u64,
    pub levels: Seq<LevelModel>,
}

impl View for WaveformLevel {
    type V = LevelModel;

    open spec fn view(&self) -> LevelModel {
        LevelModel { bucket_frames: self.bucket_frames, values: self.values@ }
    }
}

impl View for WaveformCache {
    type V = WaveformModel;

    open spec fn view(&self) -> WaveformModel {
        WaveformModel {
            digest: self.identity_digest@,
            sample_rate: self.source_sample_rate,
            channels: self.source_channels,
            frames: self.source_frames,
            levels: self.levels@.map_values(|l: WaveformLevel| l@),
        }
    }
}

/// Values per bucket: minimum, maximum and RMS for every channel.
pub open spec fn values_per_bucket(channels: u16) -> nat {
    3 * channels as nat
}

/// Why a level cannot be written, if it cannot.
pub open spec fn level_error(level: LevelModel, per_bucket: nat) -> Option<CacheError> {
    if level.bucket_frames == 0 || (exists|i: int|
        0 <= i < level.values.len() && !binary32_is_finite(#[trigger] level.values[i]))
        || level.values.len() % per_bucket != 0 {
        Some(CacheError::InvalidData)
    } else if level.values.len() / per_bucket > u32::MAX {
        Some(CacheError::TooLarge)
    } else {
        None
    }
}

/// The error of the first level, from index `i` on, that cannot be written.
pub open spec fn first_level_error(levels: Seq<LevelModel>, per_bucket: nat, i: int) -> Option<
    CacheError,
>
    decreases levels.len() - i,
{
    if i < 0 || i >= levels.len() {
        None
    } else {
        match level_error(levels[i], per_bucket) {
            Some(e) => Some(e),
            None => first_level_error(levels, per_bucket, i + 1),
        }
    }
}

/// Why a pyramid cannot be written, if it cannot.
pub open spec fn waveform_encode_error(m: WaveformModel) -> Option<CacheError> {
    if !common_ok(m.sample_rate, m.channels, m.frames) {
        Some(CacheError::InvalidData)
    } else if m.levels.len() > u32::MAX {
        Some(CacheError::TooLarge)
    } else {
        first_level_error(m.levels, values_per_bucket(m.channels), 0)
    }
}

pub open spec fn values_bytes(values: Seq<u32>) -> Seq<u8>
    decreases values.len(),
{
    if values.len() == 0 {
        Seq::empty()
    } else {
        values_bytes(values.drop_last()) + spec_u32_to_le_bytes(values.last())
    }
}

pub open spec fn level_bytes(level: LevelModel, per_bucket: nat) -> Seq<u8> {
    spec_u32_to_le_bytes(level.bucket_frames) + spec_u32_to_le_bytes(
        (level.values.len() / per_bucket) as u32,
    ) + values_bytes(level.values)
}

pub open spec fn levels_bytes(levels: Seq<LevelModel>, per_bucket: nat) -> Seq<u8>
    decreases levels.len(),
{
    if levels.len() == 0 {
        Seq::empty()
    } else {
        levels_bytes(levels.drop_last(), per_bucket) + level_bytes(levels.last(), per_bucket)
    }
}

/// The bytes of a waveform file.
pub open spec fn waveform_bytes(m: WaveformModel) -> Seq<u8> {
    header_bytes(waveform_magic(), WAVEFORM_FORMAT_VERSION, m.digest, m.sample_rate, m.channels, m.frames)
        + spec_u32_to_le_bytes(m.levels.len() as u32) + levels_bytes(
        m.levels,
        values_per_bucket(m.channels),
    )
}

/// The `n` values stored from byte `offset` on.
pub open spec fn values_at(b: Seq<u8>, offset: int, n: nat) -> Seq<u32> {
    Seq::new(n, |j: int| u32_at(b, offset + 4 * j))
}

/// A reader takes `n` values one by one from byte `offset`: it stops at the
/// first value that is not finite, or where the bytes run out.
pub open spec fn values_error(b: Seq<u8>, offset: int, n: nat) -> Option<CacheError> {
    if exists|j: int|
        0 <= j < n && offset + 4 * j + 4 <= b.len() && !binary32_is_finite(
            #[trigger] u32_at(b, offset + 4 * j),
        ) {
        Some(CacheError::InvalidData)
    } else if offset + 4 * n > b.len() {
        Some(CacheError::InvalidLength)
    } else {
        None
    }
}

/// How a reader judges the level that starts at byte `offset`: the level and
/// the offset after it, or why it is invalid.
pub open spec fn parse_level(b: Seq<u8>, offset: int, per_bucket: nat) -> Result<
    (LevelModel, int),
    CacheError,
> {
    if offset + 8 > b.len() {
        Err(CacheError::InvalidLength)
    } else {
        let bucket_frames = u32_at(b, offset);
        let n = (u32_at(b, offset + 4) * per_bucket) as nat;
        if n > usize::MAX {
            Err(CacheError::TooLarge)
        } else if bucket_frames == 0 {
            Err(CacheError::InvalidData)
        } else {
            match values_error(b, offset + 8, n) {
                Some(e) => Err(e),
                None => Ok(
                    (
                        LevelModel { bucket_frames, values: values_at(b, offset + 8, n) },
                        offset + 8 + 4 * n,
                    ),
                ),
            }
        }
    }
}

/// The first `n` levels read from byte `start` on, and the offset after them.
pub open spec fn parse_levels(b: Seq<u8>, start: int, n: nat, per_bucket: nat) -> Result<
    (Seq<LevelModel>, int),
    CacheError,
>
    decreases n,
{
    if n == 0 {
        Ok((Seq::empty(), start))
    } else {
        match parse_levels(b, start, (n - 1) as nat, per_bucket) {
            Err(e) => Err(e),
            Ok((levels, offset)) => match parse_level(b, offset, per_bucket) {
                Err(e) => Err(e),
                Ok((level, next)) => Ok((levels.push(level), next)),
            },
        }
    }
}

/// How a reader judges a waveform file.
pub open spec fn parse_waveform(b: Seq<u8>) -> Result<WaveformModel, CacheError> {
    match parse_header(b, waveform_magic(), WAVEFORM_FORMAT_VERSION) {
        Err(e) => Err(e),
        Ok(h) => {
            if b.len() < 72 {
                Err(CacheError::InvalidLength)
            } else if u32_at(b, 68) > (b.len() - 72) / 8 {
                Err(CacheError::InvalidLength)
            } else {
                match parse_levels(b, 72, u32_at(b, 68) as nat, values_per_bucket(h.channels)) {
                    Err(e) => Err(e),
                    Ok((levels, end)) => {
                        if end != b.len() {
                            Err(CacheError::InvalidLength)
                        } else {
                            Ok(
                                WaveformModel {
                                    digest: h.digest,
                                    sample_rate: h.sample_rate,
                                    channels: h.channels,
                                    frames: h.frames,
                                    levels,
                                },
                            )
                        }
                    },
                }
            }
        },
    }
}

proof fn lemma_first_level_error_step(levels: Seq<LevelModel>, per_bucket: nat, i: int)
    requires
        0 <= i < levels.len(),
        level_error(levels[i], per_bucket) is None,
    ensures
        first_level_error(levels, per_bucket, i) == first_level_error(levels, per_bucket, i + 1),
{
}

proof fn lemma_parse_levels_error(
    b: Seq<u8>,
    start: int,
    i: nat,
    n: nat,
    per_bucket: nat,
    e: CacheError,
)
    requires
        i <= n,
        parse_levels(b, start, i, per_bucket) == Err::<(Seq<LevelModel>, int), CacheError>(e),
    ensures
        parse_levels(b, start, n, per_bucket) == Err::<(Seq<LevelModel>, int), CacheError>(e),
    decreases n - i,
{
    if i < n {
        lemma_parse_levels_error(b, start, i, (n - 1) as nat, per_bucket, e);
    }
}

fn encode_level(output: &mut Vec<u8>, level: &WaveformLevel, per_bucket: usize) -> (written:
    Result<(), CacheError>)
    requires
        per_bucket > 0,
    ensures
        match written {
            Ok(_) => level_error(level@, per_bucket as nat) is None && final(output)@ == old(
                output,
            )@ + level_bytes(level@, per_bucket as nat),
            Err(e) => level_error(level@, per_bucket as nat) == Some(e),
        },
{
    let mut all_finite = true;
    let mut i: usize = 0;
    while i < level.values.len()
        invariant
            0 <= i <= level.values@.len(),
            all_finite == forall|k: int|
                0 <= k < i ==> binary32_is_finite(#[trigger] level.values@[k]),
        decreases level.values@.len() - i,
    {
        if !binary32_finite(level.values[i]) {
            all_finite = false;
        }
        i = i + 1;
    }
    if level.bucket_frames == 0 || !all_finite || level.values.len() % per_bucket != 0 {
        proof {
            if !all_finite {
                let k = choose|k: int|
                    0 <= k < level.values@.len() && !binary32_is_finite(#[trigger] level.values@[k]);
                assert(!binary32_is_finite(level@.values[k]));
            }
        }
        return Err(CacheError::InvalidData);
    }
    let bucket_count = usize_to_u32(level.values.len() / per_bucket)?;
    write_u32(output, level.bucket_frames);
    write_u32(output, bucket_count);
    let ghost prefix = output@;
    let mut j: usize = 0;
    while j < level.values.len()
        invariant
            0 <= j <= level.values@.len(),
            output@ == prefix + values_bytes(level.values@.take(j as int)),
        decreases level.values@.len() - j,
    {
        write_u32(output, level.values[j]);
        proof {
            assert(level.values@.take(j + 1).drop_last() =~= level.values@.take(j as int));
        }
        j = j + 1;
    }
    assert(level.values@.take(level.values@.len() as int) =~= level.values@);
    Ok(())
}

fn decode_level(reader: &mut Reader, per_bucket: usize) -> (level: Result<WaveformLevel, CacheError>)
    requires
        old(reader).wf(),
        per_bucket > 0,
    ensures
        final(reader).wf(),
        final(reader).bytes@ == old(reader).bytes@,
        match level {
            Ok(l) => parse_level(old(reader).bytes@, old(reader).offset as int, per_bucket as nat)
                == Ok::<(LevelModel, int), CacheError>((l@, final(reader).offset as int)),
            Err(e) => parse_level(old(reader).bytes@, old(reader).offset as int, per_bucket as nat)
                == Err::<(LevelModel, int), CacheError>(e),
        },
{
    let ghost b = reader.bytes@;
    let ghost start = reader.offset as int;
    let bucket_frames = reader.read_u32()?;
    let bucket_count = match reader.read_u32() {
        Ok(v) => v as usize,
        Err(e) => return Err(e),
    };
    let value_count = match bucket_count.checked_mul(per_bucket) {
        Some(v) => v,
        None => return Err(CacheError::TooLarge),
    };
    if bucket_frames == 0 {
        return Err(CacheError::InvalidData);
    }
    let ghost n = value_count as nat;
    let ghost values_start = start + 8;
    let mut values: Vec<u32> = Vec::new();
    let mut j: usize = 0;
    while j < value_count
        invariant
            reader.wf(),
            reader.bytes@ == b,
            b == old(reader).bytes@,
            start == old(reader).offset,
            values_start == start + 8,
            start + 8 <= b.len(),
            u32_at(b, start) == bucket_frames,
            bucket_frames != 0,
            n == u32_at(b, start + 4) * per_bucket,
            n <= usize::MAX,
            n == value_count,
            0 <= j <= value_count,
            reader.offset == values_start + 4 * j,
            values@ =~= values_at(b, values_start, n).take(j as int),
            forall|t: int|
                0 <= t < j ==> binary32_is_finite(#[trigger] u32_at(b, values_start + 4 * t)),
        decreases value_count - j,
    {
        let value = match reader.read_u32() {
            Ok(v) => v,
            Err(e) => {
                proof {
                    assert(values_start + 4 * n > b.len());
                    assert(!exists|t: int|
                        0 <= t < n && values_start + 4 * t + 4 <= b.len() && !binary32_is_finite(
                            #[trigger] u32_at(b, values_start + 4 * t),
                        )) by {
                        assert forall|t: int|
                            0 <= t < n && values_start + 4 * t + 4 <= b.len() implies binary32_is_finite(
                            #[trigger] u32_at(b, values_start + 4 * t),
                        ) by {
                            assert(t < j);
                        }
                    }
                }
                return Err(e);
            },
        };
        if !binary32_finite(value) {
            assert(values_error(b, values_start, n) == Some(CacheError::InvalidData)) by {
                assert(0 <= j < n && values_start + 4 * j + 4 <= b.len() && !binary32_is_finite(
                    u32_at(b, values_start + 4 * j),
                ));
            }
            return Err(CacheError::InvalidData);
        }
        values.push(value);
        j = j + 1;
    }
    assert(values@ =~= values_at(b, values_start, n));
    assert(values_error(b, values_start, n) is None);
    Ok(WaveformLevel { bucket_frames, values })
}

impl WaveformCache {
    /// Writes the pyramid in its file format, after checking it.
    pub fn encode(&self) -> (encoded: Result<Vec<u8>, CacheError>)
        ensures
            match encoded {
                Ok(out) => waveform_encode_error(self@) is None && out@ == waveform_bytes(self@),
                Err(e) => waveform_encode_error(self@) == Some(e),
            },
    {
        if self.source_sample_rate == 0 || self.source_channels == 0 || self.source_frames == 0 {
            return Err(CacheError::InvalidData);
        }
        let per_bucket: usize = (self.source_channels as usize) * 3;
        let ghost pb = per_bucket as nat;
        let ghost levels = self@.levels;
        assert(pb == values_per_bucket(self.source_channels));
        let mut output: Vec<u8> = Vec::new();
        write_common_header(
            &mut output,
            true,
            WAVEFORM_FORMAT_VERSION,
            &self.identity_digest,
            self.source_sample_rate,
            self.source_channels,
            self.source_frames,
        );
        let level_count = usize_to_u32(self.levels.len())?;
        write_u32(&mut output, level_count);
        let ghost prefix = output@;
        let mut i: usize = 0;
        while i < self.levels.len()
            invariant
                0 <= i <= self.levels@.len(),
                levels == self@.levels,
                levels.len() == self.levels@.len(),
                levels.len() <= u32::MAX,
                common_ok(self.source_sample_rate, self.source_channels, self.source_frames),
                pb == per_bucket,
                per_bucket > 0,
                pb == values_per_bucket(self.source_channels),
                output@ == prefix + levels_bytes(levels.take(i as int), pb),
                first_level_error(levels, pb, 0) == first_level_error(levels, pb, i as int),
            decreases self.levels@.len() - i,
        {
            let ghost before = output@;
            assert(levels[i as int] == self.levels@[i as int]@);
            match encode_level(&mut output, &self.levels[i], per_bucket) {
                Ok(_) => {},
                Err(e) => {
                    return Err(e);
                },
            }
            proof {
                lemma_first_level_error_step(levels, pb, i as int);
                assert(levels.take(i + 1).drop_last() =~= levels.take(i as int));
                assert(output@ =~= prefix + levels_bytes(levels.take(i + 1), pb));
            }
            i = i + 1;
        }
        assert(levels.take(levels.len() as int) =~= levels);
        Ok(output)
    }

    /// Reads a waveform file: the pyramid it holds, or why it holds none.
    pub fn decode(bytes: &[u8]) -> (decoded: Result<WaveformCache, CacheError>)
        ensures
            match decoded {
                Ok(c) => parse_waveform(bytes@) == Ok::<WaveformModel, CacheError>(c@),
                Err(e) => parse_waveform(bytes@) == Err::<WaveformModel, CacheError>(e),
            },
    {
        let ghost b = bytes@;
        let mut reader = Reader::new(bytes);
        let header = reader.read_common_header(true, WAVEFORM_FORMAT_VERSION)?;
        let level_count = reader.read_u32()? as usize;
        if level_count > reader.remaining() / 8 {
            return Err(CacheError::InvalidLength);
        }
        let per_bucket: usize = (header.source_channels as usize) * 3;
        let ghost pb = per_bucket as nat;
        let ghost count = level_count as nat;
        let mut levels: Vec<WaveformLevel> = Vec::new();
        assert(levels@.map_values(|l: WaveformLevel| l@) =~= Seq::<LevelModel>::empty());
        let mut i: usize = 0;
        while i < level_count
            invariant
                reader.wf(),
                reader.bytes@ == b,
                b == bytes@,
                count == level_count,
                0 <= i <= level_count,
                pb == per_bucket,
                per_bucket > 0,
                pb == values_per_bucket(header.source_channels),
                parse_header(b, waveform_magic(), WAVEFORM_FORMAT_VERSION) == Ok::<
                    HeaderModel,
                    CacheError,
                >(header.model()),
                b.len() >= 72,
                u32_at(b, 68) == count,
                count <= (b.len() - 72) / 8,
                parse_levels(b, 72, i as nat, pb) == Ok::<(Seq<LevelModel>, int), CacheError>(
                    (levels@.map_values(|l: WaveformLevel| l@), reader.offset as int),
                ),
            decreases level_count - i,
        {
            let ghost before = levels@.map_values(|l: WaveformLevel| l@);
            let level = match decode_level(&mut reader, per_bucket) {
                Ok(l) => l,
                Err(e) => {
                    proof {
                        lemma_parse_levels_error(b, 72, (i + 1) as nat, count, pb, e);
                    }
                    return Err(e);
                },
            };
            levels.push(level);
            assert(levels@.map_values(|l: WaveformLevel| l@) =~= before.push(level@));
            i = i + 1;
        }
        reader.finish()?;
        let cache = WaveformCache {
            identity_digest: header.identity_digest,
            source_sample_rate: header.source_sample_rate,
            source_channels: header.source_channels,
            source_frames: header.source_frames,
            levels,
        };
        assert(cache@.levels =~= levels@.map_values(|l: WaveformLevel| l@));
        Ok(cache)
    }
}

// ---------------------------------------------------------------------------
// Laws of the formats
// ---------------------------------------------------------------------------
/// A well-formed header reads back as the values it was written from,
/// whatever follows it.
proof fn lemma_header_round_trip(
    magic: Seq<u8>,
    format_version: u16,
    digest: Seq<u8>,
    sample_rate: u32,
    channels: u16,
    frames: u64,
    rest: Seq<u8>,
)
    requires
        magic.len() == 8,
        digest.len() == 32,
        common_ok(sample_rate, channels, frames),
    ensures
        header_bytes(magic, format_version, digest, sample_rate, channels, frames).len() == 68,
        parse_header(
            header_bytes(magic, format_version, digest, sample_rate, channels, frames) + rest,
            magic,
            format_version,
        ) == Ok::<HeaderModel, CacheError>(
            HeaderModel { digest, sample_rate, channels, frames },
        ),
{
    lemma_auto_spec_u16_to_from_le_bytes();
    lemma_auto_spec_u32_to_from_le_bytes();
    lemma_auto_spec_u64_to_from_le_bytes();
    let h = header_bytes(magic, format_version, digest, sample_rate, channels, frames);
    let b = h + rest;
    assert(h.len() == 68);
    assert(b.subrange(0, 8) =~= magic);
    assert(b.subrange(8, 10) =~= spec_u16_to_le_bytes(format_version));
    assert(b.subrange(10, 12) =~= spec_u16_to_le_bytes(0));
    assert(b.subrange(12, 16) =~= spec_u32_to_le_bytes(ANALYSIS_VERSION));
    assert(b.subrange(16, 48) =~= digest);
    assert(b.subrange(48, 52) =~= spec_u32_to_le_bytes(sample_rate));
    assert(b.subrange(52, 54) =~= spec_u16_to_le_bytes(channels));
    assert(b.subrange(54, 56) =~= spec_u16_to_le_bytes(0));
    assert(b.subrange(56, 64) =~= spec_u64_to_le_bytes(frames));
    assert(b.subrange(64, 68) =~= spec_u32_to_le_bytes(0));
}

proof fn lemma_record_bytes(beat: BeatRecord)
    ensures
        record_bytes(beat).len() == 16,
        spec_u64_from_le_bytes(record_bytes(beat).subrange(0, 8)) == beat.source_frame,
        spec_u32_from_le_bytes(record_bytes(beat).subrange(8, 12)) == beat.strength,
        record_bytes(beat)[12] <= 1,
        (record_bytes(beat)[12] == 1) == beat.downbeat,
{
    lemma_auto_spec_u32_to_from_le_bytes();
    lemma_auto_spec_u64_to_from_le_bytes();
    let r = record_bytes(beat);
    assert(r.subrange(0, 8) =~= spec_u64_to_le_bytes(beat.source_frame));
    assert(r.subrange(8, 12) =~= spec_u32_to_le_bytes(beat.strength));
}

proof fn lemma_beats_bytes_len(beats: Seq<BeatRecord>)
    ensures
        beats_bytes(beats).len() == 16 * beats.len(),
    decreases beats.len(),
{
    if beats.len() > 0 {
        lemma_beats_bytes_len(beats.drop_last());
        lemma_record_bytes(beats.last());
    }
}

proof fn lemma_beats_bytes_record(beats: Seq<BeatRecord>, k: int)
    requires
        0 <= k < beats.len(),
    ensures
        beats_bytes(beats).subrange(16 * k, 16 * k + 16) == record_bytes(beats[k]),
    decreases beats.len(),
{
    let front = beats.drop_last();
    lemma_beats_bytes_len(front);
    lemma_record_bytes(beats.last());
    if k == beats.len() - 1 {
        assert(beats_bytes(beats).subrange(16 * k, 16 * k + 16) =~= record_bytes(beats[k]));
    } else {
        lemma_beats_bytes_record(front, k);
        assert(beats_bytes(beats).subrange(16 * k, 16 * k + 16) =~= beats_bytes(front).subrange(
            16 * k,
            16 * k + 16,
        ));
    }
}

/// Reading what `BeatGridCache::encode` wrote gives the same grid back.
pub proof fn lemma_beat_grid_round_trip(m: BeatGridModel)
    requires
        m.digest.len() == 32,
        beat_grid_encode_error(m) is None,
        84 + 16 * m.beats.len() <= usize::MAX,
    ensures
        parse_beat_grid(beat_grid_bytes(m)) == Ok::<BeatGridModel, CacheError>(m),
{
    lemma_auto_spec_u16_to_from_le_bytes();
    lemma_auto_spec_u32_to_from_le_bytes();
    lemma_auto_spec_u64_to_from_le_bytes();
    let n = m.beats.len();
    let body = spec_u64_to_le_bytes(m.bpm) + spec_u32_to_le_bytes(m.confidence)
        + spec_u32_to_le_bytes(n as u32) + beats_bytes(m.beats);
    let h = header_bytes(
        beat_grid_magic(),
        BEAT_GRID_FORMAT_VERSION,
        m.digest,
        m.sample_rate,
        m.channels,
        m.frames,
    );
    lemma_header_round_trip(
        beat_grid_magic(),
        BEAT_GRID_FORMAT_VERSION,
        m.digest,
        m.sample_rate,
        m.channels,
        m.frames,
        body,
    );
    let b = beat_grid_bytes(m);
    assert(b =~= h + body);
    lemma_beats_bytes_len(m.beats);
    assert(b.len() == 84 + 16 * n);
    assert(b.subrange(68, 76) =~= spec_u64_to_le_bytes(m.bpm));
    assert(b.subrange(76, 80) =~= spec_u32_to_le_bytes(m.confidence));
    assert(b.subrange(80, 84) =~= spec_u32_to_le_bytes(n as u32));
    assert(u32_at(b, 80) == n);
    assert forall|k: int| 0 <= k < n implies {
        &&& #[trigger] b[96 + 16 * k] <= 1
        &&& beats_at(b, n)[k] == m.beats[k]
    } by {
        lemma_beats_bytes_record(m.beats, k);
        lemma_record_bytes(m.beats[k]);
        let r = record_bytes(m.beats[k]);
        assert(b.subrange(84 + 16 * k, 100 + 16 * k) =~= r);
        assert(b.subrange(84 + 16 * k, 92 + 16 * k) =~= r.subrange(0, 8));
        assert(b.subrange(92 + 16 * k, 96 + 16 * k) =~= r.subrange(8, 12));
        assert(b[96 + 16 * k] == r[12]);
    }
    assert(beats_at(b, n) =~= m.beats);
}


proof fn lemma_values_bytes_len(values: Seq<u32>)
    ensures
        values_bytes(values).len() == 4 * values.len(),
    decreases values.len(),
{
    lemma_auto_spec_u32_to_from_le_bytes();
    if values.len() > 0 {
        lemma_values_bytes_len(values.drop_last());
    }
}

proof fn lemma_values_bytes_at(values: Seq<u32>, j: int)
    requires
        0 <= j < values.len(),
    ensures
        values_bytes(values).subrange(4 * j, 4 * j + 4) == spec_u32_to_le_bytes(values[j]),
    decreases values.len(),
{
    lemma_auto_spec_u32_to_from_le_bytes();
    let front = values.drop_last();
    lemma_values_bytes_len(front);
    if j == values.len() - 1 {
        assert(values_bytes(values).subrange(4 * j, 4 * j + 4) =~= spec_u32_to_le_bytes(values[j]));
    } else {
        lemma_values_bytes_at(front, j);
        assert(values_bytes(values).subrange(4 * j, 4 * j + 4) =~= values_bytes(front).subrange(
            4 * j,
            4 * j + 4,
        ));
    }
}

proof fn lemma_level_bytes_len(level: LevelModel, per_bucket: nat)
    ensures
        level_bytes(level, per_bucket).len() == 8 + 4 * level.values.len(),
{
    lemma_auto_spec_u32_to_from_le_bytes();
    lemma_values_bytes_len(level.values);
}

proof fn lemma_levels_bytes_len(levels: Seq<LevelModel>, per_bucket: nat)
    ensures
        levels_bytes(levels, per_bucket).len() >= 8 * levels.len(),
    decreases levels.len(),
{
    if levels.len() > 0 {
        lemma_levels_bytes_len(levels.drop_last(), per_bucket);
        lemma_level_bytes_len(levels.last(), per_bucket);
    }
}

proof fn lemma_levels_bytes_prefix(levels: Seq<LevelModel>, per_bucket: nat, k: int)
    requires
        0 <= k <= levels.len(),
    ensures
        levels_bytes(levels.take(k), per_bucket).len() <= levels_bytes(levels, per_bucket).len(),
        levels_bytes(levels, per_bucket).subrange(0, levels_bytes(levels.take(k), per_bucket).len() as int)
            == levels_bytes(levels.take(k), per_bucket),
    decreases levels.len(),
{
    if k == levels.len() {
        assert(levels.take(k) =~= levels);
    } else {
        let front = levels.drop_last();
        assert(front.take(k) =~= levels.take(k));
        lemma_levels_bytes_prefix(front, per_bucket, k);
        assert(levels_bytes(levels, per_bucket).subrange(
            0,
            levels_bytes(levels.take(k), per_bucket).len() as int,
        ) =~= levels_bytes(front, per_bucket).subrange(
            0,
            levels_bytes(levels.take(k), per_bucket).len() as int,
        ));
    }
}

proof fn lemma_first_level_error_none(levels: Seq<LevelModel>, per_bucket: nat, i: int, j: int)
    requires
        0 <= i <= j < levels.len(),
        first_level_error(levels, per_bucket, i) is None,
    ensures
        level_error(levels[j], per_bucket) is None,
    decreases j - i,
{
    if i < j {
        lemma_first_level_error_none(levels, per_bucket, i + 1, j);
    }
}

proof fn lemma_first_level_error_all_none(levels: Seq<LevelModel>, per_bucket: nat, i: int)
    requires
        0 <= i <= levels.len(),
        forall|j: int| i <= j < levels.len() ==> level_error(#[trigger] levels[j], per_bucket) is None,
    ensures
        first_level_error(levels, per_bucket, i) is None,
    decreases levels.len() - i,
{
    if i < levels.len() {
        lemma_first_level_error_all_none(levels, per_bucket, i + 1);
    }
}

proof fn lemma_divisible_count(len: nat, per_bucket: nat)
    requires
        per_bucket > 0,
        len % per_bucket == 0,
    ensures
        (len / per_bucket) * per_bucket == len,
{
    vstd::arithmetic::div_mod::lemma_fundamental_div_mod(len as int, per_bucket as int);
    vstd::arithmetic::mul::lemma_mul_is_commutative((len / per_bucket) as int, per_bucket as int);
}

proof fn lemma_parse_level_of_bytes(b: Seq<u8>, offset: int, level: LevelModel, per_bucket: nat)
    requires
        per_bucket > 0,
        level_error(level, per_bucket) is None,
        0 <= offset,
        offset + level_bytes(level, per_bucket).len() <= b.len(),
        b.len() <= usize::MAX,
        b.subrange(offset, offset + level_bytes(level, per_bucket).len()) == level_bytes(
            level,
            per_bucket,
        ),
    ensures
        parse_level(b, offset, per_bucket) == Ok::<(LevelModel, int), CacheError>(
            (level, offset + level_bytes(level, per_bucket).len()),
        ),
{
    lemma_auto_spec_u32_to_from_le_bytes();
    let lb = level_bytes(level, per_bucket);
    let len = level.values.len();
    lemma_level_bytes_len(level, per_bucket);
    lemma_values_bytes_len(level.values);
    lemma_divisible_count(len, per_bucket);
    assert(b.subrange(offset, offset + 4) =~= lb.subrange(0, 4));
    assert(lb.subrange(0, 4) =~= spec_u32_to_le_bytes(level.bucket_frames));
    assert(u32_at(b, offset) == level.bucket_frames);
    assert(b.subrange(offset + 4, offset + 8) =~= lb.subrange(4, 8));
    assert(lb.subrange(4, 8) =~= spec_u32_to_le_bytes((len / per_bucket) as u32));
    assert(u32_at(b, offset + 4) == len / per_bucket);
    let n = (u32_at(b, offset + 4) * per_bucket) as nat;
    assert(n == len);
    let vb = values_bytes(level.values);
    assert forall|t: int| 0 <= t < vb.len() implies b[offset + 8 + t] == vb[t] by {
        assert(b.subrange(offset, offset + lb.len())[8 + t] == lb[8 + t]);
    }
    assert forall|j: int| 0 <= j < len implies #[trigger] u32_at(b, offset + 8 + 4 * j)
        == level.values[j] by {
        lemma_values_bytes_at(level.values, j);
        assert(b.subrange(offset + 8 + 4 * j, offset + 8 + 4 * j + 4) =~= values_bytes(
            level.values,
        ).subrange(4 * j, 4 * j + 4));
    }
    assert(values_at(b, offset + 8, n) =~= level.values);
    assert(values_error(b, offset + 8, n) is None) by {
        if exists|j: int|
            0 <= j < n && offset + 8 + 4 * j + 4 <= b.len() && !binary32_is_finite(
                #[trigger] u32_at(b, offset + 8 + 4 * j),
            ) {
            let j = choose|j: int|
                0 <= j < n && offset + 8 + 4 * j + 4 <= b.len() && !binary32_is_finite(
                    #[trigger] u32_at(b, offset + 8 + 4 * j),
                );
            assert(u32_at(b, offset + 8 + 4 * j) == level.values[j]);
        }
    }
}

proof fn lemma_parse_levels_of_bytes(b: Seq<u8>, levels: Seq<LevelModel>, per_bucket: nat, k: int)
    requires
        per_bucket > 0,
        0 <= k <= levels.len(),
        first_level_error(levels, per_bucket, 0) is None,
        72int + levels_bytes(levels, per_bucket).len() <= b.len(),
        b.len() <= usize::MAX,
        b.subrange(72, 72int + levels_bytes(levels, per_bucket).len()) == levels_bytes(
            levels,
            per_bucket,
        ),
    ensures
        parse_levels(b, 72, k as nat, per_bucket) == Ok::<(Seq<LevelModel>, int), CacheError>(
            (levels.take(k), 72int + levels_bytes(levels.take(k), per_bucket).len()),
        ),
    decreases k,
{
    if k == 0 {
        assert(levels.take(0) =~= Seq::<LevelModel>::empty());
    } else {
        lemma_parse_levels_of_bytes(b, levels, per_bucket, k - 1);
        let before = levels.take(k - 1);
        let after = levels.take(k);
        assert(after.drop_last() =~= before);
        let offset = 72int + levels_bytes(before, per_bucket).len();
        let lb = level_bytes(levels[k - 1], per_bucket);
        let lbl: int = lb.len() as int;
        lemma_levels_bytes_prefix(levels, per_bucket, k);
        assert(levels_bytes(after, per_bucket) =~= levels_bytes(before, per_bucket) + lb);
        assert(b.subrange(offset, offset + lbl) =~= lb) by {
            let whole = levels_bytes(levels, per_bucket);
            let a = levels_bytes(after, per_bucket);
            let bl = levels_bytes(before, per_bucket).len() as int;
            assert forall|u: int| 0 <= u < lbl implies b[offset + u] == lb[u] by {
                assert(b.subrange(72, 72int + whole.len())[bl + u] == whole[bl + u]);
                assert(whole.subrange(0, a.len() as int)[bl + u] == a[bl + u]);
            }
        }
        lemma_first_level_error_none(levels, per_bucket, 0, k - 1);
        lemma_parse_level_of_bytes(b, offset, levels[k - 1], per_bucket);
        assert(before.push(levels[k - 1]) =~= after);
    }
}

/// Reading what `WaveformCache::encode` wrote gives the same pyramid back.
pub proof fn lemma_waveform_round_trip(m: WaveformModel)
    requires
        m.digest.len() == 32,
        waveform_encode_error(m) is None,
        waveform_bytes(m).len() <= usize::MAX,
    ensures
        parse_waveform(waveform_bytes(m)) == Ok::<WaveformModel, CacheError>(m),
{
    lemma_auto_spec_u16_to_from_le_bytes();
    lemma_auto_spec_u32_to_from_le_bytes();
    lemma_auto_spec_u64_to_from_le_bytes();
    let pb = values_per_bucket(m.channels);
    let lsb = levels_bytes(m.levels, pb);
    let body = spec_u32_to_le_bytes(m.levels.len() as u32) + lsb;
    let h = header_bytes(
        waveform_magic(),
        WAVEFORM_FORMAT_VERSION,
        m.digest,
        m.sample_rate,
        m.channels,
        m.frames,
    );
    lemma_header_round_trip(
        waveform_magic(),
        WAVEFORM_FORMAT_VERSION,
        m.digest,
        m.sample_rate,
        m.channels,
        m.frames,
        body,
    );
    let b = waveform_bytes(m);
    assert(b =~= h + body);
    assert(b.subrange(68, 72) =~= spec_u32_to_le_bytes(m.levels.len() as u32));
    assert(u32_at(b, 68) == m.levels.len());
    lemma_levels_bytes_len(m.levels, pb);
    let count = m.levels.len();
    assert(b.len() - 72 >= 8 * count);
    assert(count <= (b.len() - 72) / 8) by (nonlinear_arith)
        requires
            b.len() - 72 >= 8 * count,
    ;
    assert(b.subrange(72, 72 + lsb.len() as int) =~= lsb);
    lemma_parse_levels_of_bytes(b, m.levels, pb, count as int);
    assert(m.levels.take(count as int) =~= m.levels);
}


proof fn lemma_header_canonical(b: Seq<u8>, magic: Seq<u8>, format_version: u16)
    requires
        magic.len() == 8,
        parse_header(b, magic, format_version) is Ok,
    ensures
        ({
            let h = parse_header(b, magic, format_version)->Ok_0;
            &&& h.digest.len() == 32
            &&& common_ok(h.sample_rate, h.channels, h.frames)
            &&& b.len() >= 68
            &&& b.subrange(0, 68) == header_bytes(
                magic,
                format_version,
                h.digest,
                h.sample_rate,
                h.channels,
                h.frames,
            )
        }),
{
    lemma_auto_spec_u16_to_from_le_bytes();
    lemma_auto_spec_u32_to_from_le_bytes();
    lemma_auto_spec_u64_to_from_le_bytes();
    let h = parse_header(b, magic, format_version)->Ok_0;
    assert(spec_u16_to_le_bytes(spec_u16_from_le_bytes(b.subrange(8, 10))) == b.subrange(8, 10));
    assert(spec_u16_to_le_bytes(spec_u16_from_le_bytes(b.subrange(10, 12))) == b.subrange(10, 12));
    assert(spec_u32_to_le_bytes(spec_u32_from_le_bytes(b.subrange(12, 16))) == b.subrange(12, 16));
    assert(spec_u32_to_le_bytes(spec_u32_from_le_bytes(b.subrange(48, 52))) == b.subrange(48, 52));
    assert(spec_u16_to_le_bytes(spec_u16_from_le_bytes(b.subrange(52, 54))) == b.subrange(52, 54));
    assert(spec_u16_to_le_bytes(spec_u16_from_le_bytes(b.subrange(54, 56))) == b.subrange(54, 56));
    assert(spec_u64_to_le_bytes(spec_u64_from_le_bytes(b.subrange(56, 64))) == b.subrange(56, 64));
    assert(spec_u32_to_le_bytes(spec_u32_from_le_bytes(b.subrange(64, 68))) == b.subrange(64, 68));
    assert(b.subrange(0, 68) =~= b.subrange(0, 8) + b.subrange(8, 10) + b.subrange(10, 12)
        + b.subrange(12, 16) + b.subrange(16, 48) + b.subrange(48, 52) + b.subrange(52, 54)
        + b.subrange(54, 56) + b.subrange(56, 64) + b.subrange(64, 68));
}

proof fn lemma_values_at_bytes(b: Seq<u8>, offset: int, n: nat)
    requires
        0 <= offset,
        offset + 4 * n <= b.len(),
    ensures
        values_bytes(values_at(b, offset, n)) == b.subrange(offset, offset + 4 * n),
    decreases n,
{
    lemma_auto_spec_u32_to_from_le_bytes();
    if n == 0 {
        assert(values_bytes(values_at(b, offset, n)) =~= b.subrange(offset, offset + 4 * n));
    } else {
        let m = (n - 1) as nat;
        lemma_values_at_bytes(b, offset, m);
        assert(values_at(b, offset, n).drop_last() =~= values_at(b, offset, m));
        let last = b.subrange(offset + 4 * m, offset + 4 * n);
        assert(spec_u32_to_le_bytes(spec_u32_from_le_bytes(last)) == last);
        assert(b.subrange(offset, offset + 4 * n) =~= b.subrange(offset, offset + 4 * m) + last);
    }
}

proof fn lemma_parse_level_canonical(b: Seq<u8>, offset: int, per_bucket: nat)
    requires
        per_bucket > 0,
        0 <= offset,
        parse_level(b, offset, per_bucket) is Ok,
    ensures
        ({
            let (level, next) = parse_level(b, offset, per_bucket)->Ok_0;
            &&& level_error(level, per_bucket) is None
            &&& next == offset + level_bytes(level, per_bucket).len()
            &&& next <= b.len()
            &&& b.subrange(offset, next) == level_bytes(level, per_bucket)
        }),
{
    lemma_auto_spec_u32_to_from_le_bytes();
    let (level, next) = parse_level(b, offset, per_bucket)->Ok_0;
    let count = u32_at(b, offset + 4);
    let n = (count * per_bucket) as nat;
    vstd::arithmetic::div_mod::lemma_mod_multiples_basic(count as int, per_bucket as int);
    vstd::arithmetic::mul::lemma_mul_is_commutative(count as int, per_bucket as int);
    vstd::arithmetic::div_mod::lemma_div_multiples_vanish(count as int, per_bucket as int);
    assert(level.values.len() == n);
    assert(n / per_bucket == count);
    assert forall|i: int| 0 <= i < level.values.len() implies binary32_is_finite(
        #[trigger] level.values[i],
    ) by {
        assert(level.values[i] == u32_at(b, offset + 8 + 4 * i));
        assert(offset + 8 + 4 * i + 4 <= b.len());
    }
    lemma_values_at_bytes(b, offset + 8, n);
    lemma_level_bytes_len(level, per_bucket);
    assert(spec_u32_to_le_bytes(spec_u32_from_le_bytes(b.subrange(offset, offset + 4)))
        == b.subrange(offset, offset + 4));
    assert(spec_u32_to_le_bytes(spec_u32_from_le_bytes(b.subrange(offset + 4, offset + 8)))
        == b.subrange(offset + 4, offset + 8));
    assert(b.subrange(offset, next) =~= b.subrange(offset, offset + 4) + b.subrange(
        offset + 4,
        offset + 8,
    ) + b.subrange(offset + 8, next));
}

proof fn lemma_parse_levels_canonical(b: Seq<u8>, start: int, k: nat, per_bucket: nat)
    requires
        per_bucket > 0,
        0 <= start <= b.len(),
        parse_levels(b, start, k, per_bucket) is Ok,
    ensures
        ({
            let (levels, end) = parse_levels(b, start, k, per_bucket)->Ok_0;
            &&& levels.len() == k
            &&& start <= end <= b.len()
            &&& b.subrange(start, end) == levels_bytes(levels, per_bucket)
            &&& forall|i: int| 0 <= i < k ==> level_error(#[trigger] levels[i], per_bucket) is None
        }),
    decreases k,
{
    if k == 0 {
        assert(b.subrange(start, start) =~= levels_bytes(Seq::<LevelModel>::empty(), per_bucket));
    } else {
        let m = (k - 1) as nat;
        lemma_parse_levels_canonical(b, start, m, per_bucket);
        let (front, offset) = parse_levels(b, start, m, per_bucket)->Ok_0;
        lemma_parse_level_canonical(b, offset, per_bucket);
        let (level, next) = parse_level(b, offset, per_bucket)->Ok_0;
        let levels = front.push(level);
        assert(levels.drop_last() =~= front);
        assert(b.subrange(start, next) =~= b.subrange(start, offset) + b.subrange(offset, next));
        assert forall|i: int| 0 <= i < k implies level_error(#[trigger] levels[i], per_bucket)
            is None by {
            if i < m {
                assert(levels[i] == front[i]);
            }
        }
    }
}

/// The waveform format is canonical: a file that reads as a pyramid is
/// exactly the file that `WaveformCache::encode` writes for that pyramid.
pub proof fn lemma_waveform_canonical(b: Seq<u8>)
    requires
        parse_waveform(b) is Ok,
    ensures
        ({
            let m = parse_waveform(b)->Ok_0;
            &&& waveform_encode_error(m) is None
            &&& waveform_bytes(m) == b
        }),
{
    lemma_auto_spec_u32_to_from_le_bytes();
    lemma_header_canonical(b, waveform_magic(), WAVEFORM_FORMAT_VERSION);
    let h = parse_header(b, waveform_magic(), WAVEFORM_FORMAT_VERSION)->Ok_0;
    let m = parse_waveform(b)->Ok_0;
    let pb = values_per_bucket(h.channels);
    let count = u32_at(b, 68) as nat;
    lemma_parse_levels_canonical(b, 72, count, pb);
    lemma_first_level_error_all_none(m.levels, pb, 0);
    assert(spec_u32_to_le_bytes(spec_u32_from_le_bytes(b.subrange(68, 72))) == b.subrange(68, 72));
    assert(b =~= b.subrange(0, 68) + b.subrange(68, 72) + b.subrange(72, b.len() as int));
}

} // verus!
