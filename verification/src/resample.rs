//! Frame accounting of sample-rate conversion. The converter itself works
//! on floating-point samples; which of its output frames are kept is decided
//! here: the converter's start-up delay is cut off, and once the source has
//! ended the stream is cut to exactly as many frames as the source lasts at
//! the new rate.
use vstd::prelude::*;

verus! {

/// Frames at the new rate that cover `source_frames` at the old one:
/// `ceil(source_frames * target_rate / source_rate)`.
pub open spec fn expected_frames(source_frames: usize, source_rate: u32, target_rate: u32) -> int {
    let num = source_frames * target_rate;
    (num + source_rate - 1) / (source_rate as int)
}

/// Frames at the new rate that cover `source_frames` at the old one, rounded
/// up (see [`expected_frames`]), in the machine's word.
pub fn expected_output_frames(source_frames: usize, source_rate: u32, target_rate: u32) -> (frames: usize)
    requires
        source_rate > 0,
        expected_frames(source_frames, source_rate, target_rate) <= usize::MAX,
    ensures
        frames == expected_frames(source_frames, source_rate, target_rate),
{
    assert((source_frames as int) * (target_rate as int) <= (usize::MAX as int) * (u32::MAX as int))
        by (nonlinear_arith);
    let product: u128 = (source_frames as u128) * (target_rate as u128);
    let rate: u128 = source_rate as u128;
    let frames: u128 = (product + (rate - 1)) / rate;
    frames as usize
}

/// What the converting decoder does next.
#[derive(Clone, Copy, Debug, PartialEq, Eq, Structural)]
pub enum ConvertStep {
    /// Hand out the oldest converted chunk.
    TakePending,
    /// The stream is complete.
    Finished,
    /// The source has ended: push the converter's remaining output.
    Flush,
    /// Read the next chunk of the source.
    ReadSource,
}

/// How the converter is drained after the source ended.
#[derive(Clone, Copy, Debug, PartialEq, Eq, Structural)]
pub enum FlushStep {
    /// Every expected frame was emitted.
    Finished,
    /// Convert the input left over, as a short final block.
    Partial,
    /// Feed an empty block to push out what the converter still holds.
    Drain,
}

/// Which part of a converted block is kept.
#[derive(Clone, Copy, Debug, PartialEq, Eq, Structural)]
pub struct KeptFrames {
    /// Frames cut from the front (the converter's start-up delay).
    pub trimmed: usize,
    /// Frames kept after them; the rest of the block is dropped.
    pub useful: usize,
}

/// The converter's bookkeeping.
pub struct OutputAccounting {
    pub delay_remaining: usize,
    pub source_frames: usize,
    pub emitted_frames: usize,
    pub expected_output_frames: Option<usize>,
    pub source_eof: bool,
    pub partial_processed: bool,
    pub finished: bool,
}

impl OutputAccounting {
    /// The length of the stream is known exactly once the source ended, and
    /// the stream is complete only when that many frames were emitted.
    pub open spec fn wf(&self) -> bool {
        &&& (self.finished ==> (self.expected_output_frames is Some && self.emitted_frames
            >= self.expected_output_frames->0))
        &&& (self.expected_output_frames is Some <==> self.source_eof)
    }

    /// Nothing read or emitted yet; `delay` frames of start-up delay to cut.
    pub fn new(delay: usize) -> (accounting: OutputAccounting)
        ensures
            accounting.wf(),
            accounting.delay_remaining == delay,
            accounting.source_frames == 0,
            accounting.emitted_frames == 0,
            accounting.expected_output_frames is None,
            !accounting.source_eof,
            !accounting.partial_processed,
            !accounting.finished,
    {
        OutputAccounting {
            delay_remaining: delay,
            source_frames: 0,
            emitted_frames: 0,
            expected_output_frames: None,
            source_eof: false,
            partial_processed: false,
            finished: false,
        }
    }

    /// `frames` more source frames went into the converter.
    pub fn source_pushed(&mut self, frames: usize)
        requires
            old(self).wf(),
            !old(self).source_eof,
            old(self).source_frames + frames <= usize::MAX,
        ensures
            final(self).wf(),
            final(self).source_frames == old(self).source_frames + frames,
            final(self).delay_remaining == old(self).delay_remaining,
            final(self).emitted_frames == old(self).emitted_frames,
            final(self).expected_output_frames == old(self).expected_output_frames,
            final(self).source_eof == old(self).source_eof,
            final(self).partial_processed == old(self).partial_processed,
            final(self).finished == old(self).finished,
    {
        self.source_frames = self.source_frames + frames;
    }

    /// The source ended: the stream will be exactly as long as the source
    /// at the new rate.
    pub fn source_ended(&mut self, source_rate: u32, target_rate: u32)
        requires
            old(self).wf(),
            !old(self).source_eof,
            source_rate > 0,
            expected_frames(old(self).source_frames, source_rate, target_rate) <= usize::MAX,
        ensures
            final(self).wf(),
            final(self).source_eof,
            final(self).expected_output_frames == Some(
                expected_frames(old(self).source_frames, source_rate, target_rate) as usize,
            ),
            final(self).source_frames == old(self).source_frames,
            final(self).delay_remaining == old(self).delay_remaining,
            final(self).emitted_frames == old(self).emitted_frames,
            final(self).partial_processed == old(self).partial_processed,
            final(self).finished == old(self).finished,
    {
        self.source_eof = true;
        self.expected_output_frames = Some(
            expected_output_frames(self.source_frames, source_rate, target_rate),
        );
    }

    /// A converted block of `output_frames` frames came out. The start-up
    /// delay still owed is cut from its front, and after the source ended
    /// it is cut to the frames the stream still lacks.
    pub fn keep(&mut self, output_frames: usize) -> (kept: KeptFrames)
        requires
            old(self).wf(),
            old(self).expected_output_frames is None ==> old(self).emitted_frames + output_frames
                <= usize::MAX,
        ensures
            final(self).wf(),
            kept.trimmed == if old(self).delay_remaining < output_frames {
                old(self).delay_remaining
            } else {
                output_frames
            },
            final(self).delay_remaining == old(self).delay_remaining - kept.trimmed,
            kept.useful == match old(self).expected_output_frames {
                None => output_frames - kept.trimmed,
                Some(e) => if old(self).emitted_frames >= e {
                    0
                } else if output_frames - kept.trimmed < e - old(self).emitted_frames {
                    output_frames - kept.trimmed
                } else {
                    e - old(self).emitted_frames
                },
            },
            old(self).expected_output_frames is Some && old(self).emitted_frames
                <= old(self).expected_output_frames->0 ==> final(self).emitted_frames
                <= old(self).expected_output_frames->0,
            final(self).emitted_frames == old(self).emitted_frames + kept.useful,
            final(self).source_frames == old(self).source_frames,
            final(self).expected_output_frames == old(self).expected_output_frames,
            final(self).source_eof == old(self).source_eof,
            final(self).partial_processed == old(self).partial_processed,
            final(self).finished == old(self).finished,
    {
        let trimmed = if self.delay_remaining < output_frames {
            self.delay_remaining
        } else {
            output_frames
        };
        self.delay_remaining = self.delay_remaining - trimmed;
        let mut useful = output_frames - trimmed;
        match self.expected_output_frames {
            Some(expected) => {
                let missing = if self.emitted_frames >= expected {
                    0
                } else {
                    expected - self.emitted_frames
                };
                if missing < useful {
                    useful = missing;
                }
            },
            None => {},
        }
        self.emitted_frames = self.emitted_frames + useful;
        KeptFrames { trimmed, useful }
    }

    /// The next step of the converting decoder, given whether converted
    /// chunks are waiting.
    pub fn next_step(&self, pending: bool) -> (step: ConvertStep)
        ensures
            step == if pending {
                ConvertStep::TakePending
            } else if self.finished {
                ConvertStep::Finished
            } else if self.source_eof {
                ConvertStep::Flush
            } else {
                ConvertStep::ReadSource
            },
    {
        if pending {
            ConvertStep::TakePending
        } else if self.finished {
            ConvertStep::Finished
        } else if self.source_eof {
            ConvertStep::Flush
        } else {
            ConvertStep::ReadSource
        }
    }

    /// Starts one round of draining after the source ended: finished once
    /// every expected frame was emitted; else the left-over input goes in
    /// once, as a short block, and empty blocks after that.
    pub fn begin_flush(&mut self) -> (step: FlushStep)
        requires
            old(self).wf(),
            old(self).source_eof,
        ensures
            final(self).wf(),
            step == if old(self).emitted_frames >= old(self).expected_output_frames->0 {
                FlushStep::Finished
            } else if !old(self).partial_processed {
                FlushStep::Partial
            } else {
                FlushStep::Drain
            },
            final(self).finished == (old(self).finished || step == FlushStep::Finished),
            final(self).partial_processed == old(self).partial_processed,
            final(self).delay_remaining == old(self).delay_remaining,
            final(self).source_frames == old(self).source_frames,
            final(self).emitted_frames == old(self).emitted_frames,
            final(self).expected_output_frames == old(self).expected_output_frames,
            final(self).source_eof == old(self).source_eof,
    {
        let expected = match self.expected_output_frames {
            Some(e) => e,
            None => 0,
        };
        if self.emitted_frames >= expected {
            self.finished = true;
            FlushStep::Finished
        } else if !self.partial_processed {
            FlushStep::Partial
        } else {
            FlushStep::Drain
        }
    }

    /// Ends a round of draining (`partial` when the left-over input went in):
    /// the stream is complete once every expected frame was emitted.
    pub fn end_flush(&mut self, partial: bool)
        requires
            old(self).wf(),
            old(self).source_eof,
        ensures
            final(self).wf(),
            final(self).finished == (old(self).finished || old(self).emitted_frames
                >= old(self).expected_output_frames->0),
            final(self).delay_remaining == old(self).delay_remaining,
            final(self).source_frames == old(self).source_frames,
            final(self).emitted_frames == old(self).emitted_frames,
            final(self).expected_output_frames == old(self).expected_output_frames,
            final(self).source_eof == old(self).source_eof,
            final(self).partial_processed == (old(self).partial_processed || partial),
    {
        if partial {
            self.partial_processed = true;
        }
        let expected = match self.expected_output_frames {
            Some(e) => e,
            None => 0,
        };
        if self.emitted_frames >= expected {
            self.finished = true;
        }
    }
}

/// A finished stream that never went past its length holds exactly as many
/// frames as the source lasts at the new rate.
pub proof fn lemma_finished_stream_length(accounting: OutputAccounting, source_rate: u32, target_rate: u32)
    requires
        accounting.wf(),
        accounting.finished,
        accounting.emitted_frames <= accounting.expected_output_frames->0,
        accounting.expected_output_frames == Some(
            expected_frames(accounting.source_frames, source_rate, target_rate) as usize,
        ),
        source_rate > 0,
        expected_frames(accounting.source_frames, source_rate, target_rate) <= usize::MAX,
    ensures
        accounting.emitted_frames == expected_frames(accounting.source_frames, source_rate, target_rate),
{
    assert(expected_frames(accounting.source_frames, source_rate, target_rate) >= 0) by (nonlinear_arith)
        requires
            source_rate > 0,
    ;
}

} // verus!
