//! The control side of a deck's real-time rendering and of its decoder
//! worker. Both run a loop that alternates queue traffic with decisions; the
//! loops stay with the audio callback and the worker thread, the decisions
//! are taken here. Blocks of decoded audio are tagged with the generation
//! they were decoded for: a seek or a track change starts a new generation,
//! and audio of an older one is never played.
use vstd::prelude::*;

verus! {

// ---------------------------------------------------------------------------
// binary32 comparisons on bit patterns
// ---------------------------------------------------------------------------
/// A binary32 pattern that encodes NaN.
pub open spec fn f32_is_nan(bits: u32) -> bool {
    bits & 0x7fff_ffffu32 > 0x7f80_0000u32
}

/// The pattern without its sign bit.
pub open spec fn f32_magnitude(bits: u32) -> u32 {
    bits & 0x7fff_ffffu32
}

/// The sign bit is set.
pub open spec fn f32_sign(bits: u32) -> bool {
    bits >> 31u32 == 1
}

/// `a < b` between binary32 values as IEEE-754 orders them: false where
/// either is NaN, and -0.0 equal to +0.0.
pub open spec fn f32_lt(a: u32, b: u32) -> bool {
    &&& !f32_is_nan(a)
    &&& !f32_is_nan(b)
    &&& if f32_sign(a) && f32_sign(b) {
        f32_magnitude(a) > f32_magnitude(b)
    } else if f32_sign(a) {
        !(f32_magnitude(a) == 0 && f32_magnitude(b) == 0)
    } else if f32_sign(b) {
        false
    } else {
        f32_magnitude(a) < f32_magnitude(b)
    }
}

/// `value.clamp(low, high)` on binary32 values: `low` below it, `high`
/// above it, and the value itself otherwise (NaN included).
pub open spec fn f32_clamped(value: u32, low: u32, high: u32) -> u32 {
    if f32_lt(value, low) {
        low
    } else if f32_lt(high, value) {
        high
    } else {
        value
    }
}

/// `a < b` between binary32 values given as bit patterns (see [`f32_lt`]).
pub fn f32_less(a: u32, b: u32) -> (lt: bool)
    ensures
        lt == f32_lt(a, b),
{
    let ma = a & 0x7fff_ffffu32;
    let mb = b & 0x7fff_ffffu32;
    if ma > 0x7f80_0000u32 || mb > 0x7f80_0000u32 {
        return false;
    }
    let sa = a >> 31u32 == 1;
    let sb = b >> 31u32 == 1;
    if sa && sb {
        ma > mb
    } else if sa {
        !(ma == 0 && mb == 0)
    } else if sb {
        false
    } else {
        ma < mb
    }
}

/// Clamps a binary32 value, given and returned as its bit pattern, to
/// `low..=high` (see [`f32_clamped`]).
pub fn clamp_f32_bits(value: u32, low: u32, high: u32) -> (clamped: u32)
    requires
        !f32_is_nan(low),
        !f32_is_nan(high),
        !f32_lt(high, low),
    ensures
        clamped == f32_clamped(value, low, high),
{
    if f32_less(value, low) {
        low
    } else if f32_less(high, value) {
        high
    } else {
        value
    }
}

/// The pattern of 0.0.
pub const F32_ZERO: u32 = 0;

/// The pattern of 1.0.
pub const F32_ONE: u32 = 0x3f80_0000;

proof fn lemma_unit_interval_bounds()
    ensures
        !f32_is_nan(F32_ZERO),
        !f32_is_nan(F32_ONE),
        !f32_lt(F32_ONE, F32_ZERO),
{
    assert(!f32_is_nan(0u32) && !f32_is_nan(0x3f80_0000u32) && !f32_lt(0x3f80_0000u32, 0u32))
        by (bit_vector);
}

/// A deck gain as the renderer keeps it: clamped to `0.0..=1.0`.
pub open spec fn unit_gain(bits: u32) -> u32 {
    f32_clamped(bits, F32_ZERO, F32_ONE)
}

// ---------------------------------------------------------------------------
// The render side
// ---------------------------------------------------------------------------
/// A command from the control thread to the audio callback; the gain is a
/// binary32 bit pattern.
#[derive(Clone, Copy, Debug, PartialEq, Eq, Structural)]
pub enum RenderCommand {
    Play,
    Pause,
    SetGain(u32),
    Reset { generation: u64, playing: bool },
}

/// How far the callback has read into the block it holds.
#[derive(Clone, Copy, Debug, PartialEq, Eq, Structural)]
pub struct BlockCursor {
    pub generation: u64,
    pub frames: usize,
    pub offset: usize,
}

/// What the callback does next for the frame it is producing.
#[derive(Clone, Copy, Debug, PartialEq, Eq, Structural)]
pub enum FrameStep {
    /// The deck is paused: the frame is silent.
    Silent,
    /// No block is held: take the next one from the queue.
    NeedBlock,
    /// The held block is used up: hand its buffer back and take another.
    RecycleFinished,
    /// Write frame `offset` of the held block.
    Emit { offset: usize },
}

/// What an empty block queue means for the frame being produced.
#[derive(Clone, Copy, Debug, PartialEq, Eq, Structural)]
pub enum EmptyQueue {
    /// The decoder reached the end of this generation: the deck has ended and
    /// stops playing.
    Ended,
    /// The decoder has not delivered this generation yet: silence, and no
    /// underflow is counted.
    Waiting,
    /// The decoder is behind: silence, counted as an underflow.
    Underflow,
}

/// The playback state the audio callback keeps for one deck.
pub struct RenderControl {
    generation: u64,
    playing: bool,
    gain: u32,
    current: Option<BlockCursor>,
}

impl RenderControl {
    pub closed spec fn spec_generation(&self) -> u64 {
        self.generation
    }

    pub closed spec fn spec_playing(&self) -> bool {
        self.playing
    }

    pub closed spec fn spec_gain(&self) -> u32 {
        self.gain
    }

    pub closed spec fn spec_current(&self) -> Option<BlockCursor> {
        self.current
    }

    /// A held block belongs to the current generation, and its read position
    /// lies within it.
    pub open spec fn wf(&self) -> bool {
        self.spec_current() matches Some(c) ==> c.generation == self.spec_generation() && c.offset
            <= c.frames
    }

    /// The first generation, paused, holding no block, at the given gain
    /// (clamped to `0.0..=1.0`).
    pub fn new(gain: u32) -> (control: RenderControl)
        ensures
            control.wf(),
            control.spec_generation() == 1,
            !control.spec_playing(),
            control.spec_gain() == unit_gain(gain),
            control.spec_current() is None,
    {
        proof {
            lemma_unit_interval_bounds();
        }
        RenderControl {
            generation: 1,
            playing: false,
            gain: clamp_f32_bits(gain, F32_ZERO, F32_ONE),
            current: None,
        }
    }

    pub fn generation(&self) -> (g: u64)
        ensures
            g == self.spec_generation(),
    {
        self.generation
    }

    pub fn playing(&self) -> (p: bool)
        ensures
            p == self.spec_playing(),
    {
        self.playing
    }

    /// The gain samples are multiplied by, as a binary32 pattern.
    pub fn gain(&self) -> (g: u32)
        ensures
            g == self.spec_gain(),
    {
        self.gain
    }

    /// Applies one command. Returns whether it was a reset, after which the
    /// caller hands back the buffer of the block it held and zeroes the
    /// deck's position and end marker.
    pub fn apply(&mut self, command: RenderCommand) -> (reset: bool)
        requires
            old(self).wf(),
        ensures
            final(self).wf(),
            reset == (command is Reset),
            match command {
                RenderCommand::Play => {
                    &&& final(self).spec_playing()
                    &&& final(self).spec_generation() == old(self).spec_generation()
                    &&& final(self).spec_gain() == old(self).spec_gain()
                    &&& final(self).spec_current() == old(self).spec_current()
                },
                RenderCommand::Pause => {
                    &&& !final(self).spec_playing()
                    &&& final(self).spec_generation() == old(self).spec_generation()
                    &&& final(self).spec_gain() == old(self).spec_gain()
                    &&& final(self).spec_current() == old(self).spec_current()
                },
                RenderCommand::SetGain(g) => {
                    &&& final(self).spec_playing() == old(self).spec_playing()
                    &&& final(self).spec_generation() == old(self).spec_generation()
                    &&& final(self).spec_gain() == unit_gain(g)
                    &&& final(self).spec_current() == old(self).spec_current()
                },
                RenderCommand::Reset { generation, playing } => {
                    &&& final(self).spec_playing() == playing
                    &&& final(self).spec_generation() == generation
                    &&& final(self).spec_gain() == old(self).spec_gain()
                    &&& final(self).spec_current() is None
                },
            },
    {
        match command {
            RenderCommand::Play => {
                self.playing = true;
                false
            },
            RenderCommand::Pause => {
                self.playing = false;
                false
            },
            RenderCommand::SetGain(g) => {
                proof {
                    lemma_unit_interval_bounds();
                }
                self.gain = clamp_f32_bits(g, F32_ZERO, F32_ONE);
                false
            },
            RenderCommand::Reset { generation, playing } => {
                self.current = None;
                self.generation = generation;
                self.playing = playing;
                true
            },
        }
    }

    /// The next step for the frame being produced.
    pub fn next_step(&self) -> (step: FrameStep)
        requires
            self.wf(),
        ensures
            step == if !self.spec_playing() {
                FrameStep::Silent
            } else {
                match self.spec_current() {
                    None => FrameStep::NeedBlock,
                    Some(c) => if c.offset >= c.frames {
                        FrameStep::RecycleFinished
                    } else {
                        FrameStep::Emit { offset: c.offset }
                    },
                }
            },
    {
        if !self.playing {
            return FrameStep::Silent;
        }
        match self.current {
            None => FrameStep::NeedBlock,
            Some(c) => if c.offset >= c.frames {
                FrameStep::RecycleFinished
            } else {
                FrameStep::Emit { offset: c.offset }
            },
        }
    }

    /// Offers the block at the head of the queue. A block of the current
    /// generation is taken, from its first frame; one of any other generation
    /// is stale and refused, and the caller counts it and hands its buffer
    /// back.
    pub fn take_block(&mut self, generation: u64, frames: usize) -> (taken: bool)
        requires
            old(self).wf(),
            old(self).spec_current() is None,
        ensures
            final(self).wf(),
            taken == (generation == old(self).spec_generation()),
            final(self).spec_current() == if taken {
                Some(BlockCursor { generation, frames, offset: 0 })
            } else {
                None
            },
            final(self).spec_generation() == old(self).spec_generation(),
            final(self).spec_playing() == old(self).spec_playing(),
            final(self).spec_gain() == old(self).spec_gain(),
    {
        if generation == self.generation {
            self.current = Some(BlockCursor { generation, frames, offset: 0 });
            true
        } else {
            false
        }
    }

    /// Lets go of a used-up block.
    pub fn release_block(&mut self)
        requires
            old(self).wf(),
        ensures
            final(self).wf(),
            final(self).spec_current() is None,
            final(self).spec_generation() == old(self).spec_generation(),
            final(self).spec_playing() == old(self).spec_playing(),
            final(self).spec_gain() == old(self).spec_gain(),
    {
        self.current = None;
    }

    /// One frame of the held block was written.
    pub fn frame_written(&mut self)
        requires
            old(self).wf(),
            old(self).spec_current() matches Some(c) && c.offset < c.frames,
        ensures
            final(self).wf(),
            final(self).spec_current() == Some(
                BlockCursor { offset: (old(self).spec_current()->0.offset + 1) as usize, ..old(self).spec_current()->0 },
            ),
            final(self).spec_generation() == old(self).spec_generation(),
            final(self).spec_playing() == old(self).spec_playing(),
            final(self).spec_gain() == old(self).spec_gain(),
    {
        match self.current {
            Some(c) => {
                self.current = Some(BlockCursor { offset: c.offset + 1, ..c });
            },
            None => {},
        }
    }

    /// The queue had no block. `decoded_eof_generation` is the generation
    /// whose end the decoder reached, `ready_generation` the generation of
    /// the last block it delivered.
    pub fn queue_empty(&mut self, decoded_eof_generation: u64, ready_generation: u64) -> (outcome:
        EmptyQueue)
        requires
            old(self).wf(),
        ensures
            final(self).wf(),
            outcome == if decoded_eof_generation == old(self).spec_generation() {
                EmptyQueue::Ended
            } else if ready_generation != old(self).spec_generation() {
                EmptyQueue::Waiting
            } else {
                EmptyQueue::Underflow
            },
            final(self).spec_playing() == (old(self).spec_playing() && outcome != EmptyQueue::Ended),
            final(self).spec_generation() == old(self).spec_generation(),
            final(self).spec_gain() == old(self).spec_gain(),
            final(self).spec_current() == old(self).spec_current(),
    {
        if decoded_eof_generation == self.generation {
            self.playing = false;
            EmptyQueue::Ended
        } else if ready_generation != self.generation {
            EmptyQueue::Waiting
        } else {
            EmptyQueue::Underflow
        }
    }
}

/// Whatever the commands and blocks, a frame is only ever written from a
/// block of the generation the deck is playing.
pub proof fn lemma_emitted_frames_are_current(control: RenderControl)
    requires
        control.wf(),
        control.spec_playing(),
        control.spec_current() matches Some(c) && c.offset < c.frames,
    ensures
        control.spec_current()->0.generation == control.spec_generation(),
{
}

// ---------------------------------------------------------------------------
// The decoder worker
// ---------------------------------------------------------------------------
/// What the decoder worker does next.
#[derive(Clone, Copy, Debug, PartialEq, Eq, Structural)]
pub enum WorkerStep {
    /// Offer the decoded block it holds to the render queue.
    PushPending,
    /// The source is used up: wait for a seek or another track.
    Idle,
    /// Decode the next chunk.
    Decode,
}

/// The decoder worker's state: the generation it decodes for, whether it
/// holds a block the queue has not taken yet, and whether it reached the
/// end of the source.
pub struct DecoderControl {
    pub generation: u64,
    pub pending: bool,
    pub eof: bool,
}

impl DecoderControl {
    /// A worker starting on `generation`.
    pub fn new(generation: u64) -> (control: DecoderControl)
        ensures
            control.generation == generation,
            !control.pending,
            !control.eof,
    {
        DecoderControl { generation, pending: false, eof: false }
    }

    /// A seek or a new track succeeded: decoding starts over for
    /// `generation`, the held block is dropped, and the caller clears the
    /// end and ready markers.
    pub fn restart(&mut self, generation: u64)
        ensures
            final(self).generation == generation,
            !final(self).pending,
            !final(self).eof,
    {
        self.generation = generation;
        self.pending = false;
        self.eof = false;
    }

    /// The next step: a held block goes out first, a finished source waits,
    /// and otherwise the next chunk is decoded.
    pub fn next_step(&self) -> (step: WorkerStep)
        ensures
            step == if self.pending {
                WorkerStep::PushPending
            } else if self.eof {
                WorkerStep::Idle
            } else {
                WorkerStep::Decode
            },
    {
        if self.pending {
            WorkerStep::PushPending
        } else if self.eof {
            WorkerStep::Idle
        } else {
            WorkerStep::Decode
        }
    }

    /// The decoder returned a chunk (`true`) or reached the end (`false`).
    /// Returns the generation to tag the block with, or, at the end, the
    /// generation whose end the caller publishes.
    pub fn decoded(&mut self, got_chunk: bool) -> (tag: u64)
        ensures
            tag == old(self).generation,
            final(self).generation == old(self).generation,
            final(self).pending == (old(self).pending || got_chunk),
            final(self).eof == (old(self).eof || !got_chunk),
    {
        if got_chunk {
            self.pending = true;
        } else {
            self.eof = true;
        }
        self.generation
    }

    /// The queue took the held block; the caller publishes its generation as
    /// ready.
    pub fn pushed(&mut self)
        ensures
            final(self).generation == old(self).generation,
            !final(self).pending,
            final(self).eof == old(self).eof,
    {
        self.pending = false;
    }
}

/// The generation a seek or a track change starts.
pub fn next_generation(generation: u64) -> (next: u64)
    requires
        generation < u64::MAX,
    ensures
        next == generation + 1,
{
    generation + 1
}

} // verus!
