use std::collections::VecDeque;

use djapp_audio_spike::render::{
    clamp_f32_bits, next_generation, DecoderControl, EmptyQueue, FrameStep, RenderCommand,
    RenderControl, WorkerStep, F32_ONE, F32_ZERO,
};

struct Block {
    generation: u64,
    frames: Vec<[f32; 2]>,
}

#[derive(Default)]
struct Counters {
    position: u64,
    stale: u64,
    recycled: u64,
    ended_generation: u64,
}

/// Produces one frame the way the audio callback does, and reports whether
/// it was served without an underflow.
fn render_frame(
    control: &mut RenderControl,
    current: &mut Option<Block>,
    queue: &mut VecDeque<Block>,
    counters: &mut Counters,
    decoded_eof_generation: u64,
    ready_generation: u64,
    output: &mut [f32; 2],
) -> bool {
    *output = [0.0, 0.0];
    loop {
        match control.next_step() {
            FrameStep::Silent => return true,
            FrameStep::NeedBlock => match queue.pop_front() {
                Some(block) => {
                    let frames = block.frames.len();
                    if control.take_block(block.generation, frames) {
                        *current = Some(block);
                    } else {
                        counters.stale += 1;
                        counters.recycled += 1;
                    }
                }
                None => {
                    return match control.queue_empty(decoded_eof_generation, ready_generation) {
                        EmptyQueue::Ended => {
                            counters.ended_generation = control.generation();
                            true
                        }
                        EmptyQueue::Waiting => true,
                        EmptyQueue::Underflow => false,
                    }
                }
            },
            FrameStep::RecycleFinished => {
                *current = None;
                control.release_block();
                counters.recycled += 1;
            }
            FrameStep::Emit { offset } => {
                let gain = f32::from_bits(control.gain());
                let frame = current.as_ref().unwrap().frames[offset];
                *output = [frame[0] * gain, frame[1] * gain];
                control.frame_written();
                counters.position += 1;
                return true;
            }
        }
    }
}

fn apply(control: &mut RenderControl, current: &mut Option<Block>, counters: &mut Counters, command: RenderCommand) {
    if control.apply(command) {
        if current.take().is_some() {
            counters.recycled += 1;
        }
        counters.position = 0;
        counters.ended_generation = 0;
    }
}

#[test]
fn render_state_plays_pauses_and_applies_gain() {
    let mut control = RenderControl::new(0.5_f32.to_bits());
    let mut current = None;
    let mut counters = Counters::default();
    let mut queue = VecDeque::from([Block {
        generation: 1,
        frames: vec![[0.4, -0.4], [0.2, -0.2]],
    }]);
    apply(&mut control, &mut current, &mut counters, RenderCommand::Play);
    let mut output = [0.0; 2];
    assert!(render_frame(&mut control, &mut current, &mut queue, &mut counters, 0, 1, &mut output));
    assert_eq!(output, [0.2, -0.2]);

    apply(&mut control, &mut current, &mut counters, RenderCommand::Pause);
    assert!(render_frame(&mut control, &mut current, &mut queue, &mut counters, 0, 1, &mut output));
    assert_eq!(output, [0.0, 0.0]);
    assert_eq!(counters.position, 1);
}

#[test]
fn generation_reset_discards_stale_audio() {
    let mut control = RenderControl::new(1.0_f32.to_bits());
    let mut current = None;
    let mut counters = Counters::default();
    let mut queue = VecDeque::from([
        Block {
            generation: 1,
            frames: vec![[0.9, 0.9]],
        },
        Block {
            generation: 2,
            frames: vec![[0.25, -0.25]],
        },
    ]);
    apply(
        &mut control,
        &mut current,
        &mut counters,
        RenderCommand::Reset {
            generation: 2,
            playing: true,
        },
    );
    let mut output = [0.0; 2];
    assert!(render_frame(&mut control, &mut current, &mut queue, &mut counters, 0, 2, &mut output));
    assert_eq!(output, [0.25, -0.25]);
    assert_eq!(counters.stale, 1);
    assert_eq!(counters.recycled, 1);
}

#[test]
fn eof_changes_playing_state_to_ended() {
    let mut control = RenderControl::new(1.0_f32.to_bits());
    let mut current = None;
    let mut counters = Counters::default();
    let mut queue = VecDeque::new();
    apply(&mut control, &mut current, &mut counters, RenderCommand::Play);
    let mut output = [1.0; 2];
    assert!(render_frame(&mut control, &mut current, &mut queue, &mut counters, 1, 0, &mut output));
    assert_eq!(output, [0.0, 0.0]);
    assert!(!control.playing());
    assert_eq!(counters.ended_generation, 1);
}

#[test]
fn empty_queue_is_an_underflow_only_once_the_generation_is_ready() {
    let mut control = RenderControl::new(1.0_f32.to_bits());
    control.apply(RenderCommand::Play);
    assert_eq!(control.queue_empty(0, 0), EmptyQueue::Waiting);
    assert_eq!(control.queue_empty(0, 1), EmptyQueue::Underflow);
    assert!(control.playing());
    assert_eq!(control.queue_empty(1, 1), EmptyQueue::Ended);
    assert!(!control.playing());
}

#[test]
fn used_up_blocks_are_recycled_before_the_next_is_taken() {
    let mut control = RenderControl::new(1.0_f32.to_bits());
    let mut current = None;
    let mut counters = Counters::default();
    let mut queue = VecDeque::from([
        Block {
            generation: 1,
            frames: vec![[0.1, 0.1]],
        },
        Block {
            generation: 1,
            frames: vec![[0.3, 0.3]],
        },
    ]);
    apply(&mut control, &mut current, &mut counters, RenderCommand::Play);
    let mut output = [0.0; 2];
    assert!(render_frame(&mut control, &mut current, &mut queue, &mut counters, 0, 1, &mut output));
    assert_eq!(output, [0.1, 0.1]);
    assert!(render_frame(&mut control, &mut current, &mut queue, &mut counters, 0, 1, &mut output));
    assert_eq!(output, [0.3, 0.3]);
    assert_eq!(counters.recycled, 1);
    assert_eq!(counters.position, 2);
    // A reset hands back the held block.
    apply(
        &mut control,
        &mut current,
        &mut counters,
        RenderCommand::Reset {
            generation: 2,
            playing: false,
        },
    );
    assert_eq!(counters.recycled, 2);
    assert_eq!(counters.position, 0);
    assert_eq!(control.generation(), 2);
}

#[test]
fn gain_is_clamped() {
    let mut control = RenderControl::new(10.0_f32.to_bits());
    assert_eq!(f32::from_bits(control.gain()), 1.0);
    control.apply(RenderCommand::SetGain((-0.5_f32).to_bits()));
    assert_eq!(f32::from_bits(control.gain()), 0.0);
    control.apply(RenderCommand::SetGain(0.25_f32.to_bits()));
    assert_eq!(f32::from_bits(control.gain()), 0.25);
    // The probe keeps its gain in 0.0..=0.25.
    let probe_max = 0.25_f32.to_bits();
    assert_eq!(f32::from_bits(clamp_f32_bits(10.0_f32.to_bits(), F32_ZERO, probe_max)), 0.25);
}

#[test]
fn bit_pattern_clamp_matches_f32_clamp() {
    let values = [
        0.0_f32,
        -0.0,
        0.5,
        1.0,
        1.0000001,
        -1e-30,
        2.0,
        -2.0,
        f32::INFINITY,
        f32::NEG_INFINITY,
        f32::MIN_POSITIVE,
        f32::MAX,
        f32::MIN,
        -0.75,
    ];
    let bounds = [(0.0_f32, 1.0_f32), (-1.0, 1.0), (0.0, 0.25), (-0.0, 0.0)];
    for &(low, high) in &bounds {
        for &value in &values {
            let clamped = clamp_f32_bits(value.to_bits(), low.to_bits(), high.to_bits());
            assert_eq!(clamped, value.clamp(low, high).to_bits(), "{value} in {low}..={high}");
        }
        let nan = clamp_f32_bits(f32::NAN.to_bits(), low.to_bits(), high.to_bits());
        assert!(f32::from_bits(nan).is_nan());
    }
    assert_eq!(F32_ONE, 1.0_f32.to_bits());
}

#[test]
fn decoder_worker_pushes_before_decoding_and_waits_at_the_end() {
    let mut worker = DecoderControl::new(1);
    assert_eq!(worker.next_step(), WorkerStep::Decode);
    assert_eq!(worker.decoded(true), 1);
    assert_eq!(worker.next_step(), WorkerStep::PushPending);
    worker.pushed();
    assert_eq!(worker.next_step(), WorkerStep::Decode);
    assert_eq!(worker.decoded(false), 1);
    assert_eq!(worker.next_step(), WorkerStep::Idle);
    worker.restart(next_generation(1));
    assert_eq!(worker.generation, 2);
    assert_eq!(worker.next_step(), WorkerStep::Decode);
}
