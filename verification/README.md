# djapp_audio_spike

The integer and text logic of a two-deck DJ audio engine, with its behaviour
stated in Verus contracts and proved.

## Layout

- `src/` — the verified library.
  - `analysis/cache.rs` — the waveform and beat-grid cache file formats,
    with round-trip proofs.
  - `analysis/pipeline.rs` — the identity digest that ties a cache to one
    version of a file, cache file names, the source-change check and the
    conversion of tracked beats to source frames.
  - `analysis/service.rs` — the bounded analysis queue: admission,
    replacement of stale work, cancellation and shutdown.
  - `analysis/keys.rs`, `analysis/signal.rs`, `analysis/types.rs` — keys on
    the Camelot wheel, analysis-to-source frame conversion, track identities.
  - `render.rs` — the real-time deck control (generations, stale blocks, end
    of track) and the decoder worker's steps.
  - `resample.rs` — frame accounting of sample-rate conversion.
  - `routing.rs`, `mixer_service.rs`, `device.rs` — output routing decisions
    and the mixer service's device bookkeeping.
  - `audio.rs`, `deck.rs`, `mixer.rs`, `dual_output.rs`, `tempo.rs` —
    reports and errors of the probe, the decks and the mixer, and drift
    tracking between two output devices.
  - `persistence.rs`, `library.rs` — library scan decisions.
  - `cli.rs`, `benchmark.rs`, `text.rs` — command-line and report text.
- `tests/` — tests of the library.
- `app/` — the program around the library: audio devices, decoding,
  floating-point signal processing, the database and the threads.
