# earworm

The discrete logic of an audio synthesis library, verified with Verus.

- `src/` — the verified library: pitch names and MIDI numbers (`pitch`), note
  literal parsing for the `note!` macro (`note_macro`), text primitives
  (`text`), step patterns (`pattern`), sequencer transport (`sequencer`),
  polyphonic voice allocation (`allocator`), ring buffers for delay lines and
  RMS windows (`ring`), envelope phase logic (`envelope`), pink noise
  generator scheduling (`noise`) and filter types (`filter`).
- `tests/` — tests of the library.
- `app/` — the floating-point signal processing (oscillators, filters,
  effects, envelopes, noise, notes and frequencies, metronome) built on the
  library, and the expansion of the `note!` macro.
