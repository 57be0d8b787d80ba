# rsona

Music information retrieval primitives: framing, spectra, features,
self-similarity, tempo, beats and intro / loop / outro segmentation.

## Layout

- `src/` — the verified library (Verus). It holds the index and decision
  logic of the analysis pipeline, each function with a checked contract:
  - `audio`: load errors, the stream parameters a decoder must report, the
    sample capacity to reserve and the step taken for each packet;
  - `signal`: frame configuration, input validation, channel extraction,
    frame counts and the row-major frame layout;
  - `spectrum`: STFT configuration and output shape;
  - `similarity`: lag and phase search ranges for repeat estimation and the
    sign pattern of the novelty kernel;
  - `temporal`: beat grids, beat intervals for synchronization, octave
    candidates for tempo, neighborhoods and peak spacing;
  - `structure`: nearest-point snapping, loop-boundary refinement, the
    repetition probe, section edge guards and admissible loop pairs;
  - `utils`: adaptive parallel mapping (rayon) and logging setup
    (tracing-subscriber).
- `app/` — the floating-point signal processing and the audio decoding
  (symphonia, rustfft, ndarray) built around the library.
- `tests/` — tests of the library on concrete values.
