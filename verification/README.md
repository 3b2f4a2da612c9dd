# fast-audio-resampler

Streaming audio resampling for `f32` and `i16` samples, with a command-line
WAV tool and Python bindings.

The integer core is a Verus library (`src/`), proved against its contracts:

- `config`, `backend`, `error`: configuration checks, FIR backend selection
  on a given set of CPU features, and error values with their messages.
- `ring`, `history`: per-channel ring buffers addressed by absolute frame
  number, and appending interleaved input to them.
- `fixed`, `render`: the Q15 fixed-point arithmetic of the `i16` path and the
  renderers of one output frame (polyphase FIR, exact 2x up, exact 2x and 3x
  down).
- `stream`: the `i16` stream for the exact ratios with a compact FIR filter
  (half-band 8 kHz <-> 16 kHz, third-band 24 kHz -> 8 kHz), with its laws
  (chunked input renders what one-shot input renders, rendered frames never
  change, silence stays silent, buffer sizes cover what a call renders).
- `taps`: the side-tap offset tables of the half-band and third-band filters.
- `plan`: stream set-up, output frame counts and buffer sizes.
- `parse`, `cli`, `text`: quality and backend names, the command line, and
  decimal formatting.

`app/` holds what works in floating point or talks to the outside world:
filter design, the `f32` path and the polyphase IIR path, CPU feature
detection, SIMD kernels, WAV I/O through `hound`, and the `pyo3` bindings.

`tests/` exercises the library through its public API.
