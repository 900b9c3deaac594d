# sdrapp-core

Core of a software-defined-radio receiver: spectrum frames, AM / wide-band FM
demodulation with decimation to audio rate, and a C interface for a native
user interface.

- `src/` is the verified library (Verus): demodulation modes and their C
  numbering, the decimator that chooses which demodulated values reach the
  audio stream, FFT frame geometry and bin reordering, the spectrum buffer
  shared between threads, the receiver settings, and the decisions taken while
  starting the receiver, when retuning a running receiver, and inside the
  processing loop.
- `app/` is ordinary Rust around it: the C interface, SoapySDR device access,
  the FFT and demodulation arithmetic on floating-point samples, audio output,
  and the threads that drive the pipeline.
- `tests/` runs the library on concrete values.
