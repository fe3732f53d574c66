# kefirdrop

A GPU-accelerated, real-time music visualizer for Linux (MilkDrop-style
frame-feedback shaders driven by live audio), with its decisions and data
handling verified in Verus.

## Layout

- `src/` — the verified library:
  - `shader.rs`: assembling a preset's WGSL body between the prelude and the
    fixed `fs_main` entry point.
  - `config.rs`: command-line parsing into a `Config`.
  - `preset.rs`: the preset catalogue — stable sort by name, the empty
    catalogue error, the start preset, wrap-around cycling.
  - `audio.rs`: capture configuration, choice of the capture source, the
    rolling window of recent samples, analysis framing and band bin ranges,
    the synthetic signal's noise generator.
  - `control.rs`: what window events ask for, surface format and present
    mode choice, surface fault recovery, shader hot-reload detection.
  - `render.rs`: the ping-pong feedback targets and spectrum packing.
  - `text.rs`: Unicode whitespace trimming.
- `app/` — the program around it: window and event loop (winit), GPU
  rendering (wgpu), audio capture (PulseAudio/PipeWire, ring buffer,
  threads), FFT analysis (rustfft) and the floating-point uniform block, and
  file reading (TOML manifests via serde).
- `tests/` — tests of the library, including WGSL validation of an assembled
  shader with naga.
