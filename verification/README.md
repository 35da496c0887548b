# wgpu_animator

A real-time animator for 2D scalar fields streamed as MXFR frames (see the
wire format in `src/mxfr.rs`).

- `src/` is the verified library:
  - `mxfr.rs` — the MXFR frame header and pixel data, and the filter that
    holds a stream to the dimensions of its first frame;
  - `norm.rs` — normalization modes and the (low, high) ranges they give,
    computed on the IEEE-754 bit patterns of the values (NaN and ±∞ ignored);
  - `playback.rs` — the player state the window loop drives: frames taken
    in from the stream, the frame on display, playback timing, key commands;
  - `colormap.rs`, `interp.rs`, `names.rs` — display modes, their cycles and
    their command-line names.
- `app/` is the program around it: command line, the stdin reader thread,
  the winit window, the wgpu renderer and its WGSL shader, the egui overlay,
  and the float parts (colormap lookup tables, the built-in animation, the
  degenerate-range guard).
- `tests/` exercise the library.

Frames are scalar: the header has no channel count, so there is no RGB
(three-channel) path; every frame is one f32 per pixel, drawn through a
colormap.
