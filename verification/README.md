# vex

The verified core of a vector-CRT 3D engine, with the engine around it.

- `src/` — the library, verified with Verus:
  - `model.rs` — the `.vec` vector model (palette, vertices, classified
    edges, occluder, bounds; floats held as their bit patterns), its
    validation rules and the selection of edges drawn per kind.
  - `codec.rs` — the `.vec` binary format: the meaning of a byte string
    (`parse_file`), the bytes a model is saved as (`encode_file`), and the
    loader and saver that compute them.
  - `roundtrip.rs` — save/load laws: a saved model loads back as itself,
    unknown chunks are skipped, truncated files are rejected, loaded models
    are drawable and savable.
  - `font.rs` — the stroke font's glyph table and grid layout.
  - `input.rs`, `shell.rs` — key and mouse-button state and the window-event
    decisions (cursor capture, resize, redraw, exit).
  - `audio.rs` — sound identifiers and the deterministic xorshift* noise.
- `app/` — glam vectors and float math (intensity scaling, silhouettes,
  bounds, text in pixels, the first-person controller), file I/O, winit
  input mapping, and the kira sound bank and engine.
- `tests/` — tests of the library.
