# Kestrel

One wide shot in, several tighter shots out. Kestrel takes a single video
input, lets an operator draw regions of interest on it, and sends each region
out of a Blackmagic DeckLink, cropped and scaled to the output raster.

**Every output produces a frame, every frame, always.** An output with nothing
routed carries its idle fill; the global kill blacks every output and keeps
every crosspoint; a lost input blacks the routed outputs rather than freezing
them; an output with no card is still planned and rendered.

## Layout

- `src/` — the library, verified with Verus: the show and its plan, video
  formats, the synthetic frames and the BT.709 arithmetic, the frame slot and
  the synthetic source, the frame path's decisions (format changes, which
  cards are open, pacing, the input watchdog), the engine's bookkeeping, the
  control API's commands and the state snapshot, and the launch-time choices.
  `show_laws.rs` and `laws.rs` state what holds across operations.
- `tests/` — the test suite, run against the compiled library.
- `app/` — the program around it: the `kestrel` command line, the HTTP and
  WebSocket control server, the frame-path thread, the wgpu engine and its
  shaders, show files on disk, the region geometry (which is fractional), and
  the operator window (`kestrel gui`).

This build has no Blackmagic SDK: every DeckLink call refuses with "not
compiled in", and the input is generated bars with a moving marker.
