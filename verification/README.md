# daw_modules

A small terminal multitrack recorder and player. The library in `src/` is
written in Verus and verified: track routing, the undo/redo history, the
decoder thread's and the mixdown voices' step decisions, sample layout and
channel routing, the writer's stop rule, the overview pyramid and the
terminal key and redraw logic. The program in `app/` wraps it with device,
file and terminal I/O and does all floating-point signal processing, which
is not verified.

- `src/` — the verified library
  - `engine` — tracks (routing flags, transport state, ids), mute/solo
    routing, reading a track's sample ring buffer (its one `ringbuf` call is
    trusted), the mix buffer, time signatures and the bar grid
  - `session` — the undo/redo history, the mute command, the solo rule of
    an offline mixdown and the step decision of a mixdown voice
  - `decoder` — interleaved/planar sample layout, channel routing, fade
    length after a seek, staging of resampler blocks, and what the decoder
    thread does on each event
  - `recorder` — the WAV writer's stop rule, channel 0 of the recorded stream
    picked block by block
  - `waveform` — the overview pyramid and the terminal plot
  - `bpm` — which decoded packets feed a whole-file analysis (tempo, overview)
    and in what format
  - `daw_controller` — key bindings, the redraw planner, the waveform grid
    and the command line
- `tests/` — tests of the library on concrete values
- `app/` — the program: audio devices (cpal), decoding (symphonia),
  resampling (rubato), tempo detection (rustfft), WAV files (hound), ring
  buffers (ringbuf), the terminal (crossterm), project files (serde) and all
  floating-point signal processing
