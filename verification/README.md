# gifterm

Plays animated GIFs in terminals that support the kitty graphics protocol.
GIF frames are decoded to RGBA, optionally scaled down, cached under
`~/.cache/gifterm/<key>/`, and sent to the terminal as a looping animation.

Layout:

- `src/` — the library, verified with Verus:
  - `kitty.rs`: graphics protocol commands (frame transmission through
    temporary files, the animation loop, the support probe and its answer);
  - `animation.rs`: GIF decoding, frame display times, scaling decisions;
  - `cache.rs`: cache directory, cache keys (SHA-256 of the file), frame file
    names, cache size;
  - `paths.rs`: joining paths as `Path::join` does on Unix;
  - `terminal.rs`: environment checks, yes/no answers, relaunching in kitty;
  - `ids.rs`: image ids from the clock;
  - `numfmt.rs`, `bytes.rs`: decimal and hexadecimal text, byte strings.
- `app/main.rs` — the command-line program: arguments, files, the terminal.
- `tests/` — tests of the library on concrete values.
