# mushy

A terminal pet that walks along the inner borders of a terminal pane, drawn
with the Kitty graphics protocol, with its logic verified by Verus.

- `src/` is the verified library:
  - `direction.rs`: walking directions and the turn taken at a corner;
  - `walk.rs`: the terminal rectangle, the cell-by-cell walk along its
    border (proved to stay on the border and to close into a loop), and the
    per-frame state of a pet (frame index, alternating image ids);
  - `frames.rs`: decoding a GIF and encoding every frame, scaled and turned
    for each direction, as Base64 PNG (exact contract over the decoders);
  - `payload.rs`: the bytes that place a frame on screen and delete the
    previous one;
  - `settings.rs` and `launch.rs`: settings resolution, cell size, the
    seed that spreads pets apart, run file names and the daemon's arguments;
  - `codec.rs`: the trusted items for `gif`, `image` and `base64`.
- `app/` is the program: command line (clap), config file (serde, toml,
  directories), terminal queries (libc, crossterm), file I/O, the daemon's
  loop and the pet's fractional-speed movement.
- `tests/` runs the library against the real outside crates.
