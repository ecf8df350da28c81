# niri-animation-rotate

A daemon that rotates Niri window animations on compositor events or on commands
sent to a control socket.

- `src/` — the verified library:
  - `text.rs`: whitespace, search, trimming, tokens, lines, ASCII case folding;
  - `duration.rs`: reading `duration-ms` and `slowdown` from an animation file,
    outside `//` and `/* ... */` comments;
  - `order.rs`: lexicographic order and sorting of paths;
  - `animation.rs`: the rotator — scanned files, active animation, rotation,
    selection by name, rescans, resuming from the target file;
  - `config.rs`: command line, configuration file and defaults, merged;
  - `daemon.rs`: what Niri events and control commands do to the event loop.
- `app/` — the program: argument parsing, file and socket I/O, the filesystem
  watcher, the tokio event loop, applying the `slowdown` multiplier (floating point).
- `tests/` — tests of the library.
