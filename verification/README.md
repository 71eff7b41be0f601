# pacman — a verified Pac-Man core

The rules of a Pac-Man game, written in Verus and proved against their
contracts, with the real-valued simulation and the platform glue around them.

- `src/` — the verified library:
  - `types.rs`: directions, their reverses, unit steps and wire codes;
  - `maze.rs`: the fixed 28×31 layout, walls and door, the pellet grid and
    its count;
  - `entities.rs`: which tiles are open, Pac-Man's turning rule, and the
    ghosts' state machine and direction choice;
  - `game.rs`: the game's state machine, scoring, collisions, frightened
    spells, modes and level progression, with the game invariant `Game::wf`;
  - `gamepad.rs`: the gamepad snapshot, raw HID report decoding and merging.
- `app/` — what runs around it: the `f32` positions, speeds and timers that
  drive the verified rules each frame, the JSON views and WebAssembly API for
  the web frontend, the desktop app's native gamepad threads, and the
  `gamepad-detect` sniffer.
- `tests/` — scenarios run against the library.

Timers are decided in milliseconds by the library and kept as seconds by the
simulation. Ghost distances are handed to the library as the bits of their
non-negative `f32` values; that the unsigned order of such bits is their
numeric order is a property of the IEEE-754 encoding, which the library
relies on but does not prove: its contracts speak of the keys. The random
number of a frightened ghost's choice is drawn by `Game::update_ghost` and
handed to the verified rule, which picks the option it selects.
