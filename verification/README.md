# fow_rl

Fog of War chess for self-play: a game that knows what each player sees and remembers, and that
encodes it for a learner. The library is written in Verus; every function states what it returns,
and Verus proves it.

- `src/` — the verified library.
  - `squares`, `pieces`, `bitboard`, `geometry`, `position` — the board in plain values.
  - `engine` — the calls into the `chess` crate, with what is taken for granted of them.
  - `order`, `mobility` — boards of legal play, and whether their moves can be listed.
  - `visibility`, `memory`, `encoding`, `actions`, `tables`, `fen` — sight, memory, features, moves.
  - `game` — the game itself.
  - `fuzzing`, `replay` — the game held against another account of it.
  - `text_source` — how a text is got from an object that may give one.
  - `laws`, `mirrored` — what holds of the library as a whole.
- `tests/` — tests of the library.
- `app/` — the Python extension module, and a fuzz target that plays beside a Python account.

Features are quotients of whole numbers that single precision holds exactly. `app/` divides them.
