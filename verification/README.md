# rust_invaders

A small Bevy space shooter whose game rules are a verified Verus library.

- `src/` — the rules, with contracts and proofs: formations of enemies
  (`formation`), the cap on live enemies and the spawn tick (`enemies`),
  resolution of laser hits (`combat`), the player's trigger, movement keys and
  state (`player`), and the explosion animation (`explosion`).
- `app/` — the game itself: window, sprites, input, timers, random formation
  paths and collision boxes, all of which use floating point or the engine,
  calling the library for every decision.
- `tests/` — executable checks of the library on concrete values.
