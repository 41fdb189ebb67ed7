# whack_a_mole

The rules of a whack-a-mole game, verified with Verus, and the Bevy
application that plays it.

- `src/` is the library: countdowns backed by `bevy::time::Timer` with a
  model of their state (`timer`), the game's values (`resources`), the moles
  that are up (`moles`), what each frame does to a round (`game`), the start
  button (`menu`), the on-screen texts (`hud`) and what holds over whole runs
  of frames (`laws`).
- `app/` draws the window, the sprites and the UI, reads the mouse, places
  moles at random `f32` positions and does the `f32` hit test, and hands the
  library plain values.
- `tests/` runs the library on concrete rounds.
