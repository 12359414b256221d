# rune_arena

Game rules of a wave-based arena shooter, written in Verus and proved
against their contracts.

- `src/` is the verified library: waves and the enemy roster (`spawn`),
  timers (`timer`), ability slots, targeting and key bindings (`slots`,
  `keymap`), casting and sub-casts (`ability`, `components`), health, damage
  and score (`health`, `score`), enemy behaviours on timers (`enemy`), mesh
  topology (`mesh`), languages (`localization`) and HUD texts (`ui`, `text`).
  Durations are whole nanoseconds; distances are handed in as keys that
  order as the distances do.
- `tests/` runs the library on concrete values.
- `app/` is the Bevy game around the library: rendering, physics, input,
  and the floating-point geometry and effects.
