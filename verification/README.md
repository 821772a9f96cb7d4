# terarria

The rules of a Terraria-like 2D sandbox world, with machine-checked
contracts, and the Bevy game around them.

- `src/` is the checked library: tiles (`tile`), the world grid with
  read/write, dirty tracking, collision probes, mining and placing next to
  terrain (`world`), terrain layout from a plan of noise decisions
  (`terrain`), the integer hashing behind the noise (`noise`), the clock
  that paces mining while the button is held (`mining`), which sprites
  to take down and put up each frame (`render`), hotbar and movement intents
  (`controls`), the on-screen tile rectangle (`view`) and HUD text (`hud`).
  Positions are tile coordinates or whole pixels and colours are hundredths,
  so no floating point is needed there.
- `app/` is the game: Bevy plugins and systems, floating-point physics,
  camera, noise sampling and drawing, calling into the library.
- `tests/` exercises the library on concrete worlds.
