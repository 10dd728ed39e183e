# space_shooter

The whole-number rules of a top-down space shooter, verified with Verus.

- `src/` is the verified library:
  - `config` – pool sizes, timers, hull and score values, debris kinds;
  - `controls` – keys and mouse buttons to commands, the pause / controls /
    gravity-overlay / restart switches and the engine work each command
    hands out;
  - `lasers` – laser pools: ageing, expiry, retirement;
  - `enemies` – enemy hull points and fire control;
  - `session` – the integer state of one game and every event of a tick
    that changes it;
  - `combat` – the strike passes of a tick: lasers against enemy ships,
    lasers against debris, and the score they earn;
  - `effects` – which particle bursts each kind of hit sets off;
  - `roster` – the scene's objects and particle emitters as plain values:
    names, layers, tags and initial visibility;
  - `hud` – the gravity readout text;
  - `names` – scene object names and the score readout;
  - `minimap` – the minimap raster, painted onto an `image` RGBA buffer.
- `tests/` runs the library on concrete games.
- `app/` is the engine side: scene construction, the floating-point flight
  model, collision geometry and rendering.  It converts between the engine's
  game state and the library's `Session` around every decision.
