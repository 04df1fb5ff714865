# pomc

The verified core of a small Minecraft client, written in Verus.

- `src/` — the library. Its functions are verified, except three small
  trusted wrappers around outside calls (the clock, PNG decoding with `png`
  and with `image`), whose contracts are assumed:
  - `text`, `assoc`: character-level string operations and string-keyed
    association lists with read-after-write lemmas;
  - `world::block::model`: default model of a block state, texture variable
    chains through model parents, reference resolution, face texture layouts;
  - `world::block::registry`: face textures and the block texture registry;
  - `ui::chat`, `ui::menu`, `ui::hud`: chat and main menu state, HUD texture
    pixels;
  - `window::input`: held keys and hotbar selection;
  - `renderer`: chunk meshing (which faces of which blocks are drawn, with
    which texture), quad indices, the panorama strip and PNG frame
    conversion, cull dispatch sizing.
- `app/` — file and GPU I/O, egui drawing and winit events around the library.
- `tests/` — tests of the library.
