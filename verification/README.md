# omnis_app

The presentation model of a first-person party RPG, verified with Verus: the menu
models and their keys, the canvas layout, the pixel buffer and its text, the widgets the
mouse hits, and the screens painted from them. Every function's contract is proved; the
engine that drives them (windows, input events, the simulation) is not part of this crate.

Layout of `src/`:

- `layout`, `canvas`: rectangles, the text grids, the canvas at a width.
- `raster`, `font`, `text`, `hash`: the RGBA buffer and what paints into it, the 5x7 font,
  decimal and padded text, FNV-1a.
- `widget`, `panels`, `band`, `screens`, `screen`: hit regions and the painted frame; the
  location lines and pads; the band under the viewport; the menu screens; clicks as keys.
- `menu`, `creation_menu`, `creation_panel`, `combat_menu`, `debug_menu`,
  `inventory_menu`, `sheet_menu`, `spell_menu`, `use_menu`: the screen models and their keys.
- `combat_screen`, `debug_screen`, `inventory_screen`, `sheet_screen`, `plan`, `actors`:
  the painted overlays; the viewport's detail rows in draw order, the automap and its
  window; the monster silhouettes.
- `combat_text`, `spell_text`: the simulation's events as the dice log's lines, long with
  the roll math and short with the outcome alone.
- `launch`, `sim`, `input`, `ui`, `hud`, `sense_text`: the command line and its dev
  switches, the shell's
  commands, the tool pad's buttons, the roll log, the clock line, the sense words.

The laws the library keeps stand as public proof functions next to the functions they
speak of (`lemma_*`).
