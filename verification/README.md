# rgpui-term

A terminal component for rgpui applications. The decisions the component
takes are written in Verus and proved against their contracts; the GUI,
the PTY and the emulator live around them.

- `src/` — the verified library (`rgpui_term`):
  - `color`, `ansi`, `theme`, `theme_manager`, `presets`: eight-bit colours,
    their `#rrggbbaa` text form, the 256-colour palette, themes and the
    registry of named themes;
  - `grid`, `regions`, `fragments`, `selection`: laying out a grid of cells
    into text runs, merged background rectangles, box-drawing, block and
    powerline glyphs, the selection highlight and the cursor;
  - `font`: which installed font families to try, in which order;
  - `input`, `terminal`: what pasting, focus changes and the mouse send, the
    queue of changes waiting for the emulator, and the answers to its events;
  - `text`: character-level helpers shared by the above.
- `tests/` — tests of the library.
- `app/` — the rgpui element and view, the alacritty-backed terminal entity,
  the configuration file and font measurement.
