# rustypaint

The logic of a small paint program, verified with Verus.

`src/` is the library. Every function in it has a contract that Verus proves, except four
small wrappers round std functions (`String::push`, `String::from_utf8_lossy`,
`u32::to_ne_bytes`, `usize::to_ne_bytes`), whose contracts are taken on trust:

- `session` — the documents open in the window and the question asked before unsaved
  work is thrown away: from each event, the next state and what the window is to do.
- `canvas` — the size of a new canvas, the readout of that size, and the custom-size boxes.
- `config` — what the settings file is read as, where it lives on Windows, macOS and
  Unix-like systems, and the row of custom colours.
- `text` — writing and reading whole numbers, trimming white space, finding line ends.
- `uri_list` — turning a dropped `text/uri-list` into local paths, and following a drag.
- `region` — rectangles of pixels, dragging the grips of the crop frame, the crop boxes.
- `panel` — the side panel's tabs, fields and units, and the canvas-size panel.
- `tabs` — the open documents as a row of tabs.
- `cutout` — the Smart Cutout: undo and redo of its refinement, its runs, its mask.
- `sheet` — a picture, lifting a selection off it to float and laying it back.
- `keys` — what a key press asks for, outside and inside a text box.
- `stickers` — the shelf of recently placed pictures.

`app/` is the program around it: the settings file as TOML, the window's
floating-point geometry, keyboard events, and `main`, which runs the session on
commands typed one per line. `tests/` exercises the library.
