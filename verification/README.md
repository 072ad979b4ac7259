# fermi_term

The core of a small GPU terminal emulator, verified with Verus.

`src/` is the library:

- `terminal`: the character grid with its scrollback history, the cursor, the
  current colours, and the actions of printable characters, control bytes and
  CSI escape sequences (`vte` hands them over); the list of cells drawn for a
  frame.
- `model`: the mathematical model of the grid and of every action, against
  which the operations of `terminal` are proved.
- `vte_params`: the parameter lists of CSI sequences as `vte` parses them.
- `colors`: the 16-colour and 256-colour ANSI palettes.
- `keys`: the bytes a key press sends to the shell.
- `atlas`: packing of glyph bitmaps into the glyph atlas texture, and the
  cache that packs each character once and remembers where it went.
- `session`: what a key press or a window resize does to the grid.
- `laws`: properties proved across the operations (shape invariants, no
  overflow on any input of a well-shaped grid, undo laws, atlas disjointness,
  glyph reuse, frame layout).

`app/` is the program around it: window and event loop (winit), the GPU
renderer (wgpu, fontdue), the pseudo-terminal running the shell
(portable-pty), and the configuration file (serde, toml).
