# glyph8

The logic of Glyph8, a terminal NES emulator that draws frames with 24-bit
colour halfblocks, written in Verus and verified.

- `src/` — the verified library: controller state (`controller`), frame
  buffers (`frame`), the iNES header parser (`ines`), errors (`error`), the
  halfblock frame encoder and its diffing (`halfblock`, `render`), keyboard
  input mapping (`input`), the FPS window (`fps`), the terminal-size check and
  run-loop decisions (`terminal`), the headless frame digest (`digest`),
  ROM-load outcome (`backend`), and decimal/hex rendering (`text`).
- `app/` — the `glyph8` program: argument parsing (clap), the emulator
  backend over `tetanes-core`, the terminal (crossterm), files and clocks.
- `tests/` — tests of the library.
