# SokoTerm

A Sokoban-like puzzle game for the terminal. The rules of the game, its file formats and
its screens are a library whose behaviour is stated in contracts and proved with Verus; a
small front end draws the game, reads the keyboard and the mouse, plays sounds and writes
files.

## Layout

- `src/` — the verified library
  - `collections.rs`: the bounded undo history
  - `text.rs`: text helpers (lines, splitting, trimming, decimal numbers) and their laws
  - `utils.rs`: byte counts with binary prefixes
  - `io/console.rs`: keys, colors and the character buffers of a console
  - `game.rs`: settings and their file format
  - `game/level.rs`: tiles, levels, their text format and the rules of moving
  - `game/level_pack.rs`: level packs, their file format and save games
  - `game/help_page.rs`: the layout of the help pages
  - `game/screen/`: dialogs, lists and the screens of the game
  - `game/state.rs`, `game/engine.rs`: the state shared by the screens and one update of
    the game, which hands sounds, music and file writes to the front end as requests
- `app/` — the terminal front end
- `tests/` — tests of the library

The data files of the game (`resources/` and `assets/`) are read at start from the
working directory.
