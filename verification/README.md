# suiji_potplayer

A desktop helper for picking what to watch: it draws a random slate of
movies (or images) from one or more library folders, avoiding recent and
banned picks, and plays the movies as several PotPlayer instances tiled in
a grid over the work area, or the images as a slideshow or a wall.

## Layout

- `src/` is the library, verified with Verus. It holds the configuration
  model and its normalisation, the history, blacklist and favourite lists,
  the random picker, the grid tiler, path and text helpers, the index and
  thumbnail cache naming, and the session: a state machine whose methods
  take the current state and an event (a click, a finished scan, a launched
  player) and return the next state and what the shell should do.
  Laws that span several calls are public proof functions
  (`session_laws.rs`, `pathset.rs`, `config.rs`, `tiler.rs`, ...).
- `app/` is the shell that Verus does not see: the egui window, the
  threads that scan disks, launch and kill players and place their windows,
  and the JSON files on disk.
- `tests/` runs the library on concrete values.

Calls into `rand`, `image` and std's hasher and sort go through small
trusted wrappers whose contracts are stated next to them.
