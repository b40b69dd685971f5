# rupss

A terminal process and memory monitor for Linux. It lists processes with
their resident, unique, proportional and swapped memory and their CPU use,
as a flat table or as a process tree, with sorting, a column picker, a
filter modal, history charts and a per-process monitor.

## Layout

- `src/` is the verified library (Verus). It holds the application state
  and every transition of it (keys, clicks, refreshes, the timer), the
  sorting, filtering and tree building, the column layout, the stored
  preferences and the text the screen shows, each function with a contract
  that Verus proves. Laws that relate several functions are public proof
  functions named `lemma_*`.
- `app/` is the program around it: it reads `/proc` through `procfs`, draws
  with `ratatui`, reads keys and mouse events with `crossterm`, loads and
  saves the preferences with `serde` and `toml`, and does the
  floating-point work (CPU percentages, parsing thresholds, chart points).
- `tests/` runs the library on concrete values.

## Keys

- `q`: quit
- `j`/`k` or arrows: move; PgUp/PgDn: page; Home/End: first/last row
- `t`: toggle the tree view; Left/Right: collapse/expand
- `v`: column picker; `s`: sort picker; `f`: filter modal
- `p`: pause and resume refresh
- Enter: monitor the selected process
