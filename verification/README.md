# game_tracker

Tracks how long games are played each day and alerts when a daily limit is
reached.

- `src/` is the library, written in Verus and verified: the per-game ledger
  (`ledger`, `state`), the settings (`config`), the tracker's tick and alert
  rules (`tracker`), the settings window's decisions (`settings`), the
  `HH:MM:SS` text and limits (`clock`, `text`), the data file names (`paths`),
  and properties that span several calls (`laws`).
- `app/` is the program around it: `tracker` runs the background tracker,
  `ui` the settings window, and with no argument the single-binary tracker
  with a built-in list of games runs. It reads and writes `config.json` and
  `playtime.json` beside the executable, reads the clock, polls processes and
  shows alerts.
- `tests/` runs the library on concrete values.
