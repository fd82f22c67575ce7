# LayerMind

An intelligence layer for 3D printers: it follows printer events, turns
them into observations, knowledge and a timeline, learns patterns and
trends from the history, and suggests tuning and maintenance.

The library in `src/` is written in Verus: every function carries a
contract that Verus proves. Fractions are kept as integer thousandths,
durations in milliseconds and times as milliseconds since the Unix epoch.

- `event`, `observation`, `timeline`, `knowledge`, `machine`: the data.
- `rules`, `print_tracker`, `metrics`, `analyzer`: detection rules, print
  lifecycle and health counters, and the per-printer analyzer.
- `tracker`, `profiler`, `knowledge_timeline`, `knowledge_engine`: the
  knowledge layer.
- `context`: the per-printer context cache.
- `store`, `query`, `bridge`, `snapshot`, `diff`: the timeline store and
  its queries, and snapshots of machines with their differences.
- `learning`, `patterns`, `prints`, `calibration`, `trends`, `prediction`,
  `behavior`, `optimization`: the learning engines.
- `config`, `provider`, `advisor`, `database`, `tui`: settings, AI
  backends (choice, status errors, reading their replies) and retries,
  rule-based advice, persistence helpers, and the terminal monitor's
  state with what each poll of the printer does to it.

`app/` is the command-line program around it: argument handling, the
environment, the HTTP calls to the AI backends and to Moonraker (whose
JSON replies it turns into the library's plain values), the scores that
need floating point, and the daemon's channels. `tests/` exercises the library.
