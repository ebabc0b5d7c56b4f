# cowtui

A cow-themed terminal system monitor. The library (`src/`) holds the rules of
the monitor, each with a contract proved by Verus:

- `app`: tabs, history windows, the monitor state and its transitions, and
  the process table (search filter, stable ordering by column, direction,
  row limit);
- `input`: what each key does to the state and what the caller does next;
- `cow`: the mascot's mood for a load level, its colour, words and art;
- `sys`: the discrete part of a sample, C-string decoding, record counts,
  the order key that stands for a process's CPU share, and signal numbers;
- `ui`: colour themes, text helpers (`truncate`, `trim_mount`, `fmt_kb`,
  `fmt_rate`, `fmt_uptime`) and layout arithmetic;
- `text`, `decimal`: character-level and number-formatting helpers.

`app/` is the program around it: argument parsing, the FFI sampler, the
event loop, the floating-point readings and the ratatui drawing. Tests are in
`tests/`.
