# division_quiz

A terminal quiz on long division. The library (`src/`) is verified with Verus:

- `division`: difficulties, problem generation (random draws from `rand`) and the
  written form of a problem;
- `text`: decimal writing and `u32` parsing of strings;
- `quiz`: the quiz state and what every key does to it;
- `view`: the text of the statistics, quiz and history panels.

`app/main.rs` draws those panels with ratatui and reads keys with crossterm.
